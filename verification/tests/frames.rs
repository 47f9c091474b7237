use bitte_pixels::frame::{AcquireStep, Acquisition};
use bitte_pixels::window::{LoopAction, WindowSignal};
use bitte_pixels::RenderError;

#[test]
fn texture_at_first_attempt_is_drawn_on() {
    let (state, step) = Acquisition::Fresh.after_attempt(true);
    assert_eq!(state, Acquisition::Fresh);
    assert!(matches!(step, AcquireStep::Draw));
}

#[test]
fn first_failure_reconfigures() {
    let (state, step) = Acquisition::Fresh.after_attempt(false);
    assert_eq!(state, Acquisition::Reconfigured);
    assert!(matches!(step, AcquireStep::Reconfigure));
}

#[test]
fn texture_at_second_attempt_is_drawn_on() {
    let (state, _) = Acquisition::Fresh.after_attempt(false);
    let (state, step) = state.after_attempt(true);
    assert_eq!(state, Acquisition::Reconfigured);
    assert!(matches!(step, AcquireStep::Draw));
}

#[test]
fn second_failure_gives_the_frame_up() {
    let (state, _) = Acquisition::Fresh.after_attempt(false);
    let (_, step) = state.after_attempt(false);
    assert!(matches!(step, AcquireStep::Fail(RenderError::SurfaceTexture)));
}

#[test]
fn error_messages() {
    assert_eq!(RenderError::CreateSurface.message(), "failed to create surface");
    assert_eq!(RenderError::AcquireAdapter.message(), "adapter request failed");
    assert_eq!(RenderError::AcquireDevice.message(), "device request failed");
    assert_eq!(RenderError::SurfaceTexture.message(), "couldn't acquire surface texture");
    assert_eq!(RenderError::Other(String::from("out of memory")).message(), "out of memory");
    assert_eq!(RenderError::Other(String::new()).message(), "");
}

#[test]
fn loop_answers_each_signal() {
    assert_eq!(WindowSignal::RedrawRequested.decide(), LoopAction::Update);
    assert_eq!(
        WindowSignal::Resized { width: 640, height: 480 }.decide(),
        LoopAction::Resize { width: 640, height: 480 }
    );
    assert_eq!(WindowSignal::Input.decide(), LoopAction::Queue);
    assert_eq!(WindowSignal::CloseRequested.decide(), LoopAction::Exit);
    assert_eq!(WindowSignal::Destroyed.decide(), LoopAction::Exit);
    assert_eq!(WindowSignal::AboutToWait.decide(), LoopAction::RequestRedraw);
    assert_eq!(WindowSignal::Other.decide(), LoopAction::Ignore);
}
