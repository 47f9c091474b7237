//! What the event loop does with what the window reports.
//!
//! The loop itself belongs to the windowing system. Between two redraws it
//! gathers input; at a redraw the game takes a step with the input gathered
//! and is drawn; a resize goes to the renderer; closing the window ends the
//! loop.

use vstd::prelude::*;

verus! {

/// What the window reports, as far as the loop tells one report from
/// another.
#[derive(Debug, Clone, Copy, PartialEq, Eq)]
pub enum WindowSignal {
    /// The window wants its contents drawn.
    RedrawRequested,
    /// The window has a new size.
    Resized { width: u32, height: u32 },
    /// Focus, a key, the cursor or a mouse button.
    Input,
    /// The user asked for the window to be closed.
    CloseRequested,
    /// The window is gone.
    Destroyed,
    /// All pending events are handled.
    AboutToWait,
    /// Anything else.
    Other,
}

/// What the loop does next.
#[derive(Debug, Clone, Copy, PartialEq, Eq)]
pub enum LoopAction {
    /// Step the game with the input gathered, and render it.
    Update,
    /// Tell the renderer the new size.
    Resize { width: u32, height: u32 },
    /// Keep the input for the next step.
    Queue,
    /// Leave the loop.
    Exit,
    /// Ask the window for a redraw.
    RequestRedraw,
    /// Nothing.
    Ignore,
}

impl WindowSignal {
    /// The action that answers this signal.
    pub open spec fn action(self) -> LoopAction {
        match self {
            WindowSignal::RedrawRequested => LoopAction::Update,
            WindowSignal::Resized { width, height } => LoopAction::Resize { width, height },
            WindowSignal::Input => LoopAction::Queue,
            WindowSignal::CloseRequested => LoopAction::Exit,
            WindowSignal::Destroyed => LoopAction::Exit,
            WindowSignal::AboutToWait => LoopAction::RequestRedraw,
            WindowSignal::Other => LoopAction::Ignore,
        }
    }

    /// Decides what the loop does on this signal.
    pub fn decide(self) -> (action: LoopAction)
        ensures
            action == self.action(),
    {
        match self {
            WindowSignal::RedrawRequested => LoopAction::Update,
            WindowSignal::Resized { width, height } => LoopAction::Resize { width, height },
            WindowSignal::Input => LoopAction::Queue,
            WindowSignal::CloseRequested | WindowSignal::Destroyed => LoopAction::Exit,
            WindowSignal::AboutToWait => LoopAction::RequestRedraw,
            WindowSignal::Other => LoopAction::Ignore,
        }
    }
}

/// The game steps on a redraw and on nothing else, and the loop ends when
/// the window closes or is gone and on nothing else.
pub proof fn lemma_update_and_exit(signal: WindowSignal)
    ensures
        signal.action() is Update <==> signal is RedrawRequested,
        signal.action() is Exit <==> signal is CloseRequested || signal is Destroyed,
        signal matches WindowSignal::Resized { width, height } ==> signal.action()
            == (LoopAction::Resize { width, height }),
{
}

} // verus!
