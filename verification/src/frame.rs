//! Acquiring the surface texture for a frame.
//!
//! A surface can go stale, for one when the window changes behind the
//! renderer's back. A failed attempt is answered by configuring the surface
//! anew and trying once more; a second failure ends the frame with an error.

use crate::RenderError;
use vstd::prelude::*;

verus! {

/// How far the acquisition of this frame's texture has come.
#[derive(Debug, Clone, Copy, PartialEq, Eq, Structural)]
pub enum Acquisition {
    /// Nothing has failed yet.
    Fresh,
    /// One attempt failed and the surface was configured anew.
    Reconfigured,
}

/// What to do after an attempt.
#[derive(Debug)]
pub enum AcquireStep {
    /// The attempt gave a texture: draw on it.
    Draw,
    /// Configure the surface anew and try again.
    Reconfigure,
    /// Give the frame up with this error.
    Fail(RenderError),
}

impl Acquisition {
    /// The step that follows an attempt made in this state.
    pub open spec fn step(self, acquired: bool) -> AcquireStep {
        if acquired {
            AcquireStep::Draw
        } else {
            match self {
                Acquisition::Fresh => AcquireStep::Reconfigure,
                Acquisition::Reconfigured => AcquireStep::Fail(RenderError::SurfaceTexture),
            }
        }
    }

    /// The state in which the next attempt, if any, is made.
    pub open spec fn next(self, acquired: bool) -> Acquisition {
        if acquired {
            self
        } else {
            Acquisition::Reconfigured
        }
    }

    /// Decides what follows an attempt to acquire the surface texture:
    /// `acquired` says whether the attempt gave one.
    pub fn after_attempt(self, acquired: bool) -> (decision: (Acquisition, AcquireStep))
        ensures
            decision.0 == self.next(acquired),
            decision.1 == self.step(acquired),
    {
        if acquired {
            (self, AcquireStep::Draw)
        } else {
            match self {
                Acquisition::Fresh => (Acquisition::Reconfigured, AcquireStep::Reconfigure),
                Acquisition::Reconfigured => (
                    Acquisition::Reconfigured,
                    AcquireStep::Fail(RenderError::SurfaceTexture),
                ),
            }
        }
    }
}

/// A frame makes at most two attempts: whatever the first one gives, the
/// second one is never answered by configuring again.
pub proof fn lemma_one_retry(first: bool, second: bool)
    ensures
        Acquisition::Fresh.step(first) is Reconfigure <==> !first,
        !(Acquisition::Fresh.next(first).step(second) is Reconfigure && !first),
        !first && !second ==> Acquisition::Fresh.next(first).step(second) == AcquireStep::Fail(
            RenderError::SurfaceTexture,
        ),
        first ==> Acquisition::Fresh.step(first) is Draw,
        !first && second ==> Acquisition::Fresh.next(first).step(second) is Draw,
{
}

} // verus!
