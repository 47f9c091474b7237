//! Static game assets.

use std::fmt::Debug;
use vstd::prelude::*;

verus! {

/// A map of static game assets, looked up by handle.
pub trait Assets: Sized {
    type Error: Debug;

    type Handle: Copy;

    /// Loads the assets.
    fn init() -> Result<Self, Self::Error>;

    /// The asset behind `handle`, if there is one of type `T`.
    fn get<T>(&self, handle: Self::Handle) -> Option<&'static T>;
}

/// The handle of a game without assets: it stands for nothing.
#[derive(Debug, Clone, Copy)]
pub struct NoHandle;

/// The game without assets: loading cannot fail and nothing is found.
impl Assets for () {
    type Error = ();

    type Handle = NoHandle;

    fn init() -> (assets: Result<Self, Self::Error>)
        ensures
            assets is Ok,
    {
        Ok(())
    }

    fn get<T>(&self, handle: Self::Handle) -> (asset: Option<&'static T>)
        ensures
            asset is None,
    {
        None
    }
}

} // verus!
