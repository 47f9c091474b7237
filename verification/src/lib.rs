//! Sprite-sheet packing, instance resolution and integer upscaling for a
//! fixed-resolution pixel renderer.
//!
//! Everything here is plain data in, plain data out: the caller owns the
//! device, the window and the frame loop, and asks this crate what to upload
//! and where to draw.

use vstd::prelude::*;

pub mod assets;
pub mod bytes;
pub mod canvas;
pub mod frame;
pub mod packing;
pub mod primitives;
pub mod sprite;
pub mod upscale;
pub mod window;

verus! {

/// Widest texture, in pixels, that the renderer asks the device for.
pub const MAX_TEXTURE_DIMENSION_2D: u32 = 8192;

/// Width and height of a pixel surface.
#[derive(Debug, Clone, Copy)]
pub struct Size {
    pub width: u32,
    pub height: u32,
}

/// What can go wrong while setting up the renderer or drawing a frame.
#[derive(Debug)]
pub enum RenderError {
    CreateSurface,
    AcquireAdapter,
    AcquireDevice,
    SurfaceTexture,
    Other(String),
}

impl RenderError {
    /// The text of the error.
    pub open spec fn text(&self) -> Seq<char> {
        match self {
            RenderError::CreateSurface => "failed to create surface"@,
            RenderError::AcquireAdapter => "adapter request failed"@,
            RenderError::AcquireDevice => "device request failed"@,
            RenderError::SurfaceTexture => "couldn't acquire surface texture"@,
            RenderError::Other(err) => err@,
        }
    }

    /// The text of the error, for display.
    pub fn message(&self) -> (message: String)
        ensures
            message@ == self.text(),
    {
        match self {
            RenderError::CreateSurface => "failed to create surface".to_owned(),
            RenderError::AcquireAdapter => "adapter request failed".to_owned(),
            RenderError::AcquireDevice => "device request failed".to_owned(),
            RenderError::SurfaceTexture => "couldn't acquire surface texture".to_owned(),
            RenderError::Other(err) => err.clone(),
        }
    }
}

} // verus!
