//! Error kinds of the draw-injection subsystem.
//!
//! Per-mesh and per-texture errors are recovered locally by the callers: the
//! offending item is skipped and the rest of the frame goes on. A violated
//! arena alignment means the host's own bookkeeping is corrupt, so the
//! offending operation is refused outright instead of writing at a bad offset.

use vstd::prelude::*;

verus! {

/// Why one mesh or one texture operation was refused.
#[derive(Clone, Copy, PartialEq, Eq, Structural, Debug)]
pub enum DrawError {
    /// The host's fixed-capacity draw-command list is full.
    OutOfDrawCommands,
    /// A mesh referenced a texture id that the cache does not hold.
    InvalidTexture(u64),
    /// An arena's allocated offset breaks its alignment invariant; the host
    /// state is corrupt and the allocation is refused.
    BadAlignment,
    /// A texture payload's byte length does not match `4 * width * height`.
    InvalidImageData,
    /// The host's texture-creation entry point returned its failure sentinel.
    TextureCreationFailed,
}

impl DrawError {
    /// A short human-readable description of the error.
    pub fn describe(&self) -> &'static str {
        match self {
            DrawError::OutOfDrawCommands => "Ran out of draw commands",
            DrawError::InvalidTexture(_) => "Invalid texture ID",
            DrawError::BadAlignment => "Bad arena alignment",
            DrawError::InvalidImageData => "Invalid image data",
            DrawError::TextureCreationFailed => "Could not create texture",
        }
    }
}

} // verus!
