//! Verified writer for the IVF video container format, together with the
//! pacing and pipe-capacity decisions of a raw-frame encoding pipeline.
//!
//! The container layout (a fixed 32-byte header followed by length-prefixed,
//! timestamped frame records) is specified byte for byte as spec functions,
//! and the executable builders and parsers are proved to match them, including
//! the round trips between the two.

pub mod args;
pub mod capacity;
pub mod header;
pub mod le_bytes;
pub mod records;
pub mod writer;

use vstd::prelude::*;

verus! {

/// Number of bytes in one raw planar 4:2:0 frame: a full-resolution luma
/// plane of `width * height` bytes followed by two chroma planes of a
/// quarter resolution each.
pub open spec fn spec_frame_buffer_size(width: int, height: int) -> int {
    width * height * 3 / 2
}

/// Size of the raw frame buffer that one frame of the given geometry fills.
pub fn frame_buffer_size(width: u32, height: u32) -> (n: u32)
    requires
        width * height * 3 <= u32::MAX,
    ensures
        n == spec_frame_buffer_size(width as int, height as int),
{
    let pixels: u32 = width * height;
    pixels * 3 / 2
}

} // verus!
