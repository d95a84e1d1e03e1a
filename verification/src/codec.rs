//! The one call into the `image-webp` crate, which does the compression.

use crate::pixels::valid_dimensions;
use image_webp::{ColorType, WebPEncoder};
use vstd::prelude::*;

verus! {

/// The file that `image-webp` writes for an RGBA buffer and its sides, or
/// `None` where it reports an error instead.
///
/// Nothing is said here of what the bytes are: the library checks them
/// itself before it hands them on.
pub uninterp spec fn lossless_file(pixels: Seq<u8>, width: u32, height: u32) -> Option<Seq<u8>>;

/// Calls `image_webp::WebPEncoder::encode` with the colour type `Rgba8` on
/// an encoder that writes into a fresh vector, and returns the vector
/// where the call succeeds.
///
/// The contract claims one thing: the outcome depends on the pixels and
/// the two sides alone, so it has a name. The encoder panics where the
/// buffer's length is not `width * height * 4`; the precondition keeps such
/// calls out, and asks for sides in range besides, so that nothing is
/// claimed of requests the library never makes.
#[verifier::external_body]
pub(crate) fn encode_lossless(pixels: &[u8], width: u32, height: u32) -> (file: Option<Vec<u8>>)
    requires
        valid_dimensions(width, height),
        pixels@.len() == width * height * 4,
    ensures
        match file {
            Some(bytes) => lossless_file(pixels@, width, height) == Some(bytes@),
            None => lossless_file(pixels@, width, height) is None,
        },
{
    let mut bytes = Vec::new();
    match WebPEncoder::new(&mut bytes).encode(pixels, width, height, ColorType::Rgba8) {
        Ok(()) => Some(bytes),
        Err(_) => None,
    }
}

} // verus!
