//! Lossless WebP encoding of RGBA pixels.
//!
//! [`encode`] takes a buffer of RGBA bytes and the sides of the image and
//! returns a WebP file. The compression is done by the `image-webp` crate;
//! what is verified here is everything around it: which requests are
//! refused and why, the layout of the file, and that no file leaves
//! [`encode`] unless it is the container of an image of the sides asked
//! for.

pub mod codec;
pub mod container;
pub mod error;
pub mod pixels;

pub use crate::error::EncodeError;
pub use crate::pixels::PixelBuffer;

use crate::codec::{encode_lossless, lossless_file};
use crate::container::{
    check_container, container_header, is_container, le32_value, riff_tag, webp_tag, MAX_FILE_LEN,
};
use crate::pixels::{buffer_len, valid_dimensions};
use vstd::prelude::*;

verus! {

/// The bytes of a result, with the error left as it is.
pub open spec fn bytes_of(outcome: Result<Vec<u8>, EncodeError>) -> Result<Seq<u8>, EncodeError> {
    match outcome {
        Ok(file) => Ok(file@),
        Err(error) => Err(error),
    }
}

/// The bytes of what the codec handed back.
pub open spec fn reply_bytes(reply: Option<Vec<u8>>) -> Option<Seq<u8>> {
    match reply {
        Some(file) => Some(file@),
        None => None,
    }
}

/// What becomes of the codec's reply: nothing, or a file too long for a
/// 32-bit length, or bytes that are not the container of a `width` by
/// `height` image, is a failure; a container is passed on.
pub open spec fn finish_verdict(reply: Option<Seq<u8>>, width: u32, height: u32) -> Result<
    Seq<u8>,
    EncodeError,
> {
    match reply {
        None => Err(EncodeError::EncoderInternalError),
        Some(file) => if file.len() > MAX_FILE_LEN {
            Err(EncodeError::SizeOverflow)
        } else if is_container(file, width, height) {
            Ok(file)
        } else {
            Err(EncodeError::EncoderInternalError)
        },
    }
}

/// What [`encode`] returns: the sides are judged first, then the length of
/// the buffer, and only then is the codec asked.
pub open spec fn encode_verdict(pixels: Seq<u8>, width: u32, height: u32) -> Result<
    Seq<u8>,
    EncodeError,
> {
    if !valid_dimensions(width, height) {
        Err(EncodeError::InvalidDimensions)
    } else if pixels.len() != buffer_len(width, height) {
        Err(EncodeError::BufferSizeMismatch)
    } else {
        finish_verdict(lossless_file(pixels, width, height), width, height)
    }
}

/// Judges what the codec handed back for an image of the given sides.
///
/// A file that passes is returned as it came, not copied.
pub fn finish(reply: Option<Vec<u8>>, width: u32, height: u32) -> (outcome: Result<
    Vec<u8>,
    EncodeError,
>)
    ensures
        bytes_of(outcome) == finish_verdict(reply_bytes(reply), width, height),
        outcome matches Ok(file) ==> reply == Some(file),
{
    match reply {
        None => Err(EncodeError::EncoderInternalError),
        Some(file) => {
            if file.len() as u64 > MAX_FILE_LEN {
                Err(EncodeError::SizeOverflow)
            } else if check_container(file.as_slice(), width, height) {
                Ok(file)
            } else {
                Err(EncodeError::EncoderInternalError)
            }
        },
    }
}

/// Encodes `width * height` RGBA pixels, four bytes each, row by row, as a
/// lossless WebP file.
///
/// The request is validated, the codec is called, and its output is
/// checked before it is returned; the first step that fails ends the call.
/// A zero or overlong side is `InvalidDimensions`, whatever the buffer
/// holds. With sides in range, a buffer of any length but
/// `width * height * 4` is `BufferSizeMismatch`. A file that comes back is
/// a well-formed container: it opens with `RIFF`, its size field counts
/// the bytes after that field, and `WEBP` follows.
pub fn encode(input: &[u8], width: u32, height: u32) -> (outcome: Result<Vec<u8>, EncodeError>)
    ensures
        bytes_of(outcome) == encode_verdict(input@, width, height),
        outcome == Err::<Vec<u8>, EncodeError>(EncodeError::InvalidDimensions)
            <==> !valid_dimensions(width, height),
        outcome == Err::<Vec<u8>, EncodeError>(EncodeError::BufferSizeMismatch)
            <==> valid_dimensions(width, height) && input@.len() != buffer_len(width, height),
        outcome matches Ok(file) ==> {
            &&& is_container(file@, width, height)
            &&& file@.subrange(0, 4) == riff_tag()
            &&& le32_value(file@.subrange(4, 8)) == file@.len() - 8
            &&& file@.subrange(8, 12) == webp_tag()
        },
{
    let buffer = match PixelBuffer::wrap(input, width, height) {
        Ok(buffer) => buffer,
        Err(error) => {
            return Err(error);
        },
    };
    let reply = encode_lossless(buffer.bytes(), buffer.width(), buffer.height());
    let outcome = finish(reply, width, height);
    proof {
        if outcome is Ok {
            container_header(outcome->Ok_0@, width, height);
        }
    }
    outcome
}

/// Encoding is a function of its input: two calls on the same pixels and
/// sides cannot differ, in the file or in the error.
///
/// This rests on the codec's outcome being determined by its arguments,
/// which is taken on trust where the codec is called.
pub proof fn encode_is_deterministic(
    pixels: Seq<u8>,
    width: u32,
    height: u32,
    first: Result<Vec<u8>, EncodeError>,
    second: Result<Vec<u8>, EncodeError>,
)
    requires
        bytes_of(first) == encode_verdict(pixels, width, height),
        bytes_of(second) == encode_verdict(pixels, width, height),
    ensures
        bytes_of(first) == bytes_of(second),
        first is Ok ==> second is Ok && first->Ok_0@ == second->Ok_0@,
        first matches Err(error) ==> second == Err::<Vec<u8>, EncodeError>(error),
{
}

} // verus!
