//! The input side: a byte buffer taken as a grid of RGBA pixels.

use crate::error::EncodeError;
use vstd::prelude::*;
use vstd::slice::*;

verus! {

/// The longest side an image may have: the container records each side,
/// less one, in fourteen bits.
pub const MAX_DIMENSION: u32 = 16384;

/// Bytes per pixel: red, green, blue, alpha, eight bits each.
pub const CHANNELS: usize = 4;

/// Both sides are at least one pixel and at most [`MAX_DIMENSION`].
pub open spec fn valid_dimensions(width: u32, height: u32) -> bool {
    &&& 1 <= width <= MAX_DIMENSION
    &&& 1 <= height <= MAX_DIMENSION
}

/// The number of bytes that an image of the given sides occupies: rows one
/// after the other, no padding between them.
pub open spec fn buffer_len(width: u32, height: u32) -> int {
    width * height * 4
}

/// Where the pixel in column `x` of row `y` starts in the buffer.
pub open spec fn pixel_offset(width: u32, x: u32, y: u32) -> int {
    (y * width + x) * 4
}

/// What [`PixelBuffer::wrap`] answers for a buffer of `len` bytes: the
/// sides are judged first, the length after.
pub open spec fn wrap_verdict(len: int, width: u32, height: u32) -> Result<(), EncodeError> {
    if !valid_dimensions(width, height) {
        Err(EncodeError::InvalidDimensions)
    } else if len != buffer_len(width, height) {
        Err(EncodeError::BufferSizeMismatch)
    } else {
        Ok(())
    }
}

/// Tells whether both sides are in range.
pub fn check_dimensions(width: u32, height: u32) -> (yes: bool)
    ensures
        yes == valid_dimensions(width, height),
{
    1 <= width && width <= MAX_DIMENSION && 1 <= height && height <= MAX_DIMENSION
}

/// One pixel, channel by channel.
#[derive(Clone, Copy, Debug, PartialEq, Eq, Structural)]
pub struct Rgba {
    pub red: u8,
    pub green: u8,
    pub blue: u8,
    pub alpha: u8,
}

/// A borrowed buffer known to hold exactly `width * height` RGBA pixels,
/// with both sides in range.
pub struct PixelBuffer<'a> {
    bytes: &'a [u8],
    width: u32,
    height: u32,
}

impl<'a> PixelBuffer<'a> {
    #[verifier::type_invariant]
    spec fn sound(self) -> bool {
        &&& valid_dimensions(self.width, self.height)
        &&& self.bytes@.len() == buffer_len(self.width, self.height)
    }

    /// The bytes of the image, row by row.
    pub closed spec fn view(self) -> Seq<u8> {
        self.bytes@
    }

    /// The number of pixels in a row.
    pub closed spec fn spec_width(self) -> u32 {
        self.width
    }

    /// The number of rows.
    pub closed spec fn spec_height(self) -> u32 {
        self.height
    }

    /// The pixel in column `x` of row `y`, read off the bytes.
    pub open spec fn pixel_at(self, x: u32, y: u32) -> Rgba {
        let at = pixel_offset(self.spec_width(), x, y);
        Rgba {
            red: self@[at],
            green: self@[at + 1],
            blue: self@[at + 2],
            alpha: self@[at + 3],
        }
    }

    /// Takes `bytes` as an image of `width` by `height` pixels, or says
    /// what is wrong with the request. The bytes are borrowed, not copied.
    pub fn wrap(bytes: &'a [u8], width: u32, height: u32) -> (r: Result<PixelBuffer<'a>, EncodeError>)
        ensures
            match r {
                Ok(buffer) => {
                    &&& wrap_verdict(bytes@.len() as int, width, height) is Ok
                    &&& buffer@ == bytes@
                    &&& buffer.spec_width() == width
                    &&& buffer.spec_height() == height
                },
                Err(error) => wrap_verdict(bytes@.len() as int, width, height) == Err::<(), EncodeError>(error),
            },
    {
        if !check_dimensions(width, height) {
            return Err(EncodeError::InvalidDimensions);
        }
        assert(width * height <= 16384 * 16384) by (nonlinear_arith)
            requires
                width <= 16384,
                height <= 16384,
        ;
        let expected: u64 = (width as u64) * (height as u64) * 4;
        if bytes.len() as u64 != expected {
            return Err(EncodeError::BufferSizeMismatch);
        }
        Ok(PixelBuffer { bytes, width, height })
    }

    /// The number of pixels in a row.
    pub fn width(&self) -> (w: u32)
        ensures
            w == self.spec_width(),
            1 <= w <= MAX_DIMENSION,
    {
        proof {
            use_type_invariant(self);
        }
        self.width
    }

    /// The number of rows.
    pub fn height(&self) -> (h: u32)
        ensures
            h == self.spec_height(),
            1 <= h <= MAX_DIMENSION,
    {
        proof {
            use_type_invariant(self);
        }
        self.height
    }

    /// The bytes of the image, row by row.
    pub fn bytes(&self) -> (b: &'a [u8])
        ensures
            b@ == self@,
            b@.len() == buffer_len(self.spec_width(), self.spec_height()),
    {
        proof {
            use_type_invariant(self);
        }
        self.bytes
    }

    /// The pixel in column `x` of row `y`, or `None` where the image has no
    /// such column or row.
    pub fn pixel(&self, x: u32, y: u32) -> (p: Option<Rgba>)
        ensures
            p == if x < self.spec_width() && y < self.spec_height() {
                Some(self.pixel_at(x, y))
            } else {
                None
            },
    {
        proof {
            use_type_invariant(self);
        }
        if x >= self.width || y >= self.height {
            return None;
        }
        let len: usize = self.bytes.len();
        proof {
            cell_in_bounds(self.width, self.height, x, y);
            assert(0 <= y * self.width) by (nonlinear_arith);
            assert((y * self.width + x) * 4 + 4 <= len);
        }
        let at: usize = ((y as usize) * (self.width as usize) + (x as usize)) * CHANNELS;
        Some(
            Rgba {
                red: self.bytes[at],
                green: self.bytes[at + 1],
                blue: self.bytes[at + 2],
                alpha: self.bytes[at + 3],
            },
        )
    }
}

/// A pixel inside the grid lies wholly inside the buffer.
pub proof fn cell_in_bounds(width: u32, height: u32, x: u32, y: u32)
    requires
        x < width,
        y < height,
    ensures
        0 <= y * width + x < width * height,
        0 <= pixel_offset(width, x, y),
        pixel_offset(width, x, y) + 4 <= buffer_len(width, height),
{
    assert(y * width + x < width * height) by (nonlinear_arith)
        requires
            x < width,
            y < height,
    ;
    assert(0 <= y * width) by (nonlinear_arith);
}

/// Two different cells of the grid never share a byte.
pub proof fn cells_are_disjoint(width: u32, x1: u32, y1: u32, x2: u32, y2: u32)
    requires
        x1 < width,
        x2 < width,
        (x1, y1) != (x2, y2),
    ensures
        pixel_offset(width, x1, y1) + 4 <= pixel_offset(width, x2, y2) || pixel_offset(
            width,
            x2,
            y2,
        ) + 4 <= pixel_offset(width, x1, y1),
{
    if y1 < y2 {
        assert((y1 + 1) * width <= y2 * width) by (nonlinear_arith)
            requires
                y1 < y2,
        ;
        assert((y1 + 1) * width == y1 * width + width) by (nonlinear_arith);
    } else if y2 < y1 {
        assert((y2 + 1) * width <= y1 * width) by (nonlinear_arith)
            requires
                y2 < y1,
        ;
        assert((y2 + 1) * width == y2 * width + width) by (nonlinear_arith);
    }
}

} // verus!
