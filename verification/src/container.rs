//! The file layout: a RIFF header and one chunk that carries a lossless
//! frame.
//!
//! A file is twelve bytes of header (the signature `RIFF`, the number of
//! bytes that follow the size field, the format tag `WEBP`) and a chunk.
//! A chunk is a four-byte tag, the payload's length, the payload, and one
//! zero byte more where the payload's length is odd. The payload of the
//! one chunk here, tagged `VP8L`, is a five-byte frame header followed by
//! the compressed stream. Every number is stored least significant byte
//! first.

use crate::error::EncodeError;
use crate::pixels::{check_dimensions, valid_dimensions};
use vstd::prelude::*;

verus! {

/// The first byte of a lossless frame.
pub const FRAME_SIGNATURE: u8 = 0x2f;

/// The flag in the frame header that says the pixels carry alpha.
pub const ALPHA_FLAG: u32 = 0x1000_0000;

/// Bytes in front of the compressed stream: file header, chunk header and
/// frame header.
pub const STREAM_OFFSET: usize = 25;

/// The longest file there is: its length must fit in 32 bits.
pub const MAX_FILE_LEN: u64 = 0xffff_ffff;

/// The file signature, `RIFF`.
pub open spec fn riff_tag() -> Seq<u8> {
    seq![0x52u8, 0x49u8, 0x46u8, 0x46u8]
}

/// The format tag, `WEBP`.
pub open spec fn webp_tag() -> Seq<u8> {
    seq![0x57u8, 0x45u8, 0x42u8, 0x50u8]
}

/// The tag of the chunk that carries a lossless frame, `VP8L`.
pub open spec fn vp8l_tag() -> Seq<u8> {
    seq![0x56u8, 0x50u8, 0x38u8, 0x4cu8]
}

/// The four bytes that store `value`, least significant first.
#[verifier::opaque]
pub open spec fn le32(value: int) -> Seq<u8> {
    seq![
        (value % 256) as u8,
        (value / 0x100 % 256) as u8,
        (value / 0x1_0000 % 256) as u8,
        (value / 0x100_0000 % 256) as u8,
    ]
}

/// The number that four bytes store.
pub open spec fn le32_value(bytes: Seq<u8>) -> int {
    bytes[0] + bytes[1] * 0x100 + bytes[2] * 0x1_0000 + bytes[3] * 0x100_0000
}

/// The word of the frame header: each side less one in fourteen bits, width
/// lowest, then the alpha flag; the three version bits above it are zero.
pub open spec fn header_word(width: u32, height: u32) -> int {
    (width - 1) + (height - 1) * 0x4000 + ALPHA_FLAG
}

/// What follows a payload of `len` bytes so that the next chunk starts on
/// an even offset.
pub open spec fn padding(len: int) -> Seq<u8> {
    if len % 2 == 1 {
        seq![0u8]
    } else {
        Seq::empty()
    }
}

/// A chunk: tag, length of the payload, payload, padding.
pub open spec fn chunk(tag: Seq<u8>, payload: Seq<u8>) -> Seq<u8> {
    tag + le32(payload.len() as int) + payload + padding(payload.len() as int)
}

/// A lossless frame: signature byte, header word, compressed stream.
pub open spec fn frame(stream: Seq<u8>, width: u32, height: u32) -> Seq<u8> {
    seq![FRAME_SIGNATURE] + le32(header_word(width, height)) + stream
}

/// The whole file for a compressed stream and the sides of its image.
#[verifier::opaque]
pub open spec fn container(stream: Seq<u8>, width: u32, height: u32) -> Seq<u8> {
    let body = webp_tag() + chunk(vp8l_tag(), frame(stream, width, height));
    riff_tag() + le32(body.len() as int) + body
}

/// The length of the file that carries a stream of `stream_len` bytes.
pub open spec fn container_len(stream_len: int) -> int {
    STREAM_OFFSET + stream_len + (stream_len + 5) % 2
}

/// The part of `file` where a container keeps its stream: from the end of
/// the frame header to the end of the chunk's payload, as the chunk's own
/// length field gives it.
#[verifier::opaque]
pub open spec fn carried_stream(file: Seq<u8>) -> Seq<u8> {
    let end = 20 + le32_value(file.subrange(16, 20));
    if file.len() >= STREAM_OFFSET && STREAM_OFFSET <= end <= file.len() {
        file.subrange(STREAM_OFFSET as int, end)
    } else {
        Seq::empty()
    }
}

/// `file` is, byte for byte, the container of an image of the given sides,
/// and short enough for its size field.
pub open spec fn is_container(file: Seq<u8>, width: u32, height: u32) -> bool {
    &&& valid_dimensions(width, height)
    &&& file.len() <= MAX_FILE_LEN
    &&& file == container(carried_stream(file), width, height)
}

/// What [`assemble`] answers for a stream of `stream_len` bytes: the sides
/// are judged first, the length of the file after.
pub open spec fn assemble_verdict(stream_len: int, width: u32, height: u32) -> Result<
    (),
    EncodeError,
> {
    if !valid_dimensions(width, height) {
        Err(EncodeError::InvalidDimensions)
    } else if container_len(stream_len) > MAX_FILE_LEN {
        Err(EncodeError::SizeOverflow)
    } else {
        Ok(())
    }
}

/// Appends `value` to `out` as four bytes, least significant first.
pub fn put_le32(out: &mut Vec<u8>, value: u32)
    ensures
        final(out)@ == old(out)@ + le32(value as int),
{
    out.push((value % 256) as u8);
    out.push((value / 0x100 % 256) as u8);
    out.push((value / 0x1_0000 % 256) as u8);
    out.push((value / 0x100_0000) as u8);
    proof {
        reveal(le32);
        assert(out@ =~= old(out)@ + le32(value as int));
    }
}

/// Reads the number stored in the four bytes from `at` on, or `None` where
/// `bytes` ends before the fourth.
pub fn read_le32(bytes: &[u8], at: usize) -> (value: Option<u32>)
    ensures
        match value {
            Some(number) => {
                &&& at + 4 <= bytes@.len()
                &&& number == le32_value(bytes@.subrange(at as int, at + 4))
            },
            None => at + 4 > bytes@.len(),
        },
{
    let len: usize = bytes.len();
    if at > len || len - at < 4 {
        return None;
    }
    let b0: u32 = bytes[at] as u32;
    let b1: u32 = bytes[at + 1] as u32;
    let b2: u32 = bytes[at + 2] as u32;
    let b3: u32 = bytes[at + 3] as u32;
    Some(b0 + b1 * 0x100 + b2 * 0x1_0000 + b3 * 0x100_0000)
}

/// Packs the sides and the alpha flag into the word of the frame header.
fn frame_word(width: u32, height: u32) -> (word: u32)
    requires
        valid_dimensions(width, height),
    ensures
        word == header_word(width, height),
{
    (width - 1) + (height - 1) * 0x4000 + ALPHA_FLAG
}

/// Writes the file for a compressed stream and the sides of its image.
///
/// Fails with `InvalidDimensions` where a side is zero or too long for
/// its fourteen bits, and with `SizeOverflow` where the file would be
/// longer than a 32-bit length can say.
pub fn assemble(stream: &[u8], width: u32, height: u32) -> (r: Result<Vec<u8>, EncodeError>)
    ensures
        match r {
            Ok(file) => {
                &&& assemble_verdict(stream@.len() as int, width, height) is Ok
                &&& file@ == container(stream@, width, height)
                &&& is_container(file@, width, height)
            },
            Err(error) => assemble_verdict(stream@.len() as int, width, height) == Err::<
                (),
                EncodeError,
            >(error),
        },
{
    if !check_dimensions(width, height) {
        return Err(EncodeError::InvalidDimensions);
    }
    let stream_len: usize = stream.len();
    if stream_len as u64 > MAX_FILE_LEN {
        return Err(EncodeError::SizeOverflow);
    }
    let payload_len: u64 = stream_len as u64 + 5;
    let odd: bool = payload_len % 2 == 1;
    let total: u64 = if odd {
        payload_len + 21
    } else {
        payload_len + 20
    };
    if total > MAX_FILE_LEN {
        return Err(EncodeError::SizeOverflow);
    }
    let mut file: Vec<u8> = Vec::with_capacity(total as usize);
    file.push(0x52);
    file.push(0x49);
    file.push(0x46);
    file.push(0x46);
    put_le32(&mut file, (total - 8) as u32);
    file.push(0x57);
    file.push(0x45);
    file.push(0x42);
    file.push(0x50);
    file.push(0x56);
    file.push(0x50);
    file.push(0x38);
    file.push(0x4c);
    put_le32(&mut file, payload_len as u32);
    file.push(FRAME_SIGNATURE);
    put_le32(&mut file, frame_word(width, height));
    let ghost head = file@;
    file.extend_from_slice(stream);
    assert(file@ =~= head + stream@);
    if odd {
        file.push(0);
    }
    proof {
        reveal(container);
        le32_has_four_bytes(header_word(width, height));
        le32_has_four_bytes(payload_len as int);
        le32_has_four_bytes(total - 8);
        assert(file@ =~= container(stream@, width, height));
        container_is_recognised(stream@, width, height);
    }
    Ok(file)
}

/// Tells whether `file` is the container of an image of the given sides:
/// signature, size field, tags, chunk length, frame header and padding are
/// all as [`container`] lays them out.
pub fn check_container(file: &[u8], width: u32, height: u32) -> (yes: bool)
    ensures
        yes == is_container(file@, width, height),
{
    if !check_dimensions(width, height) {
        return false;
    }
    proof {
        if is_container(file@, width, height) {
            container_fields(file@, width, height);
        }
    }
    let len: usize = file.len();
    if len < 26 || len as u64 > MAX_FILE_LEN {
        return false;
    }
    let tags: bool = file[0] == 0x52 && file[1] == 0x49 && file[2] == 0x46 && file[3] == 0x46
        && file[8] == 0x57 && file[9] == 0x45 && file[10] == 0x42 && file[11] == 0x50 && file[12]
        == 0x56 && file[13] == 0x50 && file[14] == 0x38 && file[15] == 0x4c && file[20]
        == FRAME_SIGNATURE;
    if !tags {
        return false;
    }
    let size: Option<u32> = read_le32(file, 4);
    let payload: Option<u32> = read_le32(file, 16);
    let word: Option<u32> = read_le32(file, 21);
    let expected_word: u32 = frame_word(width, height);
    match (size, payload, word) {
        (Some(size), Some(payload), Some(word)) => {
            if size as u64 != len as u64 - 8 || word != expected_word || payload < 5 {
                return false;
            }
            let odd: bool = payload % 2 == 1;
            let end: u64 = payload as u64 + 20 + if odd {
                1u64
            } else {
                0u64
            };
            if end != len as u64 {
                return false;
            }
            if odd && file[len - 1] != 0 {
                return false;
            }
            proof {
                shape_is_container(file@, width, height);
            }
            true
        },
        _ => false,
    }
}

/// A stored number takes four bytes, whatever the number.
pub proof fn le32_has_four_bytes(value: int)
    ensures
        le32(value).len() == 4,
{
    reveal(le32);
}

/// Storing a number that fits in 32 bits and reading it back gives the
/// number.
pub proof fn le32_roundtrip(value: int)
    requires
        0 <= value <= u32::MAX,
    ensures
        le32(value).len() == 4,
        le32_value(le32(value)) == value,
{
    reveal(le32);
}

/// Reading four bytes as a number and storing it gives the bytes.
pub proof fn le32_value_roundtrip(bytes: Seq<u8>)
    requires
        bytes.len() == 4,
    ensures
        0 <= le32_value(bytes) <= u32::MAX,
        le32(le32_value(bytes)) == bytes,
{
    reveal(le32);
    let value = le32_value(bytes);
    let b0 = bytes[0] as int;
    let b1 = bytes[1] as int;
    let b2 = bytes[2] as int;
    let b3 = bytes[3] as int;
    split_at_base(b0, b1 + b2 * 0x100 + b3 * 0x1_0000, 0x100);
    split_at_base(b0 + b1 * 0x100, b2 + b3 * 0x100, 0x1_0000);
    split_at_base(b0 + b1 * 0x100 + b2 * 0x1_0000, b3, 0x100_0000);
    split_at_base(b1, b2 + b3 * 0x100, 0x100);
    split_at_base(b2, b3, 0x100);
    assert(value / 0x100 == b1 + b2 * 0x100 + b3 * 0x1_0000);
    assert(value / 0x1_0000 == b2 + b3 * 0x100);
    assert(value / 0x100_0000 == b3);
    assert(le32(value) =~= bytes);
}

/// A number written as `low + base * high` with `low` below `base` has
/// `low` as its remainder and `high` as its quotient.
proof fn split_at_base(low: int, high: int, base: int)
    requires
        0 <= low < base,
    ensures
        (low + base * high) % base == low,
        (low + base * high) / base == high,
{
    assert((low + base * high) % base == low && (low + base * high) / base == high)
        by (nonlinear_arith)
        requires
            0 <= low < base,
    ;
}

/// How long the file for a stream is.
pub proof fn container_has_len(stream: Seq<u8>, width: u32, height: u32)
    ensures
        container(stream, width, height).len() == container_len(stream.len() as int),
{
    reveal(container);
    let payload = frame(stream, width, height);
    let body = webp_tag() + chunk(vp8l_tag(), payload);
    le32_has_four_bytes(header_word(width, height));
    le32_has_four_bytes(payload.len() as int);
    le32_has_four_bytes(body.len() as int);
}

/// Where each field of a container lies, and what it holds.
pub proof fn container_shape(stream: Seq<u8>, width: u32, height: u32)
    requires
        valid_dimensions(width, height),
        container_len(stream.len() as int) <= MAX_FILE_LEN,
    ensures
        ({
            let file = container(stream, width, height);
            &&& file.len() == container_len(stream.len() as int)
            &&& file.subrange(0, 4) == riff_tag()
            &&& le32_value(file.subrange(4, 8)) == file.len() - 8
            &&& file.subrange(8, 12) == webp_tag()
            &&& file.subrange(12, 16) == vp8l_tag()
            &&& le32_value(file.subrange(16, 20)) == stream.len() + 5
            &&& file[20] == FRAME_SIGNATURE
            &&& le32_value(file.subrange(21, 25)) == header_word(width, height)
            &&& carried_stream(file) == stream
            &&& (stream.len() + 5) % 2 == 1 ==> file[file.len() - 1] == 0
        }),
{
    reveal(container);
    reveal(carried_stream);
    let file = container(stream, width, height);
    let payload = frame(stream, width, height);
    let body = webp_tag() + chunk(vp8l_tag(), payload);
    container_has_len(stream, width, height);
    le32_has_four_bytes(header_word(width, height));
    le32_has_four_bytes(payload.len() as int);
    le32_has_four_bytes(body.len() as int);
    le32_roundtrip(body.len() as int);
    le32_roundtrip(payload.len() as int);
    le32_roundtrip(header_word(width, height));
    assert(file.subrange(0, 4) =~= riff_tag());
    assert(file.subrange(4, 8) =~= le32(body.len() as int));
    assert(file.subrange(8, 12) =~= webp_tag());
    assert(file.subrange(12, 16) =~= vp8l_tag());
    assert(file.subrange(16, 20) =~= le32(payload.len() as int));
    assert(file.subrange(21, 25) =~= le32(header_word(width, height)));
    assert(file.subrange(STREAM_OFFSET as int, 20 + payload.len() as int) =~= stream);
}

/// A byte sequence with every field in its place is a container.
proof fn shape_is_container(file: Seq<u8>, width: u32, height: u32)
    requires
        valid_dimensions(width, height),
        26 <= file.len() <= MAX_FILE_LEN,
        file.subrange(0, 4) =~= riff_tag(),
        le32_value(file.subrange(4, 8)) == file.len() - 8,
        file.subrange(8, 12) =~= webp_tag(),
        file.subrange(12, 16) =~= vp8l_tag(),
        le32_value(file.subrange(16, 20)) >= 5,
        file.len() == 20 + le32_value(file.subrange(16, 20)) + le32_value(file.subrange(16, 20))
            % 2,
        file[20] == FRAME_SIGNATURE,
        le32_value(file.subrange(21, 25)) == header_word(width, height),
        le32_value(file.subrange(16, 20)) % 2 == 1 ==> file[file.len() - 1] == 0,
    ensures
        is_container(file, width, height),
{
    reveal(container);
    reveal(carried_stream);
    let stream = carried_stream(file);
    let payload = frame(stream, width, height);
    let body = webp_tag() + chunk(vp8l_tag(), payload);
    let built = container(stream, width, height);
    le32_value_roundtrip(file.subrange(4, 8));
    le32_value_roundtrip(file.subrange(16, 20));
    le32_value_roundtrip(file.subrange(21, 25));
    assert(payload.len() == le32_value(file.subrange(16, 20)));
    assert(body.len() == file.len() - 8);
    assert(built.len() == file.len());
    assert forall|i: int| 0 <= i < file.len() implies built[i] == file[i] by {
        if i < 4 {
            assert(file[i] == file.subrange(0, 4)[i]);
        } else if i < 8 {
            assert(file[i] == file.subrange(4, 8)[i - 4]);
        } else if i < 12 {
            assert(file[i] == file.subrange(8, 12)[i - 8]);
        } else if i < 16 {
            assert(file[i] == file.subrange(12, 16)[i - 12]);
        } else if i < 20 {
            assert(file[i] == file.subrange(16, 20)[i - 16]);
        } else if i < 21 {
        } else if i < 25 {
            assert(file[i] == file.subrange(21, 25)[i - 21]);
        } else if i < 20 + payload.len() {
            assert(stream[i - 25] == file[i]);
        } else {
        }
    }
    assert(built =~= file);
}

/// What [`assemble`] writes, [`check_container`] accepts.
pub proof fn container_is_recognised(stream: Seq<u8>, width: u32, height: u32)
    requires
        valid_dimensions(width, height),
        container_len(stream.len() as int) <= MAX_FILE_LEN,
    ensures
        is_container(container(stream, width, height), width, height),
{
    container_shape(stream, width, height);
}

/// A container opens with the signature, says in its size field how many
/// bytes follow that field, and names its format next.
pub proof fn container_header(file: Seq<u8>, width: u32, height: u32)
    requires
        is_container(file, width, height),
    ensures
        file.len() >= 26,
        file.subrange(0, 4) == riff_tag(),
        le32_value(file.subrange(4, 8)) == file.len() - 8,
        file.subrange(8, 12) == webp_tag(),
{
    container_fields(file, width, height);
}

/// Every field of a container, read off the file itself.
pub proof fn container_fields(file: Seq<u8>, width: u32, height: u32)
    requires
        is_container(file, width, height),
    ensures
        26 <= file.len() <= MAX_FILE_LEN,
        file.len() % 2 == 0,
        file.subrange(0, 4) == riff_tag(),
        le32_value(file.subrange(4, 8)) == file.len() - 8,
        file.subrange(8, 12) == webp_tag(),
        file.subrange(12, 16) == vp8l_tag(),
        le32_value(file.subrange(16, 20)) == carried_stream(file).len() + 5,
        file.len() == container_len(carried_stream(file).len() as int),
        file[20] == FRAME_SIGNATURE,
        le32_value(file.subrange(21, 25)) == header_word(width, height),
        le32_value(file.subrange(16, 20)) % 2 == 1 ==> file[file.len() - 1] == 0,
{
    let stream = carried_stream(file);
    container_has_len(stream, width, height);
    container_shape(stream, width, height);
}

/// The container loses nothing: equal files carry equal streams and record
/// equal sides.
pub proof fn container_is_injective(
    first: Seq<u8>,
    first_width: u32,
    first_height: u32,
    second: Seq<u8>,
    second_width: u32,
    second_height: u32,
)
    requires
        valid_dimensions(first_width, first_height),
        valid_dimensions(second_width, second_height),
        container_len(first.len() as int) <= MAX_FILE_LEN,
        container(first, first_width, first_height) == container(
            second,
            second_width,
            second_height,
        ),
    ensures
        first == second,
        first_width == second_width,
        first_height == second_height,
{
    let file = container(first, first_width, first_height);
    container_has_len(first, first_width, first_height);
    container_has_len(second, second_width, second_height);
    assert(container_len(second.len() as int) <= MAX_FILE_LEN);
    assert(first == second) by {
        container_shape(first, first_width, first_height);
        container_shape(second, second_width, second_height);
        assert(carried_stream(file) == first);
        assert(carried_stream(file) == second);
    }
    assert(header_word(first_width, first_height) == header_word(second_width, second_height))
        by {
        container_shape(first, first_width, first_height);
        container_shape(second, second_width, second_height);
    }
    header_word_is_injective(first_width, first_height, second_width, second_height);
}

/// The header word records both sides: equal words, equal sides.
pub proof fn header_word_is_injective(
    first_width: u32,
    first_height: u32,
    second_width: u32,
    second_height: u32,
)
    requires
        valid_dimensions(first_width, first_height),
        valid_dimensions(second_width, second_height),
        header_word(first_width, first_height) == header_word(second_width, second_height),
    ensures
        first_width == second_width,
        first_height == second_height,
{
}

} // verus!
