use webp::container::{assemble, check_container, put_le32, read_le32};
use webp::EncodeError;

#[test]
fn put_le32_stores_least_significant_byte_first() {
    let mut out = vec![9u8];
    put_le32(&mut out, 0x1234_5678);
    assert_eq!(out, vec![9, 0x78, 0x56, 0x34, 0x12]);
    put_le32(&mut out, 0);
    put_le32(&mut out, u32::MAX);
    put_le32(&mut out, 256);
    assert_eq!(
        out,
        vec![9, 0x78, 0x56, 0x34, 0x12, 0, 0, 0, 0, 255, 255, 255, 255, 0, 1, 0, 0]
    );
}

#[test]
fn read_le32_reads_what_was_stored() {
    let bytes = [9u8, 0x78, 0x56, 0x34, 0x12, 0xff];
    assert_eq!(read_le32(&bytes, 1), Some(0x1234_5678));
    assert_eq!(read_le32(&bytes, 0), Some(0x3456_7809));
    assert_eq!(read_le32(&bytes, 2), Some(0xff12_3456));
    assert_eq!(read_le32(&[255, 255, 255, 255], 0), Some(u32::MAX));
}

#[test]
fn read_le32_past_the_end_is_none() {
    let bytes = [1u8, 2, 3, 4, 5];
    assert_eq!(read_le32(&bytes, 2), None);
    assert_eq!(read_le32(&bytes, 5), None);
    assert_eq!(read_le32(&bytes, 6), None);
    assert_eq!(read_le32(&bytes, usize::MAX), None);
    assert_eq!(read_le32(&[], 0), None);
    assert_eq!(read_le32(&[1, 2, 3], 0), None);
}

#[test]
fn le32_roundtrip_on_values() {
    for value in [0u32, 1, 255, 256, 65535, 65536, 0x00ff_ffff, 0x0100_0000, 0xdead_beef, u32::MAX] {
        let mut out = Vec::new();
        put_le32(&mut out, value);
        assert_eq!(out.len(), 4);
        assert_eq!(out, value.to_le_bytes().to_vec());
        assert_eq!(read_le32(&out, 0), Some(value));
    }
}

#[test]
fn assemble_empty_stream() {
    let file = assemble(&[], 1, 1).unwrap();
    assert_eq!(
        file,
        vec![
            b'R', b'I', b'F', b'F', 18, 0, 0, 0, b'W', b'E', b'B', b'P', b'V', b'P', b'8', b'L',
            5, 0, 0, 0, 0x2f, 0, 0, 0, 0x10, 0
        ]
    );
}

#[test]
fn assemble_odd_stream_needs_no_padding() {
    let file = assemble(&[1, 2, 3], 2, 3).unwrap();
    assert_eq!(
        file,
        vec![
            b'R', b'I', b'F', b'F', 20, 0, 0, 0, b'W', b'E', b'B', b'P', b'V', b'P', b'8', b'L',
            8, 0, 0, 0, 0x2f, 0x01, 0x80, 0x00, 0x10, 1, 2, 3
        ]
    );
}

#[test]
fn assemble_even_stream_is_padded() {
    let file = assemble(&[0xaa, 0xbb], 16384, 16384).unwrap();
    assert_eq!(
        file,
        vec![
            b'R', b'I', b'F', b'F', 20, 0, 0, 0, b'W', b'E', b'B', b'P', b'V', b'P', b'8', b'L',
            7, 0, 0, 0, 0x2f, 0xff, 0xff, 0xff, 0x1f, 0xaa, 0xbb, 0
        ]
    );
}

#[test]
fn assemble_records_each_side_less_one() {
    let file = assemble(&[], 300, 2).unwrap();
    assert_eq!(&file[21..25], &[0x2b, 0x41, 0x00, 0x10]);
    let file = assemble(&[], 1, 16384).unwrap();
    assert_eq!(&file[21..25], &[0x00, 0xc0, 0xff, 0x1f]);
}

#[test]
fn assemble_size_field_counts_what_follows() {
    for len in 0..40usize {
        let stream = vec![0x5au8; len];
        let file = assemble(&stream, 4, 4).unwrap();
        assert_eq!(file.len(), 25 + len + (len + 5) % 2);
        assert_eq!(read_le32(&file, 4), Some(file.len() as u32 - 8));
        assert_eq!(read_le32(&file, 16), Some(len as u32 + 5));
        assert_eq!(&file[25..25 + len], &stream[..]);
    }
}

#[test]
fn assemble_refuses_bad_sides() {
    assert_eq!(assemble(&[1, 2], 0, 1), Err(EncodeError::InvalidDimensions));
    assert_eq!(assemble(&[1, 2], 1, 0), Err(EncodeError::InvalidDimensions));
    assert_eq!(assemble(&[1, 2], 16385, 1), Err(EncodeError::InvalidDimensions));
    assert_eq!(assemble(&[1, 2], 1, 16385), Err(EncodeError::InvalidDimensions));
    assert_eq!(assemble(&[1, 2], u32::MAX, 1), Err(EncodeError::InvalidDimensions));
}

// The shortest stream that no file can carry is a few bytes under four
// gibibytes; where the machine grants no such piece, there is nothing to
// hand in and the test says nothing.
#[test]
fn assemble_refuses_a_file_too_long() {
    let len: usize = 0xffff_ffff - 25;
    let mut stream: Vec<u8> = Vec::new();
    if stream.try_reserve_exact(len).is_ok() {
        stream.resize(len, 0);
        assert_eq!(assemble(&stream, 1, 1), Err(EncodeError::SizeOverflow));
        assert_eq!(assemble(&stream, 0, 1), Err(EncodeError::InvalidDimensions));
    }
}

#[test]
fn check_container_accepts_what_assemble_writes() {
    for len in 0..12usize {
        let stream: Vec<u8> = (0..len as u8).collect();
        let file = assemble(&stream, 20, 30).unwrap();
        assert!(check_container(&file, 20, 30));
    }
}

#[test]
fn check_container_wants_the_same_sides() {
    let file = assemble(&[1, 2, 3], 20, 30).unwrap();
    assert!(!check_container(&file, 30, 20));
    assert!(!check_container(&file, 20, 31));
    assert!(!check_container(&file, 21, 30));
    assert!(!check_container(&file, 0, 30));
    assert!(!check_container(&file, 20, 16385));
}

#[test]
fn check_container_refuses_any_changed_header_byte() {
    let file = assemble(&[1, 2, 3, 4], 20, 30).unwrap();
    assert_eq!(file.len(), 30);
    for at in 0..25 {
        let mut changed = file.clone();
        changed[at] ^= 1;
        assert!(!check_container(&changed, 20, 30), "byte {at}");
    }
    let mut changed = file.clone();
    changed[29] = 1;
    assert!(!check_container(&changed, 20, 30));
    let mut changed = file.clone();
    changed[27] ^= 0xff;
    assert!(check_container(&changed, 20, 30));
}

#[test]
fn check_container_refuses_a_wrong_length() {
    let file = assemble(&[1, 2, 3, 4], 20, 30).unwrap();
    assert!(!check_container(&file[..29], 20, 30));
    assert!(!check_container(&file[..25], 20, 30));
    assert!(!check_container(&[], 20, 30));
    let mut longer = file.clone();
    longer.push(0);
    assert!(!check_container(&longer, 20, 30));
    longer.push(0);
    assert!(!check_container(&longer, 20, 30));
}

#[test]
fn check_container_refuses_a_missing_alpha_flag() {
    let mut file = assemble(&[1, 2, 3], 2, 3).unwrap();
    assert_eq!(file[24], 0x10);
    file[24] = 0x00;
    assert!(!check_container(&file, 2, 3));
    file[24] = 0x30;
    assert!(!check_container(&file, 2, 3));
}
