use kvm_rust::bytes::{read_le16, read_le32, read_le64, read_string, write_le16, write_le32, StringError};

#[test]
fn read_le16_reads_little_endian() {
    let b = [0x34u8, 0x12, 0xff];
    assert_eq!(read_le16(&b, 0), 0x1234);
    assert_eq!(read_le16(&b, 1), 0xff12);
}

#[test]
fn read_le32_reads_little_endian() {
    let b = [0x00u8, 0x78, 0x56, 0x34, 0x12];
    assert_eq!(read_le32(&b, 1), 0x1234_5678);
}

#[test]
fn read_le64_reads_little_endian() {
    let b = [0xefu8, 0xcd, 0xab, 0x89, 0x67, 0x45, 0x23, 0x01];
    assert_eq!(read_le64(&b, 0), 0x0123_4567_89ab_cdef);
}

#[test]
fn write_le16_then_read_gives_value_and_keeps_neighbours() {
    let mut b = [0xaau8; 4];
    write_le16(&mut b, 1, 0xbeef);
    assert_eq!(b, [0xaa, 0xef, 0xbe, 0xaa]);
    assert_eq!(read_le16(&b, 1), 0xbeef);
}

#[test]
fn write_le32_then_read_gives_value_and_keeps_neighbours() {
    let mut b = [0x11u8; 8];
    write_le32(&mut b, 2, 0xdead_beef);
    assert_eq!(b, [0x11, 0x11, 0xef, 0xbe, 0xad, 0xde, 0x11, 0x11]);
    assert_eq!(read_le32(&b, 2), 0xdead_beef);
}

#[test]
fn read_string_stops_at_nul() {
    let b = b"xxhello\0world\0";
    assert_eq!(read_string(b, 2), Ok(String::from("hello")));
    assert_eq!(read_string(b, 8), Ok(String::from("world")));
    assert_eq!(read_string(b, 7), Ok(String::new()));
}

#[test]
fn read_string_decodes_utf8() {
    let b = "grüße\0".as_bytes();
    assert_eq!(read_string(b, 0), Ok(String::from("grüße")));
}

#[test]
fn read_string_without_terminator_fails() {
    let b = b"abc";
    assert_eq!(read_string(b, 0), Err(StringError::Unterminated));
    assert_eq!(read_string(b, 3), Err(StringError::Unterminated));
}

#[test]
fn read_string_rejects_invalid_utf8() {
    let b = [0x61u8, 0xff, 0x62, 0x00];
    assert_eq!(read_string(&b, 0), Err(StringError::InvalidUtf8));
}
