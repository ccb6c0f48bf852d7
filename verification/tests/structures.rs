use binwalk::structures::common::StructureError;
use binwalk::structures::cpio::{
    byte_padding, encode_cpio_entry_header, is_executable, parse_cpio_entry_header,
    parse_file_type, CPIOFileType, CPIO_HEADER_SIZE,
};

#[test]
fn test_header_round_trip() {
    let encoded = encode_cpio_entry_header(0o100644, 5, "hello.txt", 3, 7);
    let header = parse_cpio_entry_header(&encoded).expect("encoded header must parse");
    assert_eq!(header.mode, 0o100644);
    assert_eq!(header.raw_data_size, 5);
    assert_eq!(header.data_size, 8);
    assert_eq!(header.file_name, "hello.txt");
    assert_eq!(header.file_type, CPIOFileType::Regular);
    assert_eq!(header.dev_major, 3);
    assert_eq!(header.dev_minor, 7);
    // "hello.txt" + NUL is 10 bytes: 110 + 10 = 120, already aligned
    assert_eq!(header.header_size, 120);
    assert_eq!(header.header_size % 4, 0);
    assert_eq!(header.data_size % 4, 0);
    assert_eq!(encoded.len(), header.header_size);
    assert_eq!(&header.magic, b"070701");
}

#[test]
fn test_header_round_trip_unaligned_name() {
    let encoded = encode_cpio_entry_header(0o040755, 0, "dir", 0, 0);
    let header = parse_cpio_entry_header(&encoded).expect("encoded header must parse");
    assert_eq!(header.file_name, "dir");
    assert_eq!(header.file_type, CPIOFileType::Directory);
    assert_eq!(header.raw_data_size, 0);
    assert_eq!(header.data_size, 0);
    // "dir" + NUL is 4 bytes: 110 + 4 = 114, padded to 116
    assert_eq!(header.header_size, 116);
    assert_eq!(header.header_size % 4, 0);
}

#[test]
fn test_parse_short_slice_fails() {
    let data = vec![48u8; CPIO_HEADER_SIZE];
    assert_eq!(parse_cpio_entry_header(&data).err(), Some(StructureError));
}

#[test]
fn test_parse_bad_magic_fails() {
    // the magic field must decode as base-16 text, like every fixed field
    let mut encoded = encode_cpio_entry_header(0o100644, 5, "hello.txt", 3, 7);
    assert!(parse_cpio_entry_header(&encoded).is_ok());
    encoded[0] = b'z';
    assert_eq!(parse_cpio_entry_header(&encoded).err(), Some(StructureError));
}

#[test]
fn test_parse_bad_hex_fails() {
    let mut encoded = encode_cpio_entry_header(0o100644, 5, "x", 0, 0);
    encoded[14] = b'z';
    assert_eq!(parse_cpio_entry_header(&encoded).err(), Some(StructureError));
}

#[test]
fn test_parse_name_out_of_bounds_fails() {
    let mut encoded = encode_cpio_entry_header(0o100644, 0, "x", 0, 0);
    // overwrite the name-size field with a length far past the slice end
    for (i, b) in b"000000ff".iter().enumerate() {
        encoded[94 + i] = *b;
    }
    assert_eq!(parse_cpio_entry_header(&encoded).err(), Some(StructureError));
}

#[test]
fn test_parse_zero_name_size_fails() {
    let mut encoded = encode_cpio_entry_header(0o100644, 0, "x", 0, 0);
    for (i, b) in b"00000000".iter().enumerate() {
        encoded[94 + i] = *b;
    }
    assert_eq!(parse_cpio_entry_header(&encoded).err(), Some(StructureError));
}

#[test]
fn test_parse_invalid_utf8_name_fails() {
    let mut encoded = encode_cpio_entry_header(0o100644, 0, "ab", 0, 0);
    encoded[CPIO_HEADER_SIZE] = 0xff;
    assert_eq!(parse_cpio_entry_header(&encoded).err(), Some(StructureError));
}

#[test]
fn test_file_type_classification() {
    assert_eq!(parse_file_type(0o100644), CPIOFileType::Regular);
    assert_eq!(parse_file_type(0o040755), CPIOFileType::Directory);
    assert_eq!(parse_file_type(0o120777), CPIOFileType::Symlink);
    assert_eq!(parse_file_type(0o060644), CPIOFileType::BlockDevice);
    assert_eq!(parse_file_type(0o020600), CPIOFileType::CharDevice);
    assert_eq!(parse_file_type(0o010644), CPIOFileType::Fifo);
    assert_eq!(parse_file_type(0o140755), CPIOFileType::Socket);
}

#[test]
fn test_unknown_file_type() {
    // no known type bitmask matches
    assert_eq!(parse_file_type(0), CPIOFileType::Unknown);
    assert_eq!(parse_file_type(0o110000), CPIOFileType::Unknown);
    assert_eq!(CPIOFileType::default(), CPIOFileType::Unknown);
}

#[test]
fn test_is_executable() {
    assert!(is_executable(0o100755));
    assert!(is_executable(0o100100));
    assert!(is_executable(0o100010));
    assert!(is_executable(0o100001));
    assert!(!is_executable(0o100644));
    assert!(!is_executable(0));
}

#[test]
fn test_byte_padding() {
    assert_eq!(byte_padding(0), 0);
    assert_eq!(byte_padding(1), 3);
    assert_eq!(byte_padding(2), 2);
    assert_eq!(byte_padding(3), 1);
    assert_eq!(byte_padding(4), 0);
    assert_eq!(byte_padding(114), 2);
}
