use cubepkg::container::{parse, serialize, FormatError};

fn sample_header() -> Vec<u8> {
    vec![0x1e, 0x55, 0xc6, 0xb3, 0x00, 0x00, 0x00, 0x00]
}

fn push_entry(file: &mut Vec<u8>, exec: u8, name: &[u8], off: u32, len: u32) {
    file.push(exec);
    file.push(name.len() as u8);
    file.extend(name);
    file.extend(off.to_le_bytes());
    file.extend(len.to_le_bytes());
}

#[test]
fn serialize_exact_bytes() {
    let code: Vec<u8> = vec![0xF0];
    let data: Vec<u8> = vec![];
    let out = serialize(&code, &data);
    let expected: Vec<u8> = vec![
        0x1e, 0x55, 0xc6, 0xb3, // magic
        0x00, 0x00, // version
        0x00, 0x00, // compression flag and option, unused
        0x02, // segment count
        0x01, // executable
        0x05, b'.', b'c', b'o', b'd', b'e', // name
        39, 0x00, 0x00, 0x00, // code offset
        0x01, 0x00, 0x00, 0x00, // code length
        0x00, // not executable
        0x05, b'.', b'd', b'a', b't', b'a', // name
        40, 0x00, 0x00, 0x00, // data offset
        0x00, 0x00, 0x00, 0x00, // data length
        0xF0, // the code segment
    ];
    assert_eq!(out, expected);
}

#[test]
fn round_trip_concrete() {
    let code: Vec<u8> = vec![0x32, 0x13, 0x2A, 0x00, 0x00, 0x00, 0xF0];
    let data: Vec<u8> = vec![1, 2, 3, 4, 5];
    let file = serialize(&code, &data);
    let (c, d) = parse(&file).unwrap();
    assert_eq!(c, code);
    assert_eq!(d, data);
}

#[test]
fn round_trip_empty_segments() {
    let code: Vec<u8> = vec![];
    let data: Vec<u8> = vec![];
    let file = serialize(&code, &data);
    assert_eq!(file.len(), 39);
    let (c, d) = parse(&file).unwrap();
    assert!(c.is_empty());
    assert!(d.is_empty());
}

#[test]
fn parse_too_short() {
    assert_eq!(parse(&vec![0x1e, 0x55, 0xc6, 0xb3]), Err(FormatError::TooShort));
    assert_eq!(parse(&vec![0u8; 31]), Err(FormatError::TooShort));
}

#[test]
fn parse_bad_magic_zeroed() {
    // An all-zero magic fails before any segment entry is looked at: the
    // (nonsensical) table bytes after the header are never read.
    let mut file = vec![0u8; 4];
    file.extend(vec![0x00, 0x00, 0x00, 0x00, 0xFF]);
    file.extend(vec![0xFF; 32]);
    assert_eq!(parse(&file), Err(FormatError::BadMagic));
}

#[test]
fn parse_bad_version() {
    let mut file = vec![0x1e, 0x55, 0xc6, 0xb3, 0x01, 0x00];
    file.extend(vec![0u8; 30]);
    assert_eq!(parse(&file), Err(FormatError::BadVersion));
}

#[test]
fn parse_truncated_segment_range() {
    // One segment whose recorded byte range runs past the end of the file.
    let mut file = sample_header();
    file.push(0x01); // segment count
    file.push(0x01); // executable
    file.push(0x01); // name length
    file.push(b'c'); // name
    file.extend(vec![0x00, 0x00, 0x00, 0x00]); // offset 0
    file.extend(vec![0xFF, 0x00, 0x00, 0x00]); // length 255: out of range
    while file.len() < 32 {
        file.push(0x00);
    }
    assert_eq!(parse(&file), Err(FormatError::TruncatedSegment));
}

#[test]
fn parse_truncated_segment_table() {
    // The count promises more entries than the file holds.
    let mut file = sample_header();
    file.push(0x04); // segment count
    while file.len() < 32 {
        file.push(0x00);
    }
    assert_eq!(parse(&file), Err(FormatError::TruncatedSegment));
}

#[test]
fn parse_zero_segments() {
    let mut file = sample_header();
    file.push(0x00); // segment count
    while file.len() < 32 {
        file.push(0x00);
    }
    let (c, d) = parse(&file).unwrap();
    assert!(c.is_empty());
    assert!(d.is_empty());
}

#[test]
fn parse_concatenates_segments_in_file_order() {
    // Two executable segments and two data segments, deliberately recorded
    // out of positional order: file order of the entries decides.
    let mut file = sample_header();
    file.push(0x04);
    // Table: 4 entries of 12 bytes each, so payload starts at 9 + 48 = 57.
    push_entry(&mut file, 1, b"c1", 57, 2);
    push_entry(&mut file, 0, b"d1", 59, 1);
    push_entry(&mut file, 1, b"c2", 60, 2);
    push_entry(&mut file, 0, b"d2", 62, 1);
    file.extend(vec![0xAA, 0xBB, 0x11, 0xCC, 0xDD, 0x22]);
    let (c, d) = parse(&file).unwrap();
    assert_eq!(c, vec![0xAA, 0xBB, 0xCC, 0xDD]);
    assert_eq!(d, vec![0x11, 0x22]);
}
