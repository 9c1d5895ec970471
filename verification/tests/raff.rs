use flood_rs::prelude::{InOctetStream, OutOctetStream};
use flood_rs::ReadOctetStream;
use raff::{
    decode_size, encode_size, is_valid_tag_char, read_chunk_header, read_raff_header, write_chunk,
    write_raff_header, RaffError, RaffHeader, Tag,
};

#[test]
fn test_raff_header() {
    let data = &[
        0xF0, 0x9F, 0xA6, 0x8A, // Icon
        0x52, 0x41, 0x46, 0x46, // RAFF
        0x30, 0x2E, 0x31, 0x0A, // Version 0.1
    ];

    let mut stream = InOctetStream::new(data);

    let header = read_raff_header(&mut stream).unwrap();
    assert_eq!(header.major, 0);
    assert_eq!(header.minor, 1);
}

#[test]
fn test_write_raff_header() {
    let mut stream = OutOctetStream::new();

    write_raff_header(&mut stream).expect("should write");

    let expected_output = &[
        0xF0, 0x9F, 0xA6, 0x8A, // Icon
        0x52, 0x41, 0x46, 0x46, // RAFF
        0x30, 0x2E, 0x31, 0x0A, // Version 0.1
    ];

    assert_eq!(stream.octets(), expected_output);

    let empty = &[0xff; 0x53];
    write_chunk(&mut stream, Tag::with_str("xb").unwrap(), empty).expect("Failed to write empty");

    let mut stream = InOctetStream::new(&stream.octets());
    RaffHeader::deserialize(&mut stream).expect("Failed to read header");
    let header = read_chunk_header(&mut stream).expect("Failed to read chunk header");
    assert_eq!(header.tag.name, Tag::with_str("xb").unwrap());
    assert_eq!(header.size, 0x53);
    let mut data = vec![0u8; header.size as usize];
    stream.read(&mut data).unwrap();
    assert_eq!(data, empty);
    assert!(stream.has_reached_end());
}

#[test]
fn is_valid_char() {
    assert!(is_valid_tag_char(b'a'));
    assert!(is_valid_tag_char(b'z'));
    assert!(is_valid_tag_char(b'A'));
    assert!(is_valid_tag_char(b'Z'));
    assert!(is_valid_tag_char(b'0'));
    assert!(is_valid_tag_char(b'9'));
    assert!(is_valid_tag_char(b'_'));
}

#[test]
fn invalid_tag_chars_rejected() {
    assert!(!is_valid_tag_char(b' '));
    assert!(!is_valid_tag_char(b'.'));
    assert!(!is_valid_tag_char(b'`'));
    assert!(!is_valid_tag_char(b'{'));
    assert!(!is_valid_tag_char(b'@'));
    assert!(!is_valid_tag_char(b'['));
    assert!(!is_valid_tag_char(b'/'));
    assert!(!is_valid_tag_char(b':'));
    assert!(!is_valid_tag_char(0xFF));
}

#[test]
fn tag_round_trips_through_value() {
    for s in ["xb", "ab", "AZ", "a0", "_9", "zz", "Q_"] {
        let tag = Tag::with_str(s).unwrap();
        let reparsed = Tag::new(tag.inner()).unwrap();
        assert_eq!(tag, reparsed);
        assert_eq!(tag.inner(), reparsed.inner());
    }
    let tag = Tag::with_str("xb").unwrap();
    assert_eq!(tag.inner(), (b'x' as u16) * 256 + b'b' as u16);
}

#[test]
fn tag_wrong_length_is_invalid_format() {
    for s in ["", "a", "abc", "abcd"] {
        assert!(matches!(Tag::with_str(s), Err(RaffError::InvalidFormat)));
    }
}

#[test]
fn tag_bad_characters_are_invalid_format() {
    assert!(matches!(Tag::with_str("a "), Err(RaffError::InvalidFormat)));
    assert!(matches!(Tag::with_str(".b"), Err(RaffError::InvalidFormat)));
    assert!(matches!(Tag::new(0x2E2E), Err(RaffError::InvalidFormat)));
}

#[test]
fn encode_size_exact_octets() {
    assert_eq!(encode_size(0), vec![0x00]);
    assert_eq!(encode_size(1), vec![0x01]);
    assert_eq!(encode_size(0x53), vec![0x53]);
    assert_eq!(encode_size(127), vec![0x7F]);
    assert_eq!(encode_size(128), vec![0x80, 0x01]);
    assert_eq!(encode_size(300), vec![0xAC, 0x02]);
    assert_eq!(encode_size(0x0FFF_FFFF), vec![0xFF, 0xFF, 0xFF, 0x7F]);
    assert_eq!(encode_size(0x1000_0000), vec![0x80, 0x80, 0x80, 0x80, 0x01]);
    assert_eq!(encode_size(u32::MAX), vec![0xFF, 0xFF, 0xFF, 0xFF, 0x0F]);
}

#[test]
fn size_round_trips_for_all_lengths() {
    for n in [
        0u32,
        1,
        42,
        127,
        128,
        300,
        0x3FFF,
        0x4000,
        0x1F_FFFF,
        0x20_0000,
        0x0FFF_FFFF,
        0x1000_0000,
        0x5359_0001,
        u32::MAX,
    ] {
        let encoded = encode_size(n);
        assert!((1..=5).contains(&encoded.len()));
        let mut stream = InOctetStream::new(&encoded);
        let decoded = decode_size(&mut stream).unwrap();
        assert_eq!(decoded, n);
        assert!(stream.has_reached_end());
    }
}

#[test]
fn overlong_size_is_out_of_range() {
    let data = [0xFFu8; 6];
    let mut stream = InOctetStream::new(&data);
    assert!(matches!(
        decode_size(&mut stream),
        Err(RaffError::OutOfRange)
    ));

    let data = [0x80u8, 0x80, 0x80, 0x80, 0x80, 0x00];
    let mut stream = InOctetStream::new(&data);
    assert!(matches!(
        decode_size(&mut stream),
        Err(RaffError::OutOfRange)
    ));
}

#[test]
fn truncated_size_is_io_error() {
    let data = [0x80u8, 0x80];
    let mut stream = InOctetStream::new(&data);
    assert!(matches!(decode_size(&mut stream), Err(RaffError::IoError)));

    let mut stream = InOctetStream::new(&[]);
    assert!(matches!(decode_size(&mut stream), Err(RaffError::IoError)));
}

#[test]
fn mutated_magic_is_invalid_magic() {
    let good = [
        0xF0, 0x9F, 0xA6, 0x8A,
        0x52, 0x41, 0x46, 0x46,
        0x30, 0x2E, 0x31, 0x0A,
    ];
    for i in 0..8 {
        let mut bad = good;
        bad[i] ^= 0x01;
        let mut stream = InOctetStream::new(&bad);
        assert!(matches!(
            read_raff_header(&mut stream),
            Err(RaffError::InvalidMagic)
        ));
    }
}

#[test]
fn bad_separator_is_invalid_format() {
    let mut data = [
        0xF0, 0x9F, 0xA6, 0x8A,
        0x52, 0x41, 0x46, 0x46,
        0x30, 0x2E, 0x31, 0x0A,
    ];
    data[9] = b',';
    let mut stream = InOctetStream::new(&data);
    assert!(matches!(
        read_raff_header(&mut stream),
        Err(RaffError::InvalidFormat)
    ));

    data[9] = 0x2E;
    data[11] = b' ';
    let mut stream = InOctetStream::new(&data);
    assert!(matches!(
        read_raff_header(&mut stream),
        Err(RaffError::InvalidFormat)
    ));
}

#[test]
fn unsupported_version_decodes_but_is_rejected() {
    let data = [
        0xF0, 0x9F, 0xA6, 0x8A,
        0x52, 0x41, 0x46, 0x46,
        0x39, 0x2E, 0x31, 0x0A, // Version 9.1
    ];
    let mut stream = InOctetStream::new(&data);
    let header = RaffHeader::deserialize(&mut stream).unwrap();
    assert_eq!(header.major, 9);
    assert_eq!(header.minor, 1);

    let mut stream = InOctetStream::new(&data);
    assert!(matches!(
        read_raff_header(&mut stream),
        Err(RaffError::UnsupportedVersion)
    ));
}

#[test]
fn lenient_version_digits_decode_to_zero() {
    let data = [
        0xF0, 0x9F, 0xA6, 0x8A,
        0x52, 0x41, 0x46, 0x46,
        0xFF, 0x2E, 0x31, 0x0A, // major digit corrupted
    ];
    let mut stream = InOctetStream::new(&data);
    let header = RaffHeader::deserialize(&mut stream).unwrap();
    assert_eq!(header.major, 0);
    assert_eq!(header.minor, 1);
}

#[test]
fn truncated_header_is_io_error() {
    let data = [0xF0, 0x9F, 0xA6];
    let mut stream = InOctetStream::new(&data);
    assert!(matches!(
        read_raff_header(&mut stream),
        Err(RaffError::IoError)
    ));

    let data = [0xF0, 0x9F, 0xA6, 0x8A, 0x52, 0x41, 0x46, 0x46, 0x30];
    let mut stream = InOctetStream::new(&data);
    assert!(matches!(
        read_raff_header(&mut stream),
        Err(RaffError::IoError)
    ));
}

#[test]
fn chunk_header_serializes_and_reparses() {
    let mut out = OutOctetStream::new();
    let payload: Vec<u8> = (0..300).map(|i| (i % 251) as u8).collect();
    write_chunk(&mut out, Tag::with_str("zZ").unwrap(), &payload).unwrap();

    // 2 tag octets, 2 size octets for 300, then the payload itself.
    let bytes = out.octets();
    assert_eq!(bytes.len(), 2 + 2 + payload.len());
    assert_eq!(&bytes[0..2], &[b'z', b'Z']);
    assert_eq!(&bytes[2..4], &[0xAC, 0x02]);

    let mut stream = InOctetStream::new(&bytes);
    let header = read_chunk_header(&mut stream).unwrap();
    assert_eq!(header.tag.name, Tag::with_str("zZ").unwrap());
    assert_eq!(header.size, 300);
    let mut data = vec![0u8; header.size as usize];
    stream.read(&mut data).unwrap();
    assert_eq!(data, payload);
    assert!(stream.has_reached_end());
}

#[test]
fn chunk_header_with_bad_tag_is_invalid_format() {
    let data = [0x2E, 0x2E, 0x05];
    let mut stream = InOctetStream::new(&data);
    assert!(matches!(
        read_chunk_header(&mut stream),
        Err(RaffError::InvalidFormat)
    ));
}

#[test]
fn version_conversions() {
    assert_eq!(raff::to_version(0x30), 0);
    assert_eq!(raff::to_version(0x39), 9);
    assert_eq!(raff::to_version(0x2F), 0);
    assert_eq!(raff::to_version(0x3A), 0);
    assert_eq!(raff::to_version(0xFF), 0);
    assert_eq!(raff::from_version(0), 0x30);
    assert_eq!(raff::from_version(9), 0x39);
    assert_eq!(raff::from_version(10), 0x30);
    assert_eq!(raff::from_version(255), 0x30);
}

#[test]
fn default_header_is_supported_version() {
    let header = RaffHeader::default();
    assert_eq!(header, RaffHeader::new());
    assert_eq!(header.major, raff::RAFF_MAJOR);
    assert_eq!(header.minor, raff::RAFF_MINOR);
    let other = RaffHeader::with_version(3, 7);
    assert_eq!(other.major, 3);
    assert_eq!(other.minor, 7);
}
