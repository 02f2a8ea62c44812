use jwt_cracker::token::{
    decode_segment, encode_segment, parse, parse_bytes, DecodeError, FormatError,
};

#[test]
fn parse_splits_three_segments() {
    let parts = parse("aGVhZA.cGF5bG9hZA.c2ln").unwrap();
    assert_eq!(parts.header, b"aGVhZA");
    assert_eq!(parts.payload, b"cGF5bG9hZA");
    assert_eq!(parts.signature, b"c2ln");
}

#[test]
fn parse_single_character_segments() {
    let parts = parse("h.p.s").unwrap();
    assert_eq!(parts.header, b"h");
    assert_eq!(parts.payload, b"p");
    assert_eq!(parts.signature, b"s");
}

#[test]
fn parse_rejects_wrong_segment_count() {
    assert_eq!(parse("").err(), Some(FormatError));
    assert_eq!(parse("abc").err(), Some(FormatError));
    assert_eq!(parse("a.b").err(), Some(FormatError));
    assert_eq!(parse("a.b.c.d").err(), Some(FormatError));
    assert_eq!(parse("a.b.c.").err(), Some(FormatError));
}

#[test]
fn parse_rejects_empty_segments() {
    assert_eq!(parse(".b.c").err(), Some(FormatError));
    assert_eq!(parse("a..c").err(), Some(FormatError));
    assert_eq!(parse("a.b.").err(), Some(FormatError));
    assert_eq!(parse("..").err(), Some(FormatError));
}

#[test]
fn decode_segment_unpadded_url_safe() {
    assert_eq!(decode_segment(b"aGVsbG8"), Ok(b"hello".to_vec()));
    assert_eq!(decode_segment(b"-_8"), Ok(vec![0xfb, 0xff]));
    assert_eq!(decode_segment(b""), Ok(Vec::new()));
}

#[test]
fn decode_segment_invalid_character() {
    assert_eq!(
        decode_segment(b"aGV$bG8"),
        Err(DecodeError::InvalidByte { offset: 3, byte: b'$' })
    );
    assert_eq!(
        decode_segment(b"+/8"),
        Err(DecodeError::InvalidByte { offset: 0, byte: b'+' })
    );
}

#[test]
fn decode_segment_invalid_length() {
    assert_eq!(decode_segment(b"aGVsb"), Err(DecodeError::InvalidLength { length: 5 }));
}

#[test]
fn decode_segment_invalid_last_symbol() {
    assert_eq!(
        decode_segment(b"aGVsbG9"),
        Err(DecodeError::InvalidLastSymbol { offset: 6, byte: b'9' })
    );
}

#[test]
fn decode_segment_rejects_padding() {
    assert_eq!(decode_segment(b"aGVsbG8="), Err(DecodeError::InvalidPadding));
    assert_eq!(decode_segment(b"aGk="), Err(DecodeError::InvalidPadding));
}

#[test]
fn encode_segment_unpadded_url_safe() {
    assert_eq!(encode_segment(b"hello"), b"aGVsbG8".to_vec());
    assert_eq!(encode_segment(&[0xfb, 0xff]), b"-_8".to_vec());
    assert_eq!(encode_segment(b""), Vec::<u8>::new());
}

#[test]
fn decode_inverts_encode() {
    let data: Vec<u8> = (0u8..=255).collect();
    assert_eq!(decode_segment(&encode_segment(&data)), Ok(data));
}

#[test]
fn parse_bytes_takes_any_bytes() {
    let parts = parse_bytes(&[0xff, b'.', 0x00, 0x01, b'.', 0x80]).unwrap();
    assert_eq!(parts.header, &[0xff]);
    assert_eq!(parts.payload, &[0x00, 0x01]);
    assert_eq!(parts.signature, &[0x80]);
    assert_eq!(parse_bytes(b"a.b").err(), Some(FormatError));
}

#[test]
fn parse_keeps_text_beyond_ascii_whole() {
    let parts = parse("ä.ß.é").unwrap();
    assert_eq!(parts.header, "ä".as_bytes());
    assert_eq!(parts.payload, "ß".as_bytes());
    assert_eq!(parts.signature, "é".as_bytes());
}
