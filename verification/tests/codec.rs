use sermmde::cursor::ByteCursor;
use sermmde::types::{Error, Flag, Index, IndexSize, PmxText, TextEncoding};
use sermmde::util;

fn cursor(bytes: Vec<u8>) -> ByteCursor {
    ByteCursor::new(bytes)
}

#[test]
fn index_width1_unsigned_round_trip() {
    for v in [0u8, 1, 7, 127, 128, 254, 255] {
        let mut cur = cursor(vec![v]);
        let idx = Index::parse(&mut cur, IndexSize::Size1, false).unwrap();
        assert_eq!(idx.value, v as i32);
    }
}

#[test]
fn index_width1_signed_round_trip() {
    for v in [0i8, 1, 127, -1, -2, -128] {
        let mut cur = cursor(vec![v as u8]);
        let idx = Index::parse(&mut cur, IndexSize::Size1, true).unwrap();
        assert_eq!(idx.value, v as i32);
    }
}

#[test]
fn index_width2_round_trip() {
    for v in [0i16, 1, 0x7FFF, -1, -2, -0x8000] {
        let mut cur = cursor(v.to_le_bytes().to_vec());
        let idx = Index::parse(&mut cur, IndexSize::Size2, true).unwrap();
        assert_eq!(idx.value, v as i32);
    }
    for v in [0u16, 255, 256, 0xFFFF] {
        let mut cur = cursor(v.to_le_bytes().to_vec());
        let idx = Index::parse(&mut cur, IndexSize::Size2, false).unwrap();
        assert_eq!(idx.value, v as i32);
    }
}

#[test]
fn index_width4_round_trip() {
    for v in [0i32, 1, i32::MAX, -1, -2, i32::MIN] {
        let mut cur = cursor(v.to_le_bytes().to_vec());
        let idx = Index::parse(&mut cur, IndexSize::Size4, true).unwrap();
        assert_eq!(idx.value, v);
    }
}

#[test]
fn index_nil_sentinel() {
    // -1 is nil at every width when signed
    let mut cur = cursor(vec![0xFF]);
    assert!(Index::parse(&mut cur, IndexSize::Size1, true).unwrap().is_nil());
    let mut cur = cursor(vec![0xFF, 0xFF]);
    assert!(Index::parse(&mut cur, IndexSize::Size2, true).unwrap().is_nil());
    let mut cur = cursor(vec![0xFF, 0xFF, 0xFF, 0xFF]);
    assert!(Index::parse(&mut cur, IndexSize::Size4, true).unwrap().is_nil());
    // narrow unsigned values never collide with the sentinel
    let mut cur = cursor(vec![0xFF]);
    assert!(!Index::parse(&mut cur, IndexSize::Size1, false).unwrap().is_nil());
    let mut cur = cursor(vec![0xFF, 0xFF]);
    assert!(!Index::parse(&mut cur, IndexSize::Size2, false).unwrap().is_nil());
    // a 4-byte index reads its pattern as signed even when unsigned
    let mut cur = cursor(vec![0xFF, 0xFF, 0xFF, 0xFF]);
    assert!(Index::parse(&mut cur, IndexSize::Size4, false).unwrap().is_nil());
}

#[test]
fn index_exhaustion() {
    let mut cur = cursor(vec![1, 2]);
    let err = Index::parse(&mut cur, IndexSize::Size4, true).unwrap_err();
    assert_eq!(err, Error::UnexpectedEnd);
}

#[test]
fn index_size_from_byte() {
    assert_eq!(IndexSize::from_byte(1).unwrap(), IndexSize::Size1);
    assert_eq!(IndexSize::from_byte(2).unwrap(), IndexSize::Size2);
    assert_eq!(IndexSize::from_byte(4).unwrap(), IndexSize::Size4);
    for bad in [0u8, 3, 5, 8, 255] {
        assert_eq!(IndexSize::from_byte(bad).unwrap_err(), Error::IndexSizeMismatch);
    }
}

#[test]
fn text_encoding_from_byte() {
    assert_eq!(TextEncoding::from_byte(0).unwrap(), TextEncoding::UTF16LE);
    assert_eq!(TextEncoding::from_byte(1).unwrap(), TextEncoding::UTF8);
    for bad in [2u8, 3, 255] {
        assert_eq!(TextEncoding::from_byte(bad).unwrap_err(), Error::InvalidTextEncoding);
    }
}

fn text_bytes(body: &[u8]) -> Vec<u8> {
    let mut out = (body.len() as i32).to_le_bytes().to_vec();
    out.extend_from_slice(body);
    out
}

#[test]
fn utf8_text_round_trip() {
    for s in ["", "a", "hello", "tex/a.png", "héllo wörld", "日本語のモデル", "🎌 flags"] {
        let mut cur = cursor(text_bytes(s.as_bytes()));
        let text = PmxText::from_bytes(&mut cur, TextEncoding::UTF8).unwrap();
        assert_eq!(text.decoded().as_str(), s);
        assert_eq!(text.raw_bytes().as_slice(), s.as_bytes());
        assert_eq!(text.encoding(), TextEncoding::UTF8);
    }
}

#[test]
fn utf16le_text_round_trip() {
    for s in ["", "a", "hello", "héllo wörld", "日本語のモデル", "🎌 surrogate pair"] {
        let mut body: Vec<u8> = Vec::new();
        for unit in s.encode_utf16() {
            body.extend_from_slice(&unit.to_le_bytes());
        }
        let mut cur = cursor(text_bytes(&body));
        let text = PmxText::from_bytes(&mut cur, TextEncoding::UTF16LE).unwrap();
        assert_eq!(text.decoded().as_str(), s);
        assert_eq!(text.encoding(), TextEncoding::UTF16LE);
    }
}

#[test]
fn utf8_decoding_is_not_byte_identity() {
    // two bytes of UTF-8 decode to one character
    let mut cur = cursor(text_bytes("é".as_bytes()));
    let text = PmxText::from_bytes(&mut cur, TextEncoding::UTF8).unwrap();
    assert_eq!(text.raw_bytes().len(), 2);
    assert_eq!(text.decoded().chars().count(), 1);
}

#[test]
fn utf16_decoding_halves_ascii_length() {
    // six bytes of UTF-16LE decode to three characters
    let mut cur = cursor(text_bytes(&[0x61, 0, 0x62, 0, 0x63, 0]));
    let text = PmxText::from_bytes(&mut cur, TextEncoding::UTF16LE).unwrap();
    assert_eq!(text.raw_bytes().len(), 6);
    assert_eq!(text.decoded().as_str(), "abc");
}

#[test]
fn text_negative_length_rejected() {
    let mut cur = cursor((-5i32).to_le_bytes().to_vec());
    let err = PmxText::from_bytes(&mut cur, TextEncoding::UTF8).unwrap_err();
    assert_eq!(err, Error::NegativeLength);
    // the pattern 0xFFFFFFFF reads as -1
    let mut cur = cursor(vec![0xFF, 0xFF, 0xFF, 0xFF]);
    let err = PmxText::from_bytes(&mut cur, TextEncoding::UTF16LE).unwrap_err();
    assert_eq!(err, Error::NegativeLength);
}

#[test]
fn text_invalid_utf8_rejected() {
    let mut cur = cursor(text_bytes(&[0xFF, 0xFE]));
    let err = PmxText::from_bytes(&mut cur, TextEncoding::UTF8).unwrap_err();
    assert_eq!(err, Error::FromUtf8);
}

#[test]
fn text_odd_utf16_length_rejected() {
    let mut cur = cursor(text_bytes(&[0x61, 0, 0x62]));
    let err = PmxText::from_bytes(&mut cur, TextEncoding::UTF16LE).unwrap_err();
    assert_eq!(err, Error::Util(util::Error::Utf16LeError));
}

#[test]
fn text_lone_surrogate_rejected() {
    // 0xD800 is a high surrogate with no partner
    let mut cur = cursor(text_bytes(&[0x00, 0xD8]));
    let err = PmxText::from_bytes(&mut cur, TextEncoding::UTF16LE).unwrap_err();
    assert_eq!(err, Error::Util(util::Error::FromUtf16Error));
}

#[test]
fn text_exhausted_body_rejected() {
    // length says 10 bytes, only 3 follow
    let mut bytes = 10i32.to_le_bytes().to_vec();
    bytes.extend_from_slice(&[1, 2, 3]);
    let mut cur = cursor(bytes);
    let err = PmxText::from_bytes(&mut cur, TextEncoding::UTF8).unwrap_err();
    assert_eq!(err, Error::UnexpectedEnd);
}

#[test]
fn flag_bits() {
    let mut cur = cursor(vec![0b1010_0101]);
    let flag = Flag::parse(&mut cur).unwrap();
    assert!(flag.get_state(0));
    assert!(!flag.get_state(1));
    assert!(flag.get_state(2));
    assert!(!flag.get_state(3));
    assert!(!flag.get_state(4));
    assert!(flag.get_state(5));
    assert!(!flag.get_state(6));
    assert!(flag.get_state(7));
}

#[test]
fn flag_try_get_state_range() {
    let mut cur = cursor(vec![0b0000_0001]);
    let flag = Flag::parse(&mut cur).unwrap();
    assert_eq!(flag.try_get_state(0), Some(true));
    assert_eq!(flag.try_get_state(7), Some(false));
    assert_eq!(flag.try_get_state(8), None);
    assert_eq!(flag.try_get_state(255), None);
}

#[test]
fn flag_exhaustion() {
    let mut cur = cursor(vec![]);
    assert_eq!(Flag::parse(&mut cur).unwrap_err(), Error::UnexpectedEnd);
}
