use hunspell_rs::{to_c_bytes, EncodingError};

#[test]
fn a_word_is_closed_by_a_zero() {
    assert_eq!(to_c_bytes("cats"), Ok(vec![b'c', b'a', b't', b's', 0]));
}

#[test]
fn the_empty_string_is_a_lone_zero() {
    assert_eq!(to_c_bytes(""), Ok(vec![0]));
}

#[test]
fn text_beyond_ascii_crosses_as_its_utf8_bytes() {
    assert_eq!(to_c_bytes("é"), Ok(vec![0xc3, 0xa9, 0]));
    assert_eq!(to_c_bytes("日本"), Ok(vec![0xe6, 0x97, 0xa5, 0xe6, 0x9c, 0xac, 0]));
}

#[test]
fn an_embedded_zero_is_refused_with_its_offset() {
    assert_eq!(to_c_bytes("ca\0ts"), Err(EncodingError { nul_position: 2 }));
}

#[test]
fn a_leading_zero_is_refused_at_offset_zero() {
    assert_eq!(to_c_bytes("\0cats"), Err(EncodingError { nul_position: 0 }));
}

#[test]
fn a_trailing_zero_is_refused_too() {
    assert_eq!(to_c_bytes("cats\0"), Err(EncodingError { nul_position: 4 }));
}

#[test]
fn of_several_zeros_the_first_is_named() {
    assert_eq!(to_c_bytes("a\0b\0c\0"), Err(EncodingError { nul_position: 1 }));
}

#[test]
fn the_offset_counts_bytes_not_characters() {
    assert_eq!(to_c_bytes("é\0"), Err(EncodingError { nul_position: 2 }));
}

#[test]
fn marshalled_bytes_hold_one_zero_and_it_is_last() {
    for word in ["a", "progra", "octonasaurius", "tests/fixtures/reduced.aff"] {
        let bytes = to_c_bytes(word).unwrap();
        assert_eq!(bytes.len(), word.len() + 1);
        assert_eq!(&bytes[..word.len()], word.as_bytes());
        assert_eq!(bytes.iter().filter(|b| **b == 0).count(), 1);
        assert_eq!(bytes.last(), Some(&0));
    }
}
