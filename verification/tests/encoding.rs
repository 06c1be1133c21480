use cowatcher::encoding::{base64, hex};

#[test]
fn base64_matches_known_vectors() {
    assert_eq!(base64(b""), "");
    assert_eq!(base64(b"f"), "Zg==");
    assert_eq!(base64(b"fo"), "Zm8=");
    assert_eq!(base64(b"foo"), "Zm9v");
    assert_eq!(base64(b"foob"), "Zm9vYg==");
    assert_eq!(base64(b"fooba"), "Zm9vYmE=");
    assert_eq!(base64(b"foobar"), "Zm9vYmFy");
}

#[test]
fn base64_handles_high_bytes() {
    assert_eq!(base64(&[0xFF, 0xD8, 0xFF]), "/9j/");
}

#[test]
fn hex_is_lowercase_and_padded() {
    assert_eq!(hex(&[0x00, 0x0f, 0xff]), "000fff");
}

#[test]
fn base64_length_is_four_per_started_triple() {
    for n in 0..10usize {
        let bytes = vec![0xABu8; n];
        assert_eq!(base64(&bytes).len(), 4 * n.div_ceil(3));
    }
}

#[test]
fn base64_uses_the_last_two_symbols_of_the_alphabet() {
    assert_eq!(base64(&[0xFB, 0xFF]), "+/8=");
}

#[test]
fn hex_of_nothing_is_empty() {
    assert_eq!(hex(&[]), "");
}
