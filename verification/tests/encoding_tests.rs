use serial_monitor::encoding::utf8_ok;

fn agrees_with_std(bytes: &[u8]) {
    let expected = std::str::from_utf8(bytes).is_ok();
    assert_eq!(
        utf8_ok(&bytes.to_vec()),
        expected,
        "validity disagreement on {:?}",
        bytes
    );
}

#[test]
fn ascii_and_empty_are_valid() {
    agrees_with_std(b"");
    agrees_with_std(b"hello world\r\n");
    assert!(utf8_ok(&b"hello".to_vec()));
}

#[test]
fn wider_encodings_are_valid() {
    agrees_with_std("\u{e9}".as_bytes());
    agrees_with_std("\u{4e16}\u{754c}".as_bytes());
    agrees_with_std("\u{1f600}".as_bytes());
    agrees_with_std("mixed \u{e9}\u{4e16}\u{1f600} text".as_bytes());
}

#[test]
fn truncated_sequences_are_invalid() {
    agrees_with_std(b"\xc3");
    agrees_with_std(b"\xe2\x82");
    agrees_with_std(b"\xf0\x9f\x98");
    agrees_with_std(b"ok\xc3");
}

#[test]
fn malformed_sequences_are_invalid() {
    // stray continuation byte
    agrees_with_std(b"\x80");
    // overlong encodings
    agrees_with_std(b"\xc0\x80");
    agrees_with_std(b"\xc1\xbf");
    agrees_with_std(b"\xe0\x80\x80");
    agrees_with_std(b"\xf0\x80\x80\x80");
    // surrogate range
    agrees_with_std(b"\xed\xa0\x80");
    agrees_with_std(b"\xed\x9f\xbf");
    // beyond the last scalar
    agrees_with_std(b"\xf4\x90\x80\x80");
    agrees_with_std(b"\xf5\x80\x80\x80");
    agrees_with_std(b"\xff");
}

#[test]
fn boundary_scalars_are_valid() {
    agrees_with_std(b"\x7f");
    agrees_with_std(b"\xc2\x80");
    agrees_with_std(b"\xdf\xbf");
    agrees_with_std(b"\xe0\xa0\x80");
    agrees_with_std(b"\xef\xbf\xbf");
    agrees_with_std(b"\xf0\x90\x80\x80");
    agrees_with_std(b"\xf4\x8f\xbf\xbf");
}

#[test]
fn every_single_byte_agrees_with_std() {
    for b in 0u8..=255 {
        agrees_with_std(&[b]);
    }
}

#[test]
fn every_two_byte_head_agrees_with_std() {
    for b0 in 0xc0u8..=0xf7 {
        for b1 in 0u8..=255 {
            agrees_with_std(&[b0, b1]);
        }
    }
}
