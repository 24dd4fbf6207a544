use serial_monitor::reassembly::LineReassembler;

fn feed_str(r: &mut LineReassembler, chunk: &str) -> Vec<Vec<u8>> {
    r.feed(chunk.as_bytes())
}

#[test]
fn one_chunk_two_lines() {
    let mut r = LineReassembler::new();
    let lines = feed_str(&mut r, "hello\r\nworld\r\n");
    assert_eq!(lines.len(), 2);
    assert_eq!(lines[0], b"hello\r\n".to_vec());
    assert_eq!(lines[1], b"world\r\n".to_vec());
    let tail = feed_str(&mut r, "");
    assert_eq!(tail.len(), 0);
}

#[test]
fn split_line_across_chunks() {
    let mut r = LineReassembler::new();
    let first = feed_str(&mut r, "hel");
    assert_eq!(first.len(), 0);
    let second = feed_str(&mut r, "lo\r\n");
    assert_eq!(second.len(), 1);
    assert_eq!(second[0], b"hello\r\n".to_vec());
}

#[test]
fn split_inside_multibyte_character() {
    // one line holding a two-byte character, cut between its bytes
    let bytes = "a\u{e9}b\n".as_bytes();
    assert_eq!(bytes, &[0x61, 0xc3, 0xa9, 0x62, 0x0a]);
    let mut r = LineReassembler::new();
    assert_eq!(r.feed(&bytes[..2]).len(), 0);
    let lines = r.feed(&bytes[2..]);
    assert_eq!(lines.len(), 1);
    assert_eq!(lines[0], bytes.to_vec());
}

#[test]
fn split_inside_terminator_pair() {
    let mut r = LineReassembler::new();
    assert_eq!(r.feed(b"one\r").len(), 0);
    let lines = r.feed(b"\ntwo\r\n");
    assert_eq!(lines.len(), 2);
    assert_eq!(lines[0], b"one\r\n".to_vec());
    assert_eq!(lines[1], b"two\r\n".to_vec());
}

#[test]
fn chunking_does_not_change_the_lines() {
    let input = "first\r\nsecond\nth\u{1f600}ird\r\nrest".as_bytes();
    let mut whole = LineReassembler::new();
    let all_at_once = whole.feed(input);
    let mut pieces = LineReassembler::new();
    let mut gathered: Vec<Vec<u8>> = Vec::new();
    for b in input {
        gathered.append(&mut pieces.feed(std::slice::from_ref(b)));
    }
    assert_eq!(all_at_once, gathered);
}

#[test]
fn undecodable_tail_is_retained_not_dropped() {
    let mut r = LineReassembler::new();
    // a lone continuation byte never decodes, so the line before it is
    // withheld until the buffer decodes again; nothing is lost
    assert_eq!(r.feed(b"ok\n\xc3").len(), 0);
    let lines = r.feed(b"\xa9\n");
    assert_eq!(lines.len(), 2);
    assert_eq!(lines[0], b"ok\n".to_vec());
    assert_eq!(lines[1], b"\xc3\xa9\n".to_vec());
}

#[test]
fn reset_discards_partial_data() {
    let mut r = LineReassembler::new();
    assert_eq!(r.feed(b"dangling").len(), 0);
    r.reset();
    let lines = r.feed(b"fresh\n");
    assert_eq!(lines.len(), 1);
    assert_eq!(lines[0], b"fresh\n".to_vec());
}
