use serial_monitor::sink::{current_timestamp, render_timestamp, sink_outputs, Timestamp};

#[test]
fn timestamp_prefix_is_zero_padded() {
    let t = Timestamp { hour: 1, minute: 2, second: 3, millisecond: 45 };
    assert_eq!(render_timestamp(&t), b"[01:02:03.045] ".to_vec());
}

#[test]
fn timestamp_prefix_full_width() {
    let t = Timestamp { hour: 23, minute: 59, second: 58, millisecond: 999 };
    assert_eq!(render_timestamp(&t), b"[23:59:58.999] ".to_vec());
}

#[test]
fn timestamped_line_is_filtered_and_prefixed() {
    let t = Timestamp { hour: 12, minute: 34, second: 56, millisecond: 789 };
    let (console, log) = sink_outputs(b"\x1b[32mOK\x1b[0m\r\n", Some(&t));
    assert_eq!(console, b"\x1b[32mOK\x1b[0m\r\n".to_vec());
    assert_eq!(log, b"[12:34:56.789] OK\r\n".to_vec());
}

#[test]
fn untimestamped_line_is_only_filtered() {
    let (console, log) = sink_outputs(b"\x1b[31mwarn\x1b[0m\r\n", None);
    assert_eq!(console, b"\x1b[31mwarn\x1b[0m\r\n".to_vec());
    assert_eq!(log, b"warn\r\n".to_vec());
}

#[test]
fn plain_line_reaches_both_sinks_unchanged() {
    let (console, log) = sink_outputs(b"data\r\n", None);
    assert_eq!(console, b"data\r\n".to_vec());
    assert_eq!(log, b"data\r\n".to_vec());
}

#[test]
fn clock_reading_is_within_range() {
    let t = current_timestamp();
    assert!(t.hour < 24);
    assert!(t.minute < 60);
    assert!(t.second < 60);
    assert!(t.millisecond < 1000);
}
