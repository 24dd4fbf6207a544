use serial_monitor::commands::{
    dispatch_key, format_port_listing, help_lines, save_report, separator_line, u64_to_decimal,
    Command, SaveOutcome,
};

#[test]
fn every_key_maps_to_its_command() {
    assert_eq!(dispatch_key('c'), Some(Command::ClearConsole));
    assert_eq!(dispatch_key('d'), Some(Command::WipeLog));
    assert_eq!(dispatch_key('l'), Some(Command::ListPorts));
    assert_eq!(dispatch_key('q'), Some(Command::Quit));
    assert_eq!(dispatch_key('s'), Some(Command::SaveLog));
    assert_eq!(dispatch_key('h'), Some(Command::Help));
}

#[test]
fn unknown_keys_are_ignored() {
    assert_eq!(dispatch_key('x'), None);
    assert_eq!(dispatch_key('C'), None);
    assert_eq!(dispatch_key(' '), None);
    assert_eq!(dispatch_key('\u{1b}'), None);
}

#[test]
fn decimal_rendering_exact_values() {
    assert_eq!(u64_to_decimal(0), b"0".to_vec());
    assert_eq!(u64_to_decimal(7), b"7".to_vec());
    assert_eq!(u64_to_decimal(10), b"10".to_vec());
    assert_eq!(u64_to_decimal(115200), b"115200".to_vec());
    assert_eq!(
        u64_to_decimal(u64::MAX),
        b"18446744073709551615".to_vec()
    );
}

#[test]
fn empty_enumeration_gives_the_notice() {
    let ports: Vec<Vec<u8>> = Vec::new();
    let lines = format_port_listing(&ports);
    assert_eq!(lines.len(), 1);
    assert_eq!(lines[0], b"No ports found!".to_vec());
}

#[test]
fn ports_are_numbered_from_one() {
    let ports = vec![b"COM3".to_vec(), b"/dev/ttyUSB0".to_vec()];
    let lines = format_port_listing(&ports);
    assert_eq!(lines.len(), 2);
    assert_eq!(lines[0], b"1. COM3".to_vec());
    assert_eq!(lines[1], b"2. /dev/ttyUSB0".to_vec());
}

#[test]
fn help_listing_names_every_command() {
    let lines = help_lines();
    assert_eq!(lines.len(), 8);
    assert_eq!(lines[0], "Press the following keys to execute commands:");
    assert_eq!(lines[1], "");
    assert_eq!(lines[2], "- c: Clear the console");
    assert_eq!(lines[3], "- d: Wipe the log");
    assert_eq!(lines[4], "- l: List available ports");
    assert_eq!(lines[5], "- q: Quit the application");
    assert_eq!(lines[6], "- s: Save the log");
    assert_eq!(lines[7], "- h: Display this help message");
}

#[test]
fn save_outcomes_have_their_messages() {
    let saved = SaveOutcome::Saved(String::from("/tmp/out.txt"));
    assert_eq!(save_report(&saved), "Saved /tmp/out.txt");
    let failed = SaveOutcome::CopyFailed(String::from("permission denied"));
    assert_eq!(save_report(&failed), "Error copying file: permission denied");
    assert_eq!(save_report(&SaveOutcome::Canceled), "Save operation was canceled");
}

#[test]
fn separator_centers_short_text() {
    let line = separator_line(Some(10), b"ab");
    assert_eq!(line, b"--- ab ---".to_vec());
}

#[test]
fn separator_passes_long_text_through() {
    let line = separator_line(Some(4), b"abcd");
    assert_eq!(line, b"abcd".to_vec());
}

#[test]
fn separator_fills_width_for_empty_text() {
    let line = separator_line(Some(5), b"");
    assert_eq!(line, b"-----".to_vec());
}

#[test]
fn separator_without_width_uses_fixed_banner() {
    let line = separator_line(None, b"Help");
    let dashes = "-".repeat(23);
    let expected = format!("{} Help {}", dashes, dashes);
    assert_eq!(line, expected.into_bytes());
}
