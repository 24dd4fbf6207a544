use serial_monitor::settings::{get_settings, Args, Config};

fn empty_args() -> Args {
    Args { port: None, baud_rate: None, timestamps: None, log_folder: None }
}

fn full_config() -> Config {
    Config {
        port: Some(String::from("/dev/ttyACM0")),
        baud_rate: Some(9600),
        timestamps: Some(true),
        log_folder: Some(String::from("/var/log")),
        clear_on_start: Some(true),
    }
}

#[test]
fn command_line_wins_over_file() {
    let args = Args {
        port: Some(String::from("COM7")),
        baud_rate: Some(57600),
        timestamps: Some(false),
        log_folder: Some(String::from("/home/logs")),
    };
    let s = get_settings(args, Some(full_config()));
    assert_eq!(s.port, "COM7");
    assert_eq!(s.baud_rate, 57600);
    assert!(!s.timestamps);
    assert_eq!(s.log_folder, "/home/logs");
    assert!(s.clear_on_start);
}

#[test]
fn file_fills_what_the_command_line_leaves() {
    let s = get_settings(empty_args(), Some(full_config()));
    assert_eq!(s.port, "/dev/ttyACM0");
    assert_eq!(s.baud_rate, 9600);
    assert!(s.timestamps);
    assert_eq!(s.log_folder, "/var/log");
    assert!(s.clear_on_start);
}

#[test]
fn defaults_apply_without_any_source() {
    let s = get_settings(empty_args(), None);
    assert_eq!(s.port, "COM5");
    assert_eq!(s.baud_rate, 115200);
    assert!(!s.timestamps);
    assert_eq!(
        s.log_folder,
        "C:\\Users\\felixb\\OneDrive - HP Inc\\Debugs\\Springs"
    );
    assert!(!s.clear_on_start);
}

#[test]
fn empty_file_config_falls_back_to_defaults() {
    let cfg = Config {
        port: None,
        baud_rate: None,
        timestamps: None,
        log_folder: None,
        clear_on_start: None,
    };
    let s = get_settings(empty_args(), Some(cfg));
    assert_eq!(s.port, "COM5");
    assert_eq!(s.baud_rate, 115200);
    assert!(!s.timestamps);
    assert!(!s.clear_on_start);
}

#[test]
fn clear_on_start_comes_from_the_file_alone() {
    let mut cfg = full_config();
    cfg.clear_on_start = Some(false);
    let s = get_settings(empty_args(), Some(cfg));
    assert!(!s.clear_on_start);
}
