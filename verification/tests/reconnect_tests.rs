use serial_monitor::reconnect::{ConnState, Reconnector, SessionEvent};

#[test]
fn three_failures_then_success() {
    let mut m = Reconnector::new(1000, false);
    let mut delays = 0;
    let mut announcements = 0;
    for _ in 0..3 {
        m.begin_attempt();
        let act = m.step(SessionEvent::OpenFailed);
        if act.delay_ms > 0 {
            delays += 1;
        }
        if act.announce_connect {
            announcements += 1;
        }
        assert_eq!(act.delay_ms, 1000);
        assert_eq!(m.state, ConnState::Disconnected);
    }
    assert_eq!(delays, 3);
    assert_eq!(m.attempts, 3);
    m.begin_attempt();
    let act = m.step(SessionEvent::Opened);
    if act.announce_connect {
        announcements += 1;
    }
    assert_eq!(announcements, 1);
    assert_eq!(act.delay_ms, 0);
    assert_eq!(m.state, ConnState::Connected);
    assert_eq!(m.attempts, 0);
    assert!(act.reset_reassembly);
}

#[test]
fn timeout_is_no_transition_and_no_delay() {
    let mut m = Reconnector::new(1000, false);
    m.begin_attempt();
    m.step(SessionEvent::Opened);
    let act = m.step(SessionEvent::ReadTimedOut);
    assert_eq!(m.state, ConnState::Connected);
    assert_eq!(act.delay_ms, 0);
}

#[test]
fn end_of_stream_terminates_cleanly() {
    let mut m = Reconnector::new(1000, false);
    m.begin_attempt();
    m.step(SessionEvent::Opened);
    let act = m.step(SessionEvent::EndOfStream);
    assert_eq!(m.state, ConnState::Terminated);
    assert_eq!(act.delay_ms, 0);
}

#[test]
fn read_error_reconnects_instead_of_terminating() {
    let mut m = Reconnector::new(1000, false);
    m.begin_attempt();
    m.step(SessionEvent::Opened);
    let act = m.step(SessionEvent::ReadFailed);
    assert_eq!(m.state, ConnState::Disconnected);
    assert_ne!(m.state, ConnState::Terminated);
    assert_eq!(act.delay_ms, 1000);
}

#[test]
fn write_failure_ends_the_session_too() {
    let mut m = Reconnector::new(500, false);
    m.begin_attempt();
    m.step(SessionEvent::Opened);
    let act = m.step(SessionEvent::WriteFailed);
    assert_eq!(m.state, ConnState::Disconnected);
    assert_eq!(act.delay_ms, 500);
}

#[test]
fn clear_on_connect_flag_reaches_the_action() {
    let mut m = Reconnector::new(1000, true);
    m.begin_attempt();
    let act = m.step(SessionEvent::Opened);
    assert!(act.clear_console);
    let mut m2 = Reconnector::new(1000, false);
    m2.begin_attempt();
    let act2 = m2.step(SessionEvent::Opened);
    assert!(!act2.clear_console);
}

#[test]
fn data_keeps_the_session_running() {
    let mut m = Reconnector::new(1000, false);
    m.begin_attempt();
    m.step(SessionEvent::Opened);
    let act = m.step(SessionEvent::DataRead);
    assert_eq!(m.state, ConnState::Connected);
    assert_eq!(act.delay_ms, 0);
    assert!(!act.announce_connect);
}
