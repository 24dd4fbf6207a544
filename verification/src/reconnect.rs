//! The reconnect state machine.
//!
//! The top-level loop owns the retry policy around the device session:
//! `Disconnected -> Connecting -> Connected -> (Disconnected | Terminated)`.
//! An open failure or a session-ending read or write failure leads back to
//! `Disconnected` after a flat backoff delay; the loop never gives up. A
//! read timeout is no event at all: the session stays up with no delay. The
//! only non-error termination is a clean end of stream.

use vstd::prelude::*;

verus! {

/// Where the reconnect loop stands.
#[derive(Clone, Copy, PartialEq, Eq, Structural, Debug)]
pub enum ConnState {
    /// No session; an attempt may begin.
    Disconnected,
    /// An open attempt is in flight.
    Connecting,
    /// A session is established and the read path runs.
    Connected,
    /// A clean end of stream ended the loop.
    Terminated,
}

/// What the outside world reported back to the loop.
#[derive(Clone, Copy, PartialEq, Eq, Structural, Debug)]
pub enum SessionEvent {
    /// The device open succeeded.
    Opened,
    /// The device open failed (busy, missing).
    OpenFailed,
    /// A read delivered one or more bytes.
    DataRead,
    /// A read timed out: no data yet, not an error.
    ReadTimedOut,
    /// A read returned zero bytes: clean end of stream.
    EndOfStream,
    /// A read failed with a real error.
    ReadFailed,
    /// A write to the console or to the log failed.
    WriteFailed,
}

/// What the caller must do after a step.
#[derive(Clone, Copy, PartialEq, Eq, Structural, Debug)]
pub struct StepAction {
    /// Sleep this many milliseconds before going on; zero means none.
    pub delay_ms: u64,
    /// Emit the connected notification.
    pub announce_connect: bool,
    /// Clear the interactive console.
    pub clear_console: bool,
    /// Reset the reassembly buffer: a new session begins and undelivered
    /// partial data from the previous one is unrecoverable.
    pub reset_reassembly: bool,
}

/// The reconnect loop's own state: where it stands and the retry record.
#[derive(Clone, Copy, PartialEq, Eq, Structural, Debug)]
pub struct Reconnector {
    pub state: ConnState,
    /// Open attempts failed since the last established session.
    pub attempts: u64,
    /// The flat backoff delay between attempts.
    pub backoff_ms: u64,
    /// Whether the console is cleared when a session is established.
    pub clear_on_connect: bool,
}

impl Reconnector {
    /// A fresh loop: disconnected, no failed attempts yet.
    pub fn new(backoff_ms: u64, clear_on_connect: bool) -> (r: Self)
        ensures
            r.state is Disconnected,
            r.attempts == 0,
            r.backoff_ms == backoff_ms,
            r.clear_on_connect == clear_on_connect,
    {
        Reconnector { state: ConnState::Disconnected, attempts: 0, backoff_ms, clear_on_connect }
    }

    /// Move from `Disconnected` to `Connecting`: an open attempt starts.
    pub fn begin_attempt(&mut self)
        requires
            old(self).state is Disconnected,
        ensures
            final(self).state is Connecting,
            final(self).attempts == old(self).attempts,
            final(self).backoff_ms == old(self).backoff_ms,
            final(self).clear_on_connect == old(self).clear_on_connect,
    {
        self.state = ConnState::Connecting;
    }

    /// Advance the machine on one event and say what the caller must do.
    ///
    /// A successful open establishes the session, resets the retry record
    /// and announces the connection exactly once. A failed open counts the
    /// attempt and asks for the flat backoff delay. A timeout changes
    /// nothing and asks for no delay; a clean end of stream terminates the
    /// loop; any other read or write failure drops the session and asks for
    /// the backoff delay before the next attempt.
    pub fn step(&mut self, event: SessionEvent) -> (act: StepAction)
        requires
            event is Opened || event is OpenFailed ==> old(self).state is Connecting,
            event is DataRead || event is ReadTimedOut || event is EndOfStream || event
                is ReadFailed || event is WriteFailed ==> old(self).state is Connected,
            event is OpenFailed ==> old(self).attempts < u64::MAX,
        ensures
            final(self).backoff_ms == old(self).backoff_ms,
            final(self).clear_on_connect == old(self).clear_on_connect,
            event is Opened ==> final(self).state is Connected && final(self).attempts == 0
                && act == (StepAction {
                delay_ms: 0,
                announce_connect: true,
                clear_console: old(self).clear_on_connect,
                reset_reassembly: true,
            }),
            event is OpenFailed ==> final(self).state is Disconnected && final(self).attempts
                == old(self).attempts + 1 && act == (StepAction {
                delay_ms: old(self).backoff_ms,
                announce_connect: false,
                clear_console: false,
                reset_reassembly: false,
            }),
            event is DataRead || event is ReadTimedOut ==> *final(self) == *old(self) && act == (
            StepAction {
                delay_ms: 0,
                announce_connect: false,
                clear_console: false,
                reset_reassembly: false,
            }),
            event is EndOfStream ==> final(self).state is Terminated && final(self).attempts
                == old(self).attempts && act == (StepAction {
                delay_ms: 0,
                announce_connect: false,
                clear_console: false,
                reset_reassembly: false,
            }),
            event is ReadFailed || event is WriteFailed ==> final(self).state is Disconnected
                && final(self).attempts == old(self).attempts && act == (StepAction {
                delay_ms: old(self).backoff_ms,
                announce_connect: false,
                clear_console: false,
                reset_reassembly: false,
            }),
    {
        match event {
            SessionEvent::Opened => {
                self.state = ConnState::Connected;
                self.attempts = 0;
                StepAction {
                    delay_ms: 0,
                    announce_connect: true,
                    clear_console: self.clear_on_connect,
                    reset_reassembly: true,
                }
            },
            SessionEvent::OpenFailed => {
                self.state = ConnState::Disconnected;
                self.attempts = self.attempts + 1;
                StepAction {
                    delay_ms: self.backoff_ms,
                    announce_connect: false,
                    clear_console: false,
                    reset_reassembly: false,
                }
            },
            SessionEvent::DataRead | SessionEvent::ReadTimedOut => StepAction {
                delay_ms: 0,
                announce_connect: false,
                clear_console: false,
                reset_reassembly: false,
            },
            SessionEvent::EndOfStream => {
                self.state = ConnState::Terminated;
                StepAction {
                    delay_ms: 0,
                    announce_connect: false,
                    clear_console: false,
                    reset_reassembly: false,
                }
            },
            SessionEvent::ReadFailed | SessionEvent::WriteFailed => {
                self.state = ConnState::Disconnected;
                StepAction {
                    delay_ms: self.backoff_ms,
                    announce_connect: false,
                    clear_console: false,
                    reset_reassembly: false,
                }
            },
        }
    }
}

} // verus!
