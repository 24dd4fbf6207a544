//! The dual sink: for each reassembled line, the interactive console gets
//! the original bytes and the log gets a filtered variant, optionally
//! prefixed with a wall-clock timestamp at millisecond precision.

use crate::ansi::{strip_ansi, stripped};
use chrono::Timelike;
use vstd::prelude::*;
use vstd::slice::slice_to_vec;

verus! {

/// A wall-clock time of day, down to the millisecond.
#[derive(Clone, Copy, PartialEq, Eq, Structural, Debug)]
pub struct Timestamp {
    pub hour: u32,
    pub minute: u32,
    pub second: u32,
    pub millisecond: u32,
}

impl Timestamp {
    /// Every field within its calendar range.
    pub open spec fn wf(&self) -> bool {
        self.hour < 24 && self.minute < 60 && self.second < 60 && self.millisecond < 1000
    }
}

/// The byte for a single decimal digit.
pub open spec fn digit(d: int) -> u8
    recommends
        0 <= d <= 9,
{
    (0x30 + d) as u8
}

/// `[HH:MM:SS.mmm] `: the bracketed, zero-padded prefix a timestamped log
/// line carries.
pub open spec fn timestamp_bytes(t: Timestamp) -> Seq<u8> {
    seq![
        0x5b,
        digit(t.hour as int / 10),
        digit(t.hour as int % 10),
        0x3a,
        digit(t.minute as int / 10),
        digit(t.minute as int % 10),
        0x3a,
        digit(t.second as int / 10),
        digit(t.second as int % 10),
        0x2e,
        digit(t.millisecond as int / 100),
        digit((t.millisecond as int / 10) % 10),
        digit(t.millisecond as int % 10),
        0x5d,
        0x20,
    ]
}

/// The filtered form of a line as it goes to the log, with the optional
/// timestamp prefix.
pub open spec fn logged_line(line: Seq<u8>, ts: Option<Timestamp>) -> Seq<u8> {
    match ts {
        Some(t) => timestamp_bytes(t) + stripped(line),
        None => stripped(line),
    }
}

/// Render the timestamp prefix.
pub fn render_timestamp(t: &Timestamp) -> (out: Vec<u8>)
    requires
        t.wf(),
    ensures
        out@ == timestamp_bytes(*t),
{
    let mut out: Vec<u8> = Vec::new();
    out.push(0x5b);
    out.push(0x30 + (t.hour / 10) as u8);
    out.push(0x30 + (t.hour % 10) as u8);
    out.push(0x3a);
    out.push(0x30 + (t.minute / 10) as u8);
    out.push(0x30 + (t.minute % 10) as u8);
    out.push(0x3a);
    out.push(0x30 + (t.second / 10) as u8);
    out.push(0x30 + (t.second % 10) as u8);
    out.push(0x2e);
    out.push(0x30 + (t.millisecond / 100) as u8);
    out.push(0x30 + ((t.millisecond / 10) % 10) as u8);
    out.push(0x30 + (t.millisecond % 10) as u8);
    out.push(0x5d);
    out.push(0x20);
    proof {
        assert(out@ =~= timestamp_bytes(*t));
    }
    out
}

/// What one line becomes at each sink: the interactive output takes the
/// line verbatim, terminator and escape sequences included; the log takes
/// the filtered form, timestamped when requested. The caller writes the
/// first component before the second.
pub fn sink_outputs(line: &[u8], ts: Option<&Timestamp>) -> (r: (Vec<u8>, Vec<u8>))
    requires
        ts is Some ==> ts->0.wf(),
    ensures
        r.0@ == line@,
        ts is Some ==> r.1@ == logged_line(line@, Some(*ts->0)),
        ts is None ==> r.1@ == logged_line(line@, None),
{
    let console = slice_to_vec(line);
    let filtered = strip_ansi(line);
    match ts {
        Some(t) => {
            let mut log = render_timestamp(t);
            let ghost prefix = log@;
            let mut rest = filtered;
            log.append(&mut rest);
            proof {
                assert(log@ == prefix + stripped(line@));
            }
            (console, log)
        },
        None => (console, filtered),
    }
}

/// Relies on `chrono::Local::now` and the `Timelike` accessors: the hour is
/// 0 to 23, the minute and second 0 to 59, and the milliseconds within the
/// second below 2000 (above 999 only while a leap second is represented).
/// Nothing else can be promised of a clock reading.
#[verifier::external_body]
fn local_time_parts() -> (r: (u32, u32, u32, u32))
    ensures
        r.0 < 24,
        r.1 < 60,
        r.2 < 60,
        r.3 < 2000,
{
    let now = chrono::Local::now();
    (now.hour(), now.minute(), now.second(), now.timestamp_subsec_millis())
}

/// The current local time of day. A leap-second reading, which reports its
/// milliseconds beyond the usual range, is pinned to the last representable
/// millisecond.
pub fn current_timestamp() -> (t: Timestamp)
    ensures
        t.wf(),
{
    let (hour, minute, second, millis) = local_time_parts();
    let millisecond = if millis >= 1000 {
        999
    } else {
        millis
    };
    Timestamp { hour, minute, second, millisecond }
}

} // verus!
