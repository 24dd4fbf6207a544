//! The single-key operator command protocol and the text each command
//! produces.
//!
//! The dispatcher loop polls for key input and maps each recognized key to
//! exactly one side-effecting action; unrecognized keys are ignored. The
//! decisions and the formatting live here; the polling, the screen, the
//! dialogs and the file system stay with the caller.

use crate::sink::digit;
use vstd::prelude::*;
use vstd::string::StringExecFns;

verus! {

/// The operator commands.
#[derive(Clone, Copy, PartialEq, Eq, Structural, Debug)]
pub enum Command {
    /// Clear the interactive display.
    ClearConsole,
    /// Truncate and recreate the log file.
    WipeLog,
    /// Enumerate and print the available device identifiers.
    ListPorts,
    /// Terminate the process.
    Quit,
    /// Copy the log to an operator-chosen destination.
    SaveLog,
    /// Print the help listing.
    Help,
}

/// The key-to-command mapping.
pub open spec fn spec_dispatch(key: char) -> Option<Command> {
    if key == 'c' {
        Some(Command::ClearConsole)
    } else if key == 'd' {
        Some(Command::WipeLog)
    } else if key == 'l' {
        Some(Command::ListPorts)
    } else if key == 'q' {
        Some(Command::Quit)
    } else if key == 's' {
        Some(Command::SaveLog)
    } else if key == 'h' {
        Some(Command::Help)
    } else {
        None
    }
}

/// Map one pressed key to its command; any other key maps to nothing.
pub fn dispatch_key(key: char) -> (r: Option<Command>)
    ensures
        r == spec_dispatch(key),
{
    match key {
        'c' => Some(Command::ClearConsole),
        'd' => Some(Command::WipeLog),
        'l' => Some(Command::ListPorts),
        'q' => Some(Command::Quit),
        's' => Some(Command::SaveLog),
        'h' => Some(Command::Help),
        _ => None,
    }
}

/// The decimal digits of `n`, most significant first, no leading zeros.
pub open spec fn dec_digits(n: nat) -> Seq<u8>
    decreases n,
{
    if n < 10 {
        seq![digit(n as int)]
    } else {
        dec_digits(n / 10).push(digit((n % 10) as int))
    }
}

/// Render `n` in decimal.
pub fn u64_to_decimal(n: u64) -> (out: Vec<u8>)
    ensures
        out@ == dec_digits(n as nat),
    decreases n,
{
    if n < 10 {
        let mut out: Vec<u8> = Vec::new();
        out.push(0x30 + n as u8);
        proof {
            assert(out@ =~= seq![digit(n as int)]);
        }
        out
    } else {
        let mut out = u64_to_decimal(n / 10);
        out.push(0x30 + (n % 10) as u8);
        out
    }
}

/// The notice printed when no devices are present.
pub open spec fn no_ports_notice() -> Seq<u8> {
    seq![0x4e, 0x6f, 0x20, 0x70, 0x6f, 0x72, 0x74, 0x73, 0x20, 0x66, 0x6f, 0x75, 0x6e, 0x64, 0x21]
}

/// One line of the port listing: a one-based number, a dot, a space, the
/// device identifier.
pub open spec fn listing_entry(ports: Seq<Seq<u8>>, j: int) -> Seq<u8> {
    dec_digits((j + 1) as nat) + seq![0x2e, 0x20] + ports[j]
}

/// The whole listing: a numbered line per device, or the notice when none
/// are present. An empty enumeration is a valid result, not an error.
pub open spec fn listing_lines(ports: Seq<Seq<u8>>) -> Seq<Seq<u8>> {
    if ports.len() == 0 {
        seq![no_ports_notice()]
    } else {
        Seq::new(ports.len(), |j: int| listing_entry(ports, j))
    }
}

fn no_ports_line() -> (out: Vec<u8>)
    ensures
        out@ == no_ports_notice(),
{
    let mut out: Vec<u8> = Vec::new();
    out.push(0x4e);
    out.push(0x6f);
    out.push(0x20);
    out.push(0x70);
    out.push(0x6f);
    out.push(0x72);
    out.push(0x74);
    out.push(0x73);
    out.push(0x20);
    out.push(0x66);
    out.push(0x6f);
    out.push(0x75);
    out.push(0x6e);
    out.push(0x64);
    out.push(0x21);
    proof {
        assert(out@ =~= no_ports_notice());
    }
    out
}

/// Format the enumerated device identifiers for display.
pub fn format_port_listing(ports: &Vec<Vec<u8>>) -> (lines: Vec<Vec<u8>>)
    ensures
        lines.deep_view() == listing_lines(ports.deep_view()),
{
    if ports.len() == 0 {
        let mut lines: Vec<Vec<u8>> = Vec::new();
        lines.push(no_ports_line());
        proof {
            assert(lines.deep_view() =~~= listing_lines(ports.deep_view()));
        }
        return lines;
    }
    let mut lines: Vec<Vec<u8>> = Vec::new();
    let mut i: usize = 0;
    while i < ports.len()
        invariant
            i <= ports.len(),
            lines.deep_view().len() == i,
            forall|j: int|
                0 <= j < i ==> lines.deep_view()[j] == listing_entry(ports.deep_view(), j),
        decreases ports.len() - i,
    {
        let mut line = u64_to_decimal(i as u64 + 1);
        line.push(0x2e);
        line.push(0x20);
        let ghost pre = line@;
        proof {
            assert(pre =~= dec_digits((i + 1) as nat) + seq![0x2e, 0x20]);
        }
        line.extend_from_slice(ports[i].as_slice());
        proof {
            assert(ports.deep_view()[i as int] == ports@[i as int]@);
            assert(line@ == listing_entry(ports.deep_view(), i as int));
        }
        let ghost old_lines = lines.deep_view();
        lines.push(line);
        proof {
            assert(lines.deep_view() =~~= old_lines.push(listing_entry(
                ports.deep_view(),
                i as int,
            )));
        }
        i = i + 1;
    }
    proof {
        assert(lines.deep_view() =~= listing_lines(ports.deep_view()));
    }
    lines
}

/// The help listing, one line per entry, exactly as it is printed.
pub fn help_lines() -> (lines: Vec<String>)
    ensures
        lines.deep_view() == seq![
            "Press the following keys to execute commands:"@,
            ""@,
            "- c: Clear the console"@,
            "- d: Wipe the log"@,
            "- l: List available ports"@,
            "- q: Quit the application"@,
            "- s: Save the log"@,
            "- h: Display this help message"@,
        ],
{
    let mut lines: Vec<String> = Vec::new();
    lines.push(String::from_str("Press the following keys to execute commands:"));
    lines.push(String::from_str(""));
    lines.push(String::from_str("- c: Clear the console"));
    lines.push(String::from_str("- d: Wipe the log"));
    lines.push(String::from_str("- l: List available ports"));
    lines.push(String::from_str("- q: Quit the application"));
    lines.push(String::from_str("- s: Save the log"));
    lines.push(String::from_str("- h: Display this help message"));
    proof {
        assert(lines.deep_view() =~~= seq![
            "Press the following keys to execute commands:"@,
            ""@,
            "- c: Clear the console"@,
            "- d: Wipe the log"@,
            "- l: List available ports"@,
            "- q: Quit the application"@,
            "- s: Save the log"@,
            "- h: Display this help message"@,
        ]);
    }
    lines
}

/// How an attempt to save the log ended.
pub enum SaveOutcome {
    /// The copy succeeded; the chosen destination path is carried along.
    Saved(String),
    /// The copy failed; the error text is carried along.
    CopyFailed(String),
    /// The operator cancelled the dialog.
    Canceled,
}

/// The message reported for one save attempt: success names the
/// destination, failure names the error, cancellation is never an error.
pub fn save_report(outcome: &SaveOutcome) -> (msg: String)
    ensures
        outcome is Saved ==> msg@ == "Saved "@ + outcome->Saved_0@,
        outcome is CopyFailed ==> msg@ == "Error copying file: "@ + outcome->CopyFailed_0@,
        outcome is Canceled ==> msg@ == "Save operation was canceled"@,
{
    match outcome {
        SaveOutcome::Saved(path) => {
            let mut msg = String::from_str("Saved ");
            msg.append(path.as_str());
            msg
        },
        SaveOutcome::CopyFailed(err) => {
            let mut msg = String::from_str("Error copying file: ");
            msg.append(err.as_str());
            msg
        },
        SaveOutcome::Canceled => String::from_str("Save operation was canceled"),
    }
}

/// A run of `n` dashes.
pub open spec fn dashes(n: int) -> Seq<u8> {
    Seq::new(n as nat, |i: int| 0x2d)
}

/// A separator banner around `text`, sized to the terminal width when one
/// is known: the text alone when it would not fit, a full dash line for
/// empty text, otherwise the text centred between dash runs. Without a
/// known width, a fixed banner is used.
pub open spec fn separator_spec(width: Option<usize>, text: Seq<u8>) -> Seq<u8> {
    match width {
        Some(w) => {
            if text.len() >= w - 2 {
                text
            } else if text.len() == 0 {
                dashes(w as int)
            } else {
                let side = (w - text.len() - 2) / 2;
                dashes(side) + seq![0x20] + text + seq![0x20] + dashes(side)
            }
        },
        None => dashes(23) + seq![0x20] + text + seq![0x20] + dashes(23),
    }
}

fn push_dashes(out: &mut Vec<u8>, n: usize)
    ensures
        final(out)@ == old(out)@ + dashes(n as int),
{
    let mut k: usize = 0;
    proof {
        assert(old(out)@ + dashes(0) =~= old(out)@);
    }
    while k < n
        invariant
            k <= n,
            out@ == old(out)@ + dashes(k as int),
        decreases n - k,
    {
        out.push(0x2d);
        proof {
            assert((old(out)@ + dashes(k as int)).push(0x2d) =~= old(out)@ + dashes(k + 1));
        }
        k = k + 1;
    }
}

/// Render the separator banner.
pub fn separator_line(width: Option<usize>, text: &[u8]) -> (out: Vec<u8>)
    requires
        text@.len() <= usize::MAX - 2,
    ensures
        out@ == separator_spec(width, text@),
{
    match width {
        Some(w) => {
            if text.len() + 2 >= w {
                let out = vstd::slice::slice_to_vec(text);
                return out;
            }
            if text.len() == 0 {
                let mut out: Vec<u8> = Vec::new();
                push_dashes(&mut out, w);
                proof {
                    assert(Seq::<u8>::empty() + dashes(w as int) =~= dashes(w as int));
                }
                return out;
            }
            let side = (w - text.len() - 2) / 2;
            let mut out: Vec<u8> = Vec::new();
            push_dashes(&mut out, side);
            out.push(0x20);
            out.extend_from_slice(text);
            out.push(0x20);
            push_dashes(&mut out, side);
            proof {
                assert(out@ =~= dashes(side as int) + seq![0x20] + text@ + seq![0x20] + dashes(
                    side as int,
                ));
            }
            out
        },
        None => {
            let mut out: Vec<u8> = Vec::new();
            push_dashes(&mut out, 23);
            out.push(0x20);
            out.extend_from_slice(text);
            out.push(0x20);
            push_dashes(&mut out, 23);
            proof {
                assert(out@ =~= dashes(23) + seq![0x20] + text@ + seq![0x20] + dashes(23));
            }
            out
        },
    }
}

} // verus!
