//! Resolved configuration for the monitor.
//!
//! A `Settings` value is produced once at startup by merging command-line
//! overrides with an optional file-based configuration, command line taking
//! precedence and hardcoded defaults as the last resort. It is immutable
//! thereafter and duplicated, not shared, across threads.

use vstd::prelude::*;
use vstd::string::StringExecFns;

verus! {

/// Command-line overrides; every field is optional.
pub struct Args {
    pub port: Option<String>,
    pub baud_rate: Option<u32>,
    pub timestamps: Option<bool>,
    pub log_folder: Option<String>,
}

/// Optional values read from the configuration file.
pub struct Config {
    pub port: Option<String>,
    pub baud_rate: Option<u32>,
    pub timestamps: Option<bool>,
    pub log_folder: Option<String>,
    pub clear_on_start: Option<bool>,
}

/// The resolved settings: created once, read-only afterwards.
#[derive(Clone)]
pub struct Settings {
    pub port: String,
    pub baud_rate: u32,
    pub timestamps: bool,
    pub log_folder: String,
    pub clear_on_start: bool,
}

pub open spec fn default_port_name() -> Seq<char> {
    "COM5"@
}

pub open spec fn default_baud_rate() -> u32 {
    115200
}

pub open spec fn default_log_folder_name() -> Seq<char> {
    "C:\\Users\\felixb\\OneDrive - HP Inc\\Debugs\\Springs"@
}

fn default_port() -> (s: String)
    ensures
        s@ == default_port_name(),
{
    String::from_str("COM5")
}

fn default_log_folder() -> (s: String)
    ensures
        s@ == default_log_folder_name(),
{
    String::from_str("C:\\Users\\felixb\\OneDrive - HP Inc\\Debugs\\Springs")
}

/// Merge command-line overrides with the optional file configuration.
///
/// For each field the command line wins, then the file, then the built-in
/// default. The clear-on-connect flag has no command-line form: it comes
/// from the file alone, defaulting to off.
pub fn get_settings(args: Args, file: Option<Config>) -> (r: Settings)
    ensures
        r.port@ == (if args.port is Some {
            args.port->0@
        } else if file is Some && file->0.port is Some {
            file->0.port->0@
        } else {
            default_port_name()
        }),
        r.baud_rate == (if args.baud_rate is Some {
            args.baud_rate->0
        } else if file is Some && file->0.baud_rate is Some {
            file->0.baud_rate->0
        } else {
            default_baud_rate()
        }),
        r.timestamps == (if args.timestamps is Some {
            args.timestamps->0
        } else if file is Some && file->0.timestamps is Some {
            file->0.timestamps->0
        } else {
            false
        }),
        r.log_folder@ == (if args.log_folder is Some {
            args.log_folder->0@
        } else if file is Some && file->0.log_folder is Some {
            file->0.log_folder->0@
        } else {
            default_log_folder_name()
        }),
        r.clear_on_start == (file is Some && file->0.clear_on_start is Some
            && file->0.clear_on_start->0),
{
    match file {
        Some(config) => Settings {
            port: match args.port {
                Some(p) => p,
                None => match config.port {
                    Some(p) => p,
                    None => default_port(),
                },
            },
            baud_rate: match args.baud_rate {
                Some(b) => b,
                None => match config.baud_rate {
                    Some(b) => b,
                    None => 115200,
                },
            },
            timestamps: match args.timestamps {
                Some(t) => t,
                None => match config.timestamps {
                    Some(t) => t,
                    None => false,
                },
            },
            log_folder: match args.log_folder {
                Some(f) => f,
                None => match config.log_folder {
                    Some(f) => f,
                    None => default_log_folder(),
                },
            },
            clear_on_start: match config.clear_on_start {
                Some(c) => c,
                None => false,
            },
        },
        None => Settings {
            port: match args.port {
                Some(p) => p,
                None => default_port(),
            },
            baud_rate: match args.baud_rate {
                Some(b) => b,
                None => 115200,
            },
            timestamps: match args.timestamps {
                Some(t) => t,
                None => false,
            },
            log_folder: match args.log_folder {
                Some(f) => f,
                None => default_log_folder(),
            },
            clear_on_start: false,
        },
    }
}

} // verus!
