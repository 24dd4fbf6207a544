//! The file-based configuration record.
//!
//! The configuration file names a device, a baud rate and a folder for
//! saved logs. Reading and decoding the file happens outside this crate;
//! the record itself is plain data.

use vstd::prelude::*;

verus! {

/// A fully specified configuration, every field required.
#[derive(Clone)]
pub struct Config {
    pub port: String,
    pub baud_rate: u32,
    pub log_folder: String,
}

} // verus!
