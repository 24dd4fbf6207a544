//! A resilient serial-line monitor library: byte-to-line reassembly with a
//! UTF-8 validity gate, ANSI escape filtering for the persistent log, a
//! reconnect state machine around the device session, settings resolution,
//! and the single-key operator command protocol.
//!
//! Device, file and terminal I/O live outside this crate; the functions here
//! are the decisions and transformations those loops perform, each with a
//! verified contract.

pub mod ansi;
pub mod commands;
pub mod config;
pub mod encoding;
pub mod reassembly;
pub mod reconnect;
pub mod settings;
pub mod sink;
