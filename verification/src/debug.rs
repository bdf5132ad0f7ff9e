//! Debugging verbosity: the level and time formatting choices, and the
//! decision which messages to print. The printing itself, with its clock
//! and formatting, lives with the caller.

use vstd::prelude::*;

verus! {

/// Verbosity settings: the level, and the time zone and time format codes
/// of the log timestamps.
#[derive(Debug, Clone, Copy)]
pub struct Verbose {
    pub level: u8,
    pub time_zone: u8,
    pub time_format: u8,
}

impl Verbose {
    /// Bundle the verbosity settings.
    pub fn new(level: u8, time_zone: u8, time_format: u8) -> (r: Verbose)
        ensures
            r.level == level,
            r.time_zone == time_zone,
            r.time_format == time_format,
    {
        Verbose { level, time_zone, time_format }
    }

    /// Whether a message of this level is printed: the configured level
    /// covers it.
    pub fn prints(&self, msg_level: u8) -> (r: bool)
        ensures
            r == (self.level >= msg_level),
    {
        self.level >= msg_level
    }
}

} // verus!
