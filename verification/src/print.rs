//! Logging configuration as a plain value, threaded through the server's
//! constructors: a level, and the decision which messages pass it. The
//! actual writing to the terminal stays outside the library.

use vstd::prelude::*;

verus! {

/// How much the server reports.
#[derive(PartialEq, Eq, PartialOrd, Ord, Copy, Clone, Structural, Debug)]
pub enum PrintLevel {
    Silent,
    Error,
    Warning,
    Info,
    Debug,
}

/// The rank of a level: higher ranks report more.
pub open spec fn spec_level_rank(level: PrintLevel) -> int {
    match level {
        PrintLevel::Silent => 0,
        PrintLevel::Error => 1,
        PrintLevel::Warning => 2,
        PrintLevel::Info => 3,
        PrintLevel::Debug => 4,
    }
}

/// The logging configuration.
#[derive(Copy, Clone, Debug)]
pub struct Print {
    pub level: PrintLevel,
}

impl Print {
    /// The default configuration reports up to informational messages.
    pub fn new() -> (r: Print)
        ensures
            r.level == PrintLevel::Info,
    {
        Print { level: PrintLevel::Info }
    }

    pub fn set_level(&mut self, level: PrintLevel)
        ensures
            final(self).level == level,
    {
        self.level = level;
    }

    /// Set the level from its numeric form; numbers beyond the highest
    /// level mean the highest.
    pub fn set_level_number(&mut self, level: u8)
        ensures
            final(self).level == if level == 0 {
                PrintLevel::Silent
            } else if level == 1 {
                PrintLevel::Error
            } else if level == 2 {
                PrintLevel::Warning
            } else if level == 3 {
                PrintLevel::Info
            } else {
                PrintLevel::Debug
            },
    {
        self.set_level(
            match level {
                0 => PrintLevel::Silent,
                1 => PrintLevel::Error,
                2 => PrintLevel::Warning,
                3 => PrintLevel::Info,
                4 => PrintLevel::Debug,
                _ => PrintLevel::Debug,
            },
        );
    }

    /// Whether a message of the given level passes the configured one.
    pub fn should_print(&self, level: PrintLevel) -> (r: bool)
        ensures
            r == (spec_level_rank(self.level) >= spec_level_rank(level)),
    {
        let mine = match self.level {
            PrintLevel::Silent => 0u8,
            PrintLevel::Error => 1,
            PrintLevel::Warning => 2,
            PrintLevel::Info => 3,
            PrintLevel::Debug => 4,
        };
        let theirs = match level {
            PrintLevel::Silent => 0u8,
            PrintLevel::Error => 1,
            PrintLevel::Warning => 2,
            PrintLevel::Info => 3,
            PrintLevel::Debug => 4,
        };
        mine >= theirs
    }
}

} // verus!
