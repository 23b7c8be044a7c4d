//! Which log messages pass, and how their level is shown.
use vstd::prelude::*;

verus! {

/// The severity of a log message, most severe first.
#[derive(Debug, Clone, Copy, PartialEq, Eq)]
pub enum Level {
    Error,
    Warn,
    Info,
    Debug,
    Trace,
}

pub open spec fn rank(l: Level) -> int {
    match l {
        Level::Error => 1,
        Level::Warn => 2,
        Level::Info => 3,
        Level::Debug => 4,
        Level::Trace => 5,
    }
}

pub open spec fn label_text(l: Level) -> Seq<char> {
    match l {
        Level::Error => "ERROR"@,
        Level::Warn => "WARN "@,
        Level::Info => "INFO "@,
        Level::Debug => "DEBUG"@,
        Level::Trace => "TRACE"@,
    }
}

/// The process logger: decides which messages pass and how their level is shown.
#[derive(Debug, Clone, Copy, PartialEq, Eq)]
pub struct Logger;

impl Logger {
    /// The level a message is shown at: its own.
    pub fn get_actual_level(&self, level: Level) -> (r: Level)
        ensures
            r == level,
    {
        level
    }

    /// Whether a message passes the threshold `max`.
    pub fn enabled(&self, level: Level, max: Level) -> (r: bool)
        ensures
            r == (rank(level) <= rank(max)),
    {
        let l = self.get_actual_level(level);
        level_rank(l) <= level_rank(max)
    }

    /// The five-character label shown before a message.
    pub fn label(&self, level: Level) -> (r: &'static str)
        ensures
            r@ == label_text(level),
    {
        match self.get_actual_level(level) {
            Level::Error => "ERROR",
            Level::Warn => "WARN ",
            Level::Info => "INFO ",
            Level::Debug => "DEBUG",
            Level::Trace => "TRACE",
        }
    }
}

fn level_rank(l: Level) -> (r: u8)
    ensures
        r == rank(l),
{
    match l {
        Level::Error => 1,
        Level::Warn => 2,
        Level::Info => 3,
        Level::Debug => 4,
        Level::Trace => 5,
    }
}

} // verus!
