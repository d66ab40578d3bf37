//! Levels of log messages.

use vstd::prelude::*;

verus! {

/// How serious a message is.
#[derive(Clone, Copy, PartialEq, Eq, Debug, Structural)]
pub enum Level {
    Error,
    Warn,
    Info,
}

impl Level {
    /// The word for the level.
    pub open spec fn word(self) -> Seq<char> {
        match self {
            Level::Error => "error"@,
            Level::Warn => "warn"@,
            Level::Info => "info"@,
        }
    }

    /// The word for the level.
    pub fn as_str(&self) -> (r: &'static str)
        ensures
            r@ == self.word(),
    {
        match self {
            Level::Error => "error",
            Level::Warn => "warn",
            Level::Info => "info",
        }
    }
}

/// The line that a message is logged as.
pub fn log_line(level: Level, msg: &str) -> (r: String)
    ensures
        r@ == "girth ["@ + level.word() + "] "@ + msg@,
{
    crate::text::joined4("girth [", level.as_str(), "] ", msg)
}

} // verus!
