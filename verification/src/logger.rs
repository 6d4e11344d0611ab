//! Severity levels for the notification side channel. The channel itself is
//! fire-and-forget I/O and lives outside the core; the core only names the
//! levels and renders them as text.

use vstd::prelude::*;

verus! {

/// Severity of a log message.
pub enum LogLevel {
    Debug,
    Info,
    Warn,
    Error,
}

impl LogLevel {
    /// The lower-case wire name of this level.
    pub open spec fn spec_str(&self) -> Seq<char> {
        match self {
            LogLevel::Debug => "debug"@,
            LogLevel::Info => "info"@,
            LogLevel::Warn => "warn"@,
            LogLevel::Error => "error"@,
        }
    }

    /// Render the level as its lower-case wire name.
    pub fn as_str(&self) -> (r: &str)
        ensures
            r@ == self.spec_str(),
    {
        match self {
            LogLevel::Debug => "debug",
            LogLevel::Info => "info",
            LogLevel::Warn => "warn",
            LogLevel::Error => "error",
        }
    }
}

} // verus!
