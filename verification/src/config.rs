//! Settings of the process, resolved once at start.

use vstd::prelude::*;
use vstd::string::StringExecFns;

verus! {

/// Port of the control protocol where none is given.
pub const DEFAULT_PORT: u16 = 5250;

/// Port that the HTTP side listens on where none is given.
pub const DEFAULT_SERVER_PORT: u16 = 9731;

/// Where commands go, where requests come in, and how much is logged.
#[derive(Clone, Debug, PartialEq, Eq)]
pub struct Config {
    /// Host of the control protocol.
    pub host: String,
    /// Port of the control protocol.
    pub port: u16,
    /// Port that the HTTP side listens on.
    pub server_port: u16,
    /// Name of the log level.
    pub log_level: String,
}

/// How much is logged.
#[derive(Clone, Copy, Debug, PartialEq, Eq, Structural)]
pub enum LogLevel {
    Trace,
    Debug,
    Info,
    Warn,
    Error,
}

/// The lower-case form of `text`, as Unicode defines it.
pub uninterp spec fn lowercase_of(text: Seq<char>) -> Seq<char>;

/// The level that the lower-case name `name` stands for. A name that is none
/// of the known ones stands for [`LogLevel::Info`].
pub open spec fn level_named(name: Seq<char>) -> LogLevel {
    if name == "trace"@ {
        LogLevel::Trace
    } else if name == "debug"@ {
        LogLevel::Debug
    } else if name == "warn"@ || name == "warning"@ {
        LogLevel::Warn
    } else if name == "error"@ {
        LogLevel::Error
    } else {
        LogLevel::Info
    }
}

/// Lower-cases `text` with [`str::to_lowercase`].
///
/// Trusted: the result is a function of the text alone, named
/// [`lowercase_of`]; nothing more is claimed of it.
#[verifier::external_body]
fn to_lowercase(text: &str) -> (lower: String)
    ensures
        lower@ == lowercase_of(text@),
{
    text.to_lowercase()
}

/// Whether `a` and `b` are the same text.
fn same_text(a: &str, b: &str) -> (same: bool)
    ensures
        same == (a@ == b@),
{
    String::from_str(a) == String::from_str(b)
}

impl LogLevel {
    /// The level that the lower-case name `name` stands for.
    pub fn from_lowercase(name: &str) -> (level: LogLevel)
        ensures
            level == level_named(name@),
    {
        if same_text(name, "trace") {
            LogLevel::Trace
        } else if same_text(name, "debug") {
            LogLevel::Debug
        } else if same_text(name, "warn") || same_text(name, "warning") {
            LogLevel::Warn
        } else if same_text(name, "error") {
            LogLevel::Error
        } else {
            LogLevel::Info
        }
    }

    /// The level that `name` stands for, whatever the case of its letters.
    pub fn from_name(name: &str) -> (level: LogLevel)
        ensures
            level == level_named(lowercase_of(name@)),
    {
        let lower = to_lowercase(name);
        LogLevel::from_lowercase(lower.as_str())
    }
}

impl Default for Config {
    /// The settings where nothing is given: `localhost`, the two default
    /// ports, and the level `info`.
    fn default() -> (config: Config)
        ensures
            config.host@ == "localhost"@,
            config.port == DEFAULT_PORT,
            config.server_port == DEFAULT_SERVER_PORT,
            config.log_level@ == "info"@,
    {
        Config {
            host: String::from_str("localhost"),
            port: DEFAULT_PORT,
            server_port: DEFAULT_SERVER_PORT,
            log_level: String::from_str("info"),
        }
    }
}

impl Config {
    /// The level that `log_level` names.
    pub fn level(&self) -> (level: LogLevel)
        ensures
            level == level_named(lowercase_of(self.log_level@)),
    {
        LogLevel::from_name(self.log_level.as_str())
    }
}

} // verus!
