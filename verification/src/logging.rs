//! Logging configuration: the settings record and the level-selection rules.
//!
//! Wiring the chosen configuration into a logging backend is the embedding
//! program's work; the decisions — which level the command line asks for and
//! which level wins — are made here.
use vstd::prelude::*;

verus! {

/// The verbosity levels a logger can be configured with.
#[derive(Debug, Clone, Copy, PartialEq, Eq, Structural)]
pub enum LogLevel {
    Off,
    Error,
    Warn,
    Info,
    Debug,
    Trace,
}

/// The logging settings: file name, size cap, and the level used when the
/// command line asks for none.
#[derive(Debug, Clone)]
pub struct MyLogging {
    log_file_name: String,
    log_file_maxsize: u64,
    log_default_level: LogLevel,
}

/// The level the command-line flags ask for: debug wins over info, info over
/// warning; with no flag the logger starts silent.
pub open spec fn spec_level_from_args(has_debug: bool, has_info: bool, has_warning: bool)
    -> LogLevel {
    if has_debug {
        LogLevel::Debug
    } else if has_info {
        LogLevel::Info
    } else if has_warning {
        LogLevel::Warn
    } else {
        LogLevel::Off
    }
}

impl MyLogging {
    /// The configured log file name.
    pub closed spec fn spec_file_name(self) -> Seq<char> {
        self.log_file_name@
    }

    /// The configured size cap in bytes.
    pub closed spec fn spec_file_maxsize(self) -> u64 {
        self.log_file_maxsize
    }

    /// The level used when the command line asks for none.
    pub closed spec fn spec_default_level(self) -> LogLevel {
        self.log_default_level
    }

    /// A settings record with the given file name, size cap and default
    /// level.
    pub fn new(&self, name: String, size: u64, level: LogLevel) -> (r: Self)
        ensures
            r.spec_file_name() == name@,
            r.spec_file_maxsize() == size,
            r.spec_default_level() == level,
    {
        MyLogging { log_file_name: name, log_file_maxsize: size, log_default_level: level }
    }

    /// The level the command-line flags select.
    pub fn level_from_args(&self, has_debug: bool, has_info: bool, has_warning: bool) -> (r:
        LogLevel)
        ensures
            r == spec_level_from_args(has_debug, has_info, has_warning),
    {
        if has_debug {
            LogLevel::Debug
        } else if has_info {
            LogLevel::Info
        } else if has_warning {
            LogLevel::Warn
        } else {
            LogLevel::Off
        }
    }

    /// The level the logger starts with: what the command line asks for, or
    /// this record's default when it asks for nothing.
    pub fn resolve_level(&self, requested: LogLevel) -> (r: LogLevel)
        ensures
            r == if requested == LogLevel::Off {
                self.spec_default_level()
            } else {
                requested
            },
    {
        if requested == LogLevel::Off {
            self.log_default_level
        } else {
            requested
        }
    }

    /// The configured log file name.
    pub fn file_name(&self) -> (r: &String)
        ensures
            r@ == self.spec_file_name(),
    {
        &self.log_file_name
    }

    /// The configured size cap in bytes.
    pub fn file_maxsize(&self) -> (r: u64)
        ensures
            r == self.spec_file_maxsize(),
    {
        self.log_file_maxsize
    }

    /// The configured default level.
    pub fn default_level(&self) -> (r: LogLevel)
        ensures
            r == self.spec_default_level(),
    {
        self.log_default_level
    }
}

impl Default for MyLogging {
    /// The stock settings: a ten-megabyte log at informational level.
    fn default() -> (r: Self)
        ensures
            r.spec_file_name() == "my_logging.log"@,
            r.spec_file_maxsize() == 10485760,
            r.spec_default_level() == LogLevel::Info,
    {
        MyLogging {
            log_file_name: "my_logging.log".to_owned(),
            log_file_maxsize: 10485760,
            log_default_level: LogLevel::Info,
        }
    }
}

} // verus!
