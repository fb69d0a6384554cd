//! The coarse profiles, log levels and the daemon status record.
use crate::text::{lower_of, same_text, to_lowercase};
use vstd::prelude::*;

verus! {

/// The coarse tuning target of the device.
#[derive(Clone, Copy, Debug, PartialEq, Eq, Structural)]
pub enum ProfileMode {
    Performance,
    Balance,
    Powersave,
}

/// A log verbosity.
#[derive(Clone, Copy, Debug, PartialEq, Eq, Structural)]
pub enum LogLevel {
    Debug,
    Info,
    Warn,
    Error,
}

/// The profile a lower-case name denotes.
pub open spec fn profile_named(l: Seq<char>) -> Option<ProfileMode> {
    if l == "performance"@ {
        Some(ProfileMode::Performance)
    } else if l == "balance"@ {
        Some(ProfileMode::Balance)
    } else if l == "powersave"@ {
        Some(ProfileMode::Powersave)
    } else {
        None
    }
}

impl ProfileMode {
    pub open spec fn upper_name(self) -> Seq<char> {
        match self {
            ProfileMode::Performance => "PERFORMANCE"@,
            ProfileMode::Balance => "BALANCE"@,
            ProfileMode::Powersave => "POWERSAVE"@,
        }
    }

    pub open spec fn lower_name(self) -> Seq<char> {
        match self {
            ProfileMode::Performance => "performance"@,
            ProfileMode::Balance => "balance"@,
            ProfileMode::Powersave => "powersave"@,
        }
    }

    /// The profile whose lower-case name is `l`.
    pub fn from_lower(l: &str) -> (r: Option<ProfileMode>)
        ensures
            r == profile_named(l@),
    {
        if same_text(l, "performance") {
            Some(ProfileMode::Performance)
        } else if same_text(l, "balance") {
            Some(ProfileMode::Balance)
        } else if same_text(l, "powersave") {
            Some(ProfileMode::Powersave)
        } else {
            None
        }
    }

    /// The profile whose name is `s` in any case.
    pub fn from_str_ignore_case(s: &str) -> (r: Option<ProfileMode>)
        ensures
            r == profile_named(lower_of(s@)),
    {
        ProfileMode::from_lower(to_lowercase(s).as_str())
    }

    pub fn to_upper_str(&self) -> (r: &'static str)
        ensures
            r@ == self.upper_name(),
    {
        match self {
            ProfileMode::Performance => "PERFORMANCE",
            ProfileMode::Balance => "BALANCE",
            ProfileMode::Powersave => "POWERSAVE",
        }
    }

    /// The lower-case name, as in configuration files.
    pub fn to_lower_str(&self) -> (r: &'static str)
        ensures
            r@ == self.lower_name(),
    {
        match self {
            ProfileMode::Performance => "performance",
            ProfileMode::Balance => "balance",
            ProfileMode::Powersave => "powersave",
        }
    }

    /// The code of the profile in the `current_profile` file: `1`
    /// performance, `2` balance, `3` powersave.
    pub fn file_code(&self) -> (r: &'static str)
        ensures
            r@ == match self {
                ProfileMode::Performance => "1"@,
                ProfileMode::Balance => "2"@,
                ProfileMode::Powersave => "3"@,
            },
    {
        match self {
            ProfileMode::Performance => "1",
            ProfileMode::Balance => "2",
            ProfileMode::Powersave => "3",
        }
    }

    /// The name as the debug form writes it.
    pub fn debug_name(&self) -> (r: &'static str)
        ensures
            r@ == match self {
                ProfileMode::Performance => "Performance"@,
                ProfileMode::Balance => "Balance"@,
                ProfileMode::Powersave => "Powersave"@,
            },
    {
        match self {
            ProfileMode::Performance => "Performance",
            ProfileMode::Balance => "Balance",
            ProfileMode::Powersave => "Powersave",
        }
    }
}

impl LogLevel {
    pub open spec fn upper_name(self) -> Seq<char> {
        match self {
            LogLevel::Debug => "DEBUG"@,
            LogLevel::Info => "INFO"@,
            LogLevel::Warn => "WARN"@,
            LogLevel::Error => "ERROR"@,
        }
    }

    pub fn to_upper_str(&self) -> (r: &'static str)
        ensures
            r@ == self.upper_name(),
    {
        match self {
            LogLevel::Debug => "DEBUG",
            LogLevel::Info => "INFO",
            LogLevel::Warn => "WARN",
            LogLevel::Error => "ERROR",
        }
    }

    /// The lower-case name, as a log filter takes it.
    pub fn to_lower_str(&self) -> (r: &'static str)
        ensures
            r@ == match self {
                LogLevel::Debug => "debug"@,
                LogLevel::Info => "info"@,
                LogLevel::Warn => "warn"@,
                LogLevel::Error => "error"@,
            },
    {
        match self {
            LogLevel::Debug => "debug",
            LogLevel::Info => "info",
            LogLevel::Warn => "warn",
            LogLevel::Error => "error",
        }
    }
}

/// What a status query reports of the daemon.
#[derive(Clone, Debug)]
pub struct DaemonStatus {
    pub enabled: bool,
    pub profile: ProfileMode,
    pub packages: usize,
    pub fps: Option<u32>,
}

} // verus!
