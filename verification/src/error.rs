//! Error reports surfaced to the user interface, with their severity.

use vstd::prelude::*;
use vstd::string::StringExecFns;

verus! {

/// How severe a report is: warnings leave the terminal usable.
#[derive(Clone, Copy, PartialEq, Eq, Structural, Debug)]
pub enum TerminalErrorLevel {
    Warning,
    Error,
}

/// What went wrong.
#[derive(Clone, Debug, PartialEq, Eq)]
pub enum TerminalErrorType {
    /// Configured font families that could not be found.
    FontsNotFound(Vec<String>),
    InitializationError(String),
    ConfigurationNotFound,
    InvalidConfigurationFormat(String),
    InvalidConfigurationTheme(String),
    /// Reports that are ignored.
    IgnoredReport,
}

impl TerminalErrorType {
    /// The user-facing text of the report.
    pub open spec fn spec_message(self) -> Seq<char> {
        match self {
            TerminalErrorType::FontsNotFound(fonts) => "Font(s) not found"@,
            TerminalErrorType::InitializationError(m) => "Error initializing the terminal:\n"@
                + m@,
            TerminalErrorType::ConfigurationNotFound => "Configuration file was not found"@,
            TerminalErrorType::InvalidConfigurationFormat(m) =>
            "Found an issue loading the configuration file:\n"@ + m@,
            TerminalErrorType::InvalidConfigurationTheme(m) =>
            "Found an issue in the configured theme:\n"@ + m@,
            TerminalErrorType::IgnoredReport => ""@,
        }
    }

    /// Render the report as text.
    pub fn message(&self) -> (r: String)
        ensures
            r@ == self.spec_message(),
    {
        match self {
            TerminalErrorType::FontsNotFound(_) => String::from_str("Font(s) not found"),
            TerminalErrorType::InitializationError(m) => {
                let mut s = String::from_str("Error initializing the terminal:\n");
                s.append(m.as_str());
                s
            },
            TerminalErrorType::ConfigurationNotFound => String::from_str(
                "Configuration file was not found",
            ),
            TerminalErrorType::InvalidConfigurationFormat(m) => {
                let mut s = String::from_str("Found an issue loading the configuration file:\n");
                s.append(m.as_str());
                s
            },
            TerminalErrorType::InvalidConfigurationTheme(m) => {
                let mut s = String::from_str("Found an issue in the configured theme:\n");
                s.append(m.as_str());
                s
            },
            TerminalErrorType::IgnoredReport => String::from_str(""),
        }
    }
}

/// One report together with its severity.
#[derive(Clone, Debug, PartialEq, Eq)]
pub struct TerminalError {
    pub report: TerminalErrorType,
    pub level: TerminalErrorLevel,
}

impl TerminalError {
    /// The report for a missing configuration file: only a warning, the
    /// defaults serve.
    pub fn configuration_not_found() -> (r: TerminalError)
        ensures
            r.level == TerminalErrorLevel::Warning,
            r.report == TerminalErrorType::ConfigurationNotFound,
    {
        TerminalError {
            level: TerminalErrorLevel::Warning,
            report: TerminalErrorType::ConfigurationNotFound,
        }
    }
}

} // verus!
