//! The errors of configuration and search, and the diagnostic shown for them.

use vstd::prelude::*;
use vstd::string::StringExecFns;

verus! {

/// Why a configuration could not be built or a search could not be run.
#[derive(Debug, PartialEq, Eq)]
pub enum ConfigError {
    /// Fewer arguments were given than a query and a content source need.
    MissingArguments,
    /// The option flags hold a character that is no flag.
    InvalidOption(char),
    /// The query is empty.
    EmptyQuery,
    /// The content source could not be opened or read; the cause is kept.
    SourceUnavailable(String),
    /// No pattern could be made of the query, which is kept.
    PatternError(String),
}

/// The text of the diagnostic for an error.
pub open spec fn diagnostic(error: ConfigError) -> Seq<char> {
    match error {
        ConfigError::MissingArguments => "too few arguments"@,
        ConfigError::InvalidOption(_) => "Invalid option given. Allowed options are 'i' and 'w'."@,
        ConfigError::EmptyQuery => "Empty query given."@,
        ConfigError::SourceUnavailable(cause) => cause@,
        ConfigError::PatternError(query) => "No pattern could be made of the query: "@ + query@,
    }
}

impl ConfigError {
    /// The one-line diagnostic for this error.
    pub fn to_error(&self) -> (error: MinigrepError)
        ensures
            error.message@ == diagnostic(*self),
    {
        match self {
            ConfigError::MissingArguments => MinigrepError::new("too few arguments"),
            ConfigError::InvalidOption(_) => MinigrepError::new(
                "Invalid option given. Allowed options are 'i' and 'w'.",
            ),
            ConfigError::EmptyQuery => MinigrepError::new("Empty query given."),
            ConfigError::SourceUnavailable(cause) => MinigrepError::new(cause.as_str()),
            ConfigError::PatternError(query) => {
                let message = String::from_str("No pattern could be made of the query: ").concat(
                    query.as_str(),
                );
                MinigrepError { message }
            },
        }
    }
}

/// Minigrep error.
#[derive(Debug)]
pub struct MinigrepError {
    pub message: String,
}

impl MinigrepError {
    pub fn new(message: &str) -> (error: Self)
        ensures
            error.message@ == message@,
    {
        MinigrepError { message: String::from_str(message) }
    }
}

} // verus!
