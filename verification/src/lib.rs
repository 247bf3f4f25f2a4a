//! A content search: every place where a query occurs in a text, optionally
//! ignoring letter case or matching whole words only.

pub mod arguments;
pub mod config;
pub mod display;
pub mod engine;
pub mod error;
pub mod laws;
pub mod occurrences;
pub mod options;
pub mod pattern;

use crate::arguments::{parse_arguments, parsed_arguments, tokens};
use crate::config::{build_config, configured_options, Config, ConfigView};
use crate::engine::{find_matches, found, search_outcome};
use crate::error::ConfigError;
use vstd::prelude::*;

verus! {

/// Executes the search.
///
/// It returns the byte offsets where the query of the configuration is
/// found in the content, or the error that no pattern could be made of the
/// query.
pub fn search(config: &Config, content: &str) -> (result: Result<Vec<usize>, ConfigError>)
    ensures
        result is Ok <==> search_outcome(content@, config@.query, config@.options) is Some,
        result matches Ok(offsets) ==> found(
            content@,
            config@.query,
            config@.options,
            offsets@,
        ),
        result matches Err(error) ==> (error matches ConfigError::PatternError(named) && named@
            == config@.query),
{
    find_matches(content, config.get_query(), config.get_options())
}

/// What a command line and the opening of the content source that it names
/// make: too few arguments are reported first, then a source that could not
/// be opened, then a character that is no flag, then an empty query.
pub open spec fn parsed_config(args: Seq<Seq<char>>, opened: Result<(), String>) -> Result<
    ConfigView,
    ConfigError,
> {
    match parsed_arguments(args) {
        Err(error) => Err(error),
        Ok(arguments) => match opened {
            Err(cause) => Err(ConfigError::SourceUnavailable(cause)),
            Ok(_) => match configured_options(arguments.flags, arguments.query) {
                Err(error) => Err(error),
                Ok(options) => Ok(
                    ConfigView { options, query: arguments.query, source: arguments.source },
                ),
            },
        },
    }
}

/// Parses the command line arguments and prepares them for usage. `opened`
/// says what became of opening the file that the last argument names: that
/// it is open, or the cause for which it is not.
///
/// It returns error in following cases:
/// - Too few arguments are passed: a query and a file are two arguments,
///   behind the option flags where these are given.
/// - File could not be opened.
/// - Incorrect options are passed.
/// - The query is empty.
pub fn parse_config(args: &[String], opened: Result<(), String>) -> (result: Result<
    Config,
    ConfigError,
>)
    ensures
        match parsed_config(tokens(args@), opened) {
            Ok(config) => result matches Ok(parsed) && parsed@ == config,
            Err(error) => result matches Err(e) && e == error,
        },
{
    let arguments = match parse_arguments(args) {
        Ok(arguments) => arguments,
        Err(error) => {
            return Err(error);
        },
    };
    let source = match opened {
        Ok(_) => Ok(arguments.source),
        Err(cause) => Err(cause),
    };
    let flags = match &arguments.flags {
        Some(flags) => Some(flags.as_str()),
        None => None,
    };
    build_config(flags, arguments.query.as_str(), source)
}

} // verus!
