//! The configuration of one search: the option flags, the query and the
//! source of the content.

use crate::error::ConfigError;
use crate::options::Options;
use vstd::prelude::*;

verus! {

/// Whether `c` is one of the two option flags: `i` sets the override of
/// case-sensitive matching, `w` sets whole-word matching.
pub open spec fn is_flag(c: char) -> bool {
    c == 'i' || c == 'w'
}

/// Whether every character of `flags` is an option flag.
pub open spec fn all_flags(flags: Seq<char>) -> bool {
    forall|k: int| 0 <= k < flags.len() ==> is_flag(#[trigger] flags[k])
}

/// Whether `k` is the place of the first character of `flags` that is no flag.
pub open spec fn is_first_non_flag(flags: Seq<char>, k: int) -> bool {
    &&& 0 <= k < flags.len()
    &&& !is_flag(flags[k])
    &&& forall|j: int| 0 <= j < k ==> is_flag(#[trigger] flags[j])
}

/// The place of the first character of `flags` that is no flag.
pub open spec fn first_non_flag(flags: Seq<char>) -> int {
    choose|k: int| is_first_non_flag(flags, k)
}

/// At most one place is that of the first character that is no flag.
pub proof fn lemma_first_non_flag_unique(flags: Seq<char>, k: int, l: int)
    requires
        is_first_non_flag(flags, k),
        is_first_non_flag(flags, l),
    ensures
        k == l,
{
    if k < l {
        assert(is_flag(flags[k]));
    } else if l < k {
        assert(is_flag(flags[l]));
    }
}

/// What a string of flags stands for: no options where it is empty, the
/// options that it names where all its characters are flags, and otherwise
/// the first character that is none.
pub open spec fn parsed_options(flags: Seq<char>) -> Result<Option<Options>, ConfigError> {
    if flags.len() == 0 {
        Ok(None)
    } else if all_flags(flags) {
        Ok(Some(Options { case_sensitive: flags.contains('i'), exact_match: flags.contains('w') }))
    } else {
        Err(ConfigError::InvalidOption(flags[first_non_flag(flags)]))
    }
}

/// Reads a string of option flags, without the marker that precedes it on a
/// command line. Flags may repeat and come in any order.
pub fn build_options(flags: &str) -> (result: Result<Option<Options>, ConfigError>)
    ensures
        result == parsed_options(flags@),
{
    if flags.is_empty() {
        return Ok(None);
    }
    let mut options = Options::new(false, false);
    for ch in it: flags.chars()
        invariant
            it.seq() == flags@,
            options.case_sensitive <==> exists|j: int|
                0 <= j < it.index() && #[trigger] flags@[j] == 'i',
            options.exact_match <==> exists|j: int|
                0 <= j < it.index() && #[trigger] flags@[j] == 'w',
            forall|j: int| 0 <= j < it.index() ==> is_flag(#[trigger] flags@[j]),
    {
        let ghost seen = it.index() as int;
        assert(ch == flags@[seen]);
        match ch {
            'i' => options.case_sensitive(true),
            'w' => options.exact_match(true),
            _ => {
                proof {
                    assert(is_first_non_flag(flags@, seen));
                    lemma_first_non_flag_unique(flags@, seen, first_non_flag(flags@));
                }
                return Err(ConfigError::InvalidOption(ch));
            },
        }
    }
    proof {
        assert(all_flags(flags@));
        assert(options.case_sensitive == flags@.contains('i'));
        assert(options.exact_match == flags@.contains('w'));
    }
    Ok(Some(options))
}

/// What a configuration holds, as plain values.
pub struct ConfigView {
    pub options: Option<Options>,
    pub query: Seq<char>,
    pub source: Seq<char>,
}

/// The options of a configuration that is made of `flags` and `query`, or
/// the reason why none is made: a character that is no flag, else an empty
/// query.
pub open spec fn configured_options(flags: Option<Seq<char>>, query: Seq<char>) -> Result<
    Option<Options>,
    ConfigError,
> {
    let options = match flags {
        Some(flags) => parsed_options(flags),
        None => Ok(None),
    };
    match options {
        Err(error) => Err(error),
        Ok(options) => if query.len() == 0 {
            Err(ConfigError::EmptyQuery)
        } else {
            Ok(options)
        },
    }
}

/// The view of an optional string.
pub open spec fn view_of(text: Option<&str>) -> Option<Seq<char>> {
    match text {
        Some(text) => Some(text@),
        None => None,
    }
}

/// The necessary configurations for initializing minigrep: the options, if
/// any were asked for, the query, which is never empty, and the name of the
/// source of the content.
pub struct Config {
    options: Option<Options>,
    query: String,
    source: String,
}

impl View for Config {
    type V = ConfigView;

    closed spec fn view(&self) -> ConfigView {
        ConfigView { options: self.options, query: self.query@, source: self.source@ }
    }
}

impl Config {
    #[verifier::type_invariant]
    spec fn query_is_not_empty(&self) -> bool {
        self.query@.len() > 0
    }

    /// Initializes a new Config.
    ///
    /// It returns error if incorrect option is passed, or if the query is
    /// empty.
    pub fn new(options: Option<&str>, query: &str, file: &str) -> (result: Result<
        Config,
        ConfigError,
    >)
        ensures
            match configured_options(view_of(options), query@) {
                Ok(options) => result matches Ok(config) && config@ == (ConfigView {
                    options,
                    query: query@,
                    source: file@,
                }),
                Err(error) => result matches Err(e) && e == error,
            },
    {
        let options_struct = match options {
            Some(flags) => match build_options(flags) {
                Ok(options_struct) => options_struct,
                Err(error) => {
                    return Err(error);
                },
            },
            None => None,
        };
        if query.is_empty() {
            return Err(ConfigError::EmptyQuery);
        }
        Ok(Config { options: options_struct, query: query.to_owned(), source: file.to_owned() })
    }

    /// Returns options for a Config.
    pub fn get_options(&self) -> (options: Option<&Options>)
        ensures
            match options {
                Some(options) => self@.options == Some(*options),
                None => self@.options is None,
            },
    {
        self.options.as_ref()
    }

    /// Returns query for a Config.
    pub fn get_query(&self) -> (query: &str)
        ensures
            query@ == self@.query,
            query@.len() > 0,
    {
        proof {
            use_type_invariant(self);
        }
        self.query.as_str()
    }

    /// Returns the name of the content source for a config.
    pub fn get_file(&self) -> (file: &str)
        ensures
            file@ == self@.source,
    {
        self.source.as_str()
    }
}

/// Assembles a configuration from the option flags, if any were given, the
/// query, and what became of opening the content source: its name, or the
/// cause for which it could not be opened.
///
/// An unavailable source is reported before an invalid option, and an
/// invalid option before an empty query.
pub fn build_config(options_flags: Option<&str>, query: &str, source: Result<String, String>) -> (result:
    Result<Config, ConfigError>)
    ensures
        match source {
            Err(cause) => result matches Err(e) && e == ConfigError::SourceUnavailable(cause),
            Ok(name) => match configured_options(view_of(options_flags), query@) {
                Ok(options) => result matches Ok(config) && config@ == (ConfigView {
                    options,
                    query: query@,
                    source: name@,
                }),
                Err(error) => result matches Err(e) && e == error,
            },
        },
{
    match source {
        Err(cause) => Err(ConfigError::SourceUnavailable(cause)),
        Ok(name) => Config::new(options_flags, query, name.as_str()),
    }
}

} // verus!
