//! The arguments of a command line, told apart: the option flags, the query
//! and the name of the content source.

use crate::error::ConfigError;
use vstd::prelude::*;
use vstd::string::StrSliceExecFns;

verus! {

/// Whether `token` starts with the marker of option flags, a hyphen.
pub open spec fn has_marker(token: Seq<char>) -> bool {
    token.len() > 0 && token[0] == '-'
}

/// `token` without the hyphens that it starts with.
pub open spec fn without_markers(token: Seq<char>) -> Seq<char>
    decreases token.len(),
{
    if has_marker(token) {
        without_markers(token.drop_first())
    } else {
        token
    }
}

/// What a command line asks for, as plain values.
pub struct ArgumentsView {
    pub flags: Option<Seq<char>>,
    pub query: Seq<char>,
    pub source: Seq<char>,
}

/// What a command line asks for: the option flags without their marker,
/// where a token of flags was given, the query, and the name of the content
/// source.
#[derive(Debug, PartialEq, Eq)]
pub struct Arguments {
    pub flags: Option<String>,
    pub query: String,
    pub source: String,
}

impl View for Arguments {
    type V = ArgumentsView;

    open spec fn view(&self) -> ArgumentsView {
        ArgumentsView {
            flags: match self.flags {
                Some(flags) => Some(flags@),
                None => None,
            },
            query: self.query@,
            source: self.source@,
        }
    }
}

/// What the tokens of a command line ask for. The first token is the name of
/// the command, the last one the name of the content source. Where the
/// second starts with a hyphen it holds the option flags and the third is
/// the query; else the second is the query. A query and a source are two
/// tokens: a token of flags with one token behind it leaves one of them
/// out.
pub open spec fn parsed_arguments(args: Seq<Seq<char>>) -> Result<ArgumentsView, ConfigError> {
    if args.len() < 3 || (has_marker(args[1]) && args.len() < 4) {
        Err(ConfigError::MissingArguments)
    } else if has_marker(args[1]) {
        Ok(ArgumentsView { flags: Some(without_markers(args[1])), query: args[2], source: args.last() })
    } else {
        Ok(ArgumentsView { flags: None, query: args[1], source: args.last() })
    }
}

/// The tokens of a command line, each as its characters.
pub open spec fn tokens(args: Seq<String>) -> Seq<Seq<char>> {
    Seq::new(args.len(), |i: int| args[i]@)
}

/// Checks whether a token starts with the marker of option flags.
pub fn starts_with_marker(token: &str) -> (yes: bool)
    ensures
        yes == has_marker(token@),
{
    token.unicode_len() > 0 && token.get_char(0) == '-'
}

/// Takes the leading hyphens off a token.
pub fn strip_markers(token: &str) -> (rest: &str)
    ensures
        rest@ == without_markers(token@),
{
    let length = token.unicode_len();
    let mut start: usize = 0;
    assert(token@.subrange(0, length as int) =~= token@);
    while start < length && token.get_char(start) == '-'
        invariant
            start <= length == token@.len(),
            without_markers(token@) == without_markers(token@.subrange(start as int, length as int)),
        decreases length - start,
    {
        proof {
            let rest = token@.subrange(start as int, length as int);
            assert(has_marker(rest));
            assert(rest.drop_first() =~= token@.subrange(start + 1, length as int));
        }
        start += 1;
    }
    assert(!has_marker(token@.subrange(start as int, length as int)));
    token.substring_char(start, length)
}

/// Tells the tokens of a command line apart.
pub fn parse_arguments(args: &[String]) -> (result: Result<Arguments, ConfigError>)
    ensures
        match parsed_arguments(tokens(args@)) {
            Ok(arguments) => result matches Ok(parsed) && parsed@ == arguments,
            Err(error) => result matches Err(e) && e == error,
        },
{
    let args_length = args.len();
    if args_length < 3 {
        return Err(ConfigError::MissingArguments);
    }
    let source = args[args_length - 1].clone();
    if !starts_with_marker(args[1].as_str()) {
        return Ok(Arguments { flags: None, query: args[1].clone(), source });
    }
    if args_length < 4 {
        return Err(ConfigError::MissingArguments);
    }
    let flags = strip_markers(args[1].as_str()).to_owned();
    Ok(Arguments { flags: Some(flags), query: args[2].clone(), source })
}

} // verus!
