//! The pattern that a query is searched with: the query with every character
//! taken literally, between word boundaries where whole words are asked for.

use vstd::prelude::*;
use vstd::string::StringExecFns;

verus! {

/// Whether `c` has a meaning of its own in a pattern, so that it stands for
/// itself only behind a backslash.
pub open spec fn is_meta_character(c: char) -> bool {
    c == '\\' || c == '.' || c == '+' || c == '*' || c == '?' || c == '(' || c == ')' || c == '|'
        || c == '[' || c == ']' || c == '{' || c == '}' || c == '^' || c == '$' || c == '#' || c
        == '&' || c == '-' || c == '~'
}

/// One character as it stands in a pattern that takes it literally.
pub open spec fn escaped_character(c: char) -> Seq<char> {
    if is_meta_character(c) {
        seq!['\\', c]
    } else {
        seq![c]
    }
}

/// `text` with a backslash before each of its meta characters: the pattern
/// that matches `text` and nothing else.
pub open spec fn escaped(text: Seq<char>) -> Seq<char>
    decreases text.len(),
{
    if text.len() == 0 {
        Seq::empty()
    } else {
        escaped_character(text.first()) + escaped(text.drop_first())
    }
}

/// The pattern element that matches, without taking any character, between
/// a word character and what is none.
pub open spec fn word_boundary() -> Seq<char> {
    seq!['\\', 'b']
}

/// The pattern for a query: the query taken literally, and between two word
/// boundaries where only whole words are to match.
pub open spec fn search_pattern(query: Seq<char>, whole_words: bool) -> Seq<char> {
    if whole_words {
        word_boundary() + escaped(query) + word_boundary()
    } else {
        escaped(query)
    }
}

/// `regex::escape`: the text with a backslash put before each character that
/// `regex_syntax::is_meta_character` accepts, and with every other character
/// as it is. Trusted, not proved.
#[verifier::external_body]
fn escape(text: &str) -> (pattern: String)
    ensures
        pattern@ == escaped(text@),
{
    regex::escape(text)
}

/// Builds the pattern for a query.
pub fn build_pattern(query: &str, whole_words: bool) -> (pattern: String)
    ensures
        pattern@ == search_pattern(query@, whole_words),
{
    let literal = escape(query);
    if whole_words {
        proof {
            reveal_strlit("\\b");
            assert("\\b"@ =~= word_boundary());
        }
        String::from_str("\\b").concat(literal.as_str()).concat("\\b")
    } else {
        literal
    }
}

} // verus!
