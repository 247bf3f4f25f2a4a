//! The match engine: the places where a query is found in a content.

use crate::error::ConfigError;
use crate::occurrences::{
    all_below, all_occur, all_sound, at_word_boundary, comparable, compared, edge_told, is_scan,
    is_covered, is_reached, lemma_compared_ascii_is_plain, matches_at, measurable,
    none_told_missed, none_told_passed, occurs_at, plain_run, runs_apart, sound_at, spelled_out,
    strictly_ascending, told_at,
};
use crate::options::{ignores_case, whole_words, Options};
use crate::pattern::{build_pattern, search_pattern};
use vstd::prelude::*;
use vstd::utf8::encode_utf8;

verus! {

/// The error of the `regex` crate. Trusted, not proved: nothing is known of
/// its contents.
#[verifier::external_type_specification]
#[verifier::external_body]
pub struct ExRegexError(regex::Error);

/// What `regex::RegexBuilder` and `regex::Regex::find_iter` make of a
/// pattern and a haystack: nothing where `build` refuses the pattern, with
/// the `case_insensitive` setting as given and all others at their
/// defaults; else the matches that `find_iter` yields in the haystack, in
/// their order, each as the byte offsets of its start and its end.
pub uninterp spec fn regex_search(pattern: Seq<char>, case_insensitive: bool, haystack: Seq<char>) -> Option<
    Seq<(usize, usize)>,
>;

/// Whether the spans lie in a text of `length` bytes and follow each other:
/// none ends before it starts or behind the end of the text, and each
/// starts behind the start, and not before the end, of those before it.
pub open spec fn successive(spans: Seq<(usize, usize)>, length: nat) -> bool {
    &&& forall|i: int| 0 <= i < spans.len() ==> (#[trigger] spans[i]).0 <= spans[i].1 <= length
    &&& forall|i: int, j: int|
        0 <= i < j < spans.len() ==> (#[trigger] spans[i]).1 <= (#[trigger] spans[j]).0
            && spans[i].0 < spans[j].0
}

/// The starts of the spans.
pub open spec fn span_starts(spans: Seq<(usize, usize)>) -> Seq<usize> {
    Seq::new(spans.len(), |i: int| spans[i].0)
}

/// Whether no span is empty.
pub open spec fn none_empty(spans: Seq<(usize, usize)>) -> bool {
    forall|i: int| 0 <= i < spans.len() ==> (#[trigger] spans[i]).0 < spans[i].1
}

/// What is taken for granted of one span in which the pattern of a query
/// matches, where `needle` is the bytes of the query and `text` those of
/// the haystack:
/// - the span is no shorter than the query;
/// - where letter case counts, it is as long as the query and holds it;
/// - where letter case is ignored and the bytes at its start, as many as
///   the query has, are ASCII, it is as long as the query and holds it but
///   for the case of letters;
/// - where whole words match, a word boundary of ASCII lies at its start
///   and at its end, wherever what stands on both sides of that place is
///   ASCII or an end of the haystack.
pub open spec fn span_is_sound(
    text: Seq<u8>,
    needle: Seq<u8>,
    whole_words: bool,
    case_insensitive: bool,
    span: (usize, usize),
) -> bool {
    let sized = !case_insensitive || plain_run(text, span.0 as int, needle.len());
    &&& span.0 + needle.len() <= span.1
    &&& sized ==> span.1 == span.0 + needle.len() && occurs_at(text, needle, span.0 as int)
    &&& whole_words && edge_told(text, span.0 as int) ==> at_word_boundary(text, span.0 as int)
    &&& whole_words && edge_told(text, span.1 as int) ==> at_word_boundary(text, span.1 as int)
}

/// Whether the place `at` lies within one of the spans.
#[verifier::opaque]
pub open spec fn is_within(spans: Seq<(usize, usize)>, at: int) -> bool {
    exists|i: int| 0 <= i < spans.len() && (#[trigger] spans[i]).0 <= at < spans[i].1
}

/// Whether no match of `needle` in `text` of which the bytes tell is passed
/// over: each starts within one of the spans.
pub open spec fn none_told_outside(
    text: Seq<u8>,
    needle: Seq<u8>,
    whole_words: bool,
    spans: Seq<(usize, usize)>,
) -> bool {
    forall|at: int| #[trigger]
        matches_at(text, needle, whole_words, at) && told_at(text, needle, whole_words, at)
            ==> is_within(spans, at)
}

/// What is taken for granted of the spans in which the pattern of a query
/// matches: none is empty; and, where the letters of the query stand for a
/// known number of bytes, each span is sound, and no match of which the
/// bytes tell is passed over.
pub open spec fn matches_query(
    query: Seq<char>,
    whole_words: bool,
    case_insensitive: bool,
    haystack: Seq<char>,
    spans: Seq<(usize, usize)>,
) -> bool {
    &&& none_empty(spans)
    &&& measurable(query, case_insensitive) ==> forall|i: int|
        0 <= i < spans.len() ==> span_is_sound(
            compared(haystack, case_insensitive),
            compared(query, case_insensitive),
            whole_words,
            case_insensitive,
            #[trigger] spans[i],
        )
    &&& measurable(query, case_insensitive) ==> none_told_outside(
        compared(haystack, case_insensitive),
        compared(query, case_insensitive),
        whole_words,
        spans,
    )
}

/// What is taken for granted of the spans in which a pattern matches in a
/// haystack.
pub open spec fn engine_reports(
    pattern: Seq<char>,
    case_insensitive: bool,
    haystack: Seq<char>,
    spans: Seq<(usize, usize)>,
) -> bool {
    &&& successive(spans, encode_utf8(haystack).len())
    &&& forall|query: Seq<char>, whole_words: bool|
        query.len() > 0 && #[trigger] search_pattern(query, whole_words) == pattern
            ==> matches_query(query, whole_words, case_insensitive, haystack, spans)
}

/// Compiles `pattern` with `regex::RegexBuilder` (`new`, `case_insensitive`,
/// `build`) and collects the start and end of every match that
/// `regex::Regex::find_iter` yields in `haystack`, in the order in which
/// they come; the error of `build` where the pattern is refused.
///
/// Trusted, not proved. Of the spans it is taken from the documentation of
/// `find_iter` and of `regex::Match` that they are successive and do not
/// overlap, and that each lies in the haystack. From the documentation of
/// `regex::escape` and of the pattern syntax it is taken of a pattern made
/// of an escaped, non-empty text, alone or between two `\b`:
/// - that it matches one or more bytes;
/// - that, where letter case counts, it matches that text and nothing else;
/// - that, where letter case is ignored, each character of the text is
///   matched by one character, so that a match of an ASCII text is no
///   shorter than it, and that an ASCII character matches the ASCII
///   characters that differ from it in case at most;
/// - that `\b` matches, where an ASCII character or an end of the haystack
///   stands on both sides, between a digit, a letter or an underscore and
///   what is none of these;
/// - and that the first match is found, and then the first that starts at
///   or behind the end of the one before, so that a place where the text
///   matches lies within a match that is found.
#[verifier::external_body]
fn regex_find_spans(pattern: &str, case_insensitive: bool, haystack: &str) -> (outcome: Result<
    Vec<(usize, usize)>,
    regex::Error,
>)
    ensures
        match outcome {
            Ok(spans) => regex_search(pattern@, case_insensitive, haystack@) == Some(spans@),
            Err(_) => regex_search(pattern@, case_insensitive, haystack@) is None,
        },
        outcome matches Ok(spans) ==> engine_reports(
            pattern@,
            case_insensitive,
            haystack@,
            spans@,
        ),
{
    let regex = regex::RegexBuilder::new(pattern).case_insensitive(case_insensitive).build()?;
    Ok(regex.find_iter(haystack).map(|found| (found.start(), found.end())).collect())
}

/// The options that a reference, if any, leads to.
pub open spec fn flags_of(options: Option<&Options>) -> Option<Options> {
    match options {
        Some(options) => Some(*options),
        None => None,
    }
}

/// What a search for `query` in `content` comes to: no offsets for an empty
/// query; else nothing where the engine refuses the pattern of the query,
/// and the starts of the matches of that pattern where it does not.
pub open spec fn search_outcome(content: Seq<char>, query: Seq<char>, options: Option<Options>) -> Option<
    Seq<usize>,
> {
    if query.len() == 0 {
        Some(Seq::empty())
    } else {
        match regex_search(
            search_pattern(query, whole_words(options)),
            ignores_case(options),
            content,
        ) {
            Some(spans) => Some(span_starts(spans)),
            None => None,
        }
    }
}

/// Whether `offsets` is the result of searching `content` for `query` under
/// `options`:
/// - it is what the search comes to;
/// - the offsets rise strictly, and each lies within the content;
/// - where the letters of the query stand for a known number of bytes, the
///   matches do not overlap, each is sound (the query fits in the content
///   at its offset, and stands there, and between word boundaries for a
///   whole word, as far as the bytes tell), and no match of which the bytes
///   tell lies before the first offset, or between the end of a sized match
///   and the next offset;
/// - where the texts are comparable, the query stands in the content at
///   each offset, and no match of which the bytes tell is passed over;
/// - where the bytes alone tell every match, the offsets are what one scan
///   from left to right finds.
pub open spec fn found(
    content: Seq<char>,
    query: Seq<char>,
    options: Option<Options>,
    offsets: Seq<usize>,
) -> bool {
    &&& search_outcome(content, query, options) == Some(offsets)
    &&& strictly_ascending(offsets)
    &&& all_below(offsets, encode_utf8(content).len())
    &&& measurable(query, ignores_case(options)) ==> {
        &&& runs_apart(offsets, compared(query, ignores_case(options)).len())
        &&& all_sound(
            compared(content, ignores_case(options)),
            compared(query, ignores_case(options)),
            whole_words(options),
            ignores_case(options),
            offsets,
        )
        &&& query.len() > 0 ==> none_told_passed(
            compared(content, ignores_case(options)),
            compared(query, ignores_case(options)),
            whole_words(options),
            ignores_case(options),
            offsets,
        )
    }
    &&& comparable(content, query, ignores_case(options)) ==> {
        &&& all_occur(
            compared(content, ignores_case(options)),
            compared(query, ignores_case(options)),
            offsets,
        )
        &&& query.len() > 0 ==> none_told_missed(
            compared(content, ignores_case(options)),
            compared(query, ignores_case(options)),
            whole_words(options),
            offsets,
        )
    }
    &&& spelled_out(content, query, whole_words(options), ignores_case(options)) ==> is_scan(
        compared(content, ignores_case(options)),
        compared(query, ignores_case(options)),
        whole_words(options),
        offsets,
    )
}

/// Turns what the engine reported into the result of a search for `query`:
/// the start of each span, in the same order, or the error that names the
/// query where the engine refused its pattern.
pub fn collect_offsets(outcome: Result<Vec<(usize, usize)>, regex::Error>, query: &str) -> (result:
    Result<Vec<usize>, ConfigError>)
    ensures
        match outcome {
            Ok(spans) => result matches Ok(offsets) && offsets@ == span_starts(spans@),
            Err(_) => result matches Err(ConfigError::PatternError(named)) && named@ == query@,
        },
{
    match outcome {
        Ok(spans) => {
            let mut matched_indices: Vec<usize> = Vec::new();
            for i in 0..spans.len()
                invariant
                    matched_indices@ == span_starts(spans@.take(i as int)),
            {
                matched_indices.push(spans[i].0);
                assert(matched_indices@ =~= span_starts(spans@.take(i + 1)));
            }
            assert(spans@.take(spans.len() as int) =~= spans@);
            Ok(matched_indices)
        },
        Err(_) => Err(ConfigError::PatternError(query.to_owned())),
    }
}

/// Finds every occurrence of `query` in `content`, in one scan from left to
/// right in which no two matches overlap, and returns the byte offset at
/// which each starts.
///
/// Without options, and with options of which neither is set, the query
/// matches as a substring and letter case counts. Every character of the
/// query is taken literally. An empty query matches nowhere. The only
/// error is that no pattern could be made of the query.
pub fn find_matches(content: &str, query: &str, options: Option<&Options>) -> (result: Result<
    Vec<usize>,
    ConfigError,
>)
    ensures
        result is Ok <==> search_outcome(content@, query@, flags_of(options)) is Some,
        result matches Ok(offsets) ==> found(content@, query@, flags_of(options), offsets@),
        result matches Err(error) ==> (error matches ConfigError::PatternError(named) && named@
            == query@),
{
    if query.is_empty() {
        let none: Vec<usize> = Vec::new();
        proof {
            lemma_nothing_found(content@, query@, flags_of(options));
        }
        return Ok(none);
    }
    let (whole, fold) = match options {
        Some(options) => (options.is_exact_match(), options.is_case_sensitive()),
        None => (false, false),
    };
    let pattern = build_pattern(query, whole);
    let outcome = regex_find_spans(pattern.as_str(), fold, content);
    proof {
        if outcome is Ok {
            lemma_spans_found(content@, query@, flags_of(options), outcome->Ok_0@);
        }
    }
    collect_offsets(outcome, query)
}

/// The empty list is the result of a search for the empty query.
proof fn lemma_nothing_found(content: Seq<char>, query: Seq<char>, options: Option<Options>)
    requires
        query.len() == 0,
    ensures
        found(content, query, options, Seq::empty()),
{
}

/// The starts of the spans that the engine reports for the pattern of a
/// query are the result of the search for it.
proof fn lemma_spans_found(
    content: Seq<char>,
    query: Seq<char>,
    options: Option<Options>,
    spans: Seq<(usize, usize)>,
)
    requires
        query.len() > 0,
        regex_search(
            search_pattern(query, whole_words(options)),
            ignores_case(options),
            content,
        ) == Some(spans),
        engine_reports(
            search_pattern(query, whole_words(options)),
            ignores_case(options),
            content,
            spans,
        ),
    ensures
        found(content, query, options, span_starts(spans)),
{
    let fold = ignores_case(options);
    let whole = whole_words(options);
    let text = compared(content, fold);
    let needle = compared(query, fold);
    let offsets = span_starts(spans);
    assert(matches_query(query, whole, fold, content, spans));
    assert(text.len() == encode_utf8(content).len());
    assert forall|i: int| 0 <= i < offsets.len() implies #[trigger] offsets[i] < encode_utf8(
        content,
    ).len() by {
        assert(spans[i].0 < spans[i].1);
    }
    assert forall|i: int, j: int| 0 <= i < j < offsets.len() implies offsets[i] < offsets[j] by {
        assert(spans[i].0 < spans[j].0);
    }
    if measurable(query, fold) {
        assert forall|i: int, j: int| 0 <= i < j < offsets.len() implies offsets[i] + needle.len()
            <= offsets[j] by {
            assert(span_is_sound(text, needle, whole, fold, spans[i]));
            assert(spans[i].1 <= spans[j].0);
        }
        assert forall|i: int| 0 <= i < offsets.len() implies sound_at(
            text,
            needle,
            whole,
            fold,
            #[trigger] offsets[i] as int,
        ) by {
            assert(span_is_sound(text, needle, whole, fold, spans[i]));
            assert(spans[i].1 <= text.len());
        }
    }
    if measurable(query, fold) {
        assert forall|at: int| #[trigger]
            matches_at(text, needle, whole, at) && told_at(text, needle, whole, at) implies is_reached(
            text,
            needle.len(),
            fold,
            offsets,
            at,
        ) by {
            reveal(is_within);
            reveal(is_reached);
            assert(is_within(spans, at));
            let i = choose|i: int| 0 <= i < spans.len() && (#[trigger] spans[i]).0 <= at < spans[i].1;
            assert(span_is_sound(text, needle, whole, fold, spans[i]));
            assert(offsets[i] == spans[i].0);
        }
    }
    if comparable(content, query, fold) {
        if fold {
            lemma_compared_ascii_is_plain(content, fold);
        }
        assert forall|i: int| 0 <= i < offsets.len() implies occurs_at(
            text,
            needle,
            #[trigger] offsets[i] as int,
        ) by {
            assert(span_is_sound(text, needle, whole, fold, spans[i]));
            assert(spans[i].1 <= text.len());
            if fold {
                assert(plain_run(text, spans[i].0 as int, needle.len()));
            }
        }
        assert forall|at: int| #[trigger]
            matches_at(text, needle, whole, at) && told_at(text, needle, whole, at) implies is_covered(
            offsets,
            needle.len(),
            at,
        ) by {
            reveal(is_within);
            reveal(is_covered);
            assert(is_within(spans, at));
            let i = choose|i: int| 0 <= i < spans.len() && (#[trigger] spans[i]).0 <= at < spans[i].1;
            assert(span_is_sound(text, needle, whole, fold, spans[i]));
            assert(spans[i].1 <= text.len());
            if fold {
                assert(plain_run(text, spans[i].0 as int, needle.len()));
            }
            assert(offsets[i] == spans[i].0);
        }
    }
    if spelled_out(content, query, whole, fold) {
        if fold {
            lemma_compared_ascii_is_plain(content, fold);
        }
        assert forall|at: int| #[trigger] matches_at(text, needle, whole, at) implies told_at(
            text,
            needle,
            whole,
            at,
        ) by {
            assert(occurs_at(text, needle, at));
        }
        assert forall|i: int| 0 <= i < offsets.len() implies matches_at(
            text,
            needle,
            whole,
            #[trigger] offsets[i] as int,
        ) by {
            assert(sound_at(text, needle, whole, fold, offsets[i] as int));
            assert(occurs_at(text, needle, offsets[i] as int));
            assert(told_at(text, needle, whole, offsets[i] as int));
            if fold {
                assert(plain_run(text, offsets[i] as int, needle.len()));
            }
        }
    }
}

} // verus!
