//! What holds of the results of searches, whatever the content and the query.

use crate::engine::{found, search_outcome};
use crate::occurrences::{
    comparable, compared, is_covered, is_scan, lemma_compared_ascii_is_plain, matches_at,
    occurs_at, runs_apart, spelled_out,
};
use crate::options::{ignores_case, whole_words, Options};
use vstd::prelude::*;
use vstd::utf8::{encode_utf8, is_ascii_chars};

verus! {

/// A search is a function of its inputs: two searches of the same content
/// for the same query under the same options find the same offsets.
pub proof fn law_search_is_repeatable(
    content: Seq<char>,
    query: Seq<char>,
    options: Option<Options>,
    first: Seq<usize>,
    second: Seq<usize>,
)
    requires
        found(content, query, options, first),
        found(content, query, options, second),
    ensures
        first == second,
{
}

/// A search without options and a search with options of which neither is
/// set come to the same: both fail or both find the same offsets, and what
/// is a result of the one is a result of the other.
pub proof fn law_unset_options_are_no_options(
    content: Seq<char>,
    query: Seq<char>,
    offsets: Seq<usize>,
)
    ensures
        search_outcome(content, query, None) == search_outcome(
            content,
            query,
            Some(Options { case_sensitive: false, exact_match: false }),
        ),
        found(content, query, None, offsets) <==> found(
            content,
            query,
            Some(Options { case_sensitive: false, exact_match: false }),
            offsets,
        ),
{
}

/// Where the texts are comparable, every offset of a whole-word search lies
/// within the run of a match of the substring search for the same query: it
/// is the offset of that match, or the query stands in the content a second
/// time before that match ends.
pub proof fn law_whole_words_within_substring_matches(
    content: Seq<char>,
    query: Seq<char>,
    whole: Option<Options>,
    plain: Option<Options>,
    words: Seq<usize>,
    substrings: Seq<usize>,
)
    requires
        whole_words(whole),
        !whole_words(plain),
        ignores_case(whole) == ignores_case(plain),
        comparable(content, query, ignores_case(plain)),
        found(content, query, whole, words),
        found(content, query, plain, substrings),
    ensures
        forall|i: int|
            0 <= i < words.len() ==> is_covered(
                substrings,
                encode_utf8(query).len(),
                #[trigger] words[i] as int,
            ),
{
    let text = compared(content, ignores_case(plain));
    let needle = compared(query, ignores_case(plain));
    assert(needle.len() == encode_utf8(query).len());
    assert forall|i: int| 0 <= i < words.len() implies is_covered(
        substrings,
        encode_utf8(query).len(),
        #[trigger] words[i] as int,
    ) by {
        assert(occurs_at(text, needle, words[i] as int));
        assert(matches_at(text, needle, false, words[i] as int));
    }
}

/// Where the texts are comparable, a whole-word search finds no more
/// offsets than the substring search for the same query.
pub proof fn law_whole_words_no_more_than_substrings(
    content: Seq<char>,
    query: Seq<char>,
    whole: Option<Options>,
    plain: Option<Options>,
    words: Seq<usize>,
    substrings: Seq<usize>,
)
    requires
        whole_words(whole),
        !whole_words(plain),
        ignores_case(whole) == ignores_case(plain),
        comparable(content, query, ignores_case(plain)),
        found(content, query, whole, words),
        found(content, query, plain, substrings),
    ensures
        words.len() <= substrings.len(),
{
    if words.len() > 0 {
        let length = encode_utf8(query).len();
        assert(compared(query, ignores_case(plain)).len() == length);
        law_whole_words_within_substring_matches(content, query, whole, plain, words, substrings);
        lemma_runs_within_runs(words, substrings, length, words.len() - 1);
    }
}

/// Where each of the runs of a first list starts within a run of a second,
/// and the runs of neither list overlap, the run `k` of the first list
/// starts within a run of the second that has `k` runs or more before it.
proof fn lemma_runs_within_runs(first: Seq<usize>, second: Seq<usize>, length: nat, k: int)
    requires
        length > 0,
        runs_apart(first, length),
        runs_apart(second, length),
        0 <= k < first.len(),
        forall|i: int| 0 <= i < first.len() ==> is_covered(second, length, #[trigger] first[i] as int),
    ensures
        k < second.len(),
        exists|j: int| k <= j < second.len() && #[trigger] second[j] <= first[k] < second[j] + length,
    decreases k,
{
    reveal(is_covered);
    assert(is_covered(second, length, first[k] as int));
    let j = choose|j: int|
        0 <= j < second.len() && #[trigger] second[j] <= first[k] < second[j] + length;
    if k > 0 {
        lemma_runs_within_runs(first, second, length, k - 1);
        let before = choose|j: int|
            k - 1 <= j < second.len() && #[trigger] second[j] <= first[k - 1] < second[j] + length;
        assert(first[k - 1] + length <= first[k]);
        if j < before {
            assert(second[j] + length <= second[before]);
        }
        assert(j > before);
    }
}

/// Whether no two occurrences of `needle` in `text` overlap.
pub open spec fn occurrences_apart(text: Seq<u8>, needle: Seq<u8>) -> bool {
    forall|first: int, second: int|
        first < second && #[trigger] occurs_at(text, needle, first) && #[trigger] occurs_at(
            text,
            needle,
            second,
        ) ==> first + needle.len() <= second
}

/// Where the texts are comparable and no two occurrences of the query in the
/// content overlap, a whole-word search finds a part of what the substring
/// search for the same query finds: each of its offsets is one of the
/// substring search, and they are no more in number.
pub proof fn law_whole_words_among_substrings(
    content: Seq<char>,
    query: Seq<char>,
    whole: Option<Options>,
    plain: Option<Options>,
    words: Seq<usize>,
    substrings: Seq<usize>,
)
    requires
        whole_words(whole),
        !whole_words(plain),
        ignores_case(whole) == ignores_case(plain),
        comparable(content, query, ignores_case(plain)),
        found(content, query, whole, words),
        found(content, query, plain, substrings),
        occurrences_apart(
            compared(content, ignores_case(plain)),
            compared(query, ignores_case(plain)),
        ),
    ensures
        forall|i: int| 0 <= i < words.len() ==> substrings.contains(#[trigger] words[i]),
        words.len() <= substrings.len(),
{
    let text = compared(content, ignores_case(plain));
    let needle = compared(query, ignores_case(plain));
    law_whole_words_within_substring_matches(content, query, whole, plain, words, substrings);
    assert forall|i: int| 0 <= i < words.len() implies substrings.contains(
        #[trigger] words[i],
    ) by {
        assert(is_covered(substrings, needle.len(), words[i] as int));
        reveal(is_covered);
        let j = choose|j: int|
            0 <= j < substrings.len() && #[trigger] substrings[j] <= words[i] < substrings[j]
                + encode_utf8(query).len();
        assert(occurs_at(text, needle, words[i] as int));
        assert(occurs_at(text, needle, substrings[j] as int));
        assert(substrings[j] == words[i]);
    }
    law_whole_words_no_more_than_substrings(content, query, whole, plain, words, substrings);
}

/// What one scan from left to right finds is settled by the text and by what
/// is searched: two lists of offsets that both are a scan of `text` for a
/// `needle` that is not empty are the same.
pub proof fn law_scan_is_settled(
    text: Seq<u8>,
    needle: Seq<u8>,
    whole_words: bool,
    first: Seq<usize>,
    second: Seq<usize>,
)
    requires
        needle.len() > 0,
        is_scan(text, needle, whole_words, first),
        is_scan(text, needle, whole_words, second),
    ensures
        first == second,
{
    lemma_scans_agree(text, needle, whole_words, first, second, first.len() as int);
    lemma_scans_agree(text, needle, whole_words, second, first, second.len() as int);
    assert(first =~= second);
}

/// The bytes alone tell every match where substrings match and the texts
/// are comparable, and where whole words match in an ASCII content.
pub proof fn law_ascii_is_spelled_out(
    content: Seq<char>,
    query: Seq<char>,
    whole_words: bool,
    ignore_case: bool,
)
    requires
        comparable(content, query, ignore_case),
        whole_words ==> is_ascii_chars(content),
    ensures
        spelled_out(content, query, whole_words, ignore_case),
{
    if whole_words {
        lemma_compared_ascii_is_plain(content, ignore_case);
    }
}

/// Where the bytes alone tell every match, the result of a search is the
/// scan of the content for the query: whatever list of offsets is such a
/// scan is what the search finds.
pub proof fn law_search_is_the_scan(
    content: Seq<char>,
    query: Seq<char>,
    options: Option<Options>,
    offsets: Seq<usize>,
    scan: Seq<usize>,
)
    requires
        query.len() > 0,
        spelled_out(content, query, whole_words(options), ignores_case(options)),
        found(content, query, options, offsets),
        is_scan(
            compared(content, ignores_case(options)),
            compared(query, ignores_case(options)),
            whole_words(options),
            scan,
        ),
    ensures
        offsets == scan,
{
    law_scan_is_settled(
        compared(content, ignores_case(options)),
        compared(query, ignores_case(options)),
        whole_words(options),
        offsets,
        scan,
    );
}

/// Two scans of one text for one needle agree on their first `count`
/// offsets, where the first of them has as many.
proof fn lemma_scans_agree(
    text: Seq<u8>,
    needle: Seq<u8>,
    whole_words: bool,
    first: Seq<usize>,
    second: Seq<usize>,
    count: int,
)
    requires
        needle.len() > 0,
        is_scan(text, needle, whole_words, first),
        is_scan(text, needle, whole_words, second),
        0 <= count <= first.len(),
    ensures
        count <= second.len(),
        forall|i: int| 0 <= i < count ==> first[i] == second[i],
    decreases count,
{
    if count > 0 {
        let k = count - 1;
        lemma_scans_agree(text, needle, whole_words, first, second, k);
        assert(matches_at(text, needle, whole_words, first[k] as int));
        lemma_covered_behind_common_start(first, second, needle.len(), k);
        assert(matches_at(text, needle, whole_words, second[k] as int));
        lemma_covered_behind_common_start(second, first, needle.len(), k);
    }
}

/// Where two lists of runs that do not overlap start alike, and the next
/// offset of the first list lies within a run of the second, the second
/// list has a next offset too, and it is not behind that of the first.
proof fn lemma_covered_behind_common_start(
    first: Seq<usize>,
    second: Seq<usize>,
    length: nat,
    k: int,
)
    requires
        length > 0,
        runs_apart(first, length),
        runs_apart(second, length),
        0 <= k < first.len(),
        k <= second.len(),
        forall|i: int| 0 <= i < k ==> first[i] == second[i],
        is_covered(second, length, first[k] as int),
    ensures
        k < second.len(),
        second[k] <= first[k],
{
    reveal(is_covered);
    let j = choose|j: int|
        0 <= j < second.len() && #[trigger] second[j] <= first[k] < second[j] + length;
    if j < k {
        assert(first[j] + length <= first[k]);
    }
    if k < j {
        assert(second[k] + length <= second[j]);
    }
}

} // verus!
