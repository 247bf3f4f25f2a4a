//! Where one byte string occurs in another, and what it means for a list of
//! places to be the result of one scan from left to right.

use vstd::prelude::*;
use vstd::utf8::{encode_utf8, is_ascii_chars, is_ascii_chars_encode_utf8};

verus! {

/// The byte `b`, with a capital letter of ASCII turned into its small letter.
pub open spec fn ascii_lowercase(b: u8) -> u8 {
    if 0x41 <= b <= 0x5a {
        (b + 0x20) as u8
    } else {
        b
    }
}

/// `bytes` with every capital letter of ASCII turned into its small letter.
pub open spec fn lowercase(bytes: Seq<u8>) -> Seq<u8> {
    Seq::new(bytes.len(), |i: int| ascii_lowercase(bytes[i]))
}

/// The bytes by which `text` is compared: those of its UTF-8 encoding, with
/// the capital letters of ASCII turned small where letter case is ignored.
pub open spec fn compared(text: Seq<char>, ignore_case: bool) -> Seq<u8> {
    if ignore_case {
        lowercase(encode_utf8(text))
    } else {
        encode_utf8(text)
    }
}

/// Whether it is told by comparing bytes where `query` stands in `content`:
/// it is where letter case counts, and where it is ignored and both texts
/// are ASCII. Beyond ASCII, letters that differ only in case may differ in
/// the number of their bytes.
pub open spec fn comparable(content: Seq<char>, query: Seq<char>, ignore_case: bool) -> bool {
    ignore_case ==> is_ascii_chars(content) && is_ascii_chars(query)
}

/// Whether a letter of `query` stands for a known number of bytes in a
/// match: it does where letter case counts, and where it is ignored and the
/// query is ASCII.
pub open spec fn measurable(query: Seq<char>, ignore_case: bool) -> bool {
    ignore_case ==> is_ascii_chars(query)
}

/// Whether `needle` stands in `text` at the byte offset `at`.
pub open spec fn occurs_at(text: Seq<u8>, needle: Seq<u8>, at: int) -> bool {
    &&& 0 <= at
    &&& at + needle.len() <= text.len()
    &&& text.subrange(at, at + needle.len()) == needle
}

/// Whether the offsets rise strictly from each to the next.
pub open spec fn strictly_ascending(offsets: Seq<usize>) -> bool {
    forall|i: int, j: int| 0 <= i < j < offsets.len() ==> offsets[i] < offsets[j]
}

/// Whether every offset lies below `limit`.
pub open spec fn all_below(offsets: Seq<usize>, limit: nat) -> bool {
    forall|i: int| 0 <= i < offsets.len() ==> #[trigger] offsets[i] < limit
}

/// Whether `needle` stands in `text` at every one of the offsets.
pub open spec fn all_occur(text: Seq<u8>, needle: Seq<u8>, offsets: Seq<usize>) -> bool {
    forall|i: int| 0 <= i < offsets.len() ==> occurs_at(text, needle, #[trigger] offsets[i] as int)
}

/// Whether `b` is a word character of ASCII: a digit, a letter or the
/// underscore.
pub open spec fn is_word_byte(b: u8) -> bool {
    0x30 <= b <= 0x39 || 0x41 <= b <= 0x5a || 0x61 <= b <= 0x7a || b == 0x5f
}

/// Whether a word character stands in `text` at the byte offset `at`.
pub open spec fn word_byte_at(text: Seq<u8>, at: int) -> bool {
    0 <= at < text.len() && is_word_byte(text[at])
}

/// Whether the place `at` of an ASCII `text` lies between a word character
/// and what is none: another character, or an end of the text.
pub open spec fn at_word_boundary(text: Seq<u8>, at: int) -> bool {
    word_byte_at(text, at - 1) != word_byte_at(text, at)
}

/// Whether `needle` matches in `text` at the byte offset `at`: it stands
/// there, and, where only whole words match, between two word boundaries.
pub open spec fn matches_at(text: Seq<u8>, needle: Seq<u8>, whole_words: bool, at: int) -> bool {
    &&& occurs_at(text, needle, at)
    &&& whole_words ==> at_word_boundary(text, at) && at_word_boundary(text, at + needle.len())
}

/// Whether `needle` matches in `text` at every one of the offsets.
pub open spec fn all_match(
    text: Seq<u8>,
    needle: Seq<u8>,
    whole_words: bool,
    offsets: Seq<usize>,
) -> bool {
    forall|i: int|
        0 <= i < offsets.len() ==> matches_at(text, needle, whole_words, #[trigger] offsets[i] as int)
}

/// Whether the place `at` lies outside `text` or holds a byte of ASCII.
pub open spec fn plain_or_end(text: Seq<u8>, at: int) -> bool {
    0 <= at < text.len() ==> text[at] < 0x80
}

/// Whether the `length` bytes of `text` from `at` on are there and are all
/// ASCII.
pub open spec fn plain_run(text: Seq<u8>, at: int, length: nat) -> bool {
    &&& 0 <= at
    &&& at + length <= text.len()
    &&& forall|k: int| at <= k < at + length ==> #[trigger] text[k] < 0x80
}

/// Whether the bytes tell if a word boundary lies at `at`: they do where
/// what stands on either side is ASCII or an end of the text.
pub open spec fn edge_told(text: Seq<u8>, at: int) -> bool {
    plain_or_end(text, at - 1) && plain_or_end(text, at)
}

/// Whether the bytes tell if `needle` matches where it stands at `at`: they
/// do where substrings match, and for a whole word where they tell of the
/// boundaries on both of its sides.
pub open spec fn told_at(text: Seq<u8>, needle: Seq<u8>, whole_words: bool, at: int) -> bool {
    whole_words ==> edge_told(text, at) && edge_told(text, at + needle.len())
}

/// Whether it is told by the bytes alone where `query` matches in `content`:
/// it is where the texts are comparable, and, for whole words, where an
/// ASCII character or an end of the content stands on both sides of the
/// start and of the end of every occurrence of the query. Beyond ASCII,
/// which characters make a word is left to the engine.
pub open spec fn spelled_out(
    content: Seq<char>,
    query: Seq<char>,
    whole_words: bool,
    ignore_case: bool,
) -> bool {
    &&& comparable(content, query, ignore_case)
    &&& forall|at: int| #[trigger]
        occurs_at(compared(content, ignore_case), compared(query, ignore_case), at) ==> told_at(
            compared(content, ignore_case),
            compared(query, ignore_case),
            whole_words,
            at,
        )
}

/// What the bytes tell of a match that starts at `at`. It is no shorter
/// than `needle`. It is `needle` where letter case counts, and where it is
/// ignored and the bytes in its place are ASCII; a match of this kind is
/// sized. A whole word starts at a word boundary and, where it is sized,
/// ends at one, as far as the bytes tell of them.
pub open spec fn sound_at(
    text: Seq<u8>,
    needle: Seq<u8>,
    whole_words: bool,
    ignore_case: bool,
    at: int,
) -> bool {
    let sized = !ignore_case || plain_run(text, at, needle.len());
    &&& 0 <= at
    &&& at + needle.len() <= text.len()
    &&& sized ==> occurs_at(text, needle, at)
    &&& whole_words && edge_told(text, at) ==> at_word_boundary(text, at)
    &&& whole_words && sized && edge_told(text, at + needle.len()) ==> at_word_boundary(
        text,
        at + needle.len(),
    )
}

/// Whether the bytes tell as much of the match at each of the offsets.
pub open spec fn all_sound(
    text: Seq<u8>,
    needle: Seq<u8>,
    whole_words: bool,
    ignore_case: bool,
    offsets: Seq<usize>,
) -> bool {
    forall|i: int|
        0 <= i < offsets.len() ==> sound_at(
            text,
            needle,
            whole_words,
            ignore_case,
            #[trigger] offsets[i] as int,
        )
}

/// Whether the place `at` lies within the run of `length` bytes that starts
/// at one of the offsets.
#[verifier::opaque]
pub open spec fn is_covered(offsets: Seq<usize>, length: nat, at: int) -> bool {
    exists|i: int| 0 <= i < offsets.len() && #[trigger] offsets[i] <= at < offsets[i] + length
}

/// Whether no match of `needle` in `text` is passed over: each starts within
/// the run of `needle.len()` bytes that starts at one of the offsets.
pub open spec fn none_missed(
    text: Seq<u8>,
    needle: Seq<u8>,
    whole_words: bool,
    offsets: Seq<usize>,
) -> bool {
    forall|at: int| #[trigger]
        matches_at(text, needle, whole_words, at) ==> is_covered(offsets, needle.len(), at)
}

/// Whether no match of `needle` in `text` of which the bytes tell is passed
/// over.
pub open spec fn none_told_missed(
    text: Seq<u8>,
    needle: Seq<u8>,
    whole_words: bool,
    offsets: Seq<usize>,
) -> bool {
    forall|at: int| #[trigger]
        matches_at(text, needle, whole_words, at) && told_at(text, needle, whole_words, at)
            ==> is_covered(offsets, needle.len(), at)
}

/// Whether the place `at` lies within a match that starts at one of the
/// offsets, as far as the bytes tell where the match ends: at or behind its
/// start, and, where the match is sized, before the end of the `length`
/// bytes that it has.
#[verifier::opaque]
pub open spec fn is_reached(
    text: Seq<u8>,
    length: nat,
    ignore_case: bool,
    offsets: Seq<usize>,
    at: int,
) -> bool {
    exists|i: int|
        0 <= i < offsets.len() && #[trigger] offsets[i] <= at && ((!ignore_case || plain_run(
            text,
            offsets[i] as int,
            length,
        )) ==> at < offsets[i] + length)
}

/// Whether no match of `needle` in `text` of which the bytes tell lies
/// before the first of the matches at the offsets, or behind the end of one
/// that is sized and before the next.
pub open spec fn none_told_passed(
    text: Seq<u8>,
    needle: Seq<u8>,
    whole_words: bool,
    ignore_case: bool,
    offsets: Seq<usize>,
) -> bool {
    forall|at: int| #[trigger]
        matches_at(text, needle, whole_words, at) && told_at(text, needle, whole_words, at)
            ==> is_reached(text, needle.len(), ignore_case, offsets, at)
}

/// Whether the runs of `length` bytes that start at the offsets follow each
/// other without overlap.
pub open spec fn runs_apart(offsets: Seq<usize>, length: nat) -> bool {
    forall|i: int, j: int| 0 <= i < j < offsets.len() ==> offsets[i] + length <= offsets[j]
}

/// Whether the offsets are what one scan of `text` from left to right finds
/// of `needle`: the first match, then the first one that starts at or behind
/// the end of that, and so on. No two of the matches overlap, and none is
/// passed over but those that start within a match.
pub open spec fn is_scan(
    text: Seq<u8>,
    needle: Seq<u8>,
    whole_words: bool,
    offsets: Seq<usize>,
) -> bool {
    &&& runs_apart(offsets, needle.len())
    &&& all_match(text, needle, whole_words, offsets)
    &&& needle.len() > 0 ==> none_missed(text, needle, whole_words, offsets)
}

/// The bytes by which an ASCII text is compared are ASCII.
pub proof fn lemma_compared_ascii_is_plain(text: Seq<char>, ignore_case: bool)
    requires
        is_ascii_chars(text),
    ensures
        forall|k: int|
            0 <= k < compared(text, ignore_case).len() ==> #[trigger] compared(
                text,
                ignore_case,
            )[k] < 0x80,
{
    is_ascii_chars_encode_utf8(text);
    let bytes = encode_utf8(text);
    assert forall|k: int| 0 <= k < bytes.len() implies #[trigger] bytes[k] < 0x80 by {
        assert('\0' <= text[k] <= '\u{7f}');
    }
}

} // verus!
