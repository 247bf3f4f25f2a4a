use minigrep::engine::find_matches;
use minigrep::options::Options;
use minigrep::pattern::build_pattern;

fn is_word(byte: u8) -> bool {
    byte.is_ascii_alphanumeric() || byte == b'_'
}

fn at_boundary(text: &[u8], at: usize) -> bool {
    let before = at > 0 && is_word(text[at - 1]);
    let after = at < text.len() && is_word(text[at]);
    before != after
}

/// What one scan from left to right finds, told by the bytes alone.
fn scan(content: &str, query: &str, whole_words: bool, ignore_case: bool) -> Vec<usize> {
    let (text, needle) = if ignore_case {
        (
            content.as_bytes().to_ascii_lowercase(),
            query.as_bytes().to_ascii_lowercase(),
        )
    } else {
        (content.as_bytes().to_vec(), query.as_bytes().to_vec())
    };
    let mut offsets = Vec::new();
    let mut at = 0;
    while at + needle.len() <= text.len() {
        let stands = text[at..at + needle.len()] == needle[..];
        let bounded = at_boundary(&text, at) && at_boundary(&text, at + needle.len());
        if stands && (!whole_words || bounded) {
            offsets.push(at);
            at += needle.len();
        } else {
            at += 1;
        }
    }
    offsets
}

/// A sequence of numbers that looks random and is the same in every run.
fn next(state: &mut u64) -> usize {
    *state = state
        .wrapping_mul(6364136223846793005)
        .wrapping_add(1442695040888963407);
    (*state >> 33) as usize
}

fn text_of(state: &mut u64, alphabet: &[char], longest: usize) -> String {
    let length = next(state) % (longest + 1);
    let mut text = String::new();
    for _ in 0..length {
        text.push(alphabet[next(state) % alphabet.len()]);
    }
    text
}

fn compare_on(alphabet: &[char], rounds: usize, seed: u64, modes: &[(bool, bool)]) {
    let mut state = seed;
    for _ in 0..rounds {
        let content = text_of(&mut state, alphabet, 24);
        let mut query = text_of(&mut state, alphabet, 3);
        if query.is_empty() {
            query.push(alphabet[0]);
        }
        for (whole_words, ignore_case) in modes {
            let options = Options::new(*ignore_case, *whole_words);
            assert_eq!(
                find_matches(&content, &query, Some(&options)),
                Ok(scan(&content, &query, *whole_words, *ignore_case)),
                "content {:?}, query {:?}, whole words {}, ignoring case {}",
                content,
                query,
                whole_words,
                ignore_case
            );
        }
    }
}

const ALL_MODES: [(bool, bool); 4] = [(false, false), (false, true), (true, false), (true, true)];

#[test]
fn test_find_matches_is_a_scan_of_letters() {
    compare_on(&['a', 'A', 'b', 'B', ' '], 1500, 1, &ALL_MODES);
}

#[test]
fn test_find_matches_is_a_scan_of_words_and_signs() {
    compare_on(
        &['k', 'S', 's', '_', '7', '-', '.', ' ', '(', '\\', '\n'],
        1500,
        2,
        &ALL_MODES,
    );
}

#[test]
fn test_find_matches_is_a_scan_of_signs_beside_letters() {
    compare_on(&['@', '`', '[', '{', 'Z', 'z', '^', '~', '$'], 1500, 3, &ALL_MODES);
}

#[test]
fn test_find_matches_is_a_scan_of_one_letter() {
    compare_on(&['a', 'a', 'a', 'A', ' '], 1000, 4, &ALL_MODES);
}

#[test]
fn test_find_matches_is_a_scan_of_substrings_beyond_ascii() {
    compare_on(
        &['a', '\u{e9}', '\u{c9}', '\u{17f}', 's', '\u{212a}', 'k', ' ', '\u{4e2d}'],
        1500,
        5,
        &[(false, false)],
    );
}

#[test]
fn test_find_matches_of_whole_words_beyond_ascii_are_among_the_occurrences() {
    let alphabet = ['a', '\u{e9}', ' ', '\u{4e2d}', '-', '\u{301}'];
    let mut state = 6;
    for _ in 0..1500 {
        let content = text_of(&mut state, &alphabet, 24);
        let mut query = text_of(&mut state, &alphabet, 3);
        if query.is_empty() {
            query.push('a');
        }
        let offsets = find_matches(&content, &query, Some(&Options::new(false, true))).unwrap();
        for pair in offsets.windows(2) {
            assert!(pair[0] + query.len() <= pair[1]);
        }
        for offset in offsets {
            assert_eq!(&content[offset..offset + query.len()], query);
        }
    }
}

#[test]
fn test_find_matches_ignoring_case_beyond_ascii_rise_within_the_content() {
    let alphabet = ['s', 'S', '\u{17f}', 'k', '\u{212a}', '\u{e9}', '\u{c9}', ' '];
    let mut state = 7;
    for _ in 0..1500 {
        let content = text_of(&mut state, &alphabet, 24);
        let mut query = text_of(&mut state, &alphabet, 3);
        if query.is_empty() {
            query.push('s');
        }
        for whole_words in [false, true] {
            let options = Options::new(true, whole_words);
            let offsets = find_matches(&content, &query, Some(&options)).unwrap();
            for pair in offsets.windows(2) {
                assert!(pair[0] < pair[1]);
            }
            for offset in offsets {
                assert!(offset < content.len());
            }
        }
    }
}

fn folded(text: &str, ignore_case: bool) -> Vec<u8> {
    if ignore_case {
        text.as_bytes().to_ascii_lowercase()
    } else {
        text.as_bytes().to_vec()
    }
}

fn plain_or_end(text: &[u8], at: isize) -> bool {
    at < 0 || at as usize >= text.len() || text[at as usize] < 0x80
}

fn edge_told(text: &[u8], at: usize) -> bool {
    plain_or_end(text, at as isize - 1) && plain_or_end(text, at as isize)
}

fn stands_at(text: &[u8], needle: &[u8], at: usize) -> bool {
    at + needle.len() <= text.len() && text[at..at + needle.len()] == needle[..]
}

fn plain_run(text: &[u8], at: usize, length: usize) -> bool {
    at + length <= text.len() && text[at..at + length].iter().all(|byte| *byte < 0x80)
}

/// Holds the offsets of a search to what the bytes tell of each match.
fn hold_to_the_bytes(content: &str, query: &str, whole_words: bool, ignore_case: bool) {
    let options = Options::new(ignore_case, whole_words);
    let offsets = find_matches(content, query, Some(&options)).unwrap();
    let text = folded(content, ignore_case);
    let needle = folded(query, ignore_case);
    let told = format!(
        "content {:?}, query {:?}, whole words {}, ignoring case {}, offsets {:?}",
        content, query, whole_words, ignore_case, offsets
    );

    for pair in offsets.windows(2) {
        assert!(pair[0] + needle.len() <= pair[1], "{}", told);
    }
    for offset in &offsets {
        let at = *offset;
        assert!(at + needle.len() <= text.len(), "{}", told);
        let sized = !ignore_case || plain_run(&text, at, needle.len());
        if sized {
            assert!(stands_at(&text, &needle, at), "{}", told);
        }
        if whole_words && edge_told(&text, at) {
            assert!(at_boundary(&text, at), "{}", told);
        }
        if whole_words && sized && edge_told(&text, at + needle.len()) {
            assert!(at_boundary(&text, at + needle.len()), "{}", told);
        }
    }
    let spans: Vec<(usize, usize)> = regex::RegexBuilder::new(&build_pattern(query, whole_words))
        .case_insensitive(ignore_case)
        .build()
        .unwrap()
        .find_iter(content)
        .map(|found| (found.start(), found.end()))
        .collect();
    for span in &spans {
        assert!(span.0 + needle.len() <= span.1, "{}, span {:?}", told, span);
        if !ignore_case || plain_run(&text, span.0, needle.len()) {
            assert_eq!(span.1, span.0 + needle.len(), "{}, span {:?}", told, span);
            assert!(stands_at(&text, &needle, span.0), "{}, span {:?}", told, span);
        }
        if whole_words && edge_told(&text, span.0) {
            assert!(at_boundary(&text, span.0), "{}, span {:?}", told, span);
        }
        if whole_words && edge_told(&text, span.1) {
            assert!(at_boundary(&text, span.1), "{}, span {:?}", told, span);
        }
    }
    for at in 0..text.len() {
        let end = at + needle.len();
        let matches = stands_at(&text, &needle, at)
            && (!whole_words || (at_boundary(&text, at) && at_boundary(&text, end)));
        let is_told = !whole_words || (edge_told(&text, at) && edge_told(&text, end));
        if matches && is_told {
            assert!(
                spans.iter().any(|span| span.0 <= at && at < span.1),
                "{}, outside the spans {}",
                told,
                at
            );
            assert!(
                offsets.iter().any(|offset| {
                    let sized = !ignore_case || plain_run(&text, *offset, needle.len());
                    *offset <= at && (!sized || at < *offset + needle.len())
                }),
                "{}, not reached {}",
                told,
                at
            );
        }
    }
    if !ignore_case || (content.is_ascii() && query.is_ascii()) {
        for at in 0..text.len() {
            let end = at + needle.len();
            let matches = stands_at(&text, &needle, at)
                && (!whole_words || (at_boundary(&text, at) && at_boundary(&text, end)));
            let is_told = !whole_words || (edge_told(&text, at) && edge_told(&text, end));
            if matches && is_told {
                assert!(
                    offsets.iter().any(|offset| *offset <= at && at < *offset + needle.len()),
                    "{}, passed over {}",
                    told,
                    at
                );
            }
        }
        let every_occurrence_told = (0..text.len()).all(|at| {
            !stands_at(&text, &needle, at)
                || !whole_words
                || (edge_told(&text, at) && edge_told(&text, at + needle.len()))
        });
        if every_occurrence_told {
            assert_eq!(offsets, scan(content, query, whole_words, ignore_case), "{}", told);
        }
    }
}

const MIXED: [char; 12] = [
    'a', 'k', 's', 'S', 'K', ' ', '_', '-', '\u{e9}', '\u{2014}', '\u{17f}', '\u{212a}',
];

#[test]
fn test_find_matches_are_sound_where_letter_case_counts() {
    let mut state = 11;
    for _ in 0..2000 {
        let content = text_of(&mut state, &MIXED, 24);
        let mut query = text_of(&mut state, &MIXED, 3);
        if query.is_empty() {
            query.push('s');
        }
        hold_to_the_bytes(&content, &query, false, false);
        hold_to_the_bytes(&content, &query, true, false);
    }
}

#[test]
fn test_find_matches_of_an_ascii_query_are_sound_where_letter_case_is_ignored() {
    let plain = ['a', 'k', 's', 'S', 'K', '-', '_'];
    let mut state = 12;
    for _ in 0..2000 {
        let content = text_of(&mut state, &MIXED, 24);
        let mut query = text_of(&mut state, &plain, 3);
        if query.is_empty() {
            query.push('k');
        }
        hold_to_the_bytes(&content, &query, false, true);
        hold_to_the_bytes(&content, &query, true, true);
    }
}

#[test]
fn test_find_matches_are_sound_in_ascii() {
    let plain = ['a', 'A', 'k', 'K', ' ', '_', '-', '9'];
    let mut state = 13;
    for _ in 0..1500 {
        let content = text_of(&mut state, &plain, 24);
        let mut query = text_of(&mut state, &plain, 3);
        if query.is_empty() {
            query.push('a');
        }
        for (whole_words, ignore_case) in ALL_MODES {
            hold_to_the_bytes(&content, &query, whole_words, ignore_case);
        }
    }
}

#[test]
fn test_find_matches_of_a_whole_word_beside_letters_beyond_ascii() {
    let words = Options::new(false, true);

    assert_eq!(find_matches("\u{e9}is is is\u{e9} is", "is", Some(&words)), Ok(vec![5, 13]));
    assert_eq!(find_matches("\u{2014}is\u{2014} is", "is", Some(&words)), Ok(vec![3, 9]));
}

#[test]
fn test_find_matches_ignoring_case_of_signs_that_fold_to_letters() {
    let fold = Options::new(true, false);

    assert_eq!(find_matches("k K \u{212a}", "K", Some(&fold)), Ok(vec![0, 2, 4]));
    assert_eq!(find_matches("\u{17f}ss", "ss", Some(&fold)), Ok(vec![0]));
    assert_eq!(find_matches("s", "\u{17f}", Some(&fold)), Ok(vec![0]));
}
