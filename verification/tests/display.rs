use minigrep::display::{display_runs, Run};
use minigrep::engine::find_matches;
use minigrep::options::Options;

fn plain(start: usize, end: usize) -> Run {
    Run { start, end, highlighted: false }
}

fn highlighted(start: usize, end: usize) -> Run {
    Run { start, end, highlighted: true }
}

#[test]
fn test_display_runs_of_the_matches() {
    assert_eq!(
        display_runs(19, &[2, 5], 2),
        Some(vec![
            plain(0, 2),
            highlighted(2, 4),
            plain(4, 5),
            highlighted(5, 7),
            plain(7, 19),
        ])
    );
}

#[test]
fn test_display_runs_without_matches() {
    assert_eq!(display_runs(19, &[], 2), Some(vec![plain(0, 19)]));
    assert_eq!(display_runs(0, &[], 0), Some(vec![plain(0, 0)]));
}

#[test]
fn test_display_runs_of_adjacent_matches() {
    assert_eq!(
        display_runs(4, &[0, 2], 2),
        Some(vec![
            plain(0, 0),
            highlighted(0, 2),
            plain(2, 2),
            highlighted(2, 4),
            plain(4, 4),
        ])
    );
}

#[test]
fn test_display_runs_that_overlap() {
    assert_eq!(display_runs(10, &[0, 1], 2), None);
    assert_eq!(display_runs(10, &[4, 4], 1), None);
    assert_eq!(display_runs(10, &[5, 2], 1), None);
}

#[test]
fn test_display_runs_that_leave_the_content() {
    assert_eq!(display_runs(10, &[9], 2), None);
    assert_eq!(display_runs(10, &[11], 0), None);
    assert_eq!(display_runs(10, &[2], usize::MAX), None);
    assert_eq!(display_runs(10, &[8], 2), Some(vec![plain(0, 8), highlighted(8, 10), plain(10, 10)]));
}

#[test]
fn test_display_runs_give_the_content_back() {
    let content = "This is test data.\n";
    let query = "is";
    let offsets = find_matches(content, query, None).unwrap();
    let runs = display_runs(content.len(), &offsets, query.len()).unwrap();

    let mut shown = String::new();
    for run in &runs {
        if run.highlighted {
            assert_eq!(&content[run.start..run.end], query);
        }
        shown.push_str(&content[run.start..run.end]);
    }
    assert_eq!(shown, content);
}

#[test]
fn test_display_runs_of_a_match_shorter_than_the_query() {
    let content = "s";
    let query = "\u{17f}";
    let offsets = find_matches(content, query, Some(&Options::new(true, false))).unwrap();

    assert_eq!(offsets, vec![0]);
    assert_eq!(query.len(), 2);
    assert_eq!(display_runs(content.len(), &offsets, query.len()), None);
}
