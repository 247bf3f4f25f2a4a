use minigrep::options::Options;

#[test]
fn test_options_new() {
    let case_sensitive = true;
    let exact_match = false;
    let options = Options::new(case_sensitive, exact_match);

    assert_eq!(options.case_sensitive, case_sensitive);
    assert_eq!(options.exact_match, exact_match);
}

#[test]
fn test_options_case_sensitive() {
    let mut options = Options {
        case_sensitive: false,
        exact_match: false,
    };
    options.case_sensitive(true);

    assert_eq!(options.case_sensitive, true);
    assert_eq!(options.exact_match, false);
}

#[test]
fn test_options_exact_match() {
    let mut options = Options {
        case_sensitive: false,
        exact_match: false,
    };
    options.exact_match(true);

    assert_eq!(options.exact_match, true);
    assert_eq!(options.case_sensitive, false);
}

#[test]
fn test_options_is_case_sensitive() {
    let options = Options {
        case_sensitive: false,
        exact_match: true,
    };

    assert_eq!(options.is_case_sensitive(), false);
}

#[test]
fn test_options_is_exact_match() {
    let options = Options {
        case_sensitive: true,
        exact_match: false,
    };

    assert_eq!(options.is_exact_match(), false);
}

#[test]
fn test_new() {
    let case_sensitive = true;
    let exact_match = false;

    let options = Options::new(case_sensitive, exact_match);

    assert_eq!(options.case_sensitive, case_sensitive);
    assert_eq!(options.exact_match, exact_match);
}

#[test]
fn test_case_sensitive() {
    let mut options = Options {
        case_sensitive: false,
        exact_match: false,
    };

    options.case_sensitive(true);

    assert_eq!(options.case_sensitive, true);
    assert_eq!(options.exact_match, false);
}

#[test]
fn test_exact_match() {
    let mut options = Options {
        case_sensitive: false,
        exact_match: false,
    };

    options.exact_match(true);

    assert_eq!(options.exact_match, true);
    assert_eq!(options.case_sensitive, false);
}

#[test]
fn options_test_options_is_case_sensitive() {
    let options = Options {
        case_sensitive: false,
        exact_match: true,
    };

    assert_eq!(options.is_case_sensitive(), false);
}

#[test]
fn options_test_options_is_exact_match() {
    let options = Options {
        case_sensitive: true,
        exact_match: false,
    };

    assert_eq!(options.is_exact_match(), false);
}

#[test]
fn test_options_getters_follow_the_setters() {
    let mut options = Options::new(false, false);
    assert!(!options.is_case_sensitive());
    assert!(!options.is_exact_match());

    options.exact_match(true);
    assert!(options.is_exact_match());
    assert!(!options.is_case_sensitive());

    options.case_sensitive(true);
    options.exact_match(false);
    assert!(options.is_case_sensitive());
    assert!(!options.is_exact_match());
}

#[test]
fn test_options_are_equal_by_their_flags() {
    assert_eq!(Options::new(true, false), Options::new(true, false));
    assert_ne!(Options::new(true, false), Options::new(false, true));
    assert_ne!(Options::new(true, true), Options::new(true, false));
}
