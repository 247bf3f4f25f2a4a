//! The option flags that a search can be run with.

use vstd::prelude::*;

verus! {

/// The two independent flags of a search.
///
/// `case_sensitive` is the override of the default, case-sensitive matching:
/// when it is set the search ignores letter case. `exact_match` restricts the
/// search to occurrences of the query as a whole word.
#[derive(Debug, Clone, Copy, PartialEq, Eq, Structural)]
pub struct Options {
    pub case_sensitive: bool,
    pub exact_match: bool,
}

impl Options {
    /// Initializes a new Options.
    pub fn new(case_sensitive: bool, exact_match: bool) -> (options: Options)
        ensures
            options == (Options { case_sensitive, exact_match }),
    {
        Options { case_sensitive: case_sensitive, exact_match: exact_match }
    }

    /// Sets or clears the override of case-sensitive matching.
    pub fn case_sensitive(&mut self, yes: bool)
        ensures
            *final(self) == (Options { case_sensitive: yes, exact_match: old(self).exact_match }),
    {
        self.case_sensitive = yes;
    }

    /// Sets or clears whole-word matching.
    pub fn exact_match(&mut self, yes: bool)
        ensures
            *final(self) == (Options { case_sensitive: old(self).case_sensitive, exact_match: yes }),
    {
        self.exact_match = yes;
    }

    /// Checks whether the query has to match as a whole word.
    pub fn is_exact_match(&self) -> (yes: bool)
        ensures
            yes == self.exact_match,
    {
        self.exact_match
    }

    /// Checks whether the override of case-sensitive matching is set, that is,
    /// whether the search ignores letter case.
    pub fn is_case_sensitive(&self) -> (yes: bool)
        ensures
            yes == self.case_sensitive,
    {
        self.case_sensitive
    }
}

/// Whether a search under `options` ignores letter case. A search without
/// options is case-sensitive.
pub open spec fn ignores_case(options: Option<Options>) -> bool {
    match options {
        Some(o) => o.case_sensitive,
        None => false,
    }
}

/// Whether a search under `options` matches whole words only. A search
/// without options matches substrings.
pub open spec fn whole_words(options: Option<Options>) -> bool {
    match options {
        Some(o) => o.exact_match,
        None => false,
    }
}

} // verus!
