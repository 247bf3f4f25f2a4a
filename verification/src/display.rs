//! The runs into which the matches part a content for display: what lies
//! between the matches, and the matches themselves.

use crate::occurrences::runs_apart;
use vstd::prelude::*;

verus! {

/// A run of bytes of the content, from `start` up to `end`, that is shown
/// highlighted or plain.
#[derive(Debug, Clone, Copy, PartialEq, Eq, Structural)]
pub struct Run {
    pub start: usize,
    pub end: usize,
    pub highlighted: bool,
}

/// Whether the runs of `width` bytes that start at the offsets lie in a
/// content of `length` bytes, one behind the other.
pub open spec fn runs_fit(length: nat, offsets: Seq<usize>, width: nat) -> bool {
    &&& runs_apart(offsets, width)
    &&& forall|i: int| 0 <= i < offsets.len() ==> #[trigger] offsets[i] + width <= length
}

/// Where the plain run before the match `i` starts: at the start of the
/// content, or at the end of the match before.
pub open spec fn plain_start(offsets: Seq<usize>, width: nat, i: int) -> int {
    if i == 0 {
        0
    } else {
        offsets[i - 1] + width
    }
}

/// Where the plain run before the match `i` ends: at the start of that
/// match, or at the end of the content behind the last match.
pub open spec fn plain_end(length: nat, offsets: Seq<usize>, i: int) -> int {
    if i < offsets.len() {
        offsets[i] as int
    } else {
        length as int
    }
}

/// The run at place `k` of the display: at the even places what stands
/// between the matches, at the odd places the matches.
pub open spec fn run_at(length: nat, offsets: Seq<usize>, width: nat, k: int) -> Run {
    if k % 2 == 0 {
        Run {
            start: plain_start(offsets, width, k / 2) as usize,
            end: plain_end(length, offsets, k / 2) as usize,
            highlighted: false,
        }
    } else {
        Run {
            start: offsets[k / 2],
            end: (offsets[k / 2] + width) as usize,
            highlighted: true,
        }
    }
}

/// The display of a content of `length` bytes in which a match of `width`
/// bytes starts at each of the offsets: the content from its start to its
/// end, in plain runs, of which some may be empty, that take turns with
/// the highlighted matches.
pub open spec fn display_of(length: nat, offsets: Seq<usize>, width: nat) -> Seq<Run> {
    Seq::new(2 * offsets.len() + 1, |k: int| run_at(length, offsets, width, k))
}

/// Parts a content of `length` bytes into the runs of its display, where a
/// match of `width` bytes starts at each of the offsets; nothing where the
/// matches do not lie in the content one behind the other.
pub fn display_runs(length: usize, offsets: &[usize], width: usize) -> (display: Option<Vec<Run>>)
    ensures
        match display {
            Some(runs) => runs_fit(length as nat, offsets@, width as nat) && runs@ == display_of(
                length as nat,
                offsets@,
                width as nat,
            ),
            None => !runs_fit(length as nat, offsets@, width as nat),
        },
{
    let mut runs: Vec<Run> = Vec::new();
    let mut start: usize = 0;
    for i in 0..offsets.len()
        invariant
            start == plain_start(offsets@, width as nat, i as int),
            start <= length,
            runs_fit(length as nat, offsets@.take(i as int), width as nat),
            runs@.len() == 2 * i,
            forall|k: int|
                0 <= k < 2 * i ==> #[trigger] runs@[k] == run_at(
                    length as nat,
                    offsets@,
                    width as nat,
                    k,
                ),
    {
        let offset = offsets[i];
        if offset < start || offset > length || width > length - offset {
            proof {
                if runs_fit(length as nat, offsets@, width as nat) {
                    assert(offsets@[i as int] + width <= length);
                    if i > 0 {
                        assert(offsets@[i - 1] + width <= offsets@[i as int]);
                    }
                }
            }
            return None;
        }
        proof {
            let seen = offsets@.take(i as int);
            let next = offsets@.take(i + 1);
            assert forall|a: int, b: int| 0 <= a < b < next.len() implies next[a] + width
                <= next[b] by {
                if b < i {
                    assert(seen[a] + width <= seen[b]);
                } else if a < i - 1 {
                    assert(seen[a] + width <= seen[i - 1]);
                }
            }
        }
        runs.push(Run { start, end: offset, highlighted: false });
        runs.push(Run { start: offset, end: offset + width, highlighted: true });
        start = offset + width;
    }
    runs.push(Run { start, end: length, highlighted: false });
    proof {
        assert(offsets@.take(offsets@.len() as int) =~= offsets@);
        assert(runs@ =~= display_of(length as nat, offsets@, width as nat));
    }
    Some(runs)
}

} // verus!
