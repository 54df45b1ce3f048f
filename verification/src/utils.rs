//! The substring-slicing helper the client exposes for ad hoc markup
//! surgery.

use vstd::prelude::*;

verus! {

use vstd::string::StrSliceExecFns;

use crate::text::{
    find_sub, first_occurrence, has_sub, last_occurrence, lemma_first_occurrence_unique,
    lemma_last_occurrence_unique, rfind_sub, substr,
};

/// What [`find_substring`] returns: the piece of `s` between the first
/// occurrence of `start` and the chosen occurrence of `end` after it.
pub open spec fn find_substring_spec(
    s: Seq<char>,
    start: Seq<char>,
    with_start: bool,
    end: Seq<char>,
    with_end: bool,
    extend: bool,
) -> Option<Seq<char>> {
    if has_sub(s, start) {
        let f1 = choose|i: int| first_occurrence(s, start, i);
        let cut = if with_start {
            f1
        } else {
            f1 + start.len()
        };
        let s2 = s.subrange(cut, s.len() as int);
        if has_sub(s2, end) {
            let f2 = if extend {
                choose|i: int| last_occurrence(s2, end, i)
            } else {
                choose|i: int| first_occurrence(s2, end, i)
            };
            Some(s2.subrange(0, if with_end { f2 + end.len() } else { f2 }))
        } else {
            None
        }
    } else {
        None
    }
}

/// Returns the piece of `s` between `start` and `end`.
///
/// `with_start` and `with_end` say whether the `start` and `end` pieces
/// themselves belong to the result.  With `extend` the `end` piece is
/// looked up from the end of the string rather than from the beginning.
pub fn find_substring(
    s: &str,
    start: &str,
    with_start: bool,
    end: &str,
    with_end: bool,
    extend: bool,
) -> (r: Option<String>)
    ensures
        match r {
            Some(t) => find_substring_spec(s@, start@, with_start, end@, with_end, extend)
                == Some(t@),
            None => find_substring_spec(s@, start@, with_start, end@, with_end, extend) is None,
        },
{
    let n = s.unicode_len();
    let f1 = match find_sub(s, start) {
        None => {
            return None;
        },
        Some(i) => i,
    };
    proof {
        let w = choose|i: int| first_occurrence(s@, start@, i);
        lemma_first_occurrence_unique(s@, start@, w, f1 as int);
    }
    let cut = if with_start {
        f1
    } else {
        f1 + start.unicode_len()
    };
    let s2 = substr(s, cut, n);
    let f2 = if extend {
        match rfind_sub(s2, end) {
            None => {
                return None;
            },
            Some(i) => {
                proof {
                    let w = choose|i: int| last_occurrence(s2@, end@, i);
                    lemma_last_occurrence_unique(s2@, end@, w, i as int);
                }
                i
            },
        }
    } else {
        match find_sub(s2, end) {
            None => {
                return None;
            },
            Some(i) => {
                proof {
                    let w = choose|i: int| first_occurrence(s2@, end@, i);
                    lemma_first_occurrence_unique(s2@, end@, w, i as int);
                }
                i
            },
        }
    };
    let stop = if with_end {
        f2 + end.unicode_len()
    } else {
        f2
    };
    Some(substr(s2, 0, stop).to_owned())
}

} // verus!
