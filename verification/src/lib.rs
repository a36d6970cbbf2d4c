//! Incremental-search selector for recalling shell commands.
//!
//! The crate models the interactive session that turns keystrokes into edits
//! of a query string, keeps a ranked candidate list with a scrollable
//! viewport over it, and accounts for exactly how many terminal rows the
//! previous frame occupied so the next clear removes precisely what was
//! drawn.  Terminal I/O and the on-disk search index are external
//! collaborators; the decisions they carry out are verified here.

pub mod config;
pub mod editor;
pub mod frame;
pub mod keys;
pub mod matching;
pub mod ranking;
pub mod record;
pub mod render;
pub mod selector;

use vstd::prelude::*;

verus! {

/// Number of candidate rows visible at once, derived from the terminal row
/// count and an optional configured cap.  Two rows are reserved for the
/// prompt, and at least one candidate row is always kept so a selection can
/// stay visible.
pub open spec fn spec_visible_rows(term_rows: usize, max_length: Option<usize>) -> int {
    let from_term = if term_rows >= 3 {
        term_rows - 2
    } else {
        1int
    };
    match max_length {
        Some(cap) => if cap < 1 {
            1int
        } else if cap <= from_term {
            cap as int
        } else {
            from_term
        },
        None => from_term,
    }
}

/// Executable mirror of [`spec_visible_rows`].
pub fn visible_rows(term_rows: usize, max_length: Option<usize>) -> (r: usize)
    ensures
        r as int == spec_visible_rows(term_rows, max_length),
        r >= 1,
{
    let from_term: usize = if term_rows >= 3 { term_rows - 2 } else { 1 };
    match max_length {
        Some(cap) => {
            if cap < 1 {
                1
            } else if cap <= from_term {
                cap
            } else {
                from_term
            }
        },
        None => from_term,
    }
}

} // verus!
