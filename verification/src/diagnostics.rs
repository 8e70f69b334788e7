//! The furthest-progress error tracker.
//!
//! At most one "best" diagnostic candidate is kept per parse attempt.
//! Candidates are merged by comparing match-end offsets: the candidate
//! whose range ends later wins, and on a tie the one recorded earlier is
//! kept. The policy is the same whether the enclosing rule succeeds or
//! fails, so even a successful parse can surface the deepest point an
//! abandoned alternative reached.

use vstd::prelude::*;
use crate::parse_error::ParseError;
use crate::range::Range;

verus! {

/// Picks the better of a new error and an optional previously recorded
/// one: the candidate whose range ends further into the input wins, and
/// the previously recorded one wins ties.
///
/// Given two candidates whose ranges end at offsets `a < b`, the result is
/// always the candidate ending at `b`.
pub fn ret_err(err: (Range, ParseError), opt_error: Option<(Range, ParseError)>) -> (r: (
    Range,
    ParseError,
))
    requires
        err.0.end() <= usize::MAX,
        opt_error matches Some(e) ==> e.0.end() <= usize::MAX,
    ensures
        r == match opt_error {
            Some(e) => if e.0.end() >= err.0.end() {
                e
            } else {
                err
            },
            None => err,
        },
{
    match opt_error {
        Some(opt_err) => {
            if opt_err.0.next_offset() >= err.0.next_offset() {
                opt_err
            } else {
                err
            }
        }
        None => err,
    }
}

/// Merges a new optional candidate into the recorded one: the candidate
/// whose range ends further into the input is kept, and the recorded one
/// wins ties.
///
/// Given two candidates whose ranges end at offsets `a < b`, the kept
/// candidate is always the one ending at `b`.
pub fn err_update(
    err: Option<(Range, ParseError)>,
    opt_error: &mut Option<(Range, ParseError)>,
)
    requires
        err matches Some(e) ==> e.0.end() <= usize::MAX,
        (*old(opt_error)) matches Some(e) ==> e.0.end() <= usize::MAX,
    ensures
        *final(opt_error) == match (err, *old(opt_error)) {
            (Some(new), Some(prev)) => if new.0.end() > prev.0.end() {
                Some(new)
            } else {
                Some(prev)
            },
            (Some(new), None) => Some(new),
            (None, prev) => prev,
        },
{
    match err {
        Some(new) => {
            let replace: bool = match opt_error {
                Some(prev) => new.0.next_offset() > prev.0.next_offset(),
                None => true,
            };
            if replace {
                *opt_error = Some(new);
            }
        }
        None => {}
    }
}

} // verus!
