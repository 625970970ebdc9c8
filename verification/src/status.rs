//! The signal with which a run ends: whether everything was equal, whether
//! differences were found, or whether something could not be compared.

use vstd::prelude::*;

use crate::outcome::{FileDiff, Outcome};
use crate::tree::entries_view;

verus! {

/// Every entry was equal to its counterpart.
pub const ALL_EQUAL: u8 = 0;

/// At least one entry differs from its counterpart or has none.
pub const DIFFERENCES: u8 = 1;

/// At least one comparison could not be carried out.
pub const FAILURE: u8 = 2;

/// The signal for a single outcome.
pub open spec fn status_of(outcome: Outcome) -> u8 {
    match outcome {
        Outcome::Equal => ALL_EQUAL,
        Outcome::Failed(_) => FAILURE,
        _ => DIFFERENCES,
    }
}

/// The signal for a collection of reported entries: a failure anywhere
/// outweighs differences, and differences outweigh equality.
pub open spec fn overall_status_of(entries: Seq<(Seq<char>, Outcome)>) -> u8 {
    if exists|i: int| 0 <= i < entries.len() && status_of(#[trigger] entries[i].1) == FAILURE {
        FAILURE
    } else if exists|i: int|
        0 <= i < entries.len() && status_of(#[trigger] entries[i].1) == DIFFERENCES {
        DIFFERENCES
    } else {
        ALL_EQUAL
    }
}

/// The signal for a single outcome: `ALL_EQUAL` for `Equal`, `FAILURE` for
/// `Failed`, and `DIFFERENCES` for the rest.
pub fn status(diff: &FileDiff) -> (signal: u8)
    ensures
        signal == status_of(diff@),
{
    match diff {
        FileDiff::Equal => ALL_EQUAL,
        FileDiff::Failed(_) => FAILURE,
        _ => DIFFERENCES,
    }
}

/// The signal for all the entries that a comparison of two trees reported.
pub fn overall_status(entries: &Vec<(String, FileDiff)>) -> (signal: u8)
    ensures
        signal == overall_status_of(entries_view(entries@)),
{
    let ghost outcomes = entries_view(entries@);
    let mut failed = false;
    let mut differs = false;
    let mut k: usize = 0;
    while k < entries.len()
        invariant
            k <= entries.len(),
            outcomes == entries_view(entries@),
            failed <==> exists|i: int| 0 <= i < k && status_of(#[trigger] outcomes[i].1) == FAILURE,
            differs <==> exists|i: int|
                0 <= i < k && status_of(#[trigger] outcomes[i].1) == DIFFERENCES,
        decreases entries.len() - k,
    {
        let signal = status(&entries[k].1);
        assert(signal == status_of(outcomes[k as int].1));
        if signal == FAILURE {
            failed = true;
        } else if signal == DIFFERENCES {
            differs = true;
        }
        k += 1;
    }
    if failed {
        FAILURE
    } else if differs {
        DIFFERENCES
    } else {
        ALL_EQUAL
    }
}

} // verus!
