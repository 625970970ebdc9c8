//! The result of comparing one pair of entries.

use vstd::prelude::*;

use crate::decimal::{decimal, decimal_string};

verus! {

/// Mathematical model of a [`FileDiff`].
pub enum Outcome {
    Equal,
    Different(nat),
    LeftOnly,
    RightOnly,
    Failed(Seq<char>),
}

/// How one entry of the left side relates to its counterpart on the right.
#[derive(Debug, PartialEq, Eq)]
pub enum FileDiff {
    /// Both sides hold the same bytes.
    Equal,
    /// The sides differ; the payload is the zero-based offset of the first
    /// byte at which they stop agreeing.
    Different(usize),
    /// The entry exists on the left side only.
    LeftOnly,
    /// The entry exists on the right side only.
    RightOnly,
    /// The comparison could not be carried out; the payload is the reason.
    Failed(String),
}

impl View for FileDiff {
    type V = Outcome;

    open spec fn view(&self) -> Outcome {
        match self {
            FileDiff::Equal => Outcome::Equal,
            FileDiff::Different(offset) => Outcome::Different(*offset as nat),
            FileDiff::LeftOnly => Outcome::LeftOnly,
            FileDiff::RightOnly => Outcome::RightOnly,
            FileDiff::Failed(message) => Outcome::Failed(message@),
        }
    }
}

/// The short human-readable label of an outcome.
pub open spec fn label_of(outcome: Outcome) -> Seq<char> {
    match outcome {
        Outcome::Equal => "equal"@,
        Outcome::Different(_) => "diff"@,
        Outcome::LeftOnly => "left only"@,
        Outcome::RightOnly => "right only"@,
        Outcome::Failed(_) => "failed"@,
    }
}

/// The numeral under which an outcome is reported to programs: the offset
/// itself where the sides differ, and a negative code for everything else.
pub open spec fn number_of(outcome: Outcome) -> Seq<char> {
    match outcome {
        Outcome::Equal => "-1"@,
        Outcome::Different(offset) => decimal(offset),
        Outcome::LeftOnly => "-2"@,
        Outcome::RightOnly => "-3"@,
        Outcome::Failed(_) => "-4"@,
    }
}

impl FileDiff {
    /// The outcome as a number for programs to read: the offset for
    /// `Different`, `-1` for `Equal`, `-2` for `LeftOnly`, `-3` for
    /// `RightOnly` and `-4` for `Failed`.
    pub fn as_number(&self) -> (text: String)
        ensures
            text@ == number_of(self@),
    {
        match self {
            FileDiff::Equal => "-1".to_owned(),
            FileDiff::Different(offset) => decimal_string(*offset),
            FileDiff::LeftOnly => "-2".to_owned(),
            FileDiff::RightOnly => "-3".to_owned(),
            FileDiff::Failed(_) => "-4".to_owned(),
        }
    }

    /// A short label for people: `equal`, `diff`, `left only`, `right only`
    /// or `failed`.
    pub fn as_desc(&self) -> (label: &'static str)
        ensures
            label@ == label_of(self@),
    {
        match self {
            FileDiff::Equal => "equal",
            FileDiff::Different(_) => "diff",
            FileDiff::LeftOnly => "left only",
            FileDiff::RightOnly => "right only",
            FileDiff::Failed(_) => "failed",
        }
    }
}

} // verus!
