//! Comparison of two byte streams that are read chunk by chunk.
//!
//! A caller that reads from files first asks [`compare_lengths`] whether the
//! lengths alone settle the matter. If they do not, it creates a
//! [`ChunkedComparator`] and hands it one chunk of each stream at a time,
//! taken at the same position and asked for with the same size, until
//! [`ChunkedComparator::step`] returns a decision. [`compare_files`] does the
//! same on two streams that are held in memory.

use vstd::prelude::*;
use vstd::slice::slice_subrange;

use crate::divergence::{
    agree_before, comparison, diverge_at, first_divergence, lemma_divergence_is_first,
    lemma_equal_iff_no_divergence, lemma_first_divergence,
};
use crate::outcome::{FileDiff, Outcome};

verus! {

/// The model of a decision that may still be open.
pub open spec fn decision_view(decision: Option<FileDiff>) -> Option<Outcome> {
    match decision {
        Some(diff) => Some(diff@),
        None => None,
    }
}

/// What the lengths of two streams settle before a byte is read: an empty
/// stream equals only another empty one, and quick mode takes two different
/// lengths as a difference without looking further.
pub open spec fn decided_by_lengths(len_a: nat, len_b: nat, quick: bool) -> Option<Outcome> {
    if len_a == 0 || len_b == 0 {
        if len_a == len_b {
            Some(Outcome::Equal)
        } else {
            Some(Outcome::Different(0))
        }
    } else if quick && len_a != len_b {
        Some(Outcome::Different(0))
    } else {
        None
    }
}

/// What one pair of chunks settles, read after `consumed` bytes of both
/// streams were found equal. Two empty chunks end the streams without a
/// difference. Two equal chunks settle nothing. Otherwise the streams differ
/// at the point where the chunks diverge, which quick mode reports as zero.
pub open spec fn decided_by_chunks(
    consumed: nat,
    quick: bool,
    chunk_a: Seq<u8>,
    chunk_b: Seq<u8>,
) -> Option<Outcome> {
    if chunk_a.len() == 0 && chunk_b.len() == 0 {
        Some(Outcome::Equal)
    } else if chunk_a == chunk_b {
        None
    } else if quick {
        Some(Outcome::Different(0))
    } else {
        Some(Outcome::Different(consumed + first_divergence(chunk_a, chunk_b)))
    }
}

/// The chunk that a read of up to `size` bytes at position `pos` yields from
/// a stream that holds `data`: as many bytes as are asked for, or all that
/// are left.
pub open spec fn chunk_at(data: Seq<u8>, pos: nat, size: nat) -> Seq<u8> {
    if pos >= data.len() {
        Seq::empty()
    } else if pos + size >= data.len() {
        data.subrange(pos as int, data.len() as int)
    } else {
        data.subrange(pos as int, (pos + size) as int)
    }
}

/// The decision of the chunk-by-chunk comparison of `a` and `b` once both
/// have been consumed up to `pos`.
pub open spec fn chunked_from(a: Seq<u8>, b: Seq<u8>, quick: bool, size: nat, pos: nat) -> Outcome
    decreases a.len() - pos,
{
    let chunk_a = chunk_at(a, pos, size);
    let chunk_b = chunk_at(b, pos, size);
    match decided_by_chunks(pos, quick, chunk_a, chunk_b) {
        Some(outcome) => outcome,
        None => chunked_from(a, b, quick, size, pos + chunk_a.len()),
    }
}

/// The decision of the whole procedure on streams `a` and `b` with chunks of
/// `size` bytes: the lengths first, then chunk after chunk.
pub open spec fn chunked_comparison(a: Seq<u8>, b: Seq<u8>, quick: bool, size: nat) -> Outcome {
    match decided_by_lengths(a.len(), b.len(), quick) {
        Some(outcome) => outcome,
        None => chunked_from(a, b, quick, size, 0),
    }
}

/// Decides from the lengths of two streams alone, where that is possible.
/// A result of `None` means that the streams have to be read.
pub fn compare_lengths(len_a: u64, len_b: u64, quick: bool) -> (decision: Option<FileDiff>)
    ensures
        decision_view(decision) == decided_by_lengths(len_a as nat, len_b as nat, quick),
{
    if len_a == 0 || len_b == 0 {
        if len_a == len_b {
            Some(FileDiff::Equal)
        } else {
            Some(FileDiff::Different(0))
        }
    } else if quick && len_a != len_b {
        Some(FileDiff::Different(0))
    } else {
        None
    }
}

/// The point of divergence of two chunks.
fn divergence_index(chunk_a: &[u8], chunk_b: &[u8]) -> (k: usize)
    ensures
        k == first_divergence(chunk_a@, chunk_b@),
{
    let mut k: usize = 0;
    while k < chunk_a.len() && k < chunk_b.len() && chunk_a[k] == chunk_b[k]
        invariant
            agree_before(chunk_a@, chunk_b@, k as nat),
        decreases chunk_a@.len() - k,
    {
        k += 1;
    }
    proof {
        lemma_divergence_is_first(chunk_a@, chunk_b@, k as nat);
    }
    k
}

/// The state of a comparison between two reads: how many bytes of both
/// streams have been found equal so far, and whether quick mode is on.
pub struct ChunkedComparator {
    consumed: usize,
    quick: bool,
}

impl ChunkedComparator {
    /// The number of bytes of each stream that were compared and found equal.
    pub closed spec fn position(&self) -> nat {
        self.consumed as nat
    }

    /// Whether the comparison runs in quick mode.
    pub closed spec fn is_quick(&self) -> bool {
        self.quick
    }

    /// A comparison that has consumed nothing yet.
    pub fn new(quick: bool) -> (state: Self)
        ensures
            state.position() == 0,
            state.is_quick() == quick,
    {
        ChunkedComparator { consumed: 0, quick }
    }

    /// The position in both streams at which the next chunks are to be read.
    pub fn consumed(&self) -> (n: usize)
        ensures
            n == self.position(),
    {
        self.consumed
    }

    /// Whether the comparison runs in quick mode.
    pub fn quick(&self) -> (quick: bool)
        ensures
            quick == self.is_quick(),
    {
        self.quick
    }

    /// Takes the next chunk of each stream. Returns the decision if the two
    /// chunks settle it. Otherwise the chunks were equal and not empty, the
    /// position moves past them, and the next pair of chunks is due.
    pub fn step(&mut self, chunk_a: &[u8], chunk_b: &[u8]) -> (decision: Option<FileDiff>)
        requires
            old(self).position() + chunk_a@.len() <= usize::MAX,
        ensures
            decision_view(decision) == decided_by_chunks(
                old(self).position(),
                old(self).is_quick(),
                chunk_a@,
                chunk_b@,
            ),
            final(self).is_quick() == old(self).is_quick(),
            decision is Some ==> final(self).position() == old(self).position(),
            decision is None ==> final(self).position() == old(self).position() + chunk_a@.len(),
    {
        if chunk_a.len() == 0 && chunk_b.len() == 0 {
            return Some(FileDiff::Equal);
        }
        let k = divergence_index(chunk_a, chunk_b);
        proof {
            lemma_equal_iff_no_divergence(chunk_a@, chunk_b@);
            lemma_first_divergence(chunk_a@, chunk_b@);
        }
        if k == chunk_a.len() && k == chunk_b.len() {
            self.consumed = self.consumed + k;
            None
        } else if self.quick {
            Some(FileDiff::Different(0))
        } else {
            Some(FileDiff::Different(self.consumed + k))
        }
    }
}

/// The chunk of up to `size` bytes that starts at `pos`.
fn window(data: &[u8], pos: usize, size: usize) -> (chunk: &[u8])
    ensures
        chunk@ == chunk_at(data@, pos as nat, size as nat),
{
    if pos >= data.len() {
        slice_subrange(data, 0, 0)
    } else if size >= data.len() - pos {
        slice_subrange(data, pos, data.len())
    } else {
        slice_subrange(data, pos, pos + size)
    }
}

/// Reading chunk after chunk from a position up to which the streams agree
/// gives the decision that a comparison of the whole streams must give.
pub proof fn lemma_chunked_from(a: Seq<u8>, b: Seq<u8>, quick: bool, size: nat, pos: nat)
    requires
        size > 0,
        agree_before(a, b, pos),
    ensures
        chunked_from(a, b, quick, size, pos) == comparison(a, b, quick),
    decreases a.len() - pos,
{
    let chunk_a = chunk_at(a, pos, size);
    let chunk_b = chunk_at(b, pos, size);
    if chunk_a.len() == 0 && chunk_b.len() == 0 {
        assert(a =~= b);
    } else if chunk_a == chunk_b {
        let next = pos + chunk_a.len();
        assert forall|i: int| 0 <= i < next implies a[i] == b[i] by {
            if i >= pos {
                assert(a[i] == chunk_a[i - pos]);
                assert(b[i] == chunk_b[i - pos]);
            }
        }
        lemma_chunked_from(a, b, quick, size, next);
    } else {
        if a == b {
            assert(chunk_a =~= chunk_b);
        }
        let d = first_divergence(chunk_a, chunk_b);
        lemma_first_divergence(chunk_a, chunk_b);
        assert forall|i: int| 0 <= i < pos + d implies a[i] == b[i] by {
            if i >= pos {
                assert(chunk_a[i - pos] == chunk_b[i - pos]);
                assert(a[i] == chunk_a[i - pos]);
                assert(b[i] == chunk_b[i - pos]);
            }
        }
        if d < chunk_a.len() && d < chunk_b.len() {
            assert(a[(pos + d) as int] == chunk_a[d as int]);
            assert(b[(pos + d) as int] == chunk_b[d as int]);
        } else {
            lemma_equal_iff_no_divergence(chunk_a, chunk_b);
        }
        assert(diverge_at(a, b, pos + d));
        lemma_divergence_is_first(a, b, pos + d);
    }
}

/// Whatever the size of the chunks, the chunk-by-chunk procedure reports
/// what a comparison of the whole streams must report.
pub proof fn lemma_chunked_comparison(a: Seq<u8>, b: Seq<u8>, quick: bool, size: nat)
    requires
        size > 0,
    ensures
        chunked_comparison(a, b, quick, size) == comparison(a, b, quick),
{
    match decided_by_lengths(a.len(), b.len(), quick) {
        Some(_) => {
            if a.len() == 0 && b.len() == 0 {
                assert(a =~= b);
            } else if a.len() == 0 || b.len() == 0 {
                lemma_first_divergence(a, b);
            }
        },
        None => {
            lemma_chunked_from(a, b, quick, size, 0);
        },
    }
}

/// Compares two streams held in memory, reading both in chunks of
/// `chunk_size` bytes. The result is `Equal` where they hold the same bytes,
/// and otherwise `Different` with the offset of the first difference (with
/// zero in quick mode), whatever the chunk size.
pub fn compare_files(a: &[u8], b: &[u8], quick: bool, chunk_size: usize) -> (diff: FileDiff)
    requires
        chunk_size > 0,
    ensures
        diff@ == comparison(a@, b@, quick),
        diff@ == chunked_comparison(a@, b@, quick, chunk_size as nat),
{
    proof {
        lemma_chunked_comparison(a@, b@, quick, chunk_size as nat);
    }
    match compare_lengths(a.len() as u64, b.len() as u64, quick) {
        Some(diff) => {
            return diff;
        },
        None => {},
    }
    let mut state = ChunkedComparator::new(quick);
    assert(a@.len() == a.len());
    loop
        invariant
            chunk_size > 0,
            state.is_quick() == quick,
            state.position() <= a@.len() <= usize::MAX,
            comparison(a@, b@, quick) == chunked_comparison(a@, b@, quick, chunk_size as nat),
            chunked_from(a@, b@, quick, chunk_size as nat, state.position()) == comparison(
                a@,
                b@,
                quick,
            ),
        decreases a@.len() - state.position(),
    {
        let chunk_a = window(a, state.consumed(), chunk_size);
        let chunk_b = window(b, state.consumed(), chunk_size);
        assert(state.position() + chunk_a@.len() <= a@.len());
        match state.step(chunk_a, chunk_b) {
            Some(diff) => {
                return diff;
            },
            None => {},
        }
    }
}

} // verus!
