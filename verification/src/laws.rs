//! What holds of every comparison, of two streams and of two trees.

use vstd::prelude::*;

use crate::comparator::{chunked_comparison, decided_by_lengths, lemma_chunked_comparison};
use crate::divergence::{
    comparison, diverge_at, first_divergence, lemma_divergence_is_first, lemma_first_divergence,
};
use crate::outcome::Outcome;
use crate::tree::{
    child_path, plan_entry, plan_left, plan_level, plan_pair, plan_right, position_of, tree_diff,
    Entry, TaskView,
};

verus! {

/// A stream equals itself, in either mode and with any chunk size.
pub proof fn lemma_same_stream_is_equal(f: Seq<u8>, quick: bool, size: nat)
    requires
        size > 0,
    ensures
        comparison(f, f, quick) == Outcome::Equal,
        chunked_comparison(f, f, quick, size) == Outcome::Equal,
{
    lemma_chunked_comparison(f, f, quick, size);
}

/// Two chunk sizes give the same decision on the same pair of streams.
pub proof fn lemma_chunk_size_is_irrelevant(
    a: Seq<u8>,
    b: Seq<u8>,
    quick: bool,
    size1: nat,
    size2: nat,
)
    requires
        size1 > 0,
        size2 > 0,
    ensures
        chunked_comparison(a, b, quick, size1) == chunked_comparison(a, b, quick, size2),
{
    lemma_chunked_comparison(a, b, quick, size1);
    lemma_chunked_comparison(a, b, quick, size2);
}

/// Two empty streams are equal, and an empty stream differs from any other
/// at offset zero.
pub proof fn lemma_empty_streams(a: Seq<u8>, b: Seq<u8>, quick: bool, size: nat)
    requires
        size > 0,
        a.len() == 0 || b.len() == 0,
    ensures
        a.len() == b.len() ==> comparison(a, b, quick) == Outcome::Equal,
        a.len() != b.len() ==> comparison(a, b, quick) == Outcome::Different(0),
        chunked_comparison(a, b, quick, size) == comparison(a, b, quick),
{
    lemma_chunked_comparison(a, b, quick, size);
    if a.len() == b.len() {
        assert(a =~= b);
    } else {
        lemma_first_divergence(a, b);
    }
}

/// Two streams of one length that differ in the byte at `k` and nowhere else
/// differ at offset `k`, with any chunk size.
pub proof fn lemma_single_byte_change(a: Seq<u8>, b: Seq<u8>, k: nat, size: nat)
    requires
        size > 0,
        a.len() == b.len(),
        k < a.len(),
        a[k as int] != b[k as int],
        forall|i: int| 0 <= i < a.len() && i != k ==> a[i] == b[i],
    ensures
        comparison(a, b, false) == Outcome::Different(k),
        chunked_comparison(a, b, false, size) == Outcome::Different(k),
{
    lemma_chunked_comparison(a, b, false, size);
    assert(diverge_at(a, b, k));
    lemma_divergence_is_first(a, b, k);
}

/// A stream that is a proper prefix of another differs from it where the
/// shorter one ends, whichever of the two comes first.
pub proof fn lemma_proper_prefix(short: Seq<u8>, long: Seq<u8>, size: nat)
    requires
        size > 0,
        short.len() < long.len(),
        short == long.subrange(0, short.len() as int),
    ensures
        comparison(short, long, false) == Outcome::Different(short.len()),
        comparison(long, short, false) == Outcome::Different(short.len()),
        chunked_comparison(short, long, false, size) == Outcome::Different(short.len()),
        chunked_comparison(long, short, false, size) == Outcome::Different(short.len()),
{
    lemma_chunked_comparison(short, long, false, size);
    lemma_chunked_comparison(long, short, false, size);
    assert(diverge_at(short, long, short.len()));
    assert(diverge_at(long, short, short.len()));
    lemma_divergence_is_first(short, long, short.len());
    lemma_divergence_is_first(long, short, short.len());
}

/// In quick mode two streams of different lengths differ at offset zero,
/// and the lengths alone settle it: nothing has to be read.
pub proof fn lemma_quick_length_mismatch(a: Seq<u8>, b: Seq<u8>, size: nat)
    requires
        a.len() != b.len(),
    ensures
        decided_by_lengths(a.len(), b.len(), true) == Some(Outcome::Different(0)),
        chunked_comparison(a, b, true, size) == Outcome::Different(0),
        comparison(a, b, true) == Outcome::Different(0),
{
}

/// In quick mode two streams of one length that do not hold the same bytes
/// differ at offset zero, wherever the first difference lies.
pub proof fn lemma_quick_content_mismatch(a: Seq<u8>, b: Seq<u8>, size: nat)
    requires
        size > 0,
        a.len() == b.len(),
        a != b,
    ensures
        comparison(a, b, true) == Outcome::Different(0),
        chunked_comparison(a, b, true, size) == Outcome::Different(0),
{
    lemma_chunked_comparison(a, b, true, size);
}

/// Quick mode never reports another offset than zero.
pub proof fn lemma_quick_offset_is_zero(a: Seq<u8>, b: Seq<u8>, size: nat)
    requires
        size > 0,
    ensures
        comparison(a, b, true) == Outcome::Equal || comparison(a, b, true) == Outcome::Different(0),
        chunked_comparison(a, b, true, size) == comparison(a, b, true),
{
    lemma_chunked_comparison(a, b, true, size);
}

/// A comparison of two streams is `Equal` or `Different`, `Equal` exactly
/// where they hold the same bytes, and a reported offset lies within both
/// streams or at the end of the shorter one.
pub proof fn lemma_offset_within_streams(a: Seq<u8>, b: Seq<u8>, quick: bool)
    ensures
        comparison(a, b, quick) == Outcome::Equal <==> a == b,
        a != b ==> exists|offset: nat|
            comparison(a, b, quick) == Outcome::Different(offset) && offset <= a.len() && offset
                <= b.len(),
{
    lemma_first_divergence(a, b);
    if a != b {
        let offset = if quick {
            0nat
        } else {
            first_divergence(a, b)
        };
        assert(comparison(a, b, quick) == Outcome::Different(offset));
    }
}

/// The decision does not depend on which stream comes first.
pub proof fn lemma_comparison_is_symmetric(a: Seq<u8>, b: Seq<u8>, quick: bool)
    ensures
        comparison(a, b, quick) == comparison(b, a, quick),
{
    lemma_first_divergence(a, b);
    assert(diverge_at(b, a, first_divergence(a, b)));
    lemma_divergence_is_first(b, a, first_divergence(a, b));
}

/// Two directories without entries give no task and no reported entry.
pub proof fn lemma_empty_directories<T>(prefix: Seq<char>, quick: bool)
    ensures
        plan_level::<T>(prefix, Seq::empty(), Seq::empty()) == Seq::<TaskView<T>>::empty(),
        tree_diff(Seq::empty(), Seq::empty(), quick) == Seq::<(Seq<char>, Outcome)>::empty(),
{
    assert(plan_level::<T>(prefix, Seq::empty(), Seq::empty()) =~= Seq::<TaskView<T>>::empty());
    assert(plan_level::<Vec<u8>>(Seq::empty(), Seq::empty(), Seq::empty()) =~= Seq::<
        TaskView<Vec<u8>>,
    >::empty());
    assert(tree_diff(Seq::empty(), Seq::empty(), quick) =~= Seq::<(Seq<char>, Outcome)>::empty());
}

/// A directory that both sides hold under one name is not reported itself:
/// what it gives are the tasks of its own entries, under its path.
pub proof fn lemma_shared_directory<T>(
    prefix: Seq<char>,
    left: Entry<T>,
    right: Entry<T>,
)
    requires
        left.name@ == right.name@,
        left.node is Dir,
        right.node is Dir,
    ensures
        plan_level(prefix, seq![left], seq![right]) == plan_level(
            child_path(prefix, left.name@),
            left.node->Dir_0@,
            right.node->Dir_0@,
        ),
{
    let lefts = seq![left];
    let rights = seq![right];
    reveal_with_fuel(position_of, 2);
    assert(position_of(rights, left.name@, 0) == Some(0nat));
    assert(position_of(lefts, right.name@, 0) == Some(0nat));
    assert(plan_entry(prefix, lefts[0], rights) == plan_pair(
        child_path(prefix, left.name@),
        left.node,
        right.node,
    ));
    assert(plan_left(prefix, lefts, rights, 0) =~= Seq::<TaskView<T>>::empty());
    assert(plan_left(prefix, lefts, rights, 1) =~= plan_entry(prefix, lefts[0], rights));
    assert(plan_right(prefix, lefts, rights, 0) =~= Seq::<TaskView<T>>::empty());
    assert(plan_right(prefix, lefts, rights, 1) =~= Seq::<TaskView<T>>::empty());
    assert(plan_level(prefix, lefts, rights) =~= plan_entry(prefix, lefts[0], rights));
}

/// The tasks for the first entries of the left side are those of these
/// entries alone: what follows them has no part in them.
pub proof fn lemma_later_entries_have_no_part<T>(
    prefix: Seq<char>,
    left: Seq<Entry<T>>,
    other: Seq<Entry<T>>,
    right: Seq<Entry<T>>,
    upto: nat,
)
    requires
        upto <= left.len(),
        upto <= other.len(),
        forall|i: int| 0 <= i < upto ==> left[i] == other[i],
    ensures
        plan_left(prefix, left, right, upto) == plan_left(prefix, other, right, upto),
    decreases upto,
{
    if upto > 0 {
        lemma_later_entries_have_no_part(prefix, left, other, right, (upto - 1) as nat);
    }
}

/// Every entry of the left side gives its tasks by itself: the tasks for a
/// directory are those for its first entries followed by those for the
/// rest, so that no entry, and no failure below it, changes what is
/// reported for another.
pub proof fn lemma_entries_are_independent<T>(
    prefix: Seq<char>,
    first: Seq<Entry<T>>,
    rest: Seq<Entry<T>>,
    right: Seq<Entry<T>>,
)
    ensures
        plan_left(prefix, first + rest, right, (first + rest).len()) == plan_left(
            prefix,
            first,
            right,
            first.len(),
        ) + plan_left(prefix, rest, right, rest.len()),
    decreases rest.len(),
{
    let all = first + rest;
    if rest.len() == 0 {
        assert(all =~= first);
        assert(plan_left(prefix, rest, right, 0) =~= Seq::<TaskView<T>>::empty());
        assert(plan_left(prefix, first, right, first.len()) + Seq::<TaskView<T>>::empty()
            =~= plan_left(prefix, first, right, first.len()));
    } else {
        let shorter = rest.drop_last();
        let n = (all.len() - 1) as nat;
        lemma_entries_are_independent(prefix, first, shorter, right);
        lemma_later_entries_have_no_part(prefix, all, first + shorter, right, n);
        lemma_later_entries_have_no_part(
            prefix,
            rest,
            shorter,
            right,
            (rest.len() - 1) as nat,
        );
        assert(all[n as int] == rest[rest.len() - 1]);
        assert(plan_left(prefix, all, right, all.len()) =~= plan_left(
            prefix,
            first,
            right,
            first.len(),
        ) + plan_left(prefix, rest, right, rest.len()));
    }
}

} // verus!
