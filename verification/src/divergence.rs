//! Where two byte sequences first stop agreeing, and the outcome that a
//! comparison of them must report.

use vstd::prelude::*;

use crate::outcome::Outcome;

verus! {

/// `a` and `b` both reach index `k` and hold the same byte at every index
/// below it.
pub open spec fn agree_before(a: Seq<u8>, b: Seq<u8>, k: nat) -> bool {
    &&& k <= a.len()
    &&& k <= b.len()
    &&& forall|i: int| 0 <= i < k ==> a[i] == b[i]
}

/// `k` is the point of divergence of `a` and `b`: they agree below `k`, and
/// at `k` either they hold different bytes or at least one of them has ended.
pub open spec fn diverge_at(a: Seq<u8>, b: Seq<u8>, k: nat) -> bool {
    &&& agree_before(a, b, k)
    &&& !(k < a.len() && k < b.len() && a[k as int] == b[k as int])
}

/// The point of divergence found by walking both sequences from `from`.
pub open spec fn divergence_from(a: Seq<u8>, b: Seq<u8>, from: nat) -> nat
    decreases a.len() - from,
{
    if from < a.len() && from < b.len() && a[from as int] == b[from as int] {
        divergence_from(a, b, from + 1)
    } else {
        from
    }
}

/// The length of the longest common prefix of `a` and `b`. Where the two are
/// not equal this is the offset of the first difference: either the index of
/// the first byte that is not the same, or the length of the shorter one.
pub open spec fn first_divergence(a: Seq<u8>, b: Seq<u8>) -> nat {
    divergence_from(a, b, 0)
}

/// What a comparison of `a` with `b` reports. Equal sequences are `Equal`.
/// Unequal ones are `Different`, at the point of divergence, or at offset
/// zero in quick mode, which does not look for that point.
pub open spec fn comparison(a: Seq<u8>, b: Seq<u8>, quick: bool) -> Outcome {
    if a == b {
        Outcome::Equal
    } else if quick {
        Outcome::Different(0)
    } else {
        Outcome::Different(first_divergence(a, b))
    }
}

/// Walking on from a point up to which the sequences agree ends at a point
/// of divergence.
pub proof fn lemma_divergence_from(a: Seq<u8>, b: Seq<u8>, from: nat)
    requires
        agree_before(a, b, from),
    ensures
        diverge_at(a, b, divergence_from(a, b, from)),
        from <= divergence_from(a, b, from),
    decreases a.len() - from,
{
    if from < a.len() && from < b.len() && a[from as int] == b[from as int] {
        lemma_divergence_from(a, b, from + 1);
    }
}

/// `first_divergence` is a point of divergence.
pub proof fn lemma_first_divergence(a: Seq<u8>, b: Seq<u8>)
    ensures
        diverge_at(a, b, first_divergence(a, b)),
{
    lemma_divergence_from(a, b, 0);
}

/// Two sequences have only one point of divergence.
pub proof fn lemma_divergence_unique(a: Seq<u8>, b: Seq<u8>, j: nat, k: nat)
    requires
        diverge_at(a, b, j),
        diverge_at(a, b, k),
    ensures
        j == k,
{
    if j < k {
        assert(a[j as int] == b[j as int]);
    } else if k < j {
        assert(a[k as int] == b[k as int]);
    }
}

/// Any point of divergence is the one that `first_divergence` names.
pub proof fn lemma_divergence_is_first(a: Seq<u8>, b: Seq<u8>, k: nat)
    requires
        diverge_at(a, b, k),
    ensures
        k == first_divergence(a, b),
{
    lemma_first_divergence(a, b);
    lemma_divergence_unique(a, b, k, first_divergence(a, b));
}

/// Two sequences are equal exactly when they diverge only where both end.
pub proof fn lemma_equal_iff_no_divergence(a: Seq<u8>, b: Seq<u8>)
    ensures
        a == b <==> (first_divergence(a, b) == a.len() && a.len() == b.len()),
{
    lemma_first_divergence(a, b);
    if first_divergence(a, b) == a.len() && a.len() == b.len() {
        assert(a =~= b);
    }
    if a == b {
        let k = first_divergence(a, b);
        if k < a.len() {
            assert(a[k as int] == b[k as int]);
        }
    }
}

} // verus!
