use vstd::prelude::*;

verus! {

/// Length of the part that two sequences have in common by position.
pub open spec fn overlap(a: Seq<u8>, b: Seq<u8>) -> nat {
    if a.len() <= b.len() {
        a.len()
    } else {
        b.len()
    }
}

/// Number of positions below `n` at which `a` and `b` hold different bytes.
pub open spec fn mismatches(a: Seq<u8>, b: Seq<u8>, n: nat) -> nat
    decreases n,
{
    if n == 0 {
        0
    } else {
        mismatches(a, b, (n - 1) as nat) + if a[n - 1] != b[n - 1] {
            1nat
        } else {
            0nat
        }
    }
}

/// Position-wise mismatches over the overlap, plus the bytes by which each
/// sequence runs past the other.
pub open spec fn delta(a: Seq<u8>, b: Seq<u8>) -> nat {
    let l = overlap(a, b);
    mismatches(a, b, l) + (a.len() - l) as nat + (b.len() - l) as nat
}

proof fn lemma_no_mismatches(a: Seq<u8>, b: Seq<u8>, n: nat)
    requires
        n <= a.len(),
        n <= b.len(),
    ensures
        mismatches(a, b, n) == 0 <==> forall|i: int| 0 <= i < n ==> a[i] == b[i],
    decreases n,
{
    if n > 0 {
        lemma_no_mismatches(a, b, (n - 1) as nat);
    }
}

/// The count is zero exactly when the two sequences are equal.
pub proof fn lemma_delta_zero_iff_equal(a: Seq<u8>, b: Seq<u8>)
    ensures
        delta(a, b) == 0 <==> a == b,
{
    let l = overlap(a, b);
    lemma_no_mismatches(a, b, l);
    if delta(a, b) == 0 {
        assert(a =~= b);
    }
}

/// A sequence differs from itself in nothing.
pub proof fn lemma_delta_self(a: Seq<u8>)
    ensures
        delta(a, a) == 0,
{
    lemma_delta_zero_iff_equal(a, a);
}

proof fn lemma_mismatches_symmetric(a: Seq<u8>, b: Seq<u8>, n: nat)
    ensures
        mismatches(a, b, n) == mismatches(b, a, n),
    decreases n,
{
    if n > 0 {
        lemma_mismatches_symmetric(a, b, (n - 1) as nat);
    }
}

/// The count does not depend on the order of the two sequences.
pub proof fn lemma_delta_symmetric(a: Seq<u8>, b: Seq<u8>)
    ensures
        delta(a, b) == delta(b, a),
{
    lemma_mismatches_symmetric(a, b, overlap(a, b));
}

/// Against an empty sequence, on either side, the count is the other one's length.
pub proof fn lemma_delta_empty(a: Seq<u8>)
    ensures
        delta(a, Seq::empty()) == a.len(),
        delta(Seq::empty(), a) == a.len(),
{
}

/// Counts the positions where `a` and `b` differ, plus the difference of
/// their lengths. No insertion or deletion is tried: byte `i` of one is only
/// ever compared with byte `i` of the other.
pub fn compute_delta(a: &[u8], b: &[u8]) -> (r: usize)
    ensures
        r == delta(a@, b@),
        r == 0 <==> a@ == b@,
{
    let mut diff: usize = 0;
    let len: usize = if a.len() <= b.len() {
        a.len()
    } else {
        b.len()
    };
    let mut i: usize = 0;
    while i < len
        invariant
            len == overlap(a@, b@),
            i <= len,
            diff == mismatches(a@, b@, i as nat),
            diff <= i,
        decreases len - i,
    {
        if a[i] != b[i] {
            diff += 1;
        }
        i += 1;
    }
    proof {
        lemma_delta_zero_iff_equal(a@, b@);
    }
    diff + (a.len() - len) + (b.len() - len)
}

} // verus!
