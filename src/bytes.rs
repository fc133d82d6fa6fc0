use vstd::prelude::*;

verus! {

/// The unsigned integer that a byte sequence denotes when its first byte is
/// the most significant.
pub open spec fn be_value(s: Seq<u8>) -> nat
    decreases s.len(),
{
    if s.len() == 0 {
        0
    } else {
        be_value(s.drop_last()) * 256 + s.last() as nat
    }
}

/// A digest satisfies a threshold when its big-endian value does not exceed
/// the threshold's; equality counts as satisfied.
pub open spec fn satisfies(digest: Seq<u8>, threshold: Seq<u8>) -> bool {
    be_value(digest) <= be_value(threshold)
}

/// Two byte sequences of one length that agree up to index `k` and differ
/// there are ordered, as big-endian integers, by the byte at `k`.
pub proof fn lemma_be_value_lex(a: Seq<u8>, b: Seq<u8>, k: int)
    requires
        a.len() == b.len(),
        0 <= k < a.len(),
        a.subrange(0, k) == b.subrange(0, k),
        a[k] < b[k],
    ensures
        be_value(a) < be_value(b),
    decreases a.len(),
{
    let n = a.len() as int;
    if k == n - 1 {
        assert(a.drop_last() =~= a.subrange(0, k));
        assert(b.drop_last() =~= b.subrange(0, k));
    } else {
        assert(a.drop_last().subrange(0, k) =~= a.subrange(0, k));
        assert(b.drop_last().subrange(0, k) =~= b.subrange(0, k));
        lemma_be_value_lex(a.drop_last(), b.drop_last(), k);
        let x = be_value(a.drop_last());
        let y = be_value(b.drop_last());
        let p = a.last() as nat;
        let q = b.last() as nat;
        assert(x * 256 + p < y * 256 + q) by (nonlinear_arith)
            requires
                x + 1 <= y,
                p < 256,
        ;
    }
}

} // verus!
