use vstd::prelude::*;
use crate::block::{digest_of, Block, Nonce};
use crate::resource::{rarest_match, Resource, ResourceMatcher};

verus! {

/// What a worker finds for the nonces `lo..hi` of header `b`, in nonce
/// order: each classified digest with its tier.
pub open spec fn chunk_finds(b: Block, rs: Seq<Resource>, lo: int, hi: int) -> Seq<
    (Resource, Seq<u8>),
>
    decreases hi - lo,
{
    if hi <= lo {
        Seq::empty()
    } else {
        let prev = chunk_finds(b, rs, lo, hi - 1);
        let d = digest_of(b, (hi - 1) as Nonce);
        match rarest_match(rs, d) {
            Some(res) => prev.push((res, d)),
            None => prev,
        }
    }
}

/// Hashes header `block` with every nonce of `start..=end` and returns, in
/// nonce order, each digest that some tier accepts, with its rarest tier.
pub fn mine_chunk(block: &Block, start: Nonce, end: Nonce, matcher: &ResourceMatcher) -> (r: Vec<
    (Resource, [u8; 32]),
>)
    requires
        start <= end,
    ensures
        r@.len() == chunk_finds(*block, matcher.resources@, start as int, end + 1).len(),
        forall|i: int|
            0 <= i < r@.len() ==> (#[trigger] r@[i]).0 == chunk_finds(
                *block,
                matcher.resources@,
                start as int,
                end + 1,
            )[i].0 && r@[i].1@ == chunk_finds(*block, matcher.resources@, start as int, end + 1)[i].1,
{
    let mut out: Vec<(Resource, [u8; 32])> = Vec::new();
    let mut n: Nonce = start;
    loop
        invariant
            start <= n <= end,
            out@.len() == chunk_finds(*block, matcher.resources@, start as int, n as int).len(),
            forall|i: int|
                0 <= i < out@.len() ==> (#[trigger] out@[i]).0 == chunk_finds(
                    *block,
                    matcher.resources@,
                    start as int,
                    n as int,
                )[i].0 && out@[i].1@ == chunk_finds(*block, matcher.resources@, start as int, n as int)[i].1,
        decreases end - n,
    {
        let h = block.hash(n);
        match matcher.match_hash(&h) {
            Some(res) => {
                out.push((res, h));
            },
            None => {},
        }
        assert(chunk_finds(*block, matcher.resources@, start as int, n + 1) == {
            let prev = chunk_finds(*block, matcher.resources@, start as int, n as int);
            match rarest_match(matcher.resources@, h@) {
                Some(res) => prev.push((res, h@)),
                None => prev,
            }
        });
        if n == end {
            return out;
        }
        n = n + 1;
    }
}

} // verus!
