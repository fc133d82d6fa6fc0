use vstd::prelude::*;
use crate::digest::{blake3_digest, blake3_of};

verus! {

/// A nonce: 32 bits, meaningful only with the header it is paired with.
pub type Nonce = u32;

/// Nominal number of nonces in one chunk.
pub const CHUNK_SIZE: u32 = 50000;

#[verifier::external_type_specification]
#[verifier::external_body]
pub struct ExSystemTime(std::time::SystemTime);

#[verifier::external_type_specification]
#[verifier::external_body]
pub struct ExSystemTimeError(std::time::SystemTimeError);

/// Relies on std's `SystemTime::now`: the current wall-clock time.
pub assume_specification[ std::time::SystemTime::now ]() -> (r: std::time::SystemTime);

/// Relies on std's `SystemTime::duration_since`: the time elapsed since an
/// earlier instant, or an error when `earlier` is later.
pub assume_specification[ std::time::SystemTime::duration_since ](
    t: &std::time::SystemTime,
    earlier: std::time::SystemTime,
) -> (r: Result<std::time::Duration, std::time::SystemTimeError>);

/// Relies on std's `Duration::as_millis`: whole milliseconds of a duration.
pub assume_specification[ std::time::Duration::as_millis ](d: &std::time::Duration) -> (r: u128);

/// Relies on rand's `random`: a value drawn from the thread-local generator.
pub assume_specification<T>[ rand::random::<T> ]() -> (r: T)
    where
        rand::distributions::Standard: rand::distributions::Distribution<T>,
;

/// Relies on std's `UNIX_EPOCH`: the instant 1970-01-01 00:00:00 UTC.
#[verifier::external_body]
fn unix_epoch() -> (r: std::time::SystemTime) {
    std::time::UNIX_EPOCH
}

/// Milliseconds since the Unix epoch, or 0 when the clock reads earlier than
/// the epoch.
pub fn get_time_ms() -> (r: u128) {
    let now = std::time::SystemTime::now();
    match now.duration_since(unix_epoch()) {
        Ok(d) => d.as_millis(),
        Err(_) => 0,
    }
}

/// A block header: the immutable creation time and random seed that, with a
/// nonce, are hashed into a digest.
#[derive(Debug, Clone, Copy, PartialEq, Eq)]
pub struct Block {
    pub created_at: u128,
    pub seed: [u8; 32],
}

/// Big-endian bytes of the low `n` bytes of `v`.
pub open spec fn be_bytes(v: nat, n: nat) -> Seq<u8>
    decreases n,
{
    if n == 0 {
        Seq::empty()
    } else {
        be_bytes(v / 256, (n - 1) as nat).push((v % 256) as u8)
    }
}

/// The bytes hashed for a header and a nonce: the creation time as 16
/// big-endian bytes, the seed, then the nonce as 4 big-endian bytes.
pub open spec fn header_message(b: Block, nonce: Nonce) -> Seq<u8> {
    be_bytes(b.created_at as nat, 16) + b.seed@ + be_bytes(nonce as nat, 4)
}

/// The digest of a header and a nonce.
pub open spec fn digest_of(b: Block, nonce: Nonce) -> Seq<u8> {
    blake3_of(header_message(b, nonce))
}

/// Hashing is deterministic: equal headers with equal nonces give equal
/// digests.
pub proof fn lemma_digest_deterministic(b1: Block, n1: Nonce, b2: Block, n2: Nonce)
    requires
        b1 == b2,
        n1 == n2,
    ensures
        digest_of(b1, n1) == digest_of(b2, n2),
{
}

/// Appends the low `n` bytes of `v`, most significant first.
fn push_be_bytes(out: &mut Vec<u8>, v: u128, n: usize)
    requires
        n <= 16,
    ensures
        final(out)@ == old(out)@ + be_bytes(v as nat, n as nat),
    decreases n,
{
    if n > 0 {
        push_be_bytes(out, v / 256, n - 1);
        out.push((v % 256) as u8);
        assert(final(out)@ =~= old(out)@ + be_bytes(v as nat, n as nat));
    } else {
        assert(final(out)@ =~= old(out)@ + be_bytes(v as nat, n as nat));
    }
}

impl Block {
    /// A fresh header stamped with the current time and a random seed.
    pub fn new() -> (b: Block) {
        Block { created_at: get_time_ms(), seed: rand::random::<[u8; 32]>() }
    }

    /// The digest of this header with `nonce`; the same inputs always give
    /// the same digest.
    pub fn hash(&self, nonce: Nonce) -> (r: [u8; 32])
        ensures
            r@ == digest_of(*self, nonce),
    {
        let mut msg: Vec<u8> = Vec::new();
        push_be_bytes(&mut msg, self.created_at, 16);
        let mut i: usize = 0;
        while i < 32
            invariant
                i <= 32,
                msg@ == be_bytes(self.created_at as nat, 16) + self.seed@.subrange(0, i as int),
            decreases 32 - i,
        {
            msg.push(self.seed[i]);
            assert(self.seed@.subrange(0, i + 1) =~= self.seed@.subrange(0, i as int).push(
                self.seed@[i as int],
            ));
            i = i + 1;
        }
        assert(self.seed@.subrange(0, 32) =~= self.seed@);
        push_be_bytes(&mut msg, nonce as u128, 4);
        blake3_digest(msg.as_slice())
    }
}

} // verus!
