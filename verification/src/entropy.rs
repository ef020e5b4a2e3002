//! Deterministic 128-bit pseudo-randomness derived from ledger state.
//!
//! The derived value is a function of a per-block seed, the requesting
//! actor's identity and a per-transaction counter, compressed through a
//! 128-bit hash, so that every validating replica computes the identical
//! value from identical inputs.

#![allow(unused_imports)]
use crate::AccountId;
use vstd::prelude::*;

verus! {

/// The SCALE encoding of the payload `(seed, actor, nonce)`, a function of
/// the three values alone.
pub uninterp spec fn scale_payload(seed: Seq<u8>, actor: u64, nonce: u64) -> Seq<u8>;

/// The 128-bit Blake2b digest of `data`, a function of the bytes alone.
pub uninterp spec fn blake2_128_of(data: Seq<u8>) -> Seq<u8>;

/// A per-block seed SCALE can carry: its compact length prefix encodes
/// byte-string lengths only up to `u32::MAX`.
pub open spec fn seed_ok(seed: Seq<u8>) -> bool {
    seed.len() <= u32::MAX
}

/// Relies on `parity_scale_codec::Encode` for `(&Vec<u8>, u64, u64)`: the
/// encoding concatenates the elements' encodings and depends on the three
/// values alone.  The encoder aborts on a byte string longer than
/// `u32::MAX` (its compact length prefix cannot carry more), so such a seed
/// is left out.
#[verifier::external_body]
fn encode_payload(seed: &Vec<u8>, actor: u64, nonce: u64) -> (r: Vec<u8>)
    requires
        seed_ok(seed@),
    ensures
        r@ == scale_payload(seed@, actor, nonce),
{
    parity_scale_codec::Encode::encode(&(seed, actor, nonce))
}

/// Relies on `sp_io::hashing::blake2_128`: a 128-bit Blake2b digest of the
/// input bytes alone, returned as a 16-byte array.
#[verifier::external_body]
fn blake2_128(data: &Vec<u8>) -> (r: Vec<u8>)
    ensures
        r@ == blake2_128_of(data@),
        r@.len() == 16,
{
    sp_io::hashing::blake2_128(data.as_slice()).to_vec()
}

/// The per-transaction counter after one more derivation.
pub open spec fn next_nonce(nonce: u64) -> u64 {
    if nonce == u64::MAX {
        0
    } else {
        (nonce + 1) as u64
    }
}

/// The mathematical shadow of an [`EntropySource`].
#[verifier::ext_equal]
pub ghost struct EntropyView {
    pub seed: Seq<u8>,
    pub nonce: u64,
}

/// The pseudo-randomness a source in state `s` hands to `actor`.
pub open spec fn entropy_of(s: EntropyView, actor: AccountId) -> Seq<u8> {
    blake2_128_of(scale_payload(s.seed, actor, s.nonce))
}

/// Produces deterministic 16-byte values from a distributed per-block seed,
/// an actor identity and a monotonically increasing transaction counter.
pub struct EntropySource {
    seed: Vec<u8>,
    nonce: u64,
}

impl View for EntropySource {
    type V = EntropyView;

    closed spec fn view(&self) -> EntropyView {
        EntropyView { seed: self.seed@, nonce: self.nonce }
    }
}

impl EntropySource {
    /// A source over the given per-block seed, with the counter at zero.
    pub fn new(seed: Vec<u8>) -> (r: EntropySource)
        requires
            seed_ok(seed@),
        ensures
            r@.seed == seed@,
            r@.nonce == 0,
    {
        EntropySource { seed, nonce: 0 }
    }

    /// The hosting ledger distributes a new per-block seed.
    pub fn set_seed(&mut self, seed: Vec<u8>)
        requires
            seed_ok(seed@),
        ensures
            final(self)@.seed == seed@,
            final(self)@.nonce == old(self)@.nonce,
    {
        self.seed = seed;
    }

    /// One 16-byte pseudo-random value for `actor`, consuming one counter
    /// value: the hash of the SCALE-encoded `(seed, actor, nonce)` payload.
    pub fn derive(&mut self, actor: AccountId) -> (r: Vec<u8>)
        requires
            seed_ok(old(self)@.seed),
        ensures
            r@ == entropy_of(old(self)@, actor),
            r@.len() == 16,
            final(self)@.seed == old(self)@.seed,
            final(self)@.nonce == next_nonce(old(self)@.nonce),
    {
        let payload = encode_payload(&self.seed, actor, self.nonce);
        let r = blake2_128(&payload);
        if self.nonce == u64::MAX {
            self.nonce = 0;
        } else {
            self.nonce = self.nonce + 1;
        }
        r
    }
}

} // verus!
