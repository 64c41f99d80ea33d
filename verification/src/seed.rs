//! Deterministic randomness and domain-separated hashing.
//!
//! All randomness the protocol consumes is derived from a caller-supplied
//! seed, so construction is a pure function of its inputs and safe to retry.
//! Every independent randomness consumer (polynomial sampling, encryption,
//! each proof system) derives its own sub-seed under a distinct domain tag,
//! so that compromising one stream does not leak another.

use vstd::prelude::*;
use vstd::slice::slice_index_get;

verus! {

/// Modulus of the deterministic random stream (a prime below 2^31).
pub const RNG_MODULUS: u64 = 2147483647;

/// Multiplier of the deterministic random stream.
pub const RNG_MULTIPLIER: u64 = 48271;

/// Increment of the deterministic random stream.
pub const RNG_INCREMENT: u64 = 12345;

/// Domain tag under which the sub-seed for polynomial sampling is derived.
pub const SEED_DOMAIN_DEALING_POLYNOMIALS: u64 = 1;

/// Domain tag under which the sub-seed for encryption randomness is derived.
pub const SEED_DOMAIN_DEALING_MEGA_ENCRYPT: u64 = 2;

/// One step of the deterministic random stream.
pub open spec fn rng_step(s: int) -> int {
    (RNG_MULTIPLIER * s + RNG_INCREMENT) % (RNG_MODULUS as int)
}

/// The stream state after `k` steps from state `s`.
pub open spec fn rng_after(s: int, k: nat) -> int
    decreases k,
{
    if k == 0 {
        s
    } else {
        rng_step(rng_after(s, (k - 1) as nat))
    }
}

/// Every reachable stream state stays below the stream modulus.
pub proof fn lemma_rng_after_bound(s: int, k: nat)
    requires
        0 <= s < RNG_MODULUS,
    ensures
        0 <= rng_after(s, k) < RNG_MODULUS,
    decreases k,
{
    if k > 0 {
        lemma_rng_after_bound(s, (k - 1) as nat);
    }
}

/// Stepping `a` times and then `b` times equals stepping `a + b` times.
pub proof fn lemma_rng_after_add(s: int, a: nat, b: nat)
    ensures
        rng_after(rng_after(s, a), b) == rng_after(s, a + b),
    decreases b,
{
    if b > 0 {
        lemma_rng_after_add(s, a, (b - 1) as nat);
    }
}

/// Mixing step of the domain-separation and hashing chains, over the
/// modulus `q`.
pub open spec fn absorb_one(q: int, acc: int, x: int) -> int {
    (acc * 131 + x % q + 1) % q
}

/// Left fold of [`absorb_one`] over a byte string.
pub open spec fn absorb_bytes(q: int, acc: int, data: Seq<u8>) -> int
    decreases data.len(),
{
    if data.len() == 0 {
        acc
    } else {
        absorb_one(q, absorb_bytes(q, acc, data.drop_last()), data.last() as int)
    }
}

/// The deterministic random stream.
pub struct Rand {
    pub state: u64,
}

impl Rand {
    /// The stream state always lies below the stream modulus.
    pub open spec fn wf(self) -> bool {
        self.state < RNG_MODULUS
    }

    /// Advance the stream one step and return the new state as the drawn
    /// value.
    pub fn next_value(&mut self) -> (r: u64)
        requires
            old(self).wf(),
        ensures
            r == rng_step(old(self).state as int),
            final(self).state == r,
            final(self).wf(),
            r < RNG_MODULUS,
    {
        self.state = (RNG_MULTIPLIER * self.state + RNG_INCREMENT) % RNG_MODULUS;
        self.state
    }
}

/// A domain-separable seed for the deterministic random stream.
#[derive(Clone, Copy, Debug, PartialEq, Eq, Structural)]
pub struct Seed {
    pub state: u64,
}

/// Derivation of a sub-seed state under a domain tag.
pub open spec fn seed_derive_value(s: int, tag: int) -> int {
    (s * RNG_MULTIPLIER + tag % (RNG_MODULUS as int) + 1) % (RNG_MODULUS as int)
}

impl Seed {
    /// A seed is well-formed when its state lies below the stream modulus.
    pub open spec fn wf(self) -> bool {
        self.state < RNG_MODULUS
    }

    /// The seed with the given entropy.
    pub fn from_entropy(value: u64) -> (r: Seed)
        ensures
            r.state == value as int % (RNG_MODULUS as int),
            r.wf(),
    {
        Seed { state: value % RNG_MODULUS }
    }

    /// An independent sub-seed under the given domain tag.
    pub fn derive(self, tag: u64) -> (r: Seed)
        requires
            self.wf(),
        ensures
            r.state == seed_derive_value(self.state as int, tag as int),
            r.wf(),
    {
        Seed { state: (self.state * RNG_MULTIPLIER + tag % RNG_MODULUS + 1) % RNG_MODULUS }
    }

    /// The deterministic random stream starting at this seed.
    pub fn into_rng(self) -> (r: Rand)
        ensures
            r.state == self.state,
    {
        Rand { state: self.state }
    }
}

/// Fold the hashing chain over a byte string.
pub fn absorb_bytes_exec(q: u64, acc: u64, data: &[u8]) -> (r: u64)
    requires
        2 <= q <= 0xFFFF_FFFF,
        acc < q,
    ensures
        r == absorb_bytes(q as int, acc as int, data@),
        r < q,
{
    let mut h = acc;
    let mut i: usize = 0;
    while i < data.len()
        invariant
            i <= data@.len(),
            h == absorb_bytes(q as int, acc as int, data@.subrange(0, i as int)),
            h < q,
            2 <= q <= 0xFFFF_FFFF,
        decreases data@.len() - i,
    {
        let b = *slice_index_get(data, i);
        h = (h * 131 + (b as u64) % q + 1) % q;
        proof {
            let prefix = data@.subrange(0, i + 1);
            assert(prefix.drop_last() =~= data@.subrange(0, i as int));
            assert(prefix.last() == data@[i as int]);
        }
        i = i + 1;
    }
    proof {
        assert(data@.subrange(0, data@.len() as int) =~= data@);
    }
    h
}

/// One step of the hashing chain, absorbing a machine word.
pub fn absorb_one_exec(q: u64, acc: u64, x: u64) -> (r: u64)
    requires
        2 <= q <= 0xFFFF_FFFF,
        acc < q,
    ensures
        r == absorb_one(q as int, acc as int, x as int),
        r < q,
{
    (acc * 131 + x % q + 1) % q
}

} // verus!
