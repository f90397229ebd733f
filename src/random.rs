use vstd::prelude::*;
use rand::rngs::StdRng;
use rand::{RngCore, SeedableRng};

verus! {

/// The seedable generator of `rand`, held as an opaque value.
#[verifier::external_type_specification]
#[verifier::external_body]
pub struct ExStdRng(StdRng);

/// A name for the `k`-th 32-bit word that `StdRng::seed_from_u64(seed)`
/// produces: its output is a fixed stream of words for each seed.
pub uninterp spec fn seeded_word(seed: u64, k: nat) -> u32;

/// A seeded source of random numbers. Two sources made with the same seed
/// give the same numbers in the same order, so a render can be repeated.
pub struct Random {
    rng: StdRng,
    seed: Ghost<u64>,
    drawn: Ghost<nat>,
}

impl View for Random {
    /// The seed, and how many 32-bit words have been drawn since.
    type V = (u64, nat);

    closed spec fn view(&self) -> (u64, nat) {
        (self.seed@, self.drawn@)
    }
}

impl Random {
    /// Relies on `rand::SeedableRng::seed_from_u64` for `StdRng`: a generator
    /// at the start of the word stream of `seed`.
    #[verifier::external_body]
    pub fn new(seed: u64) -> (r: Random)
        ensures
            r@ == (seed, 0nat),
    {
        Random { rng: StdRng::seed_from_u64(seed), seed: Ghost(seed), drawn: Ghost(0) }
    }

    /// Relies on `rand::RngCore::next_u32` for `StdRng` (a `BlockRng` of
    /// 32-bit words): the next word of the stream.
    #[verifier::external_body]
    pub fn random(&mut self) -> (r: u32)
        ensures
            r == seeded_word(old(self)@.0, old(self)@.1),
            final(self)@ == (old(self)@.0, old(self)@.1 + 1),
    {
        self.rng.next_u32()
    }

    /// Relies on `rand::RngCore::next_u64` for `StdRng` (a `BlockRng` of
    /// 32-bit words): the next two words of the stream, the first as the low half.
    #[verifier::external_body]
    pub fn random_u64(&mut self) -> (r: u64)
        ensures
            r == seeded_word(old(self)@.0, old(self)@.1) + seeded_word(
                old(self)@.0,
                old(self)@.1 + 1,
            ) * 0x1_0000_0000,
            final(self)@ == (old(self)@.0, old(self)@.1 + 2),
    {
        self.rng.next_u64()
    }
}

/// Two sources made with the same seed and drawn from in the same way give
/// the same numbers: a 32-bit draw from each gives equal numbers, and so does
/// a 64-bit draw, and afterwards they stand at the same place again.
pub proof fn lemma_same_seed_same_draws(a: (u64, nat), b: (u64, nat))
    requires
        a == b,
    ensures
        seeded_word(a.0, a.1) == seeded_word(b.0, b.1),
        seeded_word(a.0, a.1) + seeded_word(a.0, a.1 + 1) * 0x1_0000_0000 == seeded_word(b.0, b.1)
            + seeded_word(b.0, b.1 + 1) * 0x1_0000_0000,
{
}

} // verus!
