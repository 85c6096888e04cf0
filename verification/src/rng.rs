use vstd::prelude::*;

verus! {

#[verifier::external_type_specification]
#[verifier::external_body]
pub struct ExSmallRng(rand::rngs::SmallRng);

/// Relies on rand's `SeedableRng::from_seed` for `SmallRng`: builds a
/// generator whose entire state is a function of the 32-byte seed, so two
/// sources made from the same seed hand out the same draws in the same
/// order.
#[verifier::external_body]
fn small_rng_from_seed(seed: [u8; 32]) -> rand::rngs::SmallRng {
    <rand::rngs::SmallRng as rand::SeedableRng>::from_seed(seed)
}

/// A stateful source of uniformly distributed values, backed by rand's
/// `SmallRng`.  A ghost history records every value the source has handed
/// out, in draw order, so that the generators' contracts can pin their
/// output down as an exact function of the sequence of draws.
pub struct RandomSource {
    inner: rand::rngs::SmallRng,
    history: Ghost<Seq<int>>,
}

impl RandomSource {
    /// The sequence of values this source has handed out so far.
    pub closed spec fn draws(self) -> Seq<int> {
        self.history@
    }

    pub fn from_seed(seed: [u8; 32]) -> (source: RandomSource)
        ensures
            source.draws() == Seq::<int>::empty(),
    {
        RandomSource { inner: small_rng_from_seed(seed), history: Ghost(Seq::empty()) }
    }

    /// Relies on rand's `Rng::gen_range` over `low..high` on `i64`: it
    /// returns a uniformly distributed value of that half-open range, and
    /// panics only when the range is empty, which the precondition rules
    /// out.  Nothing more is assumed of the value: it depends on the
    /// generator's state, so every caller must hold for every outcome.
    #[verifier::external_body]
    pub fn sample(&mut self, low: i64, high: i64) -> (r: i64)
        requires
            low < high,
        ensures
            low <= r < high,
            final(self).draws() == old(self).draws().push(r as int),
    {
        rand::Rng::gen_range(&mut self.inner, low..high)
    }
}

} // verus!
