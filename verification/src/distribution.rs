//! Distributions, and the sequence of draws that one yields from an engine.
use vstd::prelude::*;

verus! {

/// A law on `T` that can be sampled with a random engine of type `R`.
///
/// The engine is pseudorandom: its value is its whole state. An
/// implementation promises that a draw is a function of the distribution and
/// of the engine's state alone: `drawn` names the sample and `advanced` the
/// state the engine is left in. Nothing is promised of the sample's value.
/// Sampling borrows the distribution, so one value serves any number of draws
/// and carries no cursor from one to the next. Where the verifier does not
/// see an implementation, the promise is kept by hand; it cannot be kept for
/// an engine that is a handle to randomness held elsewhere.
pub trait Distribution<T, R> {
    /// The sample that a draw yields from an engine in state `rng`.
    spec fn drawn(&self, rng: R) -> T;

    /// The state in which that draw leaves the engine.
    spec fn advanced(&self, rng: R) -> R;

    /// Draws one sample, advancing `rng`.
    fn sample(&self, rng: &mut R) -> (x: T)
        ensures
            x == self.drawn(*old(rng)),
            *final(rng) == self.advanced(*old(rng)),
    ;
}

/// The standard normal distribution: mean 0, variance 1.
///
/// A scalar type takes part by implementing [`Distribution`] for this marker.
#[derive(Debug, Clone, Copy, PartialEq, Eq, Default)]
pub struct StandardNormal;

/// The state of an engine that started in state `rng` after `k` draws from
/// `dist`.
pub open spec fn engine_after<T, R, D: Distribution<T, R>>(dist: &D, rng: R, k: nat) -> R
    decreases k,
{
    if k == 0 {
        rng
    } else {
        dist.advanced(engine_after::<T, R, D>(dist, rng, (k - 1) as nat))
    }
}

/// The `k`-th sample, counting from 0, of the draws from `dist` with an
/// engine that started in state `rng`.
pub open spec fn draw<T, R, D: Distribution<T, R>>(dist: &D, rng: R, k: nat) -> T {
    dist.drawn(engine_after::<T, R, D>(dist, rng, k))
}

/// Draws made one after another add up: `b` draws after `a` draws leave the
/// engine where `a + b` draws do.
pub proof fn lemma_engine_after_add<T, R, D: Distribution<T, R>>(dist: &D, rng: R, a: nat, b: nat)
    ensures
        engine_after::<T, R, D>(dist, engine_after::<T, R, D>(dist, rng, a), b)
            == engine_after::<T, R, D>(dist, rng, a + b),
    decreases b,
{
    if b > 0 {
        lemma_engine_after_add::<T, R, D>(dist, rng, a, (b - 1) as nat);
    }
}

/// The `b`-th draw of an engine that has already made `a` draws is the
/// `a + b`-th draw of the engine it started as.
pub proof fn lemma_draw_add<T, R, D: Distribution<T, R>>(dist: &D, rng: R, a: nat, b: nat)
    ensures
        draw::<T, R, D>(dist, engine_after::<T, R, D>(dist, rng, a), b)
            == draw::<T, R, D>(dist, rng, a + b),
{
    lemma_engine_after_add::<T, R, D>(dist, rng, a, b);
}

} // verus!
