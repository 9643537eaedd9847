//! Deterministic seeded random source for crater placement.
//!
//! Generation takes the generator as an explicit parameter instead of
//! drawing from ambient state, so a run is reproducible from its seed.
//! The generator is a 64-bit linear congruential step; every draw is
//! pinned exactly by the contracts, so the whole pipeline is a function
//! of the settings and the seed.

use vstd::prelude::*;

verus! {

/// Multiplier of the congruential step.
pub const LCG_MUL: u64 = 6364136223846793005;

/// Increment of the congruential step.
pub const LCG_INC: u64 = 1442695040888963407;

/// The state that follows `s`: `(LCG_MUL * s + LCG_INC) mod 2^64`.
/// Opaque: callers reason about states symbolically; only `next_u64`
/// works with the definition.
#[verifier::opaque]
pub open spec fn lcg_next(s: u64) -> u64 {
    (((LCG_MUL as int) * (s as int) + LCG_INC as int) % 0x1_0000_0000_0000_0000) as u64
}

/// The state `k` steps after `s`.
pub open spec fn state_after(s: u64, k: nat) -> u64
    decreases k,
{
    if k == 0 {
        s
    } else {
        lcg_next(state_after(s, (k - 1) as nat))
    }
}

/// The value drawn from state `s` for the half-open range `[lo, hi)`:
/// `lo` plus the fresh state reduced modulo the span. An empty range
/// (`hi <= lo`) yields `lo`. Opaque: callers reason about draws
/// symbolically; only `sample_milli` works with the definition.
#[verifier::opaque]
pub open spec fn sample_spec(s: u64, lo: int, hi: int) -> int {
    if hi <= lo {
        lo
    } else {
        lo + (lcg_next(s) as int) % (hi - lo)
    }
}

/// Stepping `a + b` times is stepping `a` times, then `b` times.
pub proof fn lemma_state_after_add(s: u64, a: nat, b: nat)
    ensures
        state_after(s, a + b) == state_after(state_after(s, a), b),
    decreases b,
{
    if b > 0 {
        lemma_state_after_add(s, a, (b - 1) as nat);
    }
}

/// An explicitly seeded random source. One draw advances the state by
/// exactly one congruential step.
#[derive(Clone, Copy, Debug)]
pub struct SeededRng {
    pub state: u64,
}

impl SeededRng {
    pub fn new(seed: u64) -> (r: SeededRng)
        ensures
            r.state == seed,
    {
        SeededRng { state: seed }
    }

    /// Advances the state one step and returns it.
    pub fn next_u64(&mut self) -> (r: u64)
        ensures
            final(self).state == lcg_next(old(self).state),
            r == lcg_next(old(self).state),
    {
        proof {
            reveal(lcg_next);
            lemma_u64_mul_add_fits_u128(self.state as int);
        }
        let wide: u128 = (self.state as u128) * (LCG_MUL as u128) + (LCG_INC as u128);
        let next: u64 = (wide % 0x1_0000_0000_0000_0000u128) as u64;
        self.state = next;
        next
    }

    /// Draws a value from the half-open range `[lo, hi)`, or `lo` when
    /// the range is empty (`lo == hi`). Always consumes exactly one
    /// draw, so callers advance through the state deterministically.
    pub fn sample_milli(&mut self, lo: i64, hi: i64) -> (r: i64)
        requires
            lo <= hi,
            -0x1000_0000_0000 <= lo,
            hi <= 0x1000_0000_0000,
        ensures
            final(self).state == lcg_next(old(self).state),
            r == sample_spec(old(self).state, lo as int, hi as int),
            lo <= r <= hi,
            lo < hi ==> r < hi,
            lo == hi ==> r == lo,
    {
        proof {
            reveal(sample_spec);
        }
        let draw = self.next_u64();
        if lo == hi {
            return lo;
        }
        let span: u64 = (hi - lo) as u64;
        let off: u64 = draw % span;
        lo + (off as i64)
    }
}

/// The congruential step computed in `u128` does not overflow.
proof fn lemma_u64_mul_add_fits_u128(s: int)
    by (nonlinear_arith)
    requires
        0 <= s <= u64::MAX,
    ensures
        0 <= s * (LCG_MUL as int) + LCG_INC as int <= u128::MAX,
{
}

} // verus!
