//! A small seeded source of pseudo-random numbers.
//!
//! Mine placement draws from a [`RandomSource`]. Two sources made from the
//! same seed give the same numbers, so a board can be generated again from
//! its seed.

use vstd::prelude::*;

verus! {

/// The increment that moves the state from one draw to the next.
pub const STATE_STEP: u64 = 0x9E37_79B9_7F4A_7C15;

/// The first multiplier of the output mix.
pub const MIX_FIRST: u64 = 0xBF58_476D_1CE4_E5B9;

/// The second multiplier of the output mix.
pub const MIX_SECOND: u64 = 0x94D0_49BB_1331_11EB;

/// The state that follows `state`.
pub open spec fn next_state(state: u64) -> u64 {
    state.wrapping_add(STATE_STEP)
}

/// The number that a source in state `state` hands out: the next state,
/// scrambled by two rounds of xor-shift and multiplication and a last xor-shift.
pub open spec fn output_of(state: u64) -> u64 {
    let a = next_state(state);
    let b = (a ^ (a >> 30)).wrapping_mul(MIX_FIRST);
    let c = (b ^ (b >> 27)).wrapping_mul(MIX_SECOND);
    c ^ (c >> 31)
}

/// The number below `bound` that a source in state `state` hands out.
pub open spec fn draw_below(state: u64, bound: int) -> int {
    (output_of(state) as int) % bound
}


/// A deterministic generator of 64-bit numbers.
#[derive(Debug, Clone, Copy, PartialEq, Eq, Structural)]
pub struct RandomSource {
    state: u64,
}

impl View for RandomSource {
    type V = u64;

    /// The state from which the next number is derived.
    closed spec fn view(&self) -> u64 {
        self.state
    }
}

impl RandomSource {
    /// A source that starts from `seed`.
    pub fn from_seed(seed: u64) -> (r: RandomSource)
        ensures
            r@ == seed,
    {
        RandomSource { state: seed }
    }

    /// Hands out the next number and moves on by one state.
    pub fn next_u64(&mut self) -> (r: u64)
        ensures
            r == output_of(old(self)@),
            final(self)@ == next_state(old(self)@),
    {
        self.state = self.state.wrapping_add(STATE_STEP);
        let a = self.state;
        let b = (a ^ (a >> 30)).wrapping_mul(MIX_FIRST);
        let c = (b ^ (b >> 27)).wrapping_mul(MIX_SECOND);
        c ^ (c >> 31)
    }

    /// Hands out the next number reduced to the range below `bound`.
    pub fn next_below(&mut self, bound: u32) -> (r: u32)
        requires
            bound > 0,
        ensures
            r < bound,
            r == draw_below(old(self)@, bound as int),
            final(self)@ == next_state(old(self)@),
    {
        let raw = self.next_u64();
        (raw % (bound as u64)) as u32
    }
}

} // verus!
