//! A PCG-XSH-RR 32-bit pseudorandom generator with a 64-bit state.
//!
//! Reference: PCG Random Number Generation for C, Melissa O'Neill
//! (http://www.pcg-random.org), Apache License 2.0.
use vstd::prelude::*;

verus! {

/// Multiplier of the linear congruential state transition.
pub const PCG_MULTIPLIER: u64 = 6364136223846793005;

/// State of a generator built by `Default`.
pub const DEFAULT_STATE: u64 = 0x853c49e6748fea9b;

/// Increment of a generator built by `Default`.
pub const DEFAULT_INC: u64 = 0xda3e39cb94b95bdb;

/// The state that follows `state`: `state * MULT + (inc | 1)` modulo 2^64.
pub open spec fn pcg_next_state(state: u64, inc: u64) -> u64 {
    ((state as int * PCG_MULTIPLIER as int + (inc | 1u64) as int) % 0x1_0000_0000_0000_0000) as u64
}

/// Rotates the 32-bit word `x` right by `r` places (`r < 32`).
pub open spec fn rotr32(x: u32, r: u32) -> u32 {
    ((x >> r) | (x << ((32 - r) % 32) as u32)) as u32
}

/// The XSH RR output of a state: xorshift high bits, then a random rotation.
pub open spec fn pcg_output(state: u64) -> u32 {
    rotr32((((state >> 18u64) ^ state) >> 27u64) as u32, (state >> 59u64) as u32)
}

/// The generator state after `n` draws.
pub open spec fn pcg_advance(state: u64, inc: u64, n: nat) -> u64
    decreases n,
{
    if n == 0 {
        state
    } else {
        pcg_advance(pcg_next_state(state, inc), inc, (n - 1) as nat)
    }
}

/// The first `n` values drawn from a generator in state `(state, inc)`.
pub open spec fn pcg_draws(state: u64, inc: u64, n: nat) -> Seq<u32>
    decreases n,
{
    if n == 0 {
        Seq::empty()
    } else {
        seq![pcg_output(state)] + pcg_draws(pcg_next_state(state, inc), inc, (n - 1) as nat)
    }
}

/// A deterministic generator: every draw is a function of `(state, inc)`.
#[derive(Debug, Clone)]
pub struct PCG32RNG {
    state: u64,
    inc: u64,
}

impl View for PCG32RNG {
    /// The pair `(state, inc)`.
    type V = (u64, u64);

    closed spec fn view(&self) -> (u64, u64) {
        (self.state, self.inc)
    }
}

impl PCG32RNG {
    /// A generator with the given state and increment.
    pub fn new(state: u64, inc: u64) -> (r: Self)
        ensures
            r@ == (state, inc),
    {
        PCG32RNG { state, inc }
    }

    /// Draws the next 32-bit value and advances the state.
    pub fn random(&mut self) -> (r: u32)
        ensures
            r == pcg_output(old(self)@.0),
            final(self)@ == (pcg_next_state(old(self)@.0, old(self)@.1), old(self)@.1),
    {
        let oldstate = self.state;
        let inc = self.inc;
        let next = oldstate.wrapping_mul(PCG_MULTIPLIER).wrapping_add(inc | 1);
        proof {
            lemma_wrapping_step(oldstate, inc);
        }
        self.state = next;
        let xorshifted: u32 = (((oldstate >> 18u32) ^ oldstate) >> 27u32) as u32;
        let rot: u32 = (oldstate >> 59u32) as u32;
        assert(rot < 32) by (bit_vector)
            requires
                rot == (oldstate >> 59u64) as u32,
        ;
        let back: u32 = (32 - rot) & 31;
        assert(back < 32 && back == ((32 - rot) % 32) as u32) by (bit_vector)
            requires
                rot < 32,
                back == ((32 - rot) as u32) & 31u32,
        ;
        let out: u32 = (xorshifted >> rot) | (xorshifted << back);
        out
    }
}

/// Determinism: two generators in the same state draw the same values, and drawing
/// `m` values and then `n` more gives the same stream as drawing `m + n` at once.
pub proof fn lemma_same_state_same_draws(a: PCG32RNG, b: PCG32RNG, m: nat, n: nat)
    requires
        a@ == b@,
    ensures
        pcg_draws(a@.0, a@.1, m + n) == pcg_draws(b@.0, b@.1, m + n),
        pcg_advance(a@.0, a@.1, m + n) == pcg_advance(b@.0, b@.1, m + n),
        pcg_draws(a@.0, a@.1, m + n) == pcg_draws(a@.0, a@.1, m) + pcg_draws(
            pcg_advance(a@.0, a@.1, m),
            a@.1,
            n,
        ),
{
    lemma_draws_split(a@.0, a@.1, m, n);
}

proof fn lemma_draws_split(state: u64, inc: u64, m: nat, n: nat)
    ensures
        pcg_draws(state, inc, m + n) == pcg_draws(state, inc, m) + pcg_draws(
            pcg_advance(state, inc, m),
            inc,
            n,
        ),
    decreases m,
{
    if m == 0 {
        assert(pcg_draws(state, inc, 0) + pcg_draws(state, inc, n) =~= pcg_draws(state, inc, n));
    } else {
        let next = pcg_next_state(state, inc);
        lemma_draws_split(next, inc, (m - 1) as nat, n);
        assert((m + n - 1) as nat == (m - 1) as nat + n);
        assert(pcg_draws(state, inc, m + n) =~= pcg_draws(state, inc, m) + pcg_draws(
            pcg_advance(state, inc, m),
            inc,
            n,
        ));
    }
}

proof fn lemma_wrapping_step(state: u64, inc: u64)
    ensures
        state.wrapping_mul(PCG_MULTIPLIER).wrapping_add(inc | 1) == pcg_next_state(state, inc),
{
    let m: int = 0x1_0000_0000_0000_0000;
    let p: int = state as int * PCG_MULTIPLIER as int;
    let c: int = (inc | 1u64) as int;
    vstd::arithmetic::div_mod::lemma_add_mod_noop(p, c, m);
    vstd::arithmetic::div_mod::lemma_mod_twice(c, m);
    vstd::arithmetic::div_mod::lemma_small_mod(c as nat, m as nat);
}

impl Default for PCG32RNG {
    fn default() -> (r: Self)
        ensures
            r@ == (DEFAULT_STATE, DEFAULT_INC),
    {
        PCG32RNG { state: DEFAULT_STATE, inc: DEFAULT_INC }
    }
}

} // verus!
