//! The fuzzer's pseudo-random generator and the draws it makes from it.
//!
//! The generator is `rand`'s `Xoshiro128PlusPlus`: four 32-bit words of state, seeded from a
//! 64-bit seed with SplitMix64, each step yielding one word. Its whole behaviour is the few lines
//! of [`seed_state`] and [`xoshiro_step`], so it is written here and proved against them. The
//! draws on top of it follow `rand` too: a `bool` with probability `p` compares a 64-bit word
//! (the first step's word in the low half) against `p * 2^64`, and a number from a range of
//! `u32`s uses the widening multiply with one correction step that `rand` uses by default.
//!
//! Each draw is a function of the generator's state, and so is the state after it: a chunk's
//! draws depend on its seed alone.

use vstd::prelude::*;

verus! {

/// The four words of a generator's state.
pub type RngState = (u32, u32, u32, u32);

/// `x` rotated left by `k` bits.
pub open spec fn rotl32(x: u32, k: u32) -> u32 {
    (x << k) | (x >> ((32 - k) as u32))
}

/// One step of xoshiro128++: the next state and the word yielded.
pub open spec fn xoshiro_step(s: RngState) -> (RngState, u32) {
    let res = rotl32(s.0.wrapping_add(s.3), 7).wrapping_add(s.0);
    let t = s.1 << 9u32;
    let s2 = s.2 ^ s.0;
    let s3 = s.3 ^ s.1;
    let s1 = s.1 ^ s2;
    let s0 = s.0 ^ s3;
    ((s0, s1, s2 ^ t, rotl32(s3, 11)), res)
}

/// The SplitMix64 increment.
pub open spec fn splitmix_phi() -> u64 {
    0x9e37_79b9_7f4a_7c15u64
}

/// The SplitMix64 output for an already advanced state.
pub open spec fn splitmix_mix(z: u64) -> u64 {
    let a = (z ^ (z >> 30u64)).wrapping_mul(0xbf58_476d_1ce4_e5b9u64);
    let b = (a ^ (a >> 27u64)).wrapping_mul(0x94d0_49bb_1331_11ebu64);
    b ^ (b >> 31u64)
}

/// The state a 64-bit seed gives: two SplitMix64 outputs, each split into its low and high word.
pub open spec fn seed_state(seed: u64) -> RngState {
    let a = splitmix_mix(seed.wrapping_add(splitmix_phi()));
    let b = splitmix_mix(seed.wrapping_add(splitmix_phi()).wrapping_add(splitmix_phi()));
    ((a % 0x1_0000_0000) as u32, (a / 0x1_0000_0000) as u32, (b % 0x1_0000_0000) as u32, (b / 0x1_0000_0000) as u32)
}

/// A 64-bit draw: two steps, the first word in the low half.
pub open spec fn u64_draw(s: RngState) -> (RngState, u64) {
    let (s1, lo) = xoshiro_step(s);
    let (s2, hi) = xoshiro_step(s1);
    (s2, (hi as int * 0x1_0000_0000 + lo as int) as u64)
}

/// A `bool` that is true with probability `p_int / 2^64`.
pub open spec fn bool_draw(s: RngState, p_int: u64) -> (RngState, bool) {
    let (s1, v) = u64_draw(s);
    (s1, v < p_int)
}

/// A number from `low` up to but not including `high`: the high word of the drawn word times the
/// range, corrected by one when the low word is close enough to overflow and a second draw
/// carries into it.
pub open spec fn range_draw(s: RngState, low: u32, high: u32) -> (RngState, u32) {
    let range = high - low;
    let (s1, x) = xoshiro_step(s);
    let prod = x as int * range;
    let hi = prod / 0x1_0000_0000;
    let lo = prod % 0x1_0000_0000;
    if lo > 0x1_0000_0000 - range {
        let (s2, y) = xoshiro_step(s1);
        let new_hi = (y as int * range) / 0x1_0000_0000;
        (s2, (low + hi + if lo + new_hi > u32::MAX { 1int } else { 0int }) as u32)
    } else {
        (s1, (low + hi) as u32)
    }
}

/// The probability one half, scaled to `2^64`.
pub const P_HALF: u64 = 0x8000_0000_0000_0000u64;
/// The probability one quarter, scaled to `2^64`.
pub const P_QUARTER: u64 = 0x4000_0000_0000_0000u64;
/// The probability `0.1`, scaled to `2^64` as `rand` rounds it.
pub const P_TENTH: u64 = 0x1999_9999_9999_9a00u64;
/// The probability `0.2`, scaled to `2^64` as `rand` rounds it.
pub const P_FIFTH: u64 = 0x3333_3333_3333_3400u64;
/// The probability `0.8`, scaled to `2^64` as `rand` rounds it.
pub const P_FOUR_FIFTHS: u64 = 0xcccc_cccc_cccc_d000u64;
/// The probability `0.05`, scaled to `2^64` as `rand` rounds it.
pub const P_TWENTIETH: u64 = 0x0ccc_cccc_cccc_cd00u64;

/// The fuzzer's generator.
#[derive(Debug, Clone)]
pub struct FuzzRng {
    s0: u32,
    s1: u32,
    s2: u32,
    s3: u32,
}

impl View for FuzzRng {
    type V = RngState;

    closed spec fn view(&self) -> RngState {
        (self.s0, self.s1, self.s2, self.s3)
    }
}

fn splitmix(z: u64) -> (r: u64)
    ensures
        r == splitmix_mix(z),
{
    let a = (z ^ (z >> 30u64)).wrapping_mul(0xbf58_476d_1ce4_e5b9u64);
    let b = (a ^ (a >> 27u64)).wrapping_mul(0x94d0_49bb_1331_11ebu64);
    b ^ (b >> 31u64)
}

impl FuzzRng {
    /// The generator seeded with `seed`.
    pub fn seed_from_u64(seed: u64) -> (r: FuzzRng)
        ensures
            r@ == seed_state(seed),
    {
        let phi: u64 = 0x9e37_79b9_7f4a_7c15u64;
        let a = splitmix(seed.wrapping_add(phi));
        let b = splitmix(seed.wrapping_add(phi).wrapping_add(phi));
        FuzzRng {
            s0: (a % 0x1_0000_0000) as u32,
            s1: (a / 0x1_0000_0000) as u32,
            s2: (b % 0x1_0000_0000) as u32,
            s3: (b / 0x1_0000_0000) as u32,
        }
    }

    /// The next word.
    pub fn next_u32(&mut self) -> (r: u32)
        ensures
            (final(self)@, r) == xoshiro_step(old(self)@),
    {
        let s0 = self.s0;
        let s1 = self.s1;
        let s2 = self.s2;
        let s3 = self.s3;
        let sum = s0.wrapping_add(s3);
        let res = ((sum << 7u32) | (sum >> 25u32)).wrapping_add(s0);
        let t = s1 << 9u32;
        let n2 = s2 ^ s0;
        let n3 = s3 ^ s1;
        let n1 = s1 ^ n2;
        let n0 = s0 ^ n3;
        self.s0 = n0;
        self.s1 = n1;
        self.s2 = n2 ^ t;
        self.s3 = (n3 << 11u32) | (n3 >> 21u32);
        res
    }

    /// The next 64-bit word.
    pub fn next_u64(&mut self) -> (r: u64)
        ensures
            (final(self)@, r) == u64_draw(old(self)@),
    {
        let lo = self.next_u32();
        let hi = self.next_u32();
        (hi as u64) * 0x1_0000_0000 + (lo as u64)
    }

    /// A `bool` that is true with probability `p_int / 2^64`.
    pub fn random_bool(&mut self, p_int: u64) -> (r: bool)
        ensures
            (final(self)@, r) == bool_draw(old(self)@, p_int),
    {
        let v = self.next_u64();
        v < p_int
    }

    /// A number from `low` up to but not including `high`.
    pub fn random_range(&mut self, low: u32, high: u32) -> (r: u32)
        requires
            low < high,
        ensures
            (final(self)@, r) == range_draw(old(self)@, low, high),
            low <= r < high,
    {
        let range = high - low;
        let x = self.next_u32();
        assert((x as int) * (range as int) <= 0xFFFF_FFFF * 0xFFFF_FFFF) by (nonlinear_arith)
            requires
                0 <= x <= 0xFFFF_FFFF,
                0 <= range <= 0xFFFF_FFFF,
        ;
        let prod: u64 = (x as u64) * (range as u64);
        let hi: u64 = prod / 0x1_0000_0000;
        let lo: u64 = prod % 0x1_0000_0000;
        proof {
            vstd::arithmetic::div_mod::lemma_fundamental_div_mod(prod as int, 0x1_0000_0000);
            assert(hi < range) by (nonlinear_arith)
                requires
                    prod == x as int * range as int,
                    prod == 0x1_0000_0000 * hi + lo,
                    lo >= 0,
                    x < 0x1_0000_0000,
                    range > 0,
            ;
        }
        if lo > 0x1_0000_0000 - (range as u64) {
            let y = self.next_u32();
            assert((y as int) * (range as int) <= 0xFFFF_FFFF * 0xFFFF_FFFF) by (nonlinear_arith)
                requires
                    0 <= y <= 0xFFFF_FFFF,
                    0 <= range <= 0xFFFF_FFFF,
            ;
            let new_hi: u64 = ((y as u64) * (range as u64)) / 0x1_0000_0000;
            proof {
                assert(new_hi < 0x1_0000_0000) by (nonlinear_arith)
                    requires
                        new_hi == (y as int * range as int) / 0x1_0000_0000,
                        y < 0x1_0000_0000,
                        range < 0x1_0000_0000,
                ;
                assert(hi + 1 < range) by (nonlinear_arith)
                    requires
                        prod == x as int * range as int,
                        prod == 0x1_0000_0000 * hi + lo,
                        lo > 0x1_0000_0000 - range,
                        x < 0x1_0000_0000,
                        range > 0,
                ;
            }
            let carry: u64 = if lo + new_hi > 0xFFFF_FFFF {
                1
            } else {
                0
            };
            low + (hi as u32) + (carry as u32)
        } else {
            low + (hi as u32)
        }
    }
}

} // verus!
