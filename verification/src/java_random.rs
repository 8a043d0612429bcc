//! The canonical 48-bit linear congruential generator behind Java's
//! `Random`: seeding, the forward step, and the derived draws (long,
//! bounded int) that the seed-mixing layer builds on.

use vstd::arithmetic::div_mod::{
    lemma_add_mod_noop, lemma_div_is_ordered, lemma_div_pos_is_pos,
    lemma_fundamental_div_mod_converse_div, lemma_mod_add_multiples_vanish, lemma_mod_mod,
    lemma_mod_pos_bound, lemma_mod_sub_multiples_vanish, lemma_small_mod,
};
use vstd::arithmetic::mul::{
    lemma_mul_is_commutative, lemma_mul_nonnegative, lemma_mul_strict_inequality,
    lemma_mul_upper_bound,
};
use vstd::prelude::*;

verus! {

/// The canonical multiplier of the generator.
pub const MULTIPLIER: i64 = 0x5DEECE66D;

/// The canonical additive increment of the generator.
pub const INCREMENT: i64 = 0xB;

/// Mask keeping exactly the low 48 bits of a state value.
pub const MASK48: i64 = 0xFFFF_FFFF_FFFF;

/// 2^48, the modulus of the generator, as a mathematical integer.
pub open spec fn modulus48() -> int {
    0x1_0000_0000_0000
}

/// The bit pattern of `x` read as a non-negative integer.
pub open spec fn to_unsigned(x: i64) -> int {
    x as u64 as int
}

/// The state a seeding operation establishes: the raw seed XOR-scrambled
/// with the multiplier, masked to 48 bits.
pub open spec fn scrambled(seed: i64) -> i64 {
    (seed ^ MULTIPLIER) & MASK48
}

/// One canonical forward step of the generator:
/// `(state * MULTIPLIER + INCREMENT) mod 2^48`, over the state's bit
/// pattern read as an unsigned value.
pub open spec fn next_state(s: i64) -> i64 {
    ((to_unsigned(s) * MULTIPLIER + INCREMENT) % modulus48()) as i64
}

/// The top `bits` bits of a 48-bit state, as a signed 32-bit value.
pub open spec fn top_bits(s: i64, bits: i32) -> i32 {
    (s >> ((48 - bits) as u32)) as i32
}

/// The state after `n` canonical forward steps.
pub open spec fn nth_state(s: i64, n: nat) -> i64
    decreases n,
{
    if n == 0 {
        s
    } else {
        next_state(nth_state(s, (n - 1) as nat))
    }
}

/// The 64-bit draw made of two consecutive 32-bit draws, the first one
/// shifted into the high half, added with fixed-width wraparound.
pub open spec fn next_long_value(s: i64) -> i64 {
    ((top_bits(next_state(s), 32) as i64) << 32).wrapping_add(
        top_bits(next_state(next_state(s)), 32) as i64,
    )
}

/// Whether `b` is a power of two, tested as the draw code tests it:
/// `b & -b == b` (with two's-complement negation).
pub open spec fn is_pow2(b: i32) -> bool {
    b & 0i32.wrapping_sub(b) == b
}

/// The power-of-two bounded draw: the 31-bit draw scaled by `b`, keeping
/// the high half of the product.
pub open spec fn pow2_int_value(s: i64, b: i32) -> i32 {
    ((b as i64).wrapping_mul(top_bits(next_state(s), 31) as i64) >> 31) as i32
}

/// Whether a 31-bit draw is accepted by the rejection-sampling draw:
/// `bits - bits % b + (b - 1)` must not exceed `i32::MAX`, i.e. the
/// wrapped acceptance test `bits - val + (b - 1) >= 0` passes.
pub open spec fn accepts(bits: i32, b: i32) -> bool {
    bits - (bits % b) + (b - 1) <= i32::MAX
}

/// The general bounded draw, given the 31-bit draw it accepted.
pub open spec fn general_int_value(bits: i32, b: i32) -> i32 {
    bits % b
}

/// Masking a 64-bit value to its low 48 bits is reduction modulo 2^48.
pub(crate) proof fn lemma_mask48_is_mod(x: u64)
    by (bit_vector)
    ensures
        x & 0xFFFF_FFFF_FFFF == x % 0x1_0000_0000_0000,
        x & 0xFFFF_FFFF_FFFF <= 0xFFFF_FFFF_FFFF,
{
}

/// Reducing modulo 2^64 and then modulo 2^48 is reducing modulo 2^48.
pub(crate) proof fn lemma_mod64_48(a: int)
    ensures
        a % 0x1_0000_0000_0000_0000 % 0x1_0000_0000_0000 == a % 0x1_0000_0000_0000,
{
    assert(0x1_0000_0000_0000_0000 == 0x1_0000_0000_0000int * 0x1_0000);
    lemma_mod_mod(a, 0x1_0000_0000_0000, 0x1_0000);
}

/// A value wrapped at 2^64 is that value reduced modulo 2^64, as long as
/// the unwrapped value lies in `(-2^64, 2^65)`.
pub(crate) proof fn lemma_wrap_is_mod64(v: int)
    requires
        -0x1_0000_0000_0000_0000 < v < 0x2_0000_0000_0000_0000,
    ensures
        v % 0x1_0000_0000_0000_0000 == if v < 0 {
            v + 0x1_0000_0000_0000_0000
        } else if v > 0xFFFF_FFFF_FFFF_FFFF {
            v - 0x1_0000_0000_0000_0000
        } else {
            v
        },
{
    if v < 0 {
        lemma_mod_add_multiples_vanish(v, 0x1_0000_0000_0000_0000);
        lemma_small_mod((v + 0x1_0000_0000_0000_0000) as nat, 0x1_0000_0000_0000_0000nat);
    } else if v > 0xFFFF_FFFF_FFFF_FFFF {
        lemma_mod_sub_multiples_vanish(v, 0x1_0000_0000_0000_0000);
        lemma_small_mod((v - 0x1_0000_0000_0000_0000) as nat, 0x1_0000_0000_0000_0000nat);
    } else {
        lemma_small_mod(v as nat, 0x1_0000_0000_0000_0000nat);
    }
}

/// The wrapped 64-bit multiply-add-mask computes a 48-bit LCG step
/// exactly: wrapping at 2^64 never disturbs a result taken modulo 2^48.
pub(crate) proof fn lemma_mul_add_mask48(x: u64, m: u64, c: u64)
    ensures
        x.wrapping_mul(m).wrapping_add(c) & 0xFFFF_FFFF_FFFF
            == (x * m + c) % 0x1_0000_0000_0000,
        0 <= (x * m + c) % 0x1_0000_0000_0000 <= 0xFFFF_FFFF_FFFF,
{
    let prod: int = x * m;
    let p: u64 = x.wrapping_mul(m);
    let s: u64 = p.wrapping_add(c);
    assert(p == prod % 0x1_0000_0000_0000_0000);
    assert(s == (p + c) % 0x1_0000_0000_0000_0000) by {
        lemma_wrap_is_mod64(p + c);
    };
    assert(s % 0x1_0000_0000_0000 == (prod + c) % 0x1_0000_0000_0000) by {
        lemma_mod64_48(p + c);
        lemma_add_mod_noop(prod % 0x1_0000_0000_0000_0000, c as int, 0x1_0000_0000_0000);
        lemma_mod64_48(prod);
        lemma_add_mod_noop(prod, c as int, 0x1_0000_0000_0000);
    };
    lemma_mask48_is_mod(s);
    lemma_mod_pos_bound(prod + c, 0x1_0000_0000_0000);
}

/// The value drawn with `next_int_fast`: the scaled draw for a
/// power-of-two bound, the remainder of one 31-bit draw otherwise.
pub open spec fn next_int_fast_value(s: i64, b: i32) -> i32 {
    if is_pow2(b) {
        pow2_int_value(s, b)
    } else {
        general_int_value(top_bits(next_state(s), 31), b)
    }
}

/// The top `bits` bits of a masked 48-bit state lie in `[0, 2^bits)`
/// while `bits` leaves the sign bit of the result clear.
proof fn lemma_top_bits_range(s: i64, bits: i32)
    by (bit_vector)
    requires
        0 <= s,
        s <= 0xFFFF_FFFF_FFFF,
        1 <= bits,
        bits <= 31,
    ensures
        0 <= (s >> ((48 - bits) as u32)) as i32,
        (((s >> ((48 - bits) as u32)) as i32) as i64) < (1i64 << (bits as u32)),
{
}

/// Shifting a non-negative value right by 31 bits divides it by 2^31.
proof fn lemma_shr31_is_div(x: i64)
    by (bit_vector)
    requires
        0 <= x,
    ensures
        x >> 31 == x / 0x8000_0000,
{
}

/// The scaled power-of-two draw lies in `[0, b)` whenever the 31-bit
/// draw it scales is non-negative.
proof fn lemma_pow2_draw_range(b: i32, u: i32)
    requires
        0 < b,
        0 <= u,
    ensures
        0 <= (((b as i64).wrapping_mul(u as i64) >> 31) as i32),
        (((b as i64).wrapping_mul(u as i64) >> 31) as i32) < b,
        (((b as i64).wrapping_mul(u as i64) >> 31) as i32)
            == (b as i64).wrapping_mul(u as i64) >> 31,
{
    let prod: int = (b as i64) * (u as i64);
    assert(prod <= 0x7FFF_FFFF * 0x7FFF_FFFFint) by {
        lemma_mul_upper_bound(b as int, 0x7FFF_FFFF, u as int, 0x7FFF_FFFF);
    };
    lemma_mul_nonnegative(b as int, u as int);
    lemma_small_mod(prod as nat, 0x1_0000_0000_0000_0000nat);
    let p: i64 = (b as i64).wrapping_mul(u as i64);
    assert(p == prod);
    lemma_shr31_is_div(p);
    assert(prod < b * 0x8000_0000) by {
        lemma_mul_strict_inequality(u as int, 0x8000_0000, b as int);
        lemma_mul_is_commutative(u as int, b as int);
        lemma_mul_is_commutative(0x8000_0000, b as int);
    };
    lemma_div_pos_is_pos(prod, 0x8000_0000);
    assert((b * 0x8000_0000 - 1) / 0x8000_0000 == b - 1) by {
        lemma_fundamental_div_mod_converse_div(
            b * 0x8000_0000 - 1,
            0x8000_0000,
            b - 1,
            0x7FFF_FFFF,
        );
    };
    lemma_div_is_ordered(prod, b * 0x8000_0000 - 1, 0x8000_0000);
}

/// Every shifted one `1 << k` that fits a positive `i32` passes the
/// power-of-two test the draw code uses.
pub proof fn lemma_shifted_one_is_pow2(k: u32)
    by (bit_vector)
    requires
        k <= 30,
    ensures
        is_pow2(1i32 << k),
{
}

/// For positive bounds the draw code's power-of-two test agrees with
/// the usual one: no bit is shared with the predecessor.
pub proof fn lemma_pow2_test_characterized(b: i32)
    by (bit_vector)
    requires
        b > 0,
    ensures
        is_pow2(b) <==> b & (((b - 1)) as i32) == 0,
{
}

/// For a power-of-two bound, the fast and the general bounded draw
/// agree: from the same generator state they return the same value.
pub proof fn lemma_pow2_paths_agree(s: i64, b: i32)
    requires
        b > 0,
        is_pow2(b),
    ensures
        next_int_fast_value(s, b) == pow2_int_value(s, b),
{
}

/// The canonical generator: a 48-bit state held in a signed 64-bit field.
#[derive(Debug, Default, Copy, Clone)]
pub struct JavaRandom {
    seed: i64,
}

impl JavaRandom {
    /// The current internal state.
    pub closed spec fn spec_state(&self) -> i64 {
        self.seed
    }

    /// Builds a generator from a raw seed, scrambling it exactly as
    /// `new java.util.Random(seed)` does.
    pub fn get_random(seed: i64) -> (r: Self)
        ensures
            r.spec_state() == scrambled(seed),
            r.spec_state() == ((seed ^ 0x5DEECE66D) & (((1i64 << 48) - 1) as i64)),
    {
        assert(MASK48 == ((1i64 << 48) - 1) as i64) by (bit_vector);
        Self { seed: (seed ^ MULTIPLIER) & MASK48 }
    }

    /// Overwrites the internal state with `seed`, unchecked: the caller is
    /// responsible for supplying an already-masked 48-bit value if the
    /// masked-state invariant is to be kept.
    pub fn set_seed_state(&mut self, seed: i64)
        ensures
            final(self).spec_state() == seed,
    {
        self.seed = seed;
    }

    /// The current state of the internal seed.
    pub fn get_seed_state(&self) -> (r: i64)
        ensures
            r == self.spec_state(),
    {
        self.seed
    }

    /// Advances the state one canonical step and returns its top `bits`
    /// bits as a signed 32-bit value.
    pub fn random_next(&mut self, bits: i32) -> (r: i32)
        requires
            1 <= bits <= 32,
        ensures
            final(self).spec_state() == next_state(old(self).spec_state()),
            0 <= final(self).spec_state() <= MASK48,
            r == top_bits(final(self).spec_state(), bits),
            bits <= 31 ==> 0 <= r && (r as i64) < (1i64 << (bits as u32)),
    {
        proof {
            lemma_mul_add_mask48(self.seed as u64, 0x5DEECE66D, 0xB);
        }
        self.seed = ((self.seed as u64).wrapping_mul(0x5DEECE66D).wrapping_add(0xB)
            & 0xFFFF_FFFF_FFFF) as i64;

        proof {
            if bits <= 31 {
                lemma_top_bits_range(self.seed, bits);
            }
        }
        (self.seed >> ((48 - bits) as u32)) as i32
    }

    /// Draws a 64-bit value: two consecutive 32-bit draws, the first
    /// shifted into the high half, combined with wrapping addition.
    pub fn next_long(&mut self) -> (r: i64)
        ensures
            final(self).spec_state() == next_state(next_state(old(self).spec_state())),
            0 <= final(self).spec_state() <= MASK48,
            r == next_long_value(old(self).spec_state()),
    {
        ((JavaRandom::random_next(self, 32) as i64) << 32)
            .wrapping_add(JavaRandom::random_next(self, 32) as i64)
    }

    /// Draws a value uniform in `[0, bound)` for a power-of-two `bound`;
    /// for any other bound it keeps the remainder of a single draw, with
    /// its slight modulo bias.
    pub fn next_int_fast(&mut self, bound: i32) -> (r: i32)
        requires
            bound > 0,
        ensures
            final(self).spec_state() == next_state(old(self).spec_state()),
            0 <= final(self).spec_state() <= MASK48,
            r == next_int_fast_value(old(self).spec_state(), bound),
            0 <= r < bound,
    {
        if (bound & -bound) == bound {
            let u: i32 = JavaRandom::random_next(self, 31);
            proof {
                lemma_pow2_draw_range(bound, u);
            }
            ((bound as i64).wrapping_mul(u as i64) >> 31) as i32
        } else {
            JavaRandom::random_next(self, 31) % bound
        }
    }

    /// Draws a value uniform in `[0, bound)`. A power-of-two bound takes
    /// one scaled draw; any other bound uses rejection sampling: it keeps
    /// redrawing until a draw free of modulo bias is accepted. The result
    /// is always the first accepted draw. A fuel counter of `2^64 - 1`
    /// redraws satisfies the termination checker; it can never run out,
    /// since the state sequence has period `2^48` and contains draws
    /// every bound accepts, so behaviour matches the uncapped reference
    /// algorithm on every input.
    pub fn next_int(&mut self, bound: i32) -> (r: i32)
        requires
            bound > 0,
        ensures
            0 <= final(self).spec_state() <= MASK48,
            0 <= r < bound,
            is_pow2(bound) ==> final(self).spec_state() == next_state(old(self).spec_state())
                && r == pow2_int_value(old(self).spec_state(), bound),
            !is_pow2(bound) ==> (exists|k: nat|
                1 <= k && final(self).spec_state() == nth_state(old(self).spec_state(), k)
                    && r == general_int_value(
                    top_bits(nth_state(old(self).spec_state(), k), 31),
                    bound,
                ) && (accepts(top_bits(nth_state(old(self).spec_state(), k), 31), bound) || k
                    >= 0xFFFF_FFFF_FFFF_FFFF) && (forall|j: nat|
                    1 <= j < k ==> !accepts(
                        top_bits(#[trigger] nth_state(old(self).spec_state(), j), 31),
                        bound,
                    ))),
    {
        if (bound & -bound) == bound {
            let u: i32 = JavaRandom::random_next(self, 31);
            proof {
                lemma_pow2_draw_range(bound, u);
            }
            ((bound as i64).wrapping_mul(u as i64) >> 31) as i32
        } else {
            let ghost orig: i64 = self.seed;
            let ghost mut k: nat = 0;
            let mut fuel: u64 = u64::MAX;
            let mut bits: i32;
            let mut val: i32;
            loop
                invariant_except_break
                    bound > 0,
                    fuel >= 1,
                    k + fuel == u64::MAX,
                    self.seed == nth_state(orig, k),
                    forall|j: nat|
                        1 <= j <= k ==> !accepts(
                            top_bits(#[trigger] nth_state(orig, j), 31),
                            bound,
                        ),
                ensures
                    bound > 0,
                    0 <= self.seed <= MASK48,
                    0 <= val < bound,
                    exists|kk: nat|
                        1 <= kk && self.seed == nth_state(orig, kk) && val == general_int_value(
                            top_bits(nth_state(orig, kk), 31),
                            bound,
                        ) && (accepts(top_bits(nth_state(orig, kk), 31), bound) || kk
                            >= 0xFFFF_FFFF_FFFF_FFFF) && (forall|j: nat|
                            1 <= j < kk ==> !accepts(
                                top_bits(#[trigger] nth_state(orig, j), 31),
                                bound,
                            )),
                decreases fuel,
            {
                bits = JavaRandom::random_next(self, 31);
                fuel = fuel - 1;
                proof {
                    k = k + 1;
                }
                val = bits % bound;
                if bits.wrapping_sub(val).wrapping_add(bound - 1) >= 0 || fuel == 0 {
                    proof {
                        assert(1 <= k && self.seed == nth_state(orig, k) && val
                            == general_int_value(top_bits(nth_state(orig, k), 31), bound) && (
                        accepts(top_bits(nth_state(orig, k), 31), bound) || k
                            >= 0xFFFF_FFFF_FFFF_FFFF) && (forall|j: nat|
                            1 <= j < k ==> !accepts(
                                top_bits(#[trigger] nth_state(orig, j), 31),
                                bound,
                            )));
                    }
                    break ;
                }
                proof {
                    assert(!accepts(bits, bound));
                }
            }
            val
        }
    }
}

} // verus!
