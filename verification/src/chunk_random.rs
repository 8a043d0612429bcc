//! The seed-mixing layer: a generator wrapper that derives per-chunk
//! (population) and per-feature (decorator) seeds, plus a generalized
//! single step usable forward or backward with arbitrary LCG constants.

use crate::java_random::{
    lemma_mask48_is_mod, lemma_mod64_48, lemma_mul_add_mask48, lemma_wrap_is_mod64, modulus48,
    next_long_value, next_state, scrambled, to_unsigned, top_bits, JavaRandom, MASK48,
};
use vstd::arithmetic::div_mod::{
    lemma_fundamental_div_mod, lemma_mod_bound, lemma_mod_multiples_vanish,
    lemma_mul_mod_noop_left, lemma_mul_mod_noop_right, lemma_small_mod, lemma_sub_mod_noop,
};
use vstd::arithmetic::mul::lemma_mul_is_associative;
use vstd::prelude::*;

verus! {

/// The direction a generalized step moves the state in.
#[derive(Debug, Copy, Clone, PartialEq, Eq, Structural)]
pub enum LcgType {
    Forward,
    Reverse,
}

/// One step rule: the constants of an arbitrary 48-bit-style LCG and the
/// direction to apply them in. For `Reverse`, `multiplier` must already
/// be the modular multiplicative inverse of the forward multiplier; the
/// stepper does not compute or check the inverse.
#[derive(Debug, Copy, Clone)]
pub struct Lcg {
    pub multiplier: i64,
    pub addend: i64,
    pub modulus: i64,
    pub lcg_type: LcgType,
}

/// The state after one forward step:
/// `(state * multiplier + addend) & modulus`, with fixed-width
/// wraparound, over the values' bit patterns.
pub open spec fn forward_state(s: i64, lcg: Lcg) -> i64 {
    ((s as u64).wrapping_mul(lcg.multiplier as u64).wrapping_add(lcg.addend as u64) & (
    lcg.modulus as u64)) as i64
}

/// The state after one reverse step:
/// `((state - addend) * multiplier) & modulus`, with fixed-width
/// wraparound, where `multiplier` is the pre-computed modular inverse.
pub open spec fn reverse_state(s: i64, lcg: Lcg) -> i64 {
    ((s as u64).wrapping_sub(lcg.addend as u64).wrapping_mul(lcg.multiplier as u64) & (
    lcg.modulus as u64)) as i64
}

/// The state one generalized step away, in the rule's own direction.
pub open spec fn stepped_state(s: i64, lcg: Lcg) -> i64 {
    match lcg.lcg_type {
        LcgType::Forward => forward_state(s, lcg),
        LcgType::Reverse => reverse_state(s, lcg),
    }
}

/// The population seed derived from a world seed and chunk coordinates:
/// two odd 64-bit draws from a freshly seeded generator scale the
/// coordinates, and the world seed is folded back in by XOR. The result
/// is the full 64-bit value, not masked to 48 bits.
pub open spec fn population_seed_value(world_seed: i64, x: i32, z: i32) -> i64 {
    let g0 = scrambled(world_seed);
    let s1 = next_long_value(g0) | 1;
    let g2 = next_state(next_state(g0));
    let s2 = next_long_value(g2) | 1;
    (s1.wrapping_mul(x as i64)).wrapping_add(s2.wrapping_mul(z as i64)) ^ world_seed
}

/// The decorator seed derived from a base seed, a feature index and a
/// generation step: `seed + index + 10000 * step`, with fixed-width
/// wraparound.
pub open spec fn decorator_seed_value(seed: i64, index: i16, step: i16) -> i64 {
    seed.wrapping_add(index as i64).wrapping_add((10000 * (step as i64)) as i64)
}

/// The inner generator state a population-seed derivation leaves, from
/// any prior inner state `pre`.
pub open spec fn population_post_state(pre: i64, world_seed: i64, x: i32, z: i32) -> i64 {
    scrambled(population_seed_value(world_seed, x, z))
}

/// The inner generator state a decorator-seed derivation leaves, from
/// any prior inner state `pre`.
pub open spec fn decorator_post_state(pre: i64, seed: i64, index: i16, step: i16) -> i64 {
    scrambled(decorator_seed_value(seed, index, step))
}

/// The wrapped subtract-multiply-mask computes the 48-bit reverse step
/// exactly: wrapping at 2^64 never disturbs a result taken modulo 2^48.
proof fn lemma_sub_mul_mask48(t: u64, c: u64, v: u64)
    ensures
        t.wrapping_sub(c).wrapping_mul(v) & 0xFFFF_FFFF_FFFF == ((t - c) * v) % 0x1_0000_0000_0000,
        0 <= ((t - c) * v) % 0x1_0000_0000_0000 <= 0xFFFF_FFFF_FFFF,
{
    let d: u64 = t.wrapping_sub(c);
    let e: u64 = d.wrapping_mul(v);
    assert(d == (t - c) % 0x1_0000_0000_0000_0000) by {
        lemma_wrap_is_mod64(t - c);
    };
    assert(e == (d * v) % 0x1_0000_0000_0000_0000);
    lemma_mask48_is_mod(e);
    lemma_mod64_48(d * v);
    assert((d * v) % 0x1_0000_0000_0000 == ((t - c) * v) % 0x1_0000_0000_0000) by {
        lemma_mul_mod_noop_left(d as int, v as int, 0x1_0000_0000_0000);
        lemma_mod64_48(t - c);
        assert(d % 0x1_0000_0000_0000 == (t - c) % 0x1_0000_0000_0000);
        lemma_mul_mod_noop_left(t - c, v as int, 0x1_0000_0000_0000);
    };
    lemma_mod_bound((t - c) * v, 0x1_0000_0000_0000);
}

/// Law: the canonical generator is the generalized stepper instantiated
/// with the canonical constants — a forward step under the canonical
/// multiplier, increment and 48-bit mask is exactly the canonical step.
pub proof fn lemma_canonical_step_is_forward(s: i64)
    ensures
        forward_state(
            s,
            Lcg {
                multiplier: crate::java_random::MULTIPLIER,
                addend: crate::java_random::INCREMENT,
                modulus: MASK48,
                lcg_type: LcgType::Forward,
            },
        ) == next_state(s),
{
    lemma_mul_add_mask48(s as u64, 0x5DEECE66D, 0xB);
}

/// Law: a reverse step undoes a forward step. For any masked 48-bit
/// state and any pair of step rules over the 48-bit modulus mask that
/// share their increment, where the reverse rule's multiplier is the
/// modular multiplicative inverse (mod 2^48) of the forward rule's,
/// stepping forward and then backward restores the state exactly.
pub proof fn lemma_reverse_inverts_forward(s: i64, fwd: Lcg, rev: Lcg)
    requires
        0 <= s <= MASK48,
        fwd.lcg_type == LcgType::Forward,
        rev.lcg_type == LcgType::Reverse,
        fwd.modulus == MASK48,
        rev.modulus == MASK48,
        rev.addend == fwd.addend,
        (to_unsigned(fwd.multiplier) * to_unsigned(rev.multiplier)) % modulus48() == 1,
    ensures
        stepped_state(stepped_state(s, fwd), rev) == s,
{
    let m48: int = modulus48();
    let us: u64 = s as u64;
    let um: u64 = fwd.multiplier as u64;
    let uc: u64 = fwd.addend as u64;
    let uv: u64 = rev.multiplier as u64;
    lemma_mul_add_mask48(us, um, uc);
    let fu: u64 = us.wrapping_mul(um).wrapping_add(uc) & 0xFFFF_FFFF_FFFF;
    assert(fu == (us * um + uc) % m48);
    let f: i64 = stepped_state(s, fwd);
    assert(f == fu as i64);
    assert(f as u64 == fu);
    lemma_sub_mul_mask48(fu, uc, uv);
    let ru: int = ((fu - uc) * uv) % m48;
    assert(stepped_state(f, rev) == ru as i64);
    assert((fu - uc) % m48 == (us * um) % m48) by {
        let x: int = us * um + uc;
        lemma_fundamental_div_mod(uc as int, m48);
        lemma_sub_mod_noop(x, uc as int, m48);
        lemma_mod_multiples_vanish(
            -((uc as int) / m48),
            (x % m48) - ((uc as int) % m48),
            m48,
        );
        assert(m48 * (-((uc as int) / m48)) + ((x % m48) - ((uc as int) % m48)) == fu - uc);
    };
    assert(ru == ((us * um) % m48 * uv) % m48) by {
        lemma_mul_mod_noop_left(fu - uc, uv as int, m48);
        lemma_mul_mod_noop_left((fu - uc) % m48, uv as int, m48);
        lemma_mul_mod_noop_left((us * um) % m48, uv as int, m48);
    };
    assert(ru == us) by {
        lemma_mul_mod_noop_left(us * um, uv as int, m48);
        lemma_mul_is_associative(us as int, um as int, uv as int);
        lemma_mul_mod_noop_right(us as int, um * uv, m48);
        lemma_small_mod(us as nat, m48 as nat);
    };
}

/// Law: population-seed derivation is deterministic and idempotent. The
/// derived seed and the state it leaves depend on the arguments alone,
/// never on the generator's prior state, and deriving again from the
/// state the first derivation left changes nothing.
pub proof fn lemma_population_seed_deterministic(
    pre1: i64,
    pre2: i64,
    world_seed: i64,
    x: i32,
    z: i32,
)
    ensures
        population_post_state(pre1, world_seed, x, z) == population_post_state(
            pre2,
            world_seed,
            x,
            z,
        ),
        population_post_state(
            population_post_state(pre1, world_seed, x, z),
            world_seed,
            x,
            z,
        ) == population_post_state(pre1, world_seed, x, z),
{
}

/// Law: decorator-seed derivation is deterministic and idempotent. The
/// derived seed and the state it leaves depend on the arguments alone,
/// never on the generator's prior state, and deriving again from the
/// state the first derivation left changes nothing.
pub proof fn lemma_decorator_seed_deterministic(
    pre1: i64,
    pre2: i64,
    seed: i64,
    index: i16,
    step: i16,
)
    ensures
        decorator_post_state(pre1, seed, index, step) == decorator_post_state(
            pre2,
            seed,
            index,
            step,
        ),
        decorator_post_state(
            decorator_post_state(pre1, seed, index, step),
            seed,
            index,
            step,
        ) == decorator_post_state(pre1, seed, index, step),
{
}

/// A generator with the seed-derivation operations layered on top.
#[derive(Debug, Default, Copy, Clone)]
pub struct ChunkRandom {
    pub rand: JavaRandom,
}

impl ChunkRandom {
    /// Re-seeds the inner generator, scrambling `seed` exactly as
    /// `JavaRandom::get_random` does.
    pub fn get_random(&mut self, seed: i64)
        ensures
            final(self).rand.spec_state() == scrambled(seed),
    {
        self.rand = JavaRandom::get_random(seed);
    }

    /// Overwrites the inner generator's state, unchecked.
    pub fn set_seed_state(&mut self, seed: i64)
        ensures
            final(self).rand.spec_state() == seed,
    {
        self.rand.set_seed_state(seed);
    }

    /// The current state of the inner generator.
    pub fn get_seed_state(&self) -> (r: i64)
        ensures
            r == self.rand.spec_state(),
    {
        self.rand.get_seed_state()
    }

    /// Derives the population seed for chunk coordinates `(x, z)` under
    /// `world_seed`, re-seeds the inner generator with it, and returns
    /// it unmasked.
    pub fn set_population_seed(&mut self, world_seed: i64, x: i32, z: i32) -> (r: i64)
        ensures
            r == population_seed_value(world_seed, x, z),
            final(self).rand.spec_state() == scrambled(population_seed_value(world_seed, x, z)),
            final(self).rand.spec_state() == population_post_state(
                old(self).rand.spec_state(),
                world_seed,
                x,
                z,
            ),
    {
        self.rand = JavaRandom::get_random(world_seed);

        let s1: i64 = self.rand.next_long() | 0x1;
        let s2: i64 = self.rand.next_long() | 0x1;

        let new_seed: i64 = s1.wrapping_mul(x as i64).wrapping_add(s2.wrapping_mul(z as i64))
            ^ world_seed;

        self.rand = JavaRandom::get_random(new_seed);
        new_seed
    }

    /// Derives the decorator seed for a feature `index` within a
    /// generation `step` under `seed`, re-seeds the inner generator with
    /// it, and returns it.
    pub fn set_decorator_seed(&mut self, seed: i64, index: i16, step: i16) -> (r: i64)
        ensures
            r == decorator_seed_value(seed, index, step),
            final(self).rand.spec_state() == scrambled(decorator_seed_value(seed, index, step)),
            final(self).rand.spec_state() == decorator_post_state(
                old(self).rand.spec_state(),
                seed,
                index,
                step,
            ),
    {
        let new_seed: i64 = seed.wrapping_add(index as i64).wrapping_add(10000 * (step as i64));
        self.rand = JavaRandom::get_random(new_seed);
        new_seed
    }

    /// Advances the inner state one generalized step — forward or, with a
    /// pre-computed inverse multiplier, backward — and returns the top
    /// `bits` bits of the new state.
    pub fn random_next(&mut self, bits: i32, lcg: &Lcg) -> (r: i32)
        requires
            1 <= bits <= 32,
        ensures
            final(self).rand.spec_state() == stepped_state(old(self).rand.spec_state(), *lcg),
            r == top_bits(stepped_state(old(self).rand.spec_state(), *lcg), bits),
    {
        match lcg.lcg_type {
            LcgType::Forward => {
                let s: i64 = self.rand.get_seed_state();
                self.rand.set_seed_state(
                    ((s as u64).wrapping_mul(lcg.multiplier as u64).wrapping_add(
                        lcg.addend as u64,
                    ) & (lcg.modulus as u64)) as i64,
                );

                (self.rand.get_seed_state() >> ((48 - bits) as u32)) as i32
            },
            LcgType::Reverse => {
                let s: i64 = self.rand.get_seed_state();
                self.rand.set_seed_state(
                    ((s as u64).wrapping_sub(lcg.addend as u64).wrapping_mul(
                        lcg.multiplier as u64,
                    ) & (lcg.modulus as u64)) as i64,
                );

                (self.rand.get_seed_state() >> ((48 - bits) as u32)) as i32
            },
        }
    }
}

} // verus!
