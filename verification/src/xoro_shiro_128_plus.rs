use vstd::prelude::*;

use crate::random_generator::RandomGenerator;

verus! {

/// First fixed 64-bit jump constant of the jump polynomial.
pub const JUMP_0: u64 = 0xdf90_0294_d8f5_54a5;

/// Second fixed 64-bit jump constant of the jump polynomial.
pub const JUMP_1: u64 = 0x1708_65df_4b32_01fc;

/// A xoroshiro128+ generator: two 64-bit state words, 32-bit outputs.
///
/// The output is the low 32 bits of `s0 + s1`, reinterpreted as a signed
/// 32-bit integer. This variant deliberately emits the low bits of the
/// sum; the exact bit selection is part of the contract and is kept for
/// output compatibility.
pub struct XoroShiro128Plus {
    /// The first 64-bit state word.
    pub s0: u64,
    /// The second 64-bit state word.
    pub s1: u64,
}

/// Left rotation of a 64-bit word by `k` bits.
pub open spec fn spec_rotl(x: u64, k: u64) -> u64
    recommends
        0 < k < 64,
{
    (x << k) | (x >> ((64 - k) as u64))
}

/// The low 32 bits of the sum of the two state words.
pub open spec fn spec_sum_low32(s0: u64, s1: u64) -> u64 {
    ((s0 + s1) % 0x1_0000_0000) as u64
}

/// Reinterpret a value below `2^32` as a signed 32-bit integer.
pub open spec fn spec_to_signed32(v: u64) -> i32
    recommends
        v < 0x1_0000_0000,
{
    if v < 0x8000_0000 {
        v as i32
    } else {
        (v - 0x1_0000_0000) as i32
    }
}

/// The generator built from a numeric seed: only the low 32 bits of the
/// seed are used. The top state word has its upper half all ones and its
/// lower half the 32-bit complement of the seed; the bottom state word
/// carries the seed in its upper half. No seed can reach the all-zero
/// state.
pub open spec fn spec_seeded(seed: u64) -> XoroShiro128Plus {
    let safe_seed = seed % 0x1_0000_0000;
    XoroShiro128Plus {
        s0: (0xffff_ffff_0000_0000 + (0xffff_ffff - safe_seed)) as u64,
        s1: (safe_seed * 0x1_0000_0000) as u64,
    }
}

impl XoroShiro128Plus {
    /// Well-formed state: the two words are never both zero. The
    /// all-zero state is a fixed point of the update and must never be
    /// reachable from a valid seed.
    pub open spec fn wf(&self) -> bool {
        !(self.s0 == 0 && self.s1 == 0)
    }
}

/// One accumulation pass of the jump algorithm over one 64-bit jump
/// constant: for each bit of the constant, in order, the current state
/// is folded into the accumulator when the bit is set, and the state is
/// advanced by one draw regardless.
pub open spec fn spec_jump_pass(
    st: XoroShiro128Plus,
    acc0: u64,
    acc1: u64,
    j: u64,
    b: nat,
) -> (XoroShiro128Plus, u64, u64)
    decreases 64 - b,
{
    if b >= 64 {
        (st, acc0, acc1)
    } else {
        let hit = j & (1u64 << (b as u64)) != 0;
        let n0 = if hit {
            acc0 ^ st.s0
        } else {
            acc0
        };
        let n1 = if hit {
            acc1 ^ st.s1
        } else {
            acc1
        };
        spec_jump_pass(st.spec_step(), n0, n1, j, b + 1)
    }
}

/// Left rotation of a 64-bit word by `k` bits.
fn rotl(x: u64, k: u64) -> (r: u64)
    requires
        0 < k < 64,
    ensures
        r == spec_rotl(x, k),
{
    (x << k) | (x >> (64 - k))
}

/// Masking a 64-bit word with `0xffff_ffff` is reduction modulo `2^32`.
proof fn lemma_mask32_is_mod(x: u64)
    ensures
        x & 0xffff_ffff == x % 0x1_0000_0000,
        x & 0xffff_ffff < 0x1_0000_0000,
{
    vstd::bits::lemma_u64_low_bits_mask_is_mod(x, 32);
    vstd::bits::lemma_low_bits_mask_values();
    vstd::arithmetic::power2::lemma2_to64();
}

/// The low 32 bits of a 64-bit sum can be taken from the low 32 bits of
/// the addends, whose sum cannot overflow 64 bits.
proof fn lemma_sum_low32(x: u64, y: u64)
    ensures
        x & 0xffff_ffff < 0x1_0000_0000,
        y & 0xffff_ffff < 0x1_0000_0000,
        (((x & 0xffff_ffff) + (y & 0xffff_ffff)) as u64) & 0xffff_ffff == spec_sum_low32(x, y),
        spec_sum_low32(x, y) < 0x1_0000_0000,
{
    lemma_mask32_is_mod(x);
    lemma_mask32_is_mod(y);
    lemma_mask32_is_mod((((x & 0xffff_ffff) + (y & 0xffff_ffff)) as u64));
    vstd::arithmetic::div_mod::lemma_add_mod_noop(x as int, y as int, 0x1_0000_0000);
    vstd::arithmetic::div_mod::lemma_mod_bound((x % 0x1_0000_0000) + (y % 0x1_0000_0000), 0x1_0000_0000);
    vstd::arithmetic::div_mod::lemma_mod_twice((x + y) as int, 0x1_0000_0000);
}

impl RandomGenerator for XoroShiro128Plus {
    open spec fn spec_min(&self) -> i32 {
        i32::MIN
    }

    open spec fn spec_max(&self) -> i32 {
        i32::MAX
    }

    open spec fn spec_output(&self) -> i32 {
        spec_to_signed32(spec_sum_low32(self.s0, self.s1))
    }

    open spec fn spec_step(&self) -> Self {
        let t = self.s0 ^ self.s1;
        XoroShiro128Plus {
            s0: spec_rotl(self.s0, 24) ^ t ^ (t << 16),
            s1: spec_rotl(t, 37),
        }
    }

    open spec fn spec_jump(&self) -> Self {
        let (mid, a0, a1) = spec_jump_pass(*self, 0, 0, JUMP_0, 0);
        let (_end, f0, f1) = spec_jump_pass(mid, a0, a1, JUMP_1, 0);
        XoroShiro128Plus { s0: f0, s1: f1 }
    }

    proof fn lemma_bounds(&self) {
    }

    proof fn lemma_output_in_bounds(&self) {
    }

    proof fn lemma_step_keeps_bounds(&self) {
    }

    fn min(&self) -> (r: i32) {
        i32::MIN
    }

    fn max(&self) -> (r: i32) {
        i32::MAX
    }

    fn clone(&self) -> (r: Self) {
        XoroShiro128Plus { s0: self.s0, s1: self.s1 }
    }

    fn next(&self) -> (r: (i32, Self)) {
        let mut next_rng = self.clone();
        let out = next_rng.unsafeNext();
        (out, next_rng)
    }

    fn jump(&self) -> (r: Self) {
        let mut next_rng = self.clone();
        next_rng.unsafeJump();
        next_rng
    }

    #[allow(non_snake_case)]
    fn unsafeNext(&mut self) -> (r: i32) {
        let s0 = self.s0;
        let s1 = self.s1;
        proof {
            lemma_sum_low32(s0, s1);
        }
        let low32 = ((s0 & 0xffff_ffff) + (s1 & 0xffff_ffff)) & 0xffff_ffff;
        let result: i32 = if low32 < 0x8000_0000 {
            low32 as i32
        } else {
            ((low32 as i64) - 0x1_0000_0000) as i32
        };
        let t = s0 ^ s1;
        self.s0 = rotl(s0, 24) ^ t ^ (t << 16);
        self.s1 = rotl(t, 37);
        result
    }

    #[allow(non_snake_case)]
    fn unsafeJump(&mut self) {
        let ghost start = *self;
        let mut acc0: u64 = 0;
        let mut acc1: u64 = 0;
        let mut b: u64 = 0;
        while b < 64
            invariant
                b <= 64,
                spec_jump_pass(*self, acc0, acc1, JUMP_0, b as nat) == spec_jump_pass(
                    start,
                    0,
                    0,
                    JUMP_0,
                    0,
                ),
            decreases 64 - b,
        {
            let ghost pre = *self;
            let ghost pa0 = acc0;
            let ghost pa1 = acc1;
            if JUMP_0 & (1u64 << b) != 0 {
                acc0 = acc0 ^ self.s0;
                acc1 = acc1 ^ self.s1;
            }
            let _ = self.unsafeNext();
            b = b + 1;
            proof {
                assert(spec_jump_pass(pre, pa0, pa1, JUMP_0, (b - 1) as nat) == spec_jump_pass(
                    *self,
                    acc0,
                    acc1,
                    JUMP_0,
                    b as nat,
                ));
            }
        }
        let ghost mid = *self;
        let ghost ma0 = acc0;
        let ghost ma1 = acc1;
        let mut c: u64 = 0;
        while c < 64
            invariant
                c <= 64,
                spec_jump_pass(*self, acc0, acc1, JUMP_1, c as nat) == spec_jump_pass(
                    mid,
                    ma0,
                    ma1,
                    JUMP_1,
                    0,
                ),
            decreases 64 - c,
        {
            let ghost pre = *self;
            let ghost pa0 = acc0;
            let ghost pa1 = acc1;
            if JUMP_1 & (1u64 << c) != 0 {
                acc0 = acc0 ^ self.s0;
                acc1 = acc1 ^ self.s1;
            }
            let _ = self.unsafeNext();
            c = c + 1;
            proof {
                assert(spec_jump_pass(pre, pa0, pa1, JUMP_1, (c - 1) as nat) == spec_jump_pass(
                    *self,
                    acc0,
                    acc1,
                    JUMP_1,
                    c as nat,
                ));
            }
        }
        self.s0 = acc0;
        self.s1 = acc1;
    }
}

/// Build a generator from a numeric seed: the low 32 bits of the seed
/// are used, as specified by `spec_seeded`. The resulting state is
/// well formed for every seed.
pub fn xoro_shiro_128_plus(seed: u64) -> (r: XoroShiro128Plus)
    ensures
        r == spec_seeded(seed),
        r.wf(),
{
    proof {
        lemma_mask32_is_mod(seed);
        vstd::arithmetic::power2::lemma2_to64();
        vstd::bits::lemma_u64_shl_is_mul(seed & 0xffff_ffff, 32);
    }
    let safe_seed = seed & 0xffff_ffff;
    let s0 = 0xffff_ffff_0000_0000 + (0xffff_ffff - safe_seed);
    let s1 = safe_seed << 32;
    XoroShiro128Plus { s0, s1 }
}

/// Seeding establishes the state invariant: no seed reaches the
/// all-zero state.
pub proof fn lemma_seeded_wf(seed: u64)
    ensures
        spec_seeded(seed).wf(),
{
}

/// One draw preserves the state invariant: the update maps no non-zero
/// state to the all-zero state.
pub proof fn lemma_step_preserves_wf(g: XoroShiro128Plus)
    requires
        g.wf(),
    ensures
        g.spec_step().wf(),
{
    let x = g.s0;
    let y = g.s1;
    assert(((((x << 24) | (x >> 40)) ^ (x ^ y) ^ ((x ^ y) << 16)) == 0 && (((x ^ y) << 37) | ((x
        ^ y) >> 27)) == 0) ==> (x == 0 && y == 0)) by (bit_vector);
}

} // verus!

