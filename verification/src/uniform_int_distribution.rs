use vstd::prelude::*;

use crate::random_generator::cardinality;
use crate::random_generator::delta_at;
use crate::random_generator::lemma_delta_in_range;
use crate::random_generator::lemma_steps_add;
use crate::random_generator::lemma_steps_keep_bounds;
use crate::random_generator::steps;
use crate::random_generator::RandomGenerator;
use vstd::arithmetic::power::pow;

verus! {

/// Hard cap on the number of rejection attempts of one sampling call.
///
/// Rejection sampling has no natural iteration bound, but every loop here
/// must provably terminate, so a sampling loop gives up after this many
/// rejected attempts and falls back to the lower end of the range. Each
/// attempt is rejected with probability below one half, so reaching the
/// cap would take an astronomically unlikely run of about `2^64`
/// consecutive rejections.
pub const ATTEMPT_BOUND: u64 = 0xffff_ffff_ffff_ffff;

/// The sampler's precondition: ordered bounds, a range size that fits the
/// signed 64-bit domain and, where several draws must be aggregated
/// (range larger than the native cardinality), a generator with at least
/// two distinct outputs — with a single output no aggregate can ever
/// reach the range.
pub open spec fn sample_pre<G: RandomGenerator>(g: G, from: int, to: int) -> bool {
    &&& from <= to
    &&& to - from + 1 <= i64::MAX
    &&& (to - from + 1 <= cardinality(g) || cardinality(g) >= 2)
}

/// The largest multiple of the range size `rs` that does not exceed the
/// generator's native cardinality: single draws at or above it are
/// rejected, since folding them with `% rs` would bias low values.
pub open spec fn max_allowed_of<G: RandomGenerator>(g: G, rs: int) -> int {
    cardinality(g) - cardinality(g) % rs
}

/// Whether the single-draw attempt consuming draw `n` is accepted.
pub open spec fn accepts_small<G: RandomGenerator>(g: G, rs: int, n: nat) -> bool {
    delta_at(g, n) < max_allowed_of(g, rs)
}

/// Sampling outcome when the range size fits within the native
/// cardinality: one draw per attempt. Either some attempt `n` before the
/// cap is the first accepted one, its shifted output is folded into the
/// range, and the generator has advanced by `n + 1` draws; or every
/// attempt up to the cap was rejected and the result falls back to
/// `from`.
pub open spec fn sample_post_small<G: RandomGenerator>(
    g0: G,
    from: int,
    to: int,
    r: int,
    g1: G,
) -> bool {
    let rs = to - from + 1;
    ||| (exists|n: nat|
        #![auto]
        n < ATTEMPT_BOUND && (forall|m: nat| m < n ==> !accepts_small(g0, rs, m))
            && accepts_small(g0, rs, n) && r == from + delta_at(g0, n) % rs && g1 == steps(
            g0,
            n + 1,
        ))
    ||| ((forall|m: nat| #![auto] m < ATTEMPT_BOUND ==> !accepts_small(g0, rs, m)) && r == from
        && g1 == steps(g0, ATTEMPT_BOUND as nat))
}

/// The value aggregated from `k` consecutive draws starting at state `g`:
/// each draw appends one digit, most significant first, in base
/// `cardinality(g)`. The aggregate is uniform over `[0, cardinality^k)`.
pub open spec fn aggregated<G: RandomGenerator>(g: G, k: nat) -> int
    decreases k,
{
    if k == 0 {
        0
    } else {
        aggregated(g, (k - 1) as nat) * cardinality(g) + delta_at(g, (k - 1) as nat)
    }
}

/// The value built by multi-draw attempt `a`, where every attempt
/// consumes `iters` draws.
pub open spec fn attempt_value<G: RandomGenerator>(g0: G, iters: nat, a: nat) -> int {
    aggregated(steps(g0, a * iters), iters)
}

/// Whether multi-draw attempt `a` is accepted: its aggregate lies below
/// the largest multiple of `rs` not exceeding `cardinality^iters`.
pub open spec fn accepts_large<G: RandomGenerator>(g0: G, iters: nat, rs: int, a: nat) -> bool {
    attempt_value(g0, iters, a) < rs * (pow(cardinality(g0), iters) / rs)
}

/// `iters` is the number of draws aggregated per attempt: the smallest
/// exponent, at least two, whose power of the cardinality reaches the
/// range size.
pub open spec fn is_num_iterations<G: RandomGenerator>(g0: G, rs: int, iters: nat) -> bool {
    &&& 2 <= iters
    &&& pow(cardinality(g0), iters) >= rs
    &&& (iters == 2 || pow(cardinality(g0), (iters - 1) as nat) < rs)
}

/// Sampling outcome when the range size exceeds the native cardinality:
/// each attempt aggregates `iters` draws. Either some attempt `a` before
/// the cap is the first accepted one, its aggregate is folded into the
/// range, and the generator has advanced by `(a + 1) * iters` draws; or
/// every attempt up to the cap was rejected and the result falls back to
/// `from`.
pub open spec fn sample_post_large<G: RandomGenerator>(
    g0: G,
    from: int,
    to: int,
    r: int,
    g1: G,
) -> bool {
    let rs = to - from + 1;
    exists|iters: nat|
        #![auto]
        is_num_iterations(g0, rs, iters) && {
            ||| (exists|a: nat|
                #![auto]
                a < ATTEMPT_BOUND && (forall|b: nat| b < a ==> !accepts_large(g0, iters, rs, b))
                    && accepts_large(g0, iters, rs, a) && r == from + attempt_value(
                    g0,
                    iters,
                    a,
                ) % rs && g1 == steps(g0, (a + 1) * iters))
            ||| ((forall|b: nat| #![auto] b < ATTEMPT_BOUND ==> !accepts_large(g0, iters, rs, b))
                && r == from && g1 == steps(g0, (ATTEMPT_BOUND as nat) * iters))
        }
}

/// The sampler's full outcome, by which of the two schemes applies.
pub open spec fn sample_post<G: RandomGenerator>(g0: G, from: int, to: int, r: int, g1: G) -> bool {
    if to - from + 1 <= cardinality(g0) {
        sample_post_small(g0, from, to, r, g1)
    } else {
        sample_post_large(g0, from, to, r, g1)
    }
}

/// The failure raised by the checked sampling entry point when a
/// precondition does not hold; it is reported before any draw occurs.
#[derive(Debug, PartialEq, Eq, Structural)]
pub struct PreconditionViolation;

/// Draw an integer uniformly distributed over `[from, to]` inclusive,
/// advancing the generator in place by one or more draws.
///
/// Both schemes are rejection sampling: draws landing in the residual
/// region whose size is not an exact multiple of the range size are
/// discarded, so no modulo bias arises. Callers needing the generator's
/// prior state must clone before calling.
#[verifier::loop_isolation(false)]
pub fn unsafe_uniform_int_distribution<G: RandomGenerator>(from: i64, to: i64, rng: &mut G) -> (r:
    i64)
    requires
        sample_pre(*old(rng), from as int, to as int),
    ensures
        from <= r <= to,
        sample_post(*old(rng), from as int, to as int, r as int, *final(rng)),
{
    let ghost g0 = *rng;
    proof {
        g0.lemma_bounds();
    }
    let range_size = to - from + 1;
    let min_value = rng.min() as i64;
    let max_value = rng.max() as i64;
    let num_values = max_value - min_value + 1;
    let ghost rs = range_size as int;
    let ghost nv = cardinality(g0);

    if range_size <= num_values {
        // One draw per attempt suffices.
        let max_allowed = num_values - num_values % range_size;
        let mut attempt: u64 = 0;
        while attempt < ATTEMPT_BOUND
            invariant
                attempt <= ATTEMPT_BOUND,
                *rng == steps(g0, attempt as nat),
                forall|m: nat| m < attempt as nat ==> !accepts_small(g0, rs, m),
            decreases ATTEMPT_BOUND - attempt,
        {
            proof {
                lemma_delta_in_range(g0, attempt as nat);
                lemma_steps_keep_bounds(g0, attempt as nat);
            }
            let out = rng.unsafeNext();
            let delta = (out as i64) - min_value;
            if delta < max_allowed {
                proof {
                    vstd::arithmetic::div_mod::lemma_mod_bound(delta as int, rs);
                    assert(accepts_small(g0, rs, attempt as nat));
                    assert(sample_post_small(g0, from as int, to as int, (from + delta
                        % range_size) as int, *rng));
                }
                return from + delta % range_size;
            }
            attempt = attempt + 1;
        }
        // Attempt budget exhausted: fall back to the lower end.
        return from;
    }
    // The range exceeds the native cardinality: aggregate several draws
    // as digits of a base-`num_values` number. `sample_pre` guarantees
    // `num_values >= 2` here, so the powers below strictly grow.
    proof {
        vstd::arithmetic::power::lemma_square_is_pow2(nv);
        vstd::arithmetic::power2::lemma_pow2(2);
        vstd::arithmetic::power2::lemma2_to64();
        assert(nv * nv >= 4) by (nonlinear_arith)
            requires
                nv >= 2,
        ;
        assert(num_values as int * (num_values as int) <= 0x1_0000_0000 * 0x1_0000_0000)
            by (nonlinear_arith)
            requires
                0 < num_values as int && num_values as int <= 0x1_0000_0000,
        ;
    }
    let mut final_num_values: i128 = (num_values as i128) * (num_values as i128);
    let mut num_iterations: u64 = 2;
    while final_num_values < (range_size as i128)
        invariant
            2 <= num_iterations <= 64,
            final_num_values as int == pow(nv, num_iterations as nat),
            pow(2, num_iterations as nat) <= final_num_values as int,
            forall|j: nat| 2 <= j < num_iterations as nat ==> pow(nv, j) < rs,
        decreases 64 - num_iterations,
    {
        proof {
            // The exponent stays below 64: otherwise the power would
            // already exceed any representable range size.
            vstd::arithmetic::power2::lemma2_to64_rest();
            vstd::arithmetic::power2::lemma_pow2(63);
            vstd::arithmetic::power2::lemma_pow2(2);
            if num_iterations >= 63 {
                vstd::arithmetic::power::lemma_pow_increases(2, 63, num_iterations as nat);
                assert(false);
            }
            // One more digit multiplies the power by the base.
            vstd::arithmetic::power::lemma_pow_adds(nv, num_iterations as nat, 1);
            vstd::arithmetic::power::lemma_pow_adds(2, num_iterations as nat, 1);
            vstd::arithmetic::power::lemma_pow1(nv);
            vstd::arithmetic::power::lemma_pow1(2);
            assert(pow(nv, (num_iterations + 1) as nat) == pow(nv, num_iterations as nat) * nv);
            assert(pow(2, (num_iterations + 1) as nat) == pow(2, num_iterations as nat) * 2);
            vstd::arithmetic::power::lemma_pow_positive(2, num_iterations as nat);
            assert(0 < final_num_values as int * nv && final_num_values as int * nv
                <= 0x7fff_ffff_ffff_ffff * 0x1_0000_0000) by (nonlinear_arith)
                requires
                    0 < final_num_values as int,
                    final_num_values as int <= rs,
                    2 <= nv && nv <= 0x1_0000_0000,
                    0 < rs && rs <= 0x7fff_ffff_ffff_ffff,
            ;
            assert(pow(2, num_iterations as nat) * 2 <= final_num_values as int * nv)
                by (nonlinear_arith)
                requires
                    pow(2, num_iterations as nat) <= final_num_values as int,
                    0 < final_num_values as int,
                    nv >= 2,
            ;
        }
        final_num_values = final_num_values * (num_values as i128);
        num_iterations = num_iterations + 1;
    }
    let ghost iters = num_iterations as nat;
    proof {
        assert(is_num_iterations(g0, rs, iters));
        vstd::arithmetic::div_mod::lemma_fundamental_div_mod(final_num_values as int, rs);
        vstd::arithmetic::div_mod::lemma_mod_bound(final_num_values as int, rs);
        vstd::arithmetic::div_mod::lemma_div_pos_is_pos(final_num_values as int, rs);
    }
    let truncated = final_num_values / (range_size as i128);
    let max_accepted = (range_size as i128) * truncated;
    let mut attempt: u64 = 0;
    while attempt < ATTEMPT_BOUND
        invariant
            attempt <= ATTEMPT_BOUND,
            *rng == steps(g0, (attempt as nat) * iters),
            forall|b: nat| b < attempt as nat ==> !accepts_large(g0, iters, rs, b),
        decreases ATTEMPT_BOUND - attempt,
    {
        let ghost ga = *rng;
        proof {
            lemma_steps_keep_bounds(g0, (attempt as nat) * iters);
            vstd::arithmetic::power::lemma_pow0(nv);
        }
        let mut value: i128 = 0;
        let mut i: u64 = 0;
        while i < num_iterations
            invariant
                i <= num_iterations,
                *rng == steps(ga, i as nat),
                value as int == aggregated(ga, i as nat),
                0 <= value as int,
                (value as int) < pow(nv, i as nat),
            decreases num_iterations - i,
        {
            proof {
                lemma_delta_in_range(ga, i as nat);
                lemma_steps_keep_bounds(ga, i as nat);
                vstd::arithmetic::power::lemma_pow_adds(nv, i as nat, 1);
                vstd::arithmetic::power::lemma_pow1(nv);
                assert(pow(nv, (i + 1) as nat) == pow(nv, i as nat) * nv);
                assert(value as int * nv + delta_at(ga, i as nat) < pow(nv, i as nat) * nv)
                    by (nonlinear_arith)
                    requires
                        (value as int) < pow(nv, i as nat),
                        0 <= delta_at(ga, i as nat) < nv,
                        0 < nv,
                        0 < pow(nv, i as nat),
                ;
                assert(0 <= value as int * nv) by (nonlinear_arith)
                    requires
                        0 <= value as int,
                        0 < nv,
                ;
                vstd::arithmetic::power::lemma_pow_increases(nv as nat, (i + 1) as nat, iters);
            }
            let out = rng.unsafeNext();
            let digit = (out as i64) - min_value;
            value = value * (num_values as i128) + (digit as i128);
            i = i + 1;
        }
        if value < max_accepted {
            proof {
                vstd::arithmetic::div_mod::lemma_mod_bound(value as int, rs);
                lemma_steps_add(g0, (attempt as nat) * iters, iters);
                assert((attempt as nat) * iters + iters == (attempt as nat + 1) * iters)
                    by (nonlinear_arith);
                let ghost a = attempt as nat;
                assert(attempt_value(g0, iters, a) == value as int);
                assert(accepts_large(g0, iters, rs, a));
                assert(*rng == steps(g0, (a + 1) * iters));
                let ghost rr = from + (value as int) % rs;
                assert(a < ATTEMPT_BOUND && (forall|b: nat| b < a ==> !accepts_large(
                    g0,
                    iters,
                    rs,
                    b,
                )) && accepts_large(g0, iters, rs, a) && rr == from + attempt_value(g0, iters, a)
                    % rs && *rng == steps(g0, (a + 1) * iters));
                assert(is_num_iterations(g0, rs, iters));
                assert(sample_post_large(g0, from as int, to as int, rr, *rng));
            }
            return from + ((value % (range_size as i128)) as i64);
        }
        proof {
            lemma_steps_add(g0, (attempt as nat) * iters, iters);
            assert((attempt as nat) * iters + iters == (attempt as nat + 1) * iters)
                by (nonlinear_arith);
        }
        attempt = attempt + 1;
    }
    // Attempt budget exhausted: fall back to the lower end.
    proof {
        assert(is_num_iterations(g0, rs, iters));
        assert((forall|b: nat| #![auto] b < ATTEMPT_BOUND ==> !accepts_large(g0, iters, rs, b))
            && from as int == from as int && *rng == steps(g0, (ATTEMPT_BOUND as nat) * iters));
        assert(sample_post_large(g0, from as int, to as int, from as int, *rng));
    }
    return from;
}

/// Draw an integer uniformly distributed over `[from, to]` inclusive,
/// checking the sampler's preconditions first: a violation is reported
/// as a `PreconditionViolation` before any draw occurs, instead of
/// producing a wrapped-around or out-of-range result.
pub fn uniform_int_distribution<G: RandomGenerator>(from: i64, to: i64, rng: &mut G) -> (r: Result<
    i64,
    PreconditionViolation,
>)
    ensures
        match r {
            Ok(v) => sample_pre(*old(rng), from as int, to as int) && from <= v <= to
                && sample_post(*old(rng), from as int, to as int, v as int, *final(rng)),
            Err(_) => !sample_pre(*old(rng), from as int, to as int) && *final(rng) == *old(rng),
        },
{
    proof {
        old(rng).lemma_bounds();
    }
    let min_value = rng.min();
    let max_value = rng.max();
    let num_values = (max_value as i64) - (min_value as i64) + 1;
    if from > to {
        return Err(PreconditionViolation);
    }
    let range_wide: i128 = (to as i128) - (from as i128) + 1;
    if range_wide > (i64::MAX as i128) {
        return Err(PreconditionViolation);
    }
    if range_wide > (num_values as i128) && num_values < 2 {
        return Err(PreconditionViolation);
    }
    Ok(unsafe_uniform_int_distribution(from, to, rng))
}

} // verus!
