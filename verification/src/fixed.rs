//! The linear map between a physical range and a sixteen-bit code.
//!
//! A physical value is an integer number of millionths. A range `[min, max]`
//! is cut into 65535 steps: a value is encoded as the number of whole steps
//! that lie below it, and a code is decoded as the first value that has at
//! least that many steps below it. With the two roundings chosen this way,
//! decoding and encoding again gives the code back, and encoding and
//! decoding again never moves a value by a whole step.

use vstd::prelude::*;
use vstd::arithmetic::div_mod::{lemma_fundamental_div_mod, lemma_fundamental_div_mod_converse};
use crate::types::MotorType;

verus! {

/// The largest code: the number of steps of a range.
pub const FULL_SCALE: u16 = 65535;

/// The code of `x` in the range `[x_min, x_max]`: the whole part of
/// `(x - x_min) * 65535 / (x_max - x_min)`, held to what sixteen bits can
/// say. The range itself is not enforced: a value below it has code 0, a
/// value above it a code as far as 65535.
pub open spec fn spec_fixed_to_uint(x: int, x_min: int, x_max: int) -> int {
    let steps = ((x - x_min) * 65535) / (x_max - x_min);
    if steps < 0 {
        0
    } else if steps > 65535 {
        65535
    } else {
        steps
    }
}

/// The value that the code `u` stands for in the range `[x_min, x_max]`:
/// `u * (x_max - x_min) / 65535 + x_min`, rounded up to the next millionth.
pub open spec fn spec_uint_to_fixed(u: int, x_min: int, x_max: int) -> int {
    (u * (x_max - x_min) + 65534) / 65535 + x_min
}

/// Encodes a physical value as a sixteen-bit code.
pub fn fixed_to_uint(x: i64, x_min: i64, x_max: i64) -> (u: u16)
    requires
        x_min < x_max,
    ensures
        u == spec_fixed_to_uint(x as int, x_min as int, x_max as int),
{
    let span: i128 = x_max as i128 - x_min as i128;
    if x <= x_min {
        proof {
            let n = (x - x_min) * 65535;
            lemma_fundamental_div_mod(n, span as int);
            assert(n / (span as int) <= 0) by (nonlinear_arith)
                requires
                    n <= 0,
                    span > 0,
                    n == span * (n / (span as int)) + n % (span as int),
                    0 <= n % (span as int) < span,
            ;
        }
        return 0;
    }
    let offset: i128 = x as i128 - x_min as i128;
    let scaled: i128 = offset * 65535;
    let steps: i128 = scaled / span;
    proof {
        lemma_fundamental_div_mod(scaled as int, span as int);
        assert(steps >= 0) by (nonlinear_arith)
            requires
                scaled >= 0,
                span > 0,
                scaled == span * steps + scaled % span,
                0 <= scaled % span < span,
        ;
    }
    if steps > 65535 {
        65535
    } else {
        steps as u16
    }
}

/// Decodes a sixteen-bit code into a physical value of the range.
pub fn uint_to_fixed(x_int: u16, x_min: i64, x_max: i64) -> (x: i64)
    requires
        x_min < x_max,
    ensures
        x == spec_uint_to_fixed(x_int as int, x_min as int, x_max as int),
        x_min <= x <= x_max,
{
    let span: i128 = x_max as i128 - x_min as i128;
    assert(0 <= x_int * span <= 65535 * span) by (nonlinear_arith)
        requires
            0 <= x_int <= 65535,
            span > 0,
    ;
    let scaled: i128 = x_int as i128 * span + 65534;
    let whole: i128 = scaled / 65535;
    (whole + x_min as i128) as i64
}

/// A value of the range, encoded and decoded again, comes back no larger
/// than it was and less than one step smaller: the error times 65535 stays
/// below the width of the range.
pub proof fn lemma_decode_encode_within_step(x: int, x_min: int, x_max: int)
    requires
        x_min < x_max,
        x_min <= x <= x_max,
    ensures
        spec_uint_to_fixed(spec_fixed_to_uint(x, x_min, x_max), x_min, x_max) <= x,
        (x - spec_uint_to_fixed(spec_fixed_to_uint(x, x_min, x_max), x_min, x_max)) * 65535 < x_max
            - x_min,
        0 <= spec_fixed_to_uint(x, x_min, x_max) <= 65535,
{
    let span = x_max - x_min;
    let n = (x - x_min) * 65535;
    let q = n / span;
    let r = n % span;
    lemma_fundamental_div_mod(n, span);
    assert(0 <= q <= 65535) by (nonlinear_arith)
        requires
            n == span * q + r,
            0 <= r < span,
            0 <= n <= 65535 * span,
    ;
    assert(spec_fixed_to_uint(x, x_min, x_max) == q);
    let m = q * span + 65534;
    lemma_fundamental_div_mod(m, 65535);
    assert(q * span == span * q) by (nonlinear_arith);
}

/// A code, decoded and encoded again, comes back unchanged, if the range is
/// at least 65535 millionths wide (so that no two codes share a value), or
/// if the code stands for a whole number of millionths.
pub proof fn lemma_encode_decode_exact(u: int, x_min: int, x_max: int)
    requires
        x_min < x_max,
        0 <= u <= 65535,
        x_max - x_min >= 65535 || (u * (x_max - x_min)) % 65535 == 0,
    ensures
        spec_fixed_to_uint(spec_uint_to_fixed(u, x_min, x_max), x_min, x_max) == u,
{
    let span = x_max - x_min;
    let m = u * span + 65534;
    let d = m / 65535;
    lemma_fundamental_div_mod(m, 65535);
    lemma_fundamental_div_mod(u * span, 65535);
    let n = d * 65535;
    let rest = n - u * span;
    assert(0 <= rest < span) by {
        if span < 65535 {
            let k = (u * span) / 65535;
            assert(u * span == 65535 * k);
            assert(m == 65535 * k + 65534);
            lemma_fundamental_div_mod_converse(m, 65535, k, 65534);
        }
    }
    assert(n == u * span + rest);
    lemma_fundamental_div_mod_converse(n, span, u, rest);
    assert(spec_uint_to_fixed(u, x_min, x_max) - x_min == d);
}

/// In every range of every motor variant, a value of the range that is
/// encoded and decoded again comes back no larger than it was, and less than
/// one step smaller.
pub proof fn lemma_variant_decode_encode_within_step(t: MotorType, x: int, lo: int, hi: int)
    requires
        ({
            let c = t.spec_config();
            ||| (lo, hi) == (c.p_min as int, c.p_max as int)
            ||| (lo, hi) == (c.v_min as int, c.v_max as int)
            ||| (lo, hi) == (c.kp_min as int, c.kp_max as int)
            ||| (lo, hi) == (c.kd_min as int, c.kd_max as int)
            ||| (lo, hi) == (c.t_min as int, c.t_max as int)
        }),
        lo <= x <= hi,
    ensures
        spec_uint_to_fixed(spec_fixed_to_uint(x, lo, hi), lo, hi) <= x,
        (x - spec_uint_to_fixed(spec_fixed_to_uint(x, lo, hi), lo, hi)) * 65535 < hi - lo,
{
    lemma_decode_encode_within_step(x, lo, hi);
}

/// In every range of every motor variant, each of the 65536 codes is decoded
/// to a value whose code it is.
pub proof fn lemma_variant_encode_decode_exact(t: MotorType, u: int)
    requires
        0 <= u <= 65535,
    ensures
        ({
            let c = t.spec_config();
            &&& spec_fixed_to_uint(spec_uint_to_fixed(u, c.p_min as int, c.p_max as int), c.p_min as int, c.p_max as int) == u
            &&& spec_fixed_to_uint(spec_uint_to_fixed(u, c.v_min as int, c.v_max as int), c.v_min as int, c.v_max as int) == u
            &&& spec_fixed_to_uint(spec_uint_to_fixed(u, c.kp_min as int, c.kp_max as int), c.kp_min as int, c.kp_max as int) == u
            &&& spec_fixed_to_uint(spec_uint_to_fixed(u, c.kd_min as int, c.kd_max as int), c.kd_min as int, c.kd_max as int) == u
            &&& spec_fixed_to_uint(spec_uint_to_fixed(u, c.t_min as int, c.t_max as int), c.t_min as int, c.t_max as int) == u
        }),
{
    let c = t.spec_config();
    lemma_encode_decode_exact(u, c.p_min as int, c.p_max as int);
    lemma_encode_decode_exact(u, c.v_min as int, c.v_max as int);
    lemma_encode_decode_exact(u, c.kp_min as int, c.kp_max as int);
    lemma_encode_decode_exact(u, c.kd_min as int, c.kd_max as int);
    lemma_encode_decode_exact(u, c.t_min as int, c.t_max as int);
}

} // verus!
