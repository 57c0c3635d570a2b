use vstd::prelude::*;
use vstd::arithmetic::div_mod::{lemma_div_is_ordered, lemma_fundamental_div_mod_converse};
use vstd::arithmetic::mul::lemma_mul_inequality;
use crate::constants::BPS;

verus! {

/// One step of the long multiplication in `mul_div`: appending a bit to the multiplier prefix.
proof fn lemma_mul_div_step(
    a: int, c: int, p: int, bit: int, q: int, r: int, qa: int, ra: int,
    c1: int, r1: int, c2: int, r2: int,
)
    requires
        q * c + r == a * p,
        qa * c + ra == a,
        r + r == c1 * c + r1,
        bit == 0 || bit == 1,
        bit == 1 ==> r1 + ra == c2 * c + r2,
    ensures
        bit == 1 ==> (2 * q + c1 + qa + c2) * c + r2 == a * (2 * p + bit),
        bit == 0 ==> (2 * q + c1) * c + r1 == a * (2 * p + bit),
{
    assert(a * (2 * p + bit) == 2 * (a * p) + bit * a) by (nonlinear_arith);
    assert((2 * q + c1 + qa + c2) * c == 2 * (q * c) + c1 * c + qa * c + c2 * c) by (nonlinear_arith);
    assert((2 * q + c1) * c == 2 * (q * c) + c1 * c) by (nonlinear_arith);
}

/// Doubles `r` modulo `c`: returns the carry and the new remainder.
fn double_mod(r: u128, c: u128) -> (res: (u128, u128))
    requires
        r < c,
    ensures
        res.0 <= 1,
        res.1 < c,
        r + r == res.0 * c + res.1,
{
    if r >= c - r {
        (1, r - (c - r))
    } else {
        (0, r + r)
    }
}

/// Adds `x` to `r` modulo `c`: returns the carry and the new remainder.
fn add_mod(r: u128, x: u128, c: u128) -> (res: (u128, u128))
    requires
        r < c,
        x < c,
    ensures
        res.0 <= 1,
        res.1 < c,
        r + x == res.0 * c + res.1,
{
    if r >= c - x {
        (1, r - (c - x))
    } else {
        (0, r + x)
    }
}

/// The next quotient of the long multiplication, `2 * q + c1 + e1 + e2`, when it fits.
fn next_quotient(q: u128, c1: u128, e1: u128, e2: u128) -> (r: Option<u128>)
    ensures
        r is None <==> 2 * q + c1 + e1 + e2 > u128::MAX,
        r matches Some(v) ==> v == 2 * q + c1 + e1 + e2,
{
    if q > u128::MAX / 2 {
        return None;
    }
    let d: u128 = q * 2;
    if c1 > u128::MAX - d {
        return None;
    }
    let e: u128 = d + c1;
    if e1 > u128::MAX - e {
        return None;
    }
    let f: u128 = e + e1;
    if e2 > u128::MAX - f {
        return None;
    }
    Some(f + e2)
}

/// Computes `floor(a * b / c)` without overflowing on the intermediate product.
/// Returns `None` exactly when the quotient itself does not fit in a `u128`.
pub fn mul_div(a: u128, b: u128, c: u128) -> (r: Option<u128>)
    requires
        c > 0,
    ensures
        r is None <==> (a * b) / (c as int) > u128::MAX,
        r matches Some(v) ==> v == (a * b) / (c as int),
{
    let qa: u128 = a / c;
    let ra: u128 = a % c;
    let mut q: u128 = 0;
    let mut r: u128 = 0;
    let mut p: u128 = 0;
    let mut s: u128 = 128;
    while s > 0
        invariant
            s <= 128,
            c > 0,
            r < c,
            qa == a / c,
            ra == a % c,
            s == 128 ==> p == 0,
            s < 128 ==> p == b >> s,
            q * c + r == a * p,
        decreases s,
    {
        s = s - 1;
        let x: u128 = b >> s;
        let bit: u128 = x & 1;
        let ghost old_p = p;
        assert(x == 2 * (x >> 1u128) + bit && bit <= 1) by (bit_vector)
            requires
                bit == x & 1,
        ;
        assert(x >> 1u128 == old_p) by {
            if s == 127 {
                assert(s == 127u128 ==> (b >> s) >> 1u128 == 0) by (bit_vector);
            } else {
                let s1: u128 = (s + 1) as u128;
                assert(s1 == s + 1 && s1 < 128 ==> (b >> s) >> 1u128 == b >> s1) by (bit_vector);
            }
        }
        assert(x <= b) by (bit_vector)
            requires
                x == b >> s,
        ;
        let (c1, r1) = double_mod(r, c);
        proof {
            assert(qa * c + ra == a) by {
                vstd::arithmetic::div_mod::lemma_fundamental_div_mod(a as int, c as int);
                assert(qa * c == c * qa) by (nonlinear_arith);
            }
        }
        if bit == 1 {
            let (c2, r2) = add_mod(r1, ra, c);
            proof {
                lemma_mul_div_step(a as int, c as int, old_p as int, bit as int, q as int, r as int,
                    qa as int, ra as int, c1 as int, r1 as int, c2 as int, r2 as int);
            }
            let next = next_quotient(q, c1, qa, c2);
            match next {
                Some(nq) => {
                    q = nq;
                    r = r2;
                },
                None => {
                    proof {
                        let total = 2 * q + c1 + qa + c2;
                        assert(total > u128::MAX);
                        lemma_fundamental_div_mod_converse(a * x, c as int, total, r2 as int);
                        lemma_mul_inequality(x as int, b as int, a as int);
                        assert(x * a == a * x && b * a == a * b) by (nonlinear_arith);
                        lemma_div_is_ordered(a * x, a * b, c as int);
                    }
                    return None;
                },
            }
        } else {
            proof {
                lemma_mul_div_step(a as int, c as int, old_p as int, bit as int, q as int, r as int,
                    qa as int, ra as int, c1 as int, r1 as int, 0, 0);
            }
            let next = next_quotient(q, c1, 0, 0);
            match next {
                Some(nq) => {
                    q = nq;
                    r = r1;
                },
                None => {
                    proof {
                        let total = 2 * q + c1;
                        assert(total > u128::MAX);
                        lemma_fundamental_div_mod_converse(a * x, c as int, total, r1 as int);
                        lemma_mul_inequality(x as int, b as int, a as int);
                        assert(x * a == a * x && b * a == a * b) by (nonlinear_arith);
                        lemma_div_is_ordered(a * x, a * b, c as int);
                    }
                    return None;
                },
            }
        }
        p = x;
    }
    proof {
        assert(b >> 0u128 == b) by (bit_vector);
        lemma_fundamental_div_mod_converse(a * b, c as int, q as int, r as int);
    }
    Some(q)
}

/// The clamped linear normalisation onto `[0, BPS]`: at or below `min` it is 0, at or above `max`
/// it is `BPS`, linear in between; `down` reverses the direction.
pub open spec fn norm_linear_clamp_spec(x: int, min: int, max: int, down: bool) -> int {
    let y = if x <= min {
        0
    } else if x >= max {
        BPS as int
    } else {
        (x - min) * (BPS as int) / (max - min)
    };
    if down {
        BPS - y
    } else {
        y
    }
}

/// The ascending clamp lies in `[0, BPS]` and does not decrease as `x` grows.
pub proof fn lemma_norm_linear_clamp_up(x1: int, x2: int, min: int, max: int)
    requires
        min < max,
        x1 <= x2,
    ensures
        0 <= norm_linear_clamp_spec(x1, min, max, false) <= BPS,
        norm_linear_clamp_spec(x1, min, max, false) <= norm_linear_clamp_spec(x2, min, max, false),
{
    let b = BPS as int;
    let d = max - min;
    if min < x1 < max {
        assert(0 <= (x1 - min) * b) by (nonlinear_arith)
            requires
                x1 > min,
                b > 0,
        ;
        assert((x1 - min) * b <= d * b) by (nonlinear_arith)
            requires
                x1 - min <= d,
                b > 0,
        ;
        lemma_div_is_ordered((x1 - min) * b, d * b, d);
        lemma_div_is_ordered(0, (x1 - min) * b, d);
        assert(d * b / d == b) by {
            lemma_fundamental_div_mod_converse(d * b, d, b, 0);
        }
        if x2 < max {
            assert((x1 - min) * b <= (x2 - min) * b) by (nonlinear_arith)
                requires
                    x1 <= x2,
                    b > 0,
            ;
            lemma_div_is_ordered((x1 - min) * b, (x2 - min) * b, d);
        }
    }
    if min < x2 < max && x1 <= min {
        assert(0 <= (x2 - min) * b) by (nonlinear_arith)
            requires
                x2 > min,
                b > 0,
        ;
        lemma_div_is_ordered(0, (x2 - min) * b, d);
    }
}

/// The descending clamp lies in `[0, BPS]` and does not increase as `x` grows.
pub proof fn lemma_norm_linear_clamp_down(x1: int, x2: int, min: int, max: int)
    requires
        min < max,
        x1 <= x2,
    ensures
        0 <= norm_linear_clamp_spec(x1, min, max, true) <= BPS,
        norm_linear_clamp_spec(x2, min, max, true) <= norm_linear_clamp_spec(x1, min, max, true),
{
    lemma_norm_linear_clamp_up(x1, x2, min, max);
    lemma_norm_linear_clamp_up(x2, x2, min, max);
}

/// Computes a linear function on the domain `[min, max]` whose image is clamped to `[0, BPS]`;
/// with `down` the line has a negative slope.
pub fn norm_linear_clamp(x: u128, min: u128, max: u128, down: bool) -> (y: u128)
    requires
        max > min,
    ensures
        y == norm_linear_clamp_spec(x as int, min as int, max as int, down),
        y <= BPS,
{
    proof {
        lemma_norm_linear_clamp_up(x as int, x as int, min as int, max as int);
    }
    let mut y: u128 = if x <= min {
        0
    } else if x >= max {
        BPS
    } else {
        match mul_div(x - min, BPS, max - min) {
            Some(v) => v,
            None => 0,
        }
    };
    if down {
        y = BPS - y;
    }
    y
}

} // verus!
