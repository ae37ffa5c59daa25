//! The game stores its counters and flags as IEEE-754 binary64 numbers. The
//! library carries each one as its raw bit pattern (`u64`) and decides the
//! handful of comparisons the split rules need with exact integer arithmetic.
use vstd::arithmetic::div_mod::{
    lemma_fundamental_div_mod, lemma_mod_multiples_basic, lemma_mod_pos_bound, lemma_mul_mod_noop_left, lemma_small_mod,
};
use vstd::arithmetic::power2::{
    lemma2_to64, lemma2_to64_rest, lemma_pow2_pos, lemma_pow2_strictly_increases, lemma_pow2_unfold, pow2,
};
use vstd::prelude::*;

verus! {

/// 2^52: the weight of the lowest exponent bit.
pub const FRACTION_SPAN: u64 = 0x10_0000_0000_0000;

/// 2^63: the sign bit.
pub const SIGN_BIT: u64 = 0x8000_0000_0000_0000;

pub open spec fn sign_negative(b: u64) -> bool {
    b >= SIGN_BIT
}

pub open spec fn exponent_field(b: u64) -> int {
    (b / FRACTION_SPAN) as int % 2048
}

pub open spec fn fraction_field(b: u64) -> int {
    (b % FRACTION_SPAN) as int
}

pub open spec fn is_nan(b: u64) -> bool {
    exponent_field(b) == 2047 && fraction_field(b) != 0
}

pub open spec fn is_infinite(b: u64) -> bool {
    exponent_field(b) == 2047 && fraction_field(b) == 0
}

pub open spec fn is_finite(b: u64) -> bool {
    exponent_field(b) < 2047
}

/// Both zeros, +0.0 and -0.0.
pub open spec fn is_zero(b: u64) -> bool {
    exponent_field(b) == 0 && fraction_field(b) == 0
}

/// The integer significand of a finite pattern (with the hidden bit for normals).
pub open spec fn significand(b: u64) -> int {
    if exponent_field(b) == 0 {
        fraction_field(b)
    } else {
        fraction_field(b) + FRACTION_SPAN
    }
}

/// The power of two that scales the significand.
pub open spec fn scale(b: u64) -> int {
    if exponent_field(b) == 0 {
        -1074
    } else {
        exponent_field(b) - 1075
    }
}

pub open spec fn up_shift(b: u64) -> nat {
    if scale(b) >= 0 {
        scale(b) as nat
    } else {
        0
    }
}

pub open spec fn down_shift(b: u64) -> nat {
    if scale(b) < 0 {
        (-scale(b)) as nat
    } else {
        0
    }
}

/// A finite pattern denotes the rational `numerator(b) / denominator(b)`.
pub open spec fn numerator(b: u64) -> int {
    let magnitude = significand(b) * pow2(up_shift(b));
    if sign_negative(b) {
        -magnitude
    } else {
        magnitude
    }
}

pub open spec fn denominator(b: u64) -> int {
    pow2(down_shift(b)) as int
}

/// The pattern denotes exactly the integer `n`.
pub open spec fn value_is_int(b: u64, n: int) -> bool {
    is_finite(b) && numerator(b) == n * denominator(b)
}

/// `a == b` on binary64: NaN equals nothing, the two zeros are equal, and any
/// other value has a single pattern.
pub open spec fn float_eq(a: u64, b: u64) -> bool {
    !is_nan(a) && !is_nan(b) && (a == b || (is_zero(a) && is_zero(b)))
}

/// The value of `x as u64`: truncation toward zero, saturating at both ends,
/// with NaN giving 0.
pub open spec fn truncate_to_u64(b: u64) -> int {
    if is_nan(b) || sign_negative(b) {
        0
    } else if is_infinite(b) {
        u64::MAX as int
    } else if numerator(b) / denominator(b) > u64::MAX {
        u64::MAX as int
    } else {
        numerator(b) / denominator(b)
    }
}

/// Remainder of a truncating division: it takes the sign of `a`.
pub open spec fn truncated_rem(a: int, d: int) -> int {
    if a >= 0 {
        a % d
    } else {
        -((-a) % d)
    }
}

/// `x % 10.0 >= t` on binary64 (the remainder of a finite value is exact;
/// that of an infinity or a NaN is NaN, which compares false).
pub open spec fn rem_ten_at_least(b: u64, t: int) -> bool {
    is_finite(b) && truncated_rem(numerator(b), 10 * denominator(b)) >= t * denominator(b)
}

/// `x % 10.0 <= t` on binary64.
pub open spec fn rem_ten_at_most(b: u64, t: int) -> bool {
    is_finite(b) && truncated_rem(numerator(b), 10 * denominator(b)) <= t * denominator(b)
}

proof fn lemma_fields_bounds(b: u64)
    ensures
        0 <= exponent_field(b) < 2048,
        0 <= fraction_field(b) < FRACTION_SPAN,
        0 <= significand(b) < 2 * FRACTION_SPAN,
        exponent_field(b) != 0 ==> significand(b) >= FRACTION_SPAN,
        sign_negative(b) <==> b / FRACTION_SPAN >= 2048,
{
}

proof fn lemma_denominator_pos(b: u64)
    ensures
        denominator(b) > 0,
{
    lemma_pow2_pos(down_shift(b));
}

/// At most one integer is denoted by a pattern.
pub proof fn lemma_int_value_unique(b: u64, n1: int, n2: int)
    requires
        value_is_int(b, n1),
        value_is_int(b, n2),
    ensures
        n1 == n2,
{
    lemma_denominator_pos(b);
    let ghost d = denominator(b);
    if n1 < n2 {
        assert(n1 * d < n2 * d) by (nonlinear_arith)
            requires
                n1 < n2,
                d > 0,
        ;
    } else if n2 < n1 {
        assert(n2 * d < n1 * d) by (nonlinear_arith)
            requires
                n2 < n1,
                d > 0,
        ;
    }
}

/// `2^e` for an exponent that fits.
fn pow2_u64(e: u64) -> (r: u64)
    requires
        e < 64,
    ensures
        r == pow2(e as nat),
{
    let mut r: u64 = 1;
    let mut i: u64 = 0;
    proof {
        lemma2_to64();
    }
    while i < e
        invariant
            i <= e < 64,
            r == pow2(i as nat),
        decreases e - i,
    {
        proof {
            lemma_pow2_unfold((i + 1) as nat);
            lemma_pow2_strictly_increases((i + 1) as nat, 64);
            lemma2_to64();
        }
        r = r * 2;
        i = i + 1;
    }
    r
}

/// The sign, exponent field and fraction field of a pattern.
fn fields(b: u64) -> (r: (bool, u64, u64))
    ensures
        r.0 == sign_negative(b),
        r.1 == exponent_field(b),
        r.2 == fraction_field(b),
{
    proof {
        lemma_fields_bounds(b);
    }
    (b >= SIGN_BIT, (b / FRACTION_SPAN) % 2048, b % FRACTION_SPAN)
}

/// `x == y` on binary64.
pub fn float_equal(a: u64, b: u64) -> (r: bool)
    ensures
        r == float_eq(a, b),
{
    let (_, ea, fa) = fields(a);
    let (_, eb, fb) = fields(b);
    if (ea == 2047 && fa != 0) || (eb == 2047 && fb != 0) {
        false
    } else {
        a == b || (ea == 0 && fa == 0 && eb == 0 && fb == 0)
    }
}

/// The integer that the pattern denotes exactly, if it is one that fits in
/// a `u64`.
pub fn exact_integer(b: u64) -> (r: Option<u64>)
    ensures
        match r {
            Some(n) => value_is_int(b, n as int),
            None => forall|n: int| 0 <= n <= u64::MAX ==> !#[trigger] value_is_int(b, n),
        },
{
    let (negative, e, f) = fields(b);
    proof {
        lemma_fields_bounds(b);
        lemma_denominator_pos(b);
        lemma_pow2_pos(up_shift(b));
        lemma2_to64();
        lemma2_to64_rest();
    }
    if e == 2047 {
        return None;
    }
    let m: u64 = if e == 0 { f } else { f + FRACTION_SPAN };
    if m == 0 {
        assert(numerator(b) == 0 * denominator(b));
        return Some(0);
    }
    let ghost d = denominator(b);
    let ghost pu = pow2(up_shift(b));
    assert(m * pu > 0) by (nonlinear_arith)
        requires
            m > 0,
            pu > 0,
    ;
    if negative {
        assert forall|n: int| 0 <= n <= u64::MAX implies !#[trigger] value_is_int(b, n) by {
            assert(n * d >= 0) by (nonlinear_arith)
                requires
                    n >= 0,
                    d > 0,
            ;
        }
        return None;
    }
    if e >= 1075 {
        let k: u64 = e - 1075;
        assert(d == 1) by {
            lemma2_to64();
        }
        if k >= 12 {
            assert(pow2(k as nat) >= pow2(12)) by {
                if k > 12 {
                    lemma_pow2_strictly_increases(12, k as nat);
                }
            }
            assert(m * pu >= FRACTION_SPAN * 0x1000) by (nonlinear_arith)
                requires
                    m >= FRACTION_SPAN,
                    pu >= 0x1000,
            ;
            return None;
        }
        let p = pow2_u64(k);
        assert(p <= 0x800) by {
            if k < 11 {
                lemma_pow2_strictly_increases(k as nat, 11);
            }
        }
        assert(m * p < 0x20_0000_0000_0000 * 0x800) by (nonlinear_arith)
            requires
                m < 0x20_0000_0000_0000,
                p <= 0x800,
        ;
        let n = m * p;
        return Some(n);
    }
    let s: u64 = if e == 0 { 1074 } else { 1075 - e };
    assert(s as nat == down_shift(b));
    assert(pu == 1);
    assert(significand(b) == m);
    assert(numerator(b) == m) by (nonlinear_arith)
        requires
            numerator(b) == significand(b) * pu,
            pu == 1,
            significand(b) == m,
    ;
    if s >= 64 {
        assert(pow2(s as nat) > pow2(53)) by {
            lemma_pow2_strictly_increases(53, s as nat);
        }
        assert forall|n: int| 0 <= n <= u64::MAX implies !#[trigger] value_is_int(b, n) by {
            if n > 0 {
                assert(n * d >= d) by (nonlinear_arith)
                    requires
                        n >= 1,
                        d > 0,
                ;
            }
        }
        return None;
    }
    let p = pow2_u64(s);
    if m % p == 0 {
        proof {
            lemma_fundamental_div_mod(m as int, p as int);
        }
        assert(numerator(b) == (m / p) * d) by (nonlinear_arith)
            requires
                numerator(b) == m,
                d == p,
                m == p * (m / p) + 0,
        ;
        Some(m / p)
    } else {
        assert forall|n: int| 0 <= n <= u64::MAX implies !#[trigger] value_is_int(b, n) by {
            if numerator(b) == n * d {
                lemma_mod_multiples_basic(n, d);
            }
        }
        None
    }
}

/// `x == n` on binary64, for a whole `n`.
pub fn equals_whole(b: u64, n: u64) -> (r: bool)
    ensures
        r == value_is_int(b, n as int),
{
    match exact_integer(b) {
        Some(m) => {
            proof {
                if value_is_int(b, n as int) {
                    lemma_int_value_unique(b, m as int, n as int);
                }
            }
            m == n
        },
        None => false,
    }
}

/// `x as u64` on binary64.
pub fn truncate(b: u64) -> (r: u64)
    ensures
        r == truncate_to_u64(b),
{
    let (negative, e, f) = fields(b);
    proof {
        lemma_fields_bounds(b);
        lemma_denominator_pos(b);
        lemma_pow2_pos(up_shift(b));
        lemma2_to64();
        lemma2_to64_rest();
    }
    if negative || e == 2047 {
        return if negative || f != 0 { 0 } else { u64::MAX };
    }
    let m: u64 = if e == 0 { f } else { f + FRACTION_SPAN };
    let ghost pu = pow2(up_shift(b));
    if e >= 1075 {
        let k: u64 = e - 1075;
        assert(denominator(b) == 1);
        assert(numerator(b) / 1 == numerator(b));
        if k >= 12 {
            assert(pow2(k as nat) >= pow2(12)) by {
                if k > 12 {
                    lemma_pow2_strictly_increases(12, k as nat);
                }
            }
            assert(m * pu >= FRACTION_SPAN * 0x1000) by (nonlinear_arith)
                requires
                    m >= FRACTION_SPAN,
                    pu >= 0x1000,
            ;
            return u64::MAX;
        }
        let p = pow2_u64(k);
        assert(p <= 0x800) by {
            if k < 11 {
                lemma_pow2_strictly_increases(k as nat, 11);
            }
        }
        assert(m * p < 0x20_0000_0000_0000 * 0x800) by (nonlinear_arith)
            requires
                m < 0x20_0000_0000_0000,
                p <= 0x800,
        ;
        return m * p;
    }
    let s: u64 = if e == 0 { 1074 } else { 1075 - e };
    assert(s as nat == down_shift(b));
    assert(pu == 1);
    assert(significand(b) == m);
    assert(numerator(b) == m) by (nonlinear_arith)
        requires
            numerator(b) == significand(b) * pu,
            pu == 1,
            significand(b) == m,
    ;
    if s >= 64 {
        assert(pow2(s as nat) > pow2(53)) by {
            lemma_pow2_strictly_increases(53, s as nat);
        }
        proof {
            lemma_small_mod(m as nat, denominator(b) as nat);
            lemma_fundamental_div_mod(m as int, denominator(b));
        }
        assert(m as int / denominator(b) == 0) by (nonlinear_arith)
            requires
                m as int == denominator(b) * (m as int / denominator(b)) + m as int % denominator(b),
                m as int % denominator(b) == m,
                denominator(b) > 0,
        ;
        return 0;
    }
    let p = pow2_u64(s);
    m / p
}

/// The remainder of a non-negative numerator `m * 2^k` modulo ten.
fn scaled_rem_ten(m: u64, k: u64) -> (r: u64)
    ensures
        r == (m * pow2(k as nat)) % 10,
{
    let mut r: u64 = m % 10;
    let mut i: u64 = 0;
    proof {
        lemma2_to64();
    }
    while i < k
        invariant
            i <= k,
            r < 10,
            r == (m * pow2(i as nat)) % 10,
        decreases k - i,
    {
        proof {
            lemma_pow2_unfold((i + 1) as nat);
            let x = m * pow2(i as nat);
            lemma_mul_mod_noop_left(x, 2, 10);
            assert(m * pow2((i + 1) as nat) == x * 2) by (nonlinear_arith)
                requires
                    pow2((i + 1) as nat) == 2 * pow2(i as nat),
                    x == m * pow2(i as nat),
            ;
        }
        r = (r * 2) % 10;
        i = i + 1;
    }
    r
}

/// `x % 10.0 >= t` (when `at_least`) or `x % 10.0 <= t` (otherwise), on
/// binary64, for a whole `t` from 1 to 9.
pub fn rem_ten_compare(b: u64, t: u64, at_least: bool) -> (r: bool)
    requires
        1 <= t <= 9,
    ensures
        r == if at_least {
            rem_ten_at_least(b, t as int)
        } else {
            rem_ten_at_most(b, t as int)
        },
{
    let (negative, e, f) = fields(b);
    proof {
        lemma_fields_bounds(b);
        lemma_denominator_pos(b);
        lemma_pow2_pos(up_shift(b));
        lemma2_to64();
        lemma2_to64_rest();
    }
    if e == 2047 {
        return false;
    }
    let ghost d = denominator(b);
    let ghost num = numerator(b);
    assert(t * d >= d) by (nonlinear_arith)
        requires
            t >= 1,
            d > 0,
    ;
    if negative {
        assert(truncated_rem(num, 10 * d) <= 0) by {
            lemma_pow2_pos(up_shift(b));
            assert(significand(b) * pow2(up_shift(b)) >= 0) by (nonlinear_arith)
                requires
                    significand(b) >= 0,
                    pow2(up_shift(b)) > 0,
            ;
            if num < 0 {
                lemma_mod_pos_bound(-num, 10 * d);
            } else {
                lemma_small_mod(0, (10 * d) as nat);
            }
        }
        return !at_least;
    }
    let m: u64 = if e == 0 { f } else { f + FRACTION_SPAN };
    if e >= 1075 {
        let k: u64 = e - 1075;
        assert(d == 1);
        let rem = scaled_rem_ten(m, k);
        assert(up_shift(b) == k);
        assert(significand(b) == m);
        assert(num >= 0) by (nonlinear_arith)
            requires
                num == m * pow2(k as nat),
                pow2(k as nat) > 0,
        ;
        return if at_least { rem >= t } else { rem <= t };
    }
    let s: u64 = if e == 0 { 1074 } else { 1075 - e };
    assert(s as nat == down_shift(b));
    assert(pow2(up_shift(b)) == 1);
    assert(significand(b) == m);
    assert(num == m) by (nonlinear_arith)
        requires
            num == significand(b) * pow2(up_shift(b)),
            pow2(up_shift(b)) == 1,
            significand(b) == m,
    ;
    if s >= 60 {
        assert(pow2(s as nat) > pow2(53)) by {
            lemma_pow2_strictly_increases(53, s as nat);
        }
        proof {
            lemma_small_mod(m as nat, (10 * d) as nat);
        }
        return !at_least;
    }
    let p = pow2_u64(s);
    assert(p < 0x1000_0000_0000_0000) by {
        lemma_pow2_strictly_increases(s as nat, 60);
    }
    assert(t * p <= 9 * 0x1000_0000_0000_0000) by (nonlinear_arith)
        requires
            t <= 9,
            p < 0x1000_0000_0000_0000,
    ;
    let rem = m % (10 * p);
    if at_least {
        rem >= t * p
    } else {
        rem <= t * p
    }
}

} // verus!
