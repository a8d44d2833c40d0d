use vstd::prelude::*;

verus! {

/// A rational number `num / den`, as used for stream time bases.
#[derive(Clone, Copy, Debug, PartialEq, Eq)]
pub struct Rational {
    pub num: i32,
    pub den: i32,
}

/// Round-half-away-from-zero of `a * b / c`, for `c > 0` and `b >= 0`.
pub open spec fn rescale_rounded(a: int, b: int, c: int) -> int {
    let m = if a < 0 { -a } else { a };
    let q = (m * b + c / 2) / c;
    if a < 0 { -q } else { q }
}

/// `a * bq / cq`, rounded to the nearest integer with halves away from zero,
/// which is the value of `av_rescale_q(a, bq, cq)` whenever that value fits in
/// an `i64`. `i64::MIN` stands for "no value": the divisor `cq.num * bq.den` is
/// not positive, the factor `bq.num * cq.den` is negative, or the rounded
/// quotient does not fit in an `i64`. (`av_rescale_q` gives `i64::MIN` there
/// too while both products stay within `i32`; with larger products it leaves a
/// quotient of 2^64 or more undetected.) `i64::MIN` as an argument counts as
/// `-i64::MAX`.
pub open spec fn spec_rescale_q(a: i64, bq: Rational, cq: Rational) -> i64 {
    let b = bq.num * cq.den;
    let c = cq.num * bq.den;
    if c <= 0 || b < 0 {
        i64::MIN
    } else {
        let a1: int = if a == i64::MIN { -i64::MAX } else { a as int };
        let r = rescale_rounded(a1, b, c);
        if r > i64::MAX || r < -i64::MAX { i64::MIN } else { r as i64 }
    }
}

proof fn lemma_product_bounds(x: i32, y: i32)
    ensures
        -0x4000_0000_0000_0000 <= (x as int) * (y as int) <= 0x4000_0000_0000_0000,
{
    assert(-0x4000_0000_0000_0000 <= (x as int) * (y as int) <= 0x4000_0000_0000_0000)
        by (nonlinear_arith)
        requires
            -0x8000_0000 <= x <= 0x7fff_ffff,
            -0x8000_0000 <= y <= 0x7fff_ffff,
    ;
}

/// Rescales `a` from the time base `bq` to the time base `cq`, as
/// `av_rescale_q` does.
pub fn rescale_q(a: i64, bq: Rational, cq: Rational) -> (r: i64)
    ensures
        r == spec_rescale_q(a, bq, cq),
        r != i64::MIN ==> (cq.num as int) * (bq.den as int) > 0 && (bq.num as int) * (cq.den as int)
            >= 0,
        r != i64::MIN && a != i64::MIN ==> -((cq.num as int) * (bq.den as int)) <= 2 * ((r as int)
            * ((cq.num as int) * (bq.den as int)) - (a as int) * ((bq.num as int) * (cq.den as int)))
            <= (cq.num as int) * (bq.den as int),
        ({
            let b = (bq.num as int) * (cq.den as int);
            let c = (cq.num as int) * (bq.den as int);
            c > 0 && b >= 0 && a != i64::MIN && -2 * i64::MAX * c + c <= 2 * a * b <= 2 * i64::MAX
                * c - c ==> r != i64::MIN
        }),
{
    proof {
        lemma_rescale_q_rounds(a, bq, cq);
    }
    proof {
        lemma_product_bounds(bq.num, cq.den);
        lemma_product_bounds(cq.num, bq.den);
    }
    let b: i64 = bq.num as i64 * cq.den as i64;
    let c: i64 = cq.num as i64 * bq.den as i64;
    if c <= 0 || b < 0 {
        return i64::MIN;
    }
    let m: u128 = if a < 0 {
        if a == i64::MIN {
            i64::MAX as u128
        } else {
            (-a) as u128
        }
    } else {
        a as u128
    };
    let bu: u128 = b as u128;
    let cu: u128 = c as u128;
    assert(m * bu <= 0x8000_0000_0000_0000 * 0x4000_0000_0000_0000) by (nonlinear_arith)
        requires
            m <= 0x8000_0000_0000_0000,
            bu <= 0x4000_0000_0000_0000,
    ;
    let q: u128 = (m * bu + cu / 2) / cu;
    if q > i64::MAX as u128 {
        i64::MIN
    } else if a < 0 {
        -(q as i64)
    } else {
        q as i64
    }
}


/// Rounding `a * b / c` to the nearest integer is off by at most a half:
/// `2 * |r * c - a * b| <= c`.
pub proof fn lemma_rounded_is_nearest(a: int, b: int, c: int)
    requires
        b >= 0,
        c > 0,
    ensures
        -c <= 2 * (rescale_rounded(a, b, c) * c - a * b) <= c,
{
    let m = if a < 0 { -a } else { a };
    let n = m * b + c / 2;
    let q = n / c;
    vstd::arithmetic::div_mod::lemma_fundamental_div_mod(n, c);
    vstd::arithmetic::div_mod::lemma_mod_bound(n, c);
    vstd::arithmetic::div_mod::lemma_fundamental_div_mod(c, 2);
    assert(c * q == q * c) by (nonlinear_arith);
    assert(-c <= 2 * (q * c - m * b) <= c);
    if a < 0 {
        assert(a * b == -(m * b)) by (nonlinear_arith)
            requires
                m == -a,
        ;
        assert((-q) * c == -(q * c)) by (nonlinear_arith);
    }
}

/// Law: `rescale_q` computes `a * bq / cq` rounded to the nearest integer. A
/// result other than `i64::MIN` comes only from a positive divisor
/// `c = cq.num * bq.den` and a non-negative factor `b = bq.num * cq.den`, and
/// then `2 * |r * c - a * b| <= c`. The result is a value (not `i64::MIN`)
/// whenever the divisor is positive, the factor non-negative, and `a * b / c`
/// lies half a unit inside the range of `i64` (`a` other than `i64::MIN`).
pub proof fn lemma_rescale_q_rounds(a: i64, bq: Rational, cq: Rational)
    ensures
        ({
            let r = spec_rescale_q(a, bq, cq);
            let b = (bq.num as int) * (cq.den as int);
            let c = (cq.num as int) * (bq.den as int);
            &&& r != i64::MIN ==> c > 0 && b >= 0
            &&& r != i64::MIN && a != i64::MIN ==> -c <= 2 * ((r as int) * c - (a as int) * b) <= c
            &&& c > 0 && b >= 0 && a != i64::MIN && -2 * i64::MAX * c + c <= 2 * a * b <= 2
                * i64::MAX * c - c ==> r != i64::MIN
        }),
{
    let b = (bq.num as int) * (cq.den as int);
    let c = (cq.num as int) * (bq.den as int);
    if c > 0 && b >= 0 {
        let a1: int = if a == i64::MIN { -i64::MAX } else { a as int };
        let q = rescale_rounded(a1, b, c);
        lemma_rounded_is_nearest(a1, b, c);
        if a != i64::MIN && -2 * i64::MAX * c + c <= 2 * a * b <= 2 * i64::MAX * c - c {
            assert(-i64::MAX <= q <= i64::MAX) by (nonlinear_arith)
                requires
                    c > 0,
                    -c <= 2 * (q * c - a1 * b) <= c,
                    -2 * i64::MAX * c + c <= 2 * a1 * b <= 2 * i64::MAX * c - c,
            ;
        }
    }
}

/// Rounding `m * b / c` is monotone in `m`.
proof fn lemma_rounded_quotient_monotonic(m1: int, m2: int, b: int, c: int)
    requires
        0 <= m1 <= m2,
        b >= 0,
        c > 0,
    ensures
        0 <= (m1 * b + c / 2) / c <= (m2 * b + c / 2) / c,
{
    vstd::arithmetic::mul::lemma_mul_inequality(m1, m2, b);
    vstd::arithmetic::mul::lemma_mul_nonnegative(m1, b);
    vstd::arithmetic::div_mod::lemma_div_is_ordered(m1 * b + c / 2, m2 * b + c / 2, c);
    vstd::arithmetic::div_mod::lemma_div_pos_is_pos(m1 * b + c / 2, c);
}

/// Rounded rescaling is monotone: a later timestamp never maps to an earlier one.
proof fn lemma_rescale_rounded_monotonic(a1: int, a2: int, b: int, c: int)
    requires
        a1 <= a2,
        b >= 0,
        c > 0,
    ensures
        rescale_rounded(a1, b, c) <= rescale_rounded(a2, b, c),
        a1 >= 0 ==> rescale_rounded(a1, b, c) >= 0,
{
    if a1 >= 0 {
        lemma_rounded_quotient_monotonic(a1, a2, b, c);
    } else if a2 < 0 {
        lemma_rounded_quotient_monotonic(-a2, -a1, b, c);
    } else {
        lemma_rounded_quotient_monotonic(0, -a1, b, c);
        lemma_rounded_quotient_monotonic(0, a2, b, c);
    }
}

/// Law: rescaling is monotone. Whenever neither result is the "no value"
/// marker `i64::MIN`, a smaller timestamp never rescales to a larger one.
pub proof fn lemma_rescale_q_monotonic(a1: i64, a2: i64, bq: Rational, cq: Rational)
    requires
        a1 <= a2,
        spec_rescale_q(a1, bq, cq) != i64::MIN,
        spec_rescale_q(a2, bq, cq) != i64::MIN,
    ensures
        spec_rescale_q(a1, bq, cq) <= spec_rescale_q(a2, bq, cq),
{
    let b = bq.num * cq.den;
    let c = cq.num * bq.den;
    let x1: int = if a1 == i64::MIN { -i64::MAX } else { a1 as int };
    let x2: int = if a2 == i64::MIN { -i64::MAX } else { a2 as int };
    lemma_rescale_rounded_monotonic(x1, x2, b, c);
}

/// Law: a non-negative timestamp rescales to a non-negative one, unless the
/// result is the "no value" marker `i64::MIN`.
pub proof fn lemma_rescale_q_nonnegative(a: i64, bq: Rational, cq: Rational)
    requires
        a >= 0,
        spec_rescale_q(a, bq, cq) != i64::MIN,
    ensures
        spec_rescale_q(a, bq, cq) >= 0,
{
    let b = bq.num * cq.den;
    let c = cq.num * bq.den;
    lemma_rescale_rounded_monotonic(a as int, a as int, b, c);
}

/// Law: when a non-negative timestamp rescales to a value, every smaller
/// non-negative timestamp rescales to a value too (not to `i64::MIN`).
pub proof fn lemma_rescale_q_defined_below(a1: i64, a2: i64, bq: Rational, cq: Rational)
    requires
        0 <= a1 <= a2,
        spec_rescale_q(a2, bq, cq) != i64::MIN,
    ensures
        spec_rescale_q(a1, bq, cq) != i64::MIN,
{
    let b = bq.num * cq.den;
    let c = cq.num * bq.den;
    lemma_rescale_rounded_monotonic(a1 as int, a2 as int, b, c);
    lemma_rescale_rounded_monotonic(a1 as int, a1 as int, b, c);
}

/// Law: rescaling between two equal, valid time bases gives the timestamp back
/// (for every timestamp but `i64::MIN`, which counts as `-i64::MAX`).
pub proof fn lemma_rescale_q_identity(a: i64, q: Rational)
    requires
        q.num > 0,
        q.den > 0,
        a != i64::MIN,
    ensures
        spec_rescale_q(a, q, q) == a,
{
    let b = q.num * q.den;
    assert(b > 0) by (nonlinear_arith)
        requires
            q.num > 0,
            q.den > 0,
            b == q.num * q.den,
    ;
    let m: int = if a < 0 { -a } else { a as int };
    vstd::arithmetic::div_mod::lemma_div_multiples_vanish_fancy(m, b / 2, b);
    assert(b * m == m * b) by (nonlinear_arith);
}

} // verus!
