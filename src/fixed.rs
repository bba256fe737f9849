//! Fixed-point real numbers.
//!
//! A real number `v` is held as the `i64` value `v * ONE` (16 fractional
//! bits). Every operation saturates at `±LIMIT`, so a value made by this
//! module always lies in `[-LIMIT, LIMIT]` and no operation can overflow.
use vstd::prelude::*;

verus! {

/// The fixed-point value of 1.0.
pub const ONE: i64 = 65536;

/// The largest magnitude a fixed-point value may have (2^60).
pub const LIMIT: i64 = 1152921504606846976;

/// A value that the fixed-point operations accept.
pub open spec fn in_range(v: int) -> bool {
    -LIMIT <= v <= LIMIT
}

/// Saturates an exact result to the representable range.
pub open spec fn saturate(v: int) -> int {
    if v > LIMIT {
        LIMIT as int
    } else if v < -LIMIT {
        -LIMIT
    } else {
        v
    }
}

pub open spec fn abs(v: int) -> int {
    if v < 0 {
        -v
    } else {
        v
    }
}

/// Division rounding toward zero, as machine division does.
pub open spec fn quot(n: int, d: int) -> int {
    let q = abs(n) / abs(d);
    if (n < 0) != (d < 0) {
        -q
    } else {
        q
    }
}

pub open spec fn fx_add_spec(a: int, b: int) -> int {
    saturate(a + b)
}

pub open spec fn fx_sub_spec(a: int, b: int) -> int {
    saturate(a - b)
}

pub open spec fn fx_mul_spec(a: int, b: int) -> int {
    saturate(quot(a * b, ONE as int))
}

pub open spec fn fx_div_spec(a: int, b: int) -> int {
    saturate(quot(a * ONE, b))
}

/// The fixed-point value of `a1*b1 + a2*b2 + a3*b3`, rounded once.
pub open spec fn fx_dot3_spec(a1: int, b1: int, a2: int, b2: int, a3: int, b3: int) -> int {
    saturate(quot(a1 * b1 + a2 * b2 + a3 * b3, ONE as int))
}

/// Whether `r` is the integer square root of `n`.
pub open spec fn is_isqrt(n: int, r: int) -> bool {
    0 <= r && r * r <= n && n < (r + 1) * (r + 1)
}

/// The integer square root: the largest `r` with `r * r <= n`.
pub open spec fn isqrt(n: nat) -> nat
    decreases n,
{
    if n == 0 {
        0
    } else {
        let r = isqrt((n - 1) as nat);
        if (r + 1) * (r + 1) <= n {
            r + 1
        } else {
            r
        }
    }
}

/// The fixed-point square root of a value; zero for values that are not positive.
pub open spec fn fx_sqrt_spec(a: int) -> int {
    if a <= 0 {
        0
    } else {
        isqrt((a * ONE) as nat) as int
    }
}

pub proof fn lemma_isqrt(n: nat)
    ensures
        is_isqrt(n as int, isqrt(n) as int),
    decreases n,
{
    if n > 0 {
        lemma_isqrt((n - 1) as nat);
        let r = isqrt((n - 1) as nat) as int;
        assert(n <= (r + 1) * (r + 1));
        assert((r + 1) * (r + 1) < (r + 2) * (r + 2)) by (nonlinear_arith)
            requires
                r >= 0,
        ;
    }
}

pub proof fn lemma_isqrt_unique(n: int, r: int, s: int)
    requires
        is_isqrt(n, r),
        is_isqrt(n, s),
    ensures
        r == s,
{
    assert(r < s + 1) by (nonlinear_arith)
        requires
            r >= 0,
            s >= 0,
            r * r <= n,
            n < (s + 1) * (s + 1),
    ;
    assert(s < r + 1) by (nonlinear_arith)
        requires
            r >= 0,
            s >= 0,
            s * s <= n,
            n < (r + 1) * (r + 1),
    ;
}

pub proof fn lemma_isqrt_monotone(m: nat, n: nat)
    requires
        m <= n,
    ensures
        isqrt(m) <= isqrt(n),
{
    lemma_isqrt(m);
    lemma_isqrt(n);
    let r = isqrt(m) as int;
    let s = isqrt(n) as int;
    assert(r <= s) by (nonlinear_arith)
        requires
            r >= 0,
            s >= 0,
            r * r <= m,
            m <= n,
            n < (s + 1) * (s + 1),
    ;
}

/// The square root of a positive value is at least `sqrt(1/ONE)`, so never zero.
pub proof fn lemma_sqrt_positive(a: int)
    requires
        a > 0,
    ensures
        fx_sqrt_spec(a) >= 256,
{
    lemma_isqrt(65536);
    lemma_isqrt_unique(65536, isqrt(65536) as int, 256);
    lemma_isqrt_monotone(65536, (a * ONE) as nat);
}

/// The square root of one is one.
pub proof fn lemma_sqrt_one()
    ensures
        fx_sqrt_spec(ONE as int) == ONE,
{
    lemma_isqrt(0x100000000);
    lemma_isqrt_unique(0x100000000, isqrt(0x100000000) as int, ONE as int);
}

/// Division by a positive value preserves order.
pub proof fn lemma_fx_div_monotone(n1: int, n2: int, d: int)
    requires
        n1 <= n2,
        d > 0,
    ensures
        fx_div_spec(n1, d) <= fx_div_spec(n2, d),
{
    assert(n1 * ONE <= n2 * ONE) by (nonlinear_arith)
        requires
            n1 <= n2,
    ;
    let a = n1 * ONE;
    let b = n2 * ONE;
    if a >= 0 {
        vstd::arithmetic::div_mod::lemma_div_is_ordered(a, b, d);
    } else if b < 0 {
        vstd::arithmetic::div_mod::lemma_div_is_ordered(-b, -a, d);
    } else {
        vstd::arithmetic::div_mod::lemma_div_is_ordered(0, b, d);
        vstd::arithmetic::div_mod::lemma_div_is_ordered(0, -a, d);
    }
}

proof fn lemma_product_bound(a: int, b: int)
    requires
        in_range(a),
        in_range(b),
    ensures
        -0x1000000000000000000000000000000 <= a * b <= 0x1000000000000000000000000000000,
{
    assert(abs(a * b) == abs(a) * abs(b)) by (nonlinear_arith);
    assert(abs(a) * abs(b) <= LIMIT * LIMIT) by (nonlinear_arith)
        requires
            0 <= abs(a) <= LIMIT,
            0 <= abs(b) <= LIMIT,
    ;
}

/// Saturates an exact `i128` result to the representable range.
fn saturate_i128(v: i128) -> (r: i64)
    ensures
        r == saturate(v as int),
{
    if v > LIMIT as i128 {
        LIMIT
    } else if v < -(LIMIT as i128) {
        -LIMIT
    } else {
        v as i64
    }
}

/// Machine division of `n` by `d`, rounding toward zero.
fn quot_i128(n: i128, d: i128) -> (r: i128)
    requires
        d != 0,
        -0x10000000000000000000000000000000 <= n <= 0x10000000000000000000000000000000,
        -0x10000000000000000000000000000000 <= d <= 0x10000000000000000000000000000000,
    ensures
        r == quot(n as int, d as int),
{
    let an: u128 = if n < 0 {
        (-n) as u128
    } else {
        n as u128
    };
    let ad: u128 = if d < 0 {
        (-d) as u128
    } else {
        d as u128
    };
    let q: u128 = an / ad;
    assert(q <= an) by (nonlinear_arith)
        requires
            q == an / ad,
            ad >= 1,
    ;
    if (n < 0) != (d < 0) {
        -(q as i128)
    } else {
        q as i128
    }
}

pub fn fx_add(a: i64, b: i64) -> (r: i64)
    requires
        in_range(a as int),
        in_range(b as int),
    ensures
        r == fx_add_spec(a as int, b as int),
        in_range(r as int),
{
    saturate_i128(a as i128 + b as i128)
}

pub fn fx_sub(a: i64, b: i64) -> (r: i64)
    requires
        in_range(a as int),
        in_range(b as int),
    ensures
        r == fx_sub_spec(a as int, b as int),
        in_range(r as int),
{
    saturate_i128(a as i128 - b as i128)
}

pub fn fx_mul(a: i64, b: i64) -> (r: i64)
    requires
        in_range(a as int),
        in_range(b as int),
    ensures
        r == fx_mul_spec(a as int, b as int),
        in_range(r as int),
{
    proof {
        lemma_product_bound(a as int, b as int);
    }
    let p: i128 = a as i128 * b as i128;
    saturate_i128(quot_i128(p, ONE as i128))
}

/// Divides `a` by `b`; dividing by zero is a caller's error.
pub fn fx_div(a: i64, b: i64) -> (r: i64)
    requires
        in_range(a as int),
        in_range(b as int),
        b != 0,
    ensures
        r == fx_div_spec(a as int, b as int),
        in_range(r as int),
{
    proof {
        lemma_product_bound(a as int, ONE as int);
    }
    let p: i128 = a as i128 * ONE as i128;
    saturate_i128(quot_i128(p, b as i128))
}

pub fn fx_dot3(a1: i64, b1: i64, a2: i64, b2: i64, a3: i64, b3: i64) -> (r: i64)
    requires
        in_range(a1 as int),
        in_range(b1 as int),
        in_range(a2 as int),
        in_range(b2 as int),
        in_range(a3 as int),
        in_range(b3 as int),
    ensures
        r == fx_dot3_spec(a1 as int, b1 as int, a2 as int, b2 as int, a3 as int, b3 as int),
        in_range(r as int),
{
    proof {
        lemma_product_bound(a1 as int, b1 as int);
        lemma_product_bound(a2 as int, b2 as int);
        lemma_product_bound(a3 as int, b3 as int);
    }
    let p: i128 = a1 as i128 * b1 as i128 + a2 as i128 * b2 as i128 + a3 as i128 * b3 as i128;
    saturate_i128(quot_i128(p, ONE as i128))
}

/// The integer square root of `n`, by bisection.
pub fn isqrt_u128(n: u128) -> (r: u64)
    requires
        n < 0x100000000000000000000,
    ensures
        r as nat == isqrt(n as nat),
        r <= 0x10000000000,
{
    let mut lo: u128 = 0;
    let mut hi: u128 = 0x10000000000;
    assert(n < hi * hi);
    while hi - lo > 1
        invariant
            lo < hi <= 0x10000000000,
            lo * lo <= n,
            n < hi * hi,
        decreases hi - lo,
    {
        let mid: u128 = lo + (hi - lo) / 2;
        assert(mid * mid <= 0x10000000000 * 0x10000000000) by (nonlinear_arith)
            requires
                mid <= 0x10000000000,
        ;
        if mid * mid <= n {
            lo = mid;
        } else {
            hi = mid;
        }
    }
    proof {
        lemma_isqrt(n as nat);
        lemma_isqrt_unique(n as int, lo as int, isqrt(n as nat) as int);
    }
    lo as u64
}

/// The fixed-point square root; zero for values that are not positive.
pub fn fx_sqrt(a: i64) -> (r: i64)
    requires
        in_range(a as int),
    ensures
        r == fx_sqrt_spec(a as int),
        0 <= r <= 0x10000000000,
        in_range(r as int),
{
    if a <= 0 {
        0
    } else {
        let n: u128 = a as u128 * ONE as u128;
        isqrt_u128(n) as i64
    }
}

} // verus!
