//! Fixed-point numbers with sixteen fractional bits and saturating arithmetic.

use vstd::prelude::*;

verus! {

/// The raw representation of the number one.
pub const ONE: i64 = 65536;

/// The nearest value to `t` that an `i64` can hold.
pub open spec fn saturate(t: int) -> int {
    if t > i64::MAX {
        i64::MAX as int
    } else if t < i64::MIN {
        i64::MIN as int
    } else {
        t
    }
}

/// The absolute value of `t`.
pub open spec fn magnitude(t: int) -> int {
    if t < 0 {
        -t
    } else {
        t
    }
}

/// The quotient of `n` by `d`, rounded toward zero.
pub open spec fn quot(n: int, d: int) -> int
    recommends
        d != 0,
{
    if (n < 0) == (d < 0) {
        magnitude(n) / magnitude(d)
    } else {
        -(magnitude(n) / magnitude(d))
    }
}

/// `r` is the integer square root of `n`: the largest number whose square
/// does not exceed `n`.
pub open spec fn is_sqrt(n: nat, r: nat) -> bool {
    r * r <= n < (r + 1) * (r + 1)
}

/// The integer square root of `n`.
pub open spec fn isqrt(n: nat) -> nat {
    choose|r: nat| is_sqrt(n, r)
}

/// Squaring is monotone on the natural numbers.
pub proof fn lemma_square_monotone(a: nat, b: nat)
    requires
        a <= b,
    ensures
        a * a <= b * b,
{
    assert(a * a <= b * b) by (nonlinear_arith)
        requires
            a <= b,
    ;
}

/// Every natural number has an integer square root.
pub proof fn lemma_sqrt_exists(n: nat) -> (r: nat)
    ensures
        is_sqrt(n, r),
    decreases n,
{
    if n == 0 {
        assert(is_sqrt(0, 0)) by (nonlinear_arith);
        0
    } else {
        let p = lemma_sqrt_exists((n - 1) as nat);
        let q = p + 1;
        if q * q <= n {
            assert(n < (q + 1) * (q + 1)) by (nonlinear_arith)
                requires
                    q * q <= n,
                    n - 1 < q * q,
            ;
            q
        } else {
            p
        }
    }
}

/// The integer square root is unique, so `isqrt` is the one number that
/// `is_sqrt` accepts.
pub proof fn lemma_isqrt(n: nat, r: nat)
    requires
        is_sqrt(n, r),
    ensures
        isqrt(n) == r,
{
    let s = isqrt(n);
    assert(is_sqrt(n, s));
    if s < r {
        lemma_square_monotone(s + 1, r);
    } else if r < s {
        lemma_square_monotone(r + 1, s);
    }
}

/// `isqrt(n)` squared does not exceed `n`, and the next square does.
pub proof fn lemma_isqrt_bounds(n: nat)
    ensures
        is_sqrt(n, isqrt(n)),
{
    let r = lemma_sqrt_exists(n);
    lemma_isqrt(n, r);
}

/// The integer square root of `n`.
pub fn int_sqrt(n: u128) -> (r: u64)
    ensures
        r as nat == isqrt(n as nat),
{
    let mut lo: u128 = 0;
    let mut hi: u128 = 0x1_0000_0000_0000_0000;
    assert(n < hi * hi) by (nonlinear_arith)
        requires
            hi == 0x1_0000_0000_0000_0000,
            n <= u128::MAX,
    ;
    while hi - lo > 1
        invariant
            lo < hi <= 0x1_0000_0000_0000_0000,
            lo * lo <= n < hi * hi,
        decreases hi - lo,
    {
        let mid: u128 = lo + (hi - lo) / 2;
        assert(mid * mid <= u128::MAX) by (nonlinear_arith)
            requires
                mid < 0x1_0000_0000_0000_0000,
        ;
        if mid * mid <= n {
            lo = mid;
        } else {
            hi = mid;
        }
    }
    proof {
        assert(hi == lo + 1);
        assert(is_sqrt(n as nat, lo as nat));
        lemma_isqrt(n as nat, lo as nat);
    }
    lo as u64
}

/// `t` brought into the range of an `i64`.
fn saturate_i128(t: i128) -> (r: i64)
    ensures
        r == saturate(t as int),
{
    if t > i64::MAX as i128 {
        i64::MAX
    } else if t < i64::MIN as i128 {
        i64::MIN
    } else {
        t as i64
    }
}

/// The quotient of `n` by `d`, rounded toward zero.
fn quot_i128(n: i128, d: i128) -> (q: i128)
    requires
        d != 0,
        i128::MIN < n,
        i128::MIN < d,
    ensures
        q == quot(n as int, d as int),
{
    let na: u128 = if n < 0 { (-n) as u128 } else { n as u128 };
    let da: u128 = if d < 0 { (-d) as u128 } else { d as u128 };
    let qa: u128 = na / da;
    assert(qa <= na) by (nonlinear_arith)
        requires
            qa == na / da,
            da >= 1,
    ;
    if (n < 0) == (d < 0) {
        qa as i128
    } else {
        -(qa as i128)
    }
}

/// A number with sixteen fractional bits: `raw` stands for `raw / 65536`.
///
/// Every `i64` is a valid `raw`. Arithmetic is exact up to rounding toward
/// zero, and a result outside the representable range is replaced by the
/// nearest end of that range.
#[derive(Clone, Copy, Debug, PartialEq, Eq, Structural)]
pub struct Fixed {
    pub raw: i64,
}

impl Fixed {
    /// The whole number `n`, saturated.
    pub open spec fn spec_from_int(n: int) -> Fixed {
        Fixed { raw: saturate(n * ONE) as i64 }
    }

    /// The sum, saturated.
    pub open spec fn spec_add(self, rhs: Fixed) -> Fixed {
        Fixed { raw: saturate(self.raw + rhs.raw) as i64 }
    }

    /// The difference, saturated.
    pub open spec fn spec_sub(self, rhs: Fixed) -> Fixed {
        Fixed { raw: saturate(self.raw - rhs.raw) as i64 }
    }

    /// The negation, saturated.
    pub open spec fn spec_neg(self) -> Fixed {
        Fixed { raw: saturate(-self.raw) as i64 }
    }

    /// The product, rounded toward zero and saturated.
    pub open spec fn spec_mul(self, rhs: Fixed) -> Fixed {
        Fixed { raw: saturate(quot(self.raw * rhs.raw, ONE as int)) as i64 }
    }

    /// The quotient, rounded toward zero and saturated.
    pub open spec fn spec_div(self, rhs: Fixed) -> Fixed
        recommends
            rhs.raw != 0,
    {
        Fixed { raw: saturate(quot(self.raw * ONE, rhs.raw as int)) as i64 }
    }

    /// The number zero.
    pub fn zero() -> (r: Fixed)
        ensures
            r.raw == 0,
    {
        Fixed { raw: 0 }
    }

    /// The number that `raw` stands for.
    pub fn from_raw(raw: i64) -> (r: Fixed)
        ensures
            r.raw == raw,
    {
        Fixed { raw }
    }

    /// The whole number `n`, or the nearest representable number.
    pub fn from_int(n: i64) -> (r: Fixed)
        ensures
            r == Fixed::spec_from_int(n as int),
    {
        assert(-0x8000_0000_0000_0000_0000 <= n * ONE <= 0x8000_0000_0000_0000_0000)
            by (nonlinear_arith)
            requires
                ONE == 65536,
                i64::MIN <= n <= i64::MAX,
        ;
        Fixed { raw: saturate_i128(n as i128 * ONE as i128) }
    }

    /// The count `n` as a number, or the largest representable number.
    pub fn from_usize(n: usize) -> (r: Fixed)
        ensures
            r == Fixed::spec_from_int(n as int),
    {
        assert(0 <= n * ONE <= 0x1_0000_0000_0000_0000_0000) by (nonlinear_arith)
            requires
                ONE == 65536,
                0 <= n <= u64::MAX,
        ;
        Fixed { raw: saturate_i128(n as i128 * ONE as i128) }
    }

    /// The sum of two numbers.
    pub fn add(self, rhs: Fixed) -> (r: Fixed)
        ensures
            r == self.spec_add(rhs),
    {
        Fixed { raw: saturate_i128(self.raw as i128 + rhs.raw as i128) }
    }

    /// The difference of two numbers.
    pub fn sub(self, rhs: Fixed) -> (r: Fixed)
        ensures
            r == self.spec_sub(rhs),
    {
        Fixed { raw: saturate_i128(self.raw as i128 - rhs.raw as i128) }
    }

    /// The negation of a number.
    pub fn neg(self) -> (r: Fixed)
        ensures
            r == self.spec_neg(),
    {
        Fixed { raw: saturate_i128(-(self.raw as i128)) }
    }

    /// The product of two numbers.
    pub fn mul(self, rhs: Fixed) -> (r: Fixed)
        ensures
            r == self.spec_mul(rhs),
    {
        proof {
            lemma_product_fits(self.raw as int, rhs.raw as int);
        }
        let p: i128 = self.raw as i128 * rhs.raw as i128;
        Fixed { raw: saturate_i128(quot_i128(p, ONE as i128)) }
    }

    /// The greatest whole number that does not exceed the number.
    pub open spec fn spec_floor(self) -> int {
        (self.raw as int) / (ONE as int)
    }

    /// The quotient by a magnitude, rounded toward zero and saturated.
    pub open spec fn spec_over(self, d: nat) -> Fixed
        recommends
            d != 0,
    {
        Fixed { raw: saturate(quot(self.raw * ONE, d as int)) as i64 }
    }

    /// The quotient of two numbers. The divisor is not zero.
    pub fn div(self, rhs: Fixed) -> (r: Fixed)
        requires
            rhs.raw != 0,
        ensures
            r == self.spec_div(rhs),
    {
        proof {
            lemma_product_fits(self.raw as int, ONE as int);
        }
        let p: i128 = self.raw as i128 * ONE as i128;
        Fixed { raw: saturate_i128(quot_i128(p, rhs.raw as i128)) }
    }

    /// The number rounded down to a whole number.
    pub fn floor(self) -> (n: i64)
        ensures
            n == self.spec_floor(),
    {
        if self.raw >= 0 {
            ((self.raw as u64) / 65536) as i64
        } else {
            let up: u64 = ((-(self.raw as i128)) as u64 + 65535) / 65536;
            -(up as i64)
        }
    }

    /// The quotient of a number by a magnitude. The magnitude is not zero.
    pub fn over(self, d: u64) -> (r: Fixed)
        requires
            d != 0,
        ensures
            r == self.spec_over(d as nat),
    {
        proof {
            lemma_product_fits(self.raw as int, ONE as int);
        }
        let p: i128 = self.raw as i128 * ONE as i128;
        Fixed { raw: saturate_i128(quot_i128(p, d as i128)) }
    }
}

/// A number whose square does not exceed `n` does not exceed `isqrt(n)`.
pub proof fn lemma_isqrt_at_least(n: nat, k: nat)
    requires
        k * k <= n,
    ensures
        k <= isqrt(n),
{
    lemma_isqrt_bounds(n);
    if isqrt(n) < k {
        lemma_square_monotone(isqrt(n) + 1, k);
    }
}

/// `isqrt(n)` stays below every number whose square exceeds `n`.
pub proof fn lemma_isqrt_below(n: nat, k: nat)
    requires
        n < k * k,
    ensures
        isqrt(n) < k,
{
    lemma_isqrt_bounds(n);
    if k <= isqrt(n) {
        lemma_square_monotone(k, isqrt(n));
    }
}

/// The product of two `i64` values lies well inside the range of an `i128`.
pub proof fn lemma_product_fits(a: int, b: int)
    requires
        i64::MIN <= a <= i64::MAX,
        i64::MIN <= b <= i64::MAX,
    ensures
        -0x4000_0000_0000_0000_0000_0000_0000_0000 <= a * b
            <= 0x4000_0000_0000_0000_0000_0000_0000_0000,
{
    assert(-0x4000_0000_0000_0000_0000_0000_0000_0000 <= a * b
        <= 0x4000_0000_0000_0000_0000_0000_0000_0000) by (nonlinear_arith)
        requires
            -0x8000_0000_0000_0000 <= a <= 0x8000_0000_0000_0000,
            -0x8000_0000_0000_0000 <= b <= 0x8000_0000_0000_0000,
    ;
}

} // verus!
