//! Fixed-point numbers with six decimal digits after the point.

use vstd::prelude::*;

verus! {

/// How many raw units make one.
pub const SCALE: i64 = 1_000_000;

/// The integer nearest to `v` that an `i64` can hold.
pub open spec fn saturate(v: int) -> int {
    if v < i64::MIN {
        i64::MIN as int
    } else if v > i64::MAX {
        i64::MAX as int
    } else {
        v
    }
}

/// The quotient of `n` by `d`, rounded toward zero. Meant for `d != 0`.
pub open spec fn trunc_div(n: int, d: int) -> int {
    if n >= 0 && d > 0 {
        n / d
    } else if n >= 0 {
        -(n / (-d))
    } else if d > 0 {
        -((-n) / d)
    } else {
        (-n) / (-d)
    }
}

/// Whether `r` is the largest natural number whose square is at most `n`.
pub open spec fn is_floor_sqrt(n: int, r: int) -> bool {
    0 <= r && r * r <= n && n < (r + 1) * (r + 1)
}

/// The largest natural number whose square is at most `n`. Meant for `n >= 0`.
pub open spec fn floor_sqrt(n: int) -> int {
    choose|r: int| is_floor_sqrt(n, r)
}

/// At most one number is the floor of the square root of `n`.
pub proof fn lemma_floor_sqrt_unique(n: int, r: int)
    requires
        is_floor_sqrt(n, r),
    ensures
        floor_sqrt(n) == r,
{
    let s = floor_sqrt(n);
    assert(is_floor_sqrt(n, s));
    assert(s == r) by (nonlinear_arith)
        requires
            0 <= r,
            r * r <= n,
            n < (r + 1) * (r + 1),
            0 <= s,
            s * s <= n,
            n < (s + 1) * (s + 1),
    {
        if s < r {
            assert((s + 1) * (s + 1) <= r * r);
        } else if r < s {
            assert((r + 1) * (r + 1) <= s * s);
        }
    }
}

/// The floor of the square root of `n`, by bisection.
pub fn integer_sqrt(n: u128) -> (r: u128)
    ensures
        is_floor_sqrt(n as int, r as int),
        r == floor_sqrt(n as int),
        r < 0x1_0000_0000_0000_0000,
{
    let mut low: u128 = 0;
    let mut high: u128 = 0x1_0000_0000_0000_0000;
    assert(n < high * high) by (nonlinear_arith)
        requires
            high == 0x1_0000_0000_0000_0000,
            n <= u128::MAX,
    ;
    while high - low > 1
        invariant
            low < high <= 0x1_0000_0000_0000_0000,
            low * low <= n,
            n < high * high,
        decreases high - low,
    {
        let mid: u128 = low + (high - low) / 2;
        assert(mid * mid <= u128::MAX) by (nonlinear_arith)
            requires
                mid < 0x1_0000_0000_0000_0000,
        ;
        if mid * mid <= n {
            low = mid;
        } else {
            high = mid;
        }
    }
    proof {
        lemma_floor_sqrt_unique(n as int, low as int);
    }
    low
}

/// A fixed-point number: `raw` counts millionths.
#[derive(Clone, Copy, Debug, PartialEq, Eq, Structural)]
pub struct Scalar {
    pub raw: i64,
}

impl View for Scalar {
    type V = int;

    open spec fn view(&self) -> int {
        self.raw as int
    }
}

impl Scalar {
    /// The scalar whose raw count is the nearest `i64` to `v`.
    pub open spec fn of(v: int) -> Scalar {
        Scalar { raw: saturate(v) as i64 }
    }

    pub open spec fn add_spec(self, rhs: Scalar) -> Scalar {
        Scalar::of(self@ + rhs@)
    }

    pub open spec fn sub_spec(self, rhs: Scalar) -> Scalar {
        Scalar::of(self@ - rhs@)
    }

    pub open spec fn neg_spec(self) -> Scalar {
        Scalar::of(-self@)
    }

    /// The product, rounded toward zero to a whole number of millionths.
    pub open spec fn mul_spec(self, rhs: Scalar) -> Scalar {
        Scalar::of(trunc_div(self@ * rhs@, SCALE as int))
    }

    /// The quotient, rounded toward zero. Meant for `rhs@ != 0`.
    pub open spec fn div_spec(self, rhs: Scalar) -> Scalar {
        Scalar::of(trunc_div(self@ * SCALE, rhs@))
    }

    /// The square root, rounded down. Meant for `self@ >= 0`.
    pub open spec fn sqrt_spec(self) -> Scalar {
        Scalar::of(floor_sqrt(self@ * SCALE))
    }

    pub fn from_raw(raw: i64) -> (r: Scalar)
        ensures
            r@ == raw,
    {
        Scalar { raw }
    }

    pub fn raw(self) -> (r: i64)
        ensures
            r == self@,
    {
        self.raw
    }

    /// The whole number `value`.
    pub fn from_int(value: i32) -> (r: Scalar)
        ensures
            r@ == value * SCALE,
    {
        assert(-0x8000_0000 * 1_000_000 <= value * SCALE <= 0x8000_0000 * 1_000_000)
            by (nonlinear_arith)
            requires
                SCALE == 1_000_000,
                -0x8000_0000 <= value <= 0x8000_0000,
        ;
        Scalar { raw: (value as i64) * SCALE }
    }

    /// `numerator / denominator`, rounded toward zero.
    pub fn from_ratio(numerator: i32, denominator: i32) -> (r: Scalar)
        requires
            denominator != 0,
        ensures
            r == Scalar::of(trunc_div(numerator * SCALE, denominator as int)),
    {
        assert(-0x8000_0000 * 1_000_000 <= numerator * SCALE <= 0x8000_0000 * 1_000_000)
            by (nonlinear_arith)
            requires
                SCALE == 1_000_000,
                -0x8000_0000 <= numerator <= 0x8000_0000,
        ;
        let scaled: i128 = (numerator as i128) * (SCALE as i128);
        Scalar::from_wide(Scalar::wide_div(scaled, denominator as i128))
    }

    pub open spec fn zero_spec() -> Scalar {
        Scalar { raw: 0 }
    }

    pub open spec fn one_spec() -> Scalar {
        Scalar { raw: SCALE }
    }

    #[verifier::when_used_as_spec(zero_spec)]
    pub fn zero() -> (r: Scalar)
        ensures
            r == Scalar::zero_spec(),
    {
        Scalar { raw: 0 }
    }

    #[verifier::when_used_as_spec(one_spec)]
    pub fn one() -> (r: Scalar)
        ensures
            r == Scalar::one_spec(),
    {
        Scalar { raw: SCALE }
    }

    fn from_wide(v: i128) -> (r: Scalar)
        ensures
            r == Scalar::of(v as int),
    {
        if v < i64::MIN as i128 {
            Scalar { raw: i64::MIN }
        } else if v > i64::MAX as i128 {
            Scalar { raw: i64::MAX }
        } else {
            Scalar { raw: v as i64 }
        }
    }

    /// Division rounded toward zero, with the divisor made positive first.
    fn wide_div(n: i128, d: i128) -> (q: i128)
        requires
            d != 0,
            -0x4000_0000_0000_0000_0000_0000_0000_0000 <= n
                <= 0x4000_0000_0000_0000_0000_0000_0000_0000,
            -0x4000_0000_0000_0000_0000_0000_0000_0000 <= d
                <= 0x4000_0000_0000_0000_0000_0000_0000_0000,
        ensures
            q == trunc_div(n as int, d as int),
    {
        if d < 0 {
            (-n) / (-d)
        } else {
            n / d
        }
    }

    #[verifier::when_used_as_spec(add_spec)]
    pub fn add(self, rhs: Scalar) -> (r: Scalar)
        ensures
            r == self.add_spec(rhs),
    {
        Scalar::from_wide(self.raw as i128 + rhs.raw as i128)
    }

    #[verifier::when_used_as_spec(sub_spec)]
    pub fn sub(self, rhs: Scalar) -> (r: Scalar)
        ensures
            r == self.sub_spec(rhs),
    {
        Scalar::from_wide(self.raw as i128 - rhs.raw as i128)
    }

    #[verifier::when_used_as_spec(neg_spec)]
    pub fn neg(self) -> (r: Scalar)
        ensures
            r == self.neg_spec(),
    {
        Scalar::from_wide(-(self.raw as i128))
    }

    #[verifier::when_used_as_spec(mul_spec)]
    pub fn mul(self, rhs: Scalar) -> (r: Scalar)
        ensures
            r == self.mul_spec(rhs),
    {
        let a: i128 = self.raw as i128;
        let b: i128 = rhs.raw as i128;
        assert(-0x4000_0000_0000_0000_0000_0000_0000_0000 <= a * b
            <= 0x4000_0000_0000_0000_0000_0000_0000_0000) by (nonlinear_arith)
            requires
                -0x8000_0000_0000_0000 <= a <= 0x8000_0000_0000_0000,
                -0x8000_0000_0000_0000 <= b <= 0x8000_0000_0000_0000,
        ;
        Scalar::from_wide((a * b) / (SCALE as i128))
    }

    #[verifier::when_used_as_spec(div_spec)]
    pub fn div(self, rhs: Scalar) -> (r: Scalar)
        requires
            rhs@ != 0,
        ensures
            r == self.div_spec(rhs),
    {
        let a: i128 = self.raw as i128;
        assert(-0x8000_0000_0000_0000 * 1_000_000 <= a * SCALE <= 0x8000_0000_0000_0000
            * 1_000_000) by (nonlinear_arith)
            requires
                SCALE == 1_000_000,
                -0x8000_0000_0000_0000 <= a <= 0x8000_0000_0000_0000,
        ;
        Scalar::from_wide(Scalar::wide_div(a * (SCALE as i128), rhs.raw as i128))
    }

    #[verifier::when_used_as_spec(sqrt_spec)]
    pub fn sqrt(self) -> (r: Scalar)
        requires
            self@ >= 0,
        ensures
            r == self.sqrt_spec(),
            r@ >= 0,
    {
        assert(0 <= self.raw * SCALE <= 0x8000_0000_0000_0000 * 1_000_000) by (nonlinear_arith)
            requires
                SCALE == 1_000_000,
                0 <= self.raw <= 0x8000_0000_0000_0000,
        ;
        let wide: u128 = (self.raw as u128) * (SCALE as u128);
        let root: u128 = integer_sqrt(wide);
        Scalar::from_wide(root as i128)
    }

    pub fn lt(self, rhs: Scalar) -> (r: bool)
        ensures
            r == (self@ < rhs@),
    {
        self.raw < rhs.raw
    }

    pub fn gt(self, rhs: Scalar) -> (r: bool)
        ensures
            r == (self@ > rhs@),
    {
        self.raw > rhs.raw
    }

    pub fn is_negative(self) -> (r: bool)
        ensures
            r == (self@ < 0),
    {
        self.raw < 0
    }

    pub fn is_zero(self) -> (r: bool)
        ensures
            r == (self@ == 0),
    {
        self.raw == 0
    }
}

/// Rounding toward zero keeps the order of the numerators, for a positive divisor.
pub proof fn lemma_trunc_div_monotone(smaller: int, larger: int, d: int)
    requires
        smaller <= larger,
        d > 0,
    ensures
        trunc_div(smaller, d) <= trunc_div(larger, d),
{
    if smaller >= 0 {
        vstd::arithmetic::div_mod::lemma_div_is_ordered(smaller, larger, d);
    } else if larger < 0 {
        vstd::arithmetic::div_mod::lemma_div_is_ordered(-larger, -smaller, d);
    } else {
        vstd::arithmetic::div_mod::lemma_div_pos_is_pos(-smaller, d);
        vstd::arithmetic::div_mod::lemma_div_pos_is_pos(larger, d);
    }
}

/// Rounding toward zero keeps the sign of a numerator that is not negative.
pub proof fn lemma_trunc_div_nonnegative(n: int, d: int)
    requires
        n >= 0,
        d > 0,
    ensures
        trunc_div(n, d) >= 0,
{
    vstd::arithmetic::div_mod::lemma_div_pos_is_pos(n, d);
}

impl Scalar {
    /// A square is not negative.
    pub proof fn lemma_square_nonnegative(value: Scalar)
        ensures
            value.mul(value)@ >= 0,
    {
        assert(value@ * value@ >= 0) by (nonlinear_arith);
        lemma_trunc_div_nonnegative(value@ * value@, SCALE as int);
    }

    /// The floor of a square root is not negative.
    pub proof fn lemma_sqrt_nonnegative(value: Scalar)
        requires
            value@ >= 0,
        ensures
            value.sqrt()@ >= 0,
    {
        let n = value@ * SCALE;
        assert(n >= 0) by (nonlinear_arith)
            requires
                n == value@ * SCALE,
                value@ >= 0,
                SCALE == 1_000_000,
        ;
        lemma_floor_sqrt_exists(n);
    }

    /// Division by a positive number keeps the order of the dividends.
    pub proof fn lemma_div_monotone(smaller: Scalar, larger: Scalar, divisor: Scalar)
        requires
            smaller@ <= larger@,
            divisor@ > 0,
        ensures
            smaller.div(divisor)@ <= larger.div(divisor)@,
    {
        assert(smaller@ * SCALE <= larger@ * SCALE) by (nonlinear_arith)
            requires
                smaller@ <= larger@,
                SCALE == 1_000_000,
        ;
        lemma_trunc_div_monotone(smaller@ * SCALE, larger@ * SCALE, divisor@);
    }
}

/// Every natural number has a floor of its square root.
pub proof fn lemma_floor_sqrt_exists(n: int)
    requires
        n >= 0,
    ensures
        is_floor_sqrt(n, floor_sqrt(n)),
    decreases n,
{
    if n == 0 {
        assert(is_floor_sqrt(0, 0));
    } else {
        lemma_floor_sqrt_exists(n - 1);
        let r = floor_sqrt(n - 1);
        if n < (r + 1) * (r + 1) {
            assert(is_floor_sqrt(n, r));
        } else {
            assert(is_floor_sqrt(n, r + 1)) by (nonlinear_arith)
                requires
                    0 <= r,
                    r * r <= n - 1,
                    n - 1 < (r + 1) * (r + 1),
                    n >= (r + 1) * (r + 1),
            ;
        }
    }
}

} // verus!
