//! Signed fixed-point decimal with 18 fractional digits.
use vstd::prelude::*;

verus! {

/// Number of atomics in one whole unit: 10^18.
pub const DECIMAL_FRACTIONAL: i128 = 1_000_000_000_000_000_000;

/// 10^36, the square of `DECIMAL_FRACTIONAL`.
pub const DECIMAL_FRACTIONAL_SQUARED: i128 = 1_000_000_000_000_000_000_000_000_000_000_000_000;

/// Number of fractional decimal digits of a `Decimal`.
pub const DECIMAL_PLACES: i32 = 18;

/// Division that rounds toward zero, as Rust's `/` does on signed integers.
pub open spec fn tdiv(x: int, d: int) -> int {
    if x == 0 {
        0
    } else if x > 0 && d > 0 {
        x / d
    } else if x < 0 && d < 0 {
        (-x) / (-d)
    } else if x < 0 {
        -((-x) / d)
    } else {
        -(x / (-d))
    }
}

pub open spec fn in_i128(x: int) -> bool {
    i128::MIN <= x <= i128::MAX
}

/// `x * d / 10^18` rounded toward zero: what multiplying `x` by the decimal
/// whose atomics are `d` gives.
pub open spec fn mul_atomics(x: int, d: int) -> int {
    tdiv(x * d, DECIMAL_FRACTIONAL as int)
}

/// `n * 10^18 / d` rounded toward zero: the atomics of the ratio `n / d`.
pub open spec fn ratio_atomics(n: int, d: int) -> int {
    tdiv(n * DECIMAL_FRACTIONAL as int, d)
}

/// `2^127`, the magnitude of `i128::MIN`.
pub const I128_MIN_MAGNITUDE: u128 = 0x8000_0000_0000_0000_0000_0000_0000_0000;

proof fn lemma_pow2_127()
    ensures
        vstd::arithmetic::power2::pow2(127) == I128_MIN_MAGNITUDE,
{
    vstd::arithmetic::power2::lemma2_to64();
    vstd::arithmetic::power2::lemma2_to64_rest();
    vstd::arithmetic::power2::lemma_pow2_adds(64, 63);
}

/// `floor(a * b / c)`, computed without overflowing; `None` where the
/// result does not fit a `u128`.
pub fn mul_div_floor(a: u128, b: u128, c: u128) -> (r: Option<u128>)
    requires
        0 < c <= I128_MIN_MAGNITUDE,
    ensures
        r matches Some(q) ==> q == (a * b) / (c as int),
        r is None ==> (a * b) / (c as int) > u128::MAX,
{
    let qa = a / c;
    let ra = a % c;
    proof {
        vstd::arithmetic::div_mod::lemma_fundamental_div_mod(a as int, c as int);
        assert(a * b == (qa * b) * c + ra * b) by (nonlinear_arith)
            requires a == c * qa + ra;
    }
    let base = match qa.checked_mul(b) {
        Some(v) => v,
        None => {
            proof {
                let t = (a * b) / (c as int);
                vstd::arithmetic::div_mod::lemma_fundamental_div_mod(a * b, c as int);
                assert(t >= qa * b) by (nonlinear_arith)
                    requires
                        a * b == c * t + (a * b) % (c as int),
                        (a * b) % (c as int) < c,
                        a * b == (qa * b) * c + ra * b,
                        ra * b >= 0,
                        c > 0;
            }
            return None;
        },
    };
    // long division of `ra * b` by `c`, one bit of `b` at a time
    let mut qq: u128 = 0;
    let mut rr: u128 = 0;
    let mut rest: u128 = b;
    let mut p: u128 = I128_MIN_MAGNITUDE;
    let ghost mut prefix: int = 0;
    let ghost mut m: int = 2 * I128_MIN_MAGNITUDE;
    let mut i: u32 = 0;
    proof {
        lemma_pow2_127();
    }
    while i < 128
        invariant
            0 <= i <= 128,
            0 < c <= I128_MIN_MAGNITUDE,
            ra < c,
            rr < c,
            i < 128 ==> p == vstd::arithmetic::power2::pow2((127 - i) as nat) && m == 2 * p,
            i == 128 ==> m == 1,
            m >= 1,
            b == prefix * m + rest,
            0 <= rest < m,
            prefix >= 0,
            ra * prefix == qq * c + rr,
        decreases 128 - i,
    {
        proof {
            vstd::arithmetic::power2::lemma_pow2_pos((127 - i) as nat);
            assert(prefix * m <= b);
            assert(prefix < I128_MIN_MAGNITUDE) by (nonlinear_arith)
                requires prefix * m <= b, m >= 2, b <= u128::MAX, prefix >= 0;
            assert(qq * c <= ra * prefix);
            assert(qq == 0 || qq < prefix) by (nonlinear_arith)
                requires qq * c <= ra * prefix, ra < c, prefix >= 0, c > 0, qq >= 0;
        }
        let bit = rest / p;
        let low = rest % p;
        proof {
            vstd::arithmetic::div_mod::lemma_fundamental_div_mod(rest as int, p as int);
            assert(bit <= 1) by (nonlinear_arith)
                requires bit == rest / p, rest < 2 * p, p > 0;
        }
        let mut nq: u128 = qq * 2;
        let mut nr: u128 = rr * 2;
        if nr >= c {
            nr = nr - c;
            nq = nq + 1;
            assert(nq * c == (nq - 1) * c + c) by (nonlinear_arith);
        }
        assert(nq * c + nr == 2 * (qq * c + rr)) by (nonlinear_arith)
            requires
                nq == 2 * qq && nr == 2 * rr || nq == 2 * qq + 1 && nr == 2 * rr - c;
        let ghost doubled_q = nq;
        let ghost doubled_r = nr;
        if bit == 1 {
            nr = nr + ra;
            if nr >= c {
                nr = nr - c;
                nq = nq + 1;
            }
            assert(nq * c + nr == doubled_q * c + doubled_r + ra) by (nonlinear_arith)
                requires
                    nq == doubled_q && nr == doubled_r + ra || nq == doubled_q + 1 && nr == doubled_r + ra - c;
        }
        proof {
            assert(ra * (2 * prefix + bit) == nq * c + nr) by (nonlinear_arith)
                requires
                    ra * prefix == qq * c + rr,
                    doubled_q * c + doubled_r == 2 * (qq * c + rr),
                    bit == 0 ==> nq == doubled_q && nr == doubled_r,
                    bit == 1 ==> nq * c + nr == doubled_q * c + doubled_r + ra,
                    bit == 0 || bit == 1;
            assert(b == (2 * prefix + bit) * p + low) by (nonlinear_arith)
                requires b == prefix * m + rest, m == 2 * p, rest == p * bit + low;
            prefix = 2 * prefix + bit;
            m = p as int;
            if i + 1 < 128 {
                vstd::arithmetic::power2::lemma_pow2_unfold((127 - i) as nat);
            } else {
                vstd::arithmetic::power2::lemma2_to64();
                assert(p == 1);
            }
        }
        qq = nq;
        rr = nr;
        rest = low;
        p = p / 2;
        i = i + 1;
    }
    proof {
        assert(prefix == b);
        assert(a * b == (qa * b + qq) * c + rr) by (nonlinear_arith)
            requires a * b == (qa * b) * c + ra * b, ra * b == qq * c + rr;
        vstd::arithmetic::div_mod::lemma_fundamental_div_mod_converse(a * b, c as int, qa * b + qq, rr as int);
    }
    match base.checked_add(qq) {
        Some(v) => Some(v),
        None => None,
    }
}

/// The magnitude of a machine integer.
pub fn magnitude(x: i128) -> (r: u128)
    ensures
        r == if x < 0 { -x } else { x as int },
{
    if x < 0 {
        (-(x + 1)) as u128 + 1
    } else {
        x as u128
    }
}

/// `tdiv(x * y, z)` in terms of magnitudes: the quotient of the magnitudes,
/// negated when exactly one or all three of `x`, `y`, `z` are negative.
proof fn lemma_tdiv_by_magnitudes(x: int, y: int, z: int)
    requires
        z != 0,
    ensures
        ({
            let mx = if x < 0 { -x } else { x };
            let my = if y < 0 { -y } else { y };
            let mz = if z < 0 { -z } else { z };
            let negative = ((x < 0) != (y < 0)) != (z < 0);
            tdiv(x * y, z) == if negative { -((mx * my) / mz) } else { (mx * my) / mz }
        }),
{
    let mx = if x < 0 { -x } else { x };
    let my = if y < 0 { -y } else { y };
    let v = x * y;
    if x == 0 || y == 0 {
        assert(v == 0) by (nonlinear_arith)
            requires x == 0 || y == 0, v == x * y;
        assert(mx * my == 0) by (nonlinear_arith)
            requires mx == 0 || my == 0;
    } else {
        assert(mx * my > 0) by (nonlinear_arith)
            requires mx > 0, my > 0;
        if (x < 0) == (y < 0) {
            assert(v == mx * my) by (nonlinear_arith)
                requires v == x * y, mx == (if x < 0 { -x } else { x }), my == (if y < 0 { -y } else { y }), (x < 0) == (y < 0);
        } else {
            assert(v == -(mx * my)) by (nonlinear_arith)
                requires v == x * y, mx == (if x < 0 { -x } else { x }), my == (if y < 0 { -y } else { y }), (x < 0) != (y < 0);
        }
    }
}

/// `x * y / z` rounded toward zero, computed without overflowing; `None`
/// where the result does not fit an `i128`.
pub fn checked_mul_div(x: i128, y: i128, z: i128) -> (r: Option<i128>)
    requires
        z != 0,
    ensures
        in_i128(tdiv(x * y, z as int)) ==> r == Some(tdiv(x * y, z as int) as i128),
        !in_i128(tdiv(x * y, z as int)) ==> r is None,
{
    let mx = magnitude(x);
    let my = magnitude(y);
    let mz = magnitude(z);
    proof {
        lemma_tdiv_by_magnitudes(x as int, y as int, z as int);
    }
    let negative = ((x < 0) != (y < 0)) != (z < 0);
    let q = match mul_div_floor(mx, my, mz) {
        Some(q) => q,
        None => return None,
    };
    if negative {
        if q > I128_MIN_MAGNITUDE {
            return None;
        }
        if q == I128_MIN_MAGNITUDE {
            return Some(i128::MIN);
        }
        Some(-(q as i128))
    } else {
        if q > i128::MAX as u128 {
            return None;
        }
        Some(q as i128)
    }
}

/// The two ways building a ratio fails.
#[derive(Clone, Copy, Debug, PartialEq, Eq, Structural)]
pub enum DecimalError {
    DivideByZero,
    Overflow,
}

/// A decimal number held as its atomics: the value is `atomics / 10^18`.
#[derive(Clone, Copy, Debug, PartialEq, Eq, Structural, PartialOrd, Ord)]
pub struct Decimal(pub i128);

pub proof fn lemma_tdiv_in_range(x: int, d: int)
    requires
        in_i128(x),
        d != 0,
        !(x == i128::MIN && d == -1),
    ensures
        in_i128(tdiv(x, d)),
{
    if x > 0 && d > 0 {
        vstd::arithmetic::div_mod::lemma_div_is_ordered_by_denominator(x, 1, d);
        vstd::arithmetic::div_mod::lemma_div_pos_is_pos(x, d);
    } else if x < 0 && d < 0 {
        vstd::arithmetic::div_mod::lemma_div_is_ordered_by_denominator(-x, 1, -d);
        vstd::arithmetic::div_mod::lemma_div_pos_is_pos(-x, -d);
        if -d == 1 {
        } else {
            vstd::arithmetic::div_mod::lemma_div_is_ordered_by_denominator(-x, 2, -d);
            vstd::arithmetic::div_mod::lemma_div_is_ordered(-x, i128::MAX as int + 1, 2);
        }
    } else if x < 0 {
        vstd::arithmetic::div_mod::lemma_div_is_ordered_by_denominator(-x, 1, d);
        vstd::arithmetic::div_mod::lemma_div_pos_is_pos(-x, d);
    } else if x > 0 {
        vstd::arithmetic::div_mod::lemma_div_is_ordered_by_denominator(x, 1, -d);
        vstd::arithmetic::div_mod::lemma_div_pos_is_pos(x, -d);
    }
}

/// Truncating signed division of machine integers.
pub fn div_trunc(x: i128, d: i128) -> (r: i128)
    requires
        d != 0,
        !(x == i128::MIN && d == -1),
    ensures
        r == tdiv(x as int, d as int),
{
    proof {
        lemma_tdiv_in_range(x as int, d as int);
    }
    match x.checked_div(d) {
        Some(q) => q,
        None => 0,
    }
}

impl Decimal {
    pub fn new(value: i128) -> (r: Self)
        ensures
            r.0 == value,
    {
        Decimal(value)
    }

    pub fn raw(value: i128) -> (r: Self)
        ensures
            r.0 == value,
    {
        Decimal(value)
    }

    pub fn one() -> (r: Self)
        ensures
            r.0 == DECIMAL_FRACTIONAL,
    {
        Decimal(DECIMAL_FRACTIONAL)
    }

    pub fn zero() -> (r: Self)
        ensures
            r.0 == 0,
    {
        Decimal(0)
    }

    /// `x` percent: `x / 100`.
    pub fn percent(x: i64) -> (r: Self)
        ensures
            r.0 == x as int * 10_000_000_000_000_000,
    {
        Decimal(x as i128 * 10_000_000_000_000_000)
    }

    /// `x` per mille: `x / 1000`.
    pub fn permille(x: i64) -> (r: Self)
        ensures
            r.0 == x as int * 1_000_000_000_000_000,
    {
        Decimal(x as i128 * 1_000_000_000_000_000)
    }

    /// `x` basis points: `x / 10_000`.
    pub fn bps(x: i64) -> (r: Self)
        ensures
            r.0 == x as int * 100_000_000_000_000,
    {
        Decimal(x as i128 * 100_000_000_000_000)
    }

    pub fn decimal_places(&self) -> (r: i32)
        ensures
            r == DECIMAL_PLACES,
    {
        DECIMAL_PLACES
    }

    pub fn is_zero(&self) -> (r: bool)
        ensures
            r == (self.0 == 0),
    {
        self.0 == 0
    }

    pub fn atomics(&self) -> (r: Option<i128>)
        ensures
            r == Some(self.0),
    {
        Some(self.0)
    }

    /// The multiplicative inverse `10^36 / atomics`, or `None` for zero.
    pub fn inv(&self) -> (r: Option<Self>)
        ensures
            self.0 == 0 ==> r.is_none(),
            self.0 != 0 ==> r == Some(Decimal(tdiv(DECIMAL_FRACTIONAL_SQUARED as int, self.0 as int) as i128)),
    {
        if self.0 == 0 {
            None
        } else {
            Some(Decimal(div_trunc(DECIMAL_FRACTIONAL_SQUARED, self.0)))
        }
    }

    /// The ratio `numerator / denominator`, or why it cannot be built.
    pub fn checked_from_ratio(numerator: i128, denominator: i128) -> (r: Result<Self, DecimalError>)
        ensures
            denominator == 0 ==> r == Err::<Decimal, DecimalError>(DecimalError::DivideByZero),
            denominator != 0 && !in_i128(ratio_atomics(numerator as int, denominator as int))
                ==> r == Err::<Decimal, DecimalError>(DecimalError::Overflow),
            denominator != 0 && in_i128(ratio_atomics(numerator as int, denominator as int)) ==> r == Ok::<Decimal, DecimalError>(
                Decimal(ratio_atomics(numerator as int, denominator as int) as i128),
            ),
    {
        if denominator == 0 {
            return Err(DecimalError::DivideByZero);
        }
        match checked_mul_div(numerator, DECIMAL_FRACTIONAL, denominator) {
            Some(v) => Ok(Decimal(v)),
            None => Err(DecimalError::Overflow),
        }
    }

    /// The ratio `numerator / denominator`.
    pub fn from_ratio(numerator: i128, denominator: i128) -> (r: Self)
        requires
            denominator != 0,
            in_i128(ratio_atomics(numerator as int, denominator as int)),
        ensures
            r.0 == ratio_atomics(numerator as int, denominator as int),
    {
        match Self::checked_from_ratio(numerator, denominator) {
            Ok(d) => d,
            Err(_) => Decimal(0),
        }
    }

    /// `atomics * 10^(18 - decimal_places)`: the decimal whose value is
    /// `atomics / 10^decimal_places`.
    pub fn from_atomics(atomics: i128, decimal_places: i32) -> (r: Self)
        requires
            0 <= decimal_places <= DECIMAL_PLACES,
            in_i128(atomics * vstd::arithmetic::power::pow(10, (DECIMAL_PLACES - decimal_places) as nat)),
        ensures
            r.0 == atomics * vstd::arithmetic::power::pow(10, (DECIMAL_PLACES - decimal_places) as nat),
    {
        let digits: u32 = (DECIMAL_PLACES - decimal_places) as u32;
        let factor = pow10_i128(digits);
        Decimal(atomics * factor)
    }

    /// `self + other`.
    pub fn add(self, other: Self) -> (r: Self)
        requires
            in_i128(self.0 + other.0),
        ensures
            r.0 == self.0 + other.0,
    {
        Decimal(self.0 + other.0)
    }

    /// `self - other`.
    pub fn sub(self, other: Self) -> (r: Self)
        requires
            in_i128(self.0 - other.0),
        ensures
            r.0 == self.0 - other.0,
    {
        Decimal(self.0 - other.0)
    }

    /// The product of two decimals, `self.0 * other.0 / 10^18` on atomics.
    pub fn mul(self, other: Self) -> (r: Self)
        requires
            in_i128(mul_atomics(self.0 as int, other.0 as int)),
        ensures
            r.0 == mul_atomics(self.0 as int, other.0 as int),
    {
        Decimal(Self::mul_int(self.0, other))
    }

    /// The quotient of two decimals: the ratio of their atomics.
    pub fn div(self, rhs: Self) -> (r: Self)
        requires
            rhs.0 != 0,
            in_i128(ratio_atomics(self.0 as int, rhs.0 as int)),
        ensures
            r.0 == ratio_atomics(self.0 as int, rhs.0 as int),
    {
        Self::from_ratio(self.0, rhs.0)
    }

    /// The decimal divided by an integer, rounded toward zero.
    pub fn div_int(self, rhs: i128) -> (r: Self)
        requires
            rhs != 0,
            !(self.0 == i128::MIN && rhs == -1),
        ensures
            r.0 == tdiv(self.0 as int, rhs as int),
    {
        Decimal(div_trunc(self.0, rhs))
    }

    /// An integer times a decimal, rounded toward zero: `x * atomics / 10^18`.
    pub fn mul_int(x: i128, d: Self) -> (r: i128)
        requires
            in_i128(mul_atomics(x as int, d.0 as int)),
        ensures
            r == mul_atomics(x as int, d.0 as int),
    {
        match checked_mul_div(x, d.0, DECIMAL_FRACTIONAL) {
            Some(v) => v,
            None => 0,
        }
    }

    /// An integer times a decimal, or `None` where the product does not fit.
    pub fn checked_mul_int(x: i128, d: Self) -> (r: Option<i128>)
        ensures
            in_i128(mul_atomics(x as int, d.0 as int)) ==> r == Some(mul_atomics(x as int, d.0 as int) as i128),
            !in_i128(mul_atomics(x as int, d.0 as int)) ==> r is None,
    {
        checked_mul_div(x, d.0, DECIMAL_FRACTIONAL)
    }

    /// Whether `self` is strictly greater than `other`.
    pub fn gt(&self, other: &Self) -> (r: bool)
        ensures
            r == (self.0 > other.0),
    {
        self.0 > other.0
    }
}

proof fn lemma_pow10_38()
    ensures
        vstd::arithmetic::power::pow(10, 38) == 100000000000000000000000000000000000000,
{
    reveal_with_fuel(vstd::arithmetic::power::pow, 39);
}

/// `10^k` as an `i128`.
pub fn pow10_i128(k: u32) -> (r: i128)
    requires
        k <= 38,
    ensures
        r == vstd::arithmetic::power::pow(10, k as nat),
{
    let mut r: i128 = 1;
    let mut i: u32 = 0;
    proof {
        vstd::arithmetic::power::lemma_pow0(10);
    }
    while i < k
        invariant
            i <= k <= 38,
            r == vstd::arithmetic::power::pow(10, i as nat),
        decreases k - i,
    {
        proof {
            lemma_pow10_38();
            vstd::arithmetic::power::lemma_pow_adds(10, i as nat, 1);
            vstd::arithmetic::power::lemma_pow1(10);
            assert(vstd::arithmetic::power::pow(10, (i + 1) as nat) == r * 10);
            if i + 1 < 38 {
                vstd::arithmetic::power::lemma_pow_strictly_increases(10, (i + 1) as nat, 38);
            }
            assert(r * 10 <= 100000000000000000000000000000000000000);
            vstd::arithmetic::power::lemma_pow_positive(10, i as nat);
        }
        r = r * 10;
        i = i + 1;
    }
    r
}

} // verus!
