//! 256-bit unsigned integers. The arithmetic is the host's (`soroban_sdk::U256`);
//! the library holds a value as its 32 big-endian bytes.
use soroban_sdk::{Bytes, Env, U256};
use vstd::prelude::*;

verus! {

#[verifier::external_type_specification]
#[verifier::external_body]
pub struct ExEnv(Env);

/// `2^256 - 1`, the largest 256-bit value.
pub open spec fn wide_max() -> nat {
    115792089237316195423570985008687907853269984665640564039457584007913129639935nat
}

/// Whether `x` is a 256-bit unsigned value.
pub open spec fn fits(x: int) -> bool {
    0 <= x <= wide_max()
}

/// The number that a big-endian byte string denotes.
pub open spec fn be_value(s: Seq<u8>) -> nat
    decreases s.len(),
{
    if s.len() == 0 {
        0
    } else {
        be_value(s.drop_last()) * 256 + s.last() as nat
    }
}

/// A 256-bit unsigned integer as 32 big-endian bytes.
#[derive(Clone, Copy, Debug)]
pub struct Wide {
    pub bytes: [u8; 32],
}

impl Wide {
    pub open spec fn value(&self) -> int {
        be_value(self.bytes@) as int
    }
}

proof fn lemma_be_value_bound(s: Seq<u8>)
    ensures
        be_value(s) < vstd::arithmetic::power::pow(256, s.len()),
    decreases s.len(),
{
    if s.len() == 0 {
        vstd::arithmetic::power::lemma_pow0(256);
    } else {
        lemma_be_value_bound(s.drop_last());
        let p = vstd::arithmetic::power::pow(256, (s.len() - 1) as nat);
        vstd::arithmetic::power::lemma_pow_adds(256, (s.len() - 1) as nat, 1);
        vstd::arithmetic::power::lemma_pow1(256);
        assert(be_value(s.drop_last()) * 256 + s.last() < p * 256) by (nonlinear_arith)
            requires
                be_value(s.drop_last()) < p,
                s.last() < 256,
        ;
    }
}

proof fn lemma_be_value_all_ones(s: Seq<u8>)
    requires
        forall|i: int| 0 <= i < s.len() ==> s[i] == 255,
    ensures
        be_value(s) + 1 == vstd::arithmetic::power::pow(256, s.len()),
    decreases s.len(),
{
    if s.len() == 0 {
        vstd::arithmetic::power::lemma_pow0(256);
    } else {
        lemma_be_value_all_ones(s.drop_last());
        vstd::arithmetic::power::lemma_pow_adds(256, (s.len() - 1) as nat, 1);
        vstd::arithmetic::power::lemma_pow1(256);
    }
}

proof fn lemma_pow256_32()
    ensures
        vstd::arithmetic::power::pow(256, 32) == wide_max() + 1,
{
    reveal_with_fuel(vstd::arithmetic::power::pow, 33);
}

/// Every `Wide` holds a 256-bit value.
pub proof fn lemma_wide_fits(w: Wide)
    ensures
        fits(w.value()),
{
    lemma_be_value_bound(w.bytes@);
    lemma_pow256_32();
}

/// The largest 256-bit value.
pub fn wide_max_value() -> (r: Wide)
    ensures
        r.value() == wide_max(),
{
    let r = Wide { bytes: [255u8; 32] };
    proof {
        lemma_be_value_all_ones(r.bytes@);
        lemma_pow256_32();
    }
    r
}

/// `U256::from_u128`: the 256-bit value `x`.
#[verifier::external_body]
pub(crate) fn wide_from_u128(env: &Env, x: u128) -> (r: Wide)
    ensures
        r.value() == x,
{
    let mut bytes = [0u8; 32];
    U256::from_u128(env, x).to_be_bytes().copy_into_slice(&mut bytes);
    Wide { bytes }
}

/// `U256::to_u128`: the value when it is below `2^128`, else `None`.
#[verifier::external_body]
pub(crate) fn wide_to_u128(env: &Env, a: &Wide) -> (r: Option<u128>)
    ensures
        a.value() <= u128::MAX ==> r == Some(a.value() as u128),
        a.value() > u128::MAX ==> r.is_none(),
{
    U256::from_be_bytes(env, &Bytes::from_array(env, &a.bytes)).to_u128()
}

/// `U256::add`; the host traps on overflow, which `requires` rules out.
#[verifier::external_body]
pub(crate) fn wide_add(env: &Env, a: &Wide, b: &Wide) -> (r: Wide)
    requires
        fits(a.value() + b.value()),
    ensures
        r.value() == a.value() + b.value(),
{
    let x = U256::from_be_bytes(env, &Bytes::from_array(env, &a.bytes));
    let y = U256::from_be_bytes(env, &Bytes::from_array(env, &b.bytes));
    let mut bytes = [0u8; 32];
    x.add(&y).to_be_bytes().copy_into_slice(&mut bytes);
    Wide { bytes }
}

/// `U256::sub`; the host traps below zero, which `requires` rules out.
#[verifier::external_body]
pub(crate) fn wide_sub(env: &Env, a: &Wide, b: &Wide) -> (r: Wide)
    requires
        b.value() <= a.value(),
    ensures
        r.value() == a.value() - b.value(),
{
    let x = U256::from_be_bytes(env, &Bytes::from_array(env, &a.bytes));
    let y = U256::from_be_bytes(env, &Bytes::from_array(env, &b.bytes));
    let mut bytes = [0u8; 32];
    x.sub(&y).to_be_bytes().copy_into_slice(&mut bytes);
    Wide { bytes }
}

/// `U256::mul`; the host traps on overflow, which `requires` rules out.
#[verifier::external_body]
pub(crate) fn wide_mul(env: &Env, a: &Wide, b: &Wide) -> (r: Wide)
    requires
        fits(a.value() * b.value()),
    ensures
        r.value() == a.value() * b.value(),
{
    let x = U256::from_be_bytes(env, &Bytes::from_array(env, &a.bytes));
    let y = U256::from_be_bytes(env, &Bytes::from_array(env, &b.bytes));
    let mut bytes = [0u8; 32];
    x.mul(&y).to_be_bytes().copy_into_slice(&mut bytes);
    Wide { bytes }
}

/// `U256::div`: the quotient rounded down; the host traps on a zero divisor,
/// which `requires` rules out.
#[verifier::external_body]
pub(crate) fn wide_div(env: &Env, a: &Wide, b: &Wide) -> (r: Wide)
    requires
        b.value() != 0,
    ensures
        r.value() == a.value() / b.value(),
{
    let x = U256::from_be_bytes(env, &Bytes::from_array(env, &a.bytes));
    let y = U256::from_be_bytes(env, &Bytes::from_array(env, &b.bytes));
    let mut bytes = [0u8; 32];
    x.div(&y).to_be_bytes().copy_into_slice(&mut bytes);
    Wide { bytes }
}

/// `U256::pow`; the host traps on overflow, which `requires` rules out.
#[verifier::external_body]
pub(crate) fn wide_pow(env: &Env, a: &Wide, exp: u32) -> (r: Wide)
    requires
        fits(vstd::arithmetic::power::pow(a.value(), exp as nat)),
    ensures
        r.value() == vstd::arithmetic::power::pow(a.value(), exp as nat),
{
    let x = U256::from_be_bytes(env, &Bytes::from_array(env, &a.bytes));
    let mut bytes = [0u8; 32];
    x.pow(exp).to_be_bytes().copy_into_slice(&mut bytes);
    Wide { bytes }
}

/// `<` on `U256`, which the host decides by value.
#[verifier::external_body]
pub(crate) fn wide_lt(env: &Env, a: &Wide, b: &Wide) -> (r: bool)
    ensures
        r == (a.value() < b.value()),
{
    let x = U256::from_be_bytes(env, &Bytes::from_array(env, &a.bytes));
    let y = U256::from_be_bytes(env, &Bytes::from_array(env, &b.bytes));
    x < y
}

/// `a <= b` on values.
pub fn wide_le(env: &Env, a: &Wide, b: &Wide) -> (r: bool)
    ensures
        r == (a.value() <= b.value()),
{
    !wide_lt(env, b, a)
}

/// `a + b`, or `None` when it does not fit in 256 bits.
pub fn wide_checked_add(env: &Env, a: &Wide, b: &Wide) -> (r: Option<Wide>)
    ensures
        fits(a.value() + b.value()) ==> r.is_some() && r.unwrap().value() == a.value() + b.value(),
        !fits(a.value() + b.value()) ==> r.is_none(),
{
    let max = wide_max_value();
    proof {
        lemma_wide_fits(*a);
        lemma_wide_fits(*b);
    }
    let room = wide_sub(env, &max, a);
    if wide_lt(env, &room, b) {
        None
    } else {
        Some(wide_add(env, a, b))
    }
}

/// `a - b`, or `None` when `b > a`.
pub fn wide_checked_sub(env: &Env, a: &Wide, b: &Wide) -> (r: Option<Wide>)
    ensures
        b.value() <= a.value() ==> r.is_some() && r.unwrap().value() == a.value() - b.value(),
        b.value() > a.value() ==> r.is_none(),
{
    if wide_lt(env, a, b) {
        None
    } else {
        Some(wide_sub(env, a, b))
    }
}

proof fn lemma_mul_fits_iff(a: nat, b: nat, m: nat)
    requires
        a > 0,
    ensures
        (a * b <= m) == (b <= m / a),
{
    vstd::arithmetic::div_mod::lemma_fundamental_div_mod(m as int, a as int);
    if b <= m / a {
        vstd::arithmetic::mul::lemma_mul_inequality(b as int, (m / a) as int, a as int);
        vstd::arithmetic::mul::lemma_mul_is_commutative(b as int, a as int);
        vstd::arithmetic::mul::lemma_mul_is_commutative((m / a) as int, a as int);
    } else {
        vstd::arithmetic::mul::lemma_mul_inequality((m / a + 1) as int, b as int, a as int);
        vstd::arithmetic::mul::lemma_mul_is_commutative(b as int, a as int);
        vstd::arithmetic::mul::lemma_mul_is_distributive_add(a as int, (m / a) as int, 1);
        vstd::arithmetic::mul::lemma_mul_is_commutative((m / a + 1) as int, a as int);
    }
}

/// `a * b`, or `None` when it does not fit in 256 bits.
pub fn wide_checked_mul(env: &Env, a: &Wide, b: &Wide) -> (r: Option<Wide>)
    ensures
        fits(a.value() * b.value()) ==> r.is_some() && r.unwrap().value() == a.value() * b.value(),
        !fits(a.value() * b.value()) ==> r.is_none(),
{
    let zero = wide_from_u128(env, 0);
    if !wide_lt(env, &zero, a) {
        proof {
            lemma_wide_fits(*a);
            let (x, y) = (a.value(), b.value());
            assert(x * y == 0) by (nonlinear_arith)
                requires
                    x == 0,
            ;
        }
        return Some(wide_mul(env, a, b));
    }
    let max = wide_max_value();
    let room = wide_div(env, &max, a);
    proof {
        lemma_mul_fits_iff(a.value() as nat, b.value() as nat, wide_max());
        vstd::arithmetic::mul::lemma_mul_nonnegative(a.value() as int, b.value() as int);
    }
    if wide_lt(env, &room, b) {
        None
    } else {
        Some(wide_mul(env, a, b))
    }
}

} // verus!
