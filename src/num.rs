//! Arbitrary-precision non-negative integers, held as little-endian base-2^32
//! limbs, with their arithmetic delegated to `num_bigint`.
use vstd::prelude::*;
use vstd::arithmetic::power::pow as int_pow;
use num_bigint::{BigInt, BigUint, RandBigInt, Sign};
use std::str::FromStr;
use crate::parse::decimal_value;
use num_integer::Integer;

verus! {

/// The value of little-endian base-2^32 limbs.
pub open spec fn limbs_value(s: Seq<u32>) -> nat
    decreases s.len(),
{
    if s.len() == 0 {
        0
    } else {
        s[0] as nat + 4294967296 * limbs_value(s.drop_first())
    }
}

/// `base^exp mod modulus`, over mathematical integers.
pub open spec fn mod_pow(base: int, exp: nat, modulus: int) -> int {
    int_pow(base, exp) % modulus
}

/// A non-negative integer of any size.
#[derive(Debug, Clone, PartialEq, Eq)]
pub struct Num {
    limbs: Vec<u32>,
}

impl View for Num {
    type V = nat;

    closed spec fn view(&self) -> nat {
        limbs_value(self.limbs@)
    }
}

/// Relies on `BigUint::from(u64)` and `BigUint::to_u32_digits`: the limbs of `v`.
#[verifier::external_body]
fn num_from_u64(v: u64) -> (r: Num)
    ensures
        r@ == v,
{
    Num { limbs: BigUint::from(v).to_u32_digits() }
}

/// Relies on `BigUint::new` and `BigUint::modpow`: `base^exp mod modulus`, for a
/// non-zero modulus (it panics on zero).
#[verifier::external_body]
fn num_modpow(base: &Num, exp: &Num, modulus: &Num) -> (r: Num)
    requires
        modulus@ > 0,
    ensures
        r@ == mod_pow(base@ as int, exp@, modulus@ as int),
{
    let b = BigUint::new(base.limbs.clone());
    let r = b.modpow(&BigUint::new(exp.limbs.clone()), &BigUint::new(modulus.limbs.clone()));
    Num { limbs: r.to_u32_digits() }
}

/// Relies on `BigUint`'s `*`: the product.
#[verifier::external_body]
fn num_mul(a: &Num, b: &Num) -> (r: Num)
    ensures
        r@ == a@ * b@,
{
    let r = BigUint::new(a.limbs.clone()) * BigUint::new(b.limbs.clone());
    Num { limbs: r.to_u32_digits() }
}

/// Relies on `BigUint`'s `+`: the sum.
#[verifier::external_body]
fn num_add(a: &Num, b: &Num) -> (r: Num)
    ensures
        r@ == a@ + b@,
{
    let r = BigUint::new(a.limbs.clone()) + BigUint::new(b.limbs.clone());
    Num { limbs: r.to_u32_digits() }
}

/// Relies on `BigUint`'s `-`, which panics on a negative difference.
#[verifier::external_body]
fn num_sub(a: &Num, b: &Num) -> (r: Num)
    requires
        a@ >= b@,
    ensures
        r@ == a@ - b@,
{
    let r = BigUint::new(a.limbs.clone()) - BigUint::new(b.limbs.clone());
    Num { limbs: r.to_u32_digits() }
}

/// Relies on `num_integer::Integer::mod_floor` for `BigUint`: the remainder by
/// a non-zero divisor (it panics on zero).
#[verifier::external_body]
fn num_mod_floor(a: &Num, m: &Num) -> (r: Num)
    requires
        m@ > 0,
    ensures
        r@ == a@ % m@,
{
    let r = BigUint::new(a.limbs.clone()).mod_floor(&BigUint::new(m.limbs.clone()));
    Num { limbs: r.to_u32_digits() }
}

/// Relies on `BigUint`'s `PartialOrd`: whether `a <= b`.
#[verifier::external_body]
fn num_le(a: &Num, b: &Num) -> (r: bool)
    ensures
        r == (a@ <= b@),
{
    BigUint::new(a.limbs.clone()) <= BigUint::new(b.limbs.clone())
}

/// Relies on `num_bigint::RandBigInt::gen_biguint_below` over `thread_rng()`: a
/// value in `[0, bound)`; it panics on a zero bound.
#[verifier::external_body]
pub(crate) fn num_random_below(bound: &Num) -> (r: Num)
    requires
        bound@ > 0,
    ensures
        r@ < bound@,
{
    let r = rand::thread_rng().gen_biguint_below(&BigUint::new(bound.limbs.clone()));
    Num { limbs: r.to_u32_digits() }
}

/// Relies on `BigInt::from_str` (radix 10), `BigInt::sign` and
/// `BigInt::magnitude`: whether the integer that the string spells is
/// negative, and its absolute value.
#[verifier::external_body]
pub(crate) fn num_parse_decimal(s: &str) -> (r: Option<(bool, Num)>)
    ensures
        match decimal_value(s@) {
            Some(v) => r is Some && (r->0).0 == (v < 0) && (r->0).1@ == (if v < 0 { -v } else { v }),
            None => r is None,
        },
{
    match BigInt::from_str(s) {
        Ok(b) => Some((b.sign() == Sign::Minus, Num { limbs: b.magnitude().to_u32_digits() })),
        Err(_) => None,
    }
}

impl Num {
    /// The number `v`.
    pub fn from_u64(v: u64) -> (r: Num)
        ensures
            r@ == v,
    {
        num_from_u64(v)
    }

    /// Builds a number from little-endian base-2^32 limbs.
    pub fn from_limbs(limbs: Vec<u32>) -> (r: Num)
        ensures
            r@ == limbs_value(limbs@),
    {
        Num { limbs }
    }

    /// The little-endian base-2^32 limbs.
    pub fn limbs(&self) -> (r: &Vec<u32>)
        ensures
            limbs_value(r@) == self@,
    {
        &self.limbs
    }

    /// A second number of the same value.
    pub fn copy(&self) -> (r: Num)
        ensures
            r@ == self@,
    {
        let mut limbs: Vec<u32> = Vec::new();
        let mut i: usize = 0;
        while i < self.limbs.len()
            invariant
                i <= self.limbs@.len(),
                limbs@ == self.limbs@.subrange(0, i as int),
            decreases self.limbs@.len() - i,
        {
            limbs.push(self.limbs[i]);
            i = i + 1;
            assert(limbs@ =~= self.limbs@.subrange(0, i as int));
        }
        assert(limbs@ =~= self.limbs@);
        Num { limbs }
    }

    /// `a + b`.
    pub fn add(&self, b: &Num) -> (r: Num)
        ensures
            r@ == self@ + b@,
    {
        num_add(self, b)
    }

    /// `a - b`, for `a >= b`.
    pub fn sub(&self, b: &Num) -> (r: Num)
        requires
            self@ >= b@,
        ensures
            r@ == self@ - b@,
    {
        num_sub(self, b)
    }

    /// `a * b`.
    pub fn mul(&self, b: &Num) -> (r: Num)
        ensures
            r@ == self@ * b@,
    {
        num_mul(self, b)
    }

    /// `a mod m`, for `m > 0`.
    pub fn rem(&self, m: &Num) -> (r: Num)
        requires
            m@ > 0,
        ensures
            r@ == self@ % m@,
    {
        num_mod_floor(self, m)
    }

    /// Whether `a <= b`.
    pub fn le(&self, b: &Num) -> (r: bool)
        ensures
            r == (self@ <= b@),
    {
        num_le(self, b)
    }

    /// Whether `a == b`, as numbers.
    pub fn eq(&self, b: &Num) -> (r: bool)
        ensures
            r == (self@ == b@),
    {
        num_le(self, b) && num_le(b, self)
    }

    /// `base^exp mod modulus`, for `modulus > 0`.
    pub fn modpow(&self, exp: &Num, modulus: &Num) -> (r: Num)
        requires
            modulus@ > 0,
        ensures
            r@ == mod_pow(self@ as int, exp@, modulus@ as int),
            r@ < modulus@,
    {
        num_modpow(self, exp, modulus)
    }
}

} // verus!
