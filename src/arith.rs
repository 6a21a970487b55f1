//! Modular exponentiation, the primitive that every commitment goes through.
use vstd::prelude::*;
use vstd::arithmetic::power::pow as int_pow;
use vstd::arithmetic::div_mod::lemma_mul_mod_noop;
use crate::num::{mod_pow, Num};

verus! {

/// `base^exp mod modulus`.
pub fn pow(base: &Num, exp: &Num, modulus: &Num) -> (r: Num)
    requires
        modulus@ > 0,
    ensures
        r@ == mod_pow(base@ as int, exp@, modulus@ as int),
        r@ < modulus@,
{
    base.modpow(exp, modulus)
}

/// `(g^s * y^c) mod p`: the commitment that a verifier recomputes from a
/// response `s` and a challenge `c`.
pub fn pow_mod(g: &Num, s: &Num, y: &Num, c: &Num, p: &Num) -> (r: Num)
    requires
        p@ > 0,
    ensures
        r@ == (int_pow(g@ as int, s@) * int_pow(y@ as int, c@)) % (p@ as int),
        r@ < p@,
{
    let base1 = g.modpow(s, p);
    let base2 = y.modpow(c, p);
    let r = base1.mul(&base2).rem(p);
    proof {
        lemma_mul_mod_noop(int_pow(g@ as int, s@), int_pow(y@ as int, c@), p@ as int);
    }
    r
}

} // verus!
