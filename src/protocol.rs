//! The prover's computations and the algebra that makes an honest proof verify.
use vstd::prelude::*;
use vstd::arithmetic::power::{pow as int_pow, lemma_pow_adds, lemma_pow_multiplies, lemma_pow_mod_noop, lemma1_pow};
use vstd::arithmetic::div_mod::{lemma_mul_mod_noop, lemma_mul_mod_noop_left, lemma_sub_mod_noop, lemma_small_mod, lemma_fundamental_div_mod, lemma_mod_multiples_vanish, lemma_mod_sub_multiples_vanish};
use crate::arith::pow;
use crate::num::{mod_pow, num_random_below, Num};
use crate::params::GroupParameters;

verus! {

/// The honest response: `(k - c*x) mod q`, floored.
pub open spec fn response(k: int, c: int, x: int, q: int) -> int {
    (k - c * x) % q
}

/// Whether `(g^s * y^c) mod p` equals the commitment `r`.
pub open spec fn commitment_matches(g: int, s: nat, y: int, c: nat, p: int, r: int) -> bool {
    (int_pow(g, s) * int_pow(y, c)) % p == r
}

/// Whether response `s` to challenge `c` proves the public commitments
/// `(y1, y2)` against the ephemeral commitments `(r1, r2)`.
pub open spec fn accepts(
    params: GroupParameters,
    y1: int,
    y2: int,
    r1: int,
    r2: int,
    c: nat,
    s: nat,
) -> bool {
    &&& commitment_matches(params.g@ as int, s, y1, c, params.p@ as int, r1)
    &&& commitment_matches(params.h@ as int, s, y2, c, params.p@ as int, r2)
}

/// The public commitments of secret `x`: `(g^x mod p, h^x mod p)`.
pub fn derive_commitments(x: &Num, params: &GroupParameters) -> (r: (Num, Num))
    requires
        params.wf(),
    ensures
        r.0@ == mod_pow(params.g@ as int, x@, params.p@ as int),
        r.1@ == mod_pow(params.h@ as int, x@, params.p@ as int),
{
    (pow(&params.g, x, &params.p), pow(&params.h, x, &params.p))
}

/// A fresh ephemeral secret `k`, drawn uniformly from `[0, q)`, with its
/// commitments `(g^k mod p, h^k mod p)`.
pub fn derive_ephemeral(params: &GroupParameters) -> (r: (Num, Num, Num))
    requires
        params.wf(),
    ensures
        r.0@ < params.q@,
        r.1@ == mod_pow(params.g@ as int, r.0@, params.p@ as int),
        r.2@ == mod_pow(params.h@ as int, r.0@, params.p@ as int),
{
    let k = num_random_below(&params.q);
    let (r1, r2) = derive_commitments(&k, params);
    (k, r1, r2)
}

/// The response `(k - c*x) mod q`, in `[0, q)` however negative `k - c*x` is.
pub fn compute_response(k: &Num, c: &Num, x: &Num, q: &Num) -> (s: Num)
    requires
        q@ > 0,
    ensures
        s@ == response(k@ as int, c@ as int, x@ as int, q@ as int),
        s@ < q@,
{
    let a = k.rem(q);
    let b = c.mul(x).rem(q);
    proof {
        lemma_sub_mod_noop(k@ as int, c@ as int * x@ as int, q@ as int);
    }
    if b.le(&a) {
        proof {
            lemma_small_mod((a@ - b@) as nat, q@);
        }
        a.sub(&b)
    } else {
        proof {
            lemma_mod_sub_multiples_vanish(a@ - b@ + q@, q@ as int);
            lemma_small_mod((a@ + q@ - b@) as nat, q@);
        }
        a.add(q).sub(&b)
    }
}

/// Where `g^q` is one modulo `p`, adding multiples of `q` to an exponent does
/// not change the power modulo `p`.
proof fn lemma_pow_period(g: int, q: nat, p: int, n: nat, m: nat)
    requires
        p > 1,
        int_pow(g, q) % p == 1,
    ensures
        int_pow(g, n + q * m) % p == int_pow(g, n) % p,
{
    assert(q * m >= 0) by (nonlinear_arith);
    let qm = (q * m) as nat;
    lemma_pow_adds(g, n, qm);
    lemma_pow_multiplies(g, q, m);
    lemma_pow_mod_noop(int_pow(g, q), m, p);
    lemma1_pow(m);
    lemma_small_mod(1, p as nat);
    assert(int_pow(g, qm) % p == 1);
    lemma_mul_mod_noop(int_pow(g, n), int_pow(g, qm), p);
    lemma_small_mod((int_pow(g, n) % p) as nat, p as nat);
}

/// One generator's half of completeness: with `y = g^x mod p` and the honest
/// response `s`, `(g^s * y^c) mod p == g^k mod p`.
proof fn lemma_honest_commitment(g: int, p: int, q: nat, x: nat, k: nat, c: nat)
    requires
        p > 1,
        q > 0,
        g >= 0,
        int_pow(g, q) % p == 1,
    ensures
        commitment_matches(
            g,
            response(k as int, c as int, x as int, q as int) as nat,
            mod_pow(g, x, p),
            c,
            p,
            mod_pow(g, k, p),
        ),
{
    let s = response(k as int, c as int, x as int, q as int);
    assert(0 <= s < q);
    lemma_commitment_exponent(g, p, x, c, s as nat);
    let xc = (x * c) as nat;
    // s + x*c and k differ by a multiple of q
    lemma_fundamental_div_mod(k as int - c as int * x as int, q as int);
    let t = (k as int - c as int * x as int) / (q as int);
    assert(k as int == s + xc + q * t) by (nonlinear_arith)
        requires
            k as int - c as int * x as int == q * t + s,
            xc == x * c,
    ;
    if t >= 0 {
        assert(q * t >= 0) by (nonlinear_arith)
            requires
                t >= 0,
        ;
        lemma_pow_period(g, q, p, (s + xc) as nat, t as nat);
    } else {
        assert(q * (-t) >= 0) by (nonlinear_arith)
            requires
                t < 0,
        ;
        assert(s + xc == k + q * (-t)) by (nonlinear_arith)
            requires
                k as int == s + xc + q * t,
        ;
        lemma_pow_period(g, q, p, k, (-t) as nat);
    }
}

/// Completeness: in a valid group, the honest response `(k - c*x) mod q` to any
/// challenge `c` is accepted against the commitments of `x` and `k`.
pub proof fn lemma_completeness(params: GroupParameters, x: nat, k: nat, c: nat)
    requires
        params.is_group(),
    ensures
        accepts(
            params,
            mod_pow(params.g@ as int, x as nat, params.p@ as int),
            mod_pow(params.h@ as int, x as nat, params.p@ as int),
            mod_pow(params.g@ as int, k as nat, params.p@ as int),
            mod_pow(params.h@ as int, k as nat, params.p@ as int),
            c as nat,
            response(k as int, c as int, x as int, params.q@ as int) as nat,
        ),
{
    lemma_honest_commitment(params.g@ as int, params.p@ as int, params.q@, x as nat, k as nat, c as nat);
    lemma_honest_commitment(params.h@ as int, params.p@ as int, params.q@, x as nat, k as nat, c as nat);
}

/// The order of `g` modulo `p` is exactly `q`: `g^q` is one and no smaller
/// positive power is.
pub open spec fn has_order(g: int, q: nat, p: int) -> bool {
    &&& mod_pow(g, q, p) == 1
    &&& forall|j: nat| 0 < j < q ==> #[trigger] mod_pow(g, j, p) != 1
}

/// Modulo `p`, a power of `g` depends on the exponent modulo `q` alone.
proof fn lemma_pow_reduce(g: int, q: nat, p: int, a: nat)
    requires
        p > 1,
        q > 0,
        int_pow(g, q) % p == 1,
    ensures
        int_pow(g, a) % p == int_pow(g, a % q) % p,
{
    lemma_fundamental_div_mod(a as int, q as int);
    lemma_pow_period(g, q, p, a % q, a / q);
}

/// Where `g` has order exactly `q`, exponents with distinct residues modulo `q`
/// give distinct powers modulo `p`.
proof fn lemma_distinct_residues(g: int, q: nat, p: int, a: nat, b: nat)
    requires
        p > 1,
        q > 0,
        has_order(g, q, p),
        a % q > b % q,
    ensures
        int_pow(g, a) % p != int_pow(g, b) % p,
{
    let a0 = a % q;
    let b0 = b % q;
    let d = (a0 - b0) as nat;
    let m = (q - b0) as nat;
    lemma_pow_reduce(g, q, p, a);
    lemma_pow_reduce(g, q, p, b);
    if int_pow(g, a) % p == int_pow(g, b) % p {
        lemma_pow_adds(g, a0, m);
        lemma_pow_adds(g, b0, m);
        lemma_mul_mod_noop_left(int_pow(g, a0), int_pow(g, m), p);
        lemma_mul_mod_noop_left(int_pow(g, b0), int_pow(g, m), p);
        assert(int_pow(g, a0 + m) % p == int_pow(g, b0 + m) % p);
        assert(b0 + m == q);
        assert(a0 + m == d + q * 1);
        lemma_pow_period(g, q, p, d, 1);
        assert(mod_pow(g, d, p) == 1);
        assert(false);
    }
}

/// `(g^s * (g^x mod p)^c) mod p` is `g^(s + x*c) mod p`.
proof fn lemma_commitment_exponent(g: int, p: int, x: nat, c: nat, s: nat)
    requires
        p > 1,
    ensures
        x * c >= 0,
        (int_pow(g, s) * int_pow(mod_pow(g, x, p), c)) % p == int_pow(g, s + x * c) % p,
{
    assert(x * c >= 0) by (nonlinear_arith);
    let xc = (x * c) as nat;
    lemma_pow_mod_noop(int_pow(g, x), c, p);
    lemma_pow_multiplies(g, x, c);
    lemma_mul_mod_noop(int_pow(g, s), int_pow(int_pow(g, x) % p, c), p);
    lemma_mul_mod_noop(int_pow(g, s), int_pow(g, xc), p);
    lemma_pow_adds(g, s, xc);
}

/// Soundness: where `g` has order exactly `q`, a response `s` that differs
/// modulo `q` from the honest `(k - c*x) mod q` is rejected. Only the `q`
/// responses congruent to the honest one pass, so a guess succeeds with
/// probability `1/q`.
pub proof fn lemma_soundness(params: GroupParameters, x: nat, k: nat, c: nat, s: nat)
    requires
        params.is_group(),
        has_order(params.g@ as int, params.q@, params.p@ as int),
        s % (params.q@) != response(k as int, c as int, x as int, params.q@ as int),
    ensures
        !accepts(
            params,
            mod_pow(params.g@ as int, x as nat, params.p@ as int),
            mod_pow(params.h@ as int, x as nat, params.p@ as int),
            mod_pow(params.g@ as int, k as nat, params.p@ as int),
            mod_pow(params.h@ as int, k as nat, params.p@ as int),
            c as nat,
            s,
        ),
{
    let g = params.g@ as int;
    let p = params.p@ as int;
    let q = params.q@;
    let h = response(k as int, c as int, x as int, q as int) as nat;
    lemma_honest_commitment(g, p, q, x as nat, k as nat, c as nat);
    lemma_commitment_exponent(g, p, x as nat, c as nat, h);
    lemma_commitment_exponent(g, p, x as nat, c as nat, s);
    let xc = (x as nat * c as nat) as nat;
    let e1 = s + xc;
    let e2 = h + xc;
    // the two exponents differ modulo q
    lemma_sub_mod_noop(e1 as int, e2 as int, q as int);
    if e1 % q == e2 % q {
        lemma_small_mod(0, q);
        assert(e1 as int - e2 as int == s - h);
        assert((s - h) % (q as int) == 0);
        lemma_fundamental_div_mod(s - h, q as int);
        let t = (s - h) / (q as int);
        assert(s == q * t + h) by (nonlinear_arith)
            requires
                s - h == q * t + (s - h) % (q as int),
                (s - h) % (q as int) == 0,
        ;
        lemma_mod_multiples_vanish(t, h as int, q as int);
        lemma_small_mod(h, q);
        assert(false);
    }
    if e1 % q > e2 % q {
        lemma_distinct_residues(g, q, p, e1, e2);
    } else {
        lemma_distinct_residues(g, q, p, e2, e1);
    }
}

} // verus!
