//! Modular-exponentiation facts shared by the evaluator, the proof generator
//! and the verifier.

use vstd::prelude::*;
use vstd::arithmetic::power::{
    pow, lemma_pow_adds, lemma_pow_multiplies, lemma_pow_mod_noop,
};
use vstd::arithmetic::div_mod::{
    lemma_fundamental_div_mod, lemma_fundamental_div_mod_converse, lemma_mod_bound,
    lemma_mul_mod_noop_general,
};
use vstd::arithmetic::mul::{lemma_mul_is_distributive_add, lemma_mul_is_commutative};

verus! {

/// `b^e mod m`, the quantity every VDF contract is phrased over.
pub open spec fn pow_mod(b: int, e: nat, m: int) -> int {
    pow(b, e) % m
}

/// Multiplying two reduced powers of `g` modulo `m` adds the exponents.
pub proof fn lemma_mul_pow_mod(g: int, a: nat, b: nat, m: int)
    requires
        m >= 1,
    ensures
        (pow_mod(g, a, m) * pow_mod(g, b, m)) % m == pow_mod(g, a + b, m),
{
    lemma_mul_mod_noop_general(pow(g, a), pow(g, b), m);
    lemma_pow_adds(g, a, b);
}

/// Raising a reduced power of `g` to a further power multiplies the exponents.
pub proof fn lemma_pow_of_pow_mod(g: int, q: nat, l: nat, m: int)
    requires
        m >= 1,
    ensures
        pow_mod(pow_mod(g, q, m), l, m) == pow_mod(g, q * l, m),
{
    lemma_pow_mod_noop(pow(g, q), l, m);
    lemma_pow_multiplies(g, q, l);
}

/// One step of the long-division loop: doubling a dividend doubles the
/// quotient and carries the doubled remainder's own quotient and remainder.
pub proof fn lemma_double_div_mod(e: int, l: int)
    requires
        e >= 0,
        l >= 1,
    ensures
        2 * e >= 0,
        (2 * e) / l == 2 * (e / l) + (2 * (e % l)) / l,
        (2 * e) % l == (2 * (e % l)) % l,
{
    let q = e / l;
    let r = e % l;
    lemma_fundamental_div_mod(e, l);
    lemma_mod_bound(e, l);
    let b = (2 * r) / l;
    let r2 = (2 * r) % l;
    lemma_fundamental_div_mod(2 * r, l);
    lemma_mod_bound(2 * r, l);
    assert(2 * e == (2 * q + b) * l + r2) by (nonlinear_arith)
        requires
            e == l * q + r,
            2 * r == l * b + r2,
    ;
    lemma_fundamental_div_mod_converse(2 * e, l, 2 * q + b, r2);
}

/// The identity the verifier checks: splitting the exponent `e` at a prime
/// `l` into quotient and remainder loses nothing.
pub proof fn lemma_split_exponent(g: int, e: nat, l: int, m: int)
    requires
        l >= 1,
        m >= 1,
    ensures
        (pow_mod(pow_mod(g, (e as int / l) as nat, m), (l as nat), m)
            * pow_mod(g, (e as int % l) as nat, m)) % m == pow_mod(g, e, m),
{
    let q = (e as int / l) as nat;
    let r = (e as int % l) as nat;
    lemma_mod_bound(e as int, l);
    lemma_pow_of_pow_mod(g, q, l as nat, m);
    lemma_mul_pow_mod(g, (q * l as nat) as nat, r, m);
    lemma_fundamental_div_mod(e as int, l);
    assert(l * (e as int / l) == (e as int / l) * l) by {
        lemma_mul_is_commutative(l, e as int / l);
    };
    assert(q * (l as nat) + r == e);
}

} // verus!
