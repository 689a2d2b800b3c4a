//! Helpers of the RSA-group VDF: error kinds, modulus sampling, hashing a
//! seed into the group, and the instance-bound prime challenge.

use vstd::prelude::*;
use vstd::arithmetic::div_mod::lemma_mod_bound;
use vstd::arithmetic::power::pow;
use crate::bigint::{
    bival, bytes_of_int, int_of_bytes, next_prime_of, bi_add, bi_from_bytes, bi_from_u64,
    bi_mod_floor, bi_mul, bi_next_prime, bi_sample, bi_to_bytes,
};
use crate::hashing::{
    append_bytes, hash_prime_from_seed, hash_prime_post, hash_search_ok, sha256, sha256_of,
};
use crate::rsa_vdf::SetupForVDF;
use curv::BigInt;

verus! {

/// Why a verification call rejected a solved instance.
#[derive(Clone, Copy, Debug, PartialEq, Eq, Structural)]
pub enum ErrorReason {
    /// The proof's embedded instance differs from the instance under check.
    MisMatchedVDF,
    /// `y` or `pi` lies outside `[0, n)`: not a group element.
    OutOfRange,
    /// The algebraic check `pi^l * g^r == y` failed.
    VDFVerifyError,
}

/// The group element a seed hashes to: the digest of the seed's canonical
/// bytes, reduced into `[0, n)`.
pub open spec fn g_of(n: int, x: int) -> int {
    int_of_bytes(sha256_of(bytes_of_int(x))) % n
}

/// Hashes the challenge seed `x` into the group modulo `n`.
pub fn h_g(n: &BigInt, x: &BigInt) -> (r: BigInt)
    requires
        bival(*n) >= 1,
        bival(*x) >= 0,
    ensures
        bival(r) == g_of(bival(*n), bival(*x)),
        0 <= bival(r) < bival(*n),
{
    let xb = bi_to_bytes(x);
    let hx = sha256(&xb);
    let h = bi_from_bytes(&hx);
    let g = bi_mod_floor(&h, n);
    proof {
        lemma_mod_bound(int_of_bytes(sha256_of(bytes_of_int(bival(*x)))), bival(*n));
    }
    g
}

/// The byte seed both prover and verifier feed the prime search: the
/// canonical serialisations of `t`, `n`, `g` and `y`, in that order.
pub open spec fn prime_seed(t: int, n: int, g: int, y: int) -> Seq<u8> {
    bytes_of_int(t) + bytes_of_int(n) + bytes_of_int(g) + bytes_of_int(y)
}

/// Derives the prime challenge binding `(setup, g, y)`, by the search whose
/// contract [`hash_prime_post`] states.  `None` only when no candidate of
/// the whole search passes.
pub fn hash_to_prime(setup: &SetupForVDF, g: &BigInt, y: &BigInt) -> (r: Option<BigInt>)
    requires
        bival(setup.t) >= 0,
        bival(setup.n) >= 0,
        bival(*g) >= 0,
        bival(*y) >= 0,
    ensures
        match r {
            Some(l) => 2 <= bival(l) < pow(2, 128) && hash_prime_post(
                prime_seed(bival(setup.t), bival(setup.n), bival(*g), bival(*y)),
                bival(l),
            ),
            None => !hash_search_ok(
                prime_seed(bival(setup.t), bival(setup.n), bival(*g), bival(*y)),
            ),
        },
{
    let tb = bi_to_bytes(&setup.t);
    let nb = bi_to_bytes(&setup.n);
    let gb = bi_to_bytes(g);
    let yb = bi_to_bytes(y);
    let mut seed: Vec<u8> = Vec::new();
    append_bytes(&mut seed, &tb);
    append_bytes(&mut seed, &nb);
    append_bytes(&mut seed, &gb);
    append_bytes(&mut seed, &yb);
    hash_prime_from_seed(&seed)
}

/// Samples two probable primes of half the requested bit length and returns
/// them with their product, the RSA modulus.  Each factor is the next prime
/// above a fresh random draw; nothing more can be pinned about a random
/// outcome.
pub fn compute_rsa_modulus(bit_length: usize) -> (r: (BigInt, BigInt, BigInt))
    ensures
        bival(r.0) >= 3,
        bival(r.1) >= 3,
        bival(r.2) == bival(r.0) * bival(r.1),
        bival(r.2) >= 9,
        exists|s: int|
            0 <= s < pow(2, (bit_length / 2) as nat) && bival(r.0) == #[trigger] next_prime_of(
                s + 2,
            ),
        exists|s: int|
            0 <= s < pow(2, (bit_length / 2) as nat) && bival(r.1) == #[trigger] next_prime_of(
                s + 2,
            ),
{
    let two = bi_from_u64(2);
    let s1 = bi_sample(bit_length / 2);
    let p = bi_next_prime(&bi_add(&s1, &two));
    let s2 = bi_sample(bit_length / 2);
    let q = bi_next_prime(&bi_add(&s2, &two));
    let n = bi_mul(&p, &q);
    proof {
        assert(bival(p) == next_prime_of(bival(s1) + 2));
        assert(bival(q) == next_prime_of(bival(s2) + 2));
        assert(bival(n) >= 9) by (nonlinear_arith)
            requires
                bival(n) == bival(p) * bival(q),
                bival(p) >= 3,
                bival(q) >= 3,
        ;
    }
    (p, q, n)
}

} // verus!
