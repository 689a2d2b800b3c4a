//! Library-wide laws, each proved from the public contracts alone.

use vstd::prelude::*;
use vstd::arithmetic::power::{pow, lemma_pow0, lemma_pow1, lemma_pow_positive};
use vstd::arithmetic::div_mod::{lemma_basic_div, lemma_mod_bound, lemma_small_mod};
use crate::arith::lemma_split_exponent;
use crate::bigint::{bytes_of_int, int_of_bytes, lemma_int_of_bytes_nonneg};
use crate::hashing::{
    candidate, hash_prime_found_at, hash_prime_post, passes, sha256_of, lemma_hash_prime_unique,
};
use crate::rsa_vdf::{
    accepted, challenge_of, challenge_ok, check_holds, eval_post, instance_seed, instance_wf,
    pow2, spec_verify, trapdoor_wf, y_full, y_trapdoor, SolvedView, UnsolvedView,
};
use crate::utilities::{g_of, ErrorReason};

verus! {

/// The challenge derived for an instance and output is at least 2, and it
/// is the first passing candidate of the search.
proof fn lemma_challenge_facts(u: UnsolvedView, y: int)
    requires
        challenge_ok(u, y),
    ensures
        hash_prime_post(instance_seed(u, y), challenge_of(u, y)),
        challenge_of(u, y) >= 2,
{
    let seed = instance_seed(u, y);
    let l = choose|l: int| hash_prime_post(seed, l);
    assert(hash_prime_post(seed, l));
    let j = choose|j: u64| hash_prime_found_at(seed, j, l);
    assert(passes(candidate(seed, j)));
}

/// The group element hashed from a well-formed instance lies in `[0, n)`.
proof fn lemma_g_range(n: int, x: int)
    requires
        n >= 1,
    ensures
        0 <= g_of(n, x) < n,
{
    lemma_int_of_bytes_nonneg(sha256_of(bytes_of_int(x)));
    lemma_mod_bound(int_of_bytes(sha256_of(bytes_of_int(x))), n);
}

/// Round trip: whatever the evaluator produces for a well-formed instance,
/// the verifier accepts against that same instance.
pub proof fn lemma_eval_then_verify(u: UnsolvedView, s: SolvedView)
    requires
        instance_wf(u),
        eval_post(u, s),
    ensures
        spec_verify(s, u) == Ok::<(), ErrorReason>(()),
{
    let n = u.setup.n;
    let g = g_of(n, u.x);
    let e = pow2(u.setup.t);
    lemma_pow_positive(2, u.setup.t as nat);
    lemma_g_range(n, u.x);
    lemma_mod_bound(pow(g, e as nat), n);
    lemma_challenge_facts(u, s.y);
    let l = challenge_of(u, s.y);
    lemma_mod_bound(pow(g, (e / l) as nat), n);
    lemma_split_exponent(g, e as nat, l, n);
    assert(check_holds(s, u, l));
    assert(accepted(s, u));
}

/// Boundary: a zero delay yields the group element itself as output and
/// the identity as proof, and verification accepts trivially.
pub proof fn lemma_zero_delay(u: UnsolvedView, s: SolvedView)
    requires
        instance_wf(u),
        u.setup.t == 0,
        eval_post(u, s),
    ensures
        s.y == g_of(u.setup.n, u.x),
        s.pi == 1,
        spec_verify(s, u) == Ok::<(), ErrorReason>(()),
{
    let n = u.setup.n;
    let g = g_of(n, u.x);
    lemma_pow0(2);
    lemma_pow1(g);
    lemma_g_range(n, u.x);
    lemma_small_mod(g as nat, n as nat);
    lemma_challenge_facts(u, s.y);
    let l = challenge_of(u, s.y);
    lemma_basic_div(1, l);
    lemma_pow0(g);
    lemma_small_mod(1nat, n as nat);
    lemma_eval_then_verify(u, s);
}

/// Cross-instance rejection: a solved instance carrying instance `a` is
/// rejected with the mismatch error against any different instance `b`,
/// whatever its output and proof claim.
pub proof fn lemma_cross_instance_rejected(s: SolvedView, a: UnsolvedView, b: UnsolvedView)
    requires
        s.instance == a,
        a != b,
    ensures
        spec_verify(s, b) == Err::<(), ErrorReason>(ErrorReason::MisMatchedVDF),
{
}

/// Trapdoor equivalence, for delays whose exponent has not yet wrapped
/// around Euler's totient: reducing the exponent changes nothing, so both
/// evaluation paths owe the identical output.  (For larger delays the
/// equivalence rests on Euler's theorem, which is beyond what is proved
/// here; the test suite exercises that case on concrete factorisations.)
pub proof fn lemma_trapdoor_equivalence_small_exponent(u: UnsolvedView)
    requires
        trapdoor_wf(u.setup),
        pow2(u.setup.t) < u.setup.pi_n,
    ensures
        y_trapdoor(u) == y_full(u),
{
    lemma_pow_positive(2, u.setup.t as nat);
    lemma_small_mod(pow2(u.setup.t) as nat, u.setup.pi_n as nat);
}

/// Determinism: the prime challenge of an instance and output is unique;
/// prover and verifier repeating the search agree.
pub proof fn lemma_challenge_deterministic(u: UnsolvedView, y: int, l1: int, l2: int)
    requires
        hash_prime_post(instance_seed(u, y), l1),
        hash_prime_post(instance_seed(u, y), l2),
    ensures
        l1 == l2,
{
    lemma_hash_prime_unique(instance_seed(u, y), l1, l2);
}

} // verus!
