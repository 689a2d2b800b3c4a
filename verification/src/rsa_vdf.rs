//! The RSA-group VDF: setup, evaluation (with and without the trapdoor
//! shortcut), Wesolowski proof generation by long division, and
//! verification.
//!
//! Every contract is phrased over the mathematical views of the structures:
//! a setup is five integers, an instance adds the challenge seed, a solved
//! instance adds the claimed output `y` and the proof `pi`.

use vstd::prelude::*;
use vstd::arithmetic::power::{pow, lemma_pow0, lemma_pow1, lemma_pow_adds, lemma_pow_positive};
use vstd::arithmetic::div_mod::{
    lemma_basic_div, lemma_div_pos_is_pos, lemma_mod_bound, lemma_small_mod,
    lemma_mul_mod_noop_general,
};
use crate::arith::{pow_mod, lemma_mul_pow_mod, lemma_double_div_mod};
use crate::bigint::{
    bival, next_prime_of, bi_add, bi_clone, bi_div_floor, bi_eq, bi_from_u64, bi_lt, bi_mod_floor,
    bi_mod_mul, bi_mod_pow, bi_mul, bi_sample, bi_sub,
};
use crate::hashing::{
    hash_prime_post, hash_search_ok, found_prime, lemma_hash_prime_unique,
};
use crate::utilities::{g_of, prime_seed, h_g, hash_to_prime, compute_rsa_modulus, ErrorReason};
use curv::BigInt;

verus! {

/// Bit length of a freshly sampled RSA modulus.
pub const BIT_LENGTH: usize = 2048;

/// Bit length of a freshly sampled challenge seed.
pub const SEED_LENGTH: usize = 256;

/// Marker for the ElGamal flavour of the timed-release deployment.
pub struct ElGamal;

/// Marker for the exponent-ElGamal flavour of the timed-release deployment.
pub struct ExponentElGamal;

/// Delay parameter and group description.  `p`, `q` and `pi_n` (Euler's
/// totient of `n`) are zero unless this party ran the trapdoor setup.
pub struct SetupForVDF {
    pub t: BigInt,
    pub n: BigInt,
    pub pi_n: BigInt,
    pub p: BigInt,
    pub q: BigInt,
}

/// The public problem statement: a challenge seed and a setup.
pub struct UnsolvedVDF {
    pub x: BigInt,
    pub setup: SetupForVDF,
}

/// An instance together with a claimed output and its Wesolowski proof.
pub struct SolvedVDF {
    vdf_instance: UnsolvedVDF,
    pub y: BigInt,
    pub pi: BigInt,
}

pub struct SetupView {
    pub t: int,
    pub n: int,
    pub pi_n: int,
    pub p: int,
    pub q: int,
}

pub struct UnsolvedView {
    pub x: int,
    pub setup: SetupView,
}

pub struct SolvedView {
    pub instance: UnsolvedView,
    pub y: int,
    pub pi: int,
}

impl View for SetupForVDF {
    type V = SetupView;

    open spec fn view(&self) -> SetupView {
        SetupView {
            t: bival(self.t),
            n: bival(self.n),
            pi_n: bival(self.pi_n),
            p: bival(self.p),
            q: bival(self.q),
        }
    }
}

impl View for UnsolvedVDF {
    type V = UnsolvedView;

    open spec fn view(&self) -> UnsolvedView {
        UnsolvedView { x: bival(self.x), setup: self.setup@ }
    }
}

impl View for SolvedVDF {
    type V = SolvedView;

    closed spec fn view(&self) -> SolvedView {
        SolvedView { instance: self.vdf_instance@, y: bival(self.y), pi: bival(self.pi) }
    }
}

/// A usable public setup: a non-negative delay and a modulus of at least 2.
pub open spec fn setup_wf(s: SetupView) -> bool {
    s.t >= 0 && s.n >= 2
}

/// A usable instance: a well-formed setup and a non-negative seed.
pub open spec fn instance_wf(u: UnsolvedView) -> bool {
    setup_wf(u.setup) && u.x >= 0
}

/// A setup whose holder knows the factorisation: `n = p * q` with odd-prime
/// sized factors and `pi_n` Euler's totient of `n`.
pub open spec fn trapdoor_wf(s: SetupView) -> bool {
    setup_wf(s) && s.p >= 3 && s.q >= 3 && s.n == s.p * s.q && s.pi_n == (s.p - 1) * (s.q - 1)
        && s.pi_n >= 2
}

/// `2^e` as a mathematical integer.
pub open spec fn pow2(e: int) -> int {
    pow(2, e as nat)
}

/// The output the full evaluation owes: `g^(2^t) mod n` for `g` hashed from
/// the seed.
pub open spec fn y_full(u: UnsolvedView) -> int {
    pow_mod(g_of(u.setup.n, u.x), pow2(u.setup.t) as nat, u.setup.n)
}

/// The output the trapdoor evaluation owes: the exponent is first reduced
/// modulo Euler's totient.
pub open spec fn y_trapdoor(u: UnsolvedView) -> int {
    pow_mod(g_of(u.setup.n, u.x), (pow2(u.setup.t) % u.setup.pi_n) as nat, u.setup.n)
}

/// The byte seed of the prime challenge for instance `u` and output `y`.
pub open spec fn instance_seed(u: UnsolvedView, y: int) -> Seq<u8> {
    prime_seed(u.setup.t, u.setup.n, g_of(u.setup.n, u.x), y)
}

/// The prime search over instance `u` with output `y` succeeds.
pub open spec fn challenge_ok(u: UnsolvedView, y: int) -> bool {
    hash_search_ok(instance_seed(u, y))
}

/// The prime challenge of instance `u` with output `y`.
pub open spec fn challenge_of(u: UnsolvedView, y: int) -> int {
    found_prime(instance_seed(u, y))
}

/// What a solved instance produced by an evaluator holds, given the output
/// `y` its evaluation path owes: the instance itself, that output, and the
/// Wesolowski proof `g^(2^t / l) mod n` for the prime challenge `l`.
pub open spec fn solved_post(u: UnsolvedView, s: SolvedView, y: int) -> bool {
    &&& s.instance == u
    &&& s.y == y
    &&& challenge_ok(u, y)
    &&& s.pi == pow_mod(g_of(u.setup.n, u.x), (pow2(u.setup.t) / challenge_of(u, y)) as nat, u.setup.n)
}

/// What `eval` promises.
pub open spec fn eval_post(u: UnsolvedView, s: SolvedView) -> bool {
    solved_post(u, s, y_full(u))
}

/// What `eval_with_trapdoor` promises.
pub open spec fn eval_trapdoor_post(u: UnsolvedView, s: SolvedView) -> bool {
    solved_post(u, s, y_trapdoor(u))
}

/// The algebraic acceptance check for a given prime challenge `l`:
/// `pi^l * g^(2^t mod l) == y` in the group.
pub open spec fn check_holds(s: SolvedView, u: UnsolvedView, l: int) -> bool {
    (pow_mod(s.pi, l as nat, u.setup.n) * pow_mod(
        g_of(u.setup.n, u.x),
        (pow2(u.setup.t) % l) as nat,
        u.setup.n,
    )) % u.setup.n == s.y
}

/// The verifier accepts: some (hence the unique) prime challenge derived
/// from `(setup, g, y)` satisfies the algebraic check.
pub open spec fn accepted(s: SolvedView, u: UnsolvedView) -> bool {
    exists|l: int| hash_prime_post(instance_seed(u, s.y), l) && check_holds(s, u, l)
}

/// The verdict `verify` owes: instance equality first, then the range
/// check on `y` and `pi`, then the algebraic check.
pub open spec fn spec_verify(s: SolvedView, u: UnsolvedView) -> Result<(), ErrorReason> {
    if s.instance != u {
        Err(ErrorReason::MisMatchedVDF)
    } else if !(0 <= s.y < u.setup.n && 0 <= s.pi < u.setup.n) {
        Err(ErrorReason::OutOfRange)
    } else if accepted(s, u) {
        Ok(())
    } else {
        Err(ErrorReason::VDFVerifyError)
    }
}

/// Copies a setup field for field.
pub fn clone_setup(s: &SetupForVDF) -> (r: SetupForVDF)
    ensures
        r@ == s@,
{
    SetupForVDF {
        t: bi_clone(&s.t),
        n: bi_clone(&s.n),
        pi_n: bi_clone(&s.pi_n),
        p: bi_clone(&s.p),
        q: bi_clone(&s.q),
    }
}

/// Copies an instance field for field.
pub fn clone_unsolved(u: &UnsolvedVDF) -> (r: UnsolvedVDF)
    ensures
        r@ == u@,
{
    UnsolvedVDF { x: bi_clone(&u.x), setup: clone_setup(&u.setup) }
}

/// Structural equality of two instances, decided on the held integers.
pub fn eq_unsolved(a: &UnsolvedVDF, b: &UnsolvedVDF) -> (r: bool)
    ensures
        r == (a@ == b@),
{
    let r = bi_eq(&a.x, &b.x) && bi_eq(&a.setup.t, &b.setup.t) && bi_eq(&a.setup.n, &b.setup.n)
        && bi_eq(&a.setup.pi_n, &b.setup.pi_n) && bi_eq(&a.setup.p, &b.setup.p) && bi_eq(
        &a.setup.q,
        &b.setup.q,
    );
    r
}

impl SetupForVDF {
    /// Samples a fresh RSA modulus with its factorisation and totient: the
    /// trapdoor-capable setup for delay `t`.  Each factor is the next prime
    /// above a random draw of half the modulus bit length.
    pub fn public_setup(t: &BigInt) -> (r: Self)
        requires
            bival(*t) >= 0,
        ensures
            r@.t == bival(*t),
            trapdoor_wf(r@),
            exists|s: int|
                0 <= s < pow(2, (BIT_LENGTH / 2) as nat) && r@.p == #[trigger] next_prime_of(s + 2),
            exists|s: int|
                0 <= s < pow(2, (BIT_LENGTH / 2) as nat) && r@.q == #[trigger] next_prime_of(s + 2),
    {
        let (p, q, n) = compute_rsa_modulus(BIT_LENGTH);
        let one = bi_from_u64(1);
        let pm1 = bi_sub(&p, &one);
        let qm1 = bi_sub(&q, &one);
        let pi_n = bi_mul(&pm1, &qm1);
        proof {
            assert(bival(pi_n) >= 4 && bival(n) >= 2) by (nonlinear_arith)
                requires
                    bival(pi_n) == (bival(p) - 1) * (bival(q) - 1),
                    bival(n) == bival(p) * bival(q),
                    bival(p) >= 3,
                    bival(q) >= 3,
            ;
        }
        SetupForVDF { t: bi_clone(t), n, pi_n, p, q }
    }

    /// Samples a seed and a fresh modulus, handing back `(x, p, q, n)`.
    /// The seed is a fresh draw of `SEED_LENGTH` bits; each factor is the
    /// next prime above a draw of half the modulus bit length.
    pub fn get_rsa_modulus() -> (r: (BigInt, BigInt, BigInt, BigInt))
        ensures
            0 <= bival(r.0) < pow2(SEED_LENGTH as int),
            bival(r.1) >= 3,
            bival(r.2) >= 3,
            bival(r.3) == bival(r.1) * bival(r.2),
            bival(r.3) >= 2,
            exists|s: int|
                0 <= s < pow(2, (BIT_LENGTH / 2) as nat) && bival(r.1) == #[trigger] next_prime_of(
                    s + 2,
                ),
            exists|s: int|
                0 <= s < pow(2, (BIT_LENGTH / 2) as nat) && bival(r.2) == #[trigger] next_prime_of(
                    s + 2,
                ),
    {
        let x = bi_sample(SEED_LENGTH);
        let (p, q, n) = compute_rsa_modulus(BIT_LENGTH);
        (x, p, q, n)
    }

    /// Builds the trapdoor-capable instance for known factors `p` and `q`.
    pub fn public_setup2(x: &BigInt, t: &BigInt, p: &BigInt, q: &BigInt) -> (r: UnsolvedVDF)
        requires
            bival(*x) >= 0,
            bival(*t) >= 0,
            bival(*p) >= 3,
            bival(*q) >= 3,
        ensures
            r@.x == bival(*x),
            r@.setup.t == bival(*t),
            r@.setup.p == bival(*p),
            r@.setup.q == bival(*q),
            r@.setup.n == bival(*p) * bival(*q),
            r@.setup.pi_n == (bival(*p) - 1) * (bival(*q) - 1),
            trapdoor_wf(r@.setup),
            instance_wf(r@),
    {
        let n = bi_mul(p, q);
        let one = bi_from_u64(1);
        let pm1 = bi_sub(p, &one);
        let qm1 = bi_sub(q, &one);
        let pi_n = bi_mul(&pm1, &qm1);
        proof {
            assert(bival(pi_n) >= 4 && bival(n) >= 2) by (nonlinear_arith)
                requires
                    bival(pi_n) == (bival(*p) - 1) * (bival(*q) - 1),
                    bival(n) == bival(*p) * bival(*q),
                    bival(*p) >= 3,
                    bival(*q) >= 3,
            ;
        }
        UnsolvedVDF {
            x: bi_clone(x),
            setup: SetupForVDF { t: bi_clone(t), n, pi_n, p: bi_clone(p), q: bi_clone(q) },
        }
    }

    /// Builds the public instance for a modulus whose factors are unknown;
    /// the trapdoor fields are zero.
    pub fn public_setup3(x: &BigInt, t: &BigInt, n: &BigInt) -> (r: UnsolvedVDF)
        requires
            bival(*x) >= 0,
            bival(*t) >= 0,
            bival(*n) >= 2,
        ensures
            r@.x == bival(*x),
            r@.setup.t == bival(*t),
            r@.setup.n == bival(*n),
            r@.setup.p == 0,
            r@.setup.q == 0,
            r@.setup.pi_n == 0,
            instance_wf(r@),
    {
        let zero1 = bi_from_u64(0);
        let zero2 = bi_from_u64(0);
        let zero3 = bi_from_u64(0);
        UnsolvedVDF {
            x: bi_clone(x),
            setup: SetupForVDF { t: bi_clone(t), n: bi_clone(n), pi_n: zero1, p: zero2, q: zero3 },
        }
    }

    /// Draws a fresh challenge seed against an existing setup.
    pub fn pick_challenge(setup: &SetupForVDF) -> (r: UnsolvedVDF)
        ensures
            r@.setup == setup@,
            0 <= r@.x < pow2(SEED_LENGTH as int),
    {
        let x = bi_sample(SEED_LENGTH);
        UnsolvedVDF { x, setup: clone_setup(setup) }
    }
}

/// The Wesolowski prover: computes `g^(2^t / l) mod n` in `t` group
/// multiplications by long division, consuming the exponent `2^t` one
/// doubling at a time.  The quotient bit of each doubling feeds the
/// accumulator, the remainder carries to the next iteration.
fn generate_proof(g: &BigInt, t: &BigInt, l: &BigInt, n: &BigInt) -> (r: BigInt)
    requires
        0 <= bival(*g) < bival(*n),
        bival(*t) >= 0,
        bival(*l) >= 2,
        bival(*n) >= 2,
    ensures
        bival(r) == pow_mod(bival(*g), (pow2(bival(*t)) / bival(*l)) as nat, bival(*n)),
{
    let two = bi_from_u64(2);
    let one = bi_from_u64(1);
    let mut i = bi_from_u64(0);
    let mut rr = bi_from_u64(1);
    let mut pi = bi_from_u64(1);
    proof {
        lemma_pow0(2);
        lemma_pow0(bival(*g));
        lemma_small_mod(1nat, bival(*l) as nat);
        lemma_small_mod(1nat, bival(*n) as nat);
        lemma_basic_div(1, bival(*l));
    }
    while bi_lt(&i, t)
        invariant
            0 <= bival(*g) < bival(*n),
            bival(*t) >= 0,
            bival(*l) >= 2,
            bival(*n) >= 2,
            bival(two) == 2,
            bival(one) == 1,
            0 <= bival(i) <= bival(*t),
            0 <= bival(rr) < bival(*l),
            bival(rr) == pow2(bival(i)) % bival(*l),
            bival(pi) == pow_mod(bival(*g), (pow2(bival(i)) / bival(*l)) as nat, bival(*n)),
        decreases bival(*t) - bival(i),
    {
        let r2 = bi_mul(&rr, &two);
        let b = bi_div_floor(&r2, l);
        let rnew = bi_mod_floor(&r2, l);
        proof {
            lemma_div_pos_is_pos(bival(r2), bival(*l));
        }
        let g_b = bi_mod_pow(g, &b, n);
        let pi1 = bi_mod_mul(&pi, &pi, n);
        let pi2 = bi_mod_mul(&pi1, &g_b, n);
        proof {
            let e = pow2(bival(i));
            let lv = bival(*l);
            let nv = bival(*n);
            let gv = bival(*g);
            let q = e / lv;
            lemma_pow_positive(2, bival(i) as nat);
            lemma_double_div_mod(e, lv);
            lemma_div_pos_is_pos(e, lv);
            lemma_mod_bound(bival(r2), lv);
            lemma_mul_pow_mod(gv, q as nat, q as nat, nv);
            lemma_mul_pow_mod(gv, (q + q) as nat, bival(b) as nat, nv);
            lemma_pow_adds(2, bival(i) as nat, 1);
            lemma_pow1(2);
        }
        pi = pi2;
        rr = rnew;
        i = bi_add(&i, &one);
    }
    pi
}

impl UnsolvedVDF {
    /// The full sequential evaluation: `t` squarings of `g = H_G(n, x)`
    /// modulo `n`, yielding `g^(2^t) mod n`.
    pub fn cal_y(unsolved_vdf: &UnsolvedVDF) -> (r: BigInt)
        requires
            instance_wf(unsolved_vdf@),
        ensures
            bival(r) == y_full(unsolved_vdf@),
            0 <= bival(r) < unsolved_vdf@.setup.n,
    {
        let u = unsolved_vdf;
        let g = h_g(&u.setup.n, &u.x);
        let mut y = bi_clone(&g);
        let one = bi_from_u64(1);
        let mut i = bi_from_u64(0);
        proof {
            lemma_pow0(2);
            lemma_pow1(bival(g));
            lemma_small_mod(bival(g) as nat, bival(u.setup.n) as nat);
        }
        while bi_lt(&i, &u.setup.t)
            invariant
                instance_wf(u@),
                bival(one) == 1,
                0 <= bival(i) <= u@.setup.t,
                bival(g) == g_of(u@.setup.n, u@.x),
                0 <= bival(g) < u@.setup.n,
                bival(y) == pow_mod(bival(g), pow2(bival(i)) as nat, u@.setup.n),
            decreases u@.setup.t - bival(i),
        {
            proof {
                let e = pow2(bival(i));
                lemma_pow_positive(2, bival(i) as nat);
                lemma_mul_pow_mod(bival(g), e as nat, e as nat, u@.setup.n);
                lemma_pow_adds(2, bival(i) as nat, 1);
                lemma_pow1(2);
            }
            y = bi_mod_mul(&y, &y, &u.setup.n);
            i = bi_add(&i, &one);
        }
        proof {
            lemma_mod_bound(pow(bival(g), pow2(u@.setup.t) as nat), u@.setup.n);
        }
        y
    }

    /// The trapdoor shortcut: the exponent `2^t` is first reduced modulo
    /// Euler's totient by `t` modular doublings, then applied in one
    /// modular exponentiation.
    pub fn cal_y_with_trapdoor(unsolved_vdf: &UnsolvedVDF) -> (r: BigInt)
        requires
            trapdoor_wf(unsolved_vdf@.setup),
            unsolved_vdf@.x >= 0,
        ensures
            bival(r) == y_trapdoor(unsolved_vdf@),
            0 <= bival(r) < unsolved_vdf@.setup.n,
    {
        let u = unsolved_vdf;
        let two = bi_from_u64(2);
        let one = bi_from_u64(1);
        let mut lc = bi_from_u64(1);
        let mut i = bi_from_u64(0);
        proof {
            lemma_pow0(2);
            lemma_small_mod(1nat, bival(u.setup.pi_n) as nat);
        }
        while bi_lt(&i, &u.setup.t)
            invariant
                trapdoor_wf(u@.setup),
                u@.x >= 0,
                bival(two) == 2,
                bival(one) == 1,
                0 <= bival(i) <= u@.setup.t,
                bival(lc) == pow2(bival(i)) % u@.setup.pi_n,
            decreases u@.setup.t - bival(i),
        {
            proof {
                let e = pow2(bival(i));
                lemma_mul_mod_noop_general(e, 2, u@.setup.pi_n);
                lemma_pow_adds(2, bival(i) as nat, 1);
                lemma_pow1(2);
            }
            lc = bi_mod_mul(&lc, &two, &u.setup.pi_n);
            i = bi_add(&i, &one);
        }
        let g = h_g(&u.setup.n, &u.x);
        proof {
            lemma_mod_bound(pow2(u@.setup.t), u@.setup.pi_n);
        }
        let y = bi_mod_pow(&g, &lc, &u.setup.n);
        proof {
            lemma_mod_bound(pow(bival(g), bival(lc) as nat), u@.setup.n);
        }
        y
    }

    /// Evaluates the instance and generates the Wesolowski proof.  The
    /// precondition asks that the prime search over this instance succeeds;
    /// [`UnsolvedVDF::try_eval`] discharges it by running the search first.
    pub fn eval(unsolved_vdf: &UnsolvedVDF) -> (r: SolvedVDF)
        requires
            instance_wf(unsolved_vdf@),
            challenge_ok(unsolved_vdf@, y_full(unsolved_vdf@)),
        ensures
            eval_post(unsolved_vdf@, r@),
    {
        let u = unsolved_vdf;
        let g = h_g(&u.setup.n, &u.x);
        let y = UnsolvedVDF::cal_y(u);
        let l_opt = hash_to_prime(&u.setup, &g, &y);
        let l = match l_opt {
            Some(l) => l,
            None => {
                // The precondition says the search succeeds: unreachable.
                proof {
                    assert(false);
                }
                bi_from_u64(0)
            },
        };
        proof {
            let seed = instance_seed(u@, bival(y));
            assert(hash_prime_post(seed, found_prime(seed)));
            lemma_hash_prime_unique(seed, bival(l), found_prime(seed));
        }
        let pi = generate_proof(&g, &u.setup.t, &l, &u.setup.n);
        SolvedVDF { vdf_instance: clone_unsolved(u), y, pi }
    }

    /// Evaluates through the trapdoor and generates the proof for the
    /// shortcut output.
    pub fn eval_with_trapdoor(unsolved_vdf: &UnsolvedVDF) -> (r: SolvedVDF)
        requires
            trapdoor_wf(unsolved_vdf@.setup),
            unsolved_vdf@.x >= 0,
            challenge_ok(unsolved_vdf@, y_trapdoor(unsolved_vdf@)),
        ensures
            eval_trapdoor_post(unsolved_vdf@, r@),
    {
        let u = unsolved_vdf;
        let g = h_g(&u.setup.n, &u.x);
        let y = UnsolvedVDF::cal_y_with_trapdoor(u);
        let l_opt = hash_to_prime(&u.setup, &g, &y);
        let l = match l_opt {
            Some(l) => l,
            None => {
                // The precondition says the search succeeds: unreachable.
                proof {
                    assert(false);
                }
                bi_from_u64(0)
            },
        };
        proof {
            let seed = instance_seed(u@, bival(y));
            assert(hash_prime_post(seed, found_prime(seed)));
            lemma_hash_prime_unique(seed, bival(l), found_prime(seed));
        }
        let pi = generate_proof(&g, &u.setup.t, &l, &u.setup.n);
        SolvedVDF { vdf_instance: clone_unsolved(u), y, pi }
    }

    /// Runs the prime search first and evaluates only when it succeeds, so
    /// that no caller needs to establish the search precondition itself.
    pub fn try_eval(unsolved_vdf: &UnsolvedVDF) -> (r: Option<SolvedVDF>)
        requires
            instance_wf(unsolved_vdf@),
        ensures
            match r {
                Some(s) => eval_post(unsolved_vdf@, s@),
                None => !challenge_ok(unsolved_vdf@, y_full(unsolved_vdf@)),
            },
    {
        let u = unsolved_vdf;
        let g = h_g(&u.setup.n, &u.x);
        let y = UnsolvedVDF::cal_y(u);
        let l_opt = hash_to_prime(&u.setup, &g, &y);
        match l_opt {
            Some(_) => Some(UnsolvedVDF::eval(u)),
            None => None,
        }
    }

    /// Runs the prime search first and takes the trapdoor path only when it
    /// succeeds.
    pub fn try_eval_with_trapdoor(unsolved_vdf: &UnsolvedVDF) -> (r: Option<SolvedVDF>)
        requires
            trapdoor_wf(unsolved_vdf@.setup),
            unsolved_vdf@.x >= 0,
        ensures
            match r {
                Some(s) => eval_trapdoor_post(unsolved_vdf@, s@),
                None => !challenge_ok(unsolved_vdf@, y_trapdoor(unsolved_vdf@)),
            },
    {
        let u = unsolved_vdf;
        let g = h_g(&u.setup.n, &u.x);
        let y = UnsolvedVDF::cal_y_with_trapdoor(u);
        let l_opt = hash_to_prime(&u.setup, &g, &y);
        match l_opt {
            Some(_) => Some(UnsolvedVDF::eval_with_trapdoor(u)),
            None => None,
        }
    }
}

impl SolvedVDF {
    /// Checks a solved instance against the instance the challenger kept:
    /// instance equality, the range of `y` and `pi`, and the Wesolowski
    /// equation `pi^l * g^(2^t mod l) == y` for the recomputed prime `l`.
    pub fn verify(&self, unsolved_vdf: &UnsolvedVDF) -> (r: Result<(), ErrorReason>)
        requires
            instance_wf(unsolved_vdf@),
        ensures
            r == spec_verify(self@, unsolved_vdf@),
    {
        let u = unsolved_vdf;
        if !eq_unsolved(&self.vdf_instance, u) {
            return Err(ErrorReason::MisMatchedVDF);
        }
        let zero = bi_from_u64(0);
        if bi_lt(&self.y, &zero) || !bi_lt(&self.y, &u.setup.n) || bi_lt(&self.pi, &zero) || !bi_lt(
            &self.pi,
            &u.setup.n,
        ) {
            return Err(ErrorReason::OutOfRange);
        }
        let g = h_g(&u.setup.n, &u.x);
        let l_opt = hash_to_prime(&u.setup, &g, &self.y);
        let l = match l_opt {
            Some(l) => l,
            None => {
                proof {
                    if accepted(self@, u@) {
                        let lw = choose|lw: int|
                            hash_prime_post(instance_seed(u@, self@.y), lw) && check_holds(
                                self@,
                                u@,
                                lw,
                            );
                        assert(hash_prime_post(instance_seed(u@, self@.y), lw));
                        assert(false);
                    }
                }
                return Err(ErrorReason::VDFVerifyError);
            },
        };
        let two = bi_from_u64(2);
        let r_exp = bi_mod_pow(&two, &u.setup.t, &l);
        let pi_l = bi_mod_pow(&self.pi, &l, &u.setup.n);
        let g_r = bi_mod_pow(&g, &r_exp, &u.setup.n);
        let chk = bi_mod_mul(&pi_l, &g_r, &u.setup.n);
        proof {
            lemma_mod_bound(pow2(u@.setup.t), bival(l));
        }
        let ok = bi_eq(&chk, &self.y);
        if ok {
            proof {
                assert(check_holds(self@, u@, bival(l)));
            }
            Ok(())
        } else {
            proof {
                if accepted(self@, u@) {
                    let lw = choose|lw: int|
                        hash_prime_post(instance_seed(u@, self@.y), lw) && check_holds(
                            self@,
                            u@,
                            lw,
                        );
                    lemma_hash_prime_unique(instance_seed(u@, self@.y), lw, bival(l));
                    assert(false);
                }
            }
            Err(ErrorReason::VDFVerifyError)
        }
    }
}

} // verus!
