//! The squaring-checkpoint cache: performs sequential squarings of a base
//! element and records the element at every requested iteration count,
//! advancing incrementally between consecutive counts instead of restarting
//! from the base.  The cache is an ordered array of (count, element) pairs
//! built by a single forward pass.

use vstd::prelude::*;
use vstd::arithmetic::power::{pow, lemma_pow0, lemma_pow1, lemma_pow_adds, lemma_pow_positive};
use vstd::arithmetic::div_mod::{lemma_mod_bound, lemma_small_mod};
use crate::arith::{pow_mod, lemma_mul_pow_mod};
use crate::bigint::{bival, bi_clone, bi_mod_mul};
use crate::rsa_vdf::pow2;
use curv::BigInt;

verus! {

/// The cache `r` holds an entry for iteration count `c`.
pub open spec fn has_count(r: Seq<(u64, BigInt)>, c: u64) -> bool {
    exists|idx: int| 0 <= idx < r.len() && (#[trigger] r[idx]).0 == c
}

/// The least element of `v` that is at least `lo`, by linear scan.
fn min_above(v: &Vec<u64>, lo: u64) -> (r: Option<u64>)
    ensures
        match r {
            Some(m) => v@.contains(m) && m >= lo && (forall|k: int|
                0 <= k < v@.len() && v@[k] >= lo ==> m <= v@[k]),
            None => forall|k: int| 0 <= k < v@.len() ==> v@[k] < lo,
        },
{
    let mut best: Option<u64> = None;
    let mut i: usize = 0;
    while i < v.len()
        invariant
            i <= v.len(),
            match best {
                Some(m) => v@.contains(m) && m >= lo && (forall|k: int|
                    0 <= k < i && v@[k] >= lo ==> m <= v@[k]),
                None => forall|k: int| 0 <= k < i ==> v@[k] < lo,
            },
        decreases v.len() - i,
    {
        let c = v[i];
        if c >= lo {
            match best {
                Some(m) => {
                    if c < m {
                        best = Some(c);
                    }
                },
                None => {
                    best = Some(c);
                },
            }
        }
        i = i + 1;
    }
    best
}

/// Squares `cur` modulo `n` `d` times.
fn advance_squarings(cur: BigInt, d: u64, base: Ghost<int>, done: Ghost<u64>, n: &BigInt) -> (r:
    BigInt)
    requires
        bival(*n) >= 2,
        done@ + d <= u64::MAX,
        bival(cur) == pow_mod(base@, pow2(done@ as int) as nat, bival(*n)),
    ensures
        bival(r) == pow_mod(base@, pow2(done@ + d) as nat, bival(*n)),
{
    let mut cur = cur;
    let mut k: u64 = 0;
    while k < d
        invariant
            bival(*n) >= 2,
            k <= d,
            done@ + d <= u64::MAX,
            bival(cur) == pow_mod(base@, pow2(done@ + k) as nat, bival(*n)),
        decreases d - k,
    {
        proof {
            let e = pow2(done@ + k);
            lemma_pow_positive(2, (done@ + k) as nat);
            lemma_mul_pow_mod(base@, e as nat, e as nat, bival(*n));
            lemma_pow_adds(2, (done@ + k) as nat, 1);
            lemma_pow1(2);
        }
        cur = bi_mod_mul(&cur, &cur, n);
        k = k + 1;
    }
    cur
}

/// Computes `x^(2^c) mod n` for every requested iteration count `c`,
/// sharing the squaring chain between counts: the result lists exactly the
/// requested counts in strictly ascending order, each with the element
/// reached after that many squarings.
pub fn iterate_squarings(x: &BigInt, powers_to_calculate: &Vec<u64>, n: &BigInt) -> (r: Vec<
    (u64, BigInt),
>)
    requires
        bival(*n) >= 2,
        0 <= bival(*x) < bival(*n),
    ensures
        forall|idx: int|
            0 <= idx < r@.len() ==> powers_to_calculate@.contains(#[trigger] r@[idx].0),
        forall|k: int|
            0 <= k < powers_to_calculate@.len() ==> has_count(
                r@,
                #[trigger] powers_to_calculate@[k],
            ),
        forall|i: int, j: int| 0 <= i < j < r@.len() ==> r@[i].0 < r@[j].0,
        forall|idx: int|
            0 <= idx < r@.len() ==> bival(#[trigger] r@[idx].1) == pow_mod(
                bival(*x),
                pow2(r@[idx].0 as int) as nat,
                bival(*n),
            ),
{
    let mut result: Vec<(u64, BigInt)> = Vec::new();
    let mut cur = bi_clone(x);
    let mut done: u64 = 0;
    let mut lo: u64 = 0;
    proof {
        lemma_pow0(2);
        lemma_pow1(bival(*x));
        lemma_small_mod(bival(*x) as nat, bival(*n) as nat);
    }
    loop
        invariant
            bival(*n) >= 2,
            0 <= bival(*x) < bival(*n),
            done <= lo,
            bival(cur) == pow_mod(bival(*x), pow2(done as int) as nat, bival(*n)),
            forall|idx: int|
                0 <= idx < result@.len() ==> powers_to_calculate@.contains(
                    #[trigger] result@[idx].0,
                ),
            forall|idx: int| 0 <= idx < result@.len() ==> #[trigger] result@[idx].0 < lo,
            forall|k: int|
                0 <= k < powers_to_calculate@.len() && powers_to_calculate@[k] < lo ==> has_count(
                    result@,
                    #[trigger] powers_to_calculate@[k],
                ),
            forall|i: int, j: int| 0 <= i < j < result@.len() ==> result@[i].0 < result@[j].0,
            forall|idx: int|
                0 <= idx < result@.len() ==> bival(#[trigger] result@[idx].1) == pow_mod(
                    bival(*x),
                    pow2(result@[idx].0 as int) as nat,
                    bival(*n),
                ),
        decreases u64::MAX - lo,
    {
        let ghost old_result = result@;
        let m_opt = min_above(powers_to_calculate, lo);
        match m_opt {
            None => {
                proof {
                    assert forall|k: int|
                        0 <= k < powers_to_calculate@.len() implies has_count(
                        result@,
                        #[trigger] powers_to_calculate@[k],
                    ) by {
                        assert(powers_to_calculate@[k] < lo);
                    }
                }
                return result;
            },
            Some(m) => {
                cur = advance_squarings(cur, m - done, Ghost(bival(*x)), Ghost(done), n);
                done = m;
                result.push((m, bi_clone(&cur)));
                proof {
                    assert forall|k: int|
                        0 <= k < powers_to_calculate@.len() && powers_to_calculate@[k] < m
                            + 1 implies has_count(result@, #[trigger] powers_to_calculate@[k]) by {
                        if powers_to_calculate@[k] < lo {
                            let idx = choose|idx: int|
                                0 <= idx < old_result.len() && (#[trigger] old_result[idx]).0
                                    == powers_to_calculate@[k];
                            assert(result@[idx] == old_result[idx]);
                            assert((result@[idx]).0 == powers_to_calculate@[k]);
                        } else {
                            assert(result@.len() == old_result.len() + 1);
                            assert((result@[result@.len() - 1]).0 == m);
                            assert(powers_to_calculate@[k] == m);
                        }
                    }
                }
                if m == u64::MAX {
                    return result;
                }
                lo = m + 1;
            },
        }
    }
}

} // verus!
