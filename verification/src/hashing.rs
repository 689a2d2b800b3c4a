//! Deterministic hash-to-prime derivation: the Fiat–Shamir challenge that
//! binds a proof to its evaluation instance.
//!
//! A candidate is drawn by hashing a domain tag, a 64-bit counter and the
//! seed bytes, reading the first 16 digest bytes as a big-endian integer and
//! testing it for primality; the counter starts at 0 and increases until a
//! candidate passes.  Prover and verifier repeat the identical search, so
//! both must arrive at the same prime: the contracts below pin the result to
//! the first passing candidate.

use vstd::prelude::*;
use crate::bigint::{
    bival, bi_from_bytes, bi_from_u64, bi_is_probable_prime, bi_le, int_of_bytes,
    lemma_int_of_bytes_bound, prime_test,
};
use vstd::arithmetic::power::pow;
use curv::BigInt;
use sha2::{Digest, Sha256};

verus! {

/// What SHA-256 answers for a byte string: a pure function of the bytes.
pub uninterp spec fn sha256_of(data: Seq<u8>) -> Seq<u8>;

/// Relies on `sha2::Sha256`: a 32-byte digest depending on the input alone.
#[verifier::external_body]
pub fn sha256(data: &Vec<u8>) -> (r: Vec<u8>)
    ensures
        r@ == sha256_of(data@),
        r@.len() == 32,
{
    let mut hasher = Sha256::new();
    hasher.update(&data[..]);
    hasher.finalize().to_vec()
}

/// The big-endian encoding of the 64-bit retry counter.
pub open spec fn u64_be_bytes(q: u64) -> Seq<u8> {
    seq![
        (q >> 56) as u8,
        (q >> 48) as u8,
        (q >> 40) as u8,
        (q >> 32) as u8,
        (q >> 24) as u8,
        (q >> 16) as u8,
        (q >> 8) as u8,
        q as u8,
    ]
}

/// Big-endian bytes of a 64-bit counter, most significant byte first.
pub fn u64_to_bytes(q: u64) -> (r: Vec<u8>)
    ensures
        r@ == u64_be_bytes(q),
{
    let mut r: Vec<u8> = Vec::new();
    r.push((q >> 56) as u8);
    r.push((q >> 48) as u8);
    r.push((q >> 40) as u8);
    r.push((q >> 32) as u8);
    r.push((q >> 24) as u8);
    r.push((q >> 16) as u8);
    r.push((q >> 8) as u8);
    r.push(q as u8);
    proof {
        assert(r@ =~= u64_be_bytes(q));
    }
    r
}

/// The domain separator of the prime search.
pub open spec fn prime_tag() -> Seq<u8> {
    seq![112u8, 114u8, 105u8, 109u8, 101u8]
}

/// Appends all of `src` to `dst`.
pub fn append_bytes(dst: &mut Vec<u8>, src: &Vec<u8>)
    ensures
        final(dst)@ == old(dst)@ + src@,
{
    let mut i: usize = 0;
    while i < src.len()
        invariant
            i <= src.len(),
            dst@ == old(dst)@ + src@.subrange(0, i as int),
        decreases src.len() - i,
    {
        dst.push(src[i]);
        proof {
            assert(old(dst)@ + src@.subrange(0, i as int) + seq![src@[i as int]] =~= old(
                dst,
            )@ + src@.subrange(0, i + 1));
        }
        i = i + 1;
    }
    proof {
        assert(src@.subrange(0, src@.len() as int) =~= src@);
    }
}

/// The candidate that retry `j` of the search over `seed` examines.
pub open spec fn candidate(seed: Seq<u8>, j: u64) -> int {
    int_of_bytes(sha256_of(prime_tag() + u64_be_bytes(j) + seed).subrange(0, 16))
}

/// A candidate is accepted when the probabilistic test calls it prime; the
/// explicit lower bound keeps degenerate values out of the group algebra.
pub open spec fn passes(c: int) -> bool {
    prime_test(c) && c >= 2
}

/// `l` is the candidate of retry `j`, it passes, and no earlier retry passed.
pub open spec fn hash_prime_found_at(seed: Seq<u8>, j: u64, l: int) -> bool {
    l == candidate(seed, j) && passes(l) && (forall|k: u64| k < j ==> !passes(candidate(seed, k)))
}

/// `l` is the first passing candidate of the search over `seed`.
pub open spec fn hash_prime_post(seed: Seq<u8>, l: int) -> bool {
    exists|j: u64| hash_prime_found_at(seed, j, l)
}

/// Some retry of the search over `seed` passes.
pub open spec fn hash_search_ok(seed: Seq<u8>) -> bool {
    exists|l: int| hash_prime_post(seed, l)
}

/// The prime the search over `seed` yields, where one exists.
pub open spec fn found_prime(seed: Seq<u8>) -> int {
    choose|l: int| hash_prime_post(seed, l)
}

/// The search has at most one outcome: hash-to-prime is a pure function of
/// the seed bytes.
pub proof fn lemma_hash_prime_unique(seed: Seq<u8>, l1: int, l2: int)
    requires
        hash_prime_post(seed, l1),
        hash_prime_post(seed, l2),
    ensures
        l1 == l2,
{
    let j1 = choose|j: u64| hash_prime_found_at(seed, j, l1);
    let j2 = choose|j: u64| hash_prime_found_at(seed, j, l2);
    if j1 < j2 {
        assert(!passes(candidate(seed, j1)));
        assert(false);
    }
    if j2 < j1 {
        assert(!passes(candidate(seed, j2)));
        assert(false);
    }
}

/// Searches for the first candidate over `seed` that passes the primality
/// test.  `None` only when every one of the 2^64 retries fails, in which
/// case no first passing candidate exists at all.
pub fn hash_prime_from_seed(seed: &Vec<u8>) -> (r: Option<BigInt>)
    ensures
        match r {
            Some(l) => 2 <= bival(l) < pow(2, 128) && hash_prime_post(seed@, bival(l)),
            None => !hash_search_ok(seed@),
        },
{
    let mut tag: Vec<u8> = Vec::new();
    tag.push(112u8);
    tag.push(114u8);
    tag.push(105u8);
    tag.push(109u8);
    tag.push(101u8);
    proof {
        assert(tag@ =~= prime_tag());
    }
    let two = bi_from_u64(2);
    let mut j: u64 = 0;
    loop
        invariant
            tag@ == prime_tag(),
            bival(two) == 2,
            forall|k: u64| k < j ==> !passes(candidate(seed@, k)),
        decreases u64::MAX - j,
    {
        let jb = u64_to_bytes(j);
        let mut msg: Vec<u8> = Vec::new();
        append_bytes(&mut msg, &tag);
        append_bytes(&mut msg, &jb);
        append_bytes(&mut msg, seed);
        let digest = sha256(&msg);
        let mut prefix: Vec<u8> = Vec::new();
        let mut i: usize = 0;
        while i < 16
            invariant
                i <= 16,
                digest@.len() == 32,
                prefix@ == digest@.subrange(0, i as int),
            decreases 16 - i,
        {
            prefix.push(digest[i]);
            proof {
                assert(digest@.subrange(0, i as int) + seq![digest@[i as int]] =~= digest@.subrange(
                    0,
                    i + 1,
                ));
            }
            i = i + 1;
        }
        let cand = bi_from_bytes(&prefix);
        proof {
            assert(msg@ == prime_tag() + u64_be_bytes(j) + seed@);
            assert(bival(cand) == candidate(seed@, j));
        }
        if bi_is_probable_prime(&cand) && bi_le(&two, &cand) {
            proof {
                assert(hash_prime_found_at(seed@, j, bival(cand)));
                lemma_int_of_bytes_bound(prefix@);
            }
            return Some(cand);
        }
        if j == u64::MAX {
            proof {
                assert(forall|k: u64| !passes(candidate(seed@, k)));
                if hash_search_ok(seed@) {
                    let l = choose|l: int| hash_prime_post(seed@, l);
                    let jw = choose|jw: u64| hash_prime_found_at(seed@, jw, l);
                    assert(passes(candidate(seed@, jw)));
                    assert(false);
                }
            }
            return None;
        }
        j = j + 1;
    }
}

} // verus!
