//! Deterministic derivation of a negative quadratic-form discriminant from
//! challenge bytes: a prime-search hash under its own domain separator.
//!
//! Digest blocks are stretched to the requested bit length, the top bit is
//! forced so the magnitude has exactly that length, the low bits are forced
//! to make the magnitude 7 modulo 8 (so its negation is 1 modulo 8, as a
//! quadratic form over the generator `(2, 1)` needs), and the first
//! magnitude that passes the primality test is negated and returned.  Both parties derive the identical discriminant from identical
//! challenge bytes.

use vstd::prelude::*;
use vstd::arithmetic::power::{
    pow, lemma_pow1, lemma_pow_adds, lemma_pow_increases, lemma_pow_positive,
};
use vstd::arithmetic::div_mod::{
    lemma_fundamental_div_mod, lemma_mod_bound, lemma_mod_multiples_vanish, lemma_small_mod,
};
use crate::bigint::{
    bival, int_of_bytes, bi_add, bi_div_floor, bi_from_bytes, bi_from_u64, bi_is_probable_prime,
    bi_le, bi_mod_floor, bi_mul, bi_sub,
};
use crate::hashing::{append_bytes, passes, sha256, sha256_of, u64_be_bytes, u64_to_bytes};
use crate::rsa_vdf::pow2;
use curv::BigInt;

verus! {

/// The domain separator of the discriminant search.
pub open spec fn disc_tag() -> Seq<u8> {
    seq![100u8, 105u8, 115u8, 99u8, 114u8, 105u8, 109u8, 105u8, 110u8, 97u8, 110u8, 116u8]
}

/// One digest block of the stretch for retry `j`.
pub open spec fn disc_block(challenge: Seq<u8>, j: u64, b: u64) -> Seq<u8> {
    sha256_of(disc_tag() + u64_be_bytes(j) + u64_be_bytes(b) + challenge)
}

/// The first `nblocks` digest blocks of retry `j`, concatenated.
pub open spec fn stretched(challenge: Seq<u8>, j: u64, nblocks: nat) -> Seq<u8>
    decreases nblocks,
{
    if nblocks == 0 {
        Seq::empty()
    } else {
        stretched(challenge, j, (nblocks - 1) as nat) + disc_block(
            challenge,
            j,
            (nblocks - 1) as u64,
        )
    }
}

/// How many bytes a `bits`-bit magnitude needs.
pub open spec fn disc_nbytes(bits: u16) -> int {
    (bits + 7) as int / 8
}

/// How many digest blocks cover those bytes.
pub open spec fn disc_nblocks(bits: u16) -> int {
    (disc_nbytes(bits) + 31) / 32
}

/// The raw integer retry `j` draws from the stretch.
pub open spec fn disc_raw(challenge: Seq<u8>, j: u64, bits: u16) -> int {
    int_of_bytes(
        stretched(challenge, j, disc_nblocks(bits) as nat).subrange(0, disc_nbytes(bits)),
    )
}

/// Forces a raw draw into a `bits`-bit magnitude that is 7 modulo 8: the
/// draw is reduced below `2^(bits-1)`, the top bit is added back, and the
/// low three bits are set to 7.
pub open spec fn disc_adjusted(c: int, bits: u16) -> int {
    let c1 = c % pow2(bits - 1) + pow2(bits - 1);
    8 * (c1 / 8) + 7
}

/// The magnitude candidate of retry `j`.
pub open spec fn disc_candidate(challenge: Seq<u8>, j: u64, bits: u16) -> int {
    disc_adjusted(disc_raw(challenge, j, bits), bits)
}

/// `m` is the candidate of retry `j`, it passes, and no earlier retry passed.
pub open spec fn disc_found_at(challenge: Seq<u8>, j: u64, bits: u16, m: int) -> bool {
    m == disc_candidate(challenge, j, bits) && passes(m) && (forall|k: u64|
        k < j ==> !passes(disc_candidate(challenge, k, bits)))
}

/// `m` is the first passing magnitude of the search over `challenge`.
pub open spec fn disc_prime_post(challenge: Seq<u8>, bits: u16, m: int) -> bool {
    exists|j: u64| disc_found_at(challenge, j, bits, m)
}

/// Some retry of the discriminant search over `challenge` passes.
pub open spec fn disc_search_ok(challenge: Seq<u8>, bits: u16) -> bool {
    exists|m: int| disc_prime_post(challenge, bits, m)
}

/// The magnitude the discriminant search yields, where one exists.
pub open spec fn found_magnitude(challenge: Seq<u8>, bits: u16) -> int {
    choose|m: int| disc_prime_post(challenge, bits, m)
}

/// The adjustment really lands in `[2^(bits-1), 2^bits)` and is 7 modulo 8
/// (hence also 3 modulo 4).
proof fn lemma_adjusted_range(c: int, bits: u16)
    requires
        c >= 0,
        bits >= 3,
    ensures
        pow2(bits - 1) <= disc_adjusted(c, bits) < pow2(bits as int),
        disc_adjusted(c, bits) % 8 == 7,
        disc_adjusted(c, bits) % 4 == 3,
        disc_adjusted(c, bits) >= 2,
{
    let p = pow2(bits - 1);
    lemma_pow_positive(2, (bits - 1) as nat);
    lemma_mod_bound(c, p);
    let c1 = c % p + p;
    lemma_fundamental_div_mod(c1, 8);
    lemma_mod_bound(c1, 8);
    let c2 = 8 * (c1 / 8) + 7;
    lemma_mod_multiples_vanish(c1 / 8, 7, 8);
    lemma_small_mod(7nat, 8nat);
    assert(c2 % 8 == 7);
    assert(c2 == 4 * (2 * (c1 / 8) + 1) + 3);
    lemma_mod_multiples_vanish(2 * (c1 / 8) + 1, 3, 4);
    lemma_small_mod(3nat, 4nat);
    assert(c2 % 4 == 3);
    assert(pow2(bits as int) == 2 * p) by {
        lemma_pow_adds(2, (bits - 1) as nat, 1);
        lemma_pow1(2);
    };
    assert(pow(2, 2) == 4 && pow(2, 3) == 8) by {
        lemma_pow1(2);
        lemma_pow_adds(2, 1, 1);
        assert(pow(2, 1 + 1) == pow(2, 1) * pow(2, 1));
        lemma_pow_adds(2, 1, 2);
        assert(pow(2, 1 + 2) == pow(2, 1) * pow(2, 2));
    };
    assert(pow2(bits as int) == pow2(bits - 3) * 8) by {
        lemma_pow_adds(2, (bits - 3) as nat, 3);
    };
    assert(c2 >= c1 >= p);
    if c2 >= 2 * p {
        let e = c2 - 2 * p;
        assert(0 <= e < 8);
        lemma_mod_multiples_vanish(pow2(bits - 3), e, 8);
        lemma_small_mod(e as nat, 8nat);
        assert(c2 % 8 == e);
        assert(false);
    }
    assert(p >= 2) by {
        lemma_pow1(2);
        lemma_pow_increases(2, 1, (bits - 1) as nat);
    };
}

/// Derives the discriminant for a challenge: the negation of the first
/// passing magnitude.  `None` only when every retry of the search fails.
pub fn create_discriminant(challenge: &Vec<u8>, int_size_bits: u16) -> (r: Option<BigInt>)
    requires
        int_size_bits >= 3,
    ensures
        match r {
            Some(d) => {
                &&& bival(d) < 0
                &&& disc_prime_post(challenge@, int_size_bits, -bival(d))
                &&& pow2(int_size_bits - 1) <= -bival(d) < pow2(int_size_bits as int)
                &&& (-bival(d)) % 8 == 7
                &&& (-bival(d)) % 4 == 3
            },
            None => forall|j: u64| !passes(disc_candidate(challenge@, j, int_size_bits)),
        },
{
    let nbytes: usize = ((int_size_bits as usize) + 7) / 8;
    let nblocks: usize = (nbytes + 31) / 32;
    let mut tag: Vec<u8> = Vec::new();
    tag.push(100u8);
    tag.push(105u8);
    tag.push(115u8);
    tag.push(99u8);
    tag.push(114u8);
    tag.push(105u8);
    tag.push(109u8);
    tag.push(105u8);
    tag.push(110u8);
    tag.push(97u8);
    tag.push(110u8);
    tag.push(116u8);
    proof {
        assert(tag@ =~= disc_tag());
    }
    let zero = bi_from_u64(0);
    let two = bi_from_u64(2);
    let seven = bi_from_u64(7);
    let eight = bi_from_u64(8);
    let mut p2 = bi_from_u64(1);
    let mut i: u16 = 0;
    proof {
        assert(pow2(0) == 1) by {
            vstd::arithmetic::power::lemma_pow0(2);
        };
    }
    while i < int_size_bits - 1
        invariant
            int_size_bits >= 3,
            i <= int_size_bits - 1,
            bival(p2) == pow2(i as int),
        decreases int_size_bits - 1 - i,
    {
        proof {
            lemma_pow_adds(2, i as nat, 1);
            lemma_pow1(2);
        }
        p2 = bi_add(&p2, &p2);
        i = i + 1;
    }
    let mut j: u64 = 0;
    loop
        invariant
            int_size_bits >= 3,
            nbytes == ((int_size_bits as usize) + 7) / 8,
            nblocks == (nbytes + 31) / 32,
            tag@ == disc_tag(),
            bival(zero) == 0,
            bival(two) == 2,
            bival(seven) == 7,
            bival(eight) == 8,
            bival(p2) == pow2(int_size_bits - 1),
            forall|k: u64| k < j ==> !passes(disc_candidate(challenge@, k, int_size_bits)),
        decreases u64::MAX - j,
    {
        let jb = u64_to_bytes(j);
        let mut data: Vec<u8> = Vec::new();
        let mut b: u64 = 0;
        while (b as usize) < nblocks
            invariant
                nblocks <= usize::MAX,
                b <= nblocks as u64,
                tag@ == disc_tag(),
                jb@ == u64_be_bytes(j),
                data@ == stretched(challenge@, j, b as nat),
                data@.len() == 32 * b,
            decreases nblocks - b,
        {
            let bb = u64_to_bytes(b);
            let mut msg: Vec<u8> = Vec::new();
            append_bytes(&mut msg, &tag);
            append_bytes(&mut msg, &jb);
            append_bytes(&mut msg, &bb);
            append_bytes(&mut msg, challenge);
            let dig = sha256(&msg);
            append_bytes(&mut data, &dig);
            proof {
                assert(msg@ == disc_tag() + u64_be_bytes(j) + u64_be_bytes(b) + challenge@);
                assert(data@ == stretched(challenge@, j, (b + 1) as nat));
            }
            b = b + 1;
        }
        let mut prefix: Vec<u8> = Vec::new();
        let mut bi: usize = 0;
        proof {
            assert(32 * (nblocks as int) >= nbytes);
        }
        while bi < nbytes
            invariant
                bi <= nbytes,
                data@.len() >= nbytes,
                prefix@ == data@.subrange(0, bi as int),
            decreases nbytes - bi,
        {
            prefix.push(data[bi]);
            proof {
                assert(data@.subrange(0, bi as int) + seq![data@[bi as int]] =~= data@.subrange(
                    0,
                    bi + 1,
                ));
            }
            bi = bi + 1;
        }
        let c0 = bi_from_bytes(&prefix);
        proof {
            lemma_pow_positive(2, (int_size_bits - 1) as nat);
            crate::bigint::lemma_int_of_bytes_nonneg(prefix@);
        }
        let c1 = bi_add(&bi_mod_floor(&c0, &p2), &p2);
        proof {
            lemma_mod_bound(bival(c0), bival(p2));
        }
        let c2 = bi_add(&bi_mul(&bi_div_floor(&c1, &eight), &eight), &seven);
        proof {
            assert(bival(c0) == disc_raw(challenge@, j, int_size_bits));
            assert(bival(c2) == disc_candidate(challenge@, j, int_size_bits));
        }
        if bi_is_probable_prime(&c2) && bi_le(&two, &c2) {
            proof {
                assert(disc_found_at(challenge@, j, int_size_bits, bival(c2)));
                lemma_adjusted_range(disc_raw(challenge@, j, int_size_bits), int_size_bits);
            }
            let d = bi_sub(&zero, &c2);
            return Some(d);
        }
        if j == u64::MAX {
            proof {
                assert(forall|k: u64| !passes(disc_candidate(challenge@, k, int_size_bits)));
            }
            return None;
        }
        j = j + 1;
    }
}

/// The discriminant search has at most one outcome: discriminant
/// generation is a pure function of the challenge bytes.
pub proof fn lemma_discriminant_deterministic(challenge: Seq<u8>, bits: u16, m1: int, m2: int)
    requires
        disc_prime_post(challenge, bits, m1),
        disc_prime_post(challenge, bits, m2),
    ensures
        m1 == m2,
{
    let j1 = choose|j: u64| disc_found_at(challenge, j, bits, m1);
    let j2 = choose|j: u64| disc_found_at(challenge, j, bits, m2);
    if j1 < j2 {
        assert(!passes(disc_candidate(challenge, j1, bits)));
        assert(false);
    }
    if j2 < j1 {
        assert(!passes(disc_candidate(challenge, j2, bits)));
        assert(false);
    }
}

} // verus!
