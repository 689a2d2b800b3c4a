//! Trusted boundary around the arbitrary-precision integers of the `curv`
//! crate (GMP-backed).  Every value is modelled in specifications by the
//! mathematical integer it holds, written `bival`; each wrapper states over
//! `bival` exactly what the wrapped operation computes.

use vstd::prelude::*;
use vstd::arithmetic::power::pow;
use curv::BigInt;
use curv::arithmetic::{Converter, Integer, Modulo, Primes, Samplable};

verus! {

#[verifier::external_type_specification]
#[verifier::external_body]
pub struct ExBigInt(BigInt);

/// The mathematical integer a `BigInt` holds.  `curv` keeps every value in a
/// canonical GMP representation, so two values holding the same integer are
/// structurally equal.
pub uninterp spec fn bival(b: BigInt) -> int;

/// The canonical big-endian byte serialisation of a non-negative integer, as
/// `BigInt::to_bytes` produces it (zero exports as a single zero byte).
pub uninterp spec fn bytes_of_int(v: int) -> Seq<u8>;

/// The integer a big-endian byte string denotes: the fold that
/// `BigInt::from_bytes` documents.
pub open spec fn int_of_bytes(b: Seq<u8>) -> int
    decreases b.len(),
{
    if b.len() == 0 {
        0
    } else {
        256 * int_of_bytes(b.drop_last()) + b.last()
    }
}

pub proof fn lemma_int_of_bytes_nonneg(b: Seq<u8>)
    ensures
        int_of_bytes(b) >= 0,
    decreases b.len(),
{
    if b.len() > 0 {
        lemma_int_of_bytes_nonneg(b.drop_last());
    }
}

/// A byte string of length `n` denotes an integer below `2^(8n)`.
pub proof fn lemma_int_of_bytes_bound(b: Seq<u8>)
    ensures
        0 <= int_of_bytes(b) < pow(2, (8 * b.len()) as nat),
    decreases b.len(),
{
    if b.len() == 0 {
        vstd::arithmetic::power::lemma_pow0(2);
    } else {
        lemma_int_of_bytes_bound(b.drop_last());
        assert(pow(2, 8) == 256) by {
            vstd::arithmetic::power2::lemma2_to64();
            vstd::arithmetic::power2::lemma_pow2(8);
        };
        vstd::arithmetic::power::lemma_pow_adds(2, 8, (8 * (b.len() - 1)) as nat);
    }
}

/// Relies on `From<u64> for BigInt`: the value is the given integer.
#[verifier::external_body]
pub fn bi_from_u64(v: u64) -> (r: BigInt)
    ensures
        bival(r) == v,
{
    BigInt::from(v)
}

/// Relies on `Clone for BigInt`: the copy holds the same integer.
#[verifier::external_body]
pub fn bi_clone(a: &BigInt) -> (r: BigInt)
    ensures
        bival(r) == bival(*a),
{
    a.clone()
}

/// Relies on `PartialEq for BigInt`: equality of the canonical
/// representations is equality of the held integers.
#[verifier::external_body]
pub fn bi_eq(a: &BigInt, b: &BigInt) -> (r: bool)
    ensures
        r == (bival(*a) == bival(*b)),
{
    a == b
}

/// Relies on `Ord for BigInt`: the order of the held integers.
#[verifier::external_body]
pub fn bi_lt(a: &BigInt, b: &BigInt) -> (r: bool)
    ensures
        r == (bival(*a) < bival(*b)),
{
    a < b
}

/// Relies on `Ord for BigInt`: the order of the held integers.
#[verifier::external_body]
pub fn bi_le(a: &BigInt, b: &BigInt) -> (r: bool)
    ensures
        r == (bival(*a) <= bival(*b)),
{
    a <= b
}

/// Relies on `Add for BigInt`.
#[verifier::external_body]
pub fn bi_add(a: &BigInt, b: &BigInt) -> (r: BigInt)
    ensures
        bival(r) == bival(*a) + bival(*b),
{
    a + b
}

/// Relies on `Sub for BigInt`.
#[verifier::external_body]
pub fn bi_sub(a: &BigInt, b: &BigInt) -> (r: BigInt)
    ensures
        bival(r) == bival(*a) - bival(*b),
{
    a - b
}

/// Relies on `Mul for BigInt`.
#[verifier::external_body]
pub fn bi_mul(a: &BigInt, b: &BigInt) -> (r: BigInt)
    ensures
        bival(r) == bival(*a) * bival(*b),
{
    a * b
}

/// Relies on `Integer::div_floor` (GMP `fdiv_q`); for non-negative dividend
/// and positive divisor this is Euclidean division.
#[verifier::external_body]
pub fn bi_div_floor(a: &BigInt, b: &BigInt) -> (r: BigInt)
    requires
        bival(*a) >= 0,
        bival(*b) >= 1,
    ensures
        bival(r) == bival(*a) / bival(*b),
{
    a.div_floor(b)
}

/// Relies on `Integer::mod_floor` (GMP `fdiv_r`); for a positive modulus the
/// result is the Euclidean remainder in `[0, b)`.
#[verifier::external_body]
pub fn bi_mod_floor(a: &BigInt, b: &BigInt) -> (r: BigInt)
    requires
        bival(*b) >= 1,
    ensures
        bival(r) == bival(*a) % bival(*b),
{
    a.mod_floor(b)
}

/// Relies on `Modulo::mod_mul`, which reduces both factors and the product
/// with `mod_floor`.
#[verifier::external_body]
pub fn bi_mod_mul(a: &BigInt, b: &BigInt, m: &BigInt) -> (r: BigInt)
    requires
        bival(*m) >= 1,
    ensures
        bival(r) == (bival(*a) * bival(*b)) % bival(*m),
{
    BigInt::mod_mul(a, b, m)
}

/// Relies on `Modulo::mod_pow` (GMP `powm`): `base^exponent mod m`, reduced
/// into `[0, m)`.  The exponent must not be negative (curv panics on it).
#[verifier::external_body]
pub fn bi_mod_pow(base: &BigInt, exponent: &BigInt, m: &BigInt) -> (r: BigInt)
    requires
        bival(*exponent) >= 0,
        bival(*m) >= 1,
    ensures
        bival(r) == pow(bival(*base), bival(*exponent) as nat) % bival(*m),
{
    BigInt::mod_pow(base, exponent, m)
}

/// Relies on `Samplable::sample`: a random integer in `[0, 2^bit_size)`.
/// Nothing more can be said of a random draw.
#[verifier::external_body]
pub fn bi_sample(bit_size: usize) -> (r: BigInt)
    ensures
        0 <= bival(r) < pow(2, bit_size as nat),
{
    BigInt::sample(bit_size)
}

/// What `Primes::next_prime` answers for an integer: the probable prime it
/// steps to, a function of the value alone (GMP's search is deterministic
/// per build).
pub uninterp spec fn next_prime_of(a: int) -> int;

/// Relies on `Primes::next_prime` (GMP `nextprime`): a probable prime
/// strictly greater than the argument; every prime is at least 2.
#[verifier::external_body]
pub fn bi_next_prime(a: &BigInt) -> (r: BigInt)
    ensures
        bival(r) == next_prime_of(bival(*a)),
        bival(r) > bival(*a),
        bival(r) >= 2,
{
    a.next_prime()
}

/// What `Primes::is_probable_prime` (GMP `probab_prime_p`, a fixed number of
/// rounds) answers for an integer: a pure function of the value alone.
pub uninterp spec fn prime_test(v: int) -> bool;

/// Relies on `Primes::is_probable_prime` being a deterministic function of
/// its input: GMP's test draws its bases from a fixed seed.
#[verifier::external_body]
pub fn bi_is_probable_prime(a: &BigInt) -> (r: bool)
    ensures
        r == prime_test(bival(*a)),
{
    a.is_probable_prime(25)
}

/// Relies on `Converter::to_bytes` (GMP export): the canonical big-endian
/// serialisation of the magnitude, which decodes back to the same integer.
#[verifier::external_body]
pub fn bi_to_bytes(a: &BigInt) -> (r: Vec<u8>)
    requires
        bival(*a) >= 0,
    ensures
        r@ == bytes_of_int(bival(*a)),
        int_of_bytes(r@) == bival(*a),
{
    a.to_bytes()
}

/// Relies on `Converter::from_bytes` (GMP import): big-endian bytes to their
/// non-negative integer.
#[verifier::external_body]
pub fn bi_from_bytes(b: &[u8]) -> (r: BigInt)
    ensures
        bival(r) == int_of_bytes(b@),
{
    BigInt::from_bytes(b)
}

} // verus!
