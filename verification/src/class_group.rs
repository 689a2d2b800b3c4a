//! The class-group backend of the Wesolowski proof of time: the evaluation
//! path, over elements that descend from the group generator.
//!
//! Group elements are reduced binary quadratic forms of the `classgroup`
//! crate, opaque to the verifier: each value is modelled by an abstract
//! code `cgval`, each operation's result carries a name over those codes,
//! and the trusted predicate `cg_handled` marks the elements the crate's
//! operations are shown to handle — those built by the generator for a
//! well-formed discriminant and closed under squaring.  Deserialising an
//! untrusted proof blob yields forms (possibly negative or inconsistent)
//! for which the crate's source establishes no behaviour at all, so no
//! contract can be stated over operations on them; that checking path
//! stays outside the library, behind the byte validation this module and
//! the blob layout provide.

use vstd::prelude::*;
use vstd::arithmetic::div_mod::{lemma_fundamental_div_mod, lemma_fundamental_div_mod_converse};
use crate::bigint::{bival, int_of_bytes, prime_test, bi_from_u64, bi_sub, bi_to_bytes};
use crate::create_discriminant::{
    create_discriminant, disc_candidate, disc_found_at, disc_prime_post, disc_search_ok,
    found_magnitude, lemma_discriminant_deterministic,
};
use crate::hashing::passes;
use crate::proof_wesolowski::{element_len_of, element_length};
use classgroup::gmp::mpz::Mpz;
use classgroup::gmp_classgroup::GmpClassGroup;
use classgroup::ClassGroup;

verus! {

#[verifier::external_type_specification]
#[verifier::external_body]
pub struct ExGmpClassGroup(GmpClassGroup);

#[verifier::external_type_specification]
#[verifier::external_body]
pub struct ExMpz(Mpz);

/// The quadratic form a class-group value holds, coded abstractly: equal
/// codes mean structurally equal values.
pub uninterp spec fn cgval(g: GmpClassGroup) -> int;

/// The integer a `classgroup` big number holds.
pub uninterp spec fn mpzval(m: Mpz) -> int;

/// The elements the `classgroup` source is shown to handle: those the
/// generator of a well-formed discriminant builds, closed under squaring.
pub uninterp spec fn cg_handled(a: int) -> bool;

/// What `from_ab_discriminant(2, 1, d)` builds: the generator of the class
/// group of discriminant `d`.
pub uninterp spec fn cg_generator_of(discriminant: int) -> int;

/// What `square` computes from a handled element.
pub uninterp spec fn cg_square_of(a: int) -> int;

/// Whether an element fits a serialisation buffer of the given length.
pub uninterp spec fn cg_fits(a: int, len: int) -> bool;

/// The bytes `serialize` writes for an element into a buffer of the given
/// length, when it fits.
pub uninterp spec fn cg_serialized(a: int, len: int) -> Seq<u8>;

/// Relies on `GmpClassGroup::from_ab_discriminant` with `a = 2, b = 1`:
/// the crate's generator for the discriminant.  The discriminant must be
/// negative, 1 modulo 8 (so the form's third coefficient is exact) and of
/// prime magnitude, the regime the crate's own derivation produces and its
/// operations are written for.
#[verifier::external_body]
fn cg_generator(discriminant: &Mpz) -> (r: GmpClassGroup)
    requires
        mpzval(*discriminant) < 0,
        mpzval(*discriminant) % 8 == 1,
        prime_test(-mpzval(*discriminant)),
    ensures
        cgval(r) == cg_generator_of(mpzval(*discriminant)),
        cg_handled(cgval(r)),
{
    GmpClassGroup::from_ab_discriminant(2.into(), 1.into(), discriminant.clone())
}

/// Relies on `ClassGroup::square`: in-place group squaring of a handled
/// element; the result is handled in turn.
#[verifier::external_body]
fn cg_square(x: &mut GmpClassGroup)
    requires
        cg_handled(cgval(*old(x))),
    ensures
        cgval(*final (x)) == cg_square_of(cgval(*old(x))),
        cg_handled(cgval(*final (x))),
{
    x.square()
}

/// Relies on `ClassGroup::serialize`: two big-endian byte sequences into a
/// fixed buffer; `Err` exactly when the element does not fit.
#[verifier::external_body]
fn cg_serialize(x: &GmpClassGroup, len: usize) -> (r: Option<Vec<u8>>)
    requires
        cg_handled(cgval(*x)),
    ensures
        match r {
            Some(v) => cg_fits(cgval(*x), len as int) && v@ == cg_serialized(
                cgval(*x),
                len as int,
            ) && v@.len() == len,
            None => !cg_fits(cgval(*x), len as int),
        },
{
    let mut buf = vec![0u8; len];
    match x.serialize(&mut buf[..]) {
        Ok(()) => Some(buf),
        Err(_) => None,
    }
}

/// Relies on `From<&[u8]> for Mpz` (big-endian import).
#[verifier::external_body]
fn mpz_from_bytes(b: &Vec<u8>) -> (r: Mpz)
    ensures
        mpzval(r) == int_of_bytes(b@),
{
    Mpz::from(&b[..])
}

/// Relies on `Neg for Mpz`.
#[verifier::external_body]
fn mpz_neg(a: &Mpz) -> (r: Mpz)
    ensures
        mpzval(r) == -mpzval(*a),
{
    -(a.clone())
}

/// `n` squarings of an element, by the code each one carries.
pub open spec fn cg_squares(a: int, n: nat) -> int
    decreases n,
{
    if n == 0 {
        a
    } else {
        cg_square_of(cg_squares(a, (n - 1) as nat))
    }
}

/// The element the class-group evaluation owes for a challenge: the
/// generator of the derived discriminant, squared `iterations` times.
pub open spec fn y_element(challenge: Seq<u8>, iterations: u64, bits: u16) -> int {
    cg_squares(cg_generator_of(-found_magnitude(challenge, bits)), iterations as nat)
}

/// Evaluates the class-group VDF: derives the discriminant from the
/// challenge, squares the generator `iterations` times, and serialises the
/// result into the fixed-width layout.  `None` only when the discriminant
/// search fails or the element does not fit the layout.
pub fn generate_y(challenge: &Vec<u8>, iterations: u64, int_size_bits: u16) -> (r: Option<Vec<u8>>)
    requires
        int_size_bits >= 3,
    ensures
        match r {
            Some(v) => disc_search_ok(challenge@, int_size_bits) && cg_fits(
                y_element(challenge@, iterations, int_size_bits),
                element_len_of(int_size_bits),
            ) && v@ == cg_serialized(
                y_element(challenge@, iterations, int_size_bits),
                element_len_of(int_size_bits),
            ),
            None => !disc_search_ok(challenge@, int_size_bits) || !cg_fits(
                y_element(challenge@, iterations, int_size_bits),
                element_len_of(int_size_bits),
            ),
        },
{
    let d = match create_discriminant(challenge, int_size_bits) {
        Some(d) => d,
        None => {
            proof {
                if disc_search_ok(challenge@, int_size_bits) {
                    let m = choose|m: int| disc_prime_post(challenge@, int_size_bits, m);
                    let jw = choose|jw: u64| disc_found_at(challenge@, jw, int_size_bits, m);
                    assert(passes(disc_candidate(challenge@, jw, int_size_bits)));
                    assert(false);
                }
            }
            return None;
        },
    };
    proof {
        assert(disc_prime_post(
            challenge@,
            int_size_bits,
            found_magnitude(challenge@, int_size_bits),
        ));
        lemma_discriminant_deterministic(
            challenge@,
            int_size_bits,
            -bival(d),
            found_magnitude(challenge@, int_size_bits),
        );
        // The magnitude is 7 mod 8, so its negation is 1 mod 8.
        let m = -bival(d);
        lemma_fundamental_div_mod(m, 8);
        lemma_fundamental_div_mod_converse(bival(d), 8, -(m / 8) - 1, 1);
    }
    let zero = bi_from_u64(0);
    let magnitude = bi_sub(&zero, &d);
    let mag_bytes = bi_to_bytes(&magnitude);
    let disc = mpz_neg(&mpz_from_bytes(&mag_bytes));
    let mut g = cg_generator(&disc);
    let mut i: u64 = 0;
    while i < iterations
        invariant
            i <= iterations,
            cg_handled(cgval(g)),
            cgval(g) == cg_squares(
                cg_generator_of(-found_magnitude(challenge@, int_size_bits)),
                i as nat,
            ),
        decreases iterations - i,
    {
        cg_square(&mut g);
        i = i + 1;
    }
    let element_len = element_length(int_size_bits);
    cg_serialize(&g, element_len)
}

} // verus!
