use curv::arithmetic::{Converter, Integer, Modulo, Primes, Samplable};
use curv::BigInt;
use sha2::{Digest, Sha256};
use std::time::Instant;
use vdf::rsa_vdf::{SetupForVDF, UnsolvedVDF};
use vdf::utilities::{h_g, hash_to_prime, ErrorReason};

fn big_modulus() -> BigInt {
    // An odd 2048-bit modulus: 2^2048 - 1.
    let hex: String = std::iter::repeat('f').take(512).collect();
    BigInt::from_hex(&hex).unwrap()
}

#[test]
fn test_vdf_valid_proof() {
    let t = BigInt::sample(13);
    let setup = SetupForVDF::public_setup(&t);

    let mut i = 0;
    while i < 10 {
        let unsolved_vdf = SetupForVDF::pick_challenge(&setup);
        let start = Instant::now();
        let solved_vdf = UnsolvedVDF::eval(&unsolved_vdf);
        let duration1 = start.elapsed();
        let start = Instant::now();
        // here unsolved_vdf is the version that was kept by the challenger
        let res = solved_vdf.verify(&unsolved_vdf);
        let duration2 = start.elapsed();
        i = i + 1;

        println!("eval time: {:?}", duration1);
        println!("verify time: {:?}", duration2);

        assert!(res.is_ok());
    }
}

#[test]
fn trapdoor_equivalence_matches_full_evaluation() {
    let x = BigInt::from(0xaa1234u64);
    let t = BigInt::from(20u64);
    let p = BigInt::from(10007u64);
    let q = BigInt::from(10009u64);
    let u = SetupForVDF::public_setup2(&x, &t, &p, &q);
    let y_full = UnsolvedVDF::cal_y(&u);
    let y_trapdoor = UnsolvedVDF::cal_y_with_trapdoor(&u);
    assert_eq!(y_full, y_trapdoor);

    let solved = UnsolvedVDF::try_eval_with_trapdoor(&u).unwrap();
    assert!(solved.verify(&u).is_ok());
}

#[test]
fn zero_iterations_accepts_trivially() {
    let x = BigInt::from(5u64);
    let t = BigInt::from(0u64);
    let n = BigInt::from(101u64);
    let u = SetupForVDF::public_setup3(&x, &t, &n);
    let solved = UnsolvedVDF::try_eval(&u).unwrap();
    let g = h_g(&n, &x);
    assert_eq!(solved.y, g);
    assert_eq!(solved.pi, BigInt::from(1u64));
    assert!(solved.verify(&u).is_ok());
}

#[test]
fn tampered_y_is_rejected() {
    let x = BigInt::from(0xdeadu64);
    let t = BigInt::from(64u64);
    let n = big_modulus();
    let u = SetupForVDF::public_setup3(&x, &t, &n);
    let mut solved = UnsolvedVDF::try_eval(&u).unwrap();
    assert!(solved.verify(&u).is_ok());
    let two = BigInt::from(2u64);
    solved.y = if solved.y.mod_floor(&two) == BigInt::from(0u64) {
        &solved.y + &BigInt::from(1u64)
    } else {
        &solved.y - &BigInt::from(1u64)
    };
    assert_eq!(solved.verify(&u), Err(ErrorReason::VDFVerifyError));
}

#[test]
fn tampered_pi_is_rejected() {
    let x = BigInt::from(0xbeefu64);
    let t = BigInt::from(64u64);
    let n = big_modulus();
    let u = SetupForVDF::public_setup3(&x, &t, &n);
    let mut solved = UnsolvedVDF::try_eval(&u).unwrap();
    assert!(solved.verify(&u).is_ok());
    let two = BigInt::from(2u64);
    solved.pi = if solved.pi.mod_floor(&two) == BigInt::from(0u64) {
        &solved.pi + &BigInt::from(1u64)
    } else {
        &solved.pi - &BigInt::from(1u64)
    };
    assert_eq!(solved.verify(&u), Err(ErrorReason::VDFVerifyError));
}

#[test]
fn mutated_serialized_proof_flips_verdict() {
    // t = 1024, x = "aa1234" (hex), 2048-bit modulus.
    let x = BigInt::from_hex("aa1234").unwrap();
    let t = BigInt::from(1024u64);
    let n = big_modulus();
    let u = SetupForVDF::public_setup3(&x, &t, &n);
    let mut solved = UnsolvedVDF::try_eval(&u).unwrap();
    assert!(solved.verify(&u).is_ok());
    let mut pi_bytes = solved.pi.to_bytes();
    let last = pi_bytes.len() - 1;
    pi_bytes[last] ^= 0x01;
    solved.pi = BigInt::from_bytes(&pi_bytes);
    assert!(solved.verify(&u).is_err());
}

#[test]
fn cross_instance_proof_is_rejected() {
    let t = BigInt::from(16u64);
    let n = big_modulus();
    let a = SetupForVDF::public_setup3(&BigInt::from(111u64), &t, &n);
    let b = SetupForVDF::public_setup3(&BigInt::from(222u64), &t, &n);
    let solved = UnsolvedVDF::try_eval(&a).unwrap();
    assert_eq!(solved.verify(&b), Err(ErrorReason::MisMatchedVDF));
    assert!(solved.verify(&a).is_ok());
}

#[test]
fn out_of_range_output_is_rejected() {
    let x = BigInt::from(77u64);
    let t = BigInt::from(8u64);
    let n = big_modulus();
    let u = SetupForVDF::public_setup3(&x, &t, &n);
    let mut solved = UnsolvedVDF::try_eval(&u).unwrap();
    solved.y = n.clone();
    assert_eq!(solved.verify(&u), Err(ErrorReason::OutOfRange));
}

#[test]
fn hash_to_prime_is_deterministic() {
    let x = BigInt::from(12345u64);
    let t = BigInt::from(99u64);
    let n = big_modulus();
    let u = SetupForVDF::public_setup3(&x, &t, &n);
    let g = h_g(&n, &x);
    let y = BigInt::from(7u64);
    let l1 = hash_to_prime(&u.setup, &g, &y).unwrap();
    let l2 = hash_to_prime(&u.setup, &g, &y).unwrap();
    assert_eq!(l1, l2);
    assert!(l1 >= BigInt::from(2u64));
    assert!(l1.is_probable_prime(25));

    // A different output must not collide on the challenge seed.
    let l3 = hash_to_prime(&u.setup, &g, &BigInt::from(8u64)).unwrap();
    assert_ne!(l1, l3);
}

#[test]
fn group_hash_matches_reduced_digest() {
    let x = BigInt::from(0xaa1234u64);
    let n = BigInt::from(1_000_000_007u64);
    let digest = Sha256::digest(&x.to_bytes());
    let expected = BigInt::from_bytes(&digest).mod_floor(&n);
    assert_eq!(h_g(&n, &x), expected);
}

#[test]
fn sequential_squaring_matches_modular_exponentiation() {
    let x = BigInt::from(5u64);
    let t = BigInt::from(3u64);
    let n = BigInt::from(23u64);
    let u = SetupForVDF::public_setup3(&x, &t, &n);
    let g = h_g(&n, &x);
    // 2^3 = 8 squarings collapse to one exponentiation by 8.
    let expected = BigInt::mod_pow(&g, &BigInt::from(8u64), &n);
    assert_eq!(UnsolvedVDF::cal_y(&u), expected);
}

#[test]
fn modulus_generation_yields_usable_trapdoor() {
    let (x, p, q, n) = SetupForVDF::get_rsa_modulus();
    assert_eq!(&p * &q, n);
    assert!(x >= BigInt::from(0u64));
    let t = BigInt::from(12u64);
    let u = SetupForVDF::public_setup2(&x, &t, &p, &q);
    let solved = UnsolvedVDF::try_eval_with_trapdoor(&u).unwrap();
    assert!(solved.verify(&u).is_ok());
}

#[test]
fn output_serialization_round_trips() {
    let x = BigInt::from(0xaa1234u64);
    let t = BigInt::from(32u64);
    let n = big_modulus();
    let u = SetupForVDF::public_setup3(&x, &t, &n);
    let solved = UnsolvedVDF::try_eval(&u).unwrap();
    let bytes = solved.y.to_bytes();
    assert_eq!(BigInt::from_bytes(&bytes), solved.y);
    assert_eq!(solved.y.to_bytes(), bytes);
}
