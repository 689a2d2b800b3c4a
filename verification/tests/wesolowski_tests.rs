use curv::arithmetic::{BitManipulation, Integer, Primes};
use curv::BigInt;
use vdf::create_discriminant::create_discriminant;
use vdf::proof_of_time::iterate_squarings;
use vdf::hashing::u64_to_bytes;
use vdf::proof_wesolowski::{
    bytes_all_zero, checkpoint_spacing, element_length, split_proof_blob, WesolowskiVDFParams,
};

#[test]
fn checkpoint_cache_squares_incrementally() {
    let x = BigInt::from(3u64);
    let n = BigInt::from(101u64);
    let counts: Vec<u64> = vec![4, 2, 0, 2];
    let cache = iterate_squarings(&x, &counts, &n);
    let got: Vec<(u64, BigInt)> = cache;
    assert_eq!(got.len(), 3);
    assert_eq!(got[0], (0, BigInt::from(3u64)));
    assert_eq!(got[1], (2, BigInt::from(81u64)));
    assert_eq!(got[2], (4, BigInt::from(16u64)));
}

#[test]
fn checkpoint_spacing_concrete_values() {
    assert_eq!(checkpoint_spacing(1024), 1);
    assert_eq!(checkpoint_spacing(10_000_000), 1);
    assert_eq!(checkpoint_spacing(10_000_001), 10);
    assert_eq!(checkpoint_spacing(20_000_000), 10);
}

#[test]
fn checkpoint_spacing_is_monotone() {
    let ts: Vec<u64> = vec![1, 100, 10_000, 10_000_000, 10_000_001, 1 << 40, u64::MAX];
    let mut last: usize = 0;
    for t in ts {
        let l = checkpoint_spacing(t);
        assert!(l >= last);
        last = l;
    }
}

#[test]
fn proof_blob_layout_is_enforced() {
    assert_eq!(element_length(16), 4);
    assert_eq!(element_length(2048), 258);

    let blob: Vec<u8> = vec![1, 2, 3, 4, 5, 6, 7, 8];
    let (result_bytes, proof_bytes) = split_proof_blob(&blob, 16).unwrap();
    assert_eq!(result_bytes, vec![1, 2, 3, 4]);
    assert_eq!(proof_bytes, vec![5, 6, 7, 8]);

    let short: Vec<u8> = vec![1, 2, 3, 4, 5, 6, 7];
    assert!(split_proof_blob(&short, 16).is_none());
}

#[test]
fn counter_encoding_is_big_endian() {
    assert_eq!(u64_to_bytes(0x0102030405060708), vec![1, 2, 3, 4, 5, 6, 7, 8]);
    assert_eq!(u64_to_bytes(0), vec![0, 0, 0, 0, 0, 0, 0, 0]);
    assert_eq!(u64_to_bytes(u64::MAX), vec![255; 8]);
}

#[test]
fn wesolowski_vdf_accepts_any_difficulty() {
    let vdf = WesolowskiVDFParams(2048).new();
    assert_eq!(vdf.int_size_bits, 2048);
    assert!(vdf.check_difficulty(0).is_ok());
    assert!(vdf.check_difficulty(u64::MAX).is_ok());
}

#[test]
fn discriminant_generation_is_deterministic_and_well_formed() {
    let challenge: Vec<u8> = vec![0xaa, 0x12, 0x34];
    let d1 = create_discriminant(&challenge, 64).unwrap();
    let d2 = create_discriminant(&challenge, 64).unwrap();
    assert_eq!(d1, d2);

    let zero = BigInt::from(0u64);
    assert!(d1 < zero);
    let magnitude = &zero - &d1;
    assert_eq!(magnitude.bit_length(), 64);
    assert_eq!(magnitude.mod_floor(&BigInt::from(8u64)), BigInt::from(7u64));
    assert_eq!(magnitude.mod_floor(&BigInt::from(4u64)), BigInt::from(3u64));
    assert!(magnitude.is_probable_prime(25));

    // A different challenge changes the discriminant.
    let other: Vec<u8> = vec![0xaa, 0x12, 0x35];
    let d3 = create_discriminant(&other, 64).unwrap();
    assert_ne!(d1, d3);
}

#[test]
fn class_group_evaluation_is_deterministic() {
    let challenge: Vec<u8> = vec![0xaa, 0x12, 0x34];
    let y1 = vdf::class_group::generate_y(&challenge, 100, 64).unwrap();
    let y2 = vdf::class_group::generate_y(&challenge, 100, 64).unwrap();
    assert_eq!(y1, y2);
    assert_eq!(y1.len(), element_length(64));

    let other: Vec<u8> = vec![0xaa, 0x12, 0x35];
    let y3 = vdf::class_group::generate_y(&other, 100, 64).unwrap();
    assert_ne!(y1, y3);
}

#[test]
fn zero_coefficient_guard_detects_zero_bytes() {
    let blob: Vec<u8> = vec![0, 0, 0, 1, 2, 0];
    assert!(bytes_all_zero(&blob, 0, 3));
    assert!(!bytes_all_zero(&blob, 0, 4));
    assert!(!bytes_all_zero(&blob, 3, 5));
    assert!(bytes_all_zero(&blob, 5, 6));
    assert!(bytes_all_zero(&blob, 2, 2));
}
