//! A verifiable delay function (VDF) library.
//!
//! The core primitive forces a prover to perform `t` sequential squarings in a
//! group of unknown order to obtain `y = g^(2^t)`, together with a short
//! Wesolowski proof `pi` that lets a verifier check the claim in far fewer
//! group operations.  A trapdoor holder who knows the factorisation of the
//! modulus can shortcut the delay by reducing the exponent modulo Euler's
//! totient first.

pub mod arith;
pub mod bigint;
pub mod hashing;
pub mod utilities;
pub mod rsa_vdf;
pub mod laws;
pub mod proof_of_time;
pub mod proof_wesolowski;
pub mod cipher;
pub mod create_discriminant;
pub mod class_group;
