//! The Wesolowski proof-of-time surface shared with the class-group
//! backend: the security-parameter type, the checkpoint-spacing rule of the
//! time/memory tradeoff, and the fixed-width proof-blob layout.
//!
//! The exponent-chunk and leftover-work constants of the parameter
//! selection are floating-point heuristics and are computed beside the
//! group code; only the spacing rule, which the monotonicity law speaks
//! of, lives here.

use vstd::prelude::*;

verus! {

/// A requested iteration count that a proof family rejects.
#[derive(Debug)]
pub struct InvalidIterations(pub String);

/// The security parameter of a Wesolowski VDF: the bit length of the
/// discriminant (or modulus) the group is built from.
#[derive(Clone, Copy, PartialEq, Eq, Structural, Debug)]
pub struct WesolowskiVDFParams(pub u16);

/// A Wesolowski VDF configured for a fixed security parameter.
#[derive(Clone, Debug)]
pub struct WesolowskiVDF {
    pub int_size_bits: u16,
}

impl WesolowskiVDFParams {
    /// Builds the VDF the parameter describes.
    pub fn new(self) -> (r: WesolowskiVDF)
        ensures
            r.int_size_bits == self.0,
    {
        WesolowskiVDF { int_size_bits: self.0 }
    }
}

impl WesolowskiVDF {
    /// The Wesolowski family accepts every iteration count.
    pub fn check_difficulty(&self, _difficulty: u64) -> (r: Result<(), InvalidIterations>)
        ensures
            r is Ok,
    {
        Ok(())
    }
}

/// Checkpoint spacing for iteration count `t`: one element retained per
/// iteration until `t` outgrows the fixed memory budget of ten million
/// stored elements, then one per ten.
pub open spec fn l_param_of(t: u64) -> usize {
    if t > 10_000_000 {
        10
    } else {
        1
    }
}

/// The checkpoint spacing the parameter selection uses for `t` iterations.
pub fn checkpoint_spacing(t: u64) -> (r: usize)
    ensures
        r == l_param_of(t),
{
    if t > 10_000_000 {
        10
    } else {
        1
    }
}

/// Checkpoint-spacing monotonicity: with the memory budget fixed, a larger
/// iteration count never selects a finer spacing.
pub proof fn lemma_l_param_monotonic(t1: u64, t2: u64)
    requires
        t1 <= t2,
    ensures
        l_param_of(t1) <= l_param_of(t2),
{
}

/// The fixed serialisation width of one group element for a given security
/// parameter, as the proof-blob layout bakes it in.
pub open spec fn element_len_of(int_size_bits: u16) -> int {
    2 * ((int_size_bits + 16) as int / 16)
}

/// The byte width of one serialised group element.
pub fn element_length(int_size_bits: u16) -> (r: usize)
    ensures
        r == element_len_of(int_size_bits),
{
    2 * (((int_size_bits as usize) + 16) / 16)
}

/// Whether every byte of `v` in `[lo, hi)` is zero: the deserialisation
/// guard a verifier runs before handing untrusted element bytes to the
/// group backend, whose import rejects an all-zero leading coefficient
/// only by aborting.
pub fn bytes_all_zero(v: &Vec<u8>, lo: usize, hi: usize) -> (r: bool)
    requires
        lo <= hi <= v@.len(),
    ensures
        r == (forall|i: int| lo <= i < hi ==> v@[i] == 0),
{
    let mut i: usize = lo;
    while i < hi
        invariant
            lo <= i <= hi <= v@.len(),
            forall|k: int| lo <= k < i ==> v@[k] == 0,
        decreases hi - i,
    {
        if v[i] != 0 {
            return false;
        }
        i = i + 1;
    }
    true
}

/// Splits a proof blob `result_bytes ++ proof_bytes` into its two
/// fixed-width halves, rejecting any blob whose total length is not
/// exactly twice the element width.
pub fn split_proof_blob(proof_blob: &Vec<u8>, int_size_bits: u16) -> (r: Option<(Vec<u8>, Vec<u8>)>)
    ensures
        match r {
            Some(pair) => proof_blob@.len() == 2 * element_len_of(int_size_bits) && pair.0@
                == proof_blob@.subrange(0, element_len_of(int_size_bits)) && pair.1@
                == proof_blob@.subrange(
                element_len_of(int_size_bits),
                2 * element_len_of(int_size_bits),
            ),
            None => proof_blob@.len() != 2 * element_len_of(int_size_bits),
        },
{
    let element_len = element_length(int_size_bits);
    if proof_blob.len() != 2 * element_len {
        return None;
    }
    let mut result_bytes: Vec<u8> = Vec::new();
    let mut i: usize = 0;
    while i < element_len
        invariant
            element_len == element_len_of(int_size_bits),
            proof_blob@.len() == 2 * element_len,
            i <= element_len,
            result_bytes@ == proof_blob@.subrange(0, i as int),
        decreases element_len - i,
    {
        result_bytes.push(proof_blob[i]);
        proof {
            assert(proof_blob@.subrange(0, i as int) + seq![proof_blob@[i as int]]
                =~= proof_blob@.subrange(0, i + 1));
        }
        i = i + 1;
    }
    let mut proof_bytes: Vec<u8> = Vec::new();
    let mut j: usize = element_len;
    while j < 2 * element_len
        invariant
            element_len == element_len_of(int_size_bits),
            proof_blob@.len() == 2 * element_len,
            element_len <= j <= 2 * element_len,
            proof_bytes@ == proof_blob@.subrange(element_len as int, j as int),
        decreases 2 * element_len - j,
    {
        proof_bytes.push(proof_blob[j]);
        proof {
            assert(proof_blob@.subrange(element_len as int, j as int) + seq![
                proof_blob@[j as int],
            ] =~= proof_blob@.subrange(element_len as int, j + 1));
        }
        j = j + 1;
    }
    Some((result_bytes, proof_bytes))
}

} // verus!
