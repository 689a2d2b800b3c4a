//! The boundary to the symmetric cipher that consumes the VDF output as key
//! material.  The cipher itself is an external collaborator; the library's
//! only obligation towards it is the deterministic serialisation of `y`.

use vstd::prelude::*;

verus! {

/// Implemented by symmetric ciphers that encrypt fixed-width field-element
/// messages under a secret derived from a VDF output.
pub trait Cipher {

}

} // verus!
