//! The two primitives the integrity check takes on trust from the `ring`
//! crate: a SHA-1 digest of the message prefix and a constant-time byte
//! comparison.  Everything that depends on them is verified against the
//! contracts below.

use vstd::prelude::*;

verus! {

/// The SHA-1 digest of a byte sequence, as a sequence of 20 bytes.  The
/// digest is a function of the input alone; no contract in this crate says
/// what the bytes are on any given input.
pub uninterp spec fn sha1_of(data: Seq<u8>) -> Seq<u8>;

/// Relies on `ring::digest::digest` with the SHA-1 algorithm: the digest
/// depends on the input bytes alone, and its output length is 20 bytes.
#[verifier::external_body]
pub(crate) fn sha1(data: &[u8]) -> (r: Vec<u8>)
    ensures
        r@ == sha1_of(data@),
        r@.len() == 20,
{
    ring::digest::digest(&ring::digest::SHA1_FOR_LEGACY_USE_ONLY, data).as_ref().to_vec()
}

/// Relies on `ring::constant_time::verify_slices_are_equal`: it returns
/// `Ok` exactly when the two slices hold the same bytes.  (It also compares
/// in constant time, which no contract here needs to state.)
#[verifier::external_body]
#[allow(deprecated)]
pub(crate) fn bytes_equal_ct(a: &[u8], b: &[u8]) -> (r: bool)
    ensures
        r == (a@ == b@),
{
    ring::constant_time::verify_slices_are_equal(a, b).is_ok()
}

} // verus!
