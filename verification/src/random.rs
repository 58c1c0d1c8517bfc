//! Fresh random bytes for salts and nonces.

use rand::Rng;
use vstd::prelude::*;

verus! {

/// Fills a buffer of `len` bytes through `rand::Rng::fill` on
/// `rand::thread_rng()`.
///
/// Trusted: only the length of the result. The bytes come from the
/// thread-local generator, which the system seeds, so nothing more holds of
/// every outcome, and two calls may differ.
#[verifier::external_body]
pub(crate) fn random_bytes(len: usize) -> (out: Vec<u8>)
    ensures
        out@.len() == len,
{
    let mut out = vec![0u8; len];
    rand::thread_rng().fill(&mut out[..]);
    out
}

} // verus!
