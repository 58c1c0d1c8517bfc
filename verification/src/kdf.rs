//! Key derivation: from a passphrase and a salt to the key of one save or
//! load.

use crate::random::random_bytes;
use vstd::prelude::*;

verus! {

/// The length of a salt in bytes.
pub const SALT_SIZE: usize = 16;

/// The number of PBKDF2 rounds. It is not stored in an archive, so changing
/// it makes existing archives unreadable.
pub const PBKDF2_ITERATIONS: u32 = 100_000;

/// The length of a derived key in bytes.
pub const KEY_SIZE: usize = 32;

/// The first `len` bytes of PBKDF2 with HMAC-SHA-256 as its pseudorandom
/// function, for the given password, salt and number of rounds.
pub uninterp spec fn pbkdf2_hmac_sha256(
    password: Seq<u8>,
    salt: Seq<u8>,
    rounds: u32,
    len: nat,
) -> Seq<u8>;

/// Calls `pbkdf2::pbkdf2_hmac::<sha2::Sha256>` on a zeroed buffer of `len`
/// bytes and returns the buffer.
///
/// Trusted: the function fills the whole buffer, and with bytes that depend
/// on its four arguments alone. It numbers the blocks of the output in 32
/// bits, which `len` must not exhaust.
#[verifier::external_body]
fn pbkdf2_hmac_sha256_bytes(password: &[u8], salt: &[u8], rounds: u32, len: usize) -> (out: Vec<u8>)
    requires
        len <= u32::MAX,
    ensures
        out@.len() == len,
        out@ == pbkdf2_hmac_sha256(password@, salt@, rounds, len as nat),
{
    let mut out = vec![0u8; len];
    pbkdf2::pbkdf2_hmac::<sha2::Sha256>(password, salt, rounds, &mut out);
    out
}

/// The key that [`derive_key`] returns: it depends on the passphrase and the
/// salt alone, so a load derives the key that the save used.
pub open spec fn derived_key(passphrase: Seq<char>, salt: Seq<u8>) -> Seq<u8> {
    pbkdf2_hmac_sha256(
        vstd::utf8::encode_utf8(passphrase),
        salt,
        PBKDF2_ITERATIONS,
        KEY_SIZE as nat,
    )
}

/// Derives the key from the UTF-8 bytes of `passphrase` and from `salt`.
/// Every passphrase, the empty one included, and every salt is accepted.
pub fn derive_key(passphrase: &str, salt: &[u8]) -> (key: Vec<u8>)
    ensures
        key@.len() == KEY_SIZE,
        key@ == derived_key(passphrase@, salt@),
{
    pbkdf2_hmac_sha256_bytes(passphrase.as_bytes(), salt, PBKDF2_ITERATIONS, KEY_SIZE)
}

/// A fresh random salt.
pub fn generate_salt() -> (salt: Vec<u8>)
    ensures
        salt@.len() == SALT_SIZE,
{
    random_bytes(SALT_SIZE)
}

} // verus!
