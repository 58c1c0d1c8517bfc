//! The stream cipher: Salsa20 with a 32-byte key and an 8-byte nonce, and
//! the encrypted block `nonce || ciphertext` built on it.

use crate::error::{ArchiveError, FormatError};
use crate::kdf::KEY_SIZE;
use crate::random::random_bytes;
use cipher::{KeyIvInit, StreamCipher};
use salsa20::Salsa20;
use vstd::prelude::*;

verus! {

/// The length of a nonce in bytes.
pub const NONCE_SIZE: usize = 8;

/// The byte at `position` of the Salsa20 keystream for `key` and `nonce`.
pub uninterp spec fn salsa20_keystream(key: Seq<u8>, nonce: Seq<u8>, position: nat) -> u8;

/// `data` with the keystream for `key` and `nonce` XORed onto it, byte by
/// byte from position 0.
pub open spec fn keystream_xor(key: Seq<u8>, nonce: Seq<u8>, data: Seq<u8>) -> Seq<u8> {
    Seq::new(data.len(), |i: int| data[i] ^ salsa20_keystream(key, nonce, i as nat))
}

/// Makes a `salsa20::Salsa20` with `cipher::KeyIvInit::new` and runs
/// `cipher::StreamCipher::apply_keystream` over a copy of `data`.
///
/// Trusted: a new cipher starts at position 0 of its keystream, and
/// `apply_keystream` XORs each byte of the buffer with the keystream byte at
/// the same position, which depends on the key, the nonce and the position
/// alone. `new` panics on a key or nonce of another length; the keystream of
/// a 64-bit block counter cannot run out within a buffer.
#[verifier::external_body]
fn salsa20_apply(key: &[u8], nonce: &[u8], data: &[u8]) -> (out: Vec<u8>)
    requires
        key@.len() == KEY_SIZE,
        nonce@.len() == NONCE_SIZE,
    ensures
        out@.len() == data@.len(),
        forall|i: int|
            0 <= i < data@.len() ==> #[trigger] out@[i] == data@[i] ^ salsa20_keystream(
                key@,
                nonce@,
                i as nat,
            ),
{
    let mut cipher = Salsa20::new(key.into(), nonce.into());
    let mut out = data.to_vec();
    cipher.apply_keystream(&mut out);
    out
}

/// Encrypts or decrypts `data`: the two are the same operation.
pub fn apply_keystream(key: &[u8], nonce: &[u8], data: &[u8]) -> (out: Vec<u8>)
    requires
        key@.len() == KEY_SIZE,
        nonce@.len() == NONCE_SIZE,
    ensures
        out@ == keystream_xor(key@, nonce@, data@),
{
    let out = salsa20_apply(key, nonce, data);
    assert(out@ =~= keystream_xor(key@, nonce@, data@));
    out
}

/// Applying the keystream twice gives the data back.
pub proof fn lemma_keystream_xor_is_self_inverse(key: Seq<u8>, nonce: Seq<u8>, data: Seq<u8>)
    ensures
        keystream_xor(key, nonce, keystream_xor(key, nonce, data)) == data,
{
    let once = keystream_xor(key, nonce, data);
    let twice = keystream_xor(key, nonce, once);
    assert forall|i: int| 0 <= i < data.len() implies twice[i] == data[i] by {
        let d = data[i];
        let k = salsa20_keystream(key, nonce, i as nat);
        assert((d ^ k) ^ k == d) by (bit_vector);
    }
    assert(twice =~= data);
}

/// A fresh random nonce.
pub fn generate_nonce() -> (nonce: Vec<u8>)
    ensures
        nonce@.len() == NONCE_SIZE,
{
    random_bytes(NONCE_SIZE)
}

/// The encrypted block for `data`: the nonce, then the ciphertext.
pub open spec fn encrypted(key: Seq<u8>, nonce: Seq<u8>, data: Seq<u8>) -> Seq<u8> {
    nonce + keystream_xor(key, nonce, data)
}

/// What [`decrypt_data`] returns for `block`.
pub open spec fn decrypted(key: Seq<u8>, block: Seq<u8>) -> Result<Seq<u8>, ArchiveError> {
    if block.len() < NONCE_SIZE {
        Err(ArchiveError::Format(FormatError::InvalidEncryptedData))
    } else {
        Ok(
            keystream_xor(
                key,
                block.subrange(0, NONCE_SIZE as int),
                block.subrange(NONCE_SIZE as int, block.len() as int),
            ),
        )
    }
}

/// Encrypts `data` under `key` and the given nonce, and puts the nonce in
/// front.
pub fn encrypt_with_nonce(key: &[u8], nonce: &[u8], data: &[u8]) -> (block: Vec<u8>)
    requires
        key@.len() == KEY_SIZE,
        nonce@.len() == NONCE_SIZE,
    ensures
        block@ == encrypted(key@, nonce@, data@),
{
    let body = apply_keystream(key, nonce, data);
    let mut block: Vec<u8> = Vec::new();
    block.extend_from_slice(nonce);
    block.extend_from_slice(body.as_slice());
    assert(block@ =~= encrypted(key@, nonce@, data@));
    block
}

/// Encrypts `data` under `key` and a fresh nonce. Whatever nonce was drawn
/// stands in the first bytes of the block, and the rest is the ciphertext
/// under it.
pub fn encrypt_data(key: &[u8], data: &[u8]) -> (block: Vec<u8>)
    requires
        key@.len() == KEY_SIZE,
    ensures
        block@.len() == NONCE_SIZE + data@.len(),
        block@ == encrypted(key@, block@.subrange(0, NONCE_SIZE as int), data@),
        decrypted(key@, block@) == Ok::<Seq<u8>, ArchiveError>(data@),
{
    let nonce = generate_nonce();
    let block = encrypt_with_nonce(key, nonce.as_slice(), data);
    proof {
        assert(block@.subrange(0, NONCE_SIZE as int) =~= nonce@);
        lemma_decrypt_inverts_encrypt(key@, nonce@, data@);
    }
    block
}

/// Splits `block` into nonce and ciphertext and decrypts the ciphertext. A
/// block too short to hold a nonce is rejected; nothing else is, since the
/// cipher carries no integrity check.
pub fn decrypt_data(key: &[u8], block: &[u8]) -> (r: Result<Vec<u8>, ArchiveError>)
    requires
        key@.len() == KEY_SIZE,
    ensures
        match r {
            Ok(data) => decrypted(key@, block@) == Ok::<Seq<u8>, ArchiveError>(data@),
            Err(e) => decrypted(key@, block@) == Err::<Seq<u8>, ArchiveError>(e),
        },
{
    if block.len() < NONCE_SIZE {
        return Err(ArchiveError::Format(FormatError::InvalidEncryptedData));
    }
    let (nonce, body) = block.split_at(NONCE_SIZE);
    let data = apply_keystream(key, nonce, body);
    Ok(data)
}

/// Decrypting an encrypted block under the same key gives the data back.
pub proof fn lemma_decrypt_inverts_encrypt(key: Seq<u8>, nonce: Seq<u8>, data: Seq<u8>)
    requires
        nonce.len() == NONCE_SIZE,
    ensures
        decrypted(key, encrypted(key, nonce, data)) == Ok::<Seq<u8>, ArchiveError>(data),
{
    let block = encrypted(key, nonce, data);
    assert(block.subrange(0, NONCE_SIZE as int) =~= nonce);
    assert(block.subrange(NONCE_SIZE as int, block.len() as int) =~= keystream_xor(
        key,
        nonce,
        data,
    ));
    lemma_keystream_xor_is_self_inverse(key, nonce, data);
}

} // verus!
