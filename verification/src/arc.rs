//! The archive: the record list in memory, and the container that holds its
//! serialized form on disk.
//!
//! | offset | size | field                                   |
//! |--------|------|-----------------------------------------|
//! | 0      | 3    | magic, ASCII `arc`                      |
//! | 3      | 3    | version, ASCII `1.0`                    |
//! | 6      | 16   | salt                                    |
//! | 22     | 8    | nonce                                   |
//! | 30     | rest | ciphertext of the compressed records    |

use crate::compressor::{compress_data, decompress_data, decompressed, zlib_deflate};
use crate::error::{ArchiveError, FormatError};
use crate::kdf::{derive_key, derived_key, generate_salt, SALT_SIZE};
use crate::stream::{
    decrypt_data, decrypted, encrypt_with_nonce, encrypted, generate_nonce,
    lemma_decrypt_inverts_encrypt, NONCE_SIZE,
};
use vstd::prelude::*;

verus! {

/// The length of the magic tag and the version tag together.
pub const HEADER_SIZE: usize = 6;

/// The offset at which the encrypted block starts.
pub const BLOCK_OFFSET: usize = 22;

/// One credential record as the archive stores it.
#[derive(Debug)]
pub struct Entry {
    pub id: u32,
    pub username: String,
    pub service: String,
    pub password: String,
}

/// What an [`Entry`] holds, as mathematical values.
pub struct Record {
    pub id: u32,
    pub username: Seq<char>,
    pub service: Seq<char>,
    pub password: Seq<char>,
}

impl View for Entry {
    type V = Record;

    open spec fn view(&self) -> Record {
        Record {
            id: self.id,
            username: self.username@,
            service: self.service@,
            password: self.password@,
        }
    }
}

/// The records of a sequence of entries, in order.
pub open spec fn records(entries: Seq<Entry>) -> Seq<Record> {
    entries.map_values(|e: Entry| e@)
}

/// The record list with the tags of the format that it is stored in.
#[derive(Debug)]
pub struct Archive {
    magic: String,
    version: String,
    pub entries: Vec<Entry>,
}

/// The magic tag and the version tag as they stand at the start of a file:
/// ASCII `arc1.0`.
pub open spec fn header() -> Seq<u8> {
    seq![0x61u8, 0x72u8, 0x63u8, 0x31u8, 0x2eu8, 0x30u8]
}

/// The file for `serialized`: header, salt, nonce, and the ciphertext of the
/// compressed `serialized` under the key derived from `passphrase` and
/// `salt`.
pub open spec fn container(
    serialized: Seq<u8>,
    passphrase: Seq<char>,
    salt: Seq<u8>,
    nonce: Seq<u8>,
) -> Seq<u8> {
    header() + salt + encrypted(derived_key(passphrase, salt), nonce, zlib_deflate(serialized))
}

/// What [`Archive::load`] returns for the bytes of a file.
pub open spec fn contained(image: Seq<u8>, passphrase: Seq<char>) -> Result<
    Seq<u8>,
    ArchiveError,
> {
    if image.len() < HEADER_SIZE || image.subrange(0, HEADER_SIZE as int) != header() {
        Err(ArchiveError::Format(FormatError::InvalidHeader))
    } else if image.len() < BLOCK_OFFSET {
        Err(ArchiveError::Io)
    } else {
        let salt = image.subrange(HEADER_SIZE as int, BLOCK_OFFSET as int);
        let block = image.subrange(BLOCK_OFFSET as int, image.len() as int);
        match decrypted(derived_key(passphrase, salt), block) {
            Ok(compressed) => decompressed(compressed),
            Err(e) => Err(e),
        }
    }
}

/// The UTF-8 encoding of ASCII text is the text, one byte for each
/// character.
proof fn lemma_ascii_bytes(text: Seq<char>)
    requires
        vstd::utf8::is_ascii_chars(text),
    ensures
        vstd::utf8::encode_utf8(text) == Seq::new(text.len(), |i: int| text[i] as u8),
{
    vstd::utf8::is_ascii_chars_encode_utf8(text);
    assert(vstd::utf8::encode_utf8(text) =~= Seq::new(text.len(), |i: int| text[i] as u8));
}

/// Whether `tags` is the magic tag followed by the version tag.
fn is_header(tags: &[u8]) -> (r: bool)
    requires
        tags@.len() == HEADER_SIZE,
    ensures
        r == (tags@ == header()),
{
    let r = tags[0] == 0x61 && tags[1] == 0x72 && tags[2] == 0x63 && tags[3] == 0x31 && tags[4]
        == 0x2e && tags[5] == 0x30;
    assert(r == (tags@ =~= header()));
    r
}

/// Where the fields of a container stand: the header at offset 0, the salt
/// at offset 6, the nonce at offset 22, the ciphertext from offset 30 on.
pub proof fn lemma_container_layout(
    serialized: Seq<u8>,
    passphrase: Seq<char>,
    salt: Seq<u8>,
    nonce: Seq<u8>,
)
    requires
        salt.len() == SALT_SIZE,
        nonce.len() == NONCE_SIZE,
    ensures
        ({
            let image = container(serialized, passphrase, salt, nonce);
            &&& image.len() == BLOCK_OFFSET + NONCE_SIZE + zlib_deflate(serialized).len()
            &&& image.subrange(0, HEADER_SIZE as int) == header()
            &&& image.subrange(HEADER_SIZE as int, BLOCK_OFFSET as int) == salt
            &&& image.subrange(BLOCK_OFFSET as int, BLOCK_OFFSET + NONCE_SIZE) == nonce
            &&& image.subrange(BLOCK_OFFSET as int, image.len() as int) == encrypted(
                derived_key(passphrase, salt),
                nonce,
                zlib_deflate(serialized),
            )
        }),
{
    let image = container(serialized, passphrase, salt, nonce);
    assert(image.subrange(0, HEADER_SIZE as int) =~= header());
    assert(image.subrange(HEADER_SIZE as int, BLOCK_OFFSET as int) =~= salt);
    assert(image.subrange(BLOCK_OFFSET as int, BLOCK_OFFSET + NONCE_SIZE) =~= nonce);
    assert(image.subrange(BLOCK_OFFSET as int, image.len() as int) =~= encrypted(
        derived_key(passphrase, salt),
        nonce,
        zlib_deflate(serialized),
    ));
}

/// Round trip: what was saved under a passphrase is what loading under the
/// same passphrase returns, for every payload, passphrase, salt and nonce,
/// wherever decompression inverts compression on that payload (which
/// [`compress_data`] states of each of its results).
pub proof fn lemma_load_inverts_save(
    serialized: Seq<u8>,
    passphrase: Seq<char>,
    salt: Seq<u8>,
    nonce: Seq<u8>,
)
    requires
        salt.len() == SALT_SIZE,
        nonce.len() == NONCE_SIZE,
        decompressed(zlib_deflate(serialized)) == Ok::<Seq<u8>, ArchiveError>(serialized),
    ensures
        contained(container(serialized, passphrase, salt, nonce), passphrase) == Ok::<
            Seq<u8>,
            ArchiveError,
        >(serialized),
{
    lemma_container_layout(serialized, passphrase, salt, nonce);
    lemma_decrypt_inverts_encrypt(derived_key(passphrase, salt), nonce, zlib_deflate(serialized));
}

/// Two saves that drew different salts or different nonces wrote different
/// files, whatever they saved.
pub proof fn lemma_fresh_salt_or_nonce_changes_file(
    serialized: Seq<u8>,
    passphrase: Seq<char>,
    salt1: Seq<u8>,
    nonce1: Seq<u8>,
    salt2: Seq<u8>,
    nonce2: Seq<u8>,
)
    requires
        salt1.len() == SALT_SIZE,
        salt2.len() == SALT_SIZE,
        nonce1.len() == NONCE_SIZE,
        nonce2.len() == NONCE_SIZE,
        salt1 != salt2 || nonce1 != nonce2,
    ensures
        container(serialized, passphrase, salt1, nonce1) != container(
            serialized,
            passphrase,
            salt2,
            nonce2,
        ),
{
    lemma_container_layout(serialized, passphrase, salt1, nonce1);
    lemma_container_layout(serialized, passphrase, salt2, nonce2);
}

impl View for Archive {
    type V = Seq<Record>;

    /// The records of the entries, in order.
    closed spec fn view(&self) -> Seq<Record> {
        records(self.entries@)
    }
}

impl Archive {
    /// The tags are those of the one format that this library reads and
    /// writes: `arc` and `1.0`.
    pub closed spec fn wf(&self) -> bool {
        &&& self.magic@ == "arc"@
        &&& self.version@ == "1.0"@
    }

    /// An archive without entries.
    pub fn new() -> (r: Archive)
        ensures
            r.wf(),
            r@ == Seq::<Record>::empty(),
    {
        let r = Archive {
            magic: "arc".to_string(),
            version: "1.0".to_string(),
            entries: Vec::new(),
        };
        assert(r@ =~= Seq::<Record>::empty());
        r
    }

    /// Appends `entry`.
    pub fn add_entry(&mut self, entry: Entry)
        ensures
            final(self).wf() == old(self).wf(),
            final(self)@ == old(self)@.push(entry@),
    {
        self.entries.push(entry);
        assert(self@ =~= old(self)@.push(entry@));
    }

    /// The entries, in order.
    pub fn entries(&self) -> (r: &Vec<Entry>)
        ensures
            records(r@) == self@,
    {
        &self.entries
    }

    /// The magic tag followed by the version tag, as bytes.
    fn header_bytes(&self) -> (out: Vec<u8>)
        requires
            self.wf(),
        ensures
            out@ == header(),
    {
        let mut out: Vec<u8> = Vec::new();
        out.extend_from_slice(self.magic.as_str().as_bytes());
        out.extend_from_slice(self.version.as_str().as_bytes());
        proof {
            reveal_strlit("arc");
            reveal_strlit("1.0");
            lemma_ascii_bytes("arc"@);
            lemma_ascii_bytes("1.0"@);
            assert(out@ =~= header());
        }
        out
    }

    /// The bytes of the file for `serialized`, the encoding of the entries
    /// that the caller made, under the given salt and nonce.
    ///
    /// Loading these bytes with the same passphrase gives `serialized` back.
    pub fn save_with(&self, serialized: &[u8], passphrase: &str, salt: &[u8], nonce: &[u8]) -> (image:
        Vec<u8>)
        requires
            self.wf(),
            salt@.len() == SALT_SIZE,
            nonce@.len() == NONCE_SIZE,
        ensures
            image@ == container(serialized@, passphrase@, salt@, nonce@),
            contained(image@, passphrase@) == Ok::<Seq<u8>, ArchiveError>(serialized@),
    {
        let compressed = compress_data(serialized);
        let key = derive_key(passphrase, salt);
        let block = encrypt_with_nonce(key.as_slice(), nonce, compressed.as_slice());
        let mut image = self.header_bytes();
        image.extend_from_slice(salt);
        image.extend_from_slice(block.as_slice());
        proof {
            assert(image@ =~= container(serialized@, passphrase@, salt@, nonce@));
            lemma_load_inverts_save(serialized@, passphrase@, salt@, nonce@);
        }
        image
    }

    /// The bytes of the file for `serialized`, the encoding of the entries
    /// that the caller made, under a fresh salt and a fresh nonce. Each call
    /// writes the whole snapshot anew.
    ///
    /// Whatever salt and nonce were drawn stand in the file, after the
    /// header, and loading the file with the same passphrase gives
    /// `serialized` back.
    pub fn save(&self, serialized: &[u8], passphrase: &str) -> (image: Vec<u8>)
        requires
            self.wf(),
        ensures
            image@.len() >= BLOCK_OFFSET + NONCE_SIZE,
            image@ == container(
                serialized@,
                passphrase@,
                image@.subrange(HEADER_SIZE as int, BLOCK_OFFSET as int),
                image@.subrange(BLOCK_OFFSET as int, BLOCK_OFFSET + NONCE_SIZE),
            ),
            contained(image@, passphrase@) == Ok::<Seq<u8>, ArchiveError>(serialized@),
    {
        let salt = generate_salt();
        let nonce = generate_nonce();
        let image = self.save_with(serialized, passphrase, salt.as_slice(), nonce.as_slice());
        proof {
            lemma_container_layout(serialized@, passphrase@, salt@, nonce@);
        }
        image
    }

    /// Decodes the bytes of a file into the serialized entries.
    ///
    /// The header is checked first: bytes that do not start with `arc1.0`
    /// are rejected as [`FormatError::InvalidHeader`] whatever follows.
    /// Bytes that end inside the salt give [`ArchiveError::Io`], as a short
    /// read does. An encrypted block shorter than a nonce and a payload that
    /// does not decompress are format errors. No input shorter than the
    /// offset of the ciphertext is accepted.
    pub fn load(image: &[u8], passphrase: &str) -> (r: Result<Vec<u8>, ArchiveError>)
        ensures
            match r {
                Ok(serialized) => contained(image@, passphrase@) == Ok::<Seq<u8>, ArchiveError>(
                    serialized@,
                ),
                Err(e) => contained(image@, passphrase@) == Err::<Seq<u8>, ArchiveError>(e),
            },
            image@.len() < HEADER_SIZE || image@.subrange(0, HEADER_SIZE as int) != header() ==> r
                == Err::<Vec<u8>, ArchiveError>(ArchiveError::Format(FormatError::InvalidHeader)),
            image@.len() < BLOCK_OFFSET + NONCE_SIZE ==> r is Err && (r->Err_0 == ArchiveError::Io
                || r->Err_0.is_format()),
    {
        if image.len() < HEADER_SIZE {
            return Err(ArchiveError::Format(FormatError::InvalidHeader));
        }
        let (tags, rest) = image.split_at(HEADER_SIZE);
        assert(tags@ =~= image@.subrange(0, HEADER_SIZE as int));
        if !is_header(tags) {
            return Err(ArchiveError::Format(FormatError::InvalidHeader));
        }
        if rest.len() < SALT_SIZE {
            return Err(ArchiveError::Io);
        }
        let (salt, block) = rest.split_at(SALT_SIZE);
        assert(salt@ =~= image@.subrange(HEADER_SIZE as int, BLOCK_OFFSET as int));
        assert(block@ =~= image@.subrange(BLOCK_OFFSET as int, image@.len() as int));
        let key = derive_key(passphrase, salt);
        let compressed = match decrypt_data(key.as_slice(), block) {
            Ok(compressed) => compressed,
            Err(e) => {
                return Err(e);
            },
        };
        decompress_data(compressed.as_slice())
    }
}

} // verus!
