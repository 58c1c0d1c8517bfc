//! The ways in which reading an archive can fail.

use vstd::prelude::*;

verus! {

/// Why the bytes of an archive could not be decoded.
#[derive(Debug, Clone, Copy, PartialEq, Eq, Structural)]
pub enum FormatError {
    /// The magic tag or the version tag is missing or is not the expected one.
    InvalidHeader,
    /// The encrypted block is too short to hold a nonce.
    InvalidEncryptedData,
    /// The decrypted bytes are not a complete, valid zlib stream.
    InvalidCompressedData,
    /// The decompressed bytes do not describe a list of records.
    InvalidRecords,
}

/// The error classes that saving and loading an archive distinguish.
#[derive(Debug, Clone, Copy, PartialEq, Eq, Structural)]
pub enum ArchiveError {
    /// The file could not be read or written, or it ended inside a field of
    /// fixed size that follows the header.
    Io,
    /// The file was read but cannot be decoded. A wrong passphrase and a
    /// damaged file both end here: nothing tells them apart.
    Format(FormatError),
    /// The records could not be serialized.
    Encoding,
}

impl FormatError {
    /// The text that [`FormatError::message`] returns.
    pub open spec fn message_text(self) -> Seq<char> {
        match self {
            FormatError::InvalidHeader => "invalid archive header"@,
            FormatError::InvalidEncryptedData => "invalid encrypted data"@,
            FormatError::InvalidCompressedData => "invalid compressed data"@,
            FormatError::InvalidRecords => "invalid records"@,
        }
    }

    /// A short description for the user.
    pub fn message(&self) -> (r: &'static str)
        ensures
            r@ == self.message_text(),
    {
        match self {
            FormatError::InvalidHeader => "invalid archive header",
            FormatError::InvalidEncryptedData => "invalid encrypted data",
            FormatError::InvalidCompressedData => "invalid compressed data",
            FormatError::InvalidRecords => "invalid records",
        }
    }
}

impl ArchiveError {
    /// The file was read but could not be decoded, so that asking for the
    /// passphrase again may help.
    pub open spec fn is_format(self) -> bool {
        self is Format
    }
}

} // verus!
