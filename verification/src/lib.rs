//! An encrypted archive container for a small list of credential records,
//! together with the in-memory store that the records live in while a
//! program runs.

pub mod arc;
pub mod compressor;
pub mod error;
pub mod kdf;
mod random;
pub mod session;
pub mod stream;
pub mod util;
