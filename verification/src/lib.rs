//! Parsers and decryption primitives for Nintendo Switch content containers.
//!
//! The library is read-only and works on bytes in memory: a caller loads a
//! file, wraps it in a [`stream::Stream`] and hands it to a parser, which
//! returns a plain descriptor. Crypto is not built into the parsers; the
//! caller decrypts before parsing.
//!
//! | Module | Contents |
//! |--------|----------|
//! | [`stream`] | In-memory seekable byte source consumed by every parser |
//! | [`utils`] | Typed fixed-width reads, magic checks, string extraction |
//! | [`error`] | The unified error type |
//! | [`crypto`] | AES-128 and its XTS, CTR and ECB uses on NCA files |
//! | [`keys`] | Key set and key-file loader |
//! | [`text`] | Characters, white space and searching for the key files |
//! | [`formats`] | PFS0, HFS0, XCI, NCA, NCZ, NPDM, SARC, BNTX, BFTTF |
//! | [`compression`] | LZ4 and Zstandard decompression |

pub mod error;
pub mod stream;
pub mod utils;
pub mod text;
pub mod keys;
pub mod crypto;
pub mod formats;
pub mod compression;

pub use error::Error;
