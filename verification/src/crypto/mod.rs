//! Cryptographic operations for Nintendo Switch content.
//!
//! The AES implementation here is table-driven and meant for **offline
//! file-format parsing** only. It is not constant-time and must not be used
//! where timing side-channels are a concern.
//!
//! | Module | Purpose |
//! |--------|---------|
//! | [`gf`]  | Arithmetic in GF(2^8) and the AES S-box |
//! | [`aes`] | The AES-128 block cipher and its key schedule |
//! | [`ctr`] | The counter and key stream of AES-128-CTR |
//! | [`nca`] | XTS header, CTR section and ECB key-area decryption |

pub mod gf;
pub mod aes;
pub mod ctr;
pub mod nca;
