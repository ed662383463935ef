//! Decompression helpers.
//!
//! | Module | Algorithm | Typical use |
//! |--------|-----------|-------------|
//! | [`lz4`]  | LZ4 block | Older Nintendo tooling |
//! | [`zstd`] | Zstandard | SARC `.zs` archives; NCZ section blocks |
//!
//! The decoders themselves are the crates `lz4_flex` and `zstd`; this
//! library turns their outcomes into its own error type.

pub mod lz4;
pub mod zstd;
