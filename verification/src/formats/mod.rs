//! Parsers for Nintendo binary formats.
//!
//! Every parser reads headers from a [`crate::stream::Stream`] and builds a
//! metadata-only descriptor; payload bytes are never loaded eagerly. Archive
//! formats have a matching reader type that owns the stream and hands out
//! the bytes of individual files.

pub mod bfttf;
pub mod bntx;
pub mod hfs0;
pub mod nca;
pub mod ncz;
pub mod npdm;
pub mod pfs0;
pub mod sarc;
pub mod xci;
