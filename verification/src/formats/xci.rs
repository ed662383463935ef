//! XCI (NX Card Image) - physical game card dump format.
//!
//! ## Overall layout
//! ```text
//! [0x0000-0x0FFF] CardKeyArea
//! [0x1000-0x11FF] CardHeader       (0x200 bytes; see below)
//! [0x8000-0xFFFF] CertArea
//! [0x10000+]      NormalArea -> root HFS0
//! ```
//!
//! ## CardHeader (at 0x1000)
//! ```text
//! [+0x000] RSA-2048 signature                            (0x100 bytes)
//! [+0x100] Magic "HEAD"                                  (4 bytes)
//! [+0x10D] RomSize                                       (1 byte)
//! [+0x110] PackageId                                     (u64 LE)
//! [+0x130] PartitionFsHeaderAddress (absolute byte offs) (u64 LE)
//! [+0x138] PartitionFsHeaderSize                         (u64 LE)
//! [+0x140] PartitionFsHeaderHash (SHA-256)               (32 bytes)
//! ```
//!
//! ## RomSize byte values
//! | Value | Capacity |
//! |-------|----------|
//! | 0xFA  | 1 GB     |
//! | 0xF8  | 2 GB     |
//! | 0xF0  | 4 GB     |
//! | 0xE0  | 8 GB     |
//! | 0xE1  | 16 GB    |
//! | 0xE2  | 32 GB    |

use vstd::prelude::*;
use crate::error::Error;
use crate::formats::hfs0::{hfs0_at, Hfs0, Hfs0View};
use crate::stream::Stream;
use crate::utils::{bytesa, le_u32, le_u64, le_u64_at, magic, u8};

verus! {

/// The bytes `HEAD`.
pub const HEAD_MAGIC: [u8; 4] = [0x48, 0x45, 0x41, 0x44];

/// Absolute offset of the `HEAD` magic in a card image.
pub const HEAD_OFFSET: u64 = 0x1100;

/// Parsed XCI game card image.
///
/// Only the unencrypted fields of the CardHeader are captured.
#[derive(Debug)]
pub struct Xci {
    /// Absolute file offset of the root HFS0 header.
    pub hfs0_offset: u64,
    /// Size of the root HFS0 region.
    pub hfs0_size: u64,
    /// SHA-256 hash of the root HFS0 header.
    pub hfs0_header_hash: [u8; 32],
    /// RomSize byte, a coded capacity.
    pub rom_size: u8,
    /// PackageId used for challenge-response authentication.
    pub package_id: u64,
    /// Parsed root HFS0 listing the sub-partitions.
    pub root_partition: Hfs0,
}

/// Mathematical value of an [`Xci`].
pub struct XciView {
    pub hfs0_offset: u64,
    pub hfs0_size: u64,
    pub hfs0_header_hash: Seq<u8>,
    pub rom_size: u8,
    pub package_id: u64,
    pub root_partition: Hfs0View,
}

impl View for Xci {
    type V = XciView;

    open spec fn view(&self) -> XciView {
        XciView {
            hfs0_offset: self.hfs0_offset,
            hfs0_size: self.hfs0_size,
            hfs0_header_hash: self.hfs0_header_hash@,
            rom_size: self.rom_size,
            package_id: self.package_id,
            root_partition: self.root_partition@,
        }
    }
}

/// What parsing the bytes `b` as a card image yields. The card header is
/// looked for at its fixed absolute offset, the root partition where the
/// header says it is.
pub open spec fn xci_of(b: Seq<u8>) -> Result<XciView, Error> {
    let h = HEAD_OFFSET as int;
    if b.len() < h + 4 {
        Err(Error::UnexpectedEof)
    } else if b.subrange(h, h + 4) != HEAD_MAGIC@ {
        Err(Error::BadMagic)
    } else if b.len() < h + 0x60 {
        Err(Error::UnexpectedEof)
    } else {
        match hfs0_at(b, le_u64_at(b, h + 0x30) as int) {
            Err(e) => Err(e),
            Ok(root_partition) => Ok(
                XciView {
                    hfs0_offset: le_u64_at(b, h + 0x30),
                    hfs0_size: le_u64_at(b, h + 0x38),
                    hfs0_header_hash: b.subrange(h + 0x40, h + 0x60),
                    rom_size: b[h + 0x0D],
                    package_id: le_u64_at(b, h + 0x10),
                    root_partition,
                },
            ),
        }
    }
}

/// The capacity that a RomSize byte stands for.
pub open spec fn capacity_label(rom_size: u8) -> &'static str {
    if rom_size == 0xFA {
        "1 GB"
    } else if rom_size == 0xF8 {
        "2 GB"
    } else if rom_size == 0xF0 {
        "4 GB"
    } else if rom_size == 0xE0 {
        "8 GB"
    } else if rom_size == 0xE1 {
        "16 GB"
    } else if rom_size == 0xE2 {
        "32 GB"
    } else {
        "unknown"
    }
}

impl Xci {
    /// Parse an XCI file held by `r` from its origin. Wherever the stream
    /// stands, the card header is read at absolute offset 0x1100.
    ///
    /// No crypto is performed. On success the stream stands at the first
    /// byte of the root partition's data section; on failure it stays where
    /// it was.
    pub fn parse(r: &mut Stream) -> (res: Result<Xci, Error>)
        ensures
            final(r).data@ == old(r).data@,
            match res {
                Ok(x) => xci_of(old(r).data@) == Ok::<XciView, Error>(x@) && final(r).pos
                    == x.root_partition.data_offset,
                Err(e) => xci_of(old(r).data@) == Err::<XciView, Error>(e) && final(r).pos
                    == old(r).pos,
            },
    {
        let start = r.position();
        let res = Self::decode(r);
        if res.is_err() {
            r.seek(start);
        }
        res
    }

    /// Does the work of [`parse`]; on failure the stream is left where the
    /// failure was met.
    fn decode(r: &mut Stream) -> (res: Result<Xci, Error>)
        ensures
            final(r).data@ == old(r).data@,
            match res {
                Ok(x) => xci_of(old(r).data@) == Ok::<XciView, Error>(x@) && final(r).pos
                    == x.root_partition.data_offset,
                Err(e) => xci_of(old(r).data@) == Err::<XciView, Error>(e),
            },
    {
        // Skip the key area and the RSA signature.
        r.seek(HEAD_OFFSET);
        magic(r, &HEAD_MAGIC)?;

        let _rom_start = le_u32(r)?;
        let _backup = le_u32(r)?;
        let _key_indices = u8(r)?;
        let rom_size = u8(r)?;
        let _version = u8(r)?;
        let _flags = u8(r)?;
        let package_id = le_u64(r)?;
        let _valid_end = le_u32(r)?;
        let _reserved = le_u32(r)?;
        let _iv = bytesa::<0x10>(r)?;
        let hfs0_offset = le_u64(r)?;
        let hfs0_size = le_u64(r)?;
        let hfs0_header_hash = bytesa::<0x20>(r)?;

        r.seek(hfs0_offset);
        let root_partition = Hfs0::parse(r)?;

        Ok(Xci { hfs0_offset, hfs0_size, hfs0_header_hash, rom_size, package_id, root_partition })
    }

    /// Return the ROM capacity as a human-readable string.
    pub fn rom_capacity(&self) -> (s: &'static str)
        ensures
            s == capacity_label(self.rom_size),
    {
        match self.rom_size {
            0xFA => "1 GB",
            0xF8 => "2 GB",
            0xF0 => "4 GB",
            0xE0 => "8 GB",
            0xE1 => "16 GB",
            0xE2 => "32 GB",
            _ => "unknown",
        }
    }
}

} // verus!
