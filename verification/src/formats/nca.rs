//! NCA (Nintendo Content Archive) - primary encrypted content container.
//!
//! The first 0xC00 bytes of an NCA are AES-128-XTS encrypted. This parser
//! expects **already-decrypted** bytes; decryption is the caller's job (see
//! [`crate::crypto::nca`]).
//!
//! ## Header layout (offsets from the start of the decrypted NCA)
//! ```text
//! [0x000] RSA-2048 sig[0]  (0x100)
//! [0x100] RSA-2048 sig[1]  (0x100)
//! [0x200] Magic            NCA3/NCA2/NCA1/NCA0
//! [0x204] DistributionType (1 byte)
//! [0x205] ContentType      (1 byte)
//! [0x206] KeyGenerationOld (1 byte)
//! [0x207] KeyAreaEncKeyIdx (1 byte)
//! [0x208] ContentSize      (u64 LE)
//! [0x210] ProgramId        (u64 LE)
//! [0x218] ContentIndex     (u32 LE)
//! [0x21C] SdkAddonVersion  (u32 LE)
//! [0x220] KeyGeneration    (1 byte)
//! [0x221] SignatureKeyGen  (1 byte)
//! [0x222] Reserved         (0xE bytes)
//! [0x230] RightsId         (0x10 bytes)
//! [0x240] FsEntries        (4 x 0x10 bytes)
//! [0x280] FsHeaderHashes   (4 x 0x20 bytes SHA-256)
//! [0x300] EncryptedKeyArea (4 x 0x10 bytes)
//! ```

use vstd::prelude::*;
use vstd::std_specs::convert::FromSpec;
use crate::error::Error;
use crate::stream::Stream;
use crate::utils::{bytesa, le_u32, le_u32_at, le_u64, le_u64_at, u8};

verus! {

/// Distribution type for an NCA.
#[derive(Debug, Clone, Copy, PartialEq, Eq, Structural)]
pub enum DistributionType {
    Download,
    GameCard,
    Unknown(u8),
}

impl From<u8> for DistributionType {
    fn from(v: u8) -> (r: Self) {
        match v {
            0 => Self::Download,
            1 => Self::GameCard,
            x => Self::Unknown(x),
        }
    }
}

impl vstd::std_specs::convert::FromSpecImpl<u8> for DistributionType {
    open spec fn obeys_from_spec() -> bool {
        true
    }

    open spec fn from_spec(v: u8) -> Self {
        match v {
            0 => Self::Download,
            1 => Self::GameCard,
            x => Self::Unknown(x),
        }
    }
}

/// Content type for an NCA.
#[derive(Debug, Clone, Copy, PartialEq, Eq, Structural)]
pub enum ContentType {
    Program,
    Meta,
    Control,
    Manual,
    Data,
    PublicData,
    Unknown(u8),
}

impl From<u8> for ContentType {
    fn from(v: u8) -> (r: Self) {
        match v {
            0 => Self::Program,
            1 => Self::Meta,
            2 => Self::Control,
            3 => Self::Manual,
            4 => Self::Data,
            5 => Self::PublicData,
            x => Self::Unknown(x),
        }
    }
}

impl vstd::std_specs::convert::FromSpecImpl<u8> for ContentType {
    open spec fn obeys_from_spec() -> bool {
        true
    }

    open spec fn from_spec(v: u8) -> Self {
        match v {
            0 => Self::Program,
            1 => Self::Meta,
            2 => Self::Control,
            3 => Self::Manual,
            4 => Self::Data,
            5 => Self::PublicData,
            x => Self::Unknown(x),
        }
    }
}

/// A section entry pointing to a filesystem region within the NCA.
///
/// Offsets are in 0x200-byte media blocks.
#[derive(Debug, Clone, Copy, PartialEq, Eq, Structural)]
pub struct FsEntry {
    /// Start offset in media blocks (multiply by 0x200 for bytes).
    pub start_block: u32,
    /// End offset in media blocks.
    pub end_block: u32,
}

/// Parsed NCA header (from decrypted bytes).
#[derive(Debug)]
pub struct Nca {
    /// NCA format version: 0, 1, 2, or 3.
    pub version: u8,
    pub distribution_type: DistributionType,
    pub content_type: ContentType,
    /// Effective key generation (max of KeyGenerationOld and KeyGeneration).
    pub key_generation: u8,
    /// Key area encryption key index (0=App, 1=Ocean, 2=System).
    pub key_area_enc_key_index: u8,
    /// Total content size in bytes.
    pub content_size: u64,
    /// Title/program ID.
    pub program_id: u64,
    pub content_index: u32,
    pub sdk_addon_version: u32,
    /// Rights ID (all zeros if no titlekey crypto).
    pub rights_id: [u8; 16],
    /// Up to 4 filesystem section descriptors.
    pub fs_entries: [FsEntry; 4],
    /// SHA-256 hashes of the FsHeaders for each section.
    pub fs_header_hashes: [[u8; 32]; 4],
    /// Encrypted key area (4 x 16 bytes; used when rights_id is all zeros).
    pub encrypted_key_area: [[u8; 16]; 4],
}

/// Size of a media block in bytes.
pub const MEDIA_BLOCK: u64 = 0x200;

/// The version digit of a four-byte NCA magic, if it is one.
pub open spec fn magic_version(m: Seq<u8>) -> Option<u8> {
    if m.len() == 4 && m[0] == 0x4E && m[1] == 0x43 && m[2] == 0x41 && 0x30 <= m[3] <= 0x33 {
        Some((m[3] - 0x30) as u8)
    } else {
        None
    }
}

/// Why the bytes `b` do not hold a parsable NCA header at offset `p`, if
/// they do not.
pub open spec fn nca_error(b: Seq<u8>, p: int) -> Option<Error> {
    if p + 0x200 > u64::MAX {
        Some(Error::InvalidRange)
    } else if b.len() < p + 0x204 {
        Some(Error::UnexpectedEof)
    } else if magic_version(b.subrange(p + 0x200, p + 0x204)) is None {
        Some(Error::BadMagic)
    } else if b.len() < p + 0x340 {
        Some(Error::UnexpectedEof)
    } else {
        None
    }
}

/// Whether `n` holds exactly the fields of the NCA header found at offset
/// `p` of `b`.
pub open spec fn nca_fields(n: Nca, b: Seq<u8>, p: int) -> bool {
    &&& Some(n.version) == magic_version(b.subrange(p + 0x200, p + 0x204))
    &&& n.distribution_type == DistributionType::from_spec(b[p + 0x204])
    &&& n.content_type == ContentType::from_spec(b[p + 0x205])
    &&& n.key_generation == if b[p + 0x206] >= b[p + 0x220] {
        b[p + 0x206]
    } else {
        b[p + 0x220]
    }
    &&& n.key_area_enc_key_index == b[p + 0x207]
    &&& n.content_size == le_u64_at(b, p + 0x208)
    &&& n.program_id == le_u64_at(b, p + 0x210)
    &&& n.content_index == le_u32_at(b, p + 0x218)
    &&& n.sdk_addon_version == le_u32_at(b, p + 0x21C)
    &&& n.rights_id@ == b.subrange(p + 0x230, p + 0x240)
    &&& forall|i: int|
        0 <= i < 4 ==> (#[trigger] n.fs_entries[i]) == (FsEntry {
            start_block: le_u32_at(b, p + 0x240 + 0x10 * i),
            end_block: le_u32_at(b, p + 0x244 + 0x10 * i),
        })
    &&& forall|i: int|
        0 <= i < 4 ==> (#[trigger] n.fs_header_hashes[i])@ == b.subrange(
            p + 0x280 + 0x20 * i,
            p + 0x2A0 + 0x20 * i,
        )
    &&& forall|i: int|
        0 <= i < 4 ==> (#[trigger] n.encrypted_key_area[i])@ == b.subrange(
            p + 0x300 + 0x10 * i,
            p + 0x310 + 0x10 * i,
        )
}

impl Nca {
    /// Parse an NCA header from a stream over **already-decrypted** NCA
    /// bytes, positioned at the start of the NCA (before the first RSA
    /// signature).
    ///
    /// On success the stream stands just past the encrypted key area, at
    /// offset 0x340 of the NCA; on failure it stays where it was.
    pub fn parse(r: &mut Stream) -> (res: Result<Nca, Error>)
        ensures
            final(r).data@ == old(r).data@,
            match res {
                Ok(n) => nca_error(old(r).data@, old(r).pos as int) is None && nca_fields(
                    n,
                    old(r).data@,
                    old(r).pos as int,
                ) && final(r).pos == old(r).pos + 0x340,
                Err(e) => nca_error(old(r).data@, old(r).pos as int) == Some(e) && final(r).pos
                    == old(r).pos,
            },
    {
        let start = r.position();
        let res = Self::decode(r);
        if res.is_err() {
            r.seek(start);
        }
        res
    }

    /// Does the work of [`parse`]; on failure the stream is left where the
    /// failure was met.
    fn decode(r: &mut Stream) -> (res: Result<Nca, Error>)
        ensures
            final(r).data@ == old(r).data@,
            match res {
                Ok(n) => nca_error(old(r).data@, old(r).pos as int) is None && nca_fields(
                    n,
                    old(r).data@,
                    old(r).pos as int,
                ) && final(r).pos == old(r).pos + 0x340,
                Err(e) => nca_error(old(r).data@, old(r).pos as int) == Some(e),
            },
    {
        let ghost b = r.data@;
        let ghost p = r.pos as int;
        // Skip the two RSA-2048 signatures.
        r.skip(0x200)?;

        let magic = bytesa::<4>(r)?;
        if magic[0] != 0x4E || magic[1] != 0x43 || magic[2] != 0x41 || magic[3] < 0x30 || magic[3]
            > 0x33 {
            return Err(Error::BadMagic);
        }
        let version: u8 = magic[3] - 0x30;

        let distribution_type = DistributionType::from(u8(r)?);
        let content_type = ContentType::from(u8(r)?);
        let key_gen_old = u8(r)?;
        let key_area_enc_key_index = u8(r)?;
        let content_size = le_u64(r)?;
        let program_id = le_u64(r)?;
        let content_index = le_u32(r)?;
        let sdk_addon_version = le_u32(r)?;
        let key_gen_new = u8(r)?;
        let _sig_key_gen = u8(r)?;
        let _reserved = bytesa::<0xE>(r)?;

        // Effective key generation: whichever is newer.
        let key_generation = if key_gen_old >= key_gen_new {
            key_gen_old
        } else {
            key_gen_new
        };

        let rights_id = bytesa::<0x10>(r)?;

        let mut fs_entries = [FsEntry { start_block: 0, end_block: 0 };4];
        let mut i: usize = 0;
        while i < 4
            invariant
                i <= 4,
                r.data@ == b,
                r.pos <= b.len(),
                b == old(r).data@,
                p == old(r).pos,
                r.pos == p + 0x240 + 0x10 * i,
                nca_error(b, p) == Some(Error::UnexpectedEof) || nca_error(b, p) is None,
                forall|j: int|
                    0 <= j < i ==> (#[trigger] fs_entries[j]) == (FsEntry {
                        start_block: le_u32_at(b, p + 0x240 + 0x10 * j),
                        end_block: le_u32_at(b, p + 0x244 + 0x10 * j),
                    }),
            decreases 4 - i,
        {
            let start_block = le_u32(r)?;
            let end_block = le_u32(r)?;
            let _reserved = le_u64(r)?;
            fs_entries[i] = FsEntry { start_block, end_block };
            i += 1;
        }

        let mut fs_header_hashes = [[0u8;0x20];4];
        let mut i: usize = 0;
        while i < 4
            invariant
                i <= 4,
                r.data@ == b,
                r.pos <= b.len(),
                b == old(r).data@,
                p == old(r).pos,
                r.pos == p + 0x280 + 0x20 * i,
                nca_error(b, p) == Some(Error::UnexpectedEof) || nca_error(b, p) is None,
                forall|j: int|
                    0 <= j < i ==> (#[trigger] fs_header_hashes[j])@ == b.subrange(
                        p + 0x280 + 0x20 * j,
                        p + 0x2A0 + 0x20 * j,
                    ),
            decreases 4 - i,
        {
            let hash = bytesa::<0x20>(r)?;
            fs_header_hashes[i] = hash;
            i += 1;
        }

        let mut encrypted_key_area = [[0u8;0x10];4];
        let mut i: usize = 0;
        while i < 4
            invariant
                i <= 4,
                r.data@ == b,
                r.pos <= b.len(),
                b == old(r).data@,
                p == old(r).pos,
                r.pos == p + 0x300 + 0x10 * i,
                nca_error(b, p) == Some(Error::UnexpectedEof) || nca_error(b, p) is None,
                forall|j: int|
                    0 <= j < i ==> (#[trigger] encrypted_key_area[j])@ == b.subrange(
                        p + 0x300 + 0x10 * j,
                        p + 0x310 + 0x10 * j,
                    ),
            decreases 4 - i,
        {
            let key = bytesa::<0x10>(r)?;
            encrypted_key_area[i] = key;
            i += 1;
        }

        Ok(
            Nca {
                version,
                distribution_type,
                content_type,
                key_generation,
                key_area_enc_key_index,
                content_size,
                program_id,
                content_index,
                sdk_addon_version,
                rights_id,
                fs_entries,
                fs_header_hashes,
                encrypted_key_area,
            },
        )
    }

    /// Returns true if the NCA uses titlekey crypto, that is, if some byte
    /// of the rights ID is not zero.
    pub fn uses_titlekey_crypto(&self) -> (r: bool)
        ensures
            r == exists|i: int| 0 <= i < 16 && self.rights_id[i] != 0,
    {
        let mut i: usize = 0;
        while i < 16
            invariant
                i <= 16,
                forall|j: int| 0 <= j < i ==> self.rights_id[j] == 0,
            decreases 16 - i,
        {
            if self.rights_id[i] != 0 {
                return true;
            }
            i += 1;
        }
        false
    }

    /// Returns the byte offset within the NCA of the given section, or
    /// `None` when there is no such section: `section` is not below 4, or
    /// both block fields of its entry are zero.
    pub fn section_offset(&self, section: usize) -> (r: Option<u64>)
        ensures
            r == if section < 4 && !(self.fs_entries[section as int].start_block == 0
                && self.fs_entries[section as int].end_block == 0) {
                Some((self.fs_entries[section as int].start_block * MEDIA_BLOCK) as u64)
            } else {
                None
            },
    {
        if section >= 4 {
            return None;
        }
        let e = self.fs_entries[section];
        if e.start_block == 0 && e.end_block == 0 {
            None
        } else {
            Some(e.start_block as u64 * MEDIA_BLOCK)
        }
    }
}

} // verus!
