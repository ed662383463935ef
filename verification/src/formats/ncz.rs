//! NCZ - Zstandard-compressed NCA sections (used inside NSZ archives).
//!
//! An NSZ file is an NSP (PFS0) whose NCA entries have been compressed and
//! renamed from `.nca` to `.ncz`.
//!
//! ## NCZ layout
//! ```text
//! [0x000]          Standard NCA header (0x400 bytes, still encrypted)
//! [0x400]          Magic "NCZSECTN"                    (8 bytes)
//! [0x408]          SectionCount                        (u64 LE)
//! [0x410 + N x 0x38] Section descriptors               (N x 0x38 bytes)
//! [...]            Zstandard-compressed data blocks
//! ```
//!
//! Each block starts with a `u32 LE` giving the compressed byte length,
//! followed by that many bytes of Zstd-compressed data.
//!
//! ## Section descriptor (0x38 bytes)
//! ```text
//! [0x00] Offset      - within the plaintext NCA (u64 LE)
//! [0x08] Size        - decompressed (u64 LE)
//! [0x10] CryptoType  (u8)
//! [0x11] Reserved    (7 bytes)
//! [0x18] CryptoKey   (16 bytes)
//! [0x28] CryptoCounter (16 bytes)
//! ```

use vstd::prelude::*;
use crate::error::Error;
use crate::stream::Stream;
use crate::utils::{bytesa, bytesv, le_u32, le_u32_at, le_u64, le_u64_at, magic, u8};

verus! {

/// The bytes `NCZSECTN`.
pub const NCZ_MAGIC: [u8; 8] = [0x4E, 0x43, 0x5A, 0x53, 0x45, 0x43, 0x54, 0x4E];

/// Size of one section descriptor in bytes.
pub const SECTION_SIZE: u64 = 0x38;

/// Descriptor for one NCA section within an NCZ file.
#[derive(Debug, Clone)]
pub struct NczSection {
    /// Byte offset of this section within the plaintext NCA.
    pub offset: u64,
    /// Decompressed size in bytes.
    pub size: u64,
    /// Encryption type identifier.
    pub crypto_type: u8,
    /// AES key for this section.
    pub crypto_key: [u8; 16],
    /// AES counter for this section.
    pub crypto_counter: [u8; 16],
}

/// Parsed NCZ header (the part after the standard NCA header).
#[derive(Debug)]
pub struct NczHeader {
    /// Section descriptors describing each encrypted/compressed region.
    pub sections: Vec<NczSection>,
    /// Absolute byte offset (within the NCZ stream) where the compressed
    /// data blocks begin.
    pub blocks_offset: u64,
}

/// Mathematical value of an [`NczSection`].
pub struct NczSectionView {
    pub offset: u64,
    pub size: u64,
    pub crypto_type: u8,
    pub crypto_key: Seq<u8>,
    pub crypto_counter: Seq<u8>,
}

/// Mathematical value of an [`NczHeader`].
pub struct NczHeaderView {
    pub sections: Seq<NczSectionView>,
    pub blocks_offset: u64,
}

impl View for NczSection {
    type V = NczSectionView;

    open spec fn view(&self) -> NczSectionView {
        NczSectionView {
            offset: self.offset,
            size: self.size,
            crypto_type: self.crypto_type,
            crypto_key: self.crypto_key@,
            crypto_counter: self.crypto_counter@,
        }
    }
}

/// The values of a list of section descriptors.
pub open spec fn section_views(sections: Seq<NczSection>) -> Seq<NczSectionView> {
    Seq::new(sections.len(), |i: int| sections[i]@)
}

impl View for NczHeader {
    type V = NczHeaderView;

    open spec fn view(&self) -> NczHeaderView {
        NczHeaderView {
            sections: section_views(self.sections@),
            blocks_offset: self.blocks_offset,
        }
    }
}

/// Offset of the descriptor with index `i` of the header at offset `p`.
pub open spec fn section_at(p: int, i: int) -> int {
    p + 0x10 + SECTION_SIZE * i
}

/// The descriptor with index `i` of the header at offset `p` of `b`.
pub open spec fn ncz_section(b: Seq<u8>, p: int, i: int) -> NczSectionView {
    let s = section_at(p, i);
    NczSectionView {
        offset: le_u64_at(b, s),
        size: le_u64_at(b, s + 8),
        crypto_type: b[s + 0x10],
        crypto_key: b.subrange(s + 0x18, s + 0x28),
        crypto_counter: b.subrange(s + 0x28, s + 0x38),
    }
}

/// What parsing the bytes at offset `p` of `b` as an NCZ section header
/// yields. The blocks begin right after the last descriptor.
pub open spec fn ncz_at(b: Seq<u8>, p: int) -> Result<NczHeaderView, Error> {
    let count = le_u64_at(b, p + 8) as int;
    if b.len() < p + 8 {
        Err(Error::UnexpectedEof)
    } else if b.subrange(p, p + 8) != NCZ_MAGIC@ {
        Err(Error::BadMagic)
    } else if b.len() < p + 0x10 || b.len() < section_at(p, count) {
        Err(Error::UnexpectedEof)
    } else {
        Ok(
            NczHeaderView {
                sections: Seq::new(count as nat, |i: int| ncz_section(b, p, i)),
                blocks_offset: section_at(p, count) as u64,
            },
        )
    }
}

/// The compressed blocks stored from offset `q` of `b` on.
///
/// The enumeration ends, without error, where fewer than four bytes are
/// left or where a length of zero is found; a block that the stream cannot
/// deliver in full is an error.
pub open spec fn blocks_from(b: Seq<u8>, q: int) -> Result<Seq<Seq<u8>>, Error>
    decreases b.len() - q,
{
    let n = le_u32_at(b, q);
    if q < 0 || q + 4 > b.len() || n == 0 {
        Ok(Seq::empty())
    } else if q + 4 + n > b.len() {
        Err(Error::UnexpectedEof)
    } else {
        match blocks_from(b, q + 4 + n) {
            Err(e) => Err(e),
            Ok(rest) => Ok(seq![b.subrange(q + 4, q + 4 + n)] + rest),
        }
    }
}

/// Where the enumeration of the blocks stored from offset `q` of `b` on
/// stops: where fewer than four bytes are left, or just past a length of
/// zero.
pub open spec fn blocks_end(b: Seq<u8>, q: int) -> int
    decreases b.len() - q,
{
    let n = le_u32_at(b, q);
    if q < 0 || q + 4 > b.len() {
        q
    } else if n == 0 {
        q + 4
    } else if q + 4 + n > b.len() {
        q
    } else {
        blocks_end(b, q + 4 + n)
    }
}

/// The contents of a list of byte buffers.
pub open spec fn block_views(blocks: Seq<Vec<u8>>) -> Seq<Seq<u8>> {
    Seq::new(blocks.len(), |i: int| blocks[i]@)
}

impl NczHeader {
    /// Parse the NCZ-specific header from `r`, which must stand right after
    /// the 0x400-byte NCA header, at the `NCZSECTN` magic.
    ///
    /// On success the stream stands at the first compressed block; on
    /// failure it stays where it was.
    pub fn parse(r: &mut Stream) -> (res: Result<NczHeader, Error>)
        ensures
            final(r).data@ == old(r).data@,
            match res {
                Ok(h) => ncz_at(old(r).data@, old(r).pos as int) == Ok::<NczHeaderView, Error>(
                    h@,
                ) && final(r).pos == h.blocks_offset,
                Err(e) => ncz_at(old(r).data@, old(r).pos as int) == Err::<NczHeaderView, Error>(
                    e,
                ) && final(r).pos == old(r).pos,
            },
    {
        let start = r.position();
        let res = Self::decode(r);
        if res.is_err() {
            r.seek(start);
        }
        res
    }

    /// Does the work of [`parse`]; on failure the stream is left where the
    /// failure was met.
    fn decode(r: &mut Stream) -> (res: Result<NczHeader, Error>)
        ensures
            final(r).data@ == old(r).data@,
            match res {
                Ok(h) => ncz_at(old(r).data@, old(r).pos as int) == Ok::<NczHeaderView, Error>(
                    h@,
                ) && final(r).pos == h.blocks_offset,
                Err(e) => ncz_at(old(r).data@, old(r).pos as int) == Err::<NczHeaderView, Error>(
                    e,
                ),
            },
    {
        let ghost b = r.data@;
        let ghost p = r.pos as int;
        magic(r, &NCZ_MAGIC)?;

        let section_count = le_u64(r)?;
        let mut sections: Vec<NczSection> = Vec::new();
        let mut i: u64 = 0;
        while i < section_count
            invariant
                r.data@ == b,
                b == old(r).data@,
                p == old(r).pos,
                i <= section_count,
                section_count == le_u64_at(b, p + 8),
                r.pos == section_at(p, i as int),
                r.pos <= b.len(),
                sections@.len() == i,
                forall|j: int| 0 <= j < i ==> (#[trigger] sections@[j])@ == ncz_section(b, p, j),
                b.len() < section_at(p, section_count as int) ==> ncz_at(b, p) == Err::<
                    NczHeaderView,
                    Error,
                >(Error::UnexpectedEof),
            decreases section_count - i,
        {
            let offset = le_u64(r)?;
            let size = le_u64(r)?;
            let crypto_type = u8(r)?;
            let _reserved = bytesa::<7>(r)?;
            let crypto_key = bytesa::<16>(r)?;
            let crypto_counter = bytesa::<16>(r)?;
            sections.push(NczSection { offset, size, crypto_type, crypto_key, crypto_counter });
            i += 1;
        }

        let blocks_offset = r.position();
        assert(section_views(sections@) =~= Seq::new(
            section_count as nat,
            |i: int| ncz_section(b, p, i),
        ));
        Ok(NczHeader { sections, blocks_offset })
    }
}

/// Read all Zstandard-compressed blocks of an NCZ stream, starting at
/// `header.blocks_offset`.
///
/// Returns the raw compressed payloads in order; callers decompress them
/// individually. On success the stream stands where the enumeration
/// stopped; on failure it stays where it was.
pub fn read_compressed_blocks(r: &mut Stream, header: &NczHeader) -> (res: Result<
    Vec<Vec<u8>>,
    Error,
>)
    ensures
        final(r).data@ == old(r).data@,
        match res {
            Ok(blocks) => blocks_from(old(r).data@, header.blocks_offset as int) == Ok::<
                Seq<Seq<u8>>,
                Error,
            >(block_views(blocks@)) && final(r).pos == blocks_end(
                old(r).data@,
                header.blocks_offset as int,
            ),
            Err(e) => blocks_from(old(r).data@, header.blocks_offset as int) == Err::<
                Seq<Seq<u8>>,
                Error,
            >(e) && final(r).pos == old(r).pos,
        },
{
    let start = r.position();
    let res = enumerate_blocks(r, header);
    if res.is_err() {
        r.seek(start);
    }
    res
}

/// Does the work of [`read_compressed_blocks`]; on failure the stream is left where the
/// failure was met.
fn enumerate_blocks(r: &mut Stream, header: &NczHeader) -> (res: Result<
    Vec<Vec<u8>>,
    Error,
>)
    ensures
        final(r).data@ == old(r).data@,
        match res {
            Ok(blocks) => blocks_from(old(r).data@, header.blocks_offset as int) == Ok::<
                Seq<Seq<u8>>,
                Error,
            >(block_views(blocks@)) && final(r).pos == blocks_end(
                old(r).data@,
                header.blocks_offset as int,
            ),
            Err(e) => blocks_from(old(r).data@, header.blocks_offset as int) == Err::<
                Seq<Seq<u8>>,
                Error,
            >(e),
        },
{
    let ghost b = r.data@;
    let ghost start = header.blocks_offset as int;
    r.seek(header.blocks_offset);
    let mut blocks: Vec<Vec<u8>> = Vec::new();
    assert(block_views(blocks@) =~= Seq::empty());
    assert(Seq::<Seq<u8>>::empty() + blocks_from(b, start)->Ok_0 =~= blocks_from(b, start)->Ok_0);
    loop
        invariant_except_break
            start <= r.pos,
            blocks_from(b, start) == match blocks_from(b, r.pos as int) {
                Err(e) => Err::<Seq<Seq<u8>>, Error>(e),
                Ok(rest) => Ok(block_views(blocks@) + rest),
            },
            blocks_from(b, start) is Ok ==> blocks_end(b, start) == blocks_end(b, r.pos as int),
        invariant
            r.data@ == b,
            b == old(r).data@,
            start == header.blocks_offset,
        ensures
            blocks_from(b, start) == Ok::<Seq<Seq<u8>>, Error>(block_views(blocks@)),
            r.pos == blocks_end(b, start),
        decreases b.len() - r.pos,
    {
        let ghost before = block_views(blocks@);
        let ghost q = r.pos as int;
        // A stream that cannot deliver a whole length field has ended.
        if r.remaining() < 4 {
            assert(before + Seq::<Seq<u8>>::empty() =~= before);
            break ;
        }
        let compressed_size = le_u32(r)?;
        if compressed_size == 0 {
            assert(before + Seq::<Seq<u8>>::empty() =~= before);
            break ;
        }
        let block = bytesv(r, compressed_size as usize)?;
        blocks.push(block);
        proof {
            let one = b.subrange(q + 4, q + 4 + compressed_size);
            assert(block_views(blocks@) =~= before.push(one));
            match blocks_from(b, r.pos as int) {
                Ok(rest) => {
                    assert(before + (seq![one] + rest) =~= before.push(one) + rest);
                },
                Err(_) => {},
            }
        }
    }
    Ok(blocks)
}

} // verus!
