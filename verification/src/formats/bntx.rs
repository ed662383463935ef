//! BNTX (Binary NX Texture) - Nintendo Switch texture container.
//!
//! Contains one or more GPU textures. The parser follows the absolute
//! pointers stored in the file and does **not** process the relocation
//! table, which is sufficient for read-only inspection.
//!
//! ## Layout
//! ```text
//! [0x00] BNTX header  (0x20 bytes)
//! [0x20] NX section   (0x28 bytes)
//! [InfoPtrsOffset]
//!        Array of u64 pointers to BRTI blocks (TextureCount entries)
//! [...]  BRTI blocks  (one per texture)
//! [...]  String pool, data blocks, relocation table
//! ```
//!
//! ## BNTX header
//! ```text
//! [0x00] Magic "BNTX"                       (4 bytes)
//! [0x10] BOM (0xFEFF=BE, 0xFFFE=LE)         (u16 LE)
//! ```
//!
//! ## NX section (at 0x20)
//! ```text
//! [0x00] Magic "NX  "                        (4 bytes)
//! [0x04] TextureCount                        (u32 LE)
//! [0x08] InfoPtrsOffset (abs ptr)            (u64 LE)
//! [0x10] DataBlkOffset  (abs ptr)            (u64 LE)
//! [0x18] DictOffset     (abs ptr)            (u64 LE)
//! [0x20] StrDictOffset                       (u32 LE)
//! ```
//!
//! ## BRTI (texture info, per texture)
//! ```text
//! [0x00] Magic "BRTI"                       (4 bytes)
//! [0x08] DataLength                         (u64 LE)
//! [0x16] MipmapCount                        (u16 LE)
//! [0x1C] Format                             (u32 LE)
//! [0x24] Width                              (u32 LE)
//! [0x28] Height                             (u32 LE)
//! [0x2C] Depth                              (u32 LE)
//! [0x30] ArrayCount                         (u32 LE)
//! [0x4C] DataOffset (rel to DataBlkOffset)  (u32 LE)
//! [0x50] NameOffset (abs ptr)               (u64 LE)
//! ```
//!
//! Names are length-prefixed: a `u16 LE` byte count followed by that many
//! UTF-8 bytes (no null terminator).

use vstd::prelude::*;
use crate::error::Error;
use crate::stream::Stream;
use crate::utils::{
    bytesa, bytesv, le_u16, le_u16_at, le_u32, le_u32_at, le_u64, le_u64_at, lossy_string, magic,
    u8, utf8_lossy,
};

verus! {

/// The bytes `BNTX`.
pub const BNTX_MAGIC: [u8; 4] = [0x42, 0x4E, 0x54, 0x58];

/// The bytes `NX  `.
pub const NX_MAGIC: [u8; 4] = [0x4E, 0x58, 0x20, 0x20];

/// The bytes `BRTI`.
pub const BRTI_MAGIC: [u8; 4] = [0x42, 0x52, 0x54, 0x49];

/// Metadata for a single texture stored in a BNTX file.
#[derive(Debug, Clone)]
pub struct TextureInfo {
    /// Texture name (resolved from the string pool).
    pub name: String,
    /// Width in pixels.
    pub width: u32,
    /// Height in pixels.
    pub height: u32,
    /// Depth (for 3D textures) or face count (for cube maps).
    pub depth: u32,
    /// Number of array slices.
    pub array_count: u32,
    /// Number of mip levels.
    pub mipmap_count: u16,
    /// Raw format identifier.
    pub format: u32,
    /// Byte offset of GPU data relative to the BNTX data block start.
    pub data_offset_rel: u32,
    /// Total size of GPU data in bytes.
    pub data_length: u64,
}

/// Parsed BNTX texture container.
#[derive(Debug)]
pub struct Bntx {
    /// Number of textures.
    pub texture_count: u32,
    /// Metadata for each texture. GPU data is not loaded into memory.
    pub textures: Vec<TextureInfo>,
    /// Whether the file uses little-endian encoding.
    pub le: bool,
    /// Absolute offset of the GPU data block within the file.
    pub data_block_offset: u64,
}

/// Mathematical value of a [`TextureInfo`].
pub struct TextureInfoView {
    pub name: Seq<char>,
    pub width: u32,
    pub height: u32,
    pub depth: u32,
    pub array_count: u32,
    pub mipmap_count: u16,
    pub format: u32,
    pub data_offset_rel: u32,
    pub data_length: u64,
}

/// Mathematical value of a [`Bntx`].
pub struct BntxView {
    pub texture_count: u32,
    pub textures: Seq<TextureInfoView>,
    pub le: bool,
    pub data_block_offset: u64,
}

impl View for TextureInfo {
    type V = TextureInfoView;

    open spec fn view(&self) -> TextureInfoView {
        TextureInfoView {
            name: self.name@,
            width: self.width,
            height: self.height,
            depth: self.depth,
            array_count: self.array_count,
            mipmap_count: self.mipmap_count,
            format: self.format,
            data_offset_rel: self.data_offset_rel,
            data_length: self.data_length,
        }
    }
}

/// The values of a list of texture records.
pub open spec fn texture_views(textures: Seq<TextureInfo>) -> Seq<TextureInfoView> {
    Seq::new(textures.len(), |i: int| textures[i]@)
}

impl View for Bntx {
    type V = BntxView;

    open spec fn view(&self) -> BntxView {
        BntxView {
            texture_count: self.texture_count,
            textures: texture_views(self.textures@),
            le: self.le,
            data_block_offset: self.data_block_offset,
        }
    }
}

/// The length-prefixed name stored at absolute offset `ptr` of `b`.
pub open spec fn bntx_name_at(b: Seq<u8>, ptr: int) -> Result<Seq<char>, Error> {
    if b.len() < ptr + 2 || b.len() < ptr + 2 + le_u16_at(b, ptr) {
        Err(Error::UnexpectedEof)
    } else {
        Ok(utf8_lossy(b.subrange(ptr + 2, ptr + 2 + le_u16_at(b, ptr))))
    }
}

/// The texture record whose BRTI block starts at absolute offset `q` of `b`.
pub open spec fn brti_at(b: Seq<u8>, q: int) -> Result<TextureInfoView, Error> {
    if b.len() < q + 4 {
        Err(Error::UnexpectedEof)
    } else if b.subrange(q, q + 4) != BRTI_MAGIC@ {
        Err(Error::BadMagic)
    } else if b.len() < q + 0x68 {
        Err(Error::UnexpectedEof)
    } else {
        match bntx_name_at(b, le_u64_at(b, q + 0x50) as int) {
            Err(e) => Err(e),
            Ok(name) => Ok(
                TextureInfoView {
                    name,
                    width: le_u32_at(b, q + 0x24),
                    height: le_u32_at(b, q + 0x28),
                    depth: le_u32_at(b, q + 0x2C),
                    array_count: le_u32_at(b, q + 0x30),
                    mipmap_count: le_u16_at(b, q + 0x16),
                    format: le_u32_at(b, q + 0x1C),
                    data_offset_rel: le_u32_at(b, q + 0x4C),
                    data_length: le_u64_at(b, q + 0x08),
                },
            ),
        }
    }
}

/// Where the stream stands once the BRTI block at offset `q` of `b` is
/// parsed: just past the texture's name.
pub open spec fn brti_end(b: Seq<u8>, q: int) -> int {
    let name = le_u64_at(b, q + 0x50) as int;
    name + 2 + le_u16_at(b, name)
}

/// Where the stream stands once the BNTX at offset `p` of `b` is parsed:
/// just past the name of the last texture, or at the pointer table when
/// there is no texture.
pub open spec fn bntx_end(b: Seq<u8>, p: int) -> int {
    let count = le_u32_at(b, p + 0x24);
    let table = le_u64_at(b, p + 0x28) as int;
    if count == 0 {
        table
    } else {
        brti_end(b, le_u64_at(b, table + 8 * (count - 1)) as int)
    }
}

/// The first `n` texture records reached through the pointer table at
/// absolute offset `table` of `b`, or the error of the first record that has
/// one.
pub open spec fn bntx_textures(b: Seq<u8>, table: int, n: int) -> Result<
    Seq<TextureInfoView>,
    Error,
>
    decreases n,
{
    if n <= 0 {
        Ok(Seq::empty())
    } else {
        match bntx_textures(b, table, n - 1) {
            Err(e) => Err(e),
            Ok(ts) => match brti_at(b, le_u64_at(b, table + 8 * (n - 1)) as int) {
                Err(e) => Err(e),
                Ok(t) => Ok(ts.push(t)),
            },
        }
    }
}

/// Why the bytes at offset `p` of `b` are not a well-formed BNTX header
/// followed by an NX section, if they are not.
pub open spec fn bntx_header_error(b: Seq<u8>, p: int) -> Option<Error> {
    let bom = le_u16_at(b, p + 0x10);
    if b.len() < p + 4 {
        Some(Error::UnexpectedEof)
    } else if b.subrange(p, p + 4) != BNTX_MAGIC@ {
        Some(Error::BadMagic)
    } else if b.len() < p + 0x12 {
        Some(Error::UnexpectedEof)
    } else if bom != 0xFFFE && bom != 0xFEFF {
        Some(Error::Parse("invalid BNTX BOM"))
    } else if b.len() < p + 0x24 {
        Some(Error::UnexpectedEof)
    } else if b.subrange(p + 0x20, p + 0x24) != NX_MAGIC@ {
        Some(Error::BadMagic)
    } else if b.len() < p + 0x44 {
        Some(Error::UnexpectedEof)
    } else {
        None
    }
}

/// What parsing the bytes `b` as a BNTX whose header is at offset `p` yields.
pub open spec fn bntx_at(b: Seq<u8>, p: int) -> Result<BntxView, Error> {
    let count = le_u32_at(b, p + 0x24);
    let table = le_u64_at(b, p + 0x28) as int;
    match bntx_header_error(b, p) {
        Some(e) => Err(e),
        None => if count > 0 && b.len() < table + 8 * count {
            Err(Error::UnexpectedEof)
        } else {
            match bntx_textures(b, table, count as int) {
                Err(e) => Err(e),
                Ok(textures) => Ok(
                    BntxView {
                        texture_count: count,
                        textures,
                        le: le_u16_at(b, p + 0x10) == 0xFFFE,
                        data_block_offset: le_u64_at(b, p + 0x30),
                    },
                ),
            }
        },
    }
}

/// An error at record `k` is the error of every longer run of records.
pub proof fn lemma_textures_error(b: Seq<u8>, table: int, k: int, n: int)
    requires
        0 <= k < n,
        bntx_textures(b, table, k) is Ok,
        brti_at(b, le_u64_at(b, table + 8 * k) as int) is Err,
    ensures
        bntx_textures(b, table, n) == Err::<Seq<TextureInfoView>, Error>(
            brti_at(b, le_u64_at(b, table + 8 * k) as int)->Err_0,
        ),
    decreases n - k,
{
    if n > k + 1 {
        lemma_textures_error(b, table, k, n - 1);
    }
}

/// Read a length-prefixed string from the string pool.
///
/// `ptr` is the absolute byte offset of the `u16` length field. On success
/// the stream stands just past the name; on failure it stays where it was.
pub fn read_bntx_name(r: &mut Stream, ptr: u64) -> (res: Result<String, Error>)
    ensures
        final(r).data@ == old(r).data@,
        match res {
            Ok(s) => bntx_name_at(old(r).data@, ptr as int) == Ok::<Seq<char>, Error>(s@)
                && final(r).pos == ptr + 2 + le_u16_at(old(r).data@, ptr as int),
            Err(e) => bntx_name_at(old(r).data@, ptr as int) == Err::<Seq<char>, Error>(e)
                && final(r).pos == old(r).pos,
        },
{
    let start = r.position();
    let res = read_name_at(r, ptr);
    if res.is_err() {
        r.seek(start);
    }
    res
}

/// Does the work of [`read_bntx_name`]; on failure the stream is left where the
/// failure was met.
fn read_name_at(r: &mut Stream, ptr: u64) -> (res: Result<String, Error>)
    ensures
        final(r).data@ == old(r).data@,
        match res {
            Ok(s) => bntx_name_at(old(r).data@, ptr as int) == Ok::<Seq<char>, Error>(s@)
                && final(r).pos == ptr + 2 + le_u16_at(old(r).data@, ptr as int),
            Err(e) => bntx_name_at(old(r).data@, ptr as int) == Err::<Seq<char>, Error>(e),
        },
{
    r.seek(ptr);
    let len = le_u16(r)? as usize;
    let buf = bytesv(r, len)?;
    Ok(lossy_string(buf.as_slice()))
}

/// Parse the BRTI block at the current position of `r` and resolve the
/// texture's name through its absolute pointer. On success the stream stands
/// just past the name; on failure it stays where it was.
pub fn parse_brti(r: &mut Stream) -> (res: Result<TextureInfo, Error>)
    ensures
        final(r).data@ == old(r).data@,
        match res {
            Ok(t) => brti_at(old(r).data@, old(r).pos as int) == Ok::<TextureInfoView, Error>(
                t@,
            ) && final(r).pos == brti_end(old(r).data@, old(r).pos as int),
            Err(e) => brti_at(old(r).data@, old(r).pos as int) == Err::<TextureInfoView, Error>(
                e,
            ) && final(r).pos == old(r).pos,
        },
{
    let start = r.position();
    let res = decode_brti(r);
    if res.is_err() {
        r.seek(start);
    }
    res
}

/// Does the work of [`parse_brti`]; on failure the stream is left where the
/// failure was met.
fn decode_brti(r: &mut Stream) -> (res: Result<TextureInfo, Error>)
    ensures
        final(r).data@ == old(r).data@,
        match res {
            Ok(t) => brti_at(old(r).data@, old(r).pos as int) == Ok::<TextureInfoView, Error>(
                t@,
            ) && final(r).pos == brti_end(old(r).data@, old(r).pos as int),
            Err(e) => brti_at(old(r).data@, old(r).pos as int) == Err::<TextureInfoView, Error>(
                e,
            ),
        },
{
    magic(r, &BRTI_MAGIC)?;
    let _length = le_u32(r)?;
    let data_length = le_u64(r)?;
    let _flags = u8(r)?;
    let _dimensions = u8(r)?;
    let _tile_mode = le_u16(r)?;
    let _swizzle = le_u16(r)?;
    let mipmap_count = le_u16(r)?;
    let _ms_count = le_u16(r)?;
    let _reserved0 = le_u16(r)?;
    let format = le_u32(r)?;
    let _access_flags = le_u32(r)?;
    let width = le_u32(r)?;
    let height = le_u32(r)?;
    let depth = le_u32(r)?;
    let array_count = le_u32(r)?;
    let _block_height = le_u32(r)?;
    let _reserved1 = bytesa::<0x14>(r)?;
    let data_offset_rel = le_u32(r)?;
    let name_abs = le_u64(r)?;
    let _parent = le_u64(r)?;
    let _ptrs = le_u64(r)?;

    let name = read_bntx_name(r, name_abs)?;

    Ok(
        TextureInfo {
            name,
            width,
            height,
            depth,
            array_count,
            mipmap_count,
            format,
            data_offset_rel,
            data_length,
        },
    )
}

/// Parse the BNTX header and the NX section at the current position of `r`,
/// returning the byte order, the texture count, the offset of the pointer
/// table and the offset of the data block.
fn parse_header(r: &mut Stream) -> (res: Result<(bool, u32, u64, u64), Error>)
    ensures
        final(r).data@ == old(r).data@,
        match res {
            Ok((le, count, table, data)) => bntx_header_error(old(r).data@, old(r).pos as int)
                is None && le == (le_u16_at(old(r).data@, old(r).pos + 0x10) == 0xFFFE) && count
                == le_u32_at(old(r).data@, old(r).pos + 0x24) && table == le_u64_at(
                old(r).data@,
                old(r).pos + 0x28,
            ) && data == le_u64_at(old(r).data@, old(r).pos + 0x30) && final(r).pos == old(r).pos + 0x44,
            Err(e) => bntx_header_error(old(r).data@, old(r).pos as int) == Some(e),
        },
{
    magic(r, &BNTX_MAGIC)?;
    let _data_length = le_u32(r)?;
    let _version = le_u32(r)?;
    let _version_hi = le_u32(r)?;

    // The BOM is always stored little-endian, whatever the file's byte order.
    let bom = le_u16(r)?;
    let le = if bom == 0xFFFE {
        true
    } else if bom == 0xFEFF {
        false
    } else {
        return Err(Error::Parse("invalid BNTX BOM"));
    };
    let _format_revision = le_u16(r)?;
    let _name_offset = le_u32(r)?;
    let _string_pool_off = le_u16(r)?;
    let _reloc_table_off = le_u16(r)?;
    let _file_size = le_u32(r)?;

    magic(r, &NX_MAGIC)?;
    let texture_count = le_u32(r)?;
    let info_ptrs_offset = le_u64(r)?;
    let data_block_offset = le_u64(r)?;
    let _dict_offset = le_u64(r)?;
    let _str_dict_offset = le_u32(r)?;
    Ok((le, texture_count, info_ptrs_offset, data_block_offset))
}

impl Bntx {
    /// Parse a BNTX file from `r`.
    ///
    /// BNTX uses absolute internal pointers, so the stream must hold the
    /// file from its origin and stand at the `BNTX` magic. On success the
    /// stream stands just past the name of the last texture, or at the
    /// pointer table when there is no texture; on failure it stays where it
    /// was.
    pub fn parse(r: &mut Stream) -> (res: Result<Bntx, Error>)
        ensures
            final(r).data@ == old(r).data@,
            match res {
                Ok(x) => bntx_at(old(r).data@, old(r).pos as int) == Ok::<BntxView, Error>(x@)
                    && final(r).pos == bntx_end(old(r).data@, old(r).pos as int),
                Err(e) => bntx_at(old(r).data@, old(r).pos as int) == Err::<BntxView, Error>(e)
                    && final(r).pos == old(r).pos,
            },
    {
        let start = r.position();
        let res = Self::decode(r);
        if res.is_err() {
            r.seek(start);
        }
        res
    }

    /// Does the work of [`parse`]; on failure the stream is left where the
    /// failure was met.
    fn decode(r: &mut Stream) -> (res: Result<Bntx, Error>)
        ensures
            final(r).data@ == old(r).data@,
            match res {
                Ok(x) => bntx_at(old(r).data@, old(r).pos as int) == Ok::<BntxView, Error>(x@)
                    && final(r).pos == bntx_end(old(r).data@, old(r).pos as int),
                Err(e) => bntx_at(old(r).data@, old(r).pos as int) == Err::<BntxView, Error>(e),
            },
    {
        let ghost b = r.data@;
        let ghost p = r.pos as int;
        let (le, texture_count, info_ptrs_offset, data_block_offset) = parse_header(r)?;

        r.seek(info_ptrs_offset);
        let mut brti_offsets: Vec<u64> = Vec::new();
        let mut i: u32 = 0;
        while i < texture_count
            invariant
                r.data@ == b,
                b == old(r).data@,
                p == old(r).pos,
                i <= texture_count,
                r.pos == info_ptrs_offset + 8 * i,
                i > 0 ==> r.pos <= b.len(),
                brti_offsets@.len() == i,
                forall|j: int|
                    0 <= j < i ==> #[trigger] brti_offsets@[j] == le_u64_at(
                        b,
                        info_ptrs_offset + 8 * j,
                    ),
                texture_count > 0 && b.len() < info_ptrs_offset + 8 * texture_count ==> bntx_at(
                    b,
                    p,
                ) == Err::<BntxView, Error>(Error::UnexpectedEof),
            decreases texture_count - i,
        {
            let ptr = le_u64(r)?;
            brti_offsets.push(ptr);
            i += 1;
        }

        let mut textures: Vec<TextureInfo> = Vec::new();
        let mut k: usize = 0;
        assert(texture_views(textures@) =~= Seq::empty());
        while k < brti_offsets.len()
            invariant
                r.data@ == b,
                b == old(r).data@,
                p == old(r).pos,
                k <= brti_offsets@.len(),
                brti_offsets@.len() == texture_count,
                forall|j: int|
                    0 <= j < texture_count ==> #[trigger] brti_offsets@[j] == le_u64_at(
                        b,
                        info_ptrs_offset + 8 * j,
                    ),
                textures@.len() == k,
                texture_count == le_u32_at(b, p + 0x24),
                info_ptrs_offset == le_u64_at(b, p + 0x28),
                k == 0 ==> r.pos == if texture_count == 0 {
                    info_ptrs_offset as int
                } else {
                    info_ptrs_offset + 8 * texture_count
                },
                k > 0 ==> r.pos == brti_end(b, brti_offsets@[k - 1] as int),
                bntx_textures(b, info_ptrs_offset as int, k as int) == Ok::<
                    Seq<TextureInfoView>,
                    Error,
                >(texture_views(textures@)),
                bntx_textures(b, info_ptrs_offset as int, texture_count as int) is Err
                    ==> bntx_at(b, p) == Err::<BntxView, Error>(
                    bntx_textures(b, info_ptrs_offset as int, texture_count as int)->Err_0,
                ),
                bntx_textures(b, info_ptrs_offset as int, texture_count as int) is Ok
                    ==> bntx_at(b, p) == Ok::<BntxView, Error>(
                    BntxView {
                        texture_count,
                        textures: bntx_textures(
                            b,
                            info_ptrs_offset as int,
                            texture_count as int,
                        )->Ok_0,
                        le,
                        data_block_offset,
                    },
                ),
            decreases brti_offsets@.len() - k,
        {
            let ghost before = texture_views(textures@);
            r.seek(brti_offsets[k]);
            match parse_brti(r) {
                Err(e) => {
                    proof {
                        lemma_textures_error(
                            b,
                            info_ptrs_offset as int,
                            k as int,
                            texture_count as int,
                        );
                    }
                    return Err(e);
                },
                Ok(t) => {
                    textures.push(t);
                },
            }
            proof {
                assert(texture_views(textures@) =~= before.push(textures@[k as int]@));
            }
            k += 1;
        }

        Ok(Bntx { texture_count, textures, le, data_block_offset })
    }

    /// Return the absolute file offset of the GPU data for `tex`.
    pub fn texture_data_offset(&self, tex: &TextureInfo) -> (off: u64)
        requires
            self.data_block_offset + tex.data_offset_rel <= u64::MAX,
        ensures
            off == self.data_block_offset + tex.data_offset_rel,
    {
        self.data_block_offset + tex.data_offset_rel as u64
    }
}

} // verus!
