//! NPDM (Nintendo Program Descriptor Meta) - process security metadata.
//!
//! Found as `main.npdm` in the ExeFS section of a Program NCA.
//!
//! ## File layout
//! ```text
//! [0x00] Magic "META"                                   (4 bytes)
//! [0x0C] MMUFlags   (bit 0 = 64-bit mode)               (1 byte)
//! [0x0E] MainThreadPriority (0-63)                      (1 byte)
//! [0x0F] MainThreadCoreNumber                           (1 byte)
//! [0x14] SystemResourceSize                             (u32 LE)
//! [0x18] Version                                        (u32 LE)
//! [0x1C] MainThreadStackSize                            (u32 LE)
//! [0x20] TitleName (null-padded UTF-8, 16 bytes)
//! [0x30] ProductCode (null-padded, 16 bytes)
//! [0x70] AciOffset  (relative to start of NPDM file)    (u32 LE)
//! [0x78] AcidOffset (relative to start of NPDM file)    (u32 LE)
//! ```
//!
//! ## ACI0 - at AciOffset
//! ```text
//! [0x00] Magic "ACI0"          (4 bytes)
//! [0x10] ProgramId             (u64 LE)
//! ```
//!
//! ## ACID - at AcidOffset
//! ```text
//! [0x000] RSA-2048 signature   (0x100 bytes)
//! [0x100] RSA-2048 public key  (0x100 bytes)
//! [0x200] Magic "ACID"         (4 bytes)
//! [0x208] Flags                (u32 LE)
//! [0x210] ProgramIdMin         (u64 LE)
//! [0x218] ProgramIdMax         (u64 LE)
//! ```

use vstd::prelude::*;
use crate::error::Error;
use crate::stream::Stream;
use crate::utils::{
    bytesa, le_u32, le_u32_at, le_u64, le_u64_at, lossy_string, magic, nul_index, u8, utf8_lossy,
};

verus! {

/// The bytes `META`.
pub const META_MAGIC: [u8; 4] = [0x4D, 0x45, 0x54, 0x41];

/// The bytes `ACI0`.
pub const ACI0_MAGIC: [u8; 4] = [0x41, 0x43, 0x49, 0x30];

/// The bytes `ACID`.
pub const ACID_MAGIC: [u8; 4] = [0x41, 0x43, 0x49, 0x44];

/// ACI0 - per-title access control info.
#[derive(Debug)]
pub struct Aci0 {
    /// Program (title) ID for this build.
    pub program_id: u64,
}

/// ACID - signed access control descriptor.
#[derive(Debug)]
pub struct Acid {
    /// ACID flags field.
    pub flags: u32,
    /// Minimum allowed program ID for this descriptor.
    pub program_id_min: u64,
    /// Maximum allowed program ID for this descriptor.
    pub program_id_max: u64,
}

/// Parsed NPDM file.
#[derive(Debug)]
pub struct Npdm {
    /// Whether the process runs in 64-bit mode.
    pub is_64bit: bool,
    /// Priority of the main thread (0-63).
    pub main_thread_priority: u8,
    /// Core number the main thread starts on.
    pub main_thread_core: u8,
    /// System resource size in bytes.
    pub system_resource_size: u32,
    /// Version field from META header.
    pub version: u32,
    /// Main thread stack size in bytes.
    pub main_thread_stack_size: u32,
    /// Human-readable title name (up to 16 bytes, null-padded).
    pub title_name: String,
    /// Product code string (up to 16 bytes, null-padded).
    pub product_code: String,
    /// Access control info for this title.
    pub aci: Aci0,
    /// Access control descriptor, when present and well-formed.
    pub acid: Option<Acid>,
}

/// Mathematical value of an [`Npdm`].
pub struct NpdmView {
    pub is_64bit: bool,
    pub main_thread_priority: u8,
    pub main_thread_core: u8,
    pub system_resource_size: u32,
    pub version: u32,
    pub main_thread_stack_size: u32,
    pub title_name: Seq<char>,
    pub product_code: Seq<char>,
    pub aci: Aci0,
    pub acid: Option<Acid>,
}

impl View for Npdm {
    type V = NpdmView;

    open spec fn view(&self) -> NpdmView {
        NpdmView {
            is_64bit: self.is_64bit,
            main_thread_priority: self.main_thread_priority,
            main_thread_core: self.main_thread_core,
            system_resource_size: self.system_resource_size,
            version: self.version,
            main_thread_stack_size: self.main_thread_stack_size,
            title_name: self.title_name@,
            product_code: self.product_code@,
            aci: self.aci,
            acid: self.acid,
        }
    }
}

/// The text of a null-padded field: its bytes up to the first zero byte (all
/// of them when none is zero), decoded lossily.
pub open spec fn null_padded_text(buf: Seq<u8>) -> Seq<char> {
    utf8_lossy(buf.subrange(0, nul_index(buf, 0)))
}

/// Decode a null-padded field.
pub fn null_padded_string(buf: &[u8]) -> (s: String)
    ensures
        s@ == null_padded_text(buf@),
{
    let mut end: usize = 0;
    while end < buf.len() && buf[end] != 0
        invariant
            end <= buf@.len(),
            nul_index(buf@, 0) == nul_index(buf@, end as int),
        decreases buf@.len() - end,
    {
        end += 1;
    }
    lossy_string(vstd::slice::slice_subrange(buf, 0, end))
}

/// What parsing an ACI0 block at offset `q` of `b` yields.
pub open spec fn aci0_at(b: Seq<u8>, q: int) -> Result<Aci0, Error> {
    if b.len() < q + 4 {
        Err(Error::UnexpectedEof)
    } else if b.subrange(q, q + 4) != ACI0_MAGIC@ {
        Err(Error::BadMagic)
    } else if b.len() < q + 0x18 {
        Err(Error::UnexpectedEof)
    } else {
        Ok(Aci0 { program_id: le_u64_at(b, q + 0x10) })
    }
}

/// What parsing an ACID block at offset `q` of `b` yields.
pub open spec fn acid_at(b: Seq<u8>, q: int) -> Result<Acid, Error> {
    if b.len() < q + 0x204 {
        Err(Error::UnexpectedEof)
    } else if b.subrange(q + 0x200, q + 0x204) != ACID_MAGIC@ {
        Err(Error::BadMagic)
    } else if b.len() < q + 0x220 {
        Err(Error::UnexpectedEof)
    } else {
        Ok(
            Acid {
                flags: le_u32_at(b, q + 0x208),
                program_id_min: le_u64_at(b, q + 0x210),
                program_id_max: le_u64_at(b, q + 0x218),
            },
        )
    }
}

/// The ACID of the NPDM at offset `p` of `b`: absent when the ACID offset
/// is zero, when the block does not parse, or when its position does not
/// fit in 64 bits.
pub open spec fn npdm_acid(b: Seq<u8>, p: int) -> Option<Acid> {
    let off = le_u32_at(b, p + 0x78);
    if off == 0 || p + off > u64::MAX {
        None
    } else {
        match acid_at(b, p + off) {
            Ok(a) => Some(a),
            Err(_) => None,
        }
    }
}

/// What parsing the bytes `b` as an NPDM that starts at offset `p` yields.
pub open spec fn npdm_at(b: Seq<u8>, p: int) -> Result<NpdmView, Error> {
    let aci = p + le_u32_at(b, p + 0x70);
    if b.len() < p + 4 {
        Err(Error::UnexpectedEof)
    } else if b.subrange(p, p + 4) != META_MAGIC@ {
        Err(Error::BadMagic)
    } else if b.len() < p + 0x80 {
        Err(Error::UnexpectedEof)
    } else if aci > u64::MAX {
        Err(Error::InvalidRange)
    } else {
        match aci0_at(b, aci) {
            Err(e) => Err(e),
            Ok(aci) => Ok(
                NpdmView {
                    is_64bit: b[p + 0x0C] & 0x01 != 0,
                    main_thread_priority: b[p + 0x0E],
                    main_thread_core: b[p + 0x0F],
                    system_resource_size: le_u32_at(b, p + 0x14),
                    version: le_u32_at(b, p + 0x18),
                    main_thread_stack_size: le_u32_at(b, p + 0x1C),
                    title_name: null_padded_text(b.subrange(p + 0x20, p + 0x30)),
                    product_code: null_padded_text(b.subrange(p + 0x30, p + 0x40)),
                    aci,
                    acid: npdm_acid(b, p),
                },
            ),
        }
    }
}

impl Aci0 {
    /// Parse an ACI0 block at the current position of `r`. On success the
    /// stream stands just past the program ID; on failure it stays where it
    /// was.
    pub fn parse(r: &mut Stream) -> (res: Result<Aci0, Error>)
        ensures
            final(r).data@ == old(r).data@,
            match res {
                Ok(a) => aci0_at(old(r).data@, old(r).pos as int) == Ok::<Aci0, Error>(a)
                    && final(r).pos == old(r).pos + 0x18,
                Err(e) => aci0_at(old(r).data@, old(r).pos as int) == Err::<Aci0, Error>(e)
                    && final(r).pos == old(r).pos,
            },
    {
        let start = r.position();
        let res = Self::decode(r);
        if res.is_err() {
            r.seek(start);
        }
        res
    }

    /// Does the work of [`parse`]; on failure the stream is left where the
    /// failure was met.
    fn decode(r: &mut Stream) -> (res: Result<Aci0, Error>)
        ensures
            final(r).data@ == old(r).data@,
            match res {
                Ok(a) => aci0_at(old(r).data@, old(r).pos as int) == Ok::<Aci0, Error>(a)
                    && final(r).pos == old(r).pos + 0x18,
                Err(e) => aci0_at(old(r).data@, old(r).pos as int) == Err::<Aci0, Error>(e),
            },
    {
        magic(r, &ACI0_MAGIC)?;
        let _reserved = bytesa::<0xC>(r)?;
        let program_id = le_u64(r)?;
        Ok(Aci0 { program_id })
    }
}

impl Acid {
    /// Parse an ACID block at the current position of `r`. The RSA
    /// signature and public key that precede the magic are skipped. On
    /// success the stream stands just past the program ID range; on failure
    /// it stays where it was.
    pub fn parse(r: &mut Stream) -> (res: Result<Acid, Error>)
        ensures
            final(r).data@ == old(r).data@,
            match res {
                Ok(a) => acid_at(old(r).data@, old(r).pos as int) == Ok::<Acid, Error>(a)
                    && final(r).pos == old(r).pos + 0x220,
                Err(e) => acid_at(old(r).data@, old(r).pos as int) == Err::<Acid, Error>(e)
                    && final(r).pos == old(r).pos,
            },
    {
        let start = r.position();
        let res = Self::decode(r);
        if res.is_err() {
            r.seek(start);
        }
        res
    }

    /// Does the work of [`parse`]; on failure the stream is left where the
    /// failure was met.
    fn decode(r: &mut Stream) -> (res: Result<Acid, Error>)
        ensures
            final(r).data@ == old(r).data@,
            match res {
                Ok(a) => acid_at(old(r).data@, old(r).pos as int) == Ok::<Acid, Error>(a)
                    && final(r).pos == old(r).pos + 0x220,
                Err(e) => acid_at(old(r).data@, old(r).pos as int) == Err::<Acid, Error>(e),
            },
    {
        let _sig = bytesa::<0x100>(r)?;
        let _pubkey = bytesa::<0x100>(r)?;
        magic(r, &ACID_MAGIC)?;
        let _size = le_u32(r)?;
        let flags = le_u32(r)?;
        let _reserved = le_u32(r)?;
        let program_id_min = le_u64(r)?;
        let program_id_max = le_u64(r)?;
        Ok(Acid { flags, program_id_min, program_id_max })
    }
}

impl Npdm {
    /// Parse an NPDM file from `r`, which must stand at the `META` magic.
    ///
    /// A missing or malformed ACID is not an error: the descriptor then
    /// records no ACID. On success the stream stands just past the last
    /// block that was parsed, the ACID if there is one and the ACI0 if not;
    /// on failure it stays where it was.
    pub fn parse(r: &mut Stream) -> (res: Result<Npdm, Error>)
        ensures
            final(r).data@ == old(r).data@,
            match res {
                Ok(n) => npdm_at(old(r).data@, old(r).pos as int) == Ok::<NpdmView, Error>(n@)
                    && final(r).pos == old(r).pos + if n.acid is Some {
                    le_u32_at(old(r).data@, old(r).pos + 0x78) + 0x220
                } else {
                    le_u32_at(old(r).data@, old(r).pos + 0x70) + 0x18
                },
                Err(e) => npdm_at(old(r).data@, old(r).pos as int) == Err::<NpdmView, Error>(e)
                    && final(r).pos == old(r).pos,
            },
    {
        let start = r.position();
        let res = Self::decode(r);
        if res.is_err() {
            r.seek(start);
        }
        res
    }

    /// Does the work of [`parse`]; on failure the stream is left where the
    /// failure was met.
    fn decode(r: &mut Stream) -> (res: Result<Npdm, Error>)
        ensures
            final(r).data@ == old(r).data@,
            match res {
                Ok(n) => npdm_at(old(r).data@, old(r).pos as int) == Ok::<NpdmView, Error>(n@)
                    && final(r).pos == old(r).pos + if n.acid is Some {
                    le_u32_at(old(r).data@, old(r).pos + 0x78) + 0x220
                } else {
                    le_u32_at(old(r).data@, old(r).pos + 0x70) + 0x18
                },
                Err(e) => npdm_at(old(r).data@, old(r).pos as int) == Err::<NpdmView, Error>(e),
            },
    {
        let base = r.position();

        magic(r, &META_MAGIC)?;
        let _unknown = le_u32(r)?;
        let _reserved0 = le_u32(r)?;
        let mmu_flags = u8(r)?;
        let is_64bit = (mmu_flags & 0x01) != 0;
        let _reserved1 = u8(r)?;
        let main_thread_priority = u8(r)?;
        let main_thread_core = u8(r)?;
        let _reserved2 = le_u32(r)?;
        let system_resource_size = le_u32(r)?;
        let version = le_u32(r)?;
        let main_thread_stack_size = le_u32(r)?;

        let title_raw = bytesa::<0x10>(r)?;
        let title_name = null_padded_string(&title_raw);
        let pc_raw = bytesa::<0x10>(r)?;
        let product_code = null_padded_string(&pc_raw);
        let _reserved3 = bytesa::<0x30>(r)?;

        let aci_offset = le_u32(r)?;
        let _aci_size = le_u32(r)?;
        let acid_offset = le_u32(r)?;
        let _acid_size = le_u32(r)?;

        let aci_pos = match base.checked_add(aci_offset as u64) {
            Some(q) => q,
            None => {
                return Err(Error::InvalidRange);
            },
        };
        r.seek(aci_pos);
        let aci = Aci0::parse(r)?;
        let aci_end = r.position();

        // The ACID is optional: a block that does not parse is dropped.
        let acid = if acid_offset > 0 {
            match base.checked_add(acid_offset as u64) {
                None => None,
                Some(q) => {
                    r.seek(q);
                    match Acid::parse(r) {
                        Ok(a) => Some(a),
                        Err(_) => {
                            r.seek(aci_end);
                            None
                        },
                    }
                },
            }
        } else {
            None
        };

        Ok(
            Npdm {
                is_64bit,
                main_thread_priority,
                main_thread_core,
                system_resource_size,
                version,
                main_thread_stack_size,
                title_name,
                product_code,
                aci,
                acid,
            },
        )
    }
}

} // verus!
