//! SARC (SEAD ARChive) - general-purpose Nintendo archive.
//!
//! ## Layout
//! ```text
//! [0x00] SARC header  (0x14 bytes)
//! [0x14] SFAT header  (0x0C bytes) + FAT entries (FileCount x 0x10)
//! [...]  SFNT header  (0x08 bytes) + null-terminated filenames (4-byte aligned)
//! [...]  Data section (begins at offset given in SARC header)
//! ```
//!
//! The byte order of the multi-byte fields is given by the BOM at offset 6,
//! which is itself always stored little-endian: `0xFFFE` announces a
//! little-endian archive, `0xFEFF` a big-endian one.

use vstd::prelude::*;
use vstd::string::StringSliceAdditionalSpecFns;
use crate::error::Error;
use crate::stream::Stream;
use crate::utils::{
    end_u16, end_u16_at, end_u32, end_u32_at, le_u16, le_u16_at, magic, nul_index,
    read_null_string, str_eq, utf8_lossy,
};

verus! {

/// Largest file count a SARC may declare.
pub const MAX_FILE_COUNT: u16 = 0x3FFF;

/// The bytes `SARC`.
pub const SARC_MAGIC: [u8; 4] = [0x53, 0x41, 0x52, 0x43];

/// The bytes `SFAT`.
pub const SFAT_MAGIC: [u8; 4] = [0x53, 0x46, 0x41, 0x54];

/// The bytes `SFNT`.
pub const SFNT_MAGIC: [u8; 4] = [0x53, 0x46, 0x4E, 0x54];

/// A single file entry inside a SARC archive.
#[derive(Debug, Clone)]
pub struct SarcFile {
    /// Filename (`None` if the archive has no name table entry for this file).
    pub name: Option<String>,
    /// Hash of the filename.
    pub hash: u32,
    /// Start byte offset within the SARC data section.
    pub data_start: u32,
    /// End byte offset within the SARC data section (exclusive).
    pub data_end: u32,
}

/// Parsed SARC archive (metadata only).
#[derive(Debug)]
pub struct Sarc {
    /// All file entries, in table order.
    pub files: Vec<SarcFile>,
    /// Whether the archive uses little-endian encoding.
    pub le: bool,
    /// Format version from the SARC header (normally 0x0100).
    pub version: u16,
    /// Hash multiplier from the SFAT header.
    pub hash_multiplier: u32,
    /// Absolute stream offset where file data begins.
    pub data_offset: u64,
}

/// Mathematical value of a [`SarcFile`].
pub struct SarcFileView {
    pub name: Option<Seq<char>>,
    pub hash: u32,
    pub data_start: u32,
    pub data_end: u32,
}

/// Mathematical value of a [`Sarc`].
pub struct SarcView {
    pub files: Seq<SarcFileView>,
    pub le: bool,
    pub version: u16,
    pub hash_multiplier: u32,
    pub data_offset: u64,
}

impl View for SarcFile {
    type V = SarcFileView;

    open spec fn view(&self) -> SarcFileView {
        SarcFileView {
            name: match self.name {
                Some(s) => Some(s@),
                None => None,
            },
            hash: self.hash,
            data_start: self.data_start,
            data_end: self.data_end,
        }
    }
}

/// The values of a list of entries.
pub open spec fn file_views(files: Seq<SarcFile>) -> Seq<SarcFileView> {
    Seq::new(files.len(), |i: int| files[i]@)
}

impl View for Sarc {
    type V = SarcView;

    open spec fn view(&self) -> SarcView {
        SarcView {
            files: file_views(self.files@),
            le: self.le,
            version: self.version,
            hash_multiplier: self.hash_multiplier,
            data_offset: self.data_offset,
        }
    }
}

/// A byte widened to 32 bits as a signed 8-bit quantity.
pub open spec fn sign_extend(b: u8) -> u32 {
    if b < 0x80 {
        b as u32
    } else {
        (b + 0xFFFF_FF00) as u32
    }
}

/// The SARC filename hash: starting from zero, each byte `b` in turn replaces
/// the hash `h` by `h * multiplier + sign_extend(b)`, modulo 2^32.
pub open spec fn sarc_hash_of(name: Seq<u8>, multiplier: u32) -> u32
    decreases name.len(),
{
    if name.len() == 0 {
        0
    } else {
        ((sarc_hash_of(name.drop_last(), multiplier) * multiplier + sign_extend(name.last()))
            % 0x1_0000_0000) as u32
    }
}

/// SARC filename hash algorithm.
///
/// Each byte is sign-extended before accumulating, which matters for
/// non-ASCII paths.
pub fn sarc_hash(name: &[u8], multiplier: u32) -> (h: u32)
    ensures
        h == sarc_hash_of(name@, multiplier),
{
    let mut h: u32 = 0;
    let mut i: usize = 0;
    while i < name.len()
        invariant
            i <= name@.len(),
            h == sarc_hash_of(name@.take(i as int), multiplier),
        decreases name@.len() - i,
    {
        let b = name[i];
        let ext: u32 = if b < 0x80 {
            b as u32
        } else {
            b as u32 + 0xFFFF_FF00
        };
        proof {
            let prefix = name@.take(i + 1);
            assert(prefix.drop_last() =~= name@.take(i as int));
            assert(prefix.last() == b);
            vstd::arithmetic::div_mod::lemma_add_mod_noop(
                h * multiplier,
                ext as int,
                0x1_0000_0000,
            );
            vstd::arithmetic::div_mod::lemma_small_mod(ext as nat, 0x1_0000_0000);
            assert((h as nat * multiplier as nat) % 0x1_0000_0000nat == (h * multiplier)
                % 0x1_0000_0000);
        }
        h = h.wrapping_mul(multiplier).wrapping_add(ext);
        i += 1;
    }
    assert(name@.take(i as int) =~= name@);
    h
}

/// Offset of the FAT entry with index `i` in an archive that starts at `p`.
pub open spec fn fat_entry_at(p: int, i: int) -> int {
    p + 0x20 + 0x10 * i
}

/// Offset of the first name-table byte in an archive at `p` with `count`
/// entries.
pub open spec fn name_table_at(p: int, count: int) -> int {
    p + 0x20 + 0x10 * count + 8
}

/// The entry with index `i` of the archive at `p`, whose names start at
/// `names`: its name, when it has one, is the null-terminated text found
/// four bytes times the low 24 bits of the attribute word into the name
/// table.
pub open spec fn sarc_entry(b: Seq<u8>, p: int, le: bool, names: int, i: int) -> Result<
    SarcFileView,
    Error,
> {
    let e = fat_entry_at(p, i);
    let attrs = end_u32_at(b, e + 4, le);
    let at = names + (attrs & 0x00FF_FFFF) * 4;
    if attrs != 0 && (at >= b.len() || nul_index(b, at) >= b.len()) {
        Err(Error::UnexpectedEof)
    } else {
        Ok(
            SarcFileView {
                name: if attrs == 0 {
                    None
                } else {
                    Some(utf8_lossy(b.subrange(at, nul_index(b, at))))
                },
                hash: end_u32_at(b, e, le),
                data_start: end_u32_at(b, e + 8, le),
                data_end: end_u32_at(b, e + 12, le),
            },
        )
    }
}

/// The first `n` entries of the archive at `p`, or the error of the first
/// entry that has one.
pub open spec fn sarc_entries(b: Seq<u8>, p: int, le: bool, names: int, n: int) -> Result<
    Seq<SarcFileView>,
    Error,
>
    decreases n,
{
    if n <= 0 {
        Ok(Seq::empty())
    } else {
        match sarc_entries(b, p, le, names, n - 1) {
            Err(e) => Err(e),
            Ok(files) => match sarc_entry(b, p, le, names, n - 1) {
                Err(e) => Err(e),
                Ok(f) => Ok(files.push(f)),
            },
        }
    }
}

/// What parsing the bytes `b` as a SARC that starts at offset `p` yields.
///
/// The checks are listed in the order in which the fields lie in the file;
/// the first one that fails decides the error.
pub open spec fn sarc_at(b: Seq<u8>, p: int) -> Result<SarcView, Error> {
    let le = le_u16_at(b, p + 6) == 0xFFFE;
    let count = end_u16_at(b, p + 0x1A, le) as int;
    let sfnt = p + 0x20 + 0x10 * count;
    let data_offset = p + end_u32_at(b, p + 0x0C, le);
    if b.len() < p + 4 {
        Err(Error::UnexpectedEof)
    } else if b.subrange(p, p + 4) != SARC_MAGIC@ {
        Err(Error::BadMagic)
    } else if b.len() < p + 6 {
        Err(Error::UnexpectedEof)
    } else if le_u16_at(b, p + 4) != 0x14 {
        Err(Error::Parse("unexpected SARC header size"))
    } else if b.len() < p + 8 {
        Err(Error::UnexpectedEof)
    } else if le_u16_at(b, p + 6) != 0xFFFE && le_u16_at(b, p + 6) != 0xFEFF {
        Err(Error::Parse("invalid SARC BOM"))
    } else if b.len() < p + 0x18 {
        Err(Error::UnexpectedEof)
    } else if b.subrange(p + 0x14, p + 0x18) != SFAT_MAGIC@ {
        Err(Error::BadMagic)
    } else if b.len() < p + 0x1A {
        Err(Error::UnexpectedEof)
    } else if le_u16_at(b, p + 0x18) != 0x0C {
        Err(Error::Parse("unexpected SFAT header size"))
    } else if b.len() < p + 0x20 {
        Err(Error::UnexpectedEof)
    } else if count > MAX_FILE_COUNT {
        Err(Error::Parse("SARC file count exceeds maximum"))
    } else if b.len() < sfnt + 4 {
        Err(Error::UnexpectedEof)
    } else if b.subrange(sfnt, sfnt + 4) != SFNT_MAGIC@ {
        Err(Error::BadMagic)
    } else if b.len() < sfnt + 6 {
        Err(Error::UnexpectedEof)
    } else if le_u16_at(b, sfnt + 4) != 8 {
        Err(Error::Parse("unexpected SFNT header size"))
    } else if b.len() < sfnt + 8 {
        Err(Error::UnexpectedEof)
    } else {
        match sarc_entries(b, p, le, sfnt + 8, count) {
            Err(e) => Err(e),
            Ok(files) => if data_offset > u64::MAX {
                Err(Error::InvalidRange)
            } else {
                Ok(
                    SarcView {
                        files,
                        le,
                        version: le_u16_at(b, p + 0x10),
                        hash_multiplier: end_u32_at(b, p + 0x1C, le),
                        data_offset: data_offset as u64,
                    },
                )
            },
        }
    }
}

impl SarcFile {
    /// Size of this file's data in bytes: `data_end - data_start`, or zero
    /// when the end lies before the start.
    pub fn size(&self) -> (n: u64)
        ensures
            n == if self.data_end >= self.data_start {
                self.data_end - self.data_start
            } else {
                0
            },
    {
        self.data_end.saturating_sub(self.data_start) as u64
    }
}

impl Sarc {
    /// Parse a SARC archive from `r`, which must stand at the SARC magic.
    ///
    /// On success the stream stands at the first byte of the name table; on
    /// failure it stays where it was. File contents are not read.
    pub fn parse(r: &mut Stream) -> (res: Result<Sarc, Error>)
        ensures
            final(r).data@ == old(r).data@,
            match res {
                Ok(s) => sarc_at(old(r).data@, old(r).pos as int) == Ok::<SarcView, Error>(s@)
                    && final(r).pos == name_table_at(old(r).pos as int, s.files@.len() as int),
                Err(e) => sarc_at(old(r).data@, old(r).pos as int) == Err::<SarcView, Error>(e)
                    && final(r).pos == old(r).pos,
            },
    {
        let start = r.position();
        let res = Self::decode(r);
        if res.is_err() {
            r.seek(start);
        }
        res
    }

    /// Does the work of [`parse`]; on failure the stream is left where the
    /// failure was met.
    fn decode(r: &mut Stream) -> (res: Result<Sarc, Error>)
        ensures
            final(r).data@ == old(r).data@,
            match res {
                Ok(s) => sarc_at(old(r).data@, old(r).pos as int) == Ok::<SarcView, Error>(s@)
                    && final(r).pos == name_table_at(old(r).pos as int, s.files@.len() as int),
                Err(e) => sarc_at(old(r).data@, old(r).pos as int) == Err::<SarcView, Error>(e),
            },
    {
        let ghost b = r.data@;
        let ghost p = r.pos as int;
        let sarc_start = r.position();

        magic(r, &SARC_MAGIC)?;
        let header_size = le_u16(r)?;
        if header_size != 0x14 {
            return Err(Error::Parse("unexpected SARC header size"));
        }
        // The BOM is always stored little-endian, whatever the archive's byte order.
        let bom = le_u16(r)?;
        let le = if bom == 0xFFFE {
            true
        } else if bom == 0xFEFF {
            false
        } else {
            return Err(Error::Parse("invalid SARC BOM"));
        };
        let _total_size = end_u32(r, le)?;
        let data_offset = end_u32(r, le)?;
        let version = le_u16(r)?;
        let _padding = le_u16(r)?;

        magic(r, &SFAT_MAGIC)?;
        let sfat_size = le_u16(r)?;
        if sfat_size != 0x0C {
            return Err(Error::Parse("unexpected SFAT header size"));
        }
        let file_count = end_u16(r, le)?;
        let hash_multiplier = end_u32(r, le)?;
        if file_count > MAX_FILE_COUNT {
            return Err(Error::Parse("SARC file count exceeds maximum"));
        }
        let mut fat: Vec<(u32, u32, u32, u32)> = Vec::with_capacity(file_count as usize);
        let mut i: u16 = 0;
        while i < file_count
            invariant
                r.data@ == b,
                i <= file_count,
                r.pos == fat_entry_at(p, i as int),
                r.pos <= b.len(),
                fat@.len() == i,
                forall|j: int|
                    0 <= j < i ==> #[trigger] fat@[j] == (
                        end_u32_at(b, fat_entry_at(p, j), le),
                        end_u32_at(b, fat_entry_at(p, j) + 4, le),
                        end_u32_at(b, fat_entry_at(p, j) + 8, le),
                        end_u32_at(b, fat_entry_at(p, j) + 12, le),
                    ),
                b == old(r).data@,
                p == old(r).pos,
                sarc_at(b, p) == Err::<SarcView, Error>(Error::UnexpectedEof) || b.len()
                    >= fat_entry_at(p, file_count as int) + 4,
            decreases file_count - i,
        {
            let hash = end_u32(r, le)?;
            let name_attrs = end_u32(r, le)?;
            let data_start = end_u32(r, le)?;
            let data_end = end_u32(r, le)?;
            fat.push((hash, name_attrs, data_start, data_end));
            i += 1;
        }

        magic(r, &SFNT_MAGIC)?;
        let sfnt_size = le_u16(r)?;
        if sfnt_size != 8 {
            return Err(Error::Parse("unexpected SFNT header size"));
        }
        let _sfnt_padding = le_u16(r)?;

        let name_table_start = r.position();
        let mut files: Vec<SarcFile> = Vec::with_capacity(file_count as usize);
        let mut k: usize = 0;
        assert(file_views(files@) =~= Seq::empty());
        assert(b.len() == r.data.len());
        while k < fat.len()
            invariant
                r.data@ == b,
                b == old(r).data@,
                p == old(r).pos,
                k <= fat@.len(),
                fat@.len() == file_count,
                r.pos == name_table_start,
                b.len() <= usize::MAX,
                name_table_start == name_table_at(p, file_count as int),
                name_table_start <= b.len(),
                forall|j: int|
                    0 <= j < fat@.len() ==> #[trigger] fat@[j] == (
                        end_u32_at(b, fat_entry_at(p, j), le),
                        end_u32_at(b, fat_entry_at(p, j) + 4, le),
                        end_u32_at(b, fat_entry_at(p, j) + 8, le),
                        end_u32_at(b, fat_entry_at(p, j) + 12, le),
                    ),
                files@.len() == k,
                sarc_entries(b, p, le, name_table_start as int, k as int) == Ok::<
                    Seq<SarcFileView>,
                    Error,
                >(file_views(files@)),
                sarc_entries(b, p, le, name_table_start as int, file_count as int) is Err
                    ==> sarc_at(b, p) == Err::<SarcView, Error>(
                    sarc_entries(b, p, le, name_table_start as int, file_count as int)->Err_0,
                ),
            decreases fat@.len() - k,
        {
            let (hash, name_attrs, data_start, data_end) = fat[k];
            let ghost before = file_views(files@);
            let ghost at = name_table_start + (name_attrs & 0x00FF_FFFF) * 4;
            assert(fat@[k as int].1 == end_u32_at(b, fat_entry_at(p, k as int) + 4, le));
            let name = if name_attrs == 0 {
                None
            } else {
                // The low 24 bits count four-byte words into the name table.
                let word_off = (name_attrs & 0x00FF_FFFF) as u64;
                assert(name_attrs & 0x00FF_FFFF <= 0x00FF_FFFF) by (bit_vector);
                let byte_off = word_off * 4;
                match name_table_start.checked_add(byte_off) {
                    None => {
                        proof {
                            lemma_entries_error(
                                b,
                                p,
                                le,
                                name_table_start as int,
                                k as int,
                                file_count as int,
                            );
                        }
                        return Err(Error::UnexpectedEof);
                    },
                    Some(at) => {
                        r.seek(at);
                        match read_null_string(r) {
                            Err(e) => {
                                proof {
                                    lemma_entries_error(
                                        b,
                                        p,
                                        le,
                                        name_table_start as int,
                                        k as int,
                                        file_count as int,
                                    );
                                }
                                return Err(e);
                            },
                            Ok(name) => {
                                r.seek(name_table_start);
                                Some(name)
                            },
                        }
                    },
                }
            };
            files.push(SarcFile { name, hash, data_start, data_end });
            proof {
                assert(file_views(files@) =~= before.push(files@[k as int]@));
            }
            k += 1;
        }
        match sarc_start.checked_add(data_offset as u64) {
            None => Err(Error::InvalidRange),
            Some(data_offset) => Ok(Sarc { files, le, version, hash_multiplier, data_offset }),
        }
    }
}

/// Index of the first entry of `files` with the given hash and name, or
/// `files.len()` when there is none.
pub open spec fn find_file(files: Seq<SarcFile>, hash: u32, name: Seq<char>, from: int) -> int
    decreases files.len() - from,
{
    if from < 0 || from >= files.len() {
        files.len() as int
    } else if files[from].hash == hash && files[from]@.name == Some(name) {
        from
    } else {
        find_file(files, hash, name, from + 1)
    }
}

/// `find_file(files, hash, name, from)` is the least index at or after
/// `from` whose entry has the hash `hash` and the name `name`, and
/// `files.len()` if there is no such entry.
pub proof fn lemma_find_file(files: Seq<SarcFile>, hash: u32, name: Seq<char>, from: int)
    requires
        0 <= from <= files.len(),
    ensures
        from <= find_file(files, hash, name, from) <= files.len(),
        find_file(files, hash, name, from) < files.len() ==> {
            let f = files[find_file(files, hash, name, from)];
            f.hash == hash && f@.name == Some(name)
        },
        forall|j: int|
            from <= j < find_file(files, hash, name, from) ==> !((#[trigger] files[j]).hash
                == hash && files[j]@.name == Some(name)),
    decreases files.len() - from,
{
    if from < files.len() && !(files[from].hash == hash && files[from]@.name == Some(name)) {
        lemma_find_file(files, hash, name, from + 1);
    }
}

impl Sarc {
    /// Compute the hash of a filename with this archive's multiplier.
    pub fn hash_filename(&self, name: &str) -> (h: u32)
        ensures
            h == sarc_hash_of(name.spec_bytes(), self.hash_multiplier),
    {
        sarc_hash(name.as_bytes(), self.hash_multiplier)
    }

    /// Find a file by its exact name: the first entry whose stored hash is
    /// the hash of `name` and whose name is `name`, or nothing when there
    /// is no such entry.
    pub fn get_file_by_name(&self, name: &str) -> (res: Option<&SarcFile>)
        ensures
            ({
                let h = sarc_hash_of(name.spec_bytes(), self.hash_multiplier);
                let i = find_file(self.files@, h, name@, 0);
                match res {
                    Some(f) => i < self.files@.len() && *f == self.files@[i] && f.hash == h
                        && f@.name == Some(name@),
                    None => i == self.files@.len() && forall|j: int|
                        0 <= j < self.files@.len() ==> !((#[trigger] self.files@[j]).hash == h
                            && self.files@[j]@.name == Some(name@)),
                }
            }),
    {
        let target = sarc_hash(name.as_bytes(), self.hash_multiplier);
        proof {
            lemma_find_file(self.files@, target, name@, 0);
        }
        let mut i: usize = 0;
        while i < self.files.len()
            invariant
                i <= self.files@.len(),
                find_file(self.files@, target, name@, 0) == find_file(
                    self.files@,
                    target,
                    name@,
                    i as int,
                ),
                target == sarc_hash_of(name.spec_bytes(), self.hash_multiplier),
            decreases self.files@.len() - i,
        {
            let f = &self.files[i];
            if f.hash == target {
                let same = match &f.name {
                    Some(n) => str_eq(n.as_str(), name),
                    None => false,
                };
                if same {
                    return Some(f);
                }
            }
            i += 1;
        }
        None
    }
}

/// Reader over a parsed [`Sarc`] archive: owns the stream the archive was
/// parsed from and hands out the bytes of its files.
pub struct SarcReader {
    /// The stream that holds the archive.
    pub inner: Stream,
    /// Parsed metadata.
    pub sarc: Sarc,
}

impl SarcReader {
    /// Parse a SARC archive at the current position of `reader` and wrap
    /// the stream.
    pub fn new(reader: Stream) -> (res: Result<SarcReader, Error>)
        ensures
            match res {
                Ok(s) => sarc_at(reader.data@, reader.pos as int) == Ok::<SarcView, Error>(
                    s.sarc@,
                ) && s.inner.data@ == reader.data@ && s.inner.pos == name_table_at(
                    reader.pos as int,
                    s.sarc.files@.len() as int,
                ),
                Err(e) => sarc_at(reader.data@, reader.pos as int) == Err::<SarcView, Error>(e),
            },
    {
        let mut reader = reader;
        let sarc = Sarc::parse(&mut reader)?;
        Ok(SarcReader { inner: reader, sarc })
    }

    /// Open a file: moves the stream to the file's first byte and returns
    /// the bounded view of its payload, which never extends past the
    /// declared size nor past the end of the stream.
    ///
    /// Fails with [`Error::InvalidRange`], without moving, exactly when the
    /// file's absolute offset does not fit in 64 bits.
    pub fn read_file(&mut self, file: &SarcFile) -> (res: Result<&[u8], Error>)
        ensures
            final(self).inner.data@ == old(self).inner.data@,
            final(self).sarc == old(self).sarc,
            match res {
                Ok(bytes) => old(self).sarc.data_offset + file.data_start <= u64::MAX
                    && final(self).inner.pos == old(self).sarc.data_offset + file.data_start
                    && bytes@ == crate::stream::window(
                    old(self).inner.data@,
                    old(self).sarc.data_offset + file.data_start,
                    if file.data_end >= file.data_start {
                        file.data_end - file.data_start
                    } else {
                        0
                    },
                ) && bytes@.len() <= file.data_end,
                Err(e) => old(self).sarc.data_offset + file.data_start > u64::MAX && e
                    == Error::InvalidRange && final(self).inner.pos == old(self).inner.pos,
            },
    {
        match self.sarc.data_offset.checked_add(file.data_start as u64) {
            None => Err(Error::InvalidRange),
            Some(start) => {
                self.inner.seek(start);
                Ok(self.inner.take(file.size()))
            },
        }
    }

    /// All file entries, in table order.
    pub fn files(&self) -> (files: &Vec<SarcFile>)
        ensures
            files == &self.sarc.files,
    {
        &self.sarc.files
    }

    /// Find a file by name. Returns `None` if not found.
    pub fn get_file_by_name(&self, name: &str) -> (res: Option<&SarcFile>)
        ensures
            ({
                let h = sarc_hash_of(name.spec_bytes(), self.sarc.hash_multiplier);
                let i = find_file(self.sarc.files@, h, name@, 0);
                match res {
                    Some(f) => i < self.sarc.files@.len() && *f == self.sarc.files@[i],
                    None => i == self.sarc.files@.len(),
                }
            }),
    {
        self.sarc.get_file_by_name(name)
    }

    /// The entry named `name`, which must exist.
    pub fn index(&self, name: &str) -> (f: &SarcFile)
        requires
            find_file(
                self.sarc.files@,
                sarc_hash_of(name.spec_bytes(), self.sarc.hash_multiplier),
                name@,
                0,
            ) < self.sarc.files@.len(),
        ensures
            *f == self.sarc.files@[find_file(
                self.sarc.files@,
                sarc_hash_of(name.spec_bytes(), self.sarc.hash_multiplier),
                name@,
                0,
            )],
    {
        match self.sarc.get_file_by_name(name) {
            Some(f) => f,
            None => {
                proof {
                    assert(false);
                }
                &self.sarc.files[0]
            },
        }
    }

    /// Consume the reader, returning the stream.
    pub fn into_inner(self) -> (s: Stream)
        ensures
            s == self.inner,
    {
        self.inner
    }
}

/// An error at entry `k` is the error of every longer run of entries.
pub proof fn lemma_entries_error(b: Seq<u8>, p: int, le: bool, names: int, k: int, n: int)
    requires
        0 <= k < n,
        sarc_entries(b, p, le, names, k) is Ok,
        sarc_entry(b, p, le, names, k) is Err,
    ensures
        sarc_entries(b, p, le, names, n) == Err::<Seq<SarcFileView>, Error>(
            sarc_entry(b, p, le, names, k)->Err_0,
        ),
    decreases n - k,
{
    if n > k + 1 {
        lemma_entries_error(b, p, le, names, k, n - 1);
    }
}

} // verus!
