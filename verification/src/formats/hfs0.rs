//! HFS0 (SHA-256 hashed file system) - hashed archive.
//!
//! Used inside XCI game cards, whose root HFS0 names the sub-partitions
//! (`normal`, `logo`, `update`, `secure`).
//!
//! ## Layout
//! ```text
//! [0x00] Magic "HFS0"              (4 bytes)
//! [0x04] FileCount                 (u32 LE)
//! [0x08] StringTableSize           (u32 LE)
//! [0x0C] Reserved                  (4 bytes)
//! [0x10] EntryTable                (FileCount x 0x40 bytes)
//! [0x10 + FileCount x 0x40]
//!        StringTable               (StringTableSize bytes)
//! [(after StringTable)]
//!        FileData                  (remaining bytes)
//! ```
//!
//! ## File entry (0x40 bytes)
//! ```text
//! [0x00] DataOffset - relative to the data section start (u64 LE)
//! [0x08] DataSize   - in bytes (u64 LE)
//! [0x10] NameOffset - byte offset into the string table (u32 LE)
//! [0x14] HashedRegionSize - number of leading bytes covered by the hash (u32 LE)
//! [0x18] Reserved   (8 bytes)
//! [0x20] SHA-256 hash of the first HashedRegionSize bytes (32 bytes)
//! ```

use vstd::prelude::*;
use crate::error::Error;
use crate::stream::{window, Stream};
use crate::utils::{
    bytesa, bytesv, le_u32, le_u32_at, le_u64, le_u64_at, magic, null_string, null_string_at, str_eq,
};

verus! {

/// The bytes `HFS0`.
pub const HFS0_MAGIC: [u8; 4] = [0x48, 0x46, 0x53, 0x30];

/// Size of the fixed header in bytes.
pub const HEADER_SIZE: u64 = 0x10;

/// Size of one entry of the entry table in bytes.
pub const ENTRY_SIZE: u64 = 0x40;

/// Metadata for a single file inside an HFS0.
#[derive(Debug, Clone)]
pub struct Hfs0File {
    /// File name decoded from the string table.
    pub name: String,
    /// Offset relative to the HFS0 data section.
    pub offset: u64,
    /// File size in bytes.
    pub size: u64,
    /// Number of leading bytes covered by `sha256`.
    pub hashed_region_size: u32,
    /// SHA-256 hash of the first `hashed_region_size` bytes.
    pub sha256: [u8; 32],
}

/// Parsed HFS0 container (metadata only).
///
/// File data is accessed via [`Hfs0Reader`].
#[derive(Debug)]
pub struct Hfs0 {
    /// All file entries in declaration order.
    pub files: Vec<Hfs0File>,
    /// Absolute byte offset, from the origin of the stream, of the file data
    /// section.
    pub data_offset: u64,
}

/// Mathematical value of an [`Hfs0File`].
pub struct Hfs0FileView {
    pub name: Seq<char>,
    pub offset: u64,
    pub size: u64,
    pub hashed_region_size: u32,
    pub sha256: Seq<u8>,
}

/// Mathematical value of an [`Hfs0`].
pub struct Hfs0View {
    pub files: Seq<Hfs0FileView>,
    pub data_offset: u64,
}

impl View for Hfs0File {
    type V = Hfs0FileView;

    open spec fn view(&self) -> Hfs0FileView {
        Hfs0FileView {
            name: self.name@,
            offset: self.offset,
            size: self.size,
            hashed_region_size: self.hashed_region_size,
            sha256: self.sha256@,
        }
    }
}

/// The values of a list of entries.
pub open spec fn file_views(files: Seq<Hfs0File>) -> Seq<Hfs0FileView> {
    Seq::new(files.len(), |i: int| files[i]@)
}

impl View for Hfs0 {
    type V = Hfs0View;

    open spec fn view(&self) -> Hfs0View {
        Hfs0View { files: file_views(self.files@), data_offset: self.data_offset }
    }
}

/// Offset of the entry with index `i` in an archive that starts at `p`.
pub open spec fn entry_at(p: int, i: int) -> int {
    p + HEADER_SIZE + ENTRY_SIZE * i
}

/// The string table of the archive at offset `p` of `b`.
pub open spec fn string_table(b: Seq<u8>, p: int) -> Seq<u8> {
    let start = entry_at(p, le_u32_at(b, p + 4) as int);
    b.subrange(start, start + le_u32_at(b, p + 8))
}

/// The entry with index `i` of the archive at offset `p` of `b`.
pub open spec fn hfs0_entry(b: Seq<u8>, p: int, i: int) -> Result<Hfs0FileView, Error> {
    let e = entry_at(p, i);
    match null_string_at(string_table(b, p), le_u32_at(b, e + 0x10) as int) {
        Err(err) => Err(err),
        Ok(name) => Ok(
            Hfs0FileView {
                name,
                offset: le_u64_at(b, e),
                size: le_u64_at(b, e + 8),
                hashed_region_size: le_u32_at(b, e + 0x14),
                sha256: b.subrange(e + 0x20, e + 0x40),
            },
        ),
    }
}

/// The first `n` entries of the archive at offset `p` of `b`, or the error
/// of the first entry that has one.
pub open spec fn hfs0_entries(b: Seq<u8>, p: int, n: int) -> Result<Seq<Hfs0FileView>, Error>
    decreases n,
{
    if n <= 0 {
        Ok(Seq::empty())
    } else {
        match hfs0_entries(b, p, n - 1) {
            Err(e) => Err(e),
            Ok(files) => match hfs0_entry(b, p, n - 1) {
                Err(e) => Err(e),
                Ok(f) => Ok(files.push(f)),
            },
        }
    }
}

/// What parsing the bytes `b` as an HFS0 that starts at offset `p` yields.
///
/// The data section begins right after the string table, so its offset is
/// `p + 0x10 + 0x40 * count + string_table_size`.
pub open spec fn hfs0_at(b: Seq<u8>, p: int) -> Result<Hfs0View, Error> {
    let count = le_u32_at(b, p + 4) as int;
    let data_offset = entry_at(p, count) + le_u32_at(b, p + 8);
    if b.len() < p + 4 {
        Err(Error::UnexpectedEof)
    } else if b.subrange(p, p + 4) != HFS0_MAGIC@ {
        Err(Error::BadMagic)
    } else if b.len() < p + HEADER_SIZE || b.len() < data_offset {
        Err(Error::UnexpectedEof)
    } else {
        match hfs0_entries(b, p, count) {
            Err(e) => Err(e),
            Ok(files) => Ok(Hfs0View { files, data_offset: data_offset as u64 }),
        }
    }
}

/// An error at entry `k` is the error of every longer run of entries.
pub proof fn lemma_entries_error(b: Seq<u8>, p: int, k: int, n: int)
    requires
        0 <= k < n,
        hfs0_entries(b, p, k) is Ok,
        hfs0_entry(b, p, k) is Err,
    ensures
        hfs0_entries(b, p, n) == Err::<Seq<Hfs0FileView>, Error>(hfs0_entry(b, p, k)->Err_0),
    decreases n - k,
{
    if n > k + 1 {
        lemma_entries_error(b, p, k, n - 1);
    }
}

/// Index of the first entry of `files` at or after `from` that is named
/// `name`, or `files.len()` when there is none.
pub open spec fn find_file(files: Seq<Hfs0File>, name: Seq<char>, from: int) -> int
    decreases files.len() - from,
{
    if from < 0 || from >= files.len() {
        files.len() as int
    } else if files[from].name@ == name {
        from
    } else {
        find_file(files, name, from + 1)
    }
}

/// `find_file(files, name, from)` is the least index at or after `from`
/// whose entry is named `name`, and `files.len()` if there is no such
/// entry.
pub proof fn lemma_find_file(files: Seq<Hfs0File>, name: Seq<char>, from: int)
    requires
        0 <= from <= files.len(),
    ensures
        from <= find_file(files, name, from) <= files.len(),
        find_file(files, name, from) < files.len() ==> files[find_file(files, name, from)].name@
            == name,
        forall|j: int| from <= j < find_file(files, name, from) ==> (#[trigger] files[j]).name@ != name,
    decreases files.len() - from,
{
    if from < files.len() && files[from].name@ != name {
        lemma_find_file(files, name, from + 1);
    }
}

impl Hfs0 {
    /// Parse an HFS0 container from `r`, which must stand at the HFS0 magic.
    ///
    /// On success the stream stands at the first byte of the data section;
    /// on failure it stays where it was. File contents are not read; use
    /// [`Hfs0Reader`] for data access.
    pub fn parse(r: &mut Stream) -> (res: Result<Hfs0, Error>)
        ensures
            final(r).data@ == old(r).data@,
            match res {
                Ok(a) => hfs0_at(old(r).data@, old(r).pos as int) == Ok::<Hfs0View, Error>(a@)
                    && final(r).pos == a.data_offset,
                Err(e) => hfs0_at(old(r).data@, old(r).pos as int) == Err::<Hfs0View, Error>(e)
                    && final(r).pos == old(r).pos,
            },
    {
        let start = r.position();
        let res = Self::decode(r);
        if res.is_err() {
            r.seek(start);
        }
        res
    }

    /// Does the work of [`parse`]; on failure the stream is left where the
    /// failure was met.
    fn decode(r: &mut Stream) -> (res: Result<Hfs0, Error>)
        ensures
            final(r).data@ == old(r).data@,
            match res {
                Ok(a) => hfs0_at(old(r).data@, old(r).pos as int) == Ok::<Hfs0View, Error>(a@)
                    && final(r).pos == a.data_offset,
                Err(e) => hfs0_at(old(r).data@, old(r).pos as int) == Err::<Hfs0View, Error>(e),
            },
    {
        let ghost b = r.data@;
        let ghost p = r.pos as int;

        magic(r, &HFS0_MAGIC)?;
        let file_count = le_u32(r)?;
        let string_table_size = le_u32(r)?;
        let _reserved = le_u32(r)?;

        let mut entries: Vec<(u64, u64, u32, u32, [u8; 32])> = Vec::new();
        let mut i: u32 = 0;
        while i < file_count
            invariant
                r.data@ == b,
                b == old(r).data@,
                p == old(r).pos,
                i <= file_count,
                file_count == le_u32_at(b, p + 4),
                r.pos == entry_at(p, i as int),
                r.pos <= b.len(),
                entries@.len() == i,
                forall|j: int|
                    0 <= j < i ==> {
                        &&& (#[trigger] entries@[j]).0 == le_u64_at(b, entry_at(p, j))
                        &&& entries@[j].1 == le_u64_at(b, entry_at(p, j) + 8)
                        &&& entries@[j].2 == le_u32_at(b, entry_at(p, j) + 0x10)
                        &&& entries@[j].3 == le_u32_at(b, entry_at(p, j) + 0x14)
                        &&& entries@[j].4@ == b.subrange(
                            entry_at(p, j) + 0x20,
                            entry_at(p, j) + 0x40,
                        )
                    },
                b.len() < entry_at(p, file_count as int) ==> hfs0_at(b, p) == Err::<
                    Hfs0View,
                    Error,
                >(Error::UnexpectedEof),
            decreases file_count - i,
        {
            let offset = le_u64(r)?;
            let size = le_u64(r)?;
            let name_offset = le_u32(r)?;
            let hashed_region_size = le_u32(r)?;
            let _reserved1 = le_u32(r)?;
            let _reserved2 = le_u32(r)?;
            let sha256 = bytesa::<32>(r)?;
            entries.push((offset, size, name_offset, hashed_region_size, sha256));
            i += 1;
        }

        let table = bytesv(r, string_table_size as usize)?;
        let data_offset = r.position();

        let mut files: Vec<Hfs0File> = Vec::new();
        let mut k: usize = 0;
        assert(file_views(files@) =~= Seq::empty());
        while k < entries.len()
            invariant
                r.data@ == b,
                b == old(r).data@,
                p == old(r).pos,
                r.pos == data_offset,
                hfs0_at(b, p) == match hfs0_entries(b, p, file_count as int) {
                    Err(e) => Err::<Hfs0View, Error>(e),
                    Ok(files) => Ok(Hfs0View { files, data_offset }),
                },
                k <= entries@.len(),
                entries@.len() == file_count,
                file_count == le_u32_at(b, p + 4),
                table@ == string_table(b, p),
                forall|j: int|
                    0 <= j < file_count ==> {
                        &&& (#[trigger] entries@[j]).0 == le_u64_at(b, entry_at(p, j))
                        &&& entries@[j].1 == le_u64_at(b, entry_at(p, j) + 8)
                        &&& entries@[j].2 == le_u32_at(b, entry_at(p, j) + 0x10)
                        &&& entries@[j].3 == le_u32_at(b, entry_at(p, j) + 0x14)
                        &&& entries@[j].4@ == b.subrange(
                            entry_at(p, j) + 0x20,
                            entry_at(p, j) + 0x40,
                        )
                    },
                files@.len() == k,
                hfs0_entries(b, p, k as int) == Ok::<Seq<Hfs0FileView>, Error>(
                    file_views(files@),
                ),
            decreases entries@.len() - k,
        {
            let ghost before = file_views(files@);
            let (offset, size, name_offset, hashed_region_size, sha256) = entries[k];
            match null_string(table.as_slice(), name_offset as usize) {
                Err(e) => {
                    proof {
                        lemma_entries_error(b, p, k as int, file_count as int);
                    }
                    return Err(e);
                },
                Ok(name) => {
                    files.push(Hfs0File { name, offset, size, hashed_region_size, sha256 });
                },
            }
            proof {
                assert(file_views(files@) =~= before.push(files@[k as int]@));
            }
            k += 1;
        }

        Ok(Hfs0 { files, data_offset })
    }

    /// Find a file by name: the first entry named `name`, or nothing when no
    /// entry has that name.
    pub fn get_file_by_name(&self, name: &str) -> (res: Option<&Hfs0File>)
        ensures
            match res {
                Some(f) => find_file(self.files@, name@, 0) < self.files@.len() && *f
                    == self.files@[find_file(self.files@, name@, 0)] && f.name@ == name@,
                None => find_file(self.files@, name@, 0) == self.files@.len() && forall|j: int|
                    0 <= j < self.files@.len() ==> (#[trigger] self.files@[j]).name@ != name@,
            },
    {
        proof {
            lemma_find_file(self.files@, name@, 0);
        }
        let mut i: usize = 0;
        while i < self.files.len()
            invariant
                i <= self.files@.len(),
                find_file(self.files@, name@, 0) == find_file(self.files@, name@, i as int),
            decreases self.files@.len() - i,
        {
            let f = &self.files[i];
            if str_eq(f.name.as_str(), name) {
                return Some(f);
            }
            i += 1;
        }
        None
    }
}

/// Reader over a parsed [`Hfs0`] container: owns the stream the container
/// was parsed from and hands out the bytes of its files.
pub struct Hfs0Reader {
    /// The stream that holds the container.
    pub inner: Stream,
    /// Parsed metadata.
    pub hfs0: Hfs0,
}

impl Hfs0Reader {
    /// Parse an HFS0 at the current position of `reader` and wrap the stream.
    pub fn new(reader: Stream) -> (res: Result<Hfs0Reader, Error>)
        ensures
            match res {
                Ok(s) => hfs0_at(reader.data@, reader.pos as int) == Ok::<Hfs0View, Error>(
                    s.hfs0@,
                ) && s.inner.data@ == reader.data@ && s.inner.pos == s.hfs0.data_offset,
                Err(e) => hfs0_at(reader.data@, reader.pos as int) == Err::<Hfs0View, Error>(e),
            },
    {
        let mut reader = reader;
        let hfs0 = Hfs0::parse(&mut reader)?;
        Ok(Hfs0Reader { inner: reader, hfs0 })
    }

    /// Open a file: moves the stream to the file's first byte and returns
    /// the bounded view of its payload, which never extends past the
    /// declared size nor past the end of the stream.
    ///
    /// Fails with [`Error::InvalidRange`], without moving, exactly when the
    /// file's absolute offset does not fit in 64 bits.
    pub fn read_file(&mut self, file: &Hfs0File) -> (res: Result<&[u8], Error>)
        ensures
            final(self).inner.data@ == old(self).inner.data@,
            final(self).hfs0 == old(self).hfs0,
            match res {
                Ok(bytes) => old(self).hfs0.data_offset + file.offset <= u64::MAX
                    && final(self).inner.pos == old(self).hfs0.data_offset + file.offset
                    && bytes@ == window(
                    old(self).inner.data@,
                    old(self).hfs0.data_offset + file.offset,
                    file.size as int,
                ) && bytes@.len() <= file.size,
                Err(e) => old(self).hfs0.data_offset + file.offset > u64::MAX && e
                    == Error::InvalidRange && final(self).inner.pos == old(self).inner.pos,
            },
    {
        match self.hfs0.data_offset.checked_add(file.offset) {
            None => Err(Error::InvalidRange),
            Some(start) => {
                self.inner.seek(start);
                Ok(self.inner.take(file.size))
            },
        }
    }

    /// All file entries, in declaration order.
    pub fn files(&self) -> (files: &Vec<Hfs0File>)
        ensures
            files == &self.hfs0.files,
    {
        &self.hfs0.files
    }

    /// Find a file by name. Returns `None` if not found.
    pub fn get_file_by_name(&self, name: &str) -> (res: Option<&Hfs0File>)
        ensures
            match res {
                Some(f) => find_file(self.hfs0.files@, name@, 0) < self.hfs0.files@.len() && *f
                    == self.hfs0.files@[find_file(self.hfs0.files@, name@, 0)] && f.name@ == name@,
                None => find_file(self.hfs0.files@, name@, 0) == self.hfs0.files@.len()
                    && forall|j: int|
                    0 <= j < self.hfs0.files@.len() ==> (#[trigger] self.hfs0.files@[j]).name@
                        != name@,
            },
    {
        self.hfs0.get_file_by_name(name)
    }

    /// The entry named `name`, which must exist.
    pub fn index(&self, name: &str) -> (f: &Hfs0File)
        requires
            find_file(self.hfs0.files@, name@, 0) < self.hfs0.files@.len(),
        ensures
            *f == self.hfs0.files@[find_file(self.hfs0.files@, name@, 0)],
    {
        match self.hfs0.get_file_by_name(name) {
            Some(f) => f,
            None => {
                proof {
                    assert(false);
                }
                &self.hfs0.files[0]
            },
        }
    }

    /// Consume the reader, returning the stream.
    pub fn into_inner(self) -> (s: Stream)
        ensures
            s == self.inner,
    {
        self.inner
    }
}

} // verus!
