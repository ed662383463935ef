//! PFS0 (PartitionFS) - flat archive container.
//!
//! Used as the outer container for NSP files and embedded inside NCAs as the
//! ExeFS and Logo sections.
//!
//! ## Layout
//! ```text
//! [0x00] Magic "PFS0"              (4 bytes)
//! [0x04] FileCount                 (u32 LE)
//! [0x08] StringTableSize           (u32 LE)
//! [0x0C] Reserved (always 0)       (4 bytes)
//! [0x10] EntryTable                (FileCount x 0x18 bytes)
//! [0x10 + FileCount x 0x18]
//!        StringTable               (StringTableSize bytes)
//! [0x10 + FileCount x 0x18 + StringTableSize]
//!        FileData                  (remaining bytes)
//! ```
//!
//! ## File entry (0x18 bytes)
//! ```text
//! [0x00] Offset  - relative to the data section start (u64 LE)
//! [0x08] Size    - in bytes (u64 LE)
//! [0x10] NameOffset - byte offset into the string table (u32 LE)
//! [0x14] Reserved   (u32)
//! ```

use vstd::prelude::*;
use crate::error::Error;
use crate::stream::{window, Stream};
use crate::utils::{
    bytesv, le_u32, le_u32_at, le_u64, le_u64_at, magic, null_string, null_string_at, str_eq,
};

verus! {

/// The bytes `PFS0`.
pub const PFS0_MAGIC: [u8; 4] = [0x50, 0x46, 0x53, 0x30];

/// Size of the fixed header in bytes.
pub const HEADER_SIZE: u64 = 0x10;

/// Size of one entry of the entry table in bytes.
pub const ENTRY_SIZE: u64 = 0x18;

/// Metadata for a single file inside a PFS0.
#[derive(Debug, Clone)]
pub struct Pfs0File {
    /// File name decoded from the string table.
    pub name: String,
    /// Offset relative to the PFS0 data section.
    pub offset: u64,
    /// File size in bytes.
    pub size: u64,
}

/// Parsed PFS0 container (metadata only).
///
/// File data is accessed via [`Pfs0Reader`].
#[derive(Debug)]
pub struct Pfs0 {
    /// All file entries in declaration order.
    pub files: Vec<Pfs0File>,
    /// Absolute byte offset, from the origin of the stream, of the file data
    /// section.
    pub data_offset: u64,
}

/// Mathematical value of a [`Pfs0File`].
pub struct Pfs0FileView {
    pub name: Seq<char>,
    pub offset: u64,
    pub size: u64,
}

/// Mathematical value of a [`Pfs0`].
pub struct Pfs0View {
    pub files: Seq<Pfs0FileView>,
    pub data_offset: u64,
}

impl View for Pfs0File {
    type V = Pfs0FileView;

    open spec fn view(&self) -> Pfs0FileView {
        Pfs0FileView { name: self.name@, offset: self.offset, size: self.size }
    }
}

/// The values of a list of entries.
pub open spec fn file_views(files: Seq<Pfs0File>) -> Seq<Pfs0FileView> {
    Seq::new(files.len(), |i: int| files[i]@)
}

impl View for Pfs0 {
    type V = Pfs0View;

    open spec fn view(&self) -> Pfs0View {
        Pfs0View { files: file_views(self.files@), data_offset: self.data_offset }
    }
}

/// Offset of the entry with index `i` in an archive that starts at `p`.
pub open spec fn entry_at(p: int, i: int) -> int {
    p + HEADER_SIZE + ENTRY_SIZE * i
}

/// The string table of the archive at offset `p` of `b`.
pub open spec fn string_table(b: Seq<u8>, p: int) -> Seq<u8> {
    let start = entry_at(p, le_u32_at(b, p + 4) as int);
    b.subrange(start, start + le_u32_at(b, p + 8))
}

/// The entry with index `i` of the archive at offset `p` of `b`.
pub open spec fn pfs0_entry(b: Seq<u8>, p: int, i: int) -> Result<Pfs0FileView, Error> {
    let e = entry_at(p, i);
    match null_string_at(string_table(b, p), le_u32_at(b, e + 0x10) as int) {
        Err(err) => Err(err),
        Ok(name) => Ok(Pfs0FileView { name, offset: le_u64_at(b, e), size: le_u64_at(b, e + 8) }),
    }
}

/// The first `n` entries of the archive at offset `p` of `b`, or the error
/// of the first entry that has one.
pub open spec fn pfs0_entries(b: Seq<u8>, p: int, n: int) -> Result<Seq<Pfs0FileView>, Error>
    decreases n,
{
    if n <= 0 {
        Ok(Seq::empty())
    } else {
        match pfs0_entries(b, p, n - 1) {
            Err(e) => Err(e),
            Ok(files) => match pfs0_entry(b, p, n - 1) {
                Err(e) => Err(e),
                Ok(f) => Ok(files.push(f)),
            },
        }
    }
}

/// What parsing the bytes `b` as a PFS0 that starts at offset `p` yields.
///
/// The data section begins right after the string table, so its offset is
/// `p + 0x10 + 0x18 * count + string_table_size`.
pub open spec fn pfs0_at(b: Seq<u8>, p: int) -> Result<Pfs0View, Error> {
    let count = le_u32_at(b, p + 4) as int;
    let data_offset = entry_at(p, count) + le_u32_at(b, p + 8);
    if b.len() < p + 4 {
        Err(Error::UnexpectedEof)
    } else if b.subrange(p, p + 4) != PFS0_MAGIC@ {
        Err(Error::BadMagic)
    } else if b.len() < p + HEADER_SIZE || b.len() < data_offset {
        Err(Error::UnexpectedEof)
    } else {
        match pfs0_entries(b, p, count) {
            Err(e) => Err(e),
            Ok(files) => Ok(Pfs0View { files, data_offset: data_offset as u64 }),
        }
    }
}

/// An error at entry `k` is the error of every longer run of entries.
pub proof fn lemma_entries_error(b: Seq<u8>, p: int, k: int, n: int)
    requires
        0 <= k < n,
        pfs0_entries(b, p, k) is Ok,
        pfs0_entry(b, p, k) is Err,
    ensures
        pfs0_entries(b, p, n) == Err::<Seq<Pfs0FileView>, Error>(pfs0_entry(b, p, k)->Err_0),
    decreases n - k,
{
    if n > k + 1 {
        lemma_entries_error(b, p, k, n - 1);
    }
}

/// Index of the first entry of `files` at or after `from` that is named
/// `name`, or `files.len()` when there is none.
pub open spec fn find_file(files: Seq<Pfs0File>, name: Seq<char>, from: int) -> int
    decreases files.len() - from,
{
    if from < 0 || from >= files.len() {
        files.len() as int
    } else if files[from].name@ == name {
        from
    } else {
        find_file(files, name, from + 1)
    }
}

/// `find_file(files, name, from)` is the least index at or after `from`
/// whose entry is named `name`, and `files.len()` if there is no such
/// entry.
pub proof fn lemma_find_file(files: Seq<Pfs0File>, name: Seq<char>, from: int)
    requires
        0 <= from <= files.len(),
    ensures
        from <= find_file(files, name, from) <= files.len(),
        find_file(files, name, from) < files.len() ==> files[find_file(files, name, from)].name@
            == name,
        forall|j: int| from <= j < find_file(files, name, from) ==> (#[trigger] files[j]).name@ != name,
    decreases files.len() - from,
{
    if from < files.len() && files[from].name@ != name {
        lemma_find_file(files, name, from + 1);
    }
}

impl Pfs0 {
    /// Parse a PFS0 container from `r`, which must stand at the PFS0 magic.
    ///
    /// On success the stream stands at the first byte of the data section;
    /// on failure it stays where it was. File contents are not read; use
    /// [`Pfs0Reader`] for data access.
    pub fn parse(r: &mut Stream) -> (res: Result<Pfs0, Error>)
        ensures
            final(r).data@ == old(r).data@,
            match res {
                Ok(a) => pfs0_at(old(r).data@, old(r).pos as int) == Ok::<Pfs0View, Error>(a@)
                    && final(r).pos == a.data_offset,
                Err(e) => pfs0_at(old(r).data@, old(r).pos as int) == Err::<Pfs0View, Error>(e)
                    && final(r).pos == old(r).pos,
            },
    {
        let start = r.position();
        let res = Self::decode(r);
        if res.is_err() {
            r.seek(start);
        }
        res
    }

    /// Does the work of [`parse`]; on failure the stream is left where the
    /// failure was met.
    fn decode(r: &mut Stream) -> (res: Result<Pfs0, Error>)
        ensures
            final(r).data@ == old(r).data@,
            match res {
                Ok(a) => pfs0_at(old(r).data@, old(r).pos as int) == Ok::<Pfs0View, Error>(a@)
                    && final(r).pos == a.data_offset,
                Err(e) => pfs0_at(old(r).data@, old(r).pos as int) == Err::<Pfs0View, Error>(e),
            },
    {
        let ghost b = r.data@;
        let ghost p = r.pos as int;

        magic(r, &PFS0_MAGIC)?;
        let file_count = le_u32(r)?;
        let string_table_size = le_u32(r)?;
        let _reserved = le_u32(r)?;

        let mut entries: Vec<(u64, u64, u32)> = Vec::new();
        let mut i: u32 = 0;
        while i < file_count
            invariant
                r.data@ == b,
                b == old(r).data@,
                p == old(r).pos,
                i <= file_count,
                file_count == le_u32_at(b, p + 4),
                r.pos == entry_at(p, i as int),
                r.pos <= b.len(),
                entries@.len() == i,
                forall|j: int|
                    0 <= j < i ==> #[trigger] entries@[j] == (
                        le_u64_at(b, entry_at(p, j)),
                        le_u64_at(b, entry_at(p, j) + 8),
                        le_u32_at(b, entry_at(p, j) + 0x10),
                    ),
                b.len() < entry_at(p, file_count as int) ==> pfs0_at(b, p) == Err::<
                    Pfs0View,
                    Error,
                >(Error::UnexpectedEof),
            decreases file_count - i,
        {
            let offset = le_u64(r)?;
            let size = le_u64(r)?;
            let name_offset = le_u32(r)?;
            let _reserved = le_u32(r)?;
            entries.push((offset, size, name_offset));
            i += 1;
        }

        let table = bytesv(r, string_table_size as usize)?;
        let data_offset = r.position();

        let mut files: Vec<Pfs0File> = Vec::new();
        let mut k: usize = 0;
        assert(file_views(files@) =~= Seq::empty());
        while k < entries.len()
            invariant
                r.data@ == b,
                b == old(r).data@,
                p == old(r).pos,
                r.pos == data_offset,
                pfs0_at(b, p) == match pfs0_entries(b, p, file_count as int) {
                    Err(e) => Err::<Pfs0View, Error>(e),
                    Ok(files) => Ok(Pfs0View { files, data_offset }),
                },
                k <= entries@.len(),
                entries@.len() == file_count,
                file_count == le_u32_at(b, p + 4),
                table@ == string_table(b, p),
                forall|j: int|
                    0 <= j < file_count ==> #[trigger] entries@[j] == (
                        le_u64_at(b, entry_at(p, j)),
                        le_u64_at(b, entry_at(p, j) + 8),
                        le_u32_at(b, entry_at(p, j) + 0x10),
                    ),
                files@.len() == k,
                pfs0_entries(b, p, k as int) == Ok::<Seq<Pfs0FileView>, Error>(
                    file_views(files@),
                ),
            decreases entries@.len() - k,
        {
            let ghost before = file_views(files@);
            let (offset, size, name_offset) = entries[k];
            match null_string(table.as_slice(), name_offset as usize) {
                Err(e) => {
                    proof {
                        lemma_entries_error(b, p, k as int, file_count as int);
                    }
                    return Err(e);
                },
                Ok(name) => {
                    files.push(Pfs0File { name, offset, size });
                },
            }
            proof {
                assert(file_views(files@) =~= before.push(files@[k as int]@));
            }
            k += 1;
        }

        Ok(Pfs0 { files, data_offset })
    }

    /// Find a file by name: the first entry named `name`, or nothing when no
    /// entry has that name.
    pub fn get_file_by_name(&self, name: &str) -> (res: Option<&Pfs0File>)
        ensures
            match res {
                Some(f) => find_file(self.files@, name@, 0) < self.files@.len() && *f
                    == self.files@[find_file(self.files@, name@, 0)] && f.name@ == name@,
                None => find_file(self.files@, name@, 0) == self.files@.len() && forall|j: int|
                    0 <= j < self.files@.len() ==> (#[trigger] self.files@[j]).name@ != name@,
            },
    {
        proof {
            lemma_find_file(self.files@, name@, 0);
        }
        let mut i: usize = 0;
        while i < self.files.len()
            invariant
                i <= self.files@.len(),
                find_file(self.files@, name@, 0) == find_file(self.files@, name@, i as int),
            decreases self.files@.len() - i,
        {
            let f = &self.files[i];
            if str_eq(f.name.as_str(), name) {
                return Some(f);
            }
            i += 1;
        }
        None
    }
}

/// Reader over a parsed [`Pfs0`] container: owns the stream the container
/// was parsed from and hands out the bytes of its files.
pub struct Pfs0Reader {
    /// The stream that holds the container.
    pub inner: Stream,
    /// Parsed metadata.
    pub pfs0: Pfs0,
}

impl Pfs0Reader {
    /// Parse a PFS0 at the current position of `reader` and wrap the stream.
    pub fn new(reader: Stream) -> (res: Result<Pfs0Reader, Error>)
        ensures
            match res {
                Ok(s) => pfs0_at(reader.data@, reader.pos as int) == Ok::<Pfs0View, Error>(
                    s.pfs0@,
                ) && s.inner.data@ == reader.data@ && s.inner.pos == s.pfs0.data_offset,
                Err(e) => pfs0_at(reader.data@, reader.pos as int) == Err::<Pfs0View, Error>(e),
            },
    {
        let mut reader = reader;
        let pfs0 = Pfs0::parse(&mut reader)?;
        Ok(Pfs0Reader { inner: reader, pfs0 })
    }

    /// Open a file: moves the stream to the file's first byte and returns
    /// the bounded view of its payload, which never extends past the
    /// declared size nor past the end of the stream.
    ///
    /// Fails with [`Error::InvalidRange`], without moving, exactly when the
    /// file's absolute offset does not fit in 64 bits.
    pub fn read_file(&mut self, file: &Pfs0File) -> (res: Result<&[u8], Error>)
        ensures
            final(self).inner.data@ == old(self).inner.data@,
            final(self).pfs0 == old(self).pfs0,
            match res {
                Ok(bytes) => old(self).pfs0.data_offset + file.offset <= u64::MAX
                    && final(self).inner.pos == old(self).pfs0.data_offset + file.offset
                    && bytes@ == window(
                    old(self).inner.data@,
                    old(self).pfs0.data_offset + file.offset,
                    file.size as int,
                ) && bytes@.len() <= file.size,
                Err(e) => old(self).pfs0.data_offset + file.offset > u64::MAX && e
                    == Error::InvalidRange && final(self).inner.pos == old(self).inner.pos,
            },
    {
        match self.pfs0.data_offset.checked_add(file.offset) {
            None => Err(Error::InvalidRange),
            Some(start) => {
                self.inner.seek(start);
                Ok(self.inner.take(file.size))
            },
        }
    }

    /// All file entries, in declaration order.
    pub fn files(&self) -> (files: &Vec<Pfs0File>)
        ensures
            files == &self.pfs0.files,
    {
        &self.pfs0.files
    }

    /// Find a file by name. Returns `None` if not found.
    pub fn get_file_by_name(&self, name: &str) -> (res: Option<&Pfs0File>)
        ensures
            match res {
                Some(f) => find_file(self.pfs0.files@, name@, 0) < self.pfs0.files@.len() && *f
                    == self.pfs0.files@[find_file(self.pfs0.files@, name@, 0)] && f.name@ == name@,
                None => find_file(self.pfs0.files@, name@, 0) == self.pfs0.files@.len()
                    && forall|j: int|
                    0 <= j < self.pfs0.files@.len() ==> (#[trigger] self.pfs0.files@[j]).name@
                        != name@,
            },
    {
        self.pfs0.get_file_by_name(name)
    }

    /// The entry named `name`, which must exist.
    pub fn index(&self, name: &str) -> (f: &Pfs0File)
        requires
            find_file(self.pfs0.files@, name@, 0) < self.pfs0.files@.len(),
        ensures
            *f == self.pfs0.files@[find_file(self.pfs0.files@, name@, 0)],
    {
        match self.pfs0.get_file_by_name(name) {
            Some(f) => f,
            None => {
                proof {
                    assert(false);
                }
                &self.pfs0.files[0]
            },
        }
    }

    /// Consume the reader, returning the stream.
    pub fn into_inner(self) -> (s: Stream)
        ensures
            s == self.inner,
    {
        self.inner
    }
}

} // verus!
