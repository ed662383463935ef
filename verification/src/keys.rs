//! Key management for Nintendo Switch cryptography.
//!
//! A [`KeySet`] is a plain container of already-derived AES keys:
//!
//! * the **header key**, which decrypts the AES-XTS NCA header;
//! * the **key area encryption keys** (KAEK), one per content class
//!   (Application / Ocean / System) and firmware generation;
//! * the **title keys**, looked up by rights ID.
//!
//! ## Key file format
//! Key files are text, one entry per line, of the form `name = hex`. White
//! space around the tokens is ignored, as are blank lines and lines that
//! begin with `;`. Lines that name an unknown key or hold malformed hex are
//! skipped.

use vstd::prelude::*;
use std::collections::HashMap;
use crate::error::Error;
use crate::utils::{be_value, lemma_be_value_injective};
use crate::text::{
    find_char, index_of, lemma_index_of, same_chars, starts_with, strip_prefix, to_chars, trim, trimmed,
};

verus! {

/// Maximum number of master key generations understood by this library.
pub const MAX_KEY_GENERATION: usize = 32;

/// Key area encryption key index (determines which KAEK derivation chain is
/// used for a particular NCA).
#[derive(Debug, Clone, Copy, PartialEq, Eq, Structural)]
pub enum KaekIndex {
    /// Application content (most games).
    Application,
    /// Ocean content (game-card specific).
    Ocean,
    /// System content (OS modules).
    System,
}

/// The class with the given number: 0 is Application, 1 Ocean, 2 System.
pub open spec fn kaek_index_of(v: u8) -> Option<KaekIndex> {
    if v == 0 {
        Some(KaekIndex::Application)
    } else if v == 1 {
        Some(KaekIndex::Ocean)
    } else if v == 2 {
        Some(KaekIndex::System)
    } else {
        None
    }
}

impl KaekIndex {
    /// The number of this class.
    pub open spec fn ordinal(self) -> int {
        match self {
            KaekIndex::Application => 0,
            KaekIndex::Ocean => 1,
            KaekIndex::System => 2,
        }
    }

    /// The number of this class: the row of its keys in the key table.
    pub fn index(self) -> (i: usize)
        ensures
            i == self.ordinal(),
    {
        match self {
            KaekIndex::Application => 0,
            KaekIndex::Ocean => 1,
            KaekIndex::System => 2,
        }
    }

    /// The class with the given number. Numbers above 2 name no class and
    /// fail with `Error::Parse("invalid KAEK index")`.
    pub fn try_from(v: u8) -> (r: Result<KaekIndex, Error>)
        ensures
            match r {
                Ok(k) => kaek_index_of(v) == Some(k),
                Err(e) => kaek_index_of(v) is None && e == Error::Parse("invalid KAEK index"),
            },
    {
        match v {
            0 => Ok(KaekIndex::Application),
            1 => Ok(KaekIndex::Ocean),
            2 => Ok(KaekIndex::System),
            _ => Err(Error::Parse("invalid KAEK index")),
        }
    }
}

/// The value of a hexadecimal digit given as an ASCII byte.
pub open spec fn hex_digit(b: u8) -> Option<u8> {
    if 0x30 <= b <= 0x39 {
        Some((b - 0x30) as u8)
    } else if 0x61 <= b <= 0x66 {
        Some((b - 0x61 + 10) as u8)
    } else if 0x41 <= b <= 0x46 {
        Some((b - 0x41 + 10) as u8)
    } else {
        None
    }
}

/// Whether `c` is a hexadecimal digit.
pub open spec fn is_hex(c: char) -> bool {
    (c as u32) < 0x80 && hex_digit(c as u8) is Some
}

/// The value of the hexadecimal digit `c`.
pub open spec fn hex_value(c: char) -> int {
    hex_digit(c as u8)->0 as int
}

/// The `n` bytes that `s` spells in hexadecimal, two digits per byte, once
/// the white space around it is removed; `None` unless exactly `2 * n`
/// hexadecimal digits are left.
pub open spec fn hex_bytes(s: Seq<char>, n: int) -> Option<Seq<u8>> {
    let t = trimmed(s);
    if t.len() == 2 * n && (forall|i: int| 0 <= i < t.len() ==> is_hex(#[trigger] t[i])) {
        Some(Seq::new(n as nat, |i: int| (hex_value(t[2 * i]) * 16 + hex_value(t[2 * i + 1])) as u8))
    } else {
        None
    }
}

/// The number that the hexadecimal digits `s` spell.
pub open spec fn hex_number(s: Seq<char>) -> nat
    decreases s.len(),
{
    if s.len() == 0 {
        0
    } else {
        (hex_number(s.drop_last()) * 16 + hex_value(s.last())) as nat
    }
}

/// The digits of a number that may carry a leading plus sign.
pub open spec fn unsigned_digits(s: Seq<char>) -> Seq<char> {
    if s.len() > 0 && s[0] == '+' {
        s.subrange(1, s.len() as int)
    } else {
        s
    }
}

/// The key generation that `s` names: a hexadecimal number below
/// [`MAX_KEY_GENERATION`], written with at least one digit and possibly a
/// leading plus sign.
pub open spec fn generation_of(s: Seq<char>) -> Option<usize> {
    let d = unsigned_digits(s);
    if d.len() > 0 && (forall|i: int| 0 <= i < d.len() ==> is_hex(#[trigger] d[i])) && hex_number(d)
        < MAX_KEY_GENERATION {
        Some(hex_number(d) as usize)
    } else {
        None
    }
}

/// Decode one hexadecimal digit.
pub fn hex_nibble(b: u8) -> (r: Result<u8, ()>)
    ensures
        match r {
            Ok(v) => hex_digit(b) == Some(v) && v < 16,
            Err(_) => hex_digit(b) is None,
        },
{
    if 0x30 <= b && b <= 0x39 {
        Ok(b - 0x30)
    } else if 0x61 <= b && b <= 0x66 {
        Ok(b - 0x61 + 10)
    } else if 0x41 <= b && b <= 0x46 {
        Ok(b - 0x41 + 10)
    } else {
        Err(())
    }
}

/// Decode one hexadecimal digit given as a character.
fn hex_char(c: char) -> (r: Option<u8>)
    ensures
        match r {
            Some(v) => is_hex(c) && v == hex_value(c) && v < 16,
            None => !is_hex(c),
        },
{
    let u = c as u32;
    if u >= 0x80 {
        return None;
    }
    match hex_nibble(u as u8) {
        Ok(v) => Some(v),
        Err(_) => None,
    }
}

/// Decode `2 * N` hexadecimal digits, possibly surrounded by white space,
/// into `N` bytes.
pub fn decode_hex_n<const N: usize>(s: &[char]) -> (r: Result<[u8; N], ()>)
    ensures
        match r {
            Ok(a) => hex_bytes(s@, N as int) == Some(a@),
            Err(_) => hex_bytes(s@, N as int) is None,
        },
{
    let t = trim(s);
    assert(t@.len() == t.len());
    if N > usize::MAX / 2 || t.len() != N * 2 {
        return Err(());
    }
    let mut out = [0u8;N];
    let mut i: usize = 0;
    while i < N
        invariant
            i <= N,
            N <= usize::MAX / 2,
            t@ == trimmed(s@),
            t@.len() == 2 * N,
            forall|j: int| 0 <= j < 2 * i ==> is_hex(#[trigger] t@[j]),
            forall|j: int|
                0 <= j < i ==> out@[j] == (hex_value(t@[2 * j]) * 16 + hex_value(
                    t@[2 * j + 1],
                )) as u8,
        decreases N - i,
    {
        let hi = match hex_char(t[2 * i]) {
            Some(v) => v,
            None => {
                return Err(());
            },
        };
        let lo = match hex_char(t[2 * i + 1]) {
            Some(v) => v,
            None => {
                return Err(());
            },
        };
        out[i] = hi * 16 + lo;
        i += 1;
    }
    assert(out@ =~= hex_bytes(s@, N as int)->0);
    Ok(out)
}

/// Decode 32 hexadecimal digits into 16 bytes.
pub fn decode_hex_16(s: &[char]) -> (r: Result<[u8; 16], ()>)
    ensures
        match r {
            Ok(a) => hex_bytes(s@, 16) == Some(a@),
            Err(_) => hex_bytes(s@, 16) is None,
        },
{
    decode_hex_n::<16>(s)
}

/// Decode 64 hexadecimal digits into 32 bytes.
pub fn decode_hex_32(s: &[char]) -> (r: Result<[u8; 32], ()>)
    ensures
        match r {
            Ok(a) => hex_bytes(s@, 32) == Some(a@),
            Err(_) => hex_bytes(s@, 32) is None,
        },
{
    decode_hex_n::<32>(s)
}

/// A longer run of digits spells a number that is at least as large.
proof fn lemma_hex_number_grows(d: Seq<char>, j: int, k: int)
    requires
        0 <= j <= k <= d.len(),
        forall|i: int| 0 <= i < d.len() ==> is_hex(#[trigger] d[i]),
    ensures
        hex_number(d.take(j)) <= hex_number(d.take(k)),
    decreases k - j,
{
    if j < k {
        lemma_hex_number_grows(d, j, k - 1);
        assert(d.take(k).drop_last() =~= d.take(k - 1));
        assert(is_hex(d[k - 1]));
    }
}

/// Parse a key generation: a hexadecimal number below
/// [`MAX_KEY_GENERATION`].
pub fn parse_generation(s: &[char]) -> (r: Option<usize>)
    ensures
        r == generation_of(s@),
{
    let d = if s.len() > 0 && s[0] == '+' {
        vstd::slice::slice_subrange(s, 1, s.len())
    } else {
        s
    };
    if d.len() == 0 {
        return None;
    }
    let mut v: usize = 0;
    let mut i: usize = 0;
    while i < d.len()
        invariant
            i <= d@.len(),
            d@ == unsigned_digits(s@),
            d@.len() > 0,
            forall|j: int| 0 <= j < i ==> is_hex(#[trigger] d@[j]),
            v == hex_number(d@.take(i as int)),
            v < MAX_KEY_GENERATION,
        decreases d@.len() - i,
    {
        let digit = match hex_char(d[i]) {
            Some(x) => x,
            None => {
                return None;
            },
        };
        proof {
            assert(d@.take(i + 1).drop_last() =~= d@.take(i as int));
        }
        v = v * 16 + digit as usize;
        if v >= MAX_KEY_GENERATION {
            proof {
                if forall|j: int| 0 <= j < d@.len() ==> is_hex(#[trigger] d@[j]) {
                    lemma_hex_number_grows(d@, i + 1, d@.len() as int);
                    assert(d@.take(d@.len() as int) =~= d@);
                }
            }
            return None;
        }
        i += 1;
    }
    assert(d@.take(i as int) =~= d@);
    Some(v)
}

/// The largest number that `n` bytes can spell, for `n` up to 16.
pub open spec fn max_be_value(n: int) -> int {
    if n <= 0 {
        0
    } else if n == 1 {
        0xFF
    } else if n == 2 {
        0xFFFF
    } else if n == 3 {
        0xFF_FFFF
    } else if n == 4 {
        0xFFFF_FFFF
    } else if n == 5 {
        0xFF_FFFF_FFFF
    } else if n == 6 {
        0xFFFF_FFFF_FFFF
    } else if n == 7 {
        0xFF_FFFF_FFFF_FFFF
    } else if n == 8 {
        0xFFFF_FFFF_FFFF_FFFF
    } else if n == 9 {
        0xFF_FFFF_FFFF_FFFF_FFFF
    } else if n == 10 {
        0xFFFF_FFFF_FFFF_FFFF_FFFF
    } else if n == 11 {
        0xFF_FFFF_FFFF_FFFF_FFFF_FFFF
    } else if n == 12 {
        0xFFFF_FFFF_FFFF_FFFF_FFFF_FFFF
    } else if n == 13 {
        0xFF_FFFF_FFFF_FFFF_FFFF_FFFF_FFFF
    } else if n == 14 {
        0xFFFF_FFFF_FFFF_FFFF_FFFF_FFFF_FFFF
    } else if n == 15 {
        0xFF_FFFF_FFFF_FFFF_FFFF_FFFF_FFFF_FFFF
    } else {
        0xFFFF_FFFF_FFFF_FFFF_FFFF_FFFF_FFFF_FFFF
    }
}

/// The number under which a title key is filed: its rights ID read as a
/// big-endian integer.
pub open spec fn rights_id_number(id: Seq<u8>) -> u128 {
    be_value(id) as u128
}

/// Up to 16 bytes spell a number that fits in 128 bits.
pub proof fn lemma_be_value_bound(s: Seq<u8>)
    requires
        s.len() <= 16,
    ensures
        be_value(s) <= max_be_value(s.len() as int),
    decreases s.len(),
{
    if s.len() > 0 {
        lemma_be_value_bound(s.drop_last());
    }
}

/// Distinct rights IDs are filed under distinct numbers.
pub proof fn lemma_rights_id_number_injective(a: Seq<u8>, b: Seq<u8>)
    requires
        a.len() == 16,
        b.len() == 16,
        rights_id_number(a) == rights_id_number(b),
    ensures
        a == b,
{
    lemma_be_value_bound(a);
    lemma_be_value_bound(b);
    lemma_be_value_injective(a, b);
}

/// The number under which the title key of `id` is filed.
pub fn rights_id_key(id: &[u8; 16]) -> (k: u128)
    ensures
        k == rights_id_number(id@),
{
    let mut k: u128 = 0;
    let mut i: usize = 0;
    while i < 16
        invariant
            i <= 16,
            k == be_value(id@.take(i as int)),
            k <= max_be_value(i as int),
        decreases 16 - i,
    {
        proof {
            assert(id@.take(i + 1).drop_last() =~= id@.take(i as int));
        }
        k = k * 256 + id[i] as u128;
        i += 1;
    }
    assert(id@.take(16) =~= id@);
    k
}

/// All keys needed to decrypt Switch content.
///
/// A key is either absent or has exactly its proper length; an absent key
/// is not the same as a key of zeros.
#[derive(Debug)]
pub struct KeySet {
    /// AES-XTS key pair (two 16-byte keys) used to decrypt NCA headers.
    pub header_key: Option<[u8; 32]>,
    /// Key area encryption keys, indexed by class then by generation.
    pub kaek: [[Option<[u8; 16]>; MAX_KEY_GENERATION]; 3],
    /// Title keys, filed under the number of their 16-byte rights ID (see
    /// [`rights_id_key`]).
    pub title_keys: HashMap<u128, [u8; 16]>,
}

/// Mathematical value of a [`KeySet`].
pub struct KeySetView {
    /// The header key, if present.
    pub header_key: Option<Seq<u8>>,
    /// The key area encryption keys that are present, by class number and
    /// generation.
    pub kaek: Map<(int, int), Seq<u8>>,
    /// The title keys, by rights ID.
    pub title_keys: Map<Seq<u8>, Seq<u8>>,
}

impl View for KeySet {
    type V = KeySetView;

    open spec fn view(&self) -> KeySetView {
        KeySetView {
            header_key: match self.header_key {
                Some(k) => Some(k@),
                None => None,
            },
            kaek: Map::new(
                |k: (int, int)| 0 <= k.0 < 3 && 0 <= k.1 < 32 && self.kaek[k.0][k.1] is Some,
                |k: (int, int)| self.kaek[k.0][k.1]->0@,
            ),
            title_keys: Map::new(
                |id: Seq<u8>| id.len() == 16 && self.title_keys@.contains_key(rights_id_number(id)),
                |id: Seq<u8>| self.title_keys@[rights_id_number(id)]@,
            ),
        }
    }
}

/// The key set that holds no key.
pub open spec fn empty_key_set() -> KeySetView {
    KeySetView { header_key: None, kaek: Map::empty(), title_keys: Map::empty() }
}

/// What a line of a key file says: the name before the first `=` and the
/// value after it, both without surrounding white space. Blank lines, lines
/// that begin with `;` and lines without `=` say nothing.
pub open spec fn key_line(line: Seq<char>) -> Option<(Seq<char>, Seq<char>)> {
    let l = trimmed(line);
    let eq = index_of(l, '=', 0);
    if l.len() == 0 || l[0] == ';' || eq >= l.len() {
        None
    } else {
        Some((trimmed(l.subrange(0, eq)), trimmed(l.subrange(eq + 1, l.len() as int))))
    }
}

/// A key named by a line of a production key file.
pub enum ProdEntry {
    /// The header key.
    HeaderKey(Seq<u8>),
    /// The key area encryption key of a class and a generation.
    Kaek(int, int, Seq<u8>),
}

/// The key area encryption key that the entry `name = value` gives class
/// `index`, whose key names begin with `prefix`.
pub open spec fn kaek_entry(name: Seq<char>, value: Seq<char>, index: int, prefix: Seq<char>)
    -> Option<ProdEntry> {
    let generation = generation_of(name.subrange(prefix.len() as int, name.len() as int));
    let key = hex_bytes(value, 16);
    if generation is Some && key is Some {
        Some(ProdEntry::Kaek(index, generation->0 as int, key->0))
    } else {
        None
    }
}

/// The key that a line of a production key file names, if it names one that
/// this library knows and gives it well-formed.
pub open spec fn prod_entry(line: Seq<char>) -> Option<ProdEntry> {
    match key_line(line) {
        None => None,
        Some((name, value)) => if name == "header_key"@ {
            match hex_bytes(value, 32) {
                Some(k) => Some(ProdEntry::HeaderKey(k)),
                None => None,
            }
        } else if starts_with(name, "key_area_key_application_"@) {
            kaek_entry(name, value, 0, "key_area_key_application_"@)
        } else if starts_with(name, "key_area_key_ocean_"@) {
            kaek_entry(name, value, 1, "key_area_key_ocean_"@)
        } else if starts_with(name, "key_area_key_system_"@) {
            kaek_entry(name, value, 2, "key_area_key_system_"@)
        } else {
            None
        },
    }
}

/// The key set `v` after a line of a production key file.
pub open spec fn after_prod_line(v: KeySetView, line: Seq<char>) -> KeySetView {
    match prod_entry(line) {
        None => v,
        Some(ProdEntry::HeaderKey(k)) => KeySetView {
            header_key: Some(k),
            kaek: v.kaek,
            title_keys: v.title_keys,
        },
        Some(ProdEntry::Kaek(index, generation, k)) => KeySetView {
            header_key: v.header_key,
            kaek: v.kaek.insert((index, generation), k),
            title_keys: v.title_keys,
        },
    }
}

/// The key set `v` after the lines of a production key file from offset
/// `from` of `text` on. Lines end at `'\n'`; later lines override earlier
/// ones.
pub open spec fn after_prod_keys(v: KeySetView, text: Seq<char>, from: int) -> KeySetView
    decreases text.len() - from,
{
    let end = index_of(text, '\n', from);
    if from < 0 || from > text.len() {
        v
    } else if end >= text.len() {
        after_prod_line(v, text.subrange(from, text.len() as int))
    } else {
        proof {
            lemma_index_of(text, '\n', from);
        }
        after_prod_keys(after_prod_line(v, text.subrange(from, end)), text, end + 1)
    }
}

/// The rights ID and the title key that a line of a title key file gives,
/// if both are well-formed.
pub open spec fn title_entry(line: Seq<char>) -> Option<(Seq<u8>, Seq<u8>)> {
    match key_line(line) {
        None => None,
        Some((rights, key)) => if hex_bytes(rights, 16) is Some && hex_bytes(key, 16) is Some {
            Some((hex_bytes(rights, 16)->0, hex_bytes(key, 16)->0))
        } else {
            None
        },
    }
}

/// The key set `v` after a line of a title key file.
pub open spec fn after_title_line(v: KeySetView, line: Seq<char>) -> KeySetView {
    match title_entry(line) {
        None => v,
        Some((rights, key)) => KeySetView {
            header_key: v.header_key,
            kaek: v.kaek,
            title_keys: v.title_keys.insert(rights, key),
        },
    }
}

/// The key set `v` after the lines of a title key file from offset `from`
/// of `text` on.
pub open spec fn after_title_keys(v: KeySetView, text: Seq<char>, from: int) -> KeySetView
    decreases text.len() - from,
{
    let end = index_of(text, '\n', from);
    if from < 0 || from > text.len() {
        v
    } else if end >= text.len() {
        after_title_line(v, text.subrange(from, text.len() as int))
    } else {
        proof {
            lemma_index_of(text, '\n', from);
        }
        after_title_keys(after_title_line(v, text.subrange(from, end)), text, end + 1)
    }
}

/// Split an entry line into its name and its value.
pub fn split_key_line(line: &[char]) -> (r: Option<(&[char], &[char])>)
    ensures
        match r {
            Some((name, value)) => key_line(line@) == Some((name@, value@)),
            None => key_line(line@) is None,
        },
{
    let l = trim(line);
    if l.len() == 0 || l[0] == ';' {
        return None;
    }
    let eq = find_char(l, '=', 0);
    if eq >= l.len() {
        return None;
    }
    let name = trim(vstd::slice::slice_subrange(l, 0, eq));
    let value = trim(vstd::slice::slice_subrange(l, eq + 1, l.len()));
    Some((name, value))
}

/// A key read from a line of a production key file.
pub enum ProdKey {
    /// The header key.
    HeaderKey([u8; 32]),
    /// The key area encryption key of a class and a generation.
    Kaek(usize, usize, [u8; 16]),
}

impl View for ProdKey {
    type V = ProdEntry;

    open spec fn view(&self) -> ProdEntry {
        match self {
            ProdKey::HeaderKey(k) => ProdEntry::HeaderKey(k@),
            ProdKey::Kaek(index, generation, k) => ProdEntry::Kaek(
                *index as int,
                *generation as int,
                k@,
            ),
        }
    }
}

/// Read the key area encryption key of class `index` from the entry
/// `name = value`, where `name` begins with `prefix`.
fn parse_kaek(name: &[char], value: &[char], index: usize, prefix: &[char]) -> (r: Option<ProdKey>)
    requires
        starts_with(name@, prefix@),
        index < 3,
    ensures
        match r {
            Some(k) => kaek_entry(name@, value@, index as int, prefix@) == Some(k@) && k is Kaek
                && k->Kaek_0 < 3 && k->Kaek_1 < MAX_KEY_GENERATION,
            None => kaek_entry(name@, value@, index as int, prefix@) is None,
        },
{
    let generation = parse_generation(vstd::slice::slice_subrange(name, prefix.len(), name.len()));
    let key = decode_hex_16(value);
    match (generation, key) {
        (Some(g), Ok(k)) => Some(ProdKey::Kaek(index, g, k)),
        _ => None,
    }
}

/// Read a line of a production key file.
pub fn parse_prod_line(line: &[char]) -> (r: Option<ProdKey>)
    ensures
        match r {
            Some(k) => prod_entry(line@) == Some(k@) && (k is Kaek ==> k->Kaek_0 < 3 && k->Kaek_1
                < MAX_KEY_GENERATION),
            None => prod_entry(line@) is None,
        },
{
    let (name, value) = match split_key_line(line) {
        Some(pair) => pair,
        None => {
            return None;
        },
    };
    let header = to_chars("header_key");
    if same_chars(name, header.as_slice()) {
        return match decode_hex_32(value) {
            Ok(k) => Some(ProdKey::HeaderKey(k)),
            Err(_) => None,
        };
    }
    let application = to_chars("key_area_key_application_");
    if strip_prefix(name, application.as_slice()).is_some() {
        return parse_kaek(name, value, 0, application.as_slice());
    }
    let ocean = to_chars("key_area_key_ocean_");
    if strip_prefix(name, ocean.as_slice()).is_some() {
        return parse_kaek(name, value, 1, ocean.as_slice());
    }
    let system = to_chars("key_area_key_system_");
    if strip_prefix(name, system.as_slice()).is_some() {
        return parse_kaek(name, value, 2, system.as_slice());
    }
    None
}

/// Read a line of a title key file.
pub fn parse_title_line(line: &[char]) -> (r: Option<([u8; 16], [u8; 16])>)
    ensures
        match r {
            Some((rights, key)) => title_entry(line@) == Some((rights@, key@)),
            None => title_entry(line@) is None,
        },
{
    let (rights, key) = match split_key_line(line) {
        Some(pair) => pair,
        None => {
            return None;
        },
    };
    match (decode_hex_16(rights), decode_hex_16(key)) {
        (Ok(r), Ok(k)) => Some((r, k)),
        _ => None,
    }
}

impl KeySet {
    /// Create an empty key set.
    pub fn new() -> (k: KeySet)
        ensures
            k@ == empty_key_set(),
    {
        let k = KeySet {
            header_key: None,
            kaek: [[None;MAX_KEY_GENERATION];3],
            title_keys: HashMap::new(),
        };
        assert(k@.kaek =~= Map::empty());
        assert(k@.title_keys =~= Map::empty());
        k
    }

    /// Store the header key.
    pub fn set_header_key(&mut self, key: [u8; 32])
        ensures
            final(self)@ == (KeySetView {
                header_key: Some(key@),
                kaek: old(self)@.kaek,
                title_keys: old(self)@.title_keys,
            }),
    {
        self.header_key = Some(key);
        assert(self@.kaek =~= old(self)@.kaek);
        assert(self@.title_keys =~= old(self)@.title_keys);
    }

    /// Store the key area encryption key of a class and a generation.
    pub fn set_kaek(&mut self, index: usize, generation: usize, key: [u8; 16])
        requires
            index < 3,
            generation < MAX_KEY_GENERATION,
        ensures
            final(self)@ == (KeySetView {
                header_key: old(self)@.header_key,
                kaek: old(self)@.kaek.insert((index as int, generation as int), key@),
                title_keys: old(self)@.title_keys,
            }),
    {
        self.kaek[index][generation] = Some(key);
        assert(self@.kaek =~= old(self)@.kaek.insert((index as int, generation as int), key@));
        assert(self@.title_keys =~= old(self)@.title_keys);
    }

    /// Store the title key of a rights ID, replacing the one stored for it
    /// before, if any.
    pub fn insert_title_key(&mut self, rights_id: [u8; 16], key: [u8; 16])
        ensures
            final(self)@ == (KeySetView {
                header_key: old(self)@.header_key,
                kaek: old(self)@.kaek,
                title_keys: old(self)@.title_keys.insert(rights_id@, key@),
            }),
    {
        broadcast use vstd::std_specs::hash::group_hash_axioms;

        let n = rights_id_key(&rights_id);
        self.title_keys.insert(n, key);
        proof {
            assert(self@.kaek =~= old(self)@.kaek);
            assert forall|id: Seq<u8>|
                id.len() == 16 && rights_id_number(id) == n implies id == rights_id@ by {
                lemma_rights_id_number_injective(id, rights_id@);
            }
            assert(self@.title_keys =~= old(self)@.title_keys.insert(rights_id@, key@));
        }
    }

    /// Load keys from the text of a `prod.keys`-style file.
    ///
    /// Lines beginning with `;` and blank lines are ignored. Each valid line
    /// has the form `key_name = hexvalue`. Unknown key names and malformed
    /// values are skipped.
    pub fn load_prod_keys(&mut self, text: &str)
        ensures
            final(self)@ == after_prod_keys(old(self)@, text@, 0),
    {
        let chars = to_chars(text);
        let t = chars.as_slice();
        let mut pos: usize = 0;
        loop
            invariant_except_break
                pos <= t@.len(),
                after_prod_keys(old(self)@, t@, 0) == after_prod_keys(self@, t@, pos as int),
            invariant
                t@ == text@,
            ensures
                self@ == after_prod_keys(old(self)@, t@, 0),
            decreases t@.len() - pos,
        {
            let end = find_char(t, '\n', pos);
            let line = vstd::slice::slice_subrange(t, pos, end);
            match parse_prod_line(line) {
                Some(ProdKey::HeaderKey(k)) => {
                    self.set_header_key(k);
                },
                Some(ProdKey::Kaek(index, generation, k)) => {
                    self.set_kaek(index, generation, k);
                },
                None => {},
            }
            if end >= t.len() {
                break ;
            }
            pos = end + 1;
        }
    }

    /// Load title keys from the text of a `title.keys`-style file.
    ///
    /// Each line: `<32-hex-char rights_id> = <32-hex-char title_key>`.
    pub fn load_title_keys(&mut self, text: &str)
        ensures
            final(self)@ == after_title_keys(old(self)@, text@, 0),
    {
        let chars = to_chars(text);
        let t = chars.as_slice();
        let mut pos: usize = 0;
        loop
            invariant_except_break
                pos <= t@.len(),
                after_title_keys(old(self)@, t@, 0) == after_title_keys(self@, t@, pos as int),
            invariant
                t@ == text@,
            ensures
                self@ == after_title_keys(old(self)@, t@, 0),
            decreases t@.len() - pos,
        {
            let end = find_char(t, '\n', pos);
            let line = vstd::slice::slice_subrange(t, pos, end);
            match parse_title_line(line) {
                Some((rights, key)) => {
                    self.insert_title_key(rights, key);
                },
                None => {},
            }
            if end >= t.len() {
                break ;
            }
            pos = end + 1;
        }
    }

    /// Look up the KAEK for the given class and firmware generation.
    pub fn get_kaek(&self, index: KaekIndex, generation: u8) -> (r: Option<&[u8; 16]>)
        ensures
            match r {
                Some(k) => self@.kaek.contains_key((index.ordinal(), generation as int)) && k@
                    == self@.kaek[(index.ordinal(), generation as int)],
                None => !self@.kaek.contains_key((index.ordinal(), generation as int)),
            },
    {
        let g = generation as usize;
        if g >= MAX_KEY_GENERATION {
            return None;
        }
        self.kaek[index.index()][g].as_ref()
    }

    /// Look up a title key by rights ID.
    pub fn get_title_key(&self, rights_id: &[u8; 16]) -> (r: Option<&[u8; 16]>)
        ensures
            match r {
                Some(k) => self@.title_keys.contains_key(rights_id@) && k@
                    == self@.title_keys[rights_id@],
                None => !self@.title_keys.contains_key(rights_id@),
            },
    {
        broadcast use vstd::std_specs::hash::group_hash_axioms;

        let n = rights_id_key(rights_id);
        self.title_keys.get(&n)
    }
}

impl Default for KeySet {
    fn default() -> (k: KeySet)
        ensures
            k@ == empty_key_set(),
    {
        KeySet::new()
    }
}

} // verus!
