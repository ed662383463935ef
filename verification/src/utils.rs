//! Low-level read primitives shared by all parsers.
//!
//! Each function reads exactly the bytes it promises or fails with
//! [`Error::UnexpectedEof`], in which case the stream is left where it was.

use vstd::prelude::*;
use vstd::string::StringSliceAdditionalSpecFns;
use vstd::utf8::{decode_utf8, encode_utf8, encode_utf8_decode_utf8, valid_utf8};
use crate::error::Error;
use crate::stream::Stream;

verus! {

/// The little-endian 16-bit value stored at offset `i` of `b`.
pub open spec fn le_u16_at(b: Seq<u8>, i: int) -> u16 {
    (b[i] + b[i + 1] * 0x100) as u16
}

/// The little-endian 32-bit value stored at offset `i` of `b`.
pub open spec fn le_u32_at(b: Seq<u8>, i: int) -> u32 {
    (b[i] + b[i + 1] * 0x100 + b[i + 2] * 0x1_0000 + b[i + 3] * 0x100_0000) as u32
}

/// The little-endian 64-bit value stored at offset `i` of `b`.
pub open spec fn le_u64_at(b: Seq<u8>, i: int) -> u64 {
    (le_u32_at(b, i) + le_u32_at(b, i + 4) * 0x1_0000_0000) as u64
}

/// The big-endian 16-bit value stored at offset `i` of `b`.
pub open spec fn be_u16_at(b: Seq<u8>, i: int) -> u16 {
    (b[i] * 0x100 + b[i + 1]) as u16
}

/// The big-endian 32-bit value stored at offset `i` of `b`.
pub open spec fn be_u32_at(b: Seq<u8>, i: int) -> u32 {
    (b[i] * 0x100_0000 + b[i + 1] * 0x1_0000 + b[i + 2] * 0x100 + b[i + 3]) as u32
}

/// The 16-bit value at offset `i` of `b` in the given byte order.
pub open spec fn end_u16_at(b: Seq<u8>, i: int, le: bool) -> u16 {
    if le {
        le_u16_at(b, i)
    } else {
        be_u16_at(b, i)
    }
}

/// The 32-bit value at offset `i` of `b` in the given byte order.
pub open spec fn end_u32_at(b: Seq<u8>, i: int, le: bool) -> u32 {
    if le {
        le_u32_at(b, i)
    } else {
        be_u32_at(b, i)
    }
}

/// The big-endian number that the bytes `s` spell.
pub open spec fn be_value(s: Seq<u8>) -> nat
    decreases s.len(),
{
    if s.len() == 0 {
        0
    } else {
        be_value(s.drop_last()) * 256 + s.last() as nat
    }
}

/// 256 to the power `n`: the number of values that `n` bytes can spell.
pub open spec fn radix(n: nat) -> nat
    decreases n,
{
    if n == 0 {
        1
    } else {
        256 * radix((n - 1) as nat)
    }
}

/// The bytes `s` spell a number below 256 to the power of their count.
pub proof fn lemma_be_value_below_radix(s: Seq<u8>)
    ensures
        be_value(s) < radix(s.len()),
    decreases s.len(),
{
    if s.len() > 0 {
        lemma_be_value_below_radix(s.drop_last());
    }
}

/// Two byte strings of one length that spell the same number are equal.
pub proof fn lemma_be_value_injective(a: Seq<u8>, b: Seq<u8>)
    requires
        a.len() == b.len(),
        be_value(a) == be_value(b),
    ensures
        a == b,
    decreases a.len(),
{
    if a.len() > 0 {
        lemma_be_value_injective(a.drop_last(), b.drop_last());
        assert(a =~= a.drop_last().push(a.last()));
        assert(b =~= b.drop_last().push(b.last()));
    } else {
        assert(a =~= b);
    }
}

/// Index of the first zero byte of `b` at or after `from`, or `b.len()` when
/// there is none.
pub open spec fn nul_index(b: Seq<u8>, from: int) -> int
    decreases b.len() - from,
{
    if from < 0 || from >= b.len() {
        b.len() as int
    } else if b[from] == 0 {
        from
    } else {
        nul_index(b, from + 1)
    }
}

/// The text that lossy UTF-8 decoding yields for `bytes`: well-formed
/// sequences decode to their characters, every malformed sequence becomes
/// U+FFFD.
pub uninterp spec fn utf8_lossy(bytes: Seq<u8>) -> Seq<char>;

/// Lossy UTF-8 decoding, done by `String::from_utf8_lossy`.
///
/// Trusted: the result is the decoder's output for these bytes, and for
/// well-formed UTF-8 it is the ordinary decoding.
#[verifier::external_body]
pub(crate) fn lossy_string(bytes: &[u8]) -> (s: String)
    ensures
        s@ == utf8_lossy(bytes@),
        valid_utf8(bytes@) ==> s@ == decode_utf8(bytes@),
{
    String::from_utf8_lossy(bytes).into_owned()
}

/// Whether two strings hold the same text.
pub fn str_eq(a: &str, b: &str) -> (r: bool)
    ensures
        r == (a@ == b@),
{
    let x = a.as_bytes();
    let y = b.as_bytes();
    proof {
        encode_utf8_decode_utf8(a@);
        encode_utf8_decode_utf8(b@);
    }
    if x.len() != y.len() {
        return false;
    }
    let mut i: usize = 0;
    while i < x.len()
        invariant
            i <= x@.len(),
            x@.len() == y@.len(),
            x@ == encode_utf8(a@),
            y@ == encode_utf8(b@),
            forall|j: int| 0 <= j < i ==> x@[j] == y@[j],
        decreases x@.len() - i,
    {
        if x[i] != y[i] {
            return false;
        }
        i += 1;
    }
    assert(x@ =~= y@);
    true
}

/// Read one byte.
pub fn u8(r: &mut Stream) -> (res: Result<u8, Error>)
    ensures
        final(r).data@ == old(r).data@,
        match res {
            Ok(v) => old(r).can_read(1) && v == old(r).data@[old(r).pos as int] && final(r).pos
                == old(r).pos + 1,
            Err(e) => !old(r).can_read(1) && e == Error::UnexpectedEof && final(r).pos == old(r).pos,
        },
{
    let b = r.read_array::<1>()?;
    Ok(b[0])
}

/// Read a little-endian `u16`.
pub fn le_u16(r: &mut Stream) -> (res: Result<u16, Error>)
    ensures
        final(r).data@ == old(r).data@,
        match res {
            Ok(v) => old(r).can_read(2) && v == le_u16_at(old(r).data@, old(r).pos as int)
                && final(r).pos == old(r).pos + 2,
            Err(e) => !old(r).can_read(2) && e == Error::UnexpectedEof && final(r).pos == old(r).pos,
        },
{
    let b = r.read_array::<2>()?;
    Ok(b[0] as u16 + b[1] as u16 * 0x100)
}

/// Read a little-endian `u32`.
pub fn le_u32(r: &mut Stream) -> (res: Result<u32, Error>)
    ensures
        final(r).data@ == old(r).data@,
        match res {
            Ok(v) => old(r).can_read(4) && v == le_u32_at(old(r).data@, old(r).pos as int)
                && final(r).pos == old(r).pos + 4,
            Err(e) => !old(r).can_read(4) && e == Error::UnexpectedEof && final(r).pos == old(r).pos,
        },
{
    let b = r.read_array::<4>()?;
    Ok(b[0] as u32 + b[1] as u32 * 0x100 + b[2] as u32 * 0x1_0000 + b[3] as u32 * 0x100_0000)
}

/// Read a little-endian `u64`.
pub fn le_u64(r: &mut Stream) -> (res: Result<u64, Error>)
    ensures
        final(r).data@ == old(r).data@,
        match res {
            Ok(v) => old(r).can_read(8) && v == le_u64_at(old(r).data@, old(r).pos as int)
                && final(r).pos == old(r).pos + 8,
            Err(e) => !old(r).can_read(8) && e == Error::UnexpectedEof && final(r).pos == old(r).pos,
        },
{
    let b = r.read_array::<8>()?;
    let lo: u32 = b[0] as u32 + b[1] as u32 * 0x100 + b[2] as u32 * 0x1_0000 + b[3] as u32
        * 0x100_0000;
    let hi: u32 = b[4] as u32 + b[5] as u32 * 0x100 + b[6] as u32 * 0x1_0000 + b[7] as u32
        * 0x100_0000;
    Ok(lo as u64 + hi as u64 * 0x1_0000_0000)
}

/// Read a big-endian `u16`.
pub fn be_u16(r: &mut Stream) -> (res: Result<u16, Error>)
    ensures
        final(r).data@ == old(r).data@,
        match res {
            Ok(v) => old(r).can_read(2) && v == be_u16_at(old(r).data@, old(r).pos as int)
                && final(r).pos == old(r).pos + 2,
            Err(e) => !old(r).can_read(2) && e == Error::UnexpectedEof && final(r).pos == old(r).pos,
        },
{
    let b = r.read_array::<2>()?;
    Ok(b[0] as u16 * 0x100 + b[1] as u16)
}

/// Read a big-endian `u32`.
pub fn be_u32(r: &mut Stream) -> (res: Result<u32, Error>)
    ensures
        final(r).data@ == old(r).data@,
        match res {
            Ok(v) => old(r).can_read(4) && v == be_u32_at(old(r).data@, old(r).pos as int)
                && final(r).pos == old(r).pos + 4,
            Err(e) => !old(r).can_read(4) && e == Error::UnexpectedEof && final(r).pos == old(r).pos,
        },
{
    let b = r.read_array::<4>()?;
    Ok(b[0] as u32 * 0x100_0000 + b[1] as u32 * 0x1_0000 + b[2] as u32 * 0x100 + b[3] as u32)
}

/// Read a `u16` with caller-supplied endianness.
pub fn end_u16(r: &mut Stream, le: bool) -> (res: Result<u16, Error>)
    ensures
        final(r).data@ == old(r).data@,
        match res {
            Ok(v) => old(r).can_read(2) && v == end_u16_at(old(r).data@, old(r).pos as int, le)
                && final(r).pos == old(r).pos + 2,
            Err(e) => !old(r).can_read(2) && e == Error::UnexpectedEof && final(r).pos == old(r).pos,
        },
{
    if le {
        le_u16(r)
    } else {
        be_u16(r)
    }
}

/// Read a `u32` with caller-supplied endianness.
pub fn end_u32(r: &mut Stream, le: bool) -> (res: Result<u32, Error>)
    ensures
        final(r).data@ == old(r).data@,
        match res {
            Ok(v) => old(r).can_read(4) && v == end_u32_at(old(r).data@, old(r).pos as int, le)
                && final(r).pos == old(r).pos + 4,
            Err(e) => !old(r).can_read(4) && e == Error::UnexpectedEof && final(r).pos == old(r).pos,
        },
{
    if le {
        le_u32(r)
    } else {
        be_u32(r)
    }
}

/// Read exactly `N` bytes into a fixed-size array.
pub fn bytesa<const N: usize>(r: &mut Stream) -> (res: Result<[u8; N], Error>)
    ensures
        final(r).data@ == old(r).data@,
        match res {
            Ok(a) => old(r).can_read(N as int) && a@ == old(r).peek(N as int) && final(r).pos
                == old(r).pos + N,
            Err(e) => !old(r).can_read(N as int) && e == Error::UnexpectedEof && final(r).pos
                == old(r).pos,
        },
{
    r.read_array::<N>()
}

/// Read exactly `len` bytes into a `Vec`.
pub fn bytesv(r: &mut Stream, len: usize) -> (res: Result<Vec<u8>, Error>)
    ensures
        final(r).data@ == old(r).data@,
        match res {
            Ok(v) => old(r).can_read(len as int) && v@ == old(r).peek(len as int) && final(r).pos
                == old(r).pos + len,
            Err(e) => !old(r).can_read(len as int) && e == Error::UnexpectedEof && final(r).pos
                == old(r).pos,
        },
{
    r.read_vec(len)
}

/// Verify that the next `N` bytes in the stream match `expected`.
///
/// Fails with [`Error::UnexpectedEof`] when fewer than `N` bytes are left
/// (the stream does not move), and with [`Error::BadMagic`] when the `N`
/// bytes differ from `expected` (they have then been consumed).
pub fn magic<const N: usize>(r: &mut Stream, expected: &[u8; N]) -> (res: Result<(), Error>)
    ensures
        final(r).data@ == old(r).data@,
        match res {
            Ok(_) => old(r).can_read(N as int) && old(r).peek(N as int) == expected@ && final(r).pos
                == old(r).pos + N,
            Err(e) => if old(r).can_read(N as int) {
                old(r).peek(N as int) != expected@ && e == Error::BadMagic && final(r).pos
                    == old(r).pos + N
            } else {
                e == Error::UnexpectedEof && final(r).pos == old(r).pos
            },
        },
{
    let got = bytesa::<N>(r)?;
    let mut i: usize = 0;
    while i < N
        invariant
            i <= N,
            forall|j: int| 0 <= j < i ==> got@[j] == expected@[j],
            r.data@ == old(r).data@,
            old(r).can_read(N as int),
            got@ == old(r).peek(N as int),
            r.pos == old(r).pos + N,
        decreases N - i,
    {
        if got[i] != expected[i] {
            return Err(Error::BadMagic);
        }
        i += 1;
    }
    assert(got@ =~= expected@);
    Ok(())
}

/// What [`null_string`] yields for buffer `buf` and offset `offset`.
pub open spec fn null_string_at(buf: Seq<u8>, offset: int) -> Result<Seq<char>, Error> {
    if offset > buf.len() {
        Err(Error::InvalidRange)
    } else if nul_index(buf, offset) >= buf.len() {
        Err(Error::UnterminatedName)
    } else {
        Ok(utf8_lossy(buf.subrange(offset, nul_index(buf, offset))))
    }
}

/// Extract a null-terminated UTF-8 string from a byte slice at `offset`.
///
/// Fails with [`Error::InvalidRange`] if `offset` lies beyond the end of the
/// buffer, or [`Error::UnterminatedName`] if no zero byte follows it. The
/// bytes up to the first zero are decoded lossily.
pub fn null_string(buf: &[u8], offset: usize) -> (res: Result<String, Error>)
    ensures
        match res {
            Ok(s) => null_string_at(buf@, offset as int) == Ok::<Seq<char>, Error>(s@),
            Err(e) => null_string_at(buf@, offset as int) == Err::<Seq<char>, Error>(e),
        },
{
    if offset > buf.len() {
        return Err(Error::InvalidRange);
    }
    let mut end: usize = offset;
    while end < buf.len() && buf[end] != 0
        invariant
            offset <= end <= buf@.len(),
            nul_index(buf@, offset as int) == nul_index(buf@, end as int),
        decreases buf@.len() - end,
    {
        end += 1;
    }
    if end >= buf.len() {
        return Err(Error::UnterminatedName);
    }
    let name = lossy_string(vstd::slice::slice_subrange(buf, offset, end));
    Ok(name)
}

/// Read a null-terminated UTF-8 string byte-by-byte from a stream.
///
/// On success the stream stands just past the terminating zero byte. When
/// the stream ends before a zero byte is found the call fails with
/// [`Error::UnexpectedEof`] and the stream stays where it was.
pub fn read_null_string(r: &mut Stream) -> (res: Result<String, Error>)
    ensures
        final(r).data@ == old(r).data@,
        match res {
            Ok(s) => old(r).can_read(1) && nul_index(old(r).data@, old(r).pos as int) 
                < old(r).data@.len() && s@ == utf8_lossy(
                old(r).data@.subrange(
                    old(r).pos as int,
                    nul_index(old(r).data@, old(r).pos as int),
                ),
            ) && final(r).pos == nul_index(old(r).data@, old(r).pos as int) + 1,
            Err(e) => e == Error::UnexpectedEof && (!old(r).can_read(1) || nul_index(
                old(r).data@,
                old(r).pos as int,
            ) >= old(r).data@.len()) && final(r).pos == old(r).pos,
        },
{
    let start = r.position();
    let res = read_until_null(r);
    if res.is_err() {
        r.seek(start);
    }
    res
}

/// Does the work of [`read_null_string`]; on failure the stream is left
/// where the failure was met.
fn read_until_null(r: &mut Stream) -> (res: Result<String, Error>)
    ensures
        final(r).data@ == old(r).data@,
        match res {
            Ok(s) => old(r).can_read(1) && nul_index(old(r).data@, old(r).pos as int) 
                < old(r).data@.len() && s@ == utf8_lossy(
                old(r).data@.subrange(
                    old(r).pos as int,
                    nul_index(old(r).data@, old(r).pos as int),
                ),
            ) && final(r).pos == nul_index(old(r).data@, old(r).pos as int) + 1,
            Err(e) => e == Error::UnexpectedEof && (!old(r).can_read(1) || nul_index(
                old(r).data@,
                old(r).pos as int,
            ) >= old(r).data@.len()),
        },
{
    let ghost start = r.pos as int;
    let ghost data = r.data@;
    let mut bytes: Vec<u8> = Vec::new();
    loop
        invariant_except_break
            r.pos == start + bytes@.len(),
            bytes@.len() > 0 ==> r.pos <= data.len(),
            r.pos <= data.len() ==> bytes@ == data.subrange(start, r.pos as int),
            r.pos <= data.len() ==> nul_index(data, start) == nul_index(data, r.pos as int),
        invariant
            r.data@ == data,
            data == old(r).data@,
            start == old(r).pos,
        ensures
            start <= nul_index(data, start) < data.len(),
            bytes@ == data.subrange(start, nul_index(data, start)),
            r.pos == nul_index(data, start) + 1,
        decreases data.len() - r.pos,
    {
        let b = u8(r)?;
        if b == 0 {
            break ;
        }
        bytes.push(b);
    }
    Ok(lossy_string(bytes.as_slice()))
}

} // verus!
