//! BFTTF / BFOTF - XOR-obfuscated TrueType/OpenType system font.
//!
//! There is no file header: the whole file is a standard font XORed with a
//! repeating 16-byte key. After decryption the result starts with one of
//! the font magics:
//! * TTF: `00 01 00 00 00`
//! * OTF: `OTTO`
//! * TTC: `ttcf`
//!
//! ## XOR keys
//!
//! | Platform | Key (hex) |
//! |----------|-----------|
//! | Wii U    | `2A CE F5 16 10 0D C4 C3 28 78 27 42 A5 5B F4 AB` |
//! | Switch   | `15 9A 7D 6F 16 6F D0 0C 67 E7 39 98 0B EB F6 62` |
//! | Windows  | `97 3B 5C 6C 26 F3 FA B5 A2 D5 8E B5 5A 4D D5 51` |

use vstd::prelude::*;
use crate::error::Error;
use crate::stream::Stream;

verus! {

/// XOR key of Wii U fonts.
pub const WIIU_KEY: [u8; 16] = [
    0x2A, 0xCE, 0xF5, 0x16, 0x10, 0x0D, 0xC4, 0xC3, 0x28, 0x78, 0x27, 0x42, 0xA5, 0x5B, 0xF4, 0xAB,
];

/// XOR key of Switch fonts.
pub const SWITCH_KEY: [u8; 16] = [
    0x15, 0x9A, 0x7D, 0x6F, 0x16, 0x6F, 0xD0, 0x0C, 0x67, 0xE7, 0x39, 0x98, 0x0B, 0xEB, 0xF6, 0x62,
];

/// XOR key of Windows fonts.
pub const WINDOWS_KEY: [u8; 16] = [
    0x97, 0x3B, 0x5C, 0x6C, 0x26, 0xF3, 0xFA, 0xB5, 0xA2, 0xD5, 0x8E, 0xB5, 0x5A, 0x4D, 0xD5, 0x51,
];

/// Platform for which a BFTTF/BFOTF font is intended.
#[derive(Debug, Clone, Copy, PartialEq, Eq, Structural)]
pub enum FontPlatform {
    WiiU,
    Switch,
    Windows,
}

impl FontPlatform {
    /// The platform's key, as a sequence of 16 bytes.
    pub open spec fn key(self) -> Seq<u8> {
        match self {
            FontPlatform::WiiU => WIIU_KEY@,
            FontPlatform::Switch => SWITCH_KEY@,
            FontPlatform::Windows => WINDOWS_KEY@,
        }
    }

    /// The 16-byte XOR key for this platform.
    pub fn xor_key(self) -> (k: &'static [u8; 16])
        ensures
            k@ == self.key(),
    {
        match self {
            FontPlatform::WiiU => &WIIU_KEY,
            FontPlatform::Switch => &SWITCH_KEY,
            FontPlatform::Windows => &WINDOWS_KEY,
        }
    }
}

/// `d` XORed with the key `k` repeated over its whole length.
pub open spec fn xor_cycle(d: Seq<u8>, k: Seq<u8>) -> Seq<u8> {
    Seq::new(d.len(), |i: int| d[i] ^ k[i % 16])
}

/// Whether `d` starts with the magic of a TrueType font, an OpenType font
/// or a TrueType collection.
pub open spec fn has_font_magic(d: Seq<u8>) -> bool {
    d.len() >= 5 && {
        ||| d[0] == 0x00 && d[1] == 0x01 && d[2] == 0x00 && d[3] == 0x00 && d[4] == 0x00
        ||| d[0] == 0x4F && d[1] == 0x54 && d[2] == 0x54 && d[3] == 0x4F
        ||| d[0] == 0x74 && d[1] == 0x74 && d[2] == 0x63 && d[3] == 0x66
    }
}

/// The platform whose key decrypts `d` to a font: the first of Switch,
/// Wii U and Windows, in that order, whose key yields a font magic.
pub open spec fn detect_platform(d: Seq<u8>) -> Option<FontPlatform> {
    if has_font_magic(xor_cycle(d, SWITCH_KEY@)) {
        Some(FontPlatform::Switch)
    } else if has_font_magic(xor_cycle(d, WIIU_KEY@)) {
        Some(FontPlatform::WiiU)
    } else if has_font_magic(xor_cycle(d, WINDOWS_KEY@)) {
        Some(FontPlatform::Windows)
    } else {
        None
    }
}

/// XOR is its own inverse: applying the same key twice gives the data back.
pub proof fn lemma_xor_twice(d: Seq<u8>, k: Seq<u8>)
    ensures
        xor_cycle(xor_cycle(d, k), k) == d,
{
    assert forall|i: int| 0 <= i < d.len() implies xor_cycle(xor_cycle(d, k), k)[i] == d[i] by {
        let a = d[i];
        let x = k[i % 16];
        assert((a ^ x) ^ x == a) by (bit_vector);
    }
    assert(xor_cycle(xor_cycle(d, k), k) =~= d);
}

/// XOR `data` with the repeating 16-byte `key`.
pub fn xor_with_key(data: &[u8], key: &[u8; 16]) -> (out: Vec<u8>)
    ensures
        out@ == xor_cycle(data@, key@),
{
    let mut out: Vec<u8> = Vec::with_capacity(data.len());
    let mut i: usize = 0;
    while i < data.len()
        invariant
            i <= data@.len(),
            out@.len() == i,
            forall|j: int| 0 <= j < i ==> out@[j] == data@[j] ^ key@[j % 16],
        decreases data@.len() - i,
    {
        out.push(data[i] ^ key[i % 16]);
        i += 1;
    }
    assert(out@ =~= xor_cycle(data@, key@));
    out
}

/// Whether `data`, XORed with `key`, starts with a known font magic.
pub fn is_valid_font_after_xor(data: &[u8], key: &[u8; 16]) -> (ok: bool)
    ensures
        ok == has_font_magic(xor_cycle(data@, key@)),
{
    if data.len() < 5 {
        return false;
    }
    let h0 = data[0] ^ key[0];
    let h1 = data[1] ^ key[1];
    let h2 = data[2] ^ key[2];
    let h3 = data[3] ^ key[3];
    let h4 = data[4] ^ key[4];
    (h0 == 0x00 && h1 == 0x01 && h2 == 0x00 && h3 == 0x00 && h4 == 0x00) || (h0 == 0x4F && h1
        == 0x54 && h2 == 0x54 && h3 == 0x4F) || (h0 == 0x74 && h1 == 0x74 && h2 == 0x63 && h3
        == 0x66)
}

/// Parsed BFTTF/BFOTF file (holds the raw encrypted bytes).
#[derive(Debug)]
pub struct Bfttf {
    /// Platform detected from the decrypted magic bytes.
    pub platform: FontPlatform,
    /// The file as stored, still encrypted.
    pub data: Vec<u8>,
}

impl Bfttf {
    /// Read a BFTTF/BFOTF from `r`, from its current position to its end,
    /// and detect the platform.
    ///
    /// Tries each XOR key and checks the resulting font magic. Fails with
    /// [`Error::BadMagic`] if no platform matches. The stream is left at
    /// its end.
    pub fn parse(r: &mut Stream) -> (res: Result<Bfttf, Error>)
        ensures
            final(r).data@ == old(r).data@,
            old(r).pos <= old(r).data@.len() ==> final(r).pos == old(r).data@.len(),
            old(r).pos > old(r).data@.len() ==> final(r).pos == old(r).pos,
            ({
                let rest = old(r).data@.subrange(
                    if old(r).pos <= old(r).data@.len() {
                        old(r).pos as int
                    } else {
                        old(r).data@.len() as int
                    },
                    old(r).data@.len() as int,
                );
                match res {
                    Ok(f) => f.data@ == rest && detect_platform(rest) == Some(f.platform),
                    Err(e) => e == Error::BadMagic && detect_platform(rest) is None,
                }
            }),
    {
        let n = r.remaining();
        let data = if n == 0 {
            Vec::new()
        } else {
            match r.read_vec(n) {
                Ok(v) => v,
                Err(e) => {
                    return Err(e);
                },
            }
        };
        assert(data@ =~= old(r).data@.subrange(
            if old(r).pos <= old(r).data@.len() {
                old(r).pos as int
            } else {
                old(r).data@.len() as int
            },
            old(r).data@.len() as int,
        ));
        if is_valid_font_after_xor(data.as_slice(), FontPlatform::Switch.xor_key()) {
            return Ok(Bfttf { platform: FontPlatform::Switch, data });
        }
        if is_valid_font_after_xor(data.as_slice(), FontPlatform::WiiU.xor_key()) {
            return Ok(Bfttf { platform: FontPlatform::WiiU, data });
        }
        if is_valid_font_after_xor(data.as_slice(), FontPlatform::Windows.xor_key()) {
            return Ok(Bfttf { platform: FontPlatform::Windows, data });
        }
        Err(Error::BadMagic)
    }

    /// Decrypt to raw TTF/OTF bytes.
    pub fn decrypt(&self) -> (out: Vec<u8>)
        ensures
            out@ == xor_cycle(self.data@, self.platform.key()),
    {
        xor_with_key(self.data.as_slice(), self.platform.xor_key())
    }
}

/// Decrypt a BFTTF/BFOTF byte slice for the given platform.
pub fn decrypt(data: &[u8], platform: FontPlatform) -> (out: Vec<u8>)
    ensures
        out@ == xor_cycle(data@, platform.key()),
{
    xor_with_key(data, platform.xor_key())
}

/// Encrypt a raw TTF/OTF byte slice into BFTTF/BFOTF format.
pub fn encrypt(data: &[u8], platform: FontPlatform) -> (out: Vec<u8>)
    ensures
        out@ == xor_cycle(data@, platform.key()),
{
    xor_with_key(data, platform.xor_key())
}

} // verus!
