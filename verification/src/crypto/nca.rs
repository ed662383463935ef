//! Cryptographic helpers for NCA files.
//!
//! ## AES-128-XTS - NCA header decryption
//!
//! The first 0xC00 bytes of every NCA are AES-128-XTS encrypted:
//! * Key material: the two 16-byte halves of the 32-byte header key. The
//!   first half is the cipher key, the second the tweak key.
//! * Sector size: 0x200 bytes.
//! * Tweak: the sector index stored big-endian in the high 8 bytes of the
//!   16-byte tweak block (not the little-endian 128-bit integer of IEEE
//!   1619).
//! * Sectors 0 and 1 hold the NCA header, sectors 2 to 5 the four FS
//!   headers. In an NCA2 each FS header is encrypted as sector 0 instead.
//!
//! ## AES-128-CTR - NCA section decryption
//!
//! The 16-byte counter is a 128-bit big-endian integer that is incremented,
//! with wrap-around, once per 16-byte block of key stream.

use vstd::prelude::*;
use crate::crypto::ctr::{
    ctr_xor, increment_counter, lemma_keystream_byte, nth_counter,
};
use crate::crypto::aes::{
    aes128_decrypt_block, aes128_decrypt_of, aes128_encrypt_block, aes128_encrypt_of, key_expand,
    key_expand_of, lemma_decrypt_encrypt,
};

verus! {

/// Size of an XTS sector in bytes.
pub const SECTOR_SIZE: usize = 0x200;

/// Size of the encrypted NCA header region in bytes.
pub const HEADER_SIZE: usize = 0xC00;

/// The bytes `NCA2`.
pub const NCA2_MAGIC: [u8; 4] = [0x4E, 0x43, 0x41, 0x32];

/// `a` XORed byte by byte with `b`.
pub open spec fn xor_bytes(a: Seq<u8>, b: Seq<u8>) -> Seq<u8> {
    Seq::new(a.len(), |i: int| a[i] ^ b[i])
}

/// The XTS tweak input of a sector: eight zero bytes followed by the sector
/// index as a big-endian 64-bit integer.
pub open spec fn xts_tweak_of(sector: u64) -> Seq<u8> {
    seq![
        0u8, 0u8, 0u8, 0u8, 0u8, 0u8, 0u8, 0u8,
        (sector / 0x100_0000_0000_0000 % 0x100) as u8,
        (sector / 0x1_0000_0000_0000 % 0x100) as u8,
        (sector / 0x100_0000_0000 % 0x100) as u8,
        (sector / 0x1_0000_0000 % 0x100) as u8,
        (sector / 0x100_0000 % 0x100) as u8,
        (sector / 0x1_0000 % 0x100) as u8,
        (sector / 0x100 % 0x100) as u8,
        (sector % 0x100) as u8,
    ]
}

/// The tweak `t` multiplied by `x` in GF(2^128) modulo
/// `x^128 + x^7 + x^2 + x + 1`: the 128-bit value whose least significant
/// byte is `t[0]` is shifted left by one bit, and 0x87 is XORed into the
/// lowest byte when a bit falls off the top.
pub open spec fn tweak_times_x(t: Seq<u8>) -> Seq<u8> {
    Seq::new(
        16,
        |i: int|
            if i == 0 {
                if t[15] >> 7 != 0 {
                    (t[0] << 1) ^ 0x87
                } else {
                    t[0] << 1
                }
            } else {
                (t[i] << 1) | (t[i - 1] >> 7)
            },
    )
}

/// The tweak of block `n` of a sector whose first tweak is `t0`.
pub open spec fn nth_tweak(t0: Seq<u8>, n: nat) -> Seq<u8>
    decreases n,
{
    if n == 0 {
        t0
    } else {
        tweak_times_x(nth_tweak(t0, (n - 1) as nat))
    }
}

/// XTS decryption of one 16-byte block `c` with tweak `t` under the key
/// schedule `rk`: XOR with the tweak, AES-decrypt, XOR with the tweak.
pub open spec fn xts_block_of(c: Seq<u8>, t: Seq<u8>, rk: Seq<u8>) -> Seq<u8> {
    xor_bytes(aes128_decrypt_of(xor_bytes(c, t), rk), t)
}

/// XTS decryption of a sector with cipher key `key1`, tweak key `key2` and
/// sector index `sector`. The first tweak is the encryption, under the tweak
/// key, of the sector's tweak input; block `n` uses the `n`-th tweak.
pub open spec fn xts_decrypt_of(data: Seq<u8>, key1: Seq<u8>, key2: Seq<u8>, sector: u64) -> Seq<
    u8,
> {
    let t0 = aes128_encrypt_of(xts_tweak_of(sector), key_expand_of(key2));
    Seq::new(
        data.len(),
        |i: int|
            xts_block_of(
                data.subrange(i - i % 16, i - i % 16 + 16),
                nth_tweak(t0, (i / 16) as nat),
                key_expand_of(key1),
            )[i % 16],
    )
}

/// XOR the 16 bytes of `b` into `a`.
pub fn xor_block(a: &mut [u8; 16], b: &[u8; 16])
    ensures
        final(a)@ == xor_bytes(old(a)@, b@),
{
    let mut i: usize = 0;
    while i < 16
        invariant
            i <= 16,
            forall|j: int| 0 <= j < i ==> a@[j] == old(a)@[j] ^ b@[j],
            forall|j: int| i <= j < 16 ==> a@[j] == old(a)@[j],
        decreases 16 - i,
    {
        a[i] = a[i] ^ b[i];
        i += 1;
    }
    assert(a@ =~= xor_bytes(old(a)@, b@));
}

/// Build the 16-byte XTS tweak input for a sector number.
pub fn make_xts_tweak(sector: u64) -> (t: [u8; 16])
    ensures
        t@ == xts_tweak_of(sector),
{
    let mut t = [0u8;16];
    t[8] = (sector / 0x100_0000_0000_0000 % 0x100) as u8;
    t[9] = (sector / 0x1_0000_0000_0000 % 0x100) as u8;
    t[10] = (sector / 0x100_0000_0000 % 0x100) as u8;
    t[11] = (sector / 0x1_0000_0000 % 0x100) as u8;
    t[12] = (sector / 0x100_0000 % 0x100) as u8;
    t[13] = (sector / 0x1_0000 % 0x100) as u8;
    t[14] = (sector / 0x100 % 0x100) as u8;
    t[15] = (sector % 0x100) as u8;
    assert(t@ =~= xts_tweak_of(sector));
    t
}

/// Advance the XTS tweak: multiply it by `x` in GF(2^128).
pub fn xts_mult_tweak(t: &mut [u8; 16])
    ensures
        final(t)@ == tweak_times_x(old(t)@),
{
    let carry = t[15] >> 7;
    let mut i: usize = 15;
    while i >= 1
        invariant
            0 <= i <= 15,
            forall|j: int| i < j < 16 ==> t@[j] == (old(t)@[j] << 1) | (old(t)@[j - 1] >> 7),
            forall|j: int| 0 <= j <= i ==> t@[j] == old(t)@[j],
        decreases i,
    {
        t[i] = (t[i] << 1) | (t[i - 1] >> 7);
        i -= 1;
    }
    t[0] = t[0] << 1;
    if carry != 0 {
        t[0] = t[0] ^ 0x87;
    }
    assert(t@ =~= tweak_times_x(old(t)@));
}

/// Decrypt a single 0x200-byte XTS sector in place.
pub fn xts_decrypt_sector(data: &mut [u8; 0x200], key1: &[u8; 16], key2: &[u8; 16], sector: u64)
    ensures
        final(data)@ == xts_decrypt_of(old(data)@, key1@, key2@, sector),
{
    let rk1 = key_expand(key1);
    let rk2 = key_expand(key2);
    let tweak = make_xts_tweak(sector);
    let mut t = aes128_encrypt_block(&tweak, &rk2);
    let ghost t0 = t@;
    let ghost plain = xts_decrypt_of(old(data)@, key1@, key2@, sector);

    let mut n: usize = 0;
    while n < 32
        invariant
            n <= 32,
            rk1@ == key_expand_of(key1@),
            t0 == aes128_encrypt_of(xts_tweak_of(sector), key_expand_of(key2@)),
            plain == xts_decrypt_of(old(data)@, key1@, key2@, sector),
            t@ == nth_tweak(t0, n as nat),
            forall|j: int| 0 <= j < 16 * n ==> data@[j] == plain[j],
            forall|j: int| 16 * n <= j < 0x200 ==> data@[j] == old(data)@[j],
        decreases 32 - n,
    {
        let start = n * 16;
        let mut block = [0u8;16];
        let mut i: usize = 0;
        while i < 16
            invariant
                i <= 16,
                start == n * 16,
                n < 32,
                forall|j: int| 0 <= j < i ==> block@[j] == data@[start + j],
            decreases 16 - i,
        {
            block[i] = data[start + i];
            i += 1;
        }
        assert(block@ =~= old(data)@.subrange(start as int, start + 16));
        xor_block(&mut block, &t);
        let mut block = aes128_decrypt_block(&block, &rk1);
        xor_block(&mut block, &t);
        assert(block@ == xts_block_of(
            old(data)@.subrange(start as int, start + 16),
            nth_tweak(t0, n as nat),
            key_expand_of(key1@),
        ));
        assert forall|j: int| 0 <= j < 16 implies block@[j] == plain[start + j] by {
            assert((start + j) % 16 == j);
            assert((start + j) / 16 == n);
        }
        let ghost before = data@;
        let mut i: usize = 0;
        while i < 16
            invariant
                i <= 16,
                start == n * 16,
                n < 32,
                forall|j: int| 0 <= j < i ==> data@[start + j] == block@[j],
                forall|j: int| 0 <= j < 0x200 && !(start <= j < start + i) ==> data@[j] == before[j],
            decreases 16 - i,
        {
            data[start + i] = block[i];
            i += 1;
        }
        xts_mult_tweak(&mut t);
        n += 1;
    }
    assert(data@ =~= plain);
}

/// Sector `n` of the header region `enc`, decrypted under the header key
/// `key` with tweak index `index`. The first half of the key is the cipher
/// key, the second half the tweak key.
pub open spec fn header_sector_of(enc: Seq<u8>, key: Seq<u8>, n: int, index: u64) -> Seq<u8> {
    xts_decrypt_of(
        enc.subrange(0x200 * n, 0x200 * n + 0x200),
        key.subrange(0, 16),
        key.subrange(16, 32),
        index,
    )
}

/// Whether the header region `enc` belongs to an NCA2: the magic at offset
/// 0x200 of the plaintext, which lies in sector 1, reads `NCA2`.
pub open spec fn is_nca2(enc: Seq<u8>, key: Seq<u8>) -> bool {
    header_sector_of(enc, key, 1, 1).subrange(0, 4) == NCA2_MAGIC@
}

/// The tweak index of sector `n` of the header region `enc`: its own number
/// for the two sectors of the NCA header and, unless the file is an NCA2,
/// for the four FS header sectors; zero for the FS header sectors of an
/// NCA2.
pub open spec fn header_tweak_index(enc: Seq<u8>, key: Seq<u8>, n: int) -> u64 {
    if n >= 2 && is_nca2(enc, key) {
        0
    } else {
        n as u64
    }
}

/// The plaintext of the 0xC00-byte header region `enc` under the 32-byte
/// header key `key`.
pub open spec fn decrypt_header_of(enc: Seq<u8>, key: Seq<u8>) -> Seq<u8> {
    Seq::new(
        0xC00,
        |i: int|
            header_sector_of(enc, key, i / 0x200, header_tweak_index(enc, key, i / 0x200))[i
                % 0x200],
    )
}

/// Decrypt sector `n` of the header region `encrypted` with tweak index
/// `index` into sector `n` of `out`.
fn decrypt_header_sector(
    encrypted: &[u8],
    k1: &[u8; 16],
    k2: &[u8; 16],
    n: usize,
    index: u64,
    out: &mut [u8; 0xC00],
)
    requires
        encrypted@.len() >= 0xC00,
        n < 6,
    ensures
        final(out)@.subrange(0x200 * n, 0x200 * n + 0x200) == xts_decrypt_of(
            encrypted@.subrange(0x200 * n, 0x200 * n + 0x200),
            k1@,
            k2@,
            index,
        ),
        forall|j: int|
            0 <= j < 0xC00 && !(0x200 * n <= j < 0x200 * n + 0x200) ==> final(out)@[j] == old(out)@[j],
{
    let off = n * 0x200;
    let mut block = [0u8;0x200];
    let mut i: usize = 0;
    while i < 0x200
        invariant
            i <= 0x200,
            off == n * 0x200,
            n < 6,
            encrypted@.len() >= 0xC00,
            forall|j: int| 0 <= j < i ==> block@[j] == encrypted@[off + j],
        decreases 0x200 - i,
    {
        block[i] = encrypted[off + i];
        i += 1;
    }
    assert(block@ =~= encrypted@.subrange(0x200 * n, 0x200 * n + 0x200));
    xts_decrypt_sector(&mut block, k1, k2, index);
    let mut i: usize = 0;
    while i < 0x200
        invariant
            i <= 0x200,
            off == n * 0x200,
            n < 6,
            forall|j: int| 0 <= j < i ==> out@[off + j] == block@[j],
            forall|j: int|
                0 <= j < 0xC00 && !(off <= j < off + i) ==> out@[j] == old(out)@[j],
        decreases 0x200 - i,
    {
        out[off + i] = block[i];
        i += 1;
    }
    assert(out@.subrange(0x200 * n, 0x200 * n + 0x200) =~= block@);
}

/// A buffer that holds sector `n` decrypted under the sector's tweak index
/// agrees with the header plaintext on that sector.
proof fn lemma_header_sector(enc: Seq<u8>, key: Seq<u8>, out: Seq<u8>, n: int)
    requires
        0 <= n < 6,
        out.len() == 0xC00,
        out.subrange(0x200 * n, 0x200 * n + 0x200) == header_sector_of(
            enc,
            key,
            n,
            header_tweak_index(enc, key, n),
        ),
    ensures
        forall|j: int|
            0x200 * n <= j < 0x200 * n + 0x200 ==> out[j] == #[trigger] decrypt_header_of(
                enc,
                key,
            )[j],
{
    let sector = header_sector_of(enc, key, n, header_tweak_index(enc, key, n));
    assert forall|j: int| 0x200 * n <= j < 0x200 * n + 0x200 implies out[j]
        == #[trigger] decrypt_header_of(enc, key)[j] by {
        let d = j - 0x200 * n;
        assert(j / 0x200 == n);
        assert(j % 0x200 == d);
        assert(out.subrange(0x200 * n, 0x200 * n + 0x200)[d] == out[j]);
    }
}

/// The two halves of a header key: the cipher key and the tweak key.
fn split_header_key(header_key: &[u8; 32]) -> (keys: ([u8; 16], [u8; 16]))
    ensures
        keys.0@ == header_key@.subrange(0, 16),
        keys.1@ == header_key@.subrange(16, 32),
{
    let mut k1 = [0u8;16];
    let mut k2 = [0u8;16];
    let mut i: usize = 0;
    while i < 16
        invariant
            i <= 16,
            forall|j: int| 0 <= j < i ==> k1@[j] == header_key@[j],
            forall|j: int| 0 <= j < i ==> k2@[j] == header_key@[16 + j],
        decreases 16 - i,
    {
        k1[i] = header_key[i];
        k2[i] = header_key[16 + i];
        i += 1;
    }
    assert(k1@ =~= header_key@.subrange(0, 16));
    assert(k2@ =~= header_key@.subrange(16, 32));
    (k1, k2)
}

/// Whether the magic at offset 0x200 of the plaintext header reads `NCA2`.
fn has_nca2_magic(out: &[u8; 0xC00]) -> (yes: bool)
    ensures
        yes == (out@.subrange(0x200, 0x400).subrange(0, 4) == NCA2_MAGIC@),
{
    let yes = out[0x200] == NCA2_MAGIC[0] && out[0x201] == NCA2_MAGIC[1] && out[0x202]
        == NCA2_MAGIC[2] && out[0x203] == NCA2_MAGIC[3];
    proof {
        let m = out@.subrange(0x200, 0x400).subrange(0, 4);
        assert(m[0] == out@[0x200]);
        assert(m[1] == out@[0x201]);
        assert(m[2] == out@[0x202]);
        assert(m[3] == out@[0x203]);
        if yes {
            assert(m =~= NCA2_MAGIC@);
        }
    }
    yes
}

/// Decrypt the first 0xC00 bytes of an NCA using AES-128-XTS.
///
/// `header_key` is the 32-byte combined key: its first 16 bytes are the
/// cipher key, its last 16 bytes the tweak key. The NCA version is detected
/// from the decrypted magic: the FS header sectors of an NCA2 are each
/// decrypted as sector 0, those of any other version as sectors 2 to 5.
///
/// `encrypted` must hold at least 0xC00 bytes; what follows them is ignored.
pub fn decrypt_header(encrypted: &[u8], header_key: &[u8; 32]) -> (out: [u8; 0xC00])
    requires
        encrypted@.len() >= 0xC00,
    ensures
        out@ == decrypt_header_of(encrypted@, header_key@),
{
    let (k1, k2) = split_header_key(header_key);
    let ghost enc = encrypted@;
    let ghost key = header_key@;
    let ghost plain = decrypt_header_of(enc, key);

    let mut out = [0u8;0xC00];
    // The two sectors of the NCA header are numbered alike in every version.
    decrypt_header_sector(encrypted, &k1, &k2, 0, 0, &mut out);
    proof {
        lemma_header_sector(enc, key, out@, 0);
    }
    decrypt_header_sector(encrypted, &k1, &k2, 1, 1, &mut out);
    proof {
        lemma_header_sector(enc, key, out@, 1);
    }
    let nca2 = has_nca2_magic(&out);

    let mut fs: usize = 0;
    while fs < 4
        invariant
            fs <= 4,
            enc == encrypted@,
            key == header_key@,
            plain == decrypt_header_of(enc, key),
            enc.len() >= 0xC00,
            k1@ == key.subrange(0, 16),
            k2@ == key.subrange(16, 32),
            nca2 == is_nca2(enc, key),
            forall|j: int| 0 <= j < 0x200 * (fs + 2) ==> out@[j] == plain[j],
        decreases 4 - fs,
    {
        let index: u64 = if nca2 {
            0
        } else {
            (fs + 2) as u64
        };
        decrypt_header_sector(encrypted, &k1, &k2, fs + 2, index, &mut out);
        proof {
            lemma_header_sector(enc, key, out@, fs + 2);
        }
        fs += 1;
    }
    assert(out@ =~= plain);
    out
}

/// XORing twice with the same bytes gives the original back.
pub proof fn lemma_xor_bytes_twice(a: Seq<u8>, b: Seq<u8>)
    ensures
        xor_bytes(xor_bytes(a, b), b) == a,
{
    assert forall|i: int| 0 <= i < a.len() implies xor_bytes(xor_bytes(a, b), b)[i] == a[i] by {
        let x = a[i];
        let y = b[i];
        assert((x ^ y) ^ y == x) by (bit_vector);
    }
    assert(xor_bytes(xor_bytes(a, b), b) =~= a);
}

/// XTS encryption of one 16-byte block `p` with tweak `t` under the key
/// schedule `rk`: XOR with the tweak, AES-encrypt, XOR with the tweak.
pub open spec fn xts_block_encrypted(p: Seq<u8>, t: Seq<u8>, rk: Seq<u8>) -> Seq<u8> {
    xor_bytes(aes128_encrypt_of(xor_bytes(p, t), rk), t)
}

/// XTS encryption of a sector, the inverse of [`xts_decrypt_of`]. The
/// library never encrypts; this states what its decryption undoes.
pub open spec fn xts_encrypt_of(data: Seq<u8>, key1: Seq<u8>, key2: Seq<u8>, sector: u64) -> Seq<
    u8,
> {
    let t0 = aes128_encrypt_of(xts_tweak_of(sector), key_expand_of(key2));
    Seq::new(
        data.len(),
        |i: int|
            xts_block_encrypted(
                data.subrange(i - i % 16, i - i % 16 + 16),
                nth_tweak(t0, (i / 16) as nat),
                key_expand_of(key1),
            )[i % 16],
    )
}

/// Decrypting an encrypted block with the same tweak gives the block back.
pub proof fn lemma_xts_block_round_trip(p: Seq<u8>, t: Seq<u8>, rk: Seq<u8>)
    requires
        p.len() == 16,
    ensures
        xts_block_of(xts_block_encrypted(p, t, rk), t, rk) == p,
{
    let whitened = xor_bytes(p, t);
    let e = aes128_encrypt_of(whitened, rk);
    lemma_xor_bytes_twice(e, t);
    lemma_decrypt_encrypt(whitened, rk);
    lemma_xor_bytes_twice(p, t);
}

/// Block `n` of an encrypted sector is the encryption of block `n` of the
/// plaintext under the `n`-th tweak.
proof fn lemma_xts_encrypted_block(
    data: Seq<u8>,
    key1: Seq<u8>,
    key2: Seq<u8>,
    sector: u64,
    n: int,
)
    requires
        0 <= n,
        16 * n + 16 <= data.len(),
    ensures
        xts_encrypt_of(data, key1, key2, sector).subrange(16 * n, 16 * n + 16)
            == xts_block_encrypted(
            data.subrange(16 * n, 16 * n + 16),
            nth_tweak(
                aes128_encrypt_of(xts_tweak_of(sector), key_expand_of(key2)),
                n as nat,
            ),
            key_expand_of(key1),
        ),
{
    let enc = xts_encrypt_of(data, key1, key2, sector);
    let t = nth_tweak(aes128_encrypt_of(xts_tweak_of(sector), key_expand_of(key2)), n as nat);
    let block = xts_block_encrypted(data.subrange(16 * n, 16 * n + 16), t, key_expand_of(key1));
    assert(block.len() == 16);
    assert forall|k: int| 0 <= k < 16 implies enc.subrange(16 * n, 16 * n + 16)[k] == block[k] by {
        let i = 16 * n + k;
        assert(i % 16 == k);
        assert(i / 16 == n);
        assert(i - i % 16 == 16 * n);
    }
    assert(enc.subrange(16 * n, 16 * n + 16) =~= block);
}

/// XTS decryption undoes XTS encryption with the same keys and the same
/// sector index, on any data made of whole 16-byte blocks.
pub proof fn lemma_xts_round_trip(data: Seq<u8>, key1: Seq<u8>, key2: Seq<u8>, sector: u64)
    requires
        data.len() % 16 == 0,
    ensures
        xts_decrypt_of(xts_encrypt_of(data, key1, key2, sector), key1, key2, sector) == data,
{
    let enc = xts_encrypt_of(data, key1, key2, sector);
    let dec = xts_decrypt_of(enc, key1, key2, sector);
    let t0 = aes128_encrypt_of(xts_tweak_of(sector), key_expand_of(key2));
    assert forall|i: int| 0 <= i < data.len() implies dec[i] == data[i] by {
        let n = i / 16;
        let k = i % 16;
        assert(i - i % 16 == 16 * n);
        assert(16 * n + 16 <= data.len());
        lemma_xts_encrypted_block(data, key1, key2, sector, n);
        let p = data.subrange(16 * n, 16 * n + 16);
        lemma_xts_block_round_trip(p, nth_tweak(t0, n as nat), key_expand_of(key1));
        assert(p[k] == data[i]);
    }
    assert(dec =~= data);
}

/// The tweak index under which sector `n` of the header plaintext `plain`
/// is encrypted: its own number, except for the FS header sectors of an
/// NCA2, which use zero.
pub open spec fn plain_tweak_index(plain: Seq<u8>, n: int) -> u64 {
    if n >= 2 && plain.subrange(0x200, 0x204) == NCA2_MAGIC@ {
        0
    } else {
        n as u64
    }
}

/// The encryption of the 0xC00-byte header plaintext `plain` under the
/// header key `key`, the inverse of [`decrypt_header_of`]. The library
/// never encrypts; this states what its decryption undoes.
pub open spec fn encrypt_header_of(plain: Seq<u8>, key: Seq<u8>) -> Seq<u8> {
    Seq::new(
        0xC00,
        |i: int|
            xts_encrypt_of(
                plain.subrange(0x200 * (i / 0x200), 0x200 * (i / 0x200) + 0x200),
                key.subrange(0, 16),
                key.subrange(16, 32),
                plain_tweak_index(plain, i / 0x200),
            )[i % 0x200],
    )
}

/// Sector `n` of an encrypted header is the encryption of sector `n` of the
/// plaintext.
proof fn lemma_encrypted_header_sector(plain: Seq<u8>, key: Seq<u8>, n: int)
    requires
        plain.len() == 0xC00,
        0 <= n < 6,
    ensures
        encrypt_header_of(plain, key).subrange(0x200 * n, 0x200 * n + 0x200) == xts_encrypt_of(
            plain.subrange(0x200 * n, 0x200 * n + 0x200),
            key.subrange(0, 16),
            key.subrange(16, 32),
            plain_tweak_index(plain, n),
        ),
{
    let enc = encrypt_header_of(plain, key);
    let sector = xts_encrypt_of(
        plain.subrange(0x200 * n, 0x200 * n + 0x200),
        key.subrange(0, 16),
        key.subrange(16, 32),
        plain_tweak_index(plain, n),
    );
    assert forall|k: int| 0 <= k < 0x200 implies enc.subrange(0x200 * n, 0x200 * n + 0x200)[k]
        == sector[k] by {
        let i = 0x200 * n + k;
        assert(i / 0x200 == n);
        assert(i % 0x200 == k);
    }
    assert(enc.subrange(0x200 * n, 0x200 * n + 0x200) =~= sector);
}

/// Header decryption undoes header encryption: whatever its version magic,
/// a 0xC00-byte plaintext whose sectors are encrypted under the tweak
/// indices of its version comes back exactly. In particular the FS header
/// sectors of an NCA2 are decrypted with tweak index 0, those of any other
/// version with the indices 2 to 5.
pub proof fn lemma_header_round_trip(plain: Seq<u8>, key: Seq<u8>)
    requires
        plain.len() == 0xC00,
    ensures
        decrypt_header_of(encrypt_header_of(plain, key), key) == plain,
{
    let enc = encrypt_header_of(plain, key);
    let dec = decrypt_header_of(enc, key);
    let k1 = key.subrange(0, 16);
    let k2 = key.subrange(16, 32);
    // Sector 1 holds the magic, and is encrypted under its own number.
    lemma_encrypted_header_sector(plain, key, 1);
    lemma_xts_round_trip(plain.subrange(0x200, 0x400), k1, k2, 1);
    assert(header_sector_of(enc, key, 1, 1) == plain.subrange(0x200, 0x400));
    assert(plain.subrange(0x200, 0x400).subrange(0, 4) =~= plain.subrange(0x200, 0x204));
    assert(is_nca2(enc, key) == (plain.subrange(0x200, 0x204) == NCA2_MAGIC@));
    assert forall|i: int| 0 <= i < 0xC00 implies dec[i] == plain[i] by {
        let n = i / 0x200;
        let k = i % 0x200;
        let index = header_tweak_index(enc, key, n);
        assert(index == plain_tweak_index(plain, n));
        lemma_encrypted_header_sector(plain, key, n);
        let sector = plain.subrange(0x200 * n, 0x200 * n + 0x200);
        lemma_xts_round_trip(sector, k1, k2, index);
        assert(header_sector_of(enc, key, n, index) == sector);
        assert(sector[k] == plain[i]);
    }
    assert(dec =~= plain);
}

/// Under any 16-byte key, decrypting an encrypted 16-byte block gives the
/// block back.
pub proof fn lemma_block_round_trip(block: Seq<u8>, key: Seq<u8>)
    requires
        block.len() == 16,
        key.len() == 16,
    ensures
        aes128_decrypt_of(aes128_encrypt_of(block, key_expand_of(key)), key_expand_of(key))
            == block,
{
    lemma_decrypt_encrypt(block, key_expand_of(key));
}

/// Decrypt NCA section data in place using AES-128-CTR.
///
/// * `data` - the section data to decrypt (modified in place).
/// * `key` - 16-byte section key.
/// * `counter` - 16-byte initial counter: the big-endian `SecureValue` in
///   bytes `0..8` and the big-endian block offset (byte offset divided by
///   16) in bytes `8..16`.
///
/// Encryption and decryption are the same operation.
pub fn decrypt_section_ctr(data: &mut [u8], key: &[u8; 16], counter: &[u8; 16])
    ensures
        final(data)@ == ctr_xor(old(data)@, key@, counter@),
{
    let rk = key_expand(key);
    let mut ctr = *counter;
    let mut keystream = [0u8;16];
    // Index into the key-stream block; 16 means that a new block is due.
    let mut ks_pos: usize = 16;
    let ghost plain = ctr_xor(old(data)@, key@, counter@);
    let ghost mut n: nat = 0;
    let len = data.len();
    let mut i: usize = 0;
    while i < len
        invariant
            i <= len,
            len == data@.len(),
            data@.len() == old(data)@.len(),
            rk@ == key_expand_of(key@),
            plain == ctr_xor(old(data)@, key@, counter@),
            ks_pos <= 16,
            i + 16 == 16 * n + ks_pos,
            ctr@ == nth_counter(counter@, n),
            n > 0 ==> keystream@ == aes128_encrypt_of(
                nth_counter(counter@, (n - 1) as nat),
                rk@,
            ),
            forall|j: int| 0 <= j < i ==> data@[j] == plain[j],
            forall|j: int| i <= j < len ==> data@[j] == old(data)@[j],
        decreases len - i,
    {
        if ks_pos == 16 {
            keystream = aes128_encrypt_block(&ctr, &rk);
            increment_counter(&mut ctr);
            ks_pos = 0;
            proof {
                n = n + 1;
            }
        }
        proof {
            lemma_keystream_byte(key@, counter@, n, ks_pos as int);
        }
        data[i] = data[i] ^ keystream[ks_pos];
        ks_pos += 1;
        i += 1;
    }
    assert(data@ =~= plain);
}

/// Decrypt a single 16-byte block with AES-128-ECB (used to unwrap the keys
/// of the NCA key area).
pub fn decrypt_block_ecb(block: &[u8; 16], key: &[u8; 16]) -> (out: [u8; 16])
    ensures
        out@ == aes128_decrypt_of(block@, key_expand_of(key@)),
{
    let rk = key_expand(key);
    aes128_decrypt_block(block, &rk)
}

} // verus!
