//! The AES-128 block cipher.
//!
//! The state is a 4x4 matrix of bytes held column by column in 16 bytes:
//! bytes `0..4` are column 0, bytes `4..8` column 1, and so on, so row `r`
//! consists of the bytes `r`, `r + 4`, `r + 8` and `r + 12`.

use vstd::prelude::*;
use crate::crypto::gf::{
    gf_mul, gmul, inv_sbox, lemma_inv_sbox, sbox, xtime, INV_SBOX, SBOX,
};

verus! {

/// SubBytes: every byte replaced by its S-box image.
pub open spec fn sub_bytes_of(s: Seq<u8>) -> Seq<u8> {
    Seq::new(s.len(), |i: int| sbox(s[i]))
}

/// InvSubBytes: every byte replaced by its inverse S-box image.
pub open spec fn inv_sub_bytes_of(s: Seq<u8>) -> Seq<u8> {
    Seq::new(s.len(), |i: int| inv_sbox(s[i]))
}

/// ShiftRows: row `r` of the state rotated left by `r` positions.
pub open spec fn shift_rows_of(s: Seq<u8>) -> Seq<u8> {
    seq![
        s[0], s[5], s[10], s[15],
        s[4], s[9], s[14], s[3],
        s[8], s[13], s[2], s[7],
        s[12], s[1], s[6], s[11],
    ]
}

/// InvShiftRows: row `r` of the state rotated right by `r` positions.
pub open spec fn inv_shift_rows_of(s: Seq<u8>) -> Seq<u8> {
    seq![
        s[0], s[13], s[10], s[7],
        s[4], s[1], s[14], s[11],
        s[8], s[5], s[2], s[15],
        s[12], s[9], s[6], s[3],
    ]
}

/// Row `r` of the product of the MixColumns matrix, whose rows are the
/// cyclic shifts of `[2, 3, 1, 1]`, with the column `(a0, a1, a2, a3)`.
pub open spec fn mix(r: int, a0: u8, a1: u8, a2: u8, a3: u8) -> u8 {
    if r == 0 {
        gf_mul(0x02, a0) ^ gf_mul(0x03, a1) ^ a2 ^ a3
    } else if r == 1 {
        a0 ^ gf_mul(0x02, a1) ^ gf_mul(0x03, a2) ^ a3
    } else if r == 2 {
        a0 ^ a1 ^ gf_mul(0x02, a2) ^ gf_mul(0x03, a3)
    } else {
        gf_mul(0x03, a0) ^ a1 ^ a2 ^ gf_mul(0x02, a3)
    }
}

/// Row `r` of the product of the InvMixColumns matrix, whose rows are the
/// cyclic shifts of `[0x0E, 0x0B, 0x0D, 0x09]`, with the column
/// `(a0, a1, a2, a3)`.
pub open spec fn inv_mix(r: int, a0: u8, a1: u8, a2: u8, a3: u8) -> u8 {
    if r == 0 {
        gf_mul(0x0E, a0) ^ gf_mul(0x0B, a1) ^ gf_mul(0x0D, a2) ^ gf_mul(0x09, a3)
    } else if r == 1 {
        gf_mul(0x09, a0) ^ gf_mul(0x0E, a1) ^ gf_mul(0x0B, a2) ^ gf_mul(0x0D, a3)
    } else if r == 2 {
        gf_mul(0x0D, a0) ^ gf_mul(0x09, a1) ^ gf_mul(0x0E, a2) ^ gf_mul(0x0B, a3)
    } else {
        gf_mul(0x0B, a0) ^ gf_mul(0x0D, a1) ^ gf_mul(0x09, a2) ^ gf_mul(0x0E, a3)
    }
}

/// MixColumns: every column multiplied by the MixColumns matrix.
pub open spec fn mix_columns_of(s: Seq<u8>) -> Seq<u8> {
    Seq::new(
        s.len(),
        |i: int| mix(i % 4, s[i - i % 4], s[i - i % 4 + 1], s[i - i % 4 + 2], s[i - i % 4 + 3]),
    )
}

/// InvMixColumns: every column multiplied by the InvMixColumns matrix.
pub open spec fn inv_mix_columns_of(s: Seq<u8>) -> Seq<u8> {
    Seq::new(
        s.len(),
        |i: int|
            inv_mix(i % 4, s[i - i % 4], s[i - i % 4 + 1], s[i - i % 4 + 2], s[i - i % 4 + 3]),
    )
}

/// AddRoundKey: the state XORed byte by byte with the round key.
pub open spec fn add_round_key_of(s: Seq<u8>, rk: Seq<u8>) -> Seq<u8> {
    Seq::new(s.len(), |i: int| s[i] ^ rk[i])
}

/// Multiplication by a constant distributes over a sum of four terms.
proof fn lemma_gf_mul_sum(w: u8, x: u8, y: u8, z: u8)
    by (bit_vector)
    ensures
        gf_mul(0x0E, w ^ x ^ y ^ z) == gf_mul(0x0E, w) ^ gf_mul(0x0E, x) ^ gf_mul(0x0E, y) ^ gf_mul(
            0x0E,
            z,
        ),
        gf_mul(0x0B, w ^ x ^ y ^ z) == gf_mul(0x0B, w) ^ gf_mul(0x0B, x) ^ gf_mul(0x0B, y) ^ gf_mul(
            0x0B,
            z,
        ),
        gf_mul(0x0D, w ^ x ^ y ^ z) == gf_mul(0x0D, w) ^ gf_mul(0x0D, x) ^ gf_mul(0x0D, y) ^ gf_mul(
            0x0D,
            z,
        ),
        gf_mul(0x09, w ^ x ^ y ^ z) == gf_mul(0x09, w) ^ gf_mul(0x09, x) ^ gf_mul(0x09, y) ^ gf_mul(
            0x09,
            z,
        ),
{
}

/// The entries of the product of the InvMixColumns matrix with the
/// MixColumns matrix: one on the diagonal, zero elsewhere.
proof fn lemma_matrix_product(x: u8)
    by (bit_vector)
    ensures
        gf_mul(0x0E, gf_mul(0x02, x)) ^ gf_mul(0x0B, x)
            ^ gf_mul(0x0D, x) ^ gf_mul(0x09, gf_mul(0x03, x)) == x,
        gf_mul(0x0E, gf_mul(0x03, x)) ^ gf_mul(0x0B, gf_mul(0x02, x))
            ^ gf_mul(0x0D, x) ^ gf_mul(0x09, x) == 0,
        gf_mul(0x0E, x) ^ gf_mul(0x0B, gf_mul(0x03, x))
            ^ gf_mul(0x0D, gf_mul(0x02, x)) ^ gf_mul(0x09, x) == 0,
        gf_mul(0x0E, x) ^ gf_mul(0x0B, x)
            ^ gf_mul(0x0D, gf_mul(0x03, x)) ^ gf_mul(0x09, gf_mul(0x02, x)) == 0,
        gf_mul(0x09, gf_mul(0x02, x)) ^ gf_mul(0x0E, x)
            ^ gf_mul(0x0B, x) ^ gf_mul(0x0D, gf_mul(0x03, x)) == 0,
        gf_mul(0x09, gf_mul(0x03, x)) ^ gf_mul(0x0E, gf_mul(0x02, x))
            ^ gf_mul(0x0B, x) ^ gf_mul(0x0D, x) == x,
        gf_mul(0x09, x) ^ gf_mul(0x0E, gf_mul(0x03, x))
            ^ gf_mul(0x0B, gf_mul(0x02, x)) ^ gf_mul(0x0D, x) == 0,
        gf_mul(0x09, x) ^ gf_mul(0x0E, x)
            ^ gf_mul(0x0B, gf_mul(0x03, x)) ^ gf_mul(0x0D, gf_mul(0x02, x)) == 0,
        gf_mul(0x0D, gf_mul(0x02, x)) ^ gf_mul(0x09, x)
            ^ gf_mul(0x0E, x) ^ gf_mul(0x0B, gf_mul(0x03, x)) == 0,
        gf_mul(0x0D, gf_mul(0x03, x)) ^ gf_mul(0x09, gf_mul(0x02, x))
            ^ gf_mul(0x0E, x) ^ gf_mul(0x0B, x) == 0,
        gf_mul(0x0D, x) ^ gf_mul(0x09, gf_mul(0x03, x))
            ^ gf_mul(0x0E, gf_mul(0x02, x)) ^ gf_mul(0x0B, x) == x,
        gf_mul(0x0D, x) ^ gf_mul(0x09, x)
            ^ gf_mul(0x0E, gf_mul(0x03, x)) ^ gf_mul(0x0B, gf_mul(0x02, x)) == 0,
        gf_mul(0x0B, gf_mul(0x02, x)) ^ gf_mul(0x0D, x)
            ^ gf_mul(0x09, x) ^ gf_mul(0x0E, gf_mul(0x03, x)) == 0,
        gf_mul(0x0B, gf_mul(0x03, x)) ^ gf_mul(0x0D, gf_mul(0x02, x))
            ^ gf_mul(0x09, x) ^ gf_mul(0x0E, x) == 0,
        gf_mul(0x0B, x) ^ gf_mul(0x0D, gf_mul(0x03, x))
            ^ gf_mul(0x09, gf_mul(0x02, x)) ^ gf_mul(0x0E, x) == 0,
        gf_mul(0x0B, x) ^ gf_mul(0x0D, x)
            ^ gf_mul(0x09, gf_mul(0x03, x)) ^ gf_mul(0x0E, gf_mul(0x02, x)) == x,
{
}

/// A sum of four sums of four terms, added up row by row, equals the same
/// sixteen terms added up column by column.
proof fn lemma_xor_regroup(
    a: u8, b: u8, c: u8, d: u8,
    e: u8, f: u8, g: u8, h: u8,
    i: u8, j: u8, k: u8, l: u8,
    m: u8, n: u8, o: u8, p: u8,
)
    by (bit_vector)
    ensures
        (a ^ b ^ c ^ d) ^ (e ^ f ^ g ^ h) ^ (i ^ j ^ k ^ l) ^ (m ^ n ^ o ^ p) == (a ^ e ^ i ^ m) ^ (b
            ^ f ^ j ^ n) ^ (c ^ g ^ k ^ o) ^ (d ^ h ^ l ^ p),
{
}

/// Zero is neutral for XOR.
proof fn lemma_xor_zero(x: u8)
    by (bit_vector)
    ensures
        x ^ 0u8 ^ 0u8 ^ 0u8 == x,
        0u8 ^ x ^ 0u8 ^ 0u8 == x,
        0u8 ^ 0u8 ^ x ^ 0u8 == x,
        0u8 ^ 0u8 ^ 0u8 ^ x == x,
{
}

/// Row `r` of the column `(a0, a1, a2, a3)` after MixColumns and then
/// InvMixColumns.
pub open spec fn unmixed(r: int, a0: u8, a1: u8, a2: u8, a3: u8) -> u8 {
    inv_mix(
        r,
        mix(0, a0, a1, a2, a3),
        mix(1, a0, a1, a2, a3),
        mix(2, a0, a1, a2, a3),
        mix(3, a0, a1, a2, a3),
    )
}

/// The two matrices are inverse to each other: InvMixColumns undoes
/// MixColumns on every column.
pub proof fn lemma_mix_column_inverse(a0: u8, a1: u8, a2: u8, a3: u8)
    ensures
        unmixed(0, a0, a1, a2, a3) == a0,
        unmixed(1, a0, a1, a2, a3) == a1,
        unmixed(2, a0, a1, a2, a3) == a2,
        unmixed(3, a0, a1, a2, a3) == a3,
{
    lemma_gf_mul_sum(gf_mul(0x02, a0), gf_mul(0x03, a1), a2, a3);
    lemma_gf_mul_sum(a0, gf_mul(0x02, a1), gf_mul(0x03, a2), a3);
    lemma_gf_mul_sum(a0, a1, gf_mul(0x02, a2), gf_mul(0x03, a3));
    lemma_gf_mul_sum(gf_mul(0x03, a0), a1, a2, gf_mul(0x02, a3));
    lemma_matrix_product(a0);
    lemma_matrix_product(a1);
    lemma_matrix_product(a2);
    lemma_matrix_product(a3);
    lemma_xor_zero(a0);
    lemma_xor_zero(a1);
    lemma_xor_zero(a2);
    lemma_xor_zero(a3);
    lemma_xor_regroup(
        gf_mul(0x0E, gf_mul(0x02, a0)),
        gf_mul(0x0E, gf_mul(0x03, a1)),
        gf_mul(0x0E, a2),
        gf_mul(0x0E, a3),
        gf_mul(0x0B, a0),
        gf_mul(0x0B, gf_mul(0x02, a1)),
        gf_mul(0x0B, gf_mul(0x03, a2)),
        gf_mul(0x0B, a3),
        gf_mul(0x0D, a0),
        gf_mul(0x0D, a1),
        gf_mul(0x0D, gf_mul(0x02, a2)),
        gf_mul(0x0D, gf_mul(0x03, a3)),
        gf_mul(0x09, gf_mul(0x03, a0)),
        gf_mul(0x09, a1),
        gf_mul(0x09, a2),
        gf_mul(0x09, gf_mul(0x02, a3)),
    );
    lemma_xor_regroup(
        gf_mul(0x09, gf_mul(0x02, a0)),
        gf_mul(0x09, gf_mul(0x03, a1)),
        gf_mul(0x09, a2),
        gf_mul(0x09, a3),
        gf_mul(0x0E, a0),
        gf_mul(0x0E, gf_mul(0x02, a1)),
        gf_mul(0x0E, gf_mul(0x03, a2)),
        gf_mul(0x0E, a3),
        gf_mul(0x0B, a0),
        gf_mul(0x0B, a1),
        gf_mul(0x0B, gf_mul(0x02, a2)),
        gf_mul(0x0B, gf_mul(0x03, a3)),
        gf_mul(0x0D, gf_mul(0x03, a0)),
        gf_mul(0x0D, a1),
        gf_mul(0x0D, a2),
        gf_mul(0x0D, gf_mul(0x02, a3)),
    );
    lemma_xor_regroup(
        gf_mul(0x0D, gf_mul(0x02, a0)),
        gf_mul(0x0D, gf_mul(0x03, a1)),
        gf_mul(0x0D, a2),
        gf_mul(0x0D, a3),
        gf_mul(0x09, a0),
        gf_mul(0x09, gf_mul(0x02, a1)),
        gf_mul(0x09, gf_mul(0x03, a2)),
        gf_mul(0x09, a3),
        gf_mul(0x0E, a0),
        gf_mul(0x0E, a1),
        gf_mul(0x0E, gf_mul(0x02, a2)),
        gf_mul(0x0E, gf_mul(0x03, a3)),
        gf_mul(0x0B, gf_mul(0x03, a0)),
        gf_mul(0x0B, a1),
        gf_mul(0x0B, a2),
        gf_mul(0x0B, gf_mul(0x02, a3)),
    );
    lemma_xor_regroup(
        gf_mul(0x0B, gf_mul(0x02, a0)),
        gf_mul(0x0B, gf_mul(0x03, a1)),
        gf_mul(0x0B, a2),
        gf_mul(0x0B, a3),
        gf_mul(0x0D, a0),
        gf_mul(0x0D, gf_mul(0x02, a1)),
        gf_mul(0x0D, gf_mul(0x03, a2)),
        gf_mul(0x0D, a3),
        gf_mul(0x09, a0),
        gf_mul(0x09, a1),
        gf_mul(0x09, gf_mul(0x02, a2)),
        gf_mul(0x09, gf_mul(0x03, a3)),
        gf_mul(0x0E, gf_mul(0x03, a0)),
        gf_mul(0x0E, a1),
        gf_mul(0x0E, a2),
        gf_mul(0x0E, gf_mul(0x02, a3)),
    );
}

/// InvSubBytes undoes SubBytes.
pub proof fn lemma_inv_sub_bytes(s: Seq<u8>)
    ensures
        inv_sub_bytes_of(sub_bytes_of(s)) == s,
{
    assert forall|i: int| 0 <= i < s.len() implies inv_sub_bytes_of(sub_bytes_of(s))[i]
        == s[i] by {
        lemma_inv_sbox(s[i]);
    }
    assert(inv_sub_bytes_of(sub_bytes_of(s)) =~= s);
}

/// InvShiftRows undoes ShiftRows.
pub proof fn lemma_inv_shift_rows(s: Seq<u8>)
    requires
        s.len() == 16,
    ensures
        inv_shift_rows_of(shift_rows_of(s)) == s,
{
    assert(inv_shift_rows_of(shift_rows_of(s)) =~= s);
}

/// InvMixColumns undoes MixColumns.
pub proof fn lemma_inv_mix_columns(s: Seq<u8>)
    requires
        s.len() == 16,
    ensures
        inv_mix_columns_of(mix_columns_of(s)) == s,
{
    let m = mix_columns_of(s);
    assert forall|i: int| 0 <= i < 16 implies inv_mix_columns_of(m)[i] == s[i] by {
        let c = i - i % 4;
        lemma_mix_column_inverse(s[c], s[c + 1], s[c + 2], s[c + 3]);
        assert(m[c] == mix(0, s[c], s[c + 1], s[c + 2], s[c + 3]));
        assert(m[c + 1] == mix(1, s[c], s[c + 1], s[c + 2], s[c + 3]));
        assert(m[c + 2] == mix(2, s[c], s[c + 1], s[c + 2], s[c + 3]));
        assert(m[c + 3] == mix(3, s[c], s[c + 1], s[c + 2], s[c + 3]));
    }
    assert(inv_mix_columns_of(m) =~= s);
}

/// AddRoundKey with the same key undoes itself.
pub proof fn lemma_add_round_key_twice(s: Seq<u8>, rk: Seq<u8>)
    ensures
        add_round_key_of(add_round_key_of(s, rk), rk) == s,
{
    assert forall|i: int| 0 <= i < s.len() implies add_round_key_of(add_round_key_of(s, rk), rk)[i]
        == s[i] by {
        let a = s[i];
        let k = rk[i];
        assert((a ^ k) ^ k == a) by (bit_vector);
    }
    assert(add_round_key_of(add_round_key_of(s, rk), rk) =~= s);
}

/// The round constants: `RCON[i]` is `x^i` in GF(2^8).
pub const RCON: [u8; 10] = [0x01, 0x02, 0x04, 0x08, 0x10, 0x20, 0x40, 0x80, 0x1B, 0x36];

/// The values of `x` times each of the first nine round constants.
proof fn lemma_xtime_powers()
    by (bit_vector)
    ensures
        xtime(0x01) == 0x02,
        xtime(0x02) == 0x04,
        xtime(0x04) == 0x08,
        xtime(0x08) == 0x10,
        xtime(0x10) == 0x20,
        xtime(0x20) == 0x40,
        xtime(0x40) == 0x80,
        xtime(0x80) == 0x1B,
        xtime(0x1B) == 0x36,
{
}

/// The round constants are the powers of `x` in GF(2^8): the first is one,
/// and each of the others is `x` times the one before it.
pub proof fn lemma_rcon(i: int)
    requires
        0 <= i < 9,
    ensures
        RCON[0] == 1,
        RCON[i + 1] == xtime(RCON[i]),
{
    lemma_xtime_powers();
}

/// Byte `i` of the AES-128 key schedule of `key`.
///
/// The schedule is a list of four-byte words. The first four are the key.
/// Word `w` is word `w - 4` XORed with word `w - 1`, the latter first being
/// rotated by one byte, passed through the S-box and XORed with a round
/// constant whenever `w` is a multiple of four.
#[verifier::opaque]
pub open spec fn expanded_byte(key: Seq<u8>, i: int) -> u8
    decreases i,
{
    if i < 16 {
        key[i]
    } else {
        let w = i / 4;
        let j = i % 4;
        let t = if w % 4 == 0 {
            let r = sbox(expanded_byte(key, 4 * (w - 1) + (j + 1) % 4));
            if j == 0 {
                r ^ RCON[w / 4 - 1]
            } else {
                r
            }
        } else {
            expanded_byte(key, 4 * (w - 1) + j)
        };
        expanded_byte(key, i - 16) ^ t
    }
}

/// The first 16 bytes of the schedule are the key.
pub proof fn lemma_expanded_key_bytes(key: Seq<u8>, i: int)
    requires
        i < 16,
    ensures
        expanded_byte(key, i) == key[i],
{
    reveal(expanded_byte);
}

/// Byte `j` of word `w` of the schedule, for the words after the key.
pub proof fn lemma_expanded_word_byte(key: Seq<u8>, w: int, j: int)
    requires
        4 <= w,
        0 <= j < 4,
    ensures
        expanded_byte(key, 4 * w + j) == expanded_byte(key, 4 * (w - 4) + j) ^ (if w % 4 == 0 {
            if j == 0 {
                sbox(expanded_byte(key, 4 * (w - 1) + 1)) ^ RCON[w / 4 - 1]
            } else {
                sbox(expanded_byte(key, 4 * (w - 1) + (j + 1) % 4))
            }
        } else {
            expanded_byte(key, 4 * (w - 1) + j)
        }),
{
    reveal(expanded_byte);
    assert((4 * w + j) / 4 == w);
    assert((4 * w + j) % 4 == j);
}

/// The 176 bytes of the AES-128 key schedule of `key`: eleven round keys of
/// 16 bytes each.
pub open spec fn key_expand_of(key: Seq<u8>) -> Seq<u8> {
    Seq::new(176, |i: int| expanded_byte(key, i))
}

/// Round key `round` of the schedule `rk`.
pub open spec fn round_key(rk: Seq<u8>, round: int) -> Seq<u8> {
    rk.subrange(16 * round, 16 * round + 16)
}

/// The state after the initial AddRoundKey and `n` full rounds of
/// encryption.
pub open spec fn enc_rounds(block: Seq<u8>, rk: Seq<u8>, n: nat) -> Seq<u8>
    decreases n,
{
    if n == 0 {
        add_round_key_of(block, round_key(rk, 0))
    } else {
        add_round_key_of(
            mix_columns_of(shift_rows_of(sub_bytes_of(enc_rounds(block, rk, (n - 1) as nat)))),
            round_key(rk, n as int),
        )
    }
}

/// AES-128 encryption of one block under the key schedule `rk`: nine full
/// rounds, then a final round without MixColumns.
pub open spec fn aes128_encrypt_of(block: Seq<u8>, rk: Seq<u8>) -> Seq<u8> {
    add_round_key_of(shift_rows_of(sub_bytes_of(enc_rounds(block, rk, 9))), round_key(rk, 10))
}

/// The state after the initial AddRoundKey and `n` full rounds of
/// decryption, which use the round keys 9, 8, ... in turn.
pub open spec fn dec_rounds(block: Seq<u8>, rk: Seq<u8>, n: nat) -> Seq<u8>
    decreases n,
{
    if n == 0 {
        add_round_key_of(block, round_key(rk, 10))
    } else {
        inv_mix_columns_of(
            add_round_key_of(
                inv_sub_bytes_of(inv_shift_rows_of(dec_rounds(block, rk, (n - 1) as nat))),
                round_key(rk, 10 - n),
            ),
        )
    }
}

/// AES-128 decryption of one block under the key schedule `rk`.
pub open spec fn aes128_decrypt_of(block: Seq<u8>, rk: Seq<u8>) -> Seq<u8> {
    add_round_key_of(inv_sub_bytes_of(inv_shift_rows_of(dec_rounds(block, rk, 9))), round_key(rk, 0))
}

/// Every intermediate state of an encryption has 16 bytes.
pub proof fn lemma_enc_rounds_len(block: Seq<u8>, rk: Seq<u8>, n: nat)
    requires
        block.len() == 16,
    ensures
        enc_rounds(block, rk, n).len() == 16,
{
    if n > 0 {
        let x = sub_bytes_of(enc_rounds(block, rk, (n - 1) as nat));
        assert(shift_rows_of(x).len() == 16);
        assert(mix_columns_of(shift_rows_of(x)).len() == 16);
    }
}

/// After `n` rounds, decrypting a ciphertext has walked `n` rounds back
/// through its encryption.
proof fn lemma_dec_rounds(block: Seq<u8>, rk: Seq<u8>, n: nat)
    requires
        block.len() == 16,
        n <= 9,
    ensures
        dec_rounds(aes128_encrypt_of(block, rk), rk, n) == shift_rows_of(
            sub_bytes_of(enc_rounds(block, rk, (9 - n) as nat)),
        ),
    decreases n,
{
    let c = aes128_encrypt_of(block, rk);
    if n == 0 {
        lemma_add_round_key_twice(
            shift_rows_of(sub_bytes_of(enc_rounds(block, rk, 9))),
            round_key(rk, 10),
        );
    } else {
        lemma_dec_rounds(block, rk, (n - 1) as nat);
        let e_prev = enc_rounds(block, rk, (9 - n) as nat);
        let e = enc_rounds(block, rk, (10 - n) as nat);
        lemma_enc_rounds_len(block, rk, (9 - n) as nat);
        lemma_enc_rounds_len(block, rk, (10 - n) as nat);
        let mixed = mix_columns_of(shift_rows_of(sub_bytes_of(e_prev)));
        assert(e == add_round_key_of(mixed, round_key(rk, 10 - n)));
        lemma_inv_shift_rows(sub_bytes_of(e));
        lemma_inv_sub_bytes(e);
        lemma_add_round_key_twice(mixed, round_key(rk, 10 - n));
        lemma_inv_mix_columns(shift_rows_of(sub_bytes_of(e_prev)));
    }
}

/// Decryption undoes encryption: for every 16-byte block and every key
/// schedule, decrypting the encrypted block gives the block back.
pub proof fn lemma_decrypt_encrypt(block: Seq<u8>, rk: Seq<u8>)
    requires
        block.len() == 16,
    ensures
        aes128_decrypt_of(aes128_encrypt_of(block, rk), rk) == block,
{
    lemma_dec_rounds(block, rk, 9);
    let e0 = enc_rounds(block, rk, 0);
    lemma_enc_rounds_len(block, rk, 0);
    lemma_inv_shift_rows(sub_bytes_of(e0));
    lemma_inv_sub_bytes(e0);
    lemma_add_round_key_twice(block, round_key(rk, 0));
}

/// SubBytes: replace each byte of the state by its S-box image.
pub fn sub_bytes(s: &mut [u8; 16])
    ensures
        final(s)@ == sub_bytes_of(old(s)@),
{
    let mut i: usize = 0;
    while i < 16
        invariant
            i <= 16,
            forall|j: int| 0 <= j < i ==> s@[j] == sbox(old(s)@[j]),
            forall|j: int| i <= j < 16 ==> s@[j] == old(s)@[j],
        decreases 16 - i,
    {
        s[i] = SBOX[s[i] as usize];
        i += 1;
    }
    assert(s@ =~= sub_bytes_of(old(s)@));
}

/// InvSubBytes: replace each byte of the state by its inverse S-box image.
pub fn inv_sub_bytes(s: &mut [u8; 16])
    ensures
        final(s)@ == inv_sub_bytes_of(old(s)@),
{
    let mut i: usize = 0;
    while i < 16
        invariant
            i <= 16,
            forall|j: int| 0 <= j < i ==> s@[j] == inv_sbox(old(s)@[j]),
            forall|j: int| i <= j < 16 ==> s@[j] == old(s)@[j],
        decreases 16 - i,
    {
        s[i] = INV_SBOX[s[i] as usize];
        i += 1;
    }
    assert(s@ =~= inv_sub_bytes_of(old(s)@));
}

/// ShiftRows: rotate row `r` of the state left by `r` positions.
pub fn shift_rows(s: &mut [u8; 16])
    ensures
        final(s)@ == shift_rows_of(old(s)@),
{
    // Row 1: left-rotate by 1.
    let t = s[1];
    s[1] = s[5];
    s[5] = s[9];
    s[9] = s[13];
    s[13] = t;
    // Row 2: left-rotate by 2, that is, two swaps.
    let t = s[2];
    s[2] = s[10];
    s[10] = t;
    let t = s[6];
    s[6] = s[14];
    s[14] = t;
    // Row 3: left-rotate by 3, that is, right-rotate by 1.
    let t = s[15];
    s[15] = s[11];
    s[11] = s[7];
    s[7] = s[3];
    s[3] = t;
    assert(s@ =~= shift_rows_of(old(s)@));
}

/// InvShiftRows: rotate row `r` of the state right by `r` positions.
pub fn inv_shift_rows(s: &mut [u8; 16])
    ensures
        final(s)@ == inv_shift_rows_of(old(s)@),
{
    // Row 1: right-rotate by 1.
    let t = s[13];
    s[13] = s[9];
    s[9] = s[5];
    s[5] = s[1];
    s[1] = t;
    // Row 2: right-rotate by 2, that is, two swaps.
    let t = s[2];
    s[2] = s[10];
    s[10] = t;
    let t = s[6];
    s[6] = s[14];
    s[14] = t;
    // Row 3: right-rotate by 3, that is, left-rotate by 1.
    let t = s[3];
    s[3] = s[7];
    s[7] = s[11];
    s[11] = s[15];
    s[15] = t;
    assert(s@ =~= inv_shift_rows_of(old(s)@));
}

/// MixColumns: multiply each column of the state by the MixColumns matrix.
pub fn mix_columns(s: &mut [u8; 16])
    ensures
        final(s)@ == mix_columns_of(old(s)@),
{
    let mut i: usize = 0;
    while i < 4
        invariant
            i <= 4,
            forall|j: int| 0 <= j < 4 * i ==> s@[j] == mix_columns_of(old(s)@)[j],
            forall|j: int| 4 * i <= j < 16 ==> s@[j] == old(s)@[j],
        decreases 4 - i,
    {
        let b = i * 4;
        let (s0, s1, s2, s3) = (s[b], s[b + 1], s[b + 2], s[b + 3]);
        s[b] = gmul(0x02, s0) ^ gmul(0x03, s1) ^ s2 ^ s3;
        s[b + 1] = s0 ^ gmul(0x02, s1) ^ gmul(0x03, s2) ^ s3;
        s[b + 2] = s0 ^ s1 ^ gmul(0x02, s2) ^ gmul(0x03, s3);
        s[b + 3] = gmul(0x03, s0) ^ s1 ^ s2 ^ gmul(0x02, s3);
        i += 1;
    }
    assert(s@ =~= mix_columns_of(old(s)@));
}

/// InvMixColumns: multiply each column of the state by the InvMixColumns
/// matrix.
pub fn inv_mix_columns(s: &mut [u8; 16])
    ensures
        final(s)@ == inv_mix_columns_of(old(s)@),
{
    let mut i: usize = 0;
    while i < 4
        invariant
            i <= 4,
            forall|j: int| 0 <= j < 4 * i ==> s@[j] == inv_mix_columns_of(old(s)@)[j],
            forall|j: int| 4 * i <= j < 16 ==> s@[j] == old(s)@[j],
        decreases 4 - i,
    {
        let b = i * 4;
        let (s0, s1, s2, s3) = (s[b], s[b + 1], s[b + 2], s[b + 3]);
        s[b] = gmul(0x0E, s0) ^ gmul(0x0B, s1) ^ gmul(0x0D, s2) ^ gmul(0x09, s3);
        s[b + 1] = gmul(0x09, s0) ^ gmul(0x0E, s1) ^ gmul(0x0B, s2) ^ gmul(0x0D, s3);
        s[b + 2] = gmul(0x0D, s0) ^ gmul(0x09, s1) ^ gmul(0x0E, s2) ^ gmul(0x0B, s3);
        s[b + 3] = gmul(0x0B, s0) ^ gmul(0x0D, s1) ^ gmul(0x09, s2) ^ gmul(0x0E, s3);
        i += 1;
    }
    assert(s@ =~= inv_mix_columns_of(old(s)@));
}

/// AddRoundKey: XOR round key `round` of the schedule `rk` into the state.
pub fn add_round_key(s: &mut [u8; 16], rk: &[u8; 176], round: usize)
    requires
        round <= 10,
    ensures
        final(s)@ == add_round_key_of(old(s)@, round_key(rk@, round as int)),
{
    let base = round * 16;
    let mut i: usize = 0;
    while i < 16
        invariant
            i <= 16,
            base == round * 16,
            round <= 10,
            forall|j: int| 0 <= j < i ==> s@[j] == old(s)@[j] ^ rk@[base + j],
            forall|j: int| i <= j < 16 ==> s@[j] == old(s)@[j],
        decreases 16 - i,
    {
        s[i] = s[i] ^ rk[base + i];
        i += 1;
    }
    assert(s@ =~= add_round_key_of(old(s)@, round_key(rk@, round as int)));
}

/// Expand a 16-byte AES-128 key into its 176-byte key schedule.
pub fn key_expand(key: &[u8; 16]) -> (w: [u8; 176])
    ensures
        w@ == key_expand_of(key@),
{
    let mut w = [0u8;176];
    let mut k: usize = 0;
    while k < 16
        invariant
            k <= 16,
            forall|j: int| 0 <= j < k ==> w@[j] == expanded_byte(key@, j),
        decreases 16 - k,
    {
        w[k] = key[k];
        proof {
            lemma_expanded_key_bytes(key@, k as int);
        }
        k += 1;
    }
    let mut i: usize = 4;
    while i < 44
        invariant
            4 <= i <= 44,
            forall|j: int| 0 <= j < 4 * i ==> w@[j] == expanded_byte(key@, j),
        decreases 44 - i,
    {
        let p = (i - 1) * 4;
        let mut t0 = w[p];
        let mut t1 = w[p + 1];
        let mut t2 = w[p + 2];
        let mut t3 = w[p + 3];
        if i % 4 == 0 {
            // RotWord, then SubWord, then the round constant into the first byte.
            let r0 = SBOX[t1 as usize] ^ RCON[i / 4 - 1];
            let r1 = SBOX[t2 as usize];
            let r2 = SBOX[t3 as usize];
            let r3 = SBOX[t0 as usize];
            t0 = r0;
            t1 = r1;
            t2 = r2;
            t3 = r3;
        }
        let q = (i - 4) * 4;
        let n = i * 4;
        w[n] = w[q] ^ t0;
        w[n + 1] = w[q + 1] ^ t1;
        w[n + 2] = w[q + 2] ^ t2;
        w[n + 3] = w[q + 3] ^ t3;
        proof {
            lemma_expanded_word_byte(key@, i as int, 0);
            lemma_expanded_word_byte(key@, i as int, 1);
            lemma_expanded_word_byte(key@, i as int, 2);
            lemma_expanded_word_byte(key@, i as int, 3);
        }
        i += 1;
    }
    assert(w@ =~= key_expand_of(key@));
    w
}

/// Encrypt a single 16-byte block with AES-128 under the key schedule
/// `round_keys`.
pub fn aes128_encrypt_block(block: &[u8; 16], round_keys: &[u8; 176]) -> (out: [u8; 16])
    ensures
        out@ == aes128_encrypt_of(block@, round_keys@),
{
    let mut s = *block;
    add_round_key(&mut s, round_keys, 0);
    let mut round: usize = 1;
    while round < 10
        invariant
            1 <= round <= 10,
            s@ == enc_rounds(block@, round_keys@, (round - 1) as nat),
        decreases 10 - round,
    {
        sub_bytes(&mut s);
        shift_rows(&mut s);
        mix_columns(&mut s);
        add_round_key(&mut s, round_keys, round);
        round += 1;
    }
    sub_bytes(&mut s);
    shift_rows(&mut s);
    add_round_key(&mut s, round_keys, 10);
    s
}

/// Decrypt a single 16-byte block with AES-128 under the key schedule
/// `round_keys`.
pub fn aes128_decrypt_block(block: &[u8; 16], round_keys: &[u8; 176]) -> (out: [u8; 16])
    ensures
        out@ == aes128_decrypt_of(block@, round_keys@),
{
    let mut s = *block;
    add_round_key(&mut s, round_keys, 10);
    let mut round: usize = 9;
    while round >= 1
        invariant
            0 <= round <= 9,
            s@ == dec_rounds(block@, round_keys@, (9 - round) as nat),
        decreases round,
    {
        inv_shift_rows(&mut s);
        inv_sub_bytes(&mut s);
        add_round_key(&mut s, round_keys, round);
        inv_mix_columns(&mut s);
        round -= 1;
    }
    inv_shift_rows(&mut s);
    inv_sub_bytes(&mut s);
    add_round_key(&mut s, round_keys, 0);
    s
}

} // verus!
