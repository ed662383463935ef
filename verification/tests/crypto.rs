use hakkit::crypto::aes::{
    add_round_key, aes128_decrypt_block, aes128_encrypt_block, inv_mix_columns, inv_shift_rows,
    inv_sub_bytes, key_expand, mix_columns, shift_rows, sub_bytes,
};
use hakkit::crypto::ctr::increment_counter;
use hakkit::crypto::gf::gmul;
use hakkit::crypto::nca::{
    decrypt_block_ecb, decrypt_header, decrypt_section_ctr, make_xts_tweak, xor_block,
    xts_decrypt_sector, xts_mult_tweak,
};

fn hex16(s: &str) -> [u8; 16] {
    let mut out = [0u8; 16];
    for i in 0..16 {
        out[i] = u8::from_str_radix(&s[2 * i..2 * i + 2], 16).unwrap();
    }
    out
}

/// XTS encryption of one sector with the byte-reversed sector tweak, built
/// from the library's own block cipher.
fn xts_encrypt_sector(plain: &[u8], key1: &[u8; 16], key2: &[u8; 16], sector: u64) -> Vec<u8> {
    let rk1 = key_expand(key1);
    let rk2 = key_expand(key2);
    let mut t = aes128_encrypt_block(&make_xts_tweak(sector), &rk2);
    let mut out = Vec::new();
    for chunk in plain.chunks(16) {
        let mut block = [0u8; 16];
        block.copy_from_slice(chunk);
        xor_block(&mut block, &t);
        let mut block = aes128_encrypt_block(&block, &rk1);
        xor_block(&mut block, &t);
        out.extend_from_slice(&block);
        xts_mult_tweak(&mut t);
    }
    out
}

fn header_key() -> [u8; 32] {
    let mut k = [0u8; 32];
    for i in 0..32 {
        k[i] = (i as u8).wrapping_mul(7).wrapping_add(3);
    }
    k
}

fn header_plaintext(magic: &[u8; 4]) -> Vec<u8> {
    let mut plain = vec![0u8; 0xC00];
    for (i, b) in plain.iter_mut().enumerate() {
        *b = (i as u32).wrapping_mul(31).wrapping_add(i as u32 >> 8) as u8;
    }
    plain[0x200..0x204].copy_from_slice(magic);
    plain
}

fn encrypt_header(plain: &[u8], key: &[u8; 32], fs_indices: [u64; 4]) -> Vec<u8> {
    let k1: [u8; 16] = key[..16].try_into().unwrap();
    let k2: [u8; 16] = key[16..].try_into().unwrap();
    let indices = [0, 1, fs_indices[0], fs_indices[1], fs_indices[2], fs_indices[3]];
    let mut enc = Vec::new();
    for n in 0..6 {
        enc.extend(xts_encrypt_sector(&plain[n * 0x200..(n + 1) * 0x200], &k1, &k2, indices[n]));
    }
    enc
}

#[test]
fn aes_fips197_vector() {
    let key = hex16("000102030405060708090a0b0c0d0e0f");
    let plain = hex16("00112233445566778899aabbccddeeff");
    let cipher = hex16("69c4e0d86a7b0430d8cdb78070b4c55a");
    let rk = key_expand(&key);
    assert_eq!(aes128_encrypt_block(&plain, &rk), cipher);
    assert_eq!(aes128_decrypt_block(&cipher, &rk), plain);
    assert_eq!(decrypt_block_ecb(&cipher, &key), plain);
}

#[test]
fn key_schedule_fips197_appendix() {
    let key = hex16("2b7e151628aed2a6abf7158809cf4f3c");
    let rk = key_expand(&key);
    assert_eq!(rk.len(), 176);
    assert_eq!(&rk[..16], &key[..]);
    assert_eq!(&rk[16..32], &hex16("a0fafe1788542cb123a339392a6c7605")[..]);
    assert_eq!(&rk[160..], &hex16("d014f9a8c9ee2589e13f0cc8b6630ca6")[..]);
}

#[test]
fn gmul_known_products() {
    assert_eq!(gmul(0x57, 0x83), 0xC1);
    assert_eq!(gmul(0x57, 0x13), 0xFE);
    assert_eq!(gmul(0x02, 0x80), 0x1B);
    assert_eq!(gmul(0x03, 0x01), 0x03);
    assert_eq!(gmul(0x00, 0xFF), 0x00);
    assert_eq!(gmul(0x01, 0xAB), 0xAB);
    for a in 0..=255u8 {
        for b in [0x02u8, 0x03, 0x09, 0x0B, 0x0D, 0x0E] {
            assert_eq!(gmul(a, b), gmul(b, a));
        }
    }
}

#[test]
fn round_steps_on_fips197_round_one() {
    // State at the start of round 1 of the FIPS-197 appendix B example.
    let mut s = hex16("193de3bea0f4e22b9ac68d2ae9f84808");
    sub_bytes(&mut s);
    assert_eq!(s, hex16("d42711aee0bf98f1b8b45de51e415230"));
    shift_rows(&mut s);
    assert_eq!(s, hex16("d4bf5d30e0b452aeb84111f11e2798e5"));
    mix_columns(&mut s);
    assert_eq!(s, hex16("046681e5e0cb199a48f8d37a2806264c"));
    let rk = key_expand(&hex16("2b7e151628aed2a6abf7158809cf4f3c"));
    add_round_key(&mut s, &rk, 1);
    assert_eq!(s, hex16("a49c7ff2689f352b6b5bea43026a5049"));
}

#[test]
fn inverse_steps_undo_the_steps() {
    let start = hex16("00112233445566778899aabbccddeeff");
    let mut s = start;
    sub_bytes(&mut s);
    inv_sub_bytes(&mut s);
    assert_eq!(s, start);
    shift_rows(&mut s);
    assert_ne!(s, start);
    inv_shift_rows(&mut s);
    assert_eq!(s, start);
    mix_columns(&mut s);
    assert_ne!(s, start);
    inv_mix_columns(&mut s);
    assert_eq!(s, start);
}

#[test]
fn block_round_trip_on_many_blocks() {
    for seed in 0..64u8 {
        let mut key = [0u8; 16];
        let mut block = [0u8; 16];
        for i in 0..16 {
            key[i] = seed.wrapping_mul(17).wrapping_add(i as u8 * 29);
            block[i] = seed.wrapping_mul(101).wrapping_add(i as u8 * 13).wrapping_add(5);
        }
        let rk = key_expand(&key);
        let cipher = aes128_encrypt_block(&block, &rk);
        assert_ne!(cipher, block);
        assert_eq!(aes128_decrypt_block(&cipher, &rk), block);
        assert_eq!(decrypt_block_ecb(&cipher, &key), block);
    }
}

#[test]
fn xts_tweak_is_big_endian_in_the_high_half() {
    assert_eq!(make_xts_tweak(0), [0u8; 16]);
    assert_eq!(make_xts_tweak(1), [0, 0, 0, 0, 0, 0, 0, 0, 0, 0, 0, 0, 0, 0, 0, 1]);
    assert_eq!(
        make_xts_tweak(0x0102030405060708),
        [0, 0, 0, 0, 0, 0, 0, 0, 1, 2, 3, 4, 5, 6, 7, 8]
    );
    assert_eq!(
        make_xts_tweak(u64::MAX),
        [0, 0, 0, 0, 0, 0, 0, 0, 0xFF, 0xFF, 0xFF, 0xFF, 0xFF, 0xFF, 0xFF, 0xFF]
    );
}

#[test]
fn xts_tweak_doubling() {
    let mut t = [0u8; 16];
    t[0] = 1;
    xts_mult_tweak(&mut t);
    let mut want = [0u8; 16];
    want[0] = 2;
    assert_eq!(t, want);

    // A bit that leaves byte 0 enters byte 1.
    let mut t = [0u8; 16];
    t[0] = 0x80;
    xts_mult_tweak(&mut t);
    let mut want = [0u8; 16];
    want[1] = 1;
    assert_eq!(t, want);

    // A bit that falls off the top comes back as 0x87 in byte 0.
    let mut t = [0u8; 16];
    t[15] = 0x80;
    t[0] = 0x01;
    xts_mult_tweak(&mut t);
    let mut want = [0u8; 16];
    want[0] = 0x02 ^ 0x87;
    assert_eq!(t, want);
}

#[test]
fn xts_sector_round_trip() {
    let k1 = hex16("000102030405060708090a0b0c0d0e0f");
    let k2 = hex16("f0e1d2c3b4a5968778695a4b3c2d1e0f");
    let mut plain = [0u8; 0x200];
    for (i, b) in plain.iter_mut().enumerate() {
        *b = (i * 7 + 1) as u8;
    }
    for sector in [0u64, 1, 5, 0x1_0000_0001] {
        let enc = xts_encrypt_sector(&plain, &k1, &k2, sector);
        assert_ne!(&enc[..], &plain[..]);
        let mut data: [u8; 0x200] = enc.clone().try_into().unwrap();
        xts_decrypt_sector(&mut data, &k1, &k2, sector);
        assert_eq!(data, plain);
        // Another sector index gives another plaintext.
        let mut other: [u8; 0x200] = enc.try_into().unwrap();
        xts_decrypt_sector(&mut other, &k1, &k2, sector + 1);
        assert_ne!(other, plain);
    }
}

#[test]
fn decrypt_header_nca3_uses_contiguous_sectors() {
    let key = header_key();
    let plain = header_plaintext(b"NCA3");
    let enc = encrypt_header(&plain, &key, [2, 3, 4, 5]);
    let out = decrypt_header(&enc, &key);
    assert_eq!(&out[..], &plain[..]);
}

#[test]
fn decrypt_header_nca2_uses_sector_zero_for_fs_headers() {
    let key = header_key();
    let plain = header_plaintext(b"NCA2");
    let enc = encrypt_header(&plain, &key, [0, 0, 0, 0]);
    let out = decrypt_header(&enc, &key);
    assert_eq!(&out[..], &plain[..]);
}

#[test]
fn nca_version_detection_selects_the_tweaks() {
    let key = header_key();
    // An NCA2 header encrypted as if it were an NCA3 does not come back:
    // the FS header sectors are decrypted with tweak 0.
    let plain2 = header_plaintext(b"NCA2");
    let wrong = encrypt_header(&plain2, &key, [2, 3, 4, 5]);
    let out = decrypt_header(&wrong, &key);
    assert_eq!(&out[..0x400], &plain2[..0x400]);
    assert_ne!(&out[0x400..0x600], &plain2[0x400..0x600]);
    assert_ne!(&out[0xA00..], &plain2[0xA00..]);

    // Swapping the magic to NCA3 makes the same layout decrypt.
    let plain3 = header_plaintext(b"NCA3");
    let enc3 = encrypt_header(&plain3, &key, [2, 3, 4, 5]);
    assert_eq!(&decrypt_header(&enc3, &key)[..], &plain3[..]);
    let wrong3 = encrypt_header(&plain3, &key, [0, 0, 0, 0]);
    let out3 = decrypt_header(&wrong3, &key);
    assert_eq!(&out3[..0x400], &plain3[..0x400]);
    assert_ne!(&out3[0x400..0x600], &plain3[0x400..0x600]);

    // Versions other than 2 are numbered like an NCA3.
    let plain0 = header_plaintext(b"NCA0");
    let enc0 = encrypt_header(&plain0, &key, [2, 3, 4, 5]);
    assert_eq!(&decrypt_header(&enc0, &key)[..], &plain0[..]);
}

#[test]
fn decrypt_header_ignores_what_follows_the_header() {
    let key = header_key();
    let plain = header_plaintext(b"NCA3");
    let mut enc = encrypt_header(&plain, &key, [2, 3, 4, 5]);
    enc.extend_from_slice(&[0xAA; 100]);
    assert_eq!(&decrypt_header(&enc, &key)[..], &plain[..]);
}

#[test]
fn ctr_twice_returns_the_original() {
    let key = hex16("2b7e151628aed2a6abf7158809cf4f3c");
    let counter = hex16("f0f1f2f3f4f5f6f7f8f9fafbfcfdfeff");
    for len in [0usize, 1, 15, 16, 17, 32, 100] {
        let original: Vec<u8> = (0..len).map(|i| (i * 3 + 1) as u8).collect();
        let mut data = original.clone();
        decrypt_section_ctr(&mut data, &key, &counter);
        if len > 0 {
            assert_ne!(data, original);
        }
        decrypt_section_ctr(&mut data, &key, &counter);
        assert_eq!(data, original);
    }
}

#[test]
fn ctr_matches_the_nist_vector() {
    // NIST SP 800-38A, F.5.1 CTR-AES128.Encrypt, first two blocks.
    let key = hex16("2b7e151628aed2a6abf7158809cf4f3c");
    let counter = hex16("f0f1f2f3f4f5f6f7f8f9fafbfcfdfeff");
    let mut data = Vec::new();
    data.extend_from_slice(&hex16("6bc1bee22e409f96e93d7e117393172a"));
    data.extend_from_slice(&hex16("ae2d8a571e03ac9c9eb76fac45af8e51"));
    decrypt_section_ctr(&mut data, &key, &counter);
    assert_eq!(&data[..16], &hex16("874d6191b620e3261bef6864990db6ce")[..]);
    assert_eq!(&data[16..], &hex16("9806f66b7970fdff8617187bb9fffdff")[..]);
}

#[test]
fn ctr_counter_overflow() {
    let key = hex16("000102030405060708090a0b0c0d0e0f");
    let rk = key_expand(&key);
    let zero_block = aes128_encrypt_block(&[0u8; 16], &rk);
    let ones_block = aes128_encrypt_block(&[0xFF; 16], &rk);

    // From the largest counter the second block is the block of counter zero.
    let mut data = [0u8; 32];
    decrypt_section_ctr(&mut data, &key, &[0xFF; 16]);
    assert_eq!(&data[..16], &ones_block[..]);
    assert_eq!(data[16], zero_block[0]);
    assert_eq!(&data[16..], &zero_block[..]);

    // From the counter before it the wrap comes one block later.
    let mut counter = [0xFFu8; 16];
    counter[15] = 0xFE;
    let mut data = [0u8; 48];
    decrypt_section_ctr(&mut data, &key, &counter);
    assert_eq!(&data[..16], &aes128_encrypt_block(&counter, &rk)[..]);
    assert_eq!(&data[16..32], &ones_block[..]);
    assert_eq!(&data[32..], &zero_block[..]);
}

#[test]
fn counter_increment_carries() {
    let mut c = [0u8; 16];
    increment_counter(&mut c);
    let mut want = [0u8; 16];
    want[15] = 1;
    assert_eq!(c, want);

    let mut c = [0u8; 16];
    c[15] = 0xFF;
    c[14] = 0xFF;
    c[13] = 0x01;
    increment_counter(&mut c);
    let mut want = [0u8; 16];
    want[13] = 0x02;
    assert_eq!(c, want);

    let mut c = [0xFFu8; 16];
    increment_counter(&mut c);
    assert_eq!(c, [0u8; 16]);
}
