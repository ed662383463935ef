use hakkit::error::Error;
use hakkit::formats::bfttf::{
    decrypt, encrypt, is_valid_font_after_xor, xor_with_key, Bfttf, FontPlatform,
};
use hakkit::formats::bntx::{Bntx, TextureInfo};
use hakkit::formats::nca::{ContentType, DistributionType, FsEntry, Nca};
use hakkit::formats::ncz::{read_compressed_blocks, NczHeader};
use hakkit::formats::npdm::{null_padded_string, Aci0, Acid, Npdm};
use hakkit::stream::Stream;

fn nca_image(magic: &[u8; 4]) -> Vec<u8> {
    let mut v = vec![0u8; 0x400];
    v[0x200..0x204].copy_from_slice(magic);
    v[0x204] = 1;
    v[0x205] = 2;
    v[0x206] = 5;
    v[0x207] = 2;
    v[0x208..0x210].copy_from_slice(&0x1_0000_2000u64.to_le_bytes());
    v[0x210..0x218].copy_from_slice(&0x0100_ABCD_0000_1000u64.to_le_bytes());
    v[0x218..0x21C].copy_from_slice(&7u32.to_le_bytes());
    v[0x21C..0x220].copy_from_slice(&0x000C_1100u32.to_le_bytes());
    v[0x220] = 9;
    for i in 0..16 {
        v[0x230 + i] = 0xA0 + i as u8;
    }
    for s in 0..4usize {
        let e = 0x240 + 0x10 * s;
        if s < 2 {
            v[e..e + 4].copy_from_slice(&(6 + 10 * s as u32).to_le_bytes());
            v[e + 4..e + 8].copy_from_slice(&(16 + 10 * s as u32).to_le_bytes());
        }
        for i in 0..32 {
            v[0x280 + 0x20 * s + i] = (s * 32 + i) as u8;
        }
        for i in 0..16 {
            v[0x300 + 0x10 * s + i] = (0x80 + s * 16 + i) as u8;
        }
    }
    v
}

fn npdm_image(with_acid: bool) -> Vec<u8> {
    let mut v = vec![0u8; 0x80];
    v[0..4].copy_from_slice(b"META");
    v[0x0C] = 0x03;
    v[0x0E] = 44;
    v[0x0F] = 2;
    v[0x14..0x18].copy_from_slice(&0x1000u32.to_le_bytes());
    v[0x18..0x1C].copy_from_slice(&3u32.to_le_bytes());
    v[0x1C..0x20].copy_from_slice(&0x0010_0000u32.to_le_bytes());
    v[0x20..0x2B].copy_from_slice(b"Application");
    v[0x30..0x40].copy_from_slice(b"0123456789ABCDEF");
    let aci_offset = 0x80u32;
    v[0x70..0x74].copy_from_slice(&aci_offset.to_le_bytes());
    v[0x74..0x78].copy_from_slice(&0x40u32.to_le_bytes());
    // ACI0
    let mut aci = vec![0u8; 0x40];
    aci[0..4].copy_from_slice(b"ACI0");
    aci[0x10..0x18].copy_from_slice(&0x0100_0000_0000_1234u64.to_le_bytes());
    v.extend(aci);
    if with_acid {
        let acid_offset = v.len() as u32;
        v[0x78..0x7C].copy_from_slice(&acid_offset.to_le_bytes());
        let mut acid = vec![0u8; 0x240];
        acid[0x200..0x204].copy_from_slice(b"ACID");
        acid[0x204..0x208].copy_from_slice(&0x240u32.to_le_bytes());
        acid[0x208..0x20C].copy_from_slice(&0x5u32.to_le_bytes());
        acid[0x210..0x218].copy_from_slice(&0x0100_0000_0000_1000u64.to_le_bytes());
        acid[0x218..0x220].copy_from_slice(&0x0100_0000_0000_1FFFu64.to_le_bytes());
        v.extend(acid);
    }
    v
}

fn ncz_image(blocks: &[&[u8]]) -> Vec<u8> {
    let mut v = Vec::new();
    v.extend_from_slice(b"NCZSECTN");
    v.extend_from_slice(&2u64.to_le_bytes());
    for s in 0..2u8 {
        v.extend_from_slice(&(0x4000u64 * (s as u64 + 1)).to_le_bytes());
        v.extend_from_slice(&(0x100u64 + s as u64).to_le_bytes());
        v.push(3 + s);
        v.extend_from_slice(&[0u8; 7]);
        v.extend_from_slice(&[0x10 + s; 16]);
        v.extend_from_slice(&[0x20 + s; 16]);
    }
    for b in blocks {
        v.extend_from_slice(&(b.len() as u32).to_le_bytes());
        v.extend_from_slice(b);
    }
    v
}

fn brti_block(name_ptr: u64, width: u32) -> Vec<u8> {
    let mut b = vec![0u8; 0x90];
    b[0..4].copy_from_slice(b"BRTI");
    b[4..8].copy_from_slice(&0x90u32.to_le_bytes());
    b[8..16].copy_from_slice(&0x4000u64.to_le_bytes());
    b[0x16..0x18].copy_from_slice(&5u16.to_le_bytes());
    b[0x1C..0x20].copy_from_slice(&0x0B01u32.to_le_bytes());
    b[0x24..0x28].copy_from_slice(&width.to_le_bytes());
    b[0x28..0x2C].copy_from_slice(&(width / 2).to_le_bytes());
    b[0x2C..0x30].copy_from_slice(&1u32.to_le_bytes());
    b[0x30..0x34].copy_from_slice(&6u32.to_le_bytes());
    b[0x4C..0x50].copy_from_slice(&0x1230u32.to_le_bytes());
    b[0x50..0x58].copy_from_slice(&name_ptr.to_le_bytes());
    b
}

/// A BNTX with two textures, `tex_a` and `b`.
fn bntx_image() -> Vec<u8> {
    let mut v = vec![0u8; 0x48];
    v[0..4].copy_from_slice(b"BNTX");
    v[0x10..0x12].copy_from_slice(&0xFFFEu16.to_le_bytes());
    v[0x20..0x24].copy_from_slice(b"NX  ");
    v[0x24..0x28].copy_from_slice(&2u32.to_le_bytes());
    v[0x28..0x30].copy_from_slice(&0x48u64.to_le_bytes());
    v[0x30..0x38].copy_from_slice(&0x1000u64.to_le_bytes());
    // Pointer table at 0x48, BRTI blocks at 0x60 and 0xF0, names at 0x180.
    v.extend_from_slice(&0x60u64.to_le_bytes());
    v.extend_from_slice(&0xF0u64.to_le_bytes());
    v.resize(0x60, 0);
    v.extend(brti_block(0x180, 256));
    v.extend(brti_block(0x187, 64));
    assert_eq!(v.len(), 0x180);
    v.extend_from_slice(&5u16.to_le_bytes());
    v.extend_from_slice(b"tex_a");
    v.extend_from_slice(&1u16.to_le_bytes());
    v.extend_from_slice(b"b");
    v
}

#[test]
fn nca_header_fields() {
    let nca = Nca::parse(&mut Stream::new(nca_image(b"NCA3"))).unwrap();
    assert_eq!(nca.version, 3);
    assert_eq!(nca.distribution_type, DistributionType::GameCard);
    assert_eq!(nca.content_type, ContentType::Control);
    assert_eq!(nca.key_generation, 9);
    assert_eq!(nca.key_area_enc_key_index, 2);
    assert_eq!(nca.content_size, 0x1_0000_2000);
    assert_eq!(nca.program_id, 0x0100_ABCD_0000_1000);
    assert_eq!(nca.content_index, 7);
    assert_eq!(nca.sdk_addon_version, 0x000C_1100);
    assert_eq!(nca.rights_id[0], 0xA0);
    assert_eq!(nca.rights_id[15], 0xAF);
    assert!(nca.uses_titlekey_crypto());
    assert_eq!(nca.fs_entries[0], FsEntry { start_block: 6, end_block: 16 });
    assert_eq!(nca.fs_entries[1], FsEntry { start_block: 16, end_block: 26 });
    assert_eq!(nca.fs_entries[2], FsEntry { start_block: 0, end_block: 0 });
    assert_eq!(nca.fs_header_hashes[1][0], 32);
    assert_eq!(nca.fs_header_hashes[3][31], 127);
    assert_eq!(nca.encrypted_key_area[0][0], 0x80);
    assert_eq!(nca.encrypted_key_area[3][15], 0xBF);
    assert_eq!(nca.section_offset(0), Some(6 * 0x200));
    assert_eq!(nca.section_offset(1), Some(16 * 0x200));
    assert_eq!(nca.section_offset(2), None);
    assert_eq!(nca.section_offset(3), None);
    assert_eq!(nca.section_offset(4), None);
    assert_eq!(nca.section_offset(usize::MAX), None);
}

#[test]
fn nca_versions_and_key_generation() {
    for (magic, version) in [(b"NCA0", 0u8), (b"NCA1", 1), (b"NCA2", 2), (b"NCA3", 3)] {
        let mut r = Stream::new(nca_image(magic));
        let nca = Nca::parse(&mut r).unwrap();
        assert_eq!(nca.version, version);
        assert_eq!(r.position(), 0x340);
    }
    // The effective key generation is the newer of the two fields.
    let mut image = nca_image(b"NCA3");
    image[0x206] = 11;
    image[0x220] = 4;
    assert_eq!(Nca::parse(&mut Stream::new(image)).unwrap().key_generation, 11);
    let mut image = nca_image(b"NCA3");
    image[0x206] = 0;
    image[0x220] = 0;
    assert_eq!(Nca::parse(&mut Stream::new(image)).unwrap().key_generation, 0);
}

#[test]
fn nca_section_present_when_one_block_field_is_set() {
    let mut image = nca_image(b"NCA3");
    // Start zero, end set: the section is present and starts at offset zero.
    image[0x260..0x264].copy_from_slice(&0u32.to_le_bytes());
    image[0x264..0x268].copy_from_slice(&9u32.to_le_bytes());
    // The largest start block does not overflow.
    image[0x270..0x274].copy_from_slice(&u32::MAX.to_le_bytes());
    let nca = Nca::parse(&mut Stream::new(image)).unwrap();
    assert_eq!(nca.section_offset(2), Some(0));
    assert_eq!(nca.section_offset(3), Some(u32::MAX as u64 * 0x200));
}

#[test]
fn nca_without_rights_id() {
    let mut image = nca_image(b"NCA2");
    for i in 0..16 {
        image[0x230 + i] = 0;
    }
    let nca = Nca::parse(&mut Stream::new(image.clone())).unwrap();
    assert!(!nca.uses_titlekey_crypto());
    image[0x23F] = 1;
    assert!(Nca::parse(&mut Stream::new(image)).unwrap().uses_titlekey_crypto());
}

#[test]
fn nca_type_codes() {
    assert_eq!(DistributionType::from(0), DistributionType::Download);
    assert_eq!(DistributionType::from(1), DistributionType::GameCard);
    assert_eq!(DistributionType::from(2), DistributionType::Unknown(2));
    assert_eq!(DistributionType::from(255), DistributionType::Unknown(255));
    assert_eq!(ContentType::from(0), ContentType::Program);
    assert_eq!(ContentType::from(1), ContentType::Meta);
    assert_eq!(ContentType::from(2), ContentType::Control);
    assert_eq!(ContentType::from(3), ContentType::Manual);
    assert_eq!(ContentType::from(4), ContentType::Data);
    assert_eq!(ContentType::from(5), ContentType::PublicData);
    assert_eq!(ContentType::from(6), ContentType::Unknown(6));
}

#[test]
fn nca_errors() {
    assert!(matches!(Nca::parse(&mut Stream::new(vec![0; 0x203])), Err(Error::UnexpectedEof)));
    assert!(matches!(Nca::parse(&mut Stream::new(vec![0; 0x400])), Err(Error::BadMagic)));
    assert!(matches!(
        Nca::parse(&mut Stream::new(nca_image(b"NCA4"))),
        Err(Error::BadMagic)
    ));
    assert!(matches!(
        Nca::parse(&mut Stream::new(nca_image(b"nca3"))),
        Err(Error::BadMagic)
    ));
    let mut image = nca_image(b"NCA3");
    image.truncate(0x33F);
    assert!(matches!(Nca::parse(&mut Stream::new(image)), Err(Error::UnexpectedEof)));
    let mut image = nca_image(b"NCA3");
    image.truncate(0x340);
    assert!(Nca::parse(&mut Stream::new(image)).is_ok());
    let mut r = Stream::new(nca_image(b"NCA3"));
    r.seek(u64::MAX - 5);
    assert!(matches!(Nca::parse(&mut r), Err(Error::InvalidRange)));
}

#[test]
fn npdm_with_acid() {
    let mut r = Stream::new(npdm_image(true));
    let npdm = Npdm::parse(&mut r).unwrap();
    assert!(npdm.is_64bit);
    assert_eq!(npdm.main_thread_priority, 44);
    assert_eq!(npdm.main_thread_core, 2);
    assert_eq!(npdm.system_resource_size, 0x1000);
    assert_eq!(npdm.version, 3);
    assert_eq!(npdm.main_thread_stack_size, 0x0010_0000);
    assert_eq!(npdm.title_name, "Application");
    assert_eq!(npdm.product_code, "0123456789ABCDEF");
    assert_eq!(npdm.aci.program_id, 0x0100_0000_0000_1234);
    let acid = npdm.acid.unwrap();
    assert_eq!(acid.flags, 5);
    assert_eq!(acid.program_id_min, 0x0100_0000_0000_1000);
    assert_eq!(acid.program_id_max, 0x0100_0000_0000_1FFF);
    assert_eq!(r.position(), 0xC0 + 0x220);
}

#[test]
fn npdm_without_acid() {
    let mut r = Stream::new(npdm_image(false));
    let npdm = Npdm::parse(&mut r).unwrap();
    assert!(npdm.acid.is_none());
    assert_eq!(npdm.aci.program_id, 0x0100_0000_0000_1234);
    assert_eq!(r.position(), 0x80 + 0x18);
    let mut image = npdm_image(false);
    image[0x0C] = 0x02;
    assert!(!Npdm::parse(&mut Stream::new(image)).unwrap().is_64bit);
}

#[test]
fn npdm_malformed_acid_is_dropped() {
    let mut image = npdm_image(true);
    image[0xC0 + 0x200] = b'X';
    let mut r = Stream::new(image.clone());
    assert!(Npdm::parse(&mut r).unwrap().acid.is_none());
    // The stream then stands just past the ACI0 block.
    assert_eq!(r.position(), 0x80 + 0x18);
    assert!(Npdm::parse(&mut Stream::new(image)).unwrap().acid.is_none());
    let mut image = npdm_image(true);
    image.truncate(0xC0 + 0x210);
    assert!(Npdm::parse(&mut Stream::new(image)).unwrap().acid.is_none());
    let mut image = npdm_image(true);
    image[0x78..0x7C].copy_from_slice(&0xFFFF_FFF0u32.to_le_bytes());
    assert!(Npdm::parse(&mut Stream::new(image)).unwrap().acid.is_none());
}

#[test]
fn npdm_errors() {
    assert!(matches!(Npdm::parse(&mut Stream::new(b"MET".to_vec())), Err(Error::UnexpectedEof)));
    assert!(matches!(Npdm::parse(&mut Stream::new(vec![0; 0x80])), Err(Error::BadMagic)));
    let mut image = npdm_image(false);
    image.truncate(0x7F);
    assert!(matches!(Npdm::parse(&mut Stream::new(image)), Err(Error::UnexpectedEof)));
    let mut image = npdm_image(false);
    image[0x80] = b'B';
    assert!(matches!(Npdm::parse(&mut Stream::new(image)), Err(Error::BadMagic)));
    let mut image = npdm_image(false);
    image.truncate(0x90);
    assert!(matches!(Npdm::parse(&mut Stream::new(image)), Err(Error::UnexpectedEof)));
    let mut image = npdm_image(false);
    image[0x70..0x74].copy_from_slice(&0x1000u32.to_le_bytes());
    assert!(matches!(Npdm::parse(&mut Stream::new(image)), Err(Error::UnexpectedEof)));
}

#[test]
fn npdm_blocks_alone() {
    let image = npdm_image(true);
    let mut r = Stream::new(image);
    r.seek(0x80);
    assert_eq!(Aci0::parse(&mut r).unwrap().program_id, 0x0100_0000_0000_1234);
    r.seek(0xC0);
    assert_eq!(Acid::parse(&mut r).unwrap().flags, 5);
    r.seek(0x80);
    assert!(matches!(Acid::parse(&mut r), Err(Error::BadMagic)));
    r.seek(0xC0);
    assert!(matches!(Aci0::parse(&mut r), Err(Error::BadMagic)));
}

#[test]
fn null_padded_fields() {
    assert_eq!(null_padded_string(b"abc\0\0\0"), "abc");
    assert_eq!(null_padded_string(b"abcdef"), "abcdef");
    assert_eq!(null_padded_string(b"\0abc"), "");
    assert_eq!(null_padded_string(b""), "");
    assert_eq!(null_padded_string(b"a\0b\0"), "a");
    assert_eq!(null_padded_string(b"\xFFz\0"), "\u{FFFD}z");
}

#[test]
fn ncz_header_and_blocks() {
    let image = ncz_image(&[b"first", b"second block", b"3"]);
    let mut r = Stream::new(image);
    let header = NczHeader::parse(&mut r).unwrap();
    assert_eq!(header.sections.len(), 2);
    assert_eq!(header.sections[0].offset, 0x4000);
    assert_eq!(header.sections[1].offset, 0x8000);
    assert_eq!(header.sections[0].size, 0x100);
    assert_eq!(header.sections[1].size, 0x101);
    assert_eq!(header.sections[0].crypto_type, 3);
    assert_eq!(header.sections[1].crypto_type, 4);
    assert_eq!(header.sections[1].crypto_key, [0x11; 16]);
    assert_eq!(header.sections[1].crypto_counter, [0x21; 16]);
    assert_eq!(header.blocks_offset, 0x10 + 2 * 0x38);
    assert_eq!(r.position(), header.blocks_offset);
    let blocks = read_compressed_blocks(&mut r, &header).unwrap();
    assert_eq!(blocks, vec![b"first".to_vec(), b"second block".to_vec(), b"3".to_vec()]);
}

#[test]
fn ncz_block_enumeration_ends() {
    // No blocks at all.
    let mut r = Stream::new(ncz_image(&[]));
    let header = NczHeader::parse(&mut r).unwrap();
    assert!(read_compressed_blocks(&mut r, &header).unwrap().is_empty());
    // A zero length ends the list; what follows is not read.
    let mut image = ncz_image(&[b"one"]);
    image.extend_from_slice(&0u32.to_le_bytes());
    image.extend_from_slice(&3u32.to_le_bytes());
    image.extend_from_slice(b"two");
    let mut r = Stream::new(image);
    let header = NczHeader::parse(&mut r).unwrap();
    assert_eq!(read_compressed_blocks(&mut r, &header).unwrap(), vec![b"one".to_vec()]);
    // Fewer than four bytes at the end are the end.
    let mut image = ncz_image(&[b"one"]);
    image.extend_from_slice(&[7, 0, 0]);
    let mut r = Stream::new(image);
    let header = NczHeader::parse(&mut r).unwrap();
    assert_eq!(read_compressed_blocks(&mut r, &header).unwrap(), vec![b"one".to_vec()]);
    // A block that is cut short is an error.
    let mut image = ncz_image(&[b"one", b"second"]);
    image.truncate(image.len() - 1);
    let mut r = Stream::new(image);
    let header = NczHeader::parse(&mut r).unwrap();
    assert!(matches!(read_compressed_blocks(&mut r, &header), Err(Error::UnexpectedEof)));
    // The enumeration starts at the header's offset, wherever the stream is.
    let mut r = Stream::new(ncz_image(&[b"x"]));
    let header = NczHeader::parse(&mut r).unwrap();
    r.seek(3);
    assert_eq!(read_compressed_blocks(&mut r, &header).unwrap(), vec![b"x".to_vec()]);
}

#[test]
fn ncz_errors() {
    assert!(matches!(
        NczHeader::parse(&mut Stream::new(b"NCZSECT".to_vec())),
        Err(Error::UnexpectedEof)
    ));
    assert!(matches!(
        NczHeader::parse(&mut Stream::new(b"NCZSECTX\0\0\0\0\0\0\0\0".to_vec())),
        Err(Error::BadMagic)
    ));
    assert!(matches!(
        NczHeader::parse(&mut Stream::new(b"NCZSECTN\0\0".to_vec())),
        Err(Error::UnexpectedEof)
    ));
    let mut image = ncz_image(&[]);
    image.truncate(0x10 + 0x38 + 0x37);
    assert!(matches!(NczHeader::parse(&mut Stream::new(image)), Err(Error::UnexpectedEof)));
    // A huge count in a short file is the end of the file, nothing worse.
    let mut image = ncz_image(&[]);
    image[8..16].copy_from_slice(&u64::MAX.to_le_bytes());
    assert!(matches!(NczHeader::parse(&mut Stream::new(image)), Err(Error::UnexpectedEof)));
}

#[test]
fn bntx_textures() {
    let bntx = Bntx::parse(&mut Stream::new(bntx_image())).unwrap();
    assert!(bntx.le);
    assert_eq!(bntx.texture_count, 2);
    assert_eq!(bntx.data_block_offset, 0x1000);
    assert_eq!(bntx.textures.len(), 2);
    let a = &bntx.textures[0];
    assert_eq!(a.name, "tex_a");
    assert_eq!((a.width, a.height, a.depth, a.array_count), (256, 128, 1, 6));
    assert_eq!(a.mipmap_count, 5);
    assert_eq!(a.format, 0x0B01);
    assert_eq!(a.data_offset_rel, 0x1230);
    assert_eq!(a.data_length, 0x4000);
    assert_eq!(bntx.textures[1].name, "b");
    assert_eq!(bntx.textures[1].width, 64);
    assert_eq!(bntx.texture_data_offset(a), 0x2230);
    // The stream ends up just past the name of the last texture.
    let mut r = Stream::new(bntx_image());
    Bntx::parse(&mut r).unwrap();
    assert_eq!(r.position(), 0x187 + 2 + 1);
}

#[test]
fn bntx_big_endian_mark_and_empty_file() {
    let mut image = bntx_image();
    image[0x10..0x12].copy_from_slice(&0xFEFFu16.to_le_bytes());
    assert!(!Bntx::parse(&mut Stream::new(image)).unwrap().le);
    // No textures: the pointer table is never read, wherever it is said to be.
    let mut image = bntx_image();
    image[0x24..0x28].copy_from_slice(&0u32.to_le_bytes());
    image[0x28..0x30].copy_from_slice(&u64::MAX.to_le_bytes());
    let mut r = Stream::new(image);
    let bntx = Bntx::parse(&mut r).unwrap();
    assert_eq!(bntx.texture_count, 0);
    assert!(bntx.textures.is_empty());
    assert_eq!(r.position(), u64::MAX);
}

#[test]
fn bntx_errors() {
    let parse = |image: Vec<u8>| Bntx::parse(&mut Stream::new(image));
    assert!(matches!(parse(b"BNT".to_vec()), Err(Error::UnexpectedEof)));
    assert!(matches!(parse(vec![0; 0x48]), Err(Error::BadMagic)));
    let mut image = bntx_image();
    image[0x10] = 0;
    assert!(matches!(parse(image), Err(Error::Parse("invalid BNTX BOM"))));
    let mut image = bntx_image();
    image[0x23] = b'!';
    assert!(matches!(parse(image), Err(Error::BadMagic)));
    let mut image = bntx_image();
    image.truncate(0x40);
    assert!(matches!(parse(image), Err(Error::UnexpectedEof)));
    // The pointer table lies beyond the end.
    let mut image = bntx_image();
    image[0x28..0x30].copy_from_slice(&0x1000u64.to_le_bytes());
    assert!(matches!(parse(image), Err(Error::UnexpectedEof)));
    // A pointer that does not lead to a BRTI block.
    let mut image = bntx_image();
    image[0x50..0x58].copy_from_slice(&0x61u64.to_le_bytes());
    assert!(matches!(parse(image), Err(Error::BadMagic)));
    // A name that runs past the end.
    let mut image = bntx_image();
    image[0x187..0x189].copy_from_slice(&2u16.to_le_bytes());
    assert!(matches!(parse(image), Err(Error::UnexpectedEof)));
    // A name pointer beyond the end.
    let mut image = bntx_image();
    image[0x60 + 0x50..0x60 + 0x58].copy_from_slice(&0x10_0000u64.to_le_bytes());
    assert!(matches!(parse(image), Err(Error::UnexpectedEof)));
}

#[test]
fn bntx_names_are_decoded_lossily() {
    let mut image = bntx_image();
    image[0x182] = 0xFF;
    let bntx = Bntx::parse(&mut Stream::new(image)).unwrap();
    assert_eq!(bntx.textures[0].name, "\u{FFFD}ex_a");
    let t = TextureInfo {
        name: String::new(),
        width: 0,
        height: 0,
        depth: 0,
        array_count: 0,
        mipmap_count: 0,
        format: 0,
        data_offset_rel: u32::MAX,
        data_length: 0,
    };
    assert_eq!(bntx.texture_data_offset(&t), 0x1000 + u32::MAX as u64);
}

#[test]
fn bfttf_detection() {
    let mut font = vec![0x00, 0x01, 0x00, 0x00, 0x00, 0x0C, 0x00, 0x80];
    font.extend((0..40).map(|i| i as u8));
    let stored = xor_with_key(&font, FontPlatform::Switch.xor_key());
    assert_ne!(stored, font);
    let parsed = Bfttf::parse(&mut Stream::new(stored.clone())).unwrap();
    assert_eq!(parsed.platform, FontPlatform::Switch);
    assert_eq!(parsed.data, stored);
    assert_eq!(parsed.decrypt(), font);
    // XORing again with the same key gives the original back.
    assert_eq!(xor_with_key(&stored, FontPlatform::Switch.xor_key()), font);
    assert_eq!(decrypt(&stored, FontPlatform::Switch), font);
    assert_eq!(encrypt(&font, FontPlatform::Switch), stored);
}

#[test]
fn bfttf_every_platform_and_magic() {
    for platform in [FontPlatform::WiiU, FontPlatform::Switch, FontPlatform::Windows] {
        for magic in [&b"\x00\x01\x00\x00\x00"[..], &b"OTTO\x00"[..], &b"ttcf\x00"[..]] {
            let mut font = magic.to_vec();
            font.extend_from_slice(b"the rest of the font file, longer than one key");
            let stored = encrypt(&font, platform);
            let parsed = Bfttf::parse(&mut Stream::new(stored.clone())).unwrap();
            assert_eq!(parsed.platform, platform);
            assert_eq!(parsed.decrypt(), font);
            assert!(is_valid_font_after_xor(&stored, platform.xor_key()));
            assert_eq!(encrypt(&decrypt(&stored, platform), platform), stored);
        }
    }
}

#[test]
fn bfttf_keys() {
    assert_eq!(FontPlatform::WiiU.xor_key()[0], 0x2A);
    assert_eq!(FontPlatform::WiiU.xor_key()[15], 0xAB);
    assert_eq!(
        FontPlatform::Switch.xor_key(),
        &[
            0x15, 0x9A, 0x7D, 0x6F, 0x16, 0x6F, 0xD0, 0x0C, 0x67, 0xE7, 0x39, 0x98, 0x0B, 0xEB,
            0xF6, 0x62
        ]
    );
    assert_eq!(FontPlatform::Windows.xor_key()[0], 0x97);
    assert_eq!(FontPlatform::Windows.xor_key()[15], 0x51);
    // The key repeats every 16 bytes.
    let zeros = [0u8; 40];
    let out = xor_with_key(&zeros, FontPlatform::Windows.xor_key());
    assert_eq!(&out[..16], &FontPlatform::Windows.xor_key()[..]);
    assert_eq!(&out[16..32], &FontPlatform::Windows.xor_key()[..]);
    assert_eq!(&out[32..], &FontPlatform::Windows.xor_key()[..8]);
    assert!(xor_with_key(&[], FontPlatform::WiiU.xor_key()).is_empty());
}

#[test]
fn bfttf_errors() {
    assert!(matches!(Bfttf::parse(&mut Stream::new(vec![])), Err(Error::BadMagic)));
    assert!(matches!(Bfttf::parse(&mut Stream::new(vec![0; 64])), Err(Error::BadMagic)));
    // Four bytes are too few, even if they decrypt to a magic.
    let stored = encrypt(b"OTTO", FontPlatform::Switch);
    assert!(matches!(Bfttf::parse(&mut Stream::new(stored)), Err(Error::BadMagic)));
    assert!(!is_valid_font_after_xor(b"OTTO", &[0; 16]));
    assert!(is_valid_font_after_xor(b"OTTO!", &[0; 16]));
    // The file is read from the current position to the end.
    let mut image = vec![0xAB; 3];
    image.extend(encrypt(b"ttcf and more", FontPlatform::WiiU));
    let mut r = Stream::new(image);
    r.seek(3);
    let parsed = Bfttf::parse(&mut r).unwrap();
    assert_eq!(parsed.platform, FontPlatform::WiiU);
    assert_eq!(parsed.decrypt(), b"ttcf and more");
    assert_eq!(r.position(), 16);
}
