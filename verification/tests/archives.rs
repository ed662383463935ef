use hakkit::error::Error;
use hakkit::formats::hfs0::{Hfs0, Hfs0Reader};
use hakkit::formats::pfs0::{Pfs0, Pfs0File, Pfs0Reader};
use hakkit::formats::sarc::{sarc_hash, Sarc, SarcFile, SarcReader};
use hakkit::formats::xci::Xci;
use hakkit::stream::Stream;

fn pfs0_image() -> Vec<u8> {
    let mut v = Vec::new();
    v.extend_from_slice(b"PFS0");
    v.extend_from_slice(&2u32.to_le_bytes());
    v.extend_from_slice(&8u32.to_le_bytes());
    v.extend_from_slice(&0u32.to_le_bytes());
    for (off, size, name_off) in [(0u64, 4u64, 0u32), (4, 6, 4)] {
        v.extend_from_slice(&off.to_le_bytes());
        v.extend_from_slice(&size.to_le_bytes());
        v.extend_from_slice(&name_off.to_le_bytes());
        v.extend_from_slice(&0u32.to_le_bytes());
    }
    v.extend_from_slice(b"a\0\0\0b\0\0\0");
    v.extend_from_slice(b"AAAABBBBBB");
    v.resize(0x70, 0);
    v
}

fn hfs0_image(names: &[&str], payloads: &[&[u8]]) -> Vec<u8> {
    let mut table = Vec::new();
    let mut name_offsets = Vec::new();
    for n in names {
        name_offsets.push(table.len() as u32);
        table.extend_from_slice(n.as_bytes());
        table.push(0);
    }
    let mut v = Vec::new();
    v.extend_from_slice(b"HFS0");
    v.extend_from_slice(&(names.len() as u32).to_le_bytes());
    v.extend_from_slice(&(table.len() as u32).to_le_bytes());
    v.extend_from_slice(&0u32.to_le_bytes());
    let mut off = 0u64;
    for (i, p) in payloads.iter().enumerate() {
        v.extend_from_slice(&off.to_le_bytes());
        v.extend_from_slice(&(p.len() as u64).to_le_bytes());
        v.extend_from_slice(&name_offsets[i].to_le_bytes());
        v.extend_from_slice(&(0x200u32 + i as u32).to_le_bytes());
        v.extend_from_slice(&[0u8; 8]);
        v.extend_from_slice(&[0x10 + i as u8; 32]);
        off += p.len() as u64;
    }
    v.extend_from_slice(&table);
    for p in payloads {
        v.extend_from_slice(p);
    }
    v
}

fn xci_image() -> Vec<u8> {
    let mut v = vec![0u8; 0x10000];
    v[0x1100..0x1104].copy_from_slice(b"HEAD");
    v[0x110D] = 0xE1;
    v[0x1110..0x1118].copy_from_slice(&0x1122334455667788u64.to_le_bytes());
    v[0x1130..0x1138].copy_from_slice(&0x10000u64.to_le_bytes());
    v[0x1138..0x1140].copy_from_slice(&0x200u64.to_le_bytes());
    for i in 0..32 {
        v[0x1140 + i] = i as u8;
    }
    v.extend(hfs0_image(&["secure"], &[b"payload"]));
    v
}

fn put_u16(v: &mut Vec<u8>, x: u16, le: bool) {
    if le {
        v.extend_from_slice(&x.to_le_bytes());
    } else {
        v.extend_from_slice(&x.to_be_bytes());
    }
}

fn put_u32(v: &mut Vec<u8>, x: u32, le: bool) {
    if le {
        v.extend_from_slice(&x.to_le_bytes());
    } else {
        v.extend_from_slice(&x.to_be_bytes());
    }
}

/// A SARC with the files `a.txt` ("hello"), a nameless file ("XY") and
/// `dir/b.bin` ("world!!").
fn sarc_image(le: bool) -> Vec<u8> {
    let names: [Option<&str>; 3] = [Some("a.txt"), None, Some("dir/b.bin")];
    let payloads: [&[u8]; 3] = [b"hello", b"XY", b"world!!"];
    let mut name_table = Vec::new();
    let mut attrs = Vec::new();
    for n in names {
        match n {
            None => attrs.push(0u32),
            Some(n) => {
                attrs.push(0x0100_0000 | (name_table.len() as u32 / 4));
                name_table.extend_from_slice(n.as_bytes());
                name_table.push(0);
                while name_table.len() % 4 != 0 {
                    name_table.push(0);
                }
            }
        }
    }
    let data_offset = 0x14 + 0x0C + 0x10 * 3 + 8 + name_table.len() as u32;
    let mut v = Vec::new();
    v.extend_from_slice(b"SARC");
    v.extend_from_slice(&0x14u16.to_le_bytes());
    // The mark is stored little-endian: 0xFFFE announces a little-endian archive.
    v.extend_from_slice(&(if le { 0xFFFEu16 } else { 0xFEFF }).to_le_bytes());
    put_u32(&mut v, data_offset + 14, le);
    put_u32(&mut v, data_offset, le);
    v.extend_from_slice(&0x0100u16.to_le_bytes());
    v.extend_from_slice(&0u16.to_le_bytes());
    v.extend_from_slice(b"SFAT");
    v.extend_from_slice(&0x0Cu16.to_le_bytes());
    put_u16(&mut v, 3, le);
    put_u32(&mut v, 101, le);
    let mut start = 0u32;
    for i in 0..3 {
        let hash = match names[i] {
            Some(n) => sarc_hash(n.as_bytes(), 101),
            None => 0x1234_5678,
        };
        put_u32(&mut v, hash, le);
        put_u32(&mut v, attrs[i], le);
        put_u32(&mut v, start, le);
        put_u32(&mut v, start + payloads[i].len() as u32, le);
        start += payloads[i].len() as u32;
    }
    v.extend_from_slice(b"SFNT");
    v.extend_from_slice(&8u16.to_le_bytes());
    v.extend_from_slice(&0u16.to_le_bytes());
    v.extend_from_slice(&name_table);
    assert_eq!(v.len() as u32, data_offset);
    for p in payloads {
        v.extend_from_slice(p);
    }
    v
}

fn sarc_summary(s: &Sarc) -> Vec<(Option<String>, u32, u32, u32)> {
    s.files.iter().map(|f| (f.name.clone(), f.hash, f.data_start, f.data_end)).collect()
}

#[test]
fn pfs0_listing() {
    let image = pfs0_image();
    assert_eq!(image.len(), 0x70);
    let mut reader = Pfs0Reader::new(Stream::new(image)).unwrap();
    let files: Vec<(String, u64, u64)> =
        reader.files().iter().map(|f| (f.name.clone(), f.offset, f.size)).collect();
    assert_eq!(files, vec![("a".to_string(), 0, 4), ("b".to_string(), 4, 6)]);
    assert_eq!(reader.pfs0.data_offset, 0x48);
    let second = reader.pfs0.files[1].clone();
    assert_eq!(reader.read_file(&second).unwrap(), b"BBBBBB");
    let first = reader.pfs0.files[0].clone();
    assert_eq!(reader.read_file(&first).unwrap(), b"AAAA");
    assert_eq!(reader.get_file_by_name("b").unwrap().size, 6);
    assert!(reader.get_file_by_name("c").is_none());
    assert_eq!(reader.index("a").offset, 0);
    assert_eq!(reader.into_inner().len(), 0x70);
}

#[test]
fn pfs0_on_a_sub_stream() {
    let mut image = vec![0xEE; 0x25];
    image.extend(pfs0_image());
    let mut r = Stream::new(image);
    r.seek(0x25);
    let pfs0 = Pfs0::parse(&mut r).unwrap();
    assert_eq!(pfs0.data_offset, 0x25 + 0x48);
    assert_eq!(r.position(), 0x25 + 0x48);
    assert_eq!(pfs0.files.len(), 2);
    assert_eq!(pfs0.get_file_by_name("a").unwrap().size, 4);
}

#[test]
fn pfs0_empty_archive() {
    let mut v = Vec::new();
    v.extend_from_slice(b"PFS0");
    v.extend_from_slice(&[0u8; 12]);
    let pfs0 = Pfs0::parse(&mut Stream::new(v)).unwrap();
    assert!(pfs0.files.is_empty());
    assert_eq!(pfs0.data_offset, 0x10);
}

#[test]
fn pfs0_errors() {
    assert!(matches!(Pfs0::parse(&mut Stream::new(vec![])), Err(Error::UnexpectedEof)));
    assert!(matches!(
        Pfs0::parse(&mut Stream::new(b"PFS".to_vec())),
        Err(Error::UnexpectedEof)
    ));
    assert!(matches!(
        Pfs0::parse(&mut Stream::new(b"PFS1\0\0\0\0".to_vec())),
        Err(Error::BadMagic)
    ));
    assert!(matches!(
        Pfs0::parse(&mut Stream::new(b"HFS0\0\0\0\0\0\0\0\0\0\0\0\0".to_vec())),
        Err(Error::BadMagic)
    ));
    // The header stops short.
    assert!(matches!(
        Pfs0::parse(&mut Stream::new(b"PFS0\x01\0\0\0".to_vec())),
        Err(Error::UnexpectedEof)
    ));
    // The entry table stops short.
    let mut image = pfs0_image();
    image.truncate(0x30);
    assert!(matches!(Pfs0::parse(&mut Stream::new(image)), Err(Error::UnexpectedEof)));
    // The string table stops short.
    let mut image = pfs0_image();
    image.truncate(0x44);
    assert!(matches!(Pfs0::parse(&mut Stream::new(image)), Err(Error::UnexpectedEof)));
    // A huge count in a short file is the end of the file, nothing worse.
    let mut image = pfs0_image();
    image[4..8].copy_from_slice(&u32::MAX.to_le_bytes());
    assert!(matches!(Pfs0::parse(&mut Stream::new(image)), Err(Error::UnexpectedEof)));
    // A name offset beyond the string table.
    let mut image = pfs0_image();
    image[0x20..0x24].copy_from_slice(&9u32.to_le_bytes());
    assert!(matches!(Pfs0::parse(&mut Stream::new(image)), Err(Error::InvalidRange)));
    // A name offset at the end of the table finds no terminator.
    let mut image = pfs0_image();
    image[0x20..0x24].copy_from_slice(&8u32.to_le_bytes());
    assert!(matches!(Pfs0::parse(&mut Stream::new(image)), Err(Error::UnterminatedName)));
    // A string table without any terminator.
    let mut image = pfs0_image();
    image[0x40..0x48].copy_from_slice(b"abcdefgh");
    assert_eq!(image[0x44], b'e');
    assert!(matches!(Pfs0::parse(&mut Stream::new(image)), Err(Error::UnterminatedName)));
}

#[test]
fn pfs0_payload_views_are_bounded() {
    let mut reader = Pfs0Reader::new(Stream::new(pfs0_image())).unwrap();
    // A file that claims more than the stream holds gets what there is.
    let long = Pfs0File { name: "x".to_string(), offset: 4, size: 1000 };
    assert_eq!(reader.read_file(&long).unwrap().len(), 0x70 - 0x48 - 4);
    // A file beyond the end of the stream is empty.
    let far = Pfs0File { name: "y".to_string(), offset: 0x1000, size: 4 };
    assert!(reader.read_file(&far).unwrap().is_empty());
    // An offset that does not fit in 64 bits is rejected.
    let wrap = Pfs0File { name: "z".to_string(), offset: u64::MAX, size: 4 };
    assert!(matches!(reader.read_file(&wrap), Err(Error::InvalidRange)));
    let empty = Pfs0File { name: "e".to_string(), offset: 0, size: 0 };
    assert!(reader.read_file(&empty).unwrap().is_empty());
}

#[test]
fn hfs0_listing() {
    let image = hfs0_image(&["normal", "secure"], &[b"12345", b"abc"]);
    let mut reader = Hfs0Reader::new(Stream::new(image)).unwrap();
    assert_eq!(reader.files().len(), 2);
    let f = reader.get_file_by_name("secure").unwrap().clone();
    assert_eq!(f.offset, 5);
    assert_eq!(f.size, 3);
    assert_eq!(f.hashed_region_size, 0x201);
    assert_eq!(f.sha256, [0x11; 32]);
    assert_eq!(reader.hfs0.files[0].sha256, [0x10; 32]);
    assert_eq!(reader.hfs0.files[0].hashed_region_size, 0x200);
    assert_eq!(reader.hfs0.data_offset, 0x10 + 2 * 0x40 + 14);
    assert_eq!(reader.read_file(&f).unwrap(), b"abc");
    assert_eq!(reader.index("normal").size, 5);
    assert!(reader.get_file_by_name("update").is_none());
}

#[test]
fn hfs0_errors() {
    assert!(matches!(Hfs0::parse(&mut Stream::new(b"HFS".to_vec())), Err(Error::UnexpectedEof)));
    assert!(matches!(
        Hfs0::parse(&mut Stream::new(pfs0_image())),
        Err(Error::BadMagic)
    ));
    let mut image = hfs0_image(&["a"], &[b"x"]);
    image.truncate(0x30);
    assert!(matches!(Hfs0::parse(&mut Stream::new(image)), Err(Error::UnexpectedEof)));
    let mut image = hfs0_image(&["a"], &[b"x"]);
    image[0x20..0x24].copy_from_slice(&3u32.to_le_bytes());
    assert!(matches!(Hfs0::parse(&mut Stream::new(image)), Err(Error::InvalidRange)));
    let mut image = hfs0_image(&["a"], &[b"x"]);
    image[0x51] = b'b';
    assert!(matches!(Hfs0::parse(&mut Stream::new(image)), Err(Error::UnterminatedName)));
}

#[test]
fn xci_chain() {
    let mut r = Stream::new(xci_image());
    // The card header is found wherever the stream stands.
    r.seek(7);
    let xci = Xci::parse(&mut r).unwrap();
    assert_eq!(xci.rom_size, 0xE1);
    assert_eq!(xci.rom_capacity(), "16 GB");
    assert_eq!(xci.hfs0_offset, 0x10000);
    assert_eq!(xci.hfs0_size, 0x200);
    assert_eq!(xci.package_id, 0x1122334455667788);
    assert_eq!(xci.hfs0_header_hash[31], 31);
    assert_eq!(xci.root_partition.files.len(), 1);
    assert_eq!(xci.root_partition.files[0].name, "secure");
    assert_eq!(xci.root_partition.data_offset, 0x10000 + 0x10 + 0x40 + 7);
    assert_eq!(r.position(), xci.root_partition.data_offset);
}

#[test]
fn xci_rom_capacities() {
    let mut image = xci_image();
    for (code, label) in [
        (0xFAu8, "1 GB"),
        (0xF8, "2 GB"),
        (0xF0, "4 GB"),
        (0xE0, "8 GB"),
        (0xE1, "16 GB"),
        (0xE2, "32 GB"),
        (0x00, "unknown"),
        (0xFF, "unknown"),
    ] {
        image[0x110D] = code;
        let xci = Xci::parse(&mut Stream::new(image.clone())).unwrap();
        assert_eq!(xci.rom_capacity(), label);
    }
}

#[test]
fn xci_errors() {
    assert!(matches!(Xci::parse(&mut Stream::new(vec![0; 0x1100])), Err(Error::UnexpectedEof)));
    assert!(matches!(Xci::parse(&mut Stream::new(vec![0; 0x1200])), Err(Error::BadMagic)));
    let mut image = xci_image();
    image.truncate(0x1150);
    assert!(matches!(Xci::parse(&mut Stream::new(image)), Err(Error::UnexpectedEof)));
    // The root partition is not where the header says.
    let mut image = xci_image();
    image[0x1130..0x1138].copy_from_slice(&0x8000u64.to_le_bytes());
    assert!(matches!(Xci::parse(&mut Stream::new(image)), Err(Error::BadMagic)));
    let mut image = xci_image();
    image[0x1130..0x1138].copy_from_slice(&u64::MAX.to_le_bytes());
    assert!(matches!(Xci::parse(&mut Stream::new(image)), Err(Error::UnexpectedEof)));
}

#[test]
fn sarc_hash_values() {
    assert_eq!(sarc_hash(b"", 101), 0);
    assert_eq!(sarc_hash(b"a", 101), 97);
    assert_eq!(sarc_hash(b"\xff", 101), 0xFFFF_FFFF);
    assert_eq!(sarc_hash(b"ab", 101), 97 * 101 + 98);
    assert_eq!(sarc_hash(b"a\x80", 101), (97u32 * 101).wrapping_add(0xFFFF_FF80));
    assert_eq!(sarc_hash(b"abc", 0), 99);
    // The accumulator wraps modulo 2^32.
    let mut h: u32 = 0;
    for b in b"a/long/path/to/some/file.bin" {
        h = h.wrapping_mul(101).wrapping_add(*b as u32);
    }
    assert_eq!(sarc_hash(b"a/long/path/to/some/file.bin", 101), h);
}

#[test]
fn sarc_listing() {
    let image = sarc_image(true);
    let mut reader = SarcReader::new(Stream::new(image)).unwrap();
    assert!(reader.sarc.le);
    assert_eq!(reader.sarc.version, 0x0100);
    assert_eq!(reader.sarc.hash_multiplier, 101);
    assert_eq!(reader.files().len(), 3);
    assert_eq!(reader.sarc.files[0].name.as_deref(), Some("a.txt"));
    assert_eq!(reader.sarc.files[1].name, None);
    assert_eq!(reader.sarc.files[2].name.as_deref(), Some("dir/b.bin"));
    assert_eq!(reader.sarc.files[2].hash, sarc_hash(b"dir/b.bin", 101));
    assert_eq!(reader.sarc.hash_filename("a.txt"), sarc_hash(b"a.txt", 101));
    assert_eq!(reader.sarc.files[2].size(), 7);
    let f = reader.get_file_by_name("dir/b.bin").unwrap().clone();
    assert_eq!(reader.read_file(&f).unwrap(), b"world!!");
    let nameless = reader.sarc.files[1].clone();
    assert_eq!(reader.read_file(&nameless).unwrap(), b"XY");
    assert_eq!(reader.index("a.txt").data_end, 5);
    assert!(reader.get_file_by_name("missing").is_none());
}

#[test]
fn sarc_endianness() {
    let le = Sarc::parse(&mut Stream::new(sarc_image(true))).unwrap();
    let be = Sarc::parse(&mut Stream::new(sarc_image(false))).unwrap();
    assert!(le.le);
    assert!(!be.le);
    assert_eq!(sarc_summary(&le), sarc_summary(&be));
    assert_eq!(le.data_offset, be.data_offset);
    assert_eq!(le.hash_multiplier, be.hash_multiplier);
    assert_eq!(le.version, be.version);
    assert_eq!(sarc_summary(&le)[0].1, sarc_hash(b"a.txt", 101));
}

#[test]
fn sarc_lookup_needs_hash_and_name() {
    let mut sarc = Sarc::parse(&mut Stream::new(sarc_image(true))).unwrap();
    assert!(sarc.get_file_by_name("a.txt").is_some());
    // An entry whose stored hash does not belong to its name is not found.
    sarc.files[0].hash ^= 1;
    assert!(sarc.get_file_by_name("a.txt").is_none());
    let odd = SarcFile { name: None, hash: 0, data_start: 9, data_end: 3 };
    assert_eq!(odd.size(), 0);
}

#[test]
fn sarc_on_a_sub_stream() {
    let mut image = vec![0x55; 0x40];
    image.extend(sarc_image(false));
    let mut r = Stream::new(image);
    r.seek(0x40);
    let sarc = Sarc::parse(&mut r).unwrap();
    assert_eq!(sarc.files.len(), 3);
    assert_eq!(r.position(), 0x40 + 0x14 + 0x0C + 0x30 + 8);
    let mut reader = SarcReader { inner: r, sarc };
    let f = reader.sarc.files[0].clone();
    assert_eq!(reader.read_file(&f).unwrap(), b"hello");
}

#[test]
fn sarc_errors() {
    let parse = |image: Vec<u8>| Sarc::parse(&mut Stream::new(image));
    assert!(matches!(parse(b"SAR".to_vec()), Err(Error::UnexpectedEof)));
    assert!(matches!(parse(b"SARX\x14\0".to_vec()), Err(Error::BadMagic)));
    let mut image = sarc_image(true);
    image[4] = 0x15;
    assert!(matches!(parse(image), Err(Error::Parse("unexpected SARC header size"))));
    let mut image = sarc_image(true);
    image[6] = 0x00;
    assert!(matches!(parse(image), Err(Error::Parse("invalid SARC BOM"))));
    let mut image = sarc_image(true);
    image[0x14] = b'X';
    assert!(matches!(parse(image), Err(Error::BadMagic)));
    let mut image = sarc_image(true);
    image[0x18] = 0x0D;
    assert!(matches!(parse(image), Err(Error::Parse("unexpected SFAT header size"))));
    let mut image = sarc_image(true);
    image[0x1A..0x1C].copy_from_slice(&0x4000u16.to_le_bytes());
    assert!(matches!(parse(image), Err(Error::Parse("SARC file count exceeds maximum"))));
    let mut image = sarc_image(true);
    image[0x1A..0x1C].copy_from_slice(&0x3FFFu16.to_le_bytes());
    assert!(matches!(parse(image), Err(Error::UnexpectedEof)));
    let mut image = sarc_image(true);
    image[0x50] = b'X';
    assert!(matches!(parse(image), Err(Error::BadMagic)));
    let mut image = sarc_image(true);
    image[0x54] = 9;
    assert!(matches!(parse(image), Err(Error::Parse("unexpected SFNT header size"))));
    let mut image = sarc_image(true);
    image.truncate(0x52);
    assert!(matches!(parse(image), Err(Error::UnexpectedEof)));
    // A name that lies beyond the end of the stream.
    let mut image = sarc_image(true);
    image[0x24..0x28].copy_from_slice(&0x01FF_FFFFu32.to_le_bytes());
    assert!(matches!(parse(image), Err(Error::UnexpectedEof)));
}
