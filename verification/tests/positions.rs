use hakkit::error::Error;
use hakkit::formats::bntx::{parse_brti, read_bntx_name, Bntx};
use hakkit::formats::hfs0::Hfs0;
use hakkit::formats::nca::Nca;
use hakkit::formats::ncz::{read_compressed_blocks, NczHeader};
use hakkit::formats::npdm::{Aci0, Acid, Npdm};
use hakkit::formats::pfs0::Pfs0;
use hakkit::formats::sarc::Sarc;
use hakkit::formats::xci::Xci;
use hakkit::stream::Stream;
use hakkit::utils::read_null_string;

/// Bytes that begin like every format in turn but are none of them.
fn junk() -> Vec<u8> {
    let mut v = Vec::new();
    // ACI0 comes last: the block would parse if enough bytes followed it.
    for magic in [&b"PFS0"[..], b"HFS0", b"SARC", b"BNTX", b"META", b"NCZSECTN", b"BRTI", b"ACI0"] {
        v.extend_from_slice(magic);
        v.extend_from_slice(&[0xFF; 5]);
    }
    v
}

#[test]
fn failed_parses_leave_the_stream_in_place() {
    let image = junk();
    for start in 0..image.len() as u64 + 3 {
        let mut r = Stream::new(image.clone());
        r.seek(start);
        assert!(Pfs0::parse(&mut r).is_err());
        assert_eq!(r.position(), start);
        assert!(Hfs0::parse(&mut r).is_err());
        assert_eq!(r.position(), start);
        assert!(Sarc::parse(&mut r).is_err());
        assert_eq!(r.position(), start);
        assert!(Bntx::parse(&mut r).is_err());
        assert_eq!(r.position(), start);
        assert!(parse_brti(&mut r).is_err());
        assert_eq!(r.position(), start);
        assert!(Npdm::parse(&mut r).is_err());
        assert_eq!(r.position(), start);
        assert!(Aci0::parse(&mut r).is_err());
        assert_eq!(r.position(), start);
        assert!(Acid::parse(&mut r).is_err());
        assert_eq!(r.position(), start);
        assert!(NczHeader::parse(&mut r).is_err());
        assert_eq!(r.position(), start);
        assert!(Nca::parse(&mut r).is_err());
        assert_eq!(r.position(), start);
        assert!(Xci::parse(&mut r).is_err());
        assert_eq!(r.position(), start);
        assert_eq!(r.into_inner(), image);
    }
}

#[test]
fn failed_string_reads_leave_the_stream_in_place() {
    let mut r = Stream::new(b"abc\0def".to_vec());
    r.seek(4);
    assert!(matches!(read_null_string(&mut r), Err(Error::UnexpectedEof)));
    assert_eq!(r.position(), 4);
    r.seek(1);
    assert_eq!(read_null_string(&mut r).unwrap(), "bc");
    assert_eq!(r.position(), 4);
    // A name whose length field runs past the end.
    let mut r = Stream::new(vec![9, 9, 5, 0, b'a', b'b']);
    assert!(matches!(read_bntx_name(&mut r, 2), Err(Error::UnexpectedEof)));
    assert_eq!(r.position(), 0);
    assert!(matches!(read_bntx_name(&mut r, 5), Err(Error::UnexpectedEof)));
    assert_eq!(r.position(), 0);
    // A name that fits.
    let mut r = Stream::new(vec![9, 9, 2, 0, b'a', b'b', 7]);
    assert_eq!(read_bntx_name(&mut r, 2).unwrap(), "ab");
    assert_eq!(r.position(), 6);
    let mut r = Stream::new(vec![0, 0]);
    assert_eq!(read_bntx_name(&mut r, 0).unwrap(), "");
    assert_eq!(r.position(), 2);
}

#[test]
fn block_enumeration_stops_where_it_says() {
    let mut image = Vec::new();
    image.extend_from_slice(b"NCZSECTN");
    image.extend_from_slice(&0u64.to_le_bytes());
    image.extend_from_slice(&2u32.to_le_bytes());
    image.extend_from_slice(b"ab");
    // Two stray bytes: fewer than a length field.
    image.extend_from_slice(&[1, 2]);
    let mut r = Stream::new(image.clone());
    let header = NczHeader::parse(&mut r).unwrap();
    assert_eq!(header.blocks_offset, 16);
    assert_eq!(read_compressed_blocks(&mut r, &header).unwrap(), vec![b"ab".to_vec()]);
    assert_eq!(r.position(), 22);
    // A zero length is consumed.
    image.truncate(22);
    image.extend_from_slice(&0u32.to_le_bytes());
    image.extend_from_slice(b"more");
    let mut r = Stream::new(image.clone());
    assert_eq!(read_compressed_blocks(&mut r, &header).unwrap(), vec![b"ab".to_vec()]);
    assert_eq!(r.position(), 26);
    // A block cut short is an error, and the stream does not move.
    image.truncate(22);
    image.extend_from_slice(&9u32.to_le_bytes());
    image.extend_from_slice(b"short");
    let mut r = Stream::new(image);
    r.seek(3);
    assert!(matches!(read_compressed_blocks(&mut r, &header), Err(Error::UnexpectedEof)));
    assert_eq!(r.position(), 3);
}
