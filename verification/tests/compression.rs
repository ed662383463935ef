use hakkit::compression::lz4::{decompress_lz4, lz4_outcome};
use hakkit::compression::zstd::{
    decompress_zstd, decompress_zstd_with_size, zstd_outcome, zstd_stream_outcome,
};
use hakkit::error::Error;

fn sample() -> Vec<u8> {
    let mut v = Vec::new();
    for i in 0..2000u32 {
        v.extend_from_slice(b"switch ");
        v.push((i % 7) as u8);
    }
    v
}

#[test]
fn lz4_round_trip() {
    let data = sample();
    let packed = lz4_flex::compress_prepend_size(&data);
    assert!(packed.len() < data.len());
    assert_eq!(decompress_lz4(&packed).unwrap(), data);
    let empty = lz4_flex::compress_prepend_size(b"");
    assert_eq!(decompress_lz4(&empty).unwrap(), Vec::<u8>::new());
}

#[test]
fn lz4_failures() {
    assert!(matches!(decompress_lz4(b""), Err(Error::Lz4)));
    assert!(matches!(decompress_lz4(b"\x01\0\0"), Err(Error::Lz4)));
    let mut packed = lz4_flex::compress_prepend_size(&sample());
    packed.truncate(packed.len() / 2);
    assert!(matches!(decompress_lz4(&packed), Err(Error::Lz4)));
    // A size prefix smaller than the data.
    let mut packed = lz4_flex::compress_prepend_size(&sample());
    packed[..4].copy_from_slice(&10u32.to_le_bytes());
    assert!(matches!(decompress_lz4(&packed), Err(Error::Lz4)));
    // A match offset of zero.
    assert!(matches!(decompress_lz4(b"\x08\0\0\0\x10a\0\0"), Err(Error::Lz4)));
}

#[test]
fn lz4_outcomes() {
    assert_eq!(lz4_outcome(Ok(vec![1, 2, 3])).unwrap(), vec![1, 2, 3]);
    assert!(matches!(
        lz4_outcome(Err(lz4_flex::block::DecompressError::OffsetZero)),
        Err(Error::Lz4)
    ));
    assert!(matches!(
        lz4_outcome(Err(lz4_flex::block::DecompressError::ExpectedAnotherByte)),
        Err(Error::Lz4)
    ));
}

#[test]
fn zstd_round_trip() {
    let data = sample();
    let packed = zstd::encode_all(&data[..], 3).unwrap();
    assert!(packed.len() < data.len());
    assert_eq!(decompress_zstd(&packed).unwrap(), data);
    assert_eq!(decompress_zstd_with_size(&packed, data.len()).unwrap(), data);
    // The size is a hint only.
    assert_eq!(decompress_zstd_with_size(&packed, 0).unwrap(), data);
    assert_eq!(decompress_zstd_with_size(&packed, 10 * data.len()).unwrap(), data);
    let empty = zstd::encode_all(&b""[..], 3).unwrap();
    assert_eq!(decompress_zstd(&empty).unwrap(), Vec::<u8>::new());
    assert_eq!(decompress_zstd_with_size(&empty, 0).unwrap(), Vec::<u8>::new());
}

#[test]
fn zstd_failures() {
    assert!(matches!(decompress_zstd(b"this is not a zstd frame"), Err(Error::Zstd)));
    assert!(matches!(
        decompress_zstd_with_size(b"this is not a zstd frame", 16),
        Err(Error::Io(_))
    ));
    let mut packed = zstd::encode_all(&sample()[..], 3).unwrap();
    packed.truncate(packed.len() / 2);
    assert!(matches!(decompress_zstd(&packed), Err(Error::Zstd)));
    assert!(matches!(decompress_zstd_with_size(&packed, 100), Err(Error::Io(_))));
}

#[test]
fn zstd_outcomes() {
    let failure = || std::io::Error::new(std::io::ErrorKind::InvalidData, "broken frame");
    assert_eq!(zstd_outcome(Ok(vec![9])).unwrap(), vec![9]);
    assert!(matches!(zstd_outcome(Err(failure())), Err(Error::Zstd)));
    assert_eq!(zstd_stream_outcome(Ok(vec![9])).unwrap(), vec![9]);
    match zstd_stream_outcome(Err(failure())) {
        Err(Error::Io(e)) => assert_eq!(e.kind(), std::io::ErrorKind::InvalidData),
        _ => panic!("a failed stream is an I/O error"),
    }
}
