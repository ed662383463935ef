use hakkit::error::Error;

#[test]
fn messages() {
    assert_eq!(Error::BadMagic.message(), "bad magic value");
    assert_eq!(Error::UnsupportedVersion(0).message(), "unsupported version: 0");
    assert_eq!(Error::UnsupportedVersion(7).message(), "unsupported version: 7");
    assert_eq!(Error::UnsupportedVersion(42).message(), "unsupported version: 42");
    assert_eq!(Error::UnsupportedVersion(255).message(), "unsupported version: 255");
    assert_eq!(Error::UnexpectedEof.message(), "unexpected end of file");
    assert_eq!(Error::UnterminatedName.message(), "unterminated string");
    assert_eq!(Error::InvalidRange.message(), "invalid offset or size");
    assert_eq!(Error::Parse("invalid SARC BOM").message(), "parse error: invalid SARC BOM");
    assert_eq!(Error::Parse("").message(), "parse error: ");
    assert_eq!(Error::Lz4.message(), "lz4 decompression failed");
    assert_eq!(Error::Zstd.message(), "zstd decompression failed");
}

#[test]
fn io_errors_keep_their_cause() {
    let cause = std::io::Error::new(std::io::ErrorKind::NotFound, "no such key file");
    let e = Error::from(cause);
    assert!(matches!(e, Error::Io(_)));
    assert_eq!(e.message(), "I/O error: no such key file");
    assert_eq!(e.source().unwrap().kind(), std::io::ErrorKind::NotFound);
    assert!(Error::BadMagic.source().is_none());
    assert!(Error::Zstd.source().is_none());
    assert!(Error::UnsupportedVersion(4).source().is_none());
}
