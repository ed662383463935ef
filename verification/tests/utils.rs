use hakkit::error::Error;
use hakkit::stream::Stream;
use hakkit::utils::{
    be_u16, be_u32, bytesa, bytesv, end_u16, end_u32, le_u16, le_u32, le_u64, magic, null_string,
    read_null_string, str_eq, u8,
};

#[test]
fn fixed_width_reads() {
    let mut r = Stream::new(vec![0x01, 0x02, 0x03, 0x04, 0x05, 0x06, 0x07, 0x08, 0x09]);
    assert_eq!(u8(&mut r).unwrap(), 0x01);
    assert_eq!(r.position(), 1);
    assert_eq!(le_u16(&mut r).unwrap(), 0x0302);
    assert_eq!(be_u16(&mut r).unwrap(), 0x0405);
    assert_eq!(r.position(), 5);
    r.seek(0);
    assert_eq!(le_u32(&mut r).unwrap(), 0x04030201);
    r.seek(0);
    assert_eq!(be_u32(&mut r).unwrap(), 0x01020304);
    r.seek(0);
    assert_eq!(le_u64(&mut r).unwrap(), 0x0807060504030201);
    assert_eq!(r.position(), 8);
    r.seek(1);
    assert_eq!(end_u16(&mut r, true).unwrap(), 0x0302);
    r.seek(1);
    assert_eq!(end_u16(&mut r, false).unwrap(), 0x0203);
    r.seek(1);
    assert_eq!(end_u32(&mut r, true).unwrap(), 0x05040302);
    r.seek(1);
    assert_eq!(end_u32(&mut r, false).unwrap(), 0x02030405);
}

#[test]
fn largest_values_are_read_whole() {
    let mut r = Stream::new(vec![0xFF; 8]);
    assert_eq!(le_u64(&mut r).unwrap(), u64::MAX);
    r.seek(0);
    assert_eq!(le_u32(&mut r).unwrap(), u32::MAX);
    r.seek(0);
    assert_eq!(be_u32(&mut r).unwrap(), u32::MAX);
    r.seek(0);
    assert_eq!(le_u16(&mut r).unwrap(), u16::MAX);
}

#[test]
fn short_reads_fail_and_leave_the_stream() {
    let mut r = Stream::new(vec![1, 2, 3]);
    assert!(matches!(le_u32(&mut r), Err(Error::UnexpectedEof)));
    assert_eq!(r.position(), 0);
    assert!(matches!(le_u64(&mut r), Err(Error::UnexpectedEof)));
    assert!(matches!(bytesa::<4>(&mut r), Err(Error::UnexpectedEof)));
    assert!(matches!(bytesv(&mut r, 4), Err(Error::UnexpectedEof)));
    assert_eq!(r.position(), 0);
    assert_eq!(bytesv(&mut r, 3).unwrap(), vec![1, 2, 3]);
    assert_eq!(r.position(), 3);
    assert!(matches!(u8(&mut r), Err(Error::UnexpectedEof)));
    assert_eq!(bytesv(&mut r, 0).unwrap(), Vec::<u8>::new());
    r.seek(100);
    assert!(matches!(u8(&mut r), Err(Error::UnexpectedEof)));
    assert_eq!(r.position(), 100);
    assert_eq!(r.remaining(), 0);
}

#[test]
fn byte_array_reads() {
    let mut r = Stream::new(vec![9, 8, 7, 6, 5]);
    assert_eq!(bytesa::<2>(&mut r).unwrap(), [9, 8]);
    assert_eq!(bytesa::<3>(&mut r).unwrap(), [7, 6, 5]);
    assert_eq!(bytesa::<0>(&mut r).unwrap(), []);
    assert_eq!(r.remaining(), 0);
    assert_eq!(r.len(), 5);
    assert_eq!(r.into_inner(), vec![9, 8, 7, 6, 5]);
}

#[test]
fn skip_and_take() {
    let mut r = Stream::new(vec![0, 1, 2, 3, 4, 5, 6, 7]);
    r.skip(3).unwrap();
    assert_eq!(r.position(), 3);
    assert_eq!(r.take(2), &[3, 4]);
    assert_eq!(r.take(100), &[3, 4, 5, 6, 7]);
    assert_eq!(r.take(0), &[] as &[u8]);
    r.seek(8);
    assert_eq!(r.take(4), &[] as &[u8]);
    r.seek(u64::MAX);
    assert!(matches!(r.skip(1), Err(Error::InvalidRange)));
    assert_eq!(r.position(), u64::MAX);
    assert_eq!(r.take(4), &[] as &[u8]);
}

#[test]
fn magic_checks() {
    let mut r = Stream::new(b"PFS0rest".to_vec());
    assert!(magic(&mut r, b"PFS0").is_ok());
    assert_eq!(r.position(), 4);
    assert!(matches!(magic(&mut r, b"PFS0"), Err(Error::BadMagic)));
    assert_eq!(r.position(), 8);
    assert!(matches!(magic(&mut r, b"PFS0"), Err(Error::UnexpectedEof)));
    r.seek(6);
    assert!(matches!(magic(&mut r, b"st!!"), Err(Error::UnexpectedEof)));
    assert_eq!(r.position(), 6);
}

#[test]
fn null_terminated_strings_in_a_buffer() {
    let table = b"a\0bcd\0\0tail";
    assert_eq!(null_string(table, 0).unwrap(), "a");
    assert_eq!(null_string(table, 2).unwrap(), "bcd");
    assert_eq!(null_string(table, 3).unwrap(), "cd");
    assert_eq!(null_string(table, 5).unwrap(), "");
    assert_eq!(null_string(table, 6).unwrap(), "");
    assert!(matches!(null_string(table, 7), Err(Error::UnterminatedName)));
    assert!(matches!(null_string(table, table.len()), Err(Error::UnterminatedName)));
    assert!(matches!(null_string(table, table.len() + 1), Err(Error::InvalidRange)));
    assert!(matches!(null_string(b"", 0), Err(Error::UnterminatedName)));
}

#[test]
fn names_are_decoded_lossily() {
    // A lone 0xFF is no UTF-8: it becomes the replacement character.
    assert_eq!(null_string(b"a\xFFb\0", 0).unwrap(), "a\u{FFFD}b");
    // Well-formed multi-byte sequences are kept.
    assert_eq!(null_string("h\u{e9}llo\0".as_bytes(), 0).unwrap(), "h\u{e9}llo");
    let mut r = Stream::new(b"\xC3\x28\0".to_vec());
    assert_eq!(read_null_string(&mut r).unwrap(), "\u{FFFD}(");
}

#[test]
fn null_terminated_strings_from_a_stream() {
    let mut r = Stream::new(b"one\0two\0\0end".to_vec());
    assert_eq!(read_null_string(&mut r).unwrap(), "one");
    assert_eq!(r.position(), 4);
    assert_eq!(read_null_string(&mut r).unwrap(), "two");
    assert_eq!(read_null_string(&mut r).unwrap(), "");
    assert_eq!(r.position(), 9);
    assert!(matches!(read_null_string(&mut r), Err(Error::UnexpectedEof)));
    r.seek(50);
    assert!(matches!(read_null_string(&mut r), Err(Error::UnexpectedEof)));
}

#[test]
fn string_equality() {
    assert!(str_eq("", ""));
    assert!(str_eq("secure", "secure"));
    assert!(!str_eq("secure", "secur"));
    assert!(!str_eq("secure", "securE"));
    assert!(str_eq("h\u{e9}llo", "h\u{e9}llo"));
    assert!(!str_eq("h\u{e9}llo", "hello"));
}
