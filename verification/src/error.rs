//! Library-wide error type.

use vstd::prelude::*;
use vstd::string::StringExecFns;

verus! {

/// `std::io::Error`, known to the verifier as an opaque value that is
/// carried through and never looked into.
#[verifier::external_type_specification]
#[verifier::external_body]
pub struct ExIoError(std::io::Error);

/// All errors the library can produce.
#[derive(Debug)]
pub enum Error {
    /// A magic/signature field did not match the expected value.
    BadMagic,
    /// A format version is present in the data but not supported.
    UnsupportedVersion(u8),
    /// The stream ended before all expected bytes could be read.
    UnexpectedEof,
    /// A null-terminated string had no null terminator within the buffer.
    UnterminatedName,
    /// An offset or size field would address outside the valid region.
    InvalidRange,
    /// A structural constraint was violated (the message says which one).
    Parse(&'static str),
    /// An underlying I/O operation failed.
    Io(std::io::Error),
    /// LZ4 decompression failed.
    Lz4,
    /// Zstandard decompression failed.
    Zstd,
}

impl From<std::io::Error> for Error {
    fn from(e: std::io::Error) -> (r: Self) {
        Error::Io(e)
    }
}

impl vstd::std_specs::convert::FromSpecImpl<std::io::Error> for Error {
    open spec fn obeys_from_spec() -> bool {
        true
    }

    open spec fn from_spec(e: std::io::Error) -> Self {
        Error::Io(e)
    }
}

/// The decimal digit with value `d`.
pub open spec fn digit_char(d: int) -> char {
    (0x30 + d) as char
}

/// The decimal numeral of `n`, without leading zeros.
pub open spec fn decimal(n: nat) -> Seq<char>
    decreases n,
{
    if n < 10 {
        seq![digit_char(n as int)]
    } else {
        decimal(n / 10).push(digit_char((n % 10) as int))
    }
}

/// The decimal numeral of `v`, as `u8::to_string` writes it.
///
/// Trusted: integers are displayed in decimal, without sign or leading
/// zeros.
#[verifier::external_body]
fn decimal_string(v: u8) -> (s: String)
    ensures
        s@ == decimal(v as nat),
{
    v.to_string()
}

/// The text that `std::io::Error` displays for `e`.
///
/// Trusted: nothing is claimed of the text.
#[verifier::external_body]
fn io_error_string(e: &std::io::Error) -> (s: String) {
    e.to_string()
}

impl Error {
    /// The text that describes this error, up to the cause of an I/O
    /// failure: the text of [`Error::Io`] is this prefix followed by the
    /// description of the cause.
    pub open spec fn text(self) -> Seq<char> {
        match self {
            Error::BadMagic => "bad magic value"@,
            Error::UnsupportedVersion(v) => "unsupported version: "@ + decimal(v as nat),
            Error::UnexpectedEof => "unexpected end of file"@,
            Error::UnterminatedName => "unterminated string"@,
            Error::InvalidRange => "invalid offset or size"@,
            Error::Parse(s) => "parse error: "@ + s@,
            Error::Io(_) => "I/O error: "@,
            Error::Lz4 => "lz4 decompression failed"@,
            Error::Zstd => "zstd decompression failed"@,
        }
    }

    /// A terse description of the error.
    pub fn message(&self) -> (s: String)
        ensures
            self is Io ==> s@.len() >= self.text().len() && s@.subrange(
                0,
                self.text().len() as int,
            ) == self.text(),
            !(self is Io) ==> s@ == self.text(),
    {
        match self {
            Error::BadMagic => String::from_str("bad magic value"),
            Error::UnsupportedVersion(v) => {
                let n = decimal_string(*v);
                String::from_str("unsupported version: ").concat(n.as_str())
            },
            Error::UnexpectedEof => String::from_str("unexpected end of file"),
            Error::UnterminatedName => String::from_str("unterminated string"),
            Error::InvalidRange => String::from_str("invalid offset or size"),
            Error::Parse(m) => String::from_str("parse error: ").concat(m),
            Error::Io(e) => {
                let cause = io_error_string(e);
                let s = String::from_str("I/O error: ").concat(cause.as_str());
                assert(s@.subrange(0, "I/O error: "@.len() as int) =~= "I/O error: "@);
                s
            },
            Error::Lz4 => String::from_str("lz4 decompression failed"),
            Error::Zstd => String::from_str("zstd decompression failed"),
        }
    }

    /// The underlying cause of the error: the I/O error that [`Error::Io`]
    /// wraps, nothing for the other variants.
    pub fn source(&self) -> (cause: Option<&std::io::Error>)
        ensures
            match self {
                Error::Io(e) => cause == Some(e),
                _ => cause is None,
            },
    {
        match self {
            Error::Io(e) => Some(e),
            _ => None,
        }
    }
}

} // verus!
