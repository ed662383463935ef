//! In-memory seekable byte source.
//!
//! Every parser reads from a [`Stream`]: a byte buffer together with a read
//! position. Reads are all-or-nothing: a read either delivers exactly the
//! bytes asked for and advances the position past them, or it fails with
//! [`Error::UnexpectedEof`] and leaves the stream untouched.

use vstd::prelude::*;
use crate::error::Error;

verus! {

/// The part of `b` that a view of at most `limit` bytes starting at `start`
/// can deliver.
pub open spec fn window(b: Seq<u8>, start: int, limit: int) -> Seq<u8> {
    if start >= b.len() {
        Seq::empty()
    } else if start + limit <= b.len() {
        b.subrange(start, start + limit)
    } else {
        b.subrange(start, b.len() as int)
    }
}

/// A byte buffer with a read position.
///
/// The position may lie beyond the end of the buffer (a seek never fails);
/// any read from such a position reports end of stream.
pub struct Stream {
    /// The bytes of the source, from its origin.
    pub data: Vec<u8>,
    /// Offset of the next byte to be read, measured from the origin.
    pub pos: u64,
}

impl Stream {
    /// Whether `n` more bytes can be read at the current position.
    pub open spec fn can_read(&self, n: int) -> bool {
        self.pos + n <= self.data@.len()
    }

    /// The `n` bytes that start at the current position.
    pub open spec fn peek(&self, n: int) -> Seq<u8> {
        self.data@.subrange(self.pos as int, self.pos + n)
    }

    /// Wraps `data` in a stream positioned at its first byte.
    pub fn new(data: Vec<u8>) -> (s: Stream)
        ensures
            s.data@ == data@,
            s.pos == 0,
    {
        Stream { data, pos: 0 }
    }

    /// Current offset from the origin.
    pub fn position(&self) -> (p: u64)
        ensures
            p == self.pos,
    {
        self.pos
    }

    /// Total number of bytes in the source.
    pub fn len(&self) -> (n: usize)
        ensures
            n == self.data@.len(),
    {
        self.data.len()
    }

    /// Moves to the absolute offset `pos`. Seeking past the end is allowed.
    pub fn seek(&mut self, pos: u64)
        ensures
            final(self).data@ == old(self).data@,
            final(self).pos == pos,
    {
        self.pos = pos;
    }

    /// Moves `n` bytes forward without reading. Fails with
    /// [`Error::InvalidRange`], leaving the stream unchanged, exactly when
    /// the new offset would not fit in 64 bits.
    pub fn skip(&mut self, n: u64) -> (res: Result<(), Error>)
        ensures
            final(self).data@ == old(self).data@,
            match res {
                Ok(_) => old(self).pos + n <= u64::MAX && final(self).pos == old(self).pos + n,
                Err(e) => old(self).pos + n > u64::MAX && e == Error::InvalidRange
                    && final(self).pos == old(self).pos,
            },
    {
        match self.pos.checked_add(n) {
            Some(p) => {
                self.pos = p;
                Ok(())
            },
            None => Err(Error::InvalidRange),
        }
    }

    /// Number of bytes between the current position and the end.
    pub fn remaining(&self) -> (n: usize)
        ensures
            n == if self.pos <= self.data@.len() { self.data@.len() - self.pos } else { 0 },
    {
        let len = self.data.len();
        if self.pos <= len as u64 {
            len - self.pos as usize
        } else {
            0
        }
    }

    /// Reads exactly `len` bytes into a fresh buffer.
    pub fn read_vec(&mut self, len: usize) -> (res: Result<Vec<u8>, Error>)
        ensures
            final(self).data@ == old(self).data@,
            match res {
                Ok(v) => old(self).can_read(len as int) && v@ == old(self).peek(len as int)
                    && final(self).pos == old(self).pos + len,
                Err(e) => !old(self).can_read(len as int) && e == Error::UnexpectedEof
                    && final(self).pos == old(self).pos,
            },
    {
        let total = self.data.len();
        if self.pos > total as u64 || len > total - self.pos as usize {
            return Err(Error::UnexpectedEof);
        }
        let start = self.pos as usize;
        let mut out: Vec<u8> = Vec::with_capacity(len);
        let mut i: usize = 0;
        while i < len
            invariant
                i <= len,
                total == self.data@.len(),
                start + len <= total,
                out@ == self.data@.subrange(start as int, start + i),
            decreases len - i,
        {
            out.push(self.data[start + i]);
            i += 1;
        }
        self.pos = self.pos + len as u64;
        Ok(out)
    }

    /// Reads exactly `N` bytes into a fixed-size array.
    pub fn read_array<const N: usize>(&mut self) -> (res: Result<[u8; N], Error>)
        ensures
            final(self).data@ == old(self).data@,
            match res {
                Ok(a) => old(self).can_read(N as int) && a@ == old(self).peek(N as int)
                    && final(self).pos == old(self).pos + N,
                Err(e) => !old(self).can_read(N as int) && e == Error::UnexpectedEof
                    && final(self).pos == old(self).pos,
            },
    {
        let total = self.data.len();
        if self.pos > total as u64 || N > total - self.pos as usize {
            return Err(Error::UnexpectedEof);
        }
        let start = self.pos as usize;
        let mut out = [0u8; N];
        let mut i: usize = 0;
        while i < N
            invariant
                i <= N,
                total == self.data@.len(),
                start + N <= total,
                forall|j: int| 0 <= j < i ==> out@[j] == self.data@[start + j],
            decreases N - i,
        {
            out[i] = self.data[start + i];
            i += 1;
        }
        self.pos = self.pos + N as u64;
        Ok(out)
    }

    /// The bytes from the current position on, at most `limit` of them:
    /// fewer when the source ends first, none when the position lies at or
    /// beyond the end.
    pub fn take(&self, limit: u64) -> (bytes: &[u8])
        ensures
            bytes@ == window(self.data@, self.pos as int, limit as int),
            bytes@.len() <= limit,
    {
        let total = self.data.len();
        if self.pos >= total as u64 {
            vstd::slice::slice_subrange(self.data.as_slice(), 0, 0)
        } else {
            let start = self.pos as usize;
            let left = total - start;
            let end = if limit < left as u64 {
                start + limit as usize
            } else {
                total
            };
            vstd::slice::slice_subrange(self.data.as_slice(), start, end)
        }
    }

    /// Consumes the stream, returning its bytes.
    pub fn into_inner(self) -> (data: Vec<u8>)
        ensures
            data@ == self.data@,
    {
        self.data
    }
}

} // verus!
