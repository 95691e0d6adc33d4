//! An in-memory byte buffer with a position, read and written front to back.

use vstd::prelude::*;
use crate::error::CodecError;

verus! {

/// A byte vector and a position in it. Reads take bytes at the position and
/// move it forward; writes replace the bytes at the position, lengthen the
/// vector where it ends, and move the position past what was written. The
/// position may lie beyond the end: nothing can be read there, and a write
/// first fills the gap with zeros.
pub struct Cursor {
    inner: Vec<u8>,
    pos: usize,
}

/// `bytes`, lengthened with zeros where it is shorter than `len`.
pub open spec fn padded(bytes: Seq<u8>, len: int) -> Seq<u8> {
    if len <= bytes.len() {
        bytes
    } else {
        bytes + Seq::new((len - bytes.len()) as nat, |i: int| 0u8)
    }
}

/// `bytes` after `buf` was written at `at`: what lay before `at` stays (zeros
/// where there was nothing), `buf` follows, and what lay beyond the written
/// range stays behind it.
pub open spec fn overwritten(bytes: Seq<u8>, at: int, buf: Seq<u8>) -> Seq<u8> {
    let base = padded(bytes, at);
    let end = at + buf.len();
    if end <= base.len() {
        base.take(at) + buf + base.skip(end)
    } else {
        base.take(at) + buf
    }
}

impl Cursor {
    /// All the bytes of the buffer, read or not.
    pub closed spec fn bytes(&self) -> Seq<u8> {
        self.inner@
    }

    /// The position: how many bytes of the buffer lie before the next read or write.
    pub closed spec fn offset(&self) -> nat {
        self.pos as nat
    }

    /// The bytes from the position to the end.
    pub open spec fn remaining(&self) -> Seq<u8> {
        if self.offset() <= self.bytes().len() {
            self.bytes().skip(self.offset() as int)
        } else {
            Seq::empty()
        }
    }

    /// A cursor at the start of `inner`.
    pub fn new(inner: Vec<u8>) -> (c: Cursor)
        ensures
            c.bytes() == inner@,
            c.offset() == 0,
    {
        Cursor { inner, pos: 0 }
    }

    /// Gives the buffer back.
    pub fn into_inner(self) -> (v: Vec<u8>)
        ensures
            v@ == self.bytes(),
    {
        self.inner
    }

    /// The current position.
    pub fn position(&self) -> (p: usize)
        ensures
            p == self.offset(),
    {
        self.pos
    }

    /// Moves the position; the bytes stay as they are.
    pub fn set_position(&mut self, pos: usize)
        ensures
            final(self).bytes() == old(self).bytes(),
            final(self).offset() == pos,
    {
        self.pos = pos;
    }

    /// How many bytes are left to read.
    pub fn remaining_len(&self) -> (n: usize)
        ensures
            n == self.remaining().len(),
    {
        if self.pos <= self.inner.len() {
            self.inner.len() - self.pos
        } else {
            0
        }
    }

    /// Takes the byte at the position, or reports that there is none.
    pub fn read_u8(&mut self) -> (r: Result<u8, CodecError>)
        ensures
            final(self).bytes() == old(self).bytes(),
            old(self).remaining().len() > 0 ==> {
                &&& r == Ok::<u8, CodecError>(old(self).remaining()[0])
                &&& final(self).offset() == old(self).offset() + 1
            },
            old(self).remaining().len() == 0 ==> {
                &&& r matches Err(CodecError::Io(m))
                &&& m@ == "unexpected end of input"@
                &&& final(self).offset() == old(self).offset()
            },
    {
        if self.pos < self.inner.len() {
            let b = self.inner[self.pos];
            self.pos = self.pos + 1;
            Ok(b)
        } else {
            Err(CodecError::Io("unexpected end of input".to_string()))
        }
    }

    /// Takes the next `n` bytes, or none at all where fewer are left.
    pub fn read_exact(&mut self, n: usize) -> (r: Result<Vec<u8>, CodecError>)
        ensures
            final(self).bytes() == old(self).bytes(),
            n <= old(self).remaining().len() ==> {
                &&& r is Ok
                &&& r->Ok_0@ == old(self).remaining().take(n as int)
                &&& final(self).offset() == old(self).offset() + n
            },
            n > old(self).remaining().len() ==> {
                &&& r matches Err(CodecError::Io(m))
                &&& m@ == "unexpected end of input"@
                &&& final(self).offset() == old(self).offset()
            },
    {
        if n > self.remaining_len() {
            return Err(CodecError::Io("unexpected end of input".to_string()));
        }
        if n == 0 {
            return Ok(Vec::new());
        }
        let start = self.pos;
        let total = self.inner.len();
        let mut out: Vec<u8> = Vec::with_capacity(n);
        let mut i: usize = 0;
        while i < n
            invariant
                i <= n,
                start + n <= total,
                total == self.inner@.len(),
                self.pos == start,
                self.inner@ == old(self).inner@,
                out@ == self.inner@.subrange(start as int, start + i),
            decreases n - i,
        {
            out.push(self.inner[start + i]);
            i = i + 1;
        }
        self.pos = start + n;
        Ok(out)
    }

    /// Writes `buf` at the position, over what is there and past the end
    /// where the buffer is too short, and moves the position behind it.
    /// Nothing is written where the new position would not fit a `usize`.
    pub fn write_all(&mut self, buf: &[u8]) -> (r: Result<(), CodecError>)
        ensures
            old(self).offset() + buf@.len() <= usize::MAX ==> {
                &&& r is Ok
                &&& final(self).bytes() == overwritten(
                    old(self).bytes(),
                    old(self).offset() as int,
                    buf@,
                )
                &&& final(self).offset() == old(self).offset() + buf@.len()
            },
            old(self).offset() + buf@.len() > usize::MAX ==> {
                &&& r matches Err(CodecError::Io(m))
                &&& m@ == "write past the addressable range"@
                &&& final(self).bytes() == old(self).bytes()
                &&& final(self).offset() == old(self).offset()
            },
    {
        let start = self.pos;
        let n = buf.len();
        if n > usize::MAX - start {
            return Err(CodecError::Io("write past the addressable range".to_string()));
        }
        while self.inner.len() < start
            invariant
                self.pos == start,
                old(self).inner@.len() <= self.inner@.len(),
                self.inner@.len() <= start || self.inner@ == old(self).inner@,
                self.inner@ == padded(old(self).inner@, self.inner@.len() as int),
            decreases start - self.inner@.len(),
        {
            self.inner.push(0);
        }
        let ghost base = self.inner@;
        let mut i: usize = 0;
        while i < n
            invariant
                i <= n,
                n == buf@.len(),
                start + n <= usize::MAX,
                self.pos == start,
                start <= base.len(),
                base == padded(old(self).inner@, start as int),
                self.inner@ == overwritten(old(self).inner@, start as int, buf@.take(i as int)),
            decreases n - i,
        {
            let b = buf[i];
            if start + i < self.inner.len() {
                self.inner[start + i] = b;
            } else {
                self.inner.push(b);
            }
            i = i + 1;
        }
        self.pos = start + n;
        Ok(())
    }
}

} // verus!
