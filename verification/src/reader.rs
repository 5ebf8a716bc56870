//! The primitive reader: a sequential cursor over an immutable byte buffer,
//! with little-endian fixed-width reads and length-prefixed text reads.

use vstd::prelude::*;
use crate::commands::ParseError;

verus! {

/// The value of two little-endian bytes.
pub open spec fn le16(b: Seq<u8>) -> int
    recommends
        b.len() == 2,
{
    b[0] + 0x100 * b[1]
}

/// The value of four little-endian bytes, unsigned.
pub open spec fn le32(b: Seq<u8>) -> int
    recommends
        b.len() == 4,
{
    b[0] + 0x100 * b[1] + 0x1_0000 * b[2] + 0x100_0000 * b[3]
}

/// The value of eight little-endian bytes, unsigned.
pub open spec fn le64(b: Seq<u8>) -> int
    recommends
        b.len() == 8,
{
    b[0] + 0x100 * b[1] + 0x1_0000 * b[2] + 0x100_0000 * b[3] + 0x1_0000_0000 * b[4]
        + 0x100_0000_0000 * b[5] + 0x1_0000_0000_0000 * b[6] + 0x100_0000_0000_0000 * b[7]
}

/// Two's-complement reading of an unsigned 32-bit value.
pub open spec fn signed32(n: int) -> int {
    if n < 0x8000_0000 {
        n
    } else {
        n - 0x1_0000_0000
    }
}

/// Two's-complement reading of an unsigned 64-bit value.
pub open spec fn signed64(n: int) -> int {
    if n < 0x8000_0000_0000_0000 {
        n
    } else {
        n - 0x1_0000_0000_0000_0000
    }
}

/// The value of four little-endian bytes, signed.
pub open spec fn i32_le(b: Seq<u8>) -> int
    recommends
        b.len() == 4,
{
    signed32(le32(b))
}

/// The value of eight little-endian bytes, signed.
pub open spec fn i64_le(b: Seq<u8>) -> int
    recommends
        b.len() == 8,
{
    signed64(le64(b))
}

/// What `utf8_decode` yields on some byte sequence: `Some` of the decoded text
/// exactly when the bytes are valid UTF-8, `None` otherwise. The decoding is a
/// function of the bytes alone; it is given a name rather than spelled out.
pub uninterp spec fn utf8_decode(bytes: Seq<u8>) -> Option<Seq<char>>;

/// Relies on `String::from_utf8` (std): it returns the text decoded from the
/// bytes when they are valid UTF-8, and an error otherwise, depending on the
/// bytes alone.
#[verifier::external_body]
fn bytes_to_string(bytes: Vec<u8>) -> (r: Result<String, ParseError>)
    ensures
        (r matches Ok(s) ==> utf8_decode(bytes@) == Some(s@)),
        (r matches Err(e) ==> e == ParseError::EncodingError && utf8_decode(bytes@) is None),
{
    match String::from_utf8(bytes) {
        Ok(s) => Ok(s),
        Err(_) => Err(ParseError::EncodingError),
    }
}

/// Reading a length-prefixed text at `pos`: a 4-byte signed length `n`, then
/// exactly `n` bytes decoded as UTF-8. Fails with `IoError` when fewer bytes
/// remain than required (a negative declared length can never be satisfied),
/// and with `EncodingError` when the bytes are not valid UTF-8. On success the
/// second component is the position just past the text.
pub open spec fn spec_read_string(b: Seq<u8>, pos: int) -> Result<(Seq<char>, int), ParseError> {
    if b.len() - pos < 4 {
        Err(ParseError::IoError)
    } else {
        let n = i32_le(b.subrange(pos, pos + 4));
        if n < 0 || b.len() - (pos + 4) < n {
            Err(ParseError::IoError)
        } else {
            match utf8_decode(b.subrange(pos + 4, pos + 4 + n)) {
                Some(s) => Ok((s, pos + 4 + n)),
                None => Err(ParseError::EncodingError),
            }
        }
    }
}

/// An exclusively-owned sequential read position over an immutable byte
/// buffer. Every read advances the position; a read past the end fails and
/// leaves the position where it was.
pub struct ByteCursor<'a> {
    buf: &'a Vec<u8>,
    pos: usize,
}

impl<'a> ByteCursor<'a> {
    /// The whole underlying buffer.
    pub closed spec fn view(&self) -> Seq<u8> {
        self.buf@
    }

    /// The current read position.
    pub closed spec fn pos(&self) -> int {
        self.pos as int
    }

    /// The number of bytes not yet consumed.
    pub open spec fn remaining(&self) -> int {
        self@.len() - self.pos()
    }

    /// The position never lies past the end of the buffer.
    pub open spec fn wf(&self) -> bool {
        0 <= self.pos() <= self@.len()
    }

    pub fn new(buf: &'a Vec<u8>) -> (c: Self)
        ensures
            c.wf(),
            c@ == buf@,
            c.pos() == 0,
    {
        ByteCursor { buf, pos: 0 }
    }

    /// Whether any byte remains to be read.
    pub fn at_end(&self) -> (r: bool)
        requires
            self.wf(),
        ensures
            r == (self.remaining() == 0),
    {
        self.pos == self.buf.len()
    }

    /// Read one byte.
    pub fn read_u8(&mut self) -> (r: Result<u8, ParseError>)
        requires
            old(self).wf(),
        ensures
            final(self).wf(),
            final(self)@ == old(self)@,
            old(self).remaining() >= 1 ==> r == Ok::<u8, ParseError>(old(self)@[old(self).pos()])
                && final(self).pos() == old(self).pos() + 1,
            old(self).remaining() < 1 ==> r == Err::<u8, ParseError>(ParseError::IoError)
                && final(self).pos() == old(self).pos(),
    {
        if self.pos < self.buf.len() {
            let v = self.buf[self.pos];
            self.pos = self.pos + 1;
            Ok(v)
        } else {
            Err(ParseError::IoError)
        }
    }

    /// Read a 2-byte little-endian unsigned integer.
    pub fn read_u16(&mut self) -> (r: Result<u16, ParseError>)
        requires
            old(self).wf(),
        ensures
            final(self).wf(),
            final(self)@ == old(self)@,
            old(self).remaining() >= 2 ==> (r matches Ok(v)
                && v == le16(old(self)@.subrange(old(self).pos(), old(self).pos() + 2))
                && final(self).pos() == old(self).pos() + 2),
            old(self).remaining() < 2 ==> r == Err::<u16, ParseError>(ParseError::IoError)
                && final(self).pos() == old(self).pos(),
    {
        if self.buf.len() - self.pos >= 2 {
            let b0 = self.buf[self.pos];
            let b1 = self.buf[self.pos + 1];
            self.pos = self.pos + 2;
            let v: u16 = b0 as u16 + 0x100 * (b1 as u16);
            proof {
                let w = old(self)@.subrange(old(self).pos(), old(self).pos() + 2);
                assert(w[0] == b0 && w[1] == b1);
            }
            Ok(v)
        } else {
            Err(ParseError::IoError)
        }
    }

    /// Read a 4-byte little-endian signed integer.
    pub fn read_i32(&mut self) -> (r: Result<i32, ParseError>)
        requires
            old(self).wf(),
        ensures
            final(self).wf(),
            final(self)@ == old(self)@,
            old(self).remaining() >= 4 ==> (r matches Ok(v)
                && v == i32_le(old(self)@.subrange(old(self).pos(), old(self).pos() + 4))
                && final(self).pos() == old(self).pos() + 4),
            old(self).remaining() < 4 ==> r == Err::<i32, ParseError>(ParseError::IoError)
                && final(self).pos() == old(self).pos(),
    {
        if self.buf.len() - self.pos >= 4 {
            let b0 = self.buf[self.pos];
            let b1 = self.buf[self.pos + 1];
            let b2 = self.buf[self.pos + 2];
            let b3 = self.buf[self.pos + 3];
            self.pos = self.pos + 4;
            let u: u32 = b0 as u32 + 0x100 * (b1 as u32) + 0x1_0000 * (b2 as u32)
                + 0x100_0000 * (b3 as u32);
            proof {
                let w = old(self)@.subrange(old(self).pos(), old(self).pos() + 4);
                assert(w[0] == b0 && w[1] == b1 && w[2] == b2 && w[3] == b3);
            }
            if u < 0x8000_0000 {
                Ok(u as i32)
            } else {
                Ok(((u as i64) - 0x1_0000_0000i64) as i32)
            }
        } else {
            Err(ParseError::IoError)
        }
    }

    /// Read an 8-byte little-endian signed integer.
    pub fn read_i64(&mut self) -> (r: Result<i64, ParseError>)
        requires
            old(self).wf(),
        ensures
            final(self).wf(),
            final(self)@ == old(self)@,
            old(self).remaining() >= 8 ==> (r matches Ok(v)
                && v == i64_le(old(self)@.subrange(old(self).pos(), old(self).pos() + 8))
                && final(self).pos() == old(self).pos() + 8),
            old(self).remaining() < 8 ==> r == Err::<i64, ParseError>(ParseError::IoError)
                && final(self).pos() == old(self).pos(),
    {
        if self.buf.len() - self.pos >= 8 {
            let b0 = self.buf[self.pos];
            let b1 = self.buf[self.pos + 1];
            let b2 = self.buf[self.pos + 2];
            let b3 = self.buf[self.pos + 3];
            let b4 = self.buf[self.pos + 4];
            let b5 = self.buf[self.pos + 5];
            let b6 = self.buf[self.pos + 6];
            let b7 = self.buf[self.pos + 7];
            self.pos = self.pos + 8;
            let u: u64 = b0 as u64 + 0x100 * (b1 as u64) + 0x1_0000 * (b2 as u64)
                + 0x100_0000 * (b3 as u64) + 0x1_0000_0000 * (b4 as u64)
                + 0x100_0000_0000 * (b5 as u64) + 0x1_0000_0000_0000 * (b6 as u64)
                + 0x100_0000_0000_0000 * (b7 as u64);
            proof {
                let w = old(self)@.subrange(old(self).pos(), old(self).pos() + 8);
                assert(w[0] == b0 && w[1] == b1 && w[2] == b2 && w[3] == b3 && w[4] == b4
                    && w[5] == b5 && w[6] == b6 && w[7] == b7);
            }
            if u < 0x8000_0000_0000_0000 {
                Ok(u as i64)
            } else {
                Ok(((u as i128) - 0x1_0000_0000_0000_0000i128) as i64)
            }
        } else {
            Err(ParseError::IoError)
        }
    }

    /// Read exactly `n` bytes into a fresh buffer.
    pub fn read_bytes(&mut self, n: usize) -> (r: Result<Vec<u8>, ParseError>)
        requires
            old(self).wf(),
        ensures
            final(self).wf(),
            final(self)@ == old(self)@,
            old(self).remaining() >= n ==> (r matches Ok(v)
                && v@ == old(self)@.subrange(old(self).pos(), old(self).pos() + n)
                && final(self).pos() == old(self).pos() + n),
            old(self).remaining() < n ==> r == Err::<Vec<u8>, ParseError>(ParseError::IoError)
                && final(self).pos() == old(self).pos(),
    {
        if self.buf.len() - self.pos >= n {
            let mut v: Vec<u8> = Vec::new();
            let mut i: usize = 0;
            while i < n
                invariant
                    self.wf(),
                    self == old(self),
                    i <= n,
                    self.pos + n <= self.buf.len(),
                    v@ == self@.subrange(self.pos(), self.pos() + i),
                decreases n - i,
            {
                v.push(self.buf[self.pos + i]);
                i = i + 1;
                proof {
                    assert(v@ =~= self@.subrange(self.pos(), self.pos() + i));
                }
            }
            self.pos = self.pos + n;
            Ok(v)
        } else {
            Err(ParseError::IoError)
        }
    }

    /// Read a length-prefixed UTF-8 text: a 4-byte signed length, then exactly
    /// that many bytes, decoded as UTF-8.
    pub fn read_string(&mut self) -> (r: Result<String, ParseError>)
        requires
            old(self).wf(),
        ensures
            final(self).wf(),
            final(self)@ == old(self)@,
            (match spec_read_string(old(self)@, old(self).pos()) {
                Ok((s, end)) => r matches Ok(t) && t@ == s && final(self).pos() == end,
                Err(e) => r == Err::<String, ParseError>(e),
            }),
    {
        let n = self.read_i32()?;
        if n < 0 {
            return Err(ParseError::IoError);
        }
        let bytes = self.read_bytes(n as usize)?;
        bytes_to_string(bytes)
    }
}

} // verus!
