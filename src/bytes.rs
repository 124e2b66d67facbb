//! Byte-level primitives: little-endian integers, length-prefixed runs and
//! a bounded cursor over a byte slice.

use vstd::prelude::*;
use vstd::utf8::{decode_utf8, valid_utf8};

verus! {

/// Why a decoder stopped.
#[derive(Debug, Clone, Copy, PartialEq, Eq, Structural)]
pub enum ErrorKind {
    /// A fixed-width field does not fit in what is left of the input.
    InsufficientInput,
    /// A strictly enumerated field holds a value outside its set.
    InvalidTag(u8),
    /// A block reaches past the end of the buffer with bytes that are skipped,
    /// so the walk cannot land exactly on the buffer's end.
    TrailingBytes,
    /// A length-prefixed run declares more bytes than are left.
    UnexpectedEof,
    /// A block declares a size smaller than its own header.
    InvalidSize,
}

/// The value of the two bytes at `i`, least significant first.
pub open spec fn u16_le(s: Seq<u8>, i: int) -> u16 {
    (s[i] as int + 0x100 * s[i + 1] as int) as u16
}

/// The value of the four bytes at `i`, least significant first.
pub open spec fn u32_le(s: Seq<u8>, i: int) -> u32 {
    (u16_le(s, i) as int + 0x1_0000 * u16_le(s, i + 2) as int) as u32
}

/// The value of the eight bytes at `i`, least significant first.
pub open spec fn u64_le(s: Seq<u8>, i: int) -> u64 {
    (u32_le(s, i) as int + 0x1_0000_0000 * u32_le(s, i + 4) as int) as u64
}

/// A decoder's outcome seen through the views of what it returns: the value
/// and the number of bytes it consumed, or why it stopped.
pub open spec fn parsed<T: View>(r: Result<(T, usize), ErrorKind>) -> Result<(T::V, int), ErrorKind> {
    match r {
        Ok((v, n)) => Ok((v@, n as int)),
        Err(e) => Err(e),
    }
}

/// What `String::from_utf8_lossy` makes of a byte run that is not valid
/// UTF-8.
pub uninterp spec fn replace_invalid_utf8(b: Seq<u8>) -> Seq<char>;

/// A byte run read as UTF-8 with invalid sequences replaced: valid UTF-8 is
/// decoded as it stands.
pub open spec fn utf8_lossy(b: Seq<u8>) -> Seq<char> {
    if valid_utf8(b) {
        decode_utf8(b)
    } else {
        replace_invalid_utf8(b)
    }
}

/// Relies on `String::from_utf8_lossy`: valid UTF-8 comes back as the
/// string it encodes, and otherwise the result depends on the bytes alone.
#[verifier::external_body]
pub(crate) fn lossy_string(b: &[u8]) -> (r: String)
    ensures
        valid_utf8(b@) ==> r@ == decode_utf8(b@),
        !valid_utf8(b@) ==> r@ == replace_invalid_utf8(b@),
{
    String::from_utf8_lossy(b).into_owned()
}

/// Two bytes of `v`, least significant first.
pub open spec fn le16_bytes(v: u16) -> Seq<u8> {
    seq![(v % 0x100) as u8, (v / 0x100) as u8]
}

/// Four bytes of `v`, least significant first.
pub open spec fn le32_bytes(v: u32) -> Seq<u8> {
    le16_bytes((v % 0x1_0000) as u16) + le16_bytes((v / 0x1_0000) as u16)
}

pub proof fn lemma_le16(v: u16, s: Seq<u8>, i: int)
    requires
        0 <= i,
        i + 2 <= s.len(),
        s.subrange(i, i + 2) == le16_bytes(v),
    ensures
        u16_le(s, i) == v,
{
    assert(s[i] == s.subrange(i, i + 2)[0]);
    assert(s[i + 1] == s.subrange(i, i + 2)[1]);
}

pub proof fn lemma_le32(v: u32, s: Seq<u8>, i: int)
    requires
        0 <= i,
        i + 4 <= s.len(),
        s.subrange(i, i + 4) == le32_bytes(v),
    ensures
        u32_le(s, i) == v,
{
    let lo = (v % 0x1_0000) as u16;
    let hi = (v / 0x1_0000) as u16;
    assert(s.subrange(i, i + 2) =~= le32_bytes(v).subrange(0, 2));
    assert(le32_bytes(v).subrange(0, 2) =~= le16_bytes(lo));
    assert(s.subrange(i + 2, i + 4) =~= le32_bytes(v).subrange(2, 4));
    assert(le32_bytes(v).subrange(2, 4) =~= le16_bytes(hi));
    lemma_le16(lo, s, i);
    lemma_le16(hi, s, i + 2);
}

/// A read position inside a byte slice; reads never go past its end.
pub(crate) struct Cursor<'a> {
    pub(crate) data: &'a [u8],
    pub(crate) pos: usize,
}

impl<'a> Cursor<'a> {
    pub(crate) open spec fn wf(&self) -> bool {
        self.pos <= self.data@.len()
    }

    pub(crate) open spec fn rest(&self) -> int {
        self.data@.len() - self.pos
    }

    pub(crate) fn new(data: &'a [u8]) -> (r: Cursor<'a>)
        ensures
            r.data@ == data@,
            r.pos == 0,
    {
        Cursor { data, pos: 0 }
    }

    pub(crate) fn remaining(&self) -> (r: usize)
        requires
            self.wf(),
        ensures
            r == self.rest(),
    {
        self.data.len() - self.pos
    }

    /// Moves past `n` bytes, which must be there.
    pub(crate) fn advance(&mut self, n: usize)
        requires
            old(self).wf(),
            n <= old(self).rest(),
        ensures
            final(self).data@ == old(self).data@,
            final(self).pos == old(self).pos + n,
    {
        let len = self.data.len();
        assert(self.pos + n <= len);
        self.pos = self.pos + n;
    }

    /// The bytes from the read position to the end, without moving.
    pub(crate) fn peek_rest(&self) -> (r: &'a [u8])
        requires
            self.wf(),
        ensures
            r@ == self.data@.subrange(self.pos as int, self.data@.len() as int),
    {
        vstd::slice::slice_subrange(self.data, self.pos, self.data.len())
    }

    pub(crate) fn read_u8(&mut self) -> (r: Result<u8, ErrorKind>)
        requires
            old(self).wf(),
        ensures
            final(self).wf(),
            final(self).data@ == old(self).data@,
            old(self).rest() >= 1 ==> r == Ok::<u8, ErrorKind>(old(self).data@[old(self).pos as int])
                && final(self).pos == old(self).pos + 1,
            old(self).rest() < 1 ==> r == Err::<u8, ErrorKind>(ErrorKind::InsufficientInput),
    {
        if self.data.len() - self.pos < 1 {
            return Err(ErrorKind::InsufficientInput);
        }
        let v = self.data[self.pos];
        self.pos = self.pos + 1;
        Ok(v)
    }

    pub(crate) fn read_u16(&mut self) -> (r: Result<u16, ErrorKind>)
        requires
            old(self).wf(),
        ensures
            final(self).wf(),
            final(self).data@ == old(self).data@,
            old(self).rest() >= 2 ==> r == Ok::<u16, ErrorKind>(u16_le(old(self).data@, old(self).pos as int))
                && final(self).pos == old(self).pos + 2,
            old(self).rest() < 2 ==> r == Err::<u16, ErrorKind>(ErrorKind::InsufficientInput),
    {
        if self.data.len() - self.pos < 2 {
            return Err(ErrorKind::InsufficientInput);
        }
        let v = self.data[self.pos] as u16 + 0x100 * self.data[self.pos + 1] as u16;
        self.pos = self.pos + 2;
        Ok(v)
    }

    pub(crate) fn read_u32(&mut self) -> (r: Result<u32, ErrorKind>)
        requires
            old(self).wf(),
        ensures
            final(self).wf(),
            final(self).data@ == old(self).data@,
            old(self).rest() >= 4 ==> r == Ok::<u32, ErrorKind>(u32_le(old(self).data@, old(self).pos as int))
                && final(self).pos == old(self).pos + 4,
            old(self).rest() < 4 ==> r == Err::<u32, ErrorKind>(ErrorKind::InsufficientInput),
    {
        if self.data.len() - self.pos < 4 {
            return Err(ErrorKind::InsufficientInput);
        }
        let lo = self.read_u16()?;
        let hi = self.read_u16()?;
        Ok(lo as u32 + 0x1_0000 * hi as u32)
    }

    pub(crate) fn read_u64(&mut self) -> (r: Result<u64, ErrorKind>)
        requires
            old(self).wf(),
        ensures
            final(self).wf(),
            final(self).data@ == old(self).data@,
            old(self).rest() >= 8 ==> r == Ok::<u64, ErrorKind>(u64_le(old(self).data@, old(self).pos as int))
                && final(self).pos == old(self).pos + 8,
            old(self).rest() < 8 ==> r == Err::<u64, ErrorKind>(ErrorKind::InsufficientInput),
    {
        if self.data.len() - self.pos < 8 {
            return Err(ErrorKind::InsufficientInput);
        }
        let lo = self.read_u32()?;
        let hi = self.read_u32()?;
        Ok(lo as u64 + 0x1_0000_0000 * hi as u64)
    }

    /// Takes the next `n` bytes of a length-prefixed run.
    pub(crate) fn take(&mut self, n: usize) -> (r: Result<&'a [u8], ErrorKind>)
        requires
            old(self).wf(),
        ensures
            final(self).wf(),
            final(self).data@ == old(self).data@,
            n <= old(self).rest() ==> (r matches Ok(b) && b@ == old(self).data@.subrange(
                old(self).pos as int,
                old(self).pos + n,
            ) && final(self).pos == old(self).pos + n),
            n > old(self).rest() ==> r == Err::<&[u8], ErrorKind>(ErrorKind::UnexpectedEof),
    {
        if self.data.len() - self.pos < n {
            return Err(ErrorKind::UnexpectedEof);
        }
        let b = vstd::slice::slice_subrange(self.data, self.pos, self.pos + n);
        self.pos = self.pos + n;
        Ok(b)
    }
}

} // verus!
