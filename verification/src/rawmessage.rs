//! The byte-buffer payload: a region of `cap` bytes with a logical length
//! `len <= cap`. Multi-byte integers are stored least-significant byte first.

use vstd::prelude::*;
use vstd::slice::slice_index_get;
use vstd::slice::slice_subrange;
use vstd::slice::slice_to_vec;
use vstd::string::StringSliceAdditionalSpecFns;

verus! {

/// Marks a type as holding no pointers, so that its raw bytes may be read
/// back as a value. The library itself never relies on it; it is for users
/// who move typed values through raw buffers.
pub trait NoPointers {}

/// The mathematical value of a buffer: its `cap` bytes and its logical length.
pub ghost struct RawV {
    pub bytes: Seq<u8>,
    pub len: nat,
}

impl RawV {
    /// Length within capacity; capacity at least one byte.
    pub open spec fn wf(self) -> bool {
        &&& self.len <= self.bytes.len()
        &&& 1 <= self.bytes.len() <= usize::MAX
    }

    /// Capacity in bytes.
    pub open spec fn cap(self) -> nat {
        self.bytes.len()
    }
}

/// A 16-bit value read least-significant byte first.
pub open spec fn u16_le(b0: u8, b1: u8) -> u16 {
    (b0 + b1 * 0x100) as u16
}

/// A 32-bit value read least-significant byte first.
pub open spec fn u32_le(b0: u8, b1: u8, b2: u8, b3: u8) -> u32 {
    (b0 + b1 * 0x100 + b2 * 0x1_0000 + b3 * 0x100_0000) as u32
}

/// An owned byte buffer. Duplication copies the bytes, so no two buffers
/// ever share a region.
pub struct RawMessage {
    buf: Vec<u8>,
    len: usize,
}

impl View for RawMessage {
    type V = RawV;

    closed spec fn view(&self) -> RawV {
        RawV { bytes: self.buf@, len: self.len as nat }
    }
}

impl RawMessage {
    /// Create a buffer of `cap` bytes (at least one is allocated, so that a
    /// zero-sized payload still has a region), zero-filled, length `cap`.
    pub fn new(cap: usize) -> (r: RawMessage)
        ensures
            r@.wf(),
            r@.len == cap,
            r@.bytes == Seq::new(if cap == 0 { 1nat } else { cap as nat }, |i: int| 0u8),
    {
        let realcap: usize = if cap == 0 { 1 } else { cap };
        let buf: Vec<u8> = vec![0u8; realcap];
        RawMessage { buf, len: cap }
    }

    /// Create a buffer holding a copy of the given bytes; as with an empty
    /// `new`, an empty source still gets a one-byte region, length zero.
    pub fn new_fromslice(s: &[u8]) -> (r: RawMessage)
        ensures
            r@.wf(),
            r@.bytes == if s@.len() == 0 { seq![0u8] } else { s@ },
            r@.len == s@.len(),
    {
        if s.len() == 0 {
            RawMessage::new(0)
        } else {
            let buf = slice_to_vec(s);
            let len = buf.len();
            RawMessage { buf, len }
        }
    }

    /// Create a buffer holding the bytes of the given string; an empty
    /// string still gets a one-byte region, length zero.
    pub fn new_fromstr(s: &str) -> (r: RawMessage)
        ensures
            r@.wf(),
            r@.bytes == if s.spec_bytes().len() == 0 { seq![0u8] } else { s.spec_bytes() },
            r@.len == s.spec_bytes().len(),
    {
        RawMessage::new_fromslice(s.as_bytes())
    }

    /// Duplicate into a fresh region: same bytes, length reset to the
    /// full capacity.
    pub fn dup(&self) -> (r: RawMessage)
        requires
            self@.wf(),
        ensures
            r@.wf(),
            r@.bytes == self@.bytes,
            r@.len == self@.cap(),
    {
        let buf = slice_to_vec(self.buf.as_slice());
        let len = buf.len();
        RawMessage { buf, len }
    }

    /// Duplicate into a fresh region, keeping the logical length as well.
    pub fn dup_exact(&self) -> (r: RawMessage)
        requires
            self@.wf(),
        ensures
            r@ == self@,
    {
        let buf = slice_to_vec(self.buf.as_slice());
        RawMessage { buf, len: self.len }
    }

    /// The capacity in bytes.
    pub fn cap(&self) -> (r: usize)
        ensures
            r == self@.cap(),
    {
        self.buf.len()
    }

    /// The logical length.
    pub fn len(&self) -> (r: usize)
        ensures
            r == self@.len,
    {
        self.len
    }

    /// Set the logical length; it must not exceed the capacity.
    pub fn setlen(&mut self, len: usize)
        requires
            old(self)@.wf(),
            len <= old(self)@.cap(),
        ensures
            final(self)@.wf(),
            final(self)@.bytes == old(self)@.bytes,
            final(self)@.len == len,
    {
        self.len = len;
    }

    /// Change the capacity, keeping the old contents up to the new capacity
    /// and zero-filling any growth; the length is clipped to the new capacity.
    pub fn resize(&mut self, newcap: usize)
        requires
            old(self)@.wf(),
        ensures
            final(self)@.wf(),
            final(self)@.cap() == if newcap == 0 { 1nat } else { newcap as nat },
            final(self)@.len == if old(self)@.len <= newcap { old(self)@.len } else { newcap as nat },
            forall|i: int| 0 <= i < final(self)@.cap() ==> final(self)@.bytes[i] ==
                (if i < old(self)@.cap() { old(self)@.bytes[i] } else { 0u8 }),
    {
        let realcap: usize = if newcap == 0 { 1 } else { newcap };
        self.buf.resize(realcap, 0u8);
        if self.len > newcap {
            self.len = newcap;
        }
    }

    /// Write the given bytes at `offset`; the write must lie within the
    /// capacity. The length advances to cover the write if it did not already.
    pub fn write_from_slice(&mut self, offset: usize, f: &[u8])
        requires
            old(self)@.wf(),
            offset + f@.len() <= old(self)@.cap(),
        ensures
            final(self)@.wf(),
            final(self)@.cap() == old(self)@.cap(),
            forall|i: int| 0 <= i < final(self)@.cap() ==> final(self)@.bytes[i] ==
                (if offset <= i < offset + f@.len() { f@[i - offset] } else { old(self)@.bytes[i] }),
            final(self)@.len == if old(self)@.len >= offset + f@.len() { old(self)@.len }
                else { (offset + f@.len()) as nat },
    {
        let flen = f.len();
        let mut i: usize = 0;
        while i < flen
            invariant
                i <= flen,
                flen == f@.len(),
                offset + flen <= self.buf@.len() <= usize::MAX,
                self.len == old(self).len,
                self.buf@.len() == old(self).buf@.len(),
                forall|j: int| 0 <= j < self.buf@.len() ==> self.buf@[j] ==
                    (if offset <= j < offset + i { f@[j - offset] } else { old(self).buf@[j] }),
            decreases flen - i,
        {
            let b: u8 = *slice_index_get(f, i);
            self.buf[offset + i] = b;
            i = i + 1;
        }
        if offset + flen > self.len {
            self.len = offset + flen;
        }
    }

    /// A view of the first `len` bytes.
    pub fn as_slice(&self) -> (r: &[u8])
        requires
            self@.wf(),
        ensures
            r@ == self@.bytes.subrange(0, self@.len as int),
    {
        slice_subrange(self.buf.as_slice(), 0, self.len)
    }

    /// A copy of the first `len` bytes.
    pub fn to_vec(&self) -> (r: Vec<u8>)
        requires
            self@.wf(),
        ensures
            r@ == self@.bytes.subrange(0, self@.len as int),
    {
        slice_to_vec(self.as_slice())
    }

    /// Write one byte at `offset`, which must lie within the capacity.
    /// The length is not changed.
    pub fn writeu8(&mut self, offset: usize, value: u8)
        requires
            old(self)@.wf(),
            offset + 1 <= old(self)@.cap(),
        ensures
            final(self)@.wf(),
            final(self)@.bytes == old(self)@.bytes.update(offset as int, value),
            final(self)@.len == old(self)@.len,
    {
        self.buf[offset] = value;
    }

    /// Read one byte at `offset`, which must lie within the capacity.
    pub fn readu8(&self, offset: usize) -> (r: u8)
        requires
            self@.wf(),
            offset + 1 <= self@.cap(),
        ensures
            r == self@.bytes[offset as int],
    {
        self.buf[offset]
    }

    /// Write a 16-bit value at `offset`, least-significant byte first.
    pub fn writeu16(&mut self, offset: usize, value: u16)
        requires
            old(self)@.wf(),
            offset + 2 <= old(self)@.cap(),
        ensures
            final(self)@.wf(),
            final(self)@.cap() == old(self)@.cap(),
            final(self)@.len == old(self)@.len,
            u16_le(final(self)@.bytes[offset as int], final(self)@.bytes[offset + 1]) == value,
            forall|i: int| 0 <= i < final(self)@.cap() && !(offset <= i < offset + 2) ==>
                final(self)@.bytes[i] == old(self)@.bytes[i],
    {
        let b0: u8 = (value % 0x100) as u8;
        let b1: u8 = (value / 0x100) as u8;
        assert(b0 + b1 * 0x100 == value);
        self.buf[offset] = b0;
        self.buf[offset + 1] = b1;
    }

    /// Read a 16-bit value at `offset`, least-significant byte first.
    pub fn readu16(&self, offset: usize) -> (r: u16)
        requires
            self@.wf(),
            offset + 2 <= self@.cap(),
        ensures
            r == u16_le(self@.bytes[offset as int], self@.bytes[offset + 1]),
    {
        let b0 = self.buf[offset];
        let b1 = self.buf[offset + 1];
        b0 as u16 + (b1 as u16) * 0x100
    }

    /// Write a 32-bit value at `offset`, least-significant byte first.
    pub fn writeu32(&mut self, offset: usize, value: u32)
        requires
            old(self)@.wf(),
            offset + 4 <= old(self)@.cap(),
        ensures
            final(self)@.wf(),
            final(self)@.cap() == old(self)@.cap(),
            final(self)@.len == old(self)@.len,
            u32_le(final(self)@.bytes[offset as int], final(self)@.bytes[offset + 1],
                final(self)@.bytes[offset + 2], final(self)@.bytes[offset + 3]) == value,
            forall|i: int| 0 <= i < final(self)@.cap() && !(offset <= i < offset + 4) ==>
                final(self)@.bytes[i] == old(self)@.bytes[i],
    {
        let b0: u8 = (value % 0x100) as u8;
        let b1: u8 = ((value / 0x100) % 0x100) as u8;
        let b2: u8 = ((value / 0x1_0000) % 0x100) as u8;
        let b3: u8 = (value / 0x100_0000) as u8;
        proof {
            let v = value as int;
            assert(v == (v / 0x100) * 0x100 + v % 0x100) by (nonlinear_arith);
            assert(v / 0x100 == ((v / 0x100) / 0x100) * 0x100 + (v / 0x100) % 0x100)
                by (nonlinear_arith);
            assert((v / 0x100) / 0x100 == v / 0x1_0000) by (nonlinear_arith);
            assert(v / 0x1_0000 == ((v / 0x1_0000) / 0x100) * 0x100 + (v / 0x1_0000) % 0x100)
                by (nonlinear_arith);
            assert((v / 0x1_0000) / 0x100 == v / 0x100_0000) by (nonlinear_arith);
            assert(v / 0x100_0000 <= 0xff) by (nonlinear_arith)
                requires 0 <= v <= 0xffff_ffff;
        }
        assert(b0 + b1 * 0x100 + b2 * 0x1_0000 + b3 * 0x100_0000 == value);
        self.buf[offset] = b0;
        self.buf[offset + 1] = b1;
        self.buf[offset + 2] = b2;
        self.buf[offset + 3] = b3;
    }

    /// Read a 32-bit value at `offset`, least-significant byte first.
    pub fn readu32(&self, offset: usize) -> (r: u32)
        requires
            self@.wf(),
            offset + 4 <= self@.cap(),
        ensures
            r == u32_le(self@.bytes[offset as int], self@.bytes[offset + 1],
                self@.bytes[offset + 2], self@.bytes[offset + 3]),
    {
        let b0 = self.buf[offset];
        let b1 = self.buf[offset + 1];
        let b2 = self.buf[offset + 2];
        let b3 = self.buf[offset + 3];
        b0 as u32 + (b1 as u32) * 0x100 + (b2 as u32) * 0x1_0000 + (b3 as u32) * 0x100_0000
    }

    /// Write a signed 8-bit value at `offset`.
    pub fn writei8(&mut self, offset: usize, value: i8)
        requires
            old(self)@.wf(),
            offset + 1 <= old(self)@.cap(),
        ensures
            final(self)@.wf(),
            final(self)@.bytes == old(self)@.bytes.update(offset as int, value as u8),
            final(self)@.len == old(self)@.len,
    {
        self.writeu8(offset, value as u8);
    }

    /// Read a signed 8-bit value at `offset`.
    pub fn readi8(&self, offset: usize) -> (r: i8)
        requires
            self@.wf(),
            offset + 1 <= self@.cap(),
        ensures
            r == self@.bytes[offset as int] as i8,
    {
        self.readu8(offset) as i8
    }

    /// Write a signed 16-bit value at `offset`, least-significant byte first.
    pub fn writei16(&mut self, offset: usize, value: i16)
        requires
            old(self)@.wf(),
            offset + 2 <= old(self)@.cap(),
        ensures
            final(self)@.wf(),
            final(self)@.cap() == old(self)@.cap(),
            final(self)@.len == old(self)@.len,
            u16_le(final(self)@.bytes[offset as int], final(self)@.bytes[offset + 1]) == value as u16,
            forall|i: int| 0 <= i < final(self)@.cap() && !(offset <= i < offset + 2) ==>
                final(self)@.bytes[i] == old(self)@.bytes[i],
    {
        self.writeu16(offset, value as u16);
    }

    /// Read a signed 16-bit value at `offset`, least-significant byte first.
    pub fn readi16(&self, offset: usize) -> (r: i16)
        requires
            self@.wf(),
            offset + 2 <= self@.cap(),
        ensures
            r == u16_le(self@.bytes[offset as int], self@.bytes[offset + 1]) as i16,
    {
        self.readu16(offset) as i16
    }

    /// Write a signed 32-bit value at `offset`, least-significant byte first.
    pub fn writei32(&mut self, offset: usize, value: i32)
        requires
            old(self)@.wf(),
            offset + 4 <= old(self)@.cap(),
        ensures
            final(self)@.wf(),
            final(self)@.cap() == old(self)@.cap(),
            final(self)@.len == old(self)@.len,
            u32_le(final(self)@.bytes[offset as int], final(self)@.bytes[offset + 1],
                final(self)@.bytes[offset + 2], final(self)@.bytes[offset + 3]) == value as u32,
            forall|i: int| 0 <= i < final(self)@.cap() && !(offset <= i < offset + 4) ==>
                final(self)@.bytes[i] == old(self)@.bytes[i],
    {
        self.writeu32(offset, value as u32);
    }

    /// Read a signed 32-bit value at `offset`, least-significant byte first.
    pub fn readi32(&self, offset: usize) -> (r: i32)
        requires
            self@.wf(),
            offset + 4 <= self@.cap(),
        ensures
            r == u32_le(self@.bytes[offset as int], self@.bytes[offset + 1],
                self@.bytes[offset + 2], self@.bytes[offset + 3]) as i32,
    {
        self.readu32(offset) as i32
    }
}

} // verus!
