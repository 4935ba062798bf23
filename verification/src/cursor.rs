//! A cursor over a DNS message buffer. All decoding walks a message through
//! one of these; big-endian integer reads are built from single byte reads.

use vstd::prelude::*;

verus! {

/// The value of two bytes read big-endian.
pub open spec fn be16(hi: u8, lo: u8) -> u16 {
    ((hi as int) * 0x100 + (lo as int)) as u16
}

/// The value of four bytes read big-endian.
pub open spec fn be32(b0: u8, b1: u8, b2: u8, b3: u8) -> u32 {
    ((b0 as int) * 0x1000000 + (b1 as int) * 0x10000 + (b2 as int) * 0x100 + (b3 as int)) as u32
}

/// One byte read at `pos`: the byte and the position after it, or `None` when
/// the buffer is exhausted.
pub open spec fn spec_read_u8(data: Seq<u8>, pos: int) -> Option<(u8, int)> {
    if 0 <= pos && pos + 1 <= data.len() {
        Some((data[pos], pos + 1))
    } else {
        None
    }
}

/// A 16-bit big-endian read at `pos`.
pub open spec fn spec_read_u16(data: Seq<u8>, pos: int) -> Option<(u16, int)> {
    if 0 <= pos && pos + 2 <= data.len() {
        Some((be16(data[pos], data[pos + 1]), pos + 2))
    } else {
        None
    }
}

/// A 32-bit big-endian read at `pos`.
pub open spec fn spec_read_u32(data: Seq<u8>, pos: int) -> Option<(u32, int)> {
    if 0 <= pos && pos + 4 <= data.len() {
        Some((be32(data[pos], data[pos + 1], data[pos + 2], data[pos + 3]), pos + 4))
    } else {
        None
    }
}

/// A read of exactly `n` bytes at `pos`.
pub open spec fn spec_read_bytes(data: Seq<u8>, pos: int, n: int) -> Option<(Seq<u8>, int)> {
    if 0 <= pos && 0 <= n && pos + n <= data.len() {
        Some((data.subrange(pos, pos + n), pos + n))
    } else {
        None
    }
}

/// A position in a DNS message buffer. The buffer itself never changes while
/// a cursor walks it; reads advance the position on success and leave it in
/// place on failure, so a caller always knows the offset a failure names.
pub struct Cursor {
    pub data: Vec<u8>,
    pub pos: usize,
}

impl Cursor {
    /// The whole message buffer under the cursor.
    pub open spec fn spec_data(&self) -> Seq<u8> {
        self.data@
    }

    /// The current read position.
    pub open spec fn spec_pos(&self) -> int {
        self.pos as int
    }

    /// A cursor over a copy of `data`, positioned at its start.
    pub fn new(data: &[u8]) -> (c: Cursor)
        ensures
            c.spec_data() == data@,
            c.spec_pos() == 0,
    {
        Cursor { data: vstd::slice::slice_to_vec(data), pos: 0 }
    }

    /// The current read position.
    pub fn position(&self) -> (p: usize)
        ensures
            p as int == self.spec_pos(),
    {
        self.pos
    }

    /// Move the cursor to an absolute position inside the buffer.
    pub fn set_position(&mut self, pos: usize)
        requires
            pos as int <= old(self).spec_data().len(),
        ensures
            final(self).spec_data() == old(self).spec_data(),
            final(self).spec_pos() == pos as int,
    {
        self.pos = pos;
    }

    /// Read one byte and advance past it.
    pub fn read_u8(&mut self) -> (r: Option<u8>)
        ensures
            final(self).spec_data() == old(self).spec_data(),
            match spec_read_u8(old(self).spec_data(), old(self).spec_pos()) {
                Some((v, p)) => r == Some(v) && final(self).spec_pos() == p,
                None => r is None && final(self).spec_pos() == old(self).spec_pos(),
            },
    {
        if self.pos < self.data.len() {
            let b = self.data[self.pos];
            self.pos = self.pos + 1;
            Some(b)
        } else {
            None
        }
    }

    /// Read a 16-bit big-endian integer and advance past it.
    pub fn read_u16_be(&mut self) -> (r: Option<u16>)
        ensures
            final(self).spec_data() == old(self).spec_data(),
            match spec_read_u16(old(self).spec_data(), old(self).spec_pos()) {
                Some((v, p)) => r == Some(v) && final(self).spec_pos() == p,
                None => r is None && final(self).spec_pos() == old(self).spec_pos(),
            },
    {
        if self.pos < self.data.len() && 2 <= self.data.len() - self.pos {
            let hi = self.data[self.pos];
            let lo = self.data[self.pos + 1];
            self.pos = self.pos + 2;
            Some((hi as u16) * 0x100 + (lo as u16))
        } else {
            None
        }
    }

    /// Read a 32-bit big-endian integer and advance past it.
    pub fn read_u32_be(&mut self) -> (r: Option<u32>)
        ensures
            final(self).spec_data() == old(self).spec_data(),
            match spec_read_u32(old(self).spec_data(), old(self).spec_pos()) {
                Some((v, p)) => r == Some(v) && final(self).spec_pos() == p,
                None => r is None && final(self).spec_pos() == old(self).spec_pos(),
            },
    {
        if self.pos < self.data.len() && 4 <= self.data.len() - self.pos {
            let b0 = self.data[self.pos];
            let b1 = self.data[self.pos + 1];
            let b2 = self.data[self.pos + 2];
            let b3 = self.data[self.pos + 3];
            self.pos = self.pos + 4;
            Some((b0 as u32) * 0x1000000 + (b1 as u32) * 0x10000 + (b2 as u32) * 0x100 + (b3 as u32))
        } else {
            None
        }
    }

    /// Read exactly `n` bytes and advance past them.
    pub fn read_bytes(&mut self, n: usize) -> (r: Option<Vec<u8>>)
        ensures
            final(self).spec_data() == old(self).spec_data(),
            match spec_read_bytes(old(self).spec_data(), old(self).spec_pos(), n as int) {
                Some((v, p)) => {
                    &&& r is Some
                    &&& r.unwrap()@ == v
                    &&& final(self).spec_pos() == p
                },
                None => r is None && final(self).spec_pos() == old(self).spec_pos(),
            },
    {
        if self.pos <= self.data.len() && n <= self.data.len() - self.pos {
            let mut out: Vec<u8> = Vec::new();
            let mut i: usize = 0;
            while i < n
                invariant
                    self.pos + n <= self.data.len(),
                    i <= n,
                    out@ == self.data@.subrange(self.pos as int, self.pos + i as int),
                decreases n - i,
            {
                out.push(self.data[self.pos + i]);
                proof {
                    assert(out@ =~= self.data@.subrange(self.pos as int, self.pos + (i + 1) as int));
                }
                i = i + 1;
            }
            self.pos = self.pos + n;
            Some(out)
        } else {
            None
        }
    }
}

} // verus!
