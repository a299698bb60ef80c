//! Reading integers and byte runs out of a borrowed byte slice.

use crate::encoding::{u16_from_be, u16_from_le, u32_from_be, u32_from_le};
use vstd::prelude::*;

verus! {

/// Simple deserializer over a borrowed byte slice, with a read cursor.
pub struct StreamBufReader<'a> {
    pos: usize,
    buf: &'a [u8],
}

impl<'a> StreamBufReader<'a> {
    /// Where the next read starts.
    pub closed spec fn cursor(&self) -> int {
        self.pos as int
    }

    /// The bytes read from.
    pub closed spec fn bytes(&self) -> Seq<u8> {
        self.buf@
    }

    /// The cursor never passes the end of the buffer.
    #[verifier::type_invariant]
    closed spec fn cursor_in_buffer(&self) -> bool {
        self.pos <= self.buf@.len()
    }

    /// A reader is fixed by its cursor and the bytes it reads from.
    pub proof fn lemma_fixed_by_model(a: Self, b: Self)
        requires
            a.cursor() == b.cursor(),
            a.bytes() == b.bytes(),
        ensures
            a == b,
    {
        assert(a.buf =~= b.buf);
    }

    #[must_use]
    pub fn new(buf: &'a [u8]) -> (r: Self)
        ensures
            r.cursor() == 0,
            r.bytes() == buf@,
    {
        Self { pos: 0, buf }
    }

    #[must_use]
    pub fn get_data(&self) -> (r: &'a [u8])
        ensures
            r@ == self.bytes(),
    {
        self.buf
    }

    #[must_use]
    pub fn get_data_slice(&self) -> (r: &'a [u8])
        ensures
            r@ == self.bytes().subrange(0, self.cursor()),
    {
        proof { use_type_invariant(self); }
        &self.buf[0..self.pos]
    }

    #[must_use]
    pub fn pos(&self) -> (r: usize)
        ensures
            r == self.cursor(),
            r <= self.bytes().len(),
    {
        proof { use_type_invariant(self); }
        self.pos
    }

    pub fn reset(&mut self)
        ensures
            final(self).cursor() == 0,
            final(self).bytes() == old(self).bytes(),
    {
        self.pos = 0;
    }

    #[must_use]
    pub fn is_empty(&self) -> (r: bool)
        ensures
            r == (self.cursor() == 0),
    {
        self.pos == 0
    }

    #[must_use]
    pub fn is_full(&self) -> (r: bool)
        ensures
            r == (self.cursor() >= self.bytes().len()),
    {
        self.pos >= self.buf.len()
    }

    #[must_use]
    pub fn bytes_remaining(&self) -> (r: usize)
        ensures
            r == self.bytes().len() - self.cursor(),
    {
        proof { use_type_invariant(self); }
        self.buf.len() - self.pos
    }

    /// Whether `size` more bytes can be read.
    #[must_use]
    pub fn is_remaining(&self, size: usize) -> (r: bool)
        ensures
            r == (self.cursor() + size <= self.bytes().len()),
    {
        proof { use_type_invariant(self); }
        size <= self.buf.len() - self.pos
    }

    #[must_use]
    pub fn bytes_read(&self) -> (r: usize)
        ensures
            r == self.cursor(),
    {
        self.pos
    }

    /// Move the cursor `n` bytes on, stopping at the end of the buffer.
    pub fn advance(&mut self, n: usize)
        ensures
            final(self).bytes() == old(self).bytes(),
            final(self).cursor() == if old(self).cursor() + n <= old(self).bytes().len() {
                old(self).cursor() + n
            } else {
                old(self).bytes().len() as int
            },
    {
        proof { use_type_invariant(&*self); }
        if n <= self.buf.len() - self.pos {
            self.pos = self.pos + n;
        } else {
            self.pos = self.buf.len();
        }
    }

    #[must_use]
    pub fn get_ref(&self) -> (r: &[u8])
        ensures
            r@ == self.bytes().subrange(0, self.cursor()),
    {
        proof { use_type_invariant(self); }
        &self.buf[0..self.pos]
    }

    #[must_use]
    pub fn at(&self, index: usize) -> (r: u8)
        requires
            index < self.bytes().len(),
        ensures
            r == self.bytes()[index as int],
    {
        self.buf[index]
    }

    /// Return a u8 read from the `StreamBuf`, or 0, with the cursor left
    /// where it was, when no byte is left.
    pub fn read_u8(&mut self) -> (r: u8)
        ensures
            final(self).bytes() == old(self).bytes(),
            old(self).cursor() + 1 <= old(self).bytes().len() ==> {
                &&& r == old(self).bytes()[old(self).cursor()]
                &&& final(self).cursor() == old(self).cursor() + 1
            },
            old(self).cursor() + 1 > old(self).bytes().len() ==> {
                &&& r == 0
                &&& final(self).cursor() == old(self).cursor()
            },
    {
        let read_size: usize = core::mem::size_of::<u8>();
        if !self.is_remaining(read_size) {
            return 0;
        }
        let pos = self.pos;
        self.advance(read_size);
        self.buf[pos]
    }

    /// Return a little-endian u16 read from the `StreamBuf`, or 0, with the
    /// cursor left where it was, when fewer than two bytes are left.
    pub fn read_u16(&mut self) -> (r: u16)
        ensures
            final(self).bytes() == old(self).bytes(),
            old(self).cursor() + 2 <= old(self).bytes().len() ==> {
                &&& r == u16_from_le(
                    old(self).bytes().subrange(old(self).cursor(), old(self).cursor() + 2),
                )
                &&& final(self).cursor() == old(self).cursor() + 2
            },
            old(self).cursor() + 2 > old(self).bytes().len() ==> {
                &&& r == 0
                &&& final(self).cursor() == old(self).cursor()
            },
    {
        let read_size: usize = core::mem::size_of::<u16>();
        if !self.is_remaining(read_size) {
            return 0;
        }
        let pos = self.pos;
        self.advance(read_size);
        let b0 = self.buf[pos] as u16;
        let b1 = self.buf[pos + 1] as u16;
        b0 + b1 * 0x100
    }

    /// Return a little-endian u32 read from the `StreamBuf`, or 0, with the
    /// cursor left where it was, when fewer than four bytes are left.
    pub fn read_u32(&mut self) -> (r: u32)
        ensures
            final(self).bytes() == old(self).bytes(),
            old(self).cursor() + 4 <= old(self).bytes().len() ==> {
                &&& r == u32_from_le(
                    old(self).bytes().subrange(old(self).cursor(), old(self).cursor() + 4),
                )
                &&& final(self).cursor() == old(self).cursor() + 4
            },
            old(self).cursor() + 4 > old(self).bytes().len() ==> {
                &&& r == 0
                &&& final(self).cursor() == old(self).cursor()
            },
    {
        let read_size: usize = core::mem::size_of::<u32>();
        if !self.is_remaining(read_size) {
            return 0;
        }
        let pos = self.pos;
        self.advance(read_size);
        let b0 = self.buf[pos] as u32;
        let b1 = self.buf[pos + 1] as u32;
        let b2 = self.buf[pos + 2] as u32;
        let b3 = self.buf[pos + 3] as u32;
        b0 + b1 * 0x100 + b2 * 0x1_0000 + b3 * 0x100_0000
    }

    /// Return a big-endian u16 read from the `StreamBuf`, or 0, with the
    /// cursor left where it was, when fewer than two bytes are left.
    pub fn read_u16_big_endian(&mut self) -> (r: u16)
        ensures
            final(self).bytes() == old(self).bytes(),
            old(self).cursor() + 2 <= old(self).bytes().len() ==> {
                &&& r == u16_from_be(
                    old(self).bytes().subrange(old(self).cursor(), old(self).cursor() + 2),
                )
                &&& final(self).cursor() == old(self).cursor() + 2
            },
            old(self).cursor() + 2 > old(self).bytes().len() ==> {
                &&& r == 0
                &&& final(self).cursor() == old(self).cursor()
            },
    {
        let read_size: usize = core::mem::size_of::<u16>();
        if !self.is_remaining(read_size) {
            return 0;
        }
        let pos = self.pos;
        self.advance(read_size);
        let b0 = self.buf[pos] as u16;
        let b1 = self.buf[pos + 1] as u16;
        b0 * 0x100 + b1
    }

    /// Return a big-endian u32 read from the `StreamBuf`, or 0, with the
    /// cursor left where it was, when fewer than four bytes are left.
    pub fn read_u32_big_endian(&mut self) -> (r: u32)
        ensures
            final(self).bytes() == old(self).bytes(),
            old(self).cursor() + 4 <= old(self).bytes().len() ==> {
                &&& r == u32_from_be(
                    old(self).bytes().subrange(old(self).cursor(), old(self).cursor() + 4),
                )
                &&& final(self).cursor() == old(self).cursor() + 4
            },
            old(self).cursor() + 4 > old(self).bytes().len() ==> {
                &&& r == 0
                &&& final(self).cursor() == old(self).cursor()
            },
    {
        let read_size: usize = core::mem::size_of::<u32>();
        if !self.is_remaining(read_size) {
            return 0;
        }
        let pos = self.pos;
        self.advance(read_size);
        let b0 = self.buf[pos] as u32;
        let b1 = self.buf[pos + 1] as u32;
        let b2 = self.buf[pos + 2] as u32;
        let b3 = self.buf[pos + 3] as u32;
        b0 * 0x100_0000 + b1 * 0x1_0000 + b2 * 0x100 + b3
    }

    /// Fill `dst` with the next `dst.len()` bytes and return that length;
    /// when fewer are left, return 0 and change nothing.
    pub fn read(&mut self, dst: &mut [u8]) -> (r: usize)
        ensures
            final(self).bytes() == old(self).bytes(),
            final(dst)@.len() == old(dst)@.len(),
            old(self).cursor() + old(dst)@.len() <= old(self).bytes().len() ==> {
                &&& r == old(dst)@.len()
                &&& final(dst)@ == old(self).bytes().subrange(
                    old(self).cursor(),
                    old(self).cursor() + old(dst)@.len(),
                )
                &&& final(self).cursor() == old(self).cursor() + old(dst)@.len()
            },
            old(self).cursor() + old(dst)@.len() > old(self).bytes().len() ==> {
                &&& r == 0
                &&& final(dst)@ == old(dst)@
                &&& final(self).cursor() == old(self).cursor()
            },
    {
        let read_size = dst.len();
        if !self.is_remaining(read_size) {
            return 0;
        }
        proof { use_type_invariant(&*self); }
        let blen = self.buf.len();
        let pos = self.pos;
        let mut i: usize = 0;
        while i < read_size
            invariant
                blen == self.buf@.len(),
                0 <= i <= read_size,
                read_size == dst@.len(),
                pos + read_size <= self.buf@.len(),
                forall|k: int| 0 <= k < i ==> dst@[k] == self.buf@[pos + k],
            decreases read_size - i,
        {
            dst[i] = self.buf[pos + i];
            i = i + 1;
        }
        assert(dst@ =~= self.buf@.subrange(pos as int, pos + read_size));
        self.pos = pos + read_size;
        read_size
    }
}

/// Access `stream_buf` component by index.
impl<'a> core::ops::Index<usize> for StreamBufReader<'a> {
    type Output = u8;

    fn index(&self, index: usize) -> (r: &u8)
        ensures
            *r == self.bytes()[index as int],
    {
        &self.buf[index]
    }
}

impl<'a> vstd::std_specs::core::IndexSpecImpl<usize> for StreamBufReader<'a> {
    open spec fn index_req(&self, index: &usize) -> bool {
        *index < self.bytes().len()
    }
}

} // verus!
