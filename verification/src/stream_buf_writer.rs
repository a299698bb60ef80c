//! Writing integers, byte runs and strings into a borrowed mutable byte slice.

use crate::encoding::{
    repeat_byte, splice, u16_be_bytes, u16_le_bytes, u32_be_bytes, u32_le_bytes,
};
use crate::stream_buf_reader::StreamBufReader;
use vstd::prelude::*;
use vstd::string::StringSliceAdditionalSpecFns;

verus! {

/// Simple serializer over a borrowed mutable byte slice, with a write cursor.
pub struct StreamBufWriter<'a> {
    pos: usize,
    buf: &'a mut [u8],
}

impl<'a> StreamBufWriter<'a> {
    /// Where the next write starts.
    pub closed spec fn cursor(&self) -> int {
        self.pos as int
    }

    /// The buffer's current contents.
    pub closed spec fn bytes(&self) -> Seq<u8> {
        self.buf@
    }

    /// The caller's buffer that this writer writes into.
    pub closed spec fn target(&self) -> &'a mut [u8] {
        self.buf
    }

    /// Once a writer is done with, the caller's buffer holds what the
    /// writer last held.
    pub proof fn lemma_done(w: Self)
        requires
            has_resolved(w),
        ensures
            w.bytes() == final(w.target())@,
    {
    }

    /// The cursor never passes the end of the buffer.
    #[verifier::type_invariant]
    closed spec fn cursor_in_buffer(&self) -> bool {
        self.pos <= self.buf@.len()
    }

    pub fn new(buf: &'a mut [u8]) -> (r: Self)
        ensures
            r.cursor() == 0,
            r.bytes() == old(buf)@,
            final(r.target())@ == final(buf)@,
    {
        Self { pos: 0, buf }
    }

    pub fn get_data(&self) -> (r: &[u8])
        ensures
            r@ == self.bytes(),
    {
        &*self.buf
    }

    pub fn get_data_slice(&self) -> (r: &[u8])
        ensures
            r@ == self.bytes().subrange(0, self.cursor()),
    {
        proof { use_type_invariant(self); }
        &self.buf[0..self.pos]
    }

    pub fn pos(&self) -> (r: usize)
        ensures
            r == self.cursor(),
            r <= self.bytes().len(),
    {
        proof { use_type_invariant(self); }
        self.pos
    }

    pub fn reset(&mut self)
        ensures
            final(final(self).target())@ == final(old(self).target())@,
            final(self).cursor() == 0,
            final(self).bytes() == old(self).bytes(),
    {
        self.pos = 0;
    }

    pub fn is_empty(&self) -> (r: bool)
        ensures
            r == (self.cursor() == 0),
    {
        self.pos == 0
    }

    pub fn is_full(&self) -> (r: bool)
        ensures
            r == (self.cursor() >= self.bytes().len()),
    {
        self.pos >= self.buf.len()
    }

    pub fn bytes_remaining(&self) -> (r: usize)
        ensures
            r == self.bytes().len() - self.cursor(),
    {
        proof { use_type_invariant(self); }
        self.buf.len() - self.pos
    }

    /// Whether `size` more bytes can be written.
    pub fn is_available(&self, size: usize) -> (r: bool)
        ensures
            r == (self.cursor() + size <= self.bytes().len()),
    {
        proof { use_type_invariant(self); }
        size <= self.buf.len() - self.pos
    }

    pub fn bytes_written(&self) -> (r: usize)
        ensures
            r == self.cursor(),
    {
        self.pos
    }

    /// Move the cursor `n` bytes on, stopping at the end of the buffer.
    pub fn advance(&mut self, n: usize)
        ensures
            final(final(self).target())@ == final(old(self).target())@,
            final(self).bytes() == old(self).bytes(),
            final(self).cursor() == if old(self).cursor() + n <= old(self).bytes().len() {
                old(self).cursor() + n
            } else {
                old(self).bytes().len() as int
            },
    {
        proof { use_type_invariant(&*self); }
        if n <= self.buf.len() - self.pos {
            self.pos = self.pos + n;
        } else {
            self.pos = self.buf.len();
        }
    }

    pub fn get_ref(&self) -> (r: &[u8])
        ensures
            r@ == self.bytes().subrange(0, self.cursor()),
    {
        proof { use_type_invariant(self); }
        &self.buf[0..self.pos]
    }

    pub fn at(&self, index: usize) -> (r: u8)
        requires
            index < self.bytes().len(),
        ensures
            r == self.bytes()[index as int],
    {
        self.buf[index]
    }

    /// Set the byte at `index`, leaving the cursor where it is.
    pub fn set(&mut self, index: usize, value: u8)
        requires
            index < old(self).bytes().len(),
        ensures
            final(self).bytes() == old(self).bytes().update(index as int, value),
            final(self).cursor() == old(self).cursor(),
    {
        proof { use_type_invariant(&*self); }
        self.buf[index] = value;
    }

    /// Lay `src` over the buffer at the cursor and move past it.
    fn put_bytes(&mut self, src: &[u8])
        requires
            old(self).cursor() + src@.len() <= old(self).bytes().len(),
        ensures
            final(final(self).target())@ == final(old(self).target())@,
            final(self).bytes() == splice(old(self).bytes(), old(self).cursor(), src@),
            final(self).cursor() == old(self).cursor() + src@.len(),
    {
        proof { use_type_invariant(&*self); }
        let pos = self.pos;
        let n = src.len();
        let blen = self.buf.len();
        let ghost before = self.buf@;
        let mut i: usize = 0;
        while i < n
            invariant
                blen == self.buf@.len(),
                0 <= i <= n,
                n == src@.len(),
                self.pos == pos,
                final(self.buf)@ == final(old(self).target())@,
                pos + n <= self.buf@.len(),
                self.buf@.len() == before.len(),
                forall|k: int| 0 <= k < pos ==> self.buf@[k] == before[k],
                forall|k: int| pos + n <= k < before.len() ==> self.buf@[k] == before[k],
                forall|k: int| 0 <= k < i ==> self.buf@[pos + k] == src@[k],
                forall|k: int| pos + i <= k < pos + n ==> self.buf@[k] == before[k],
            decreases n - i,
        {
            self.buf[pos + i] = src[i];
            i = i + 1;
        }
        assert(self.buf@ =~= splice(before, pos as int, src@));
        self.pos = pos + n;
    }

    /// Write a byte; when the buffer is full, do nothing.
    pub fn write_u8(&mut self, value: u8)
        ensures
            final(final(self).target())@ == final(old(self).target())@,
            old(self).cursor() + 1 <= old(self).bytes().len() ==> {
                &&& final(self).bytes() == old(self).bytes().update(old(self).cursor(), value)
                &&& final(self).cursor() == old(self).cursor() + 1
            },
            old(self).cursor() + 1 > old(self).bytes().len() ==> *final(self) == *old(self),
    {
        let write_size: usize = core::mem::size_of::<u8>();
        if self.is_available(write_size) {
            self.buf[self.pos] = value;
            self.pos = self.pos + 1;
        }
    }

    /// Write a little-endian u16; when fewer than two bytes are free, do nothing.
    pub fn write_u16(&mut self, value: u16)
        ensures
            final(final(self).target())@ == final(old(self).target())@,
            old(self).cursor() + 2 <= old(self).bytes().len() ==> {
                &&& final(self).bytes() == splice(old(self).bytes(), old(self).cursor(), u16_le_bytes(value))
                &&& final(self).cursor() == old(self).cursor() + 2
            },
            old(self).cursor() + 2 > old(self).bytes().len() ==> *final(self) == *old(self),
    {
        let write_size: usize = core::mem::size_of::<u16>();
        if self.is_available(write_size) {
            proof { use_type_invariant(&*self); }
            let ghost before = self.buf@;
            let pos = self.pos;
            self.buf[pos] = (value % 0x100) as u8;
            self.buf[pos + 1] = (value / 0x100) as u8;
            self.pos = pos + 2;
            assert(self.buf@ =~= splice(before, pos as int, u16_le_bytes(value)));
        }
    }

    /// Write a little-endian u32; when fewer than four bytes are free, do nothing.
    pub fn write_u32(&mut self, value: u32)
        ensures
            final(final(self).target())@ == final(old(self).target())@,
            old(self).cursor() + 4 <= old(self).bytes().len() ==> {
                &&& final(self).bytes() == splice(old(self).bytes(), old(self).cursor(), u32_le_bytes(value))
                &&& final(self).cursor() == old(self).cursor() + 4
            },
            old(self).cursor() + 4 > old(self).bytes().len() ==> *final(self) == *old(self),
    {
        let write_size: usize = core::mem::size_of::<u32>();
        if self.is_available(write_size) {
            proof { use_type_invariant(&*self); }
            let ghost before = self.buf@;
            let pos = self.pos;
            self.buf[pos] = (value % 0x100) as u8;
            self.buf[pos + 1] = ((value / 0x100) % 0x100) as u8;
            self.buf[pos + 2] = ((value / 0x1_0000) % 0x100) as u8;
            self.buf[pos + 3] = (value / 0x100_0000) as u8;
            self.pos = pos + 4;
            assert(self.buf@ =~= splice(before, pos as int, u32_le_bytes(value)));
        }
    }

    /// Write a big-endian u16; when fewer than two bytes are free, do nothing.
    pub fn write_u16_big_endian(&mut self, value: u16)
        ensures
            final(final(self).target())@ == final(old(self).target())@,
            old(self).cursor() + 2 <= old(self).bytes().len() ==> {
                &&& final(self).bytes() == splice(old(self).bytes(), old(self).cursor(), u16_be_bytes(value))
                &&& final(self).cursor() == old(self).cursor() + 2
            },
            old(self).cursor() + 2 > old(self).bytes().len() ==> *final(self) == *old(self),
    {
        let write_size: usize = core::mem::size_of::<u16>();
        if self.is_available(write_size) {
            proof { use_type_invariant(&*self); }
            let ghost before = self.buf@;
            let pos = self.pos;
            self.buf[pos] = (value / 0x100) as u8;
            self.buf[pos + 1] = (value % 0x100) as u8;
            self.pos = pos + 2;
            assert(self.buf@ =~= splice(before, pos as int, u16_be_bytes(value)));
        }
    }

    /// Write a big-endian u32; when fewer than four bytes are free, do nothing.
    pub fn write_u32_big_endian(&mut self, value: u32)
        ensures
            final(final(self).target())@ == final(old(self).target())@,
            old(self).cursor() + 4 <= old(self).bytes().len() ==> {
                &&& final(self).bytes() == splice(old(self).bytes(), old(self).cursor(), u32_be_bytes(value))
                &&& final(self).cursor() == old(self).cursor() + 4
            },
            old(self).cursor() + 4 > old(self).bytes().len() ==> *final(self) == *old(self),
    {
        let write_size: usize = core::mem::size_of::<u32>();
        if self.is_available(write_size) {
            proof { use_type_invariant(&*self); }
            let ghost before = self.buf@;
            let pos = self.pos;
            self.buf[pos] = (value / 0x100_0000) as u8;
            self.buf[pos + 1] = ((value / 0x1_0000) % 0x100) as u8;
            self.buf[pos + 2] = ((value / 0x100) % 0x100) as u8;
            self.buf[pos + 3] = (value % 0x100) as u8;
            self.pos = pos + 4;
            assert(self.buf@ =~= splice(before, pos as int, u32_be_bytes(value)));
        }
    }

    /// Set the `len` bytes from the cursor on to `data` and report `true`,
    /// leaving the cursor where it is; when fewer are free, report `false`
    /// and change nothing.
    pub fn fill_without_advancing(&mut self, data: u8, len: usize) -> (r: bool)
        ensures
            final(final(self).target())@ == final(old(self).target())@,
            r == (old(self).cursor() + len <= old(self).bytes().len()),
            r ==> final(self).bytes() == splice(old(self).bytes(), old(self).cursor(), repeat_byte(data, len as nat)),
            final(self).cursor() == old(self).cursor(),
            !r ==> *final(self) == *old(self),
    {
        proof { use_type_invariant(&*self); }
        if len > self.buf.len() - self.pos {
            return false;
        }
        let pos = self.pos;
        let blen = self.buf.len();
        let ghost before = self.buf@;
        let mut i: usize = 0;
        while i < len
            invariant
                0 <= i <= len,
                blen == self.buf@.len(),
                self.pos == pos,
                final(self.buf)@ == final(old(self).target())@,
                pos + len <= blen,
                self.buf@.len() == before.len(),
                forall|k: int| 0 <= k < pos ==> self.buf@[k] == before[k],
                forall|k: int| pos + len <= k < before.len() ==> self.buf@[k] == before[k],
                forall|k: int| pos <= k < pos + i ==> self.buf@[k] == data,
            decreases len - i,
        {
            self.buf[pos + i] = data;
            i = i + 1;
        }
        assert(self.buf@ =~= splice(before, pos as int, repeat_byte(data, len as nat)));
        true
    }

    /// Set the `len` bytes from the cursor on to `data` and move past them;
    /// when fewer are free, do nothing.
    pub fn fill(&mut self, data: u8, len: usize)
        ensures
            final(final(self).target())@ == final(old(self).target())@,
            old(self).cursor() + len <= old(self).bytes().len() ==> {
                &&& final(self).bytes() == splice(old(self).bytes(), old(self).cursor(), repeat_byte(data, len as nat))
                &&& final(self).cursor() == old(self).cursor() + len
            },
            old(self).cursor() + len > old(self).bytes().len() ==> *final(self) == *old(self),
    {
        if self.fill_without_advancing(data, len) {
            let blen = self.buf.len();
            self.pos = self.pos + len;
        }
    }

    /// Copy `src` in at the cursor, move past it and return its length;
    /// when fewer bytes are free, return 0 and change nothing.
    pub fn write(&mut self, src: &[u8]) -> (r: usize)
        ensures
            final(final(self).target())@ == final(old(self).target())@,
            old(self).cursor() + src@.len() <= old(self).bytes().len() ==> {
                &&& r == src@.len()
                &&& final(self).bytes() == splice(old(self).bytes(), old(self).cursor(), src@)
                &&& final(self).cursor() == old(self).cursor() + src@.len()
            },
            old(self).cursor() + src@.len() > old(self).bytes().len() ==> {
                &&& r == 0
                &&& *final(self) == *old(self)
            },
    {
        let write_size = src.len();
        if self.is_available(write_size) {
            self.put_bytes(src);
            return write_size;
        }
        0
    }

    /// Copy the UTF-8 bytes of `src` in at the cursor, move past them and
    /// return their number; when fewer bytes are free, return 0 and change
    /// nothing.
    pub fn write_str(&mut self, src: &str) -> (r: usize)
        ensures
            final(final(self).target())@ == final(old(self).target())@,
            old(self).cursor() + src.spec_bytes().len() <= old(self).bytes().len() ==> {
                &&& r == src.spec_bytes().len()
                &&& final(self).bytes() == splice(old(self).bytes(), old(self).cursor(), src.spec_bytes())
                &&& final(self).cursor() == old(self).cursor() + src.spec_bytes().len()
            },
            old(self).cursor() + src.spec_bytes().len() > old(self).bytes().len() ==> {
                &&& r == 0
                &&& *final(self) == *old(self)
            },
    {
        let bytes = src.as_bytes();
        let write_size = bytes.len();
        if self.is_available(write_size) {
            self.put_bytes(bytes);
            return write_size;
        }
        0
    }

    /// Copy the UTF-8 bytes of `src` and a zero byte after them in at the
    /// cursor, move past them and return their number; when fewer bytes are
    /// free, return 0 and change nothing.
    pub fn write_str_with_zero_terminator(&mut self, src: &str) -> (r: usize)
        ensures
            final(final(self).target())@ == final(old(self).target())@,
            old(self).cursor() + src.spec_bytes().len() + 1 <= old(self).bytes().len() ==> {
                &&& r == src.spec_bytes().len() + 1
                &&& final(self).bytes() == splice(old(self).bytes(), old(self).cursor(), src.spec_bytes().push(0))
                &&& final(self).cursor() == old(self).cursor() + src.spec_bytes().len() + 1
            },
            old(self).cursor() + src.spec_bytes().len() + 1 > old(self).bytes().len() ==> {
                &&& r == 0
                &&& *final(self) == *old(self)
            },
    {
        proof { use_type_invariant(&*self); }
        let len = src.as_bytes().len();
        if len < self.buf.len() - self.pos {
            let ghost before = self.buf@;
            let ghost at = self.pos as int;
            let _ = self.write_str(src);
            self.write_u8(0);
            assert(self.buf@ =~= splice(before, at, src.spec_bytes().push(0)));
            return len + 1;
        }
        0
    }
}

/// Access `StreamBufWriter` component by index.
impl<'a> core::ops::Index<usize> for StreamBufWriter<'a> {
    type Output = u8;

    fn index(&self, index: usize) -> (r: &u8)
        ensures
            *r == self.bytes()[index as int],
    {
        &self.buf[index]
    }
}

impl<'a> vstd::std_specs::core::IndexSpecImpl<usize> for StreamBufWriter<'a> {
    open spec fn index_req(&self, index: &usize) -> bool {
        *index < self.bytes().len()
    }
}

/// A reader over what a writer has written so far, from its start.
impl<'a> From<StreamBufWriter<'a>> for StreamBufReader<'a> {
    fn from(sbuf: StreamBufWriter<'a>) -> (r: Self)
        ensures
            r.cursor() == 0,
            r.bytes() == sbuf.bytes().subrange(0, sbuf.cursor()),
            sbuf.bytes() == final(sbuf.target())@,
    {
        proof { use_type_invariant(&sbuf); }
        let n = sbuf.pos;
        let buf: &'a [u8] = sbuf.buf;
        let r = Self::new(&buf[0..n]);
        proof {
            let spec_r = choose|c: Self| c.cursor() == 0 && c.bytes() == sbuf.bytes().subrange(0, sbuf.cursor());
            Self::lemma_fixed_by_model(r, spec_r);
        }
        r
    }
}

impl<'a> vstd::std_specs::convert::FromSpecImpl<StreamBufWriter<'a>> for StreamBufReader<'a> {
    open spec fn obeys_from_spec() -> bool {
        true
    }

    open spec fn from_spec(sbuf: StreamBufWriter<'a>) -> Self {
        choose|r: Self| r.cursor() == 0 && r.bytes() == sbuf.bytes().subrange(0, sbuf.cursor())
    }
}

} // verus!
