use crate::model::{CursorView, OutOfBounds};
use vstd::prelude::*;
use crate::dump::{dump_text, render};
use vstd::slice::{slice_subrange, slice_to_vec};

verus! {

/// A read position over a borrowed byte sequence.
///
/// The whole sequence is kept, so that the cursor can move back and be reset;
/// `pos` is the number of bytes consumed.
pub struct ByteCode<'a> {
    inner: &'a [u8],
    pos: usize,
}

impl<'a> View for ByteCode<'a> {
    type V = CursorView;

    closed spec fn view(&self) -> CursorView {
        CursorView { data: self.inner@, pos: self.pos as nat }
    }
}

impl<'a> ByteCode<'a> {
    #[verifier::type_invariant]
    spec fn inv(&self) -> bool {
        self.pos <= self.inner@.len()
    }

    /// Creates a cursor at the start of `slice`.
    pub fn new(slice: &'a [u8]) -> (r: Self)
        ensures
            r@ == (CursorView { data: slice@, pos: 0 }),
    {
        ByteCode { inner: slice, pos: 0 }
    }

    /// The bytes not yet consumed.
    pub fn as_slice(&self) -> (r: &'a [u8])
        ensures
            r@ == self@.remaining(),
    {
        proof {
            use_type_invariant(self);
        }
        slice_subrange(self.inner, self.pos, self.inner.len())
    }

    /// The length of the whole sequence, consumed bytes included.
    pub fn len(&self) -> (r: usize)
        ensures
            r == self@.data.len(),
            self@.wf(),
    {
        proof {
            use_type_invariant(self);
        }
        self.inner.len()
    }

    /// The number of bytes consumed.
    pub fn pos(&self) -> (r: usize)
        ensures
            r == self@.pos,
            self@.wf(),
    {
        proof {
            use_type_invariant(self);
        }
        self.pos
    }

    /// Moves back to the start of the sequence.
    pub fn reset(&mut self)
        ensures
            final(self)@ == old(self)@.reset(),
    {
        self.pos = 0;
    }

    /// Whether every byte has been consumed.
    pub fn is_end(&self) -> (r: bool)
        ensures
            r == self@.is_end(),
    {
        self.pos == self.inner.len()
    }

    /// Moves forward by `num` bytes; fails, and stays put, when fewer remain.
    pub fn skip(&mut self, num: usize) -> (r: Result<(), OutOfBounds>)
        ensures
            match old(self)@.skip(num as nat) {
                Ok(next) => r is Ok && final(self)@ == next,
                Err(e) => r == Err::<(), OutOfBounds>(e) && final(self)@ == old(self)@,
            },
    {
        proof {
            use_type_invariant(&*self);
        }
        if num > self.inner.len() - self.pos {
            return Err(OutOfBounds);
        }
        self.pos = self.pos + num;
        Ok(())
    }

    /// Moves back by `num` bytes; fails, and stays put, when fewer were consumed.
    pub fn retreat(&mut self, num: usize) -> (r: Result<(), OutOfBounds>)
        ensures
            match old(self)@.retreat(num as nat) {
                Ok(next) => r is Ok && final(self)@ == next,
                Err(e) => r == Err::<(), OutOfBounds>(e) && final(self)@ == old(self)@,
            },
    {
        proof {
            use_type_invariant(&*self);
        }
        if num > self.pos {
            return Err(OutOfBounds);
        }
        self.pos = self.pos - num;
        Ok(())
    }

    /// Moves forward by one byte.
    pub fn next(&mut self) -> (r: Result<(), OutOfBounds>)
        ensures
            match old(self)@.skip(1) {
                Ok(next) => r is Ok && final(self)@ == next,
                Err(e) => r == Err::<(), OutOfBounds>(e) && final(self)@ == old(self)@,
            },
    {
        self.skip(1)
    }

    /// Moves back by one byte.
    pub fn prev(&mut self) -> (r: Result<(), OutOfBounds>)
        ensures
            match old(self)@.retreat(1) {
                Ok(next) => r is Ok && final(self)@ == next,
                Err(e) => r == Err::<(), OutOfBounds>(e) && final(self)@ == old(self)@,
            },
    {
        self.retreat(1)
    }

    /// The next `num` bytes, without moving.
    pub fn peek(&self, num: usize) -> (r: Result<&'a [u8], OutOfBounds>)
        ensures
            match r {
                Ok(b) => self@.peek(num as nat) == Ok::<Seq<u8>, OutOfBounds>(b@),
                Err(e) => self@.peek(num as nat) == Err::<Seq<u8>, OutOfBounds>(e),
            },
    {
        proof {
            use_type_invariant(self);
        }
        if num > self.inner.len() - self.pos {
            return Err(OutOfBounds);
        }
        let r = slice_subrange(self.inner, self.pos, self.pos + num);
        assert(r@ == self@.remaining().take(num as int));
        Ok(r)
    }

    /// Whether the unread bytes begin with `pattern`. A pattern longer than
    /// what is left is out of bounds, as it is for [`ByteCode::peek`].
    pub fn starts_with(&self, pattern: &[u8]) -> (r: Result<bool, OutOfBounds>)
        ensures
            r == self@.starts_with(pattern@),
    {
        let prefix = self.peek(pattern.len())?;
        let mut i: usize = 0;
        while i < pattern.len()
            invariant
                self@.peek(pattern@.len()) == Ok::<Seq<u8>, OutOfBounds>(prefix@),
                prefix@.len() == pattern@.len(),
                0 <= i <= pattern@.len(),
                forall|j: int| 0 <= j < i ==> prefix@[j] == pattern@[j],
            decreases pattern@.len() - i,
        {
            if prefix[i] != pattern[i] {
                assert(prefix@[i as int] != pattern@[i as int]);
                return Ok(false);
            }
            i = i + 1;
        }
        assert(prefix@ == pattern@);
        Ok(true)
    }

    /// A copy of the next `num` bytes; moves past them.
    pub fn take(&mut self, num: usize) -> (r: Result<Vec<u8>, OutOfBounds>)
        ensures
            match old(self)@.take(num as nat) {
                Ok((b, next)) => r is Ok && r->Ok_0@ == b && final(self)@ == next,
                Err(e) => r == Err::<Vec<u8>, OutOfBounds>(e) && final(self)@ == old(self)@,
            },
    {
        proof {
            use_type_invariant(&*self);
        }
        let bytes = slice_to_vec(self.peek(num)?);
        assert(bytes@ =~= self@.data.subrange(self@.pos as int, self@.pos + num));
        self.skip(num)?;
        Ok(bytes)
    }

    /// The next two bytes as a big-endian `u16`; moves past them.
    pub fn take_into_u16(&mut self) -> (r: Result<u16, OutOfBounds>)
        ensures
            match old(self)@.take_u16() {
                Ok((v, next)) => r == Ok::<u16, OutOfBounds>(v) && final(self)@ == next,
                Err(e) => r == Err::<u16, OutOfBounds>(e) && final(self)@ == old(self)@,
            },
    {
        let b = self.take(2)?;
        Ok(b[0] as u16 * 0x100 + b[1] as u16)
    }

    /// The next four bytes as a big-endian `u32`; moves past them.
    pub fn take_into_u32(&mut self) -> (r: Result<u32, OutOfBounds>)
        ensures
            match old(self)@.take_u32() {
                Ok((v, next)) => r == Ok::<u32, OutOfBounds>(v) && final(self)@ == next,
                Err(e) => r == Err::<u32, OutOfBounds>(e) && final(self)@ == old(self)@,
            },
    {
        let b = self.take(4)?;
        Ok(b[0] as u32 * 0x100_0000 + b[1] as u32 * 0x1_0000 + b[2] as u32 * 0x100 + b[3] as u32)
    }

    /// A hex dump of the whole sequence: a heading, then rows of sixteen
    /// bytes, each row led by the offset of its first byte; the next byte to
    /// read is green. Offsets take eight digits, which bounds the length.
    pub fn hex_dump(&self) -> (r: String)
        requires
            self@.data.len() <= 0x1_0000_0000,
        ensures
            r@ == dump_text(self@),
    {
        render(self.inner, self.pos)
    }

    /// The unread byte at offset `i`.
    pub fn get(&self, i: usize) -> (r: Result<u8, OutOfBounds>)
        ensures
            r == self@.get(i as nat),
    {
        proof {
            use_type_invariant(self);
        }
        if i >= self.inner.len() - self.pos {
            return Err(OutOfBounds);
        }
        Ok(self.inner[self.pos + i])
    }

    /// The unread bytes at offsets `start` up to, not including, `end`.
    pub fn get_range(&self, start: usize, end: usize) -> (r: Result<&'a [u8], OutOfBounds>)
        ensures
            match r {
                Ok(b) => self@.get_range(start as nat, end as nat) == Ok::<Seq<u8>, OutOfBounds>(b@),
                Err(e) => self@.get_range(start as nat, end as nat) == Err::<Seq<u8>, OutOfBounds>(e),
            },
    {
        proof {
            use_type_invariant(self);
        }
        if start > end || end > self.inner.len() - self.pos {
            return Err(OutOfBounds);
        }
        let r = slice_subrange(self.inner, self.pos + start, self.pos + end);
        assert(r@ == self@.remaining().subrange(start as int, end as int));
        Ok(r)
    }

    /// The unread bytes at offsets `start` up to and including `last`.
    pub fn get_range_inclusive(&self, start: usize, last: usize) -> (r: Result<&'a [u8], OutOfBounds>)
        ensures
            match r {
                Ok(b) => self@.get_range_inclusive(start as nat, last as nat)
                    == Ok::<Seq<u8>, OutOfBounds>(b@),
                Err(e) => self@.get_range_inclusive(start as nat, last as nat)
                    == Err::<Seq<u8>, OutOfBounds>(e),
            },
    {
        proof {
            use_type_invariant(self);
        }
        if last >= self.inner.len() - self.pos {
            return Err(OutOfBounds);
        }
        self.get_range(start, last + 1)
    }
}

} // verus!
