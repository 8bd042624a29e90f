use vstd::prelude::*;

verus! {

/// The failure of a read or a move that would reach outside the byte sequence.
#[derive(Debug, Clone, Copy, PartialEq, Eq, Structural)]
pub struct OutOfBounds;

/// What a cursor is, mathematically: the whole byte sequence it reads, and
/// the number of bytes already consumed from its start.
pub struct CursorView {
    pub data: Seq<u8>,
    pub pos: nat,
}

/// The big-endian value of two bytes.
pub open spec fn be_u16(b: Seq<u8>) -> u16
    recommends
        b.len() == 2,
{
    (b[0] as int * 0x100 + b[1] as int) as u16
}

/// The big-endian value of four bytes.
pub open spec fn be_u32(b: Seq<u8>) -> u32
    recommends
        b.len() == 4,
{
    (b[0] as int * 0x100_0000 + b[1] as int * 0x1_0000 + b[2] as int * 0x100 + b[3] as int) as u32
}

impl CursorView {
    /// The position never passes the end of the sequence.
    pub open spec fn wf(self) -> bool {
        self.pos <= self.data.len()
    }

    /// The bytes not yet consumed.
    pub open spec fn remaining(self) -> Seq<u8> {
        self.data.subrange(self.pos as int, self.data.len() as int)
    }

    /// Every byte has been consumed.
    pub open spec fn is_end(self) -> bool {
        self.pos == self.data.len()
    }

    /// The same sequence, read from another position.
    pub open spec fn at(self, pos: nat) -> CursorView {
        CursorView { data: self.data, pos }
    }

    /// The state right after construction: nothing consumed.
    pub open spec fn reset(self) -> CursorView {
        self.at(0)
    }

    /// The next `n` bytes, without moving.
    pub open spec fn peek(self, n: nat) -> Result<Seq<u8>, OutOfBounds> {
        if n <= self.remaining().len() {
            Ok(self.remaining().take(n as int))
        } else {
            Err(OutOfBounds)
        }
    }

    /// The state after moving forward by `n` bytes.
    pub open spec fn skip(self, n: nat) -> Result<CursorView, OutOfBounds> {
        if self.pos + n <= self.data.len() {
            Ok(self.at(self.pos + n))
        } else {
            Err(OutOfBounds)
        }
    }

    /// The state after moving backward by `n` bytes.
    pub open spec fn retreat(self, n: nat) -> Result<CursorView, OutOfBounds> {
        if n <= self.pos {
            Ok(self.at((self.pos - n) as nat))
        } else {
            Err(OutOfBounds)
        }
    }

    /// The next `n` bytes, with the state after consuming them.
    pub open spec fn take(self, n: nat) -> Result<(Seq<u8>, CursorView), OutOfBounds> {
        if self.pos + n <= self.data.len() {
            Ok((self.data.subrange(self.pos as int, (self.pos + n) as int), self.at(self.pos + n)))
        } else {
            Err(OutOfBounds)
        }
    }

    /// The next two bytes read as a big-endian integer, with the state after them.
    pub open spec fn take_u16(self) -> Result<(u16, CursorView), OutOfBounds> {
        match self.take(2) {
            Ok((b, next)) => Ok((be_u16(b), next)),
            Err(e) => Err(e),
        }
    }

    /// The next four bytes read as a big-endian integer, with the state after them.
    pub open spec fn take_u32(self) -> Result<(u32, CursorView), OutOfBounds> {
        match self.take(4) {
            Ok((b, next)) => Ok((be_u32(b), next)),
            Err(e) => Err(e),
        }
    }

    /// Whether the unread bytes begin with `pattern`; a pattern longer than
    /// what is left is out of bounds.
    pub open spec fn starts_with(self, pattern: Seq<u8>) -> Result<bool, OutOfBounds> {
        match self.peek(pattern.len()) {
            Ok(prefix) => Ok(prefix == pattern),
            Err(e) => Err(e),
        }
    }

    /// The unread byte at offset `i`.
    pub open spec fn get(self, i: nat) -> Result<u8, OutOfBounds> {
        if i < self.remaining().len() {
            Ok(self.remaining()[i as int])
        } else {
            Err(OutOfBounds)
        }
    }

    /// The unread bytes at offsets `start` up to, not including, `end`.
    pub open spec fn get_range(self, start: nat, end: nat) -> Result<Seq<u8>, OutOfBounds> {
        if start <= end && end <= self.remaining().len() {
            Ok(self.remaining().subrange(start as int, end as int))
        } else {
            Err(OutOfBounds)
        }
    }

    /// The unread bytes at offsets `start` up to and including `last`.
    pub open spec fn get_range_inclusive(self, start: nat, last: nat) -> Result<Seq<u8>, OutOfBounds> {
        self.get_range(start, last + 1)
    }
}

} // verus!
