use crate::model::{CursorView, OutOfBounds};
use vstd::prelude::*;

verus! {

/// One cursor movement: forward or backward by a number of bytes.
pub enum Motion {
    Forward(nat),
    Backward(nat),
}

impl CursorView {
    /// The state after one movement; a movement that would leave the
    /// sequence fails and leaves the state as it was.
    pub open spec fn after(self, m: Motion) -> CursorView {
        let moved = match m {
            Motion::Forward(n) => self.skip(n),
            Motion::Backward(n) => self.retreat(n),
        };
        match moved {
            Ok(next) => next,
            Err(_) => self,
        }
    }

    /// The state after a sequence of movements, in order.
    pub open spec fn after_all(self, ms: Seq<Motion>) -> CursorView
        decreases ms.len(),
    {
        if ms.len() == 0 {
            self
        } else {
            self.after(ms[0]).after_all(ms.drop_first())
        }
    }
}

/// A fresh cursor over `data`.
pub open spec fn fresh(data: Seq<u8>) -> CursorView {
    CursorView { data, pos: 0 }
}

/// `n` single steps forward.
pub open spec fn steps_forward(n: nat) -> Seq<Motion> {
    Seq::new(n, |i: int| Motion::Forward(1))
}

/// Peeking at `n` bytes and then skipping them gives the bytes and the state
/// that taking `n` bytes gives.
pub proof fn lemma_peek_then_skip_is_take(s: CursorView, n: nat)
    requires
        s.wf(),
        n <= s.remaining().len(),
    ensures
        s.peek(n) is Ok,
        s.skip(n) is Ok,
        s.take(n) == Ok::<(Seq<u8>, CursorView), OutOfBounds>((s.peek(n)->Ok_0, s.skip(n)->Ok_0)),
{
    assert(s.remaining().take(n as int) =~= s.data.subrange(s.pos as int, (s.pos + n) as int));
}

/// Moving forward by `n` bytes and back by `n` bytes restores the state,
/// position and unread bytes alike.
pub proof fn lemma_skip_then_retreat(s: CursorView, n: nat)
    requires
        s.wf(),
        s.skip(n) is Ok,
    ensures
        s.skip(n)->Ok_0.retreat(n) == Ok::<CursorView, OutOfBounds>(s),
        s.skip(n)->Ok_0.retreat(n)->Ok_0.remaining() == s.remaining(),
{
}

/// No movement changes the sequence a cursor reads.
pub proof fn lemma_motions_keep_data(s: CursorView, ms: Seq<Motion>)
    requires
        s.wf(),
    ensures
        s.after_all(ms).data == s.data,
        s.after_all(ms).wf(),
    decreases ms.len(),
{
    if ms.len() > 0 {
        lemma_motions_keep_data(s.after(ms[0]), ms.drop_first());
    }
}

/// After any sequence of movements from a fresh cursor, a reset gives back
/// the fresh cursor: position zero, every byte of the sequence unread.
pub proof fn lemma_reset_after_motions(data: Seq<u8>, ms: Seq<Motion>)
    ensures
        fresh(data).after_all(ms).reset() == fresh(data),
        fresh(data).after_all(ms).reset().pos == 0,
        fresh(data).after_all(ms).reset().remaining() == data,
{
    lemma_motions_keep_data(fresh(data), ms);
    assert(data.subrange(0, data.len() as int) =~= data);
}

/// A cursor is at its end exactly when its position is the sequence's length.
pub proof fn lemma_end_iff_position_is_length(s: CursorView)
    requires
        s.wf(),
    ensures
        s.is_end() <==> s.pos == s.data.len(),
        s.is_end() <==> s.remaining().len() == 0,
{
}

/// `k` single steps forward from a position at least `k` bytes from the end
/// advance the position by `k`.
proof fn lemma_steps_forward(s: CursorView, k: nat)
    requires
        s.wf(),
        s.pos + k <= s.data.len(),
    ensures
        s.after_all(steps_forward(k)) == s.at(s.pos + k),
    decreases k,
{
    if k > 0 {
        assert(steps_forward(k).drop_first() =~= steps_forward((k - 1) as nat));
        lemma_steps_forward(s.at(s.pos + 1), (k - 1) as nat);
    }
}

/// On a sequence of length `L`, skipping `L` bytes from a fresh cursor, or
/// taking `L` single steps forward, reaches the end.
pub proof fn lemma_consuming_all_reaches_end(data: Seq<u8>)
    ensures
        fresh(data).skip(data.len()) is Ok,
        fresh(data).skip(data.len())->Ok_0.is_end(),
        fresh(data).after_all(steps_forward(data.len())).is_end(),
{
    lemma_steps_forward(fresh(data), data.len());
}

/// Two bytes `0xFF`, and four, decode to the largest `u16` and `u32`, and the
/// position moves by two and by four.
pub proof fn lemma_all_ones_decode_to_max(s: CursorView)
    requires
        s.wf(),
    ensures
        s.remaining().len() >= 2 && s.remaining()[0] == 0xFF && s.remaining()[1] == 0xFF
            ==> s.take_u16() == Ok::<(u16, CursorView), OutOfBounds>((0xFFFF, s.at(s.pos + 2))),
        s.remaining().len() >= 4 && s.remaining()[0] == 0xFF && s.remaining()[1] == 0xFF
            && s.remaining()[2] == 0xFF && s.remaining()[3] == 0xFF
            ==> s.take_u32() == Ok::<(u32, CursorView), OutOfBounds>((0xFFFF_FFFF, s.at(s.pos + 4))),
{
}

} // verus!
