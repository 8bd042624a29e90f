//! A cursor over a borrowed byte sequence, for reading binary formats.
//!
//! The cursor keeps the whole sequence and the number of bytes consumed.
//! Every read and every move is bounds-checked and fails with
//! [`OutOfBounds`] instead of panicking, leaving the cursor unchanged.
//! Multi-byte integers are decoded big-endian.
//!
//! Each operation's contract is stated over [`CursorView`], the cursor's
//! abstract state; the laws that relate the operations are proved in `laws`.

mod cursor;
mod dump;
mod laws;
mod model;

pub use crate::cursor::ByteCode;
pub use crate::dump::{
    cell, cells, column_heading, cyan_on, dump_text, green_on, hex_digit, hex_fixed, row,
    row_count, rows, style_off,
};
pub use crate::laws::{
    fresh, lemma_all_ones_decode_to_max, lemma_consuming_all_reaches_end,
    lemma_end_iff_position_is_length, lemma_motions_keep_data, lemma_peek_then_skip_is_take,
    lemma_reset_after_motions, lemma_skip_then_retreat, steps_forward, Motion,
};
pub use crate::model::{be_u16, be_u32, CursorView, OutOfBounds};
