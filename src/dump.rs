use crate::model::CursorView;
use tiny_ansi::TinyAnsi;
use vstd::prelude::*;
use vstd::string::StringExecFns;

verus! {

/// The escape sequence that turns the terminal's text green.
pub open spec fn green_on() -> Seq<char> {
    seq!['\u{1b}', '[', '3', '2', 'm']
}

/// The escape sequence that turns the terminal's text cyan.
pub open spec fn cyan_on() -> Seq<char> {
    seq!['\u{1b}', '[', '3', '6', 'm']
}

/// The escape sequence that restores the terminal's default style.
pub open spec fn style_off() -> Seq<char> {
    seq!['\u{1b}', '[', '0', 'm']
}

/// Relies on `TinyAnsi::green` for `str`: the text between the escape
/// sequences for green and for the default style.
#[verifier::external_body]
fn green(s: &str) -> (r: String)
    ensures
        r@ == green_on() + s@ + style_off(),
{
    s.green()
}

/// Relies on `TinyAnsi::cyan` for `str`: the text between the escape
/// sequences for cyan and for the default style.
#[verifier::external_body]
fn cyan(s: &str) -> (r: String)
    ensures
        r@ == cyan_on() + s@ + style_off(),
{
    s.cyan()
}

/// Relies on `String::push`: appends one character.
#[verifier::external_body]
fn push_char(s: &mut String, c: char)
    ensures
        final(s)@ == old(s)@.push(c),
{
    s.push(c)
}

/// The upper-case hexadecimal digit of a value below sixteen.
pub open spec fn hex_digit(d: nat) -> char {
    if d < 10 {
        ((d + 0x30) as u32) as char
    } else {
        ((d + 0x37) as u32) as char
    }
}

/// The last `width` hexadecimal digits of `x`, zero-padded, most significant first.
pub open spec fn hex_fixed(x: nat, width: nat) -> Seq<char>
    decreases width,
{
    if width == 0 {
        Seq::empty()
    } else {
        hex_fixed(x / 16, (width - 1) as nat).push(hex_digit(x % 16))
    }
}

fn digit_char(d: usize) -> (c: char)
    requires
        d < 16,
    ensures
        c == hex_digit(d as nat),
{
    if d < 10 {
        (d as u8 + 0x30) as char
    } else {
        (d as u8 + 0x37) as char
    }
}

fn push_hex_fixed(out: &mut String, x: usize, width: usize)
    ensures
        final(out)@ == old(out)@ + hex_fixed(x as nat, width as nat),
    decreases width,
{
    if width > 0 {
        push_hex_fixed(out, x / 16, width - 1);
        push_char(out, digit_char(x % 16));
    } else {
        assert(old(out)@ + hex_fixed(x as nat, 0) =~= old(out)@);
    }
}

/// The column heading of the dump: the offset of each byte within its row.
pub open spec fn column_heading() -> Seq<char> {
    "         00 01 02 03 04 05 06 07 08 09 0A 0B 0C 0D 0E 0F"@
}

/// Byte `k` in two hexadecimal digits, green when it is the next byte to read.
pub open spec fn cell(v: CursorView, k: int) -> Seq<char> {
    let digits = hex_fixed(v.data[k] as nat, 2);
    if k == v.pos {
        green_on() + digits + style_off()
    } else {
        digits
    }
}

/// The cells of bytes `start` up to, not including, `end`, separated by spaces.
pub open spec fn cells(v: CursorView, start: int, end: int) -> Seq<char>
    decreases end - start,
{
    if end <= start {
        Seq::empty()
    } else if end - 1 == start {
        cell(v, start)
    } else {
        cells(v, start, end - 1) + seq![' '] + cell(v, end - 1)
    }
}

/// The number of rows of sixteen bytes, the last one possibly shorter.
pub open spec fn row_count(len: nat) -> nat {
    ((len + 15) / 16) as nat
}

/// Row `i`: the offset of its first byte in eight hexadecimal digits, then
/// its cells.
pub open spec fn row(v: CursorView, i: nat) -> Seq<char> {
    let start: int = 16 * i as int;
    let end: int = if start + 16 <= v.data.len() { start + 16 } else { v.data.len() as int };
    hex_fixed(start as nat, 8) + seq![' '] + cells(v, start, end) + seq!['\n']
}

/// The first `n` rows.
pub open spec fn rows(v: CursorView, n: nat) -> Seq<char>
    decreases n,
{
    if n == 0 {
        Seq::empty()
    } else {
        rows(v, (n - 1) as nat) + row(v, (n - 1) as nat)
    }
}

/// The dump of a cursor: the cyan column heading, then every row.
pub open spec fn dump_text(v: CursorView) -> Seq<char> {
    cyan_on() + column_heading() + style_off() + seq!['\n'] + rows(v, row_count(v.data.len()))
}

fn push_cell(out: &mut String, b: u8, highlight: bool)
    ensures
        final(out)@ == old(out)@ + if highlight {
            green_on() + hex_fixed(b as nat, 2) + style_off()
        } else {
            hex_fixed(b as nat, 2)
        },
{
    if highlight {
        let mut digits = String::new();
        push_hex_fixed(&mut digits, b as usize, 2);
        assert(digits@ =~= hex_fixed(b as nat, 2));
        let colored = green(digits.as_str());
        out.append(colored.as_str());
    } else {
        push_hex_fixed(out, b as usize, 2);
    }
}

/// The dump of the bytes `data` read at position `pos`.
pub(crate) fn render(data: &[u8], pos: usize) -> (r: String)
    requires
        data@.len() <= 0x1_0000_0000,
    ensures
        r@ == dump_text(CursorView { data: data@, pos: pos as nat }),
{
    let ghost v = CursorView { data: data@, pos: pos as nat };
    let ghost len = data@.len();
    let mut out = cyan("         00 01 02 03 04 05 06 07 08 09 0A 0B 0C 0D 0E 0F");
    push_char(&mut out, '\n');
    let ghost head = out@;
    let mut start: usize = 0;
    let ghost mut i: nat = 0;
    while start < data.len()
        invariant
            v == (CursorView { data: data@, pos: pos as nat }),
            len == data@.len(),
            len <= 0x1_0000_0000,
            head == cyan_on() + column_heading() + style_off() + seq!['\n'],
            out@ == head + rows(v, i),
            start <= len,
            start < len ==> start == 16 * i,
            start == len ==> i == row_count(len),
            i <= row_count(len),
        decreases len - start,
    {
        let end = if data.len() - start > 16 { start + 16 } else { data.len() };
        let ghost before = out@;
        push_hex_fixed(&mut out, start, 8);
        push_char(&mut out, ' ');
        let ghost lead = out@;
        let mut k: usize = start;
        while k < end
            invariant
                v == (CursorView { data: data@, pos: pos as nat }),
                start <= k <= end <= data@.len(),
                start < end,
                out@ == lead + cells(v, start as int, k as int),
            decreases end - k,
        {
            if k > start {
                push_char(&mut out, ' ');
            }
            push_cell(&mut out, data[k], k == pos);
            assert(out@ =~= lead + cells(v, start as int, (k + 1) as int));
            k = k + 1;
        }
        push_char(&mut out, '\n');
        proof {
            assert(out@ =~= before + row(v, i));
            assert(out@ =~= head + rows(v, i + 1));
        }
        start = end;
        proof {
            i = i + 1;
        }
    }
    out
}

} // verus!
