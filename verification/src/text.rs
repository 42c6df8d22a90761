//! Plain text: decimal numbers and right-aligned cells.

use vstd::prelude::*;
use vstd::string::{StrSliceExecFns, StringExecFns};

verus! {

/// The character that stands for the decimal digit `d`.
pub open spec fn digit_char(d: int) -> char {
    ('0' as int + d) as char
}

/// `n` in decimal notation, without leading zeros.
pub open spec fn decimal(n: nat) -> Seq<char>
    decreases n,
{
    if n < 10 {
        seq![digit_char(n as int)]
    } else {
        decimal(n / 10).push(digit_char((n % 10) as int))
    }
}

/// `n` spaces.
pub open spec fn spaces(n: nat) -> Seq<char> {
    Seq::new(n, |i: int| ' ')
}

/// `cell` with as many spaces before it as it takes to fill `width` characters.
pub open spec fn right_aligned(cell: Seq<char>, width: nat) -> Seq<char> {
    if cell.len() < width {
        spaces((width - cell.len()) as nat) + cell
    } else {
        cell
    }
}

/// The digit `d` as text.
fn digit(d: u64) -> (s: &'static str)
    requires
        d < 10,
    ensures
        s@ == seq![digit_char(d as int)],
{
    proof {
        reveal_strlit("0");
        reveal_strlit("1");
        reveal_strlit("2");
        reveal_strlit("3");
        reveal_strlit("4");
        reveal_strlit("5");
        reveal_strlit("6");
        reveal_strlit("7");
        reveal_strlit("8");
        reveal_strlit("9");
    }
    match d {
        0 => "0",
        1 => "1",
        2 => "2",
        3 => "3",
        4 => "4",
        5 => "5",
        6 => "6",
        7 => "7",
        8 => "8",
        _ => "9",
    }
}

/// Writes `n` in decimal notation behind `out`.
pub fn append_decimal(out: &mut String, n: u64)
    ensures
        final(out)@ == old(out)@ + decimal(n as nat),
    decreases n,
{
    if n >= 10 {
        append_decimal(out, n / 10);
    }
    out.append(digit(n % 10));
}

/// Writes `cell` behind `out`, right-aligned in `width` characters.
pub fn append_right_aligned(out: &mut String, cell: &str, width: usize)
    ensures
        final(out)@ == old(out)@ + right_aligned(cell@, width as nat),
{
    let len: usize = cell.unicode_len();
    let mut i: usize = len;
    assert(out@ =~= old(out)@ + spaces(0));
    while i < width
        invariant
            len == cell@.len(),
            i >= len,
            i == len || i <= width,
            out@ == old(out)@ + spaces((i - len) as nat),
        decreases width - i,
    {
        out.append(" ");
        i += 1;
        proof {
            reveal_strlit(" ");
            assert(out@ =~= old(out)@ + spaces((i - len) as nat));
        }
    }
    out.append(cell);
    assert(out@ =~= old(out)@ + right_aligned(cell@, width as nat));
}

/// Decimal notation is what it is everywhere: a digit is one character, and writing a digit
/// behind a number multiplies the number by ten and adds the digit.
pub proof fn law_decimal_notation(n: nat, d: nat)
    requires
        d < 10,
    ensures
        decimal(d).len() == 1,
        decimal(d)[0] as int == 0x30 + d,
        n > 0 ==> decimal(10 * n + d).drop_last() == decimal(n),
        n > 0 ==> decimal(10 * n + d).last() as int == 0x30 + d,
        n > 0 ==> decimal(10 * n + d).len() == decimal(n).len() + 1,
{
    if n > 0 {
        let m: nat = 10 * n + d;
        assert(m / 10 == n && m % 10 == d);
        assert(decimal(m) == decimal(n).push(digit_char(d as int)));
        assert(decimal(m).drop_last() =~= decimal(n));
    }
}

/// `text` shows `cell` between `from` and `to`, right-aligned: the cell ends at `to`, and only
/// spaces stand before it.
pub open spec fn shows(text: Seq<char>, cell: Seq<char>, from: int, to: int) -> bool {
    &&& 0 <= from <= to - cell.len()
    &&& to <= text.len()
    &&& text.subrange(to - cell.len(), to) == cell
    &&& forall|i: int| from <= i < to - cell.len() ==> #[trigger] text[i] == ' '
}

/// A right-aligned cell is shown whole, and fills its width unless it is longer.
pub proof fn law_right_aligned_shows_cell(cell: Seq<char>, width: nat)
    ensures
        right_aligned(cell, width).len() == (if cell.len() < width {
            width
        } else {
            cell.len()
        }),
        shows(right_aligned(cell, width), cell, 0, right_aligned(cell, width).len() as int),
{
    let text = right_aligned(cell, width);
    assert(text.subrange(text.len() - cell.len(), text.len() as int) =~= cell);
}

/// Different numbers are written differently.
pub proof fn law_decimal_is_unambiguous(a: nat, b: nat)
    ensures
        decimal(a) == decimal(b) ==> a == b,
    decreases a,
{
    if decimal(a) == decimal(b) {
        lemma_decimal_len(a);
        lemma_decimal_len(b);
        assert(decimal(a).last() == digit_char((a % 10) as int));
        assert(decimal(b).last() == digit_char((b % 10) as int));
        if a >= 10 {
            law_decimal_is_unambiguous(a / 10, b / 10);
            assert(decimal(a).drop_last() =~= decimal(a / 10));
            assert(decimal(b).drop_last() =~= decimal(b / 10));
        }
    }
}

/// One-digit numbers, and only they, are one character long.
proof fn lemma_decimal_len(n: nat)
    ensures
        decimal(n).len() >= 1,
        decimal(n).len() == 1 <==> n < 10,
    decreases n,
{
    if n >= 10 {
        lemma_decimal_len(n / 10);
    }
}

} // verus!
