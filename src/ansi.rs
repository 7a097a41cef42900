use vstd::prelude::*;
use vstd::string::StringExecFns;

use crate::palette::{high_nibble, low_nibble, palette, split_byte};

verus! {

/// Number of key bytes drawn on one row of the mosaic.
pub const ROW_LEN: usize = 8;

/// Number of key bytes in a mosaic.
pub const KEY_LEN: usize = 32;

/// The character of a decimal digit.
pub open spec fn digit_char(d: int) -> char {
    if d == 0 {
        '0'
    } else if d == 1 {
        '1'
    } else if d == 2 {
        '2'
    } else if d == 3 {
        '3'
    } else if d == 4 {
        '4'
    } else if d == 5 {
        '5'
    } else if d == 6 {
        '6'
    } else if d == 7 {
        '7'
    } else if d == 8 {
        '8'
    } else {
        '9'
    }
}

/// A natural number written in decimal, without leading zeros.
pub open spec fn decimal(n: nat) -> Seq<char>
    decreases n,
{
    if n < 10 {
        seq![digit_char(n as int)]
    } else {
        decimal(n / 10).push(digit_char((n % 10) as int))
    }
}

/// The control sequence that sets both the foreground and the background to
/// one 24-bit colour.
#[verifier::opaque]
pub open spec fn colour_code(c: (u8, u8, u8)) -> Seq<char> {
    "\x1b[38;2;"@ + decimal(c.0 as nat) + ";"@ + decimal(c.1 as nat) + ";"@ + decimal(
        c.2 as nat,
    ) + ";48;2;"@ + decimal(c.0 as nat) + ";"@ + decimal(c.1 as nat) + ";"@ + decimal(
        c.2 as nat,
    ) + "m"@
}

/// The control sequence that restores the terminal's default colours.
pub open spec fn reset_code() -> Seq<char> {
    "\x1b[0m"@
}

/// The text drawn for byte `i` of the key: a row break before each row but
/// the first, the two nibble colours, two spaces each, a reset, and two more
/// spaces after the bytes at odd positions.
pub open spec fn cell_text(key: Seq<u8>, i: int) -> Seq<char> {
    let b = key[i];
    let lead = if i % 8 == 0 && i != 0 {
        "\r\n"@
    } else {
        Seq::<char>::empty()
    };
    let tail = if i % 2 == 1 {
        "  \x1b[0m  "@
    } else {
        "  \x1b[0m"@
    };
    lead + colour_code(palette(high_nibble(b))) + "  "@ + colour_code(palette(low_nibble(b)))
        + tail
}

/// The cells of the first `n` bytes of the key, in order.
pub open spec fn cells_upto(key: Seq<u8>, n: int) -> Seq<char>
    decreases n,
{
    if n <= 0 {
        Seq::empty()
    } else {
        cells_upto(key, n - 1) + cell_text(key, n - 1)
    }
}

/// The whole mosaic of a 32-byte key: its cells followed by a final reset.
pub open spec fn mosaic_text(key: Seq<u8>) -> Seq<char> {
    cells_upto(key, 32) + reset_code()
}

/// Appends one decimal digit.
fn push_digit(out: &mut String, d: u8)
    requires
        d < 10,
    ensures
        final(out)@ == old(out)@.push(digit_char(d as int)),
{
    proof {
        reveal_strlit("0");
        reveal_strlit("1");
        reveal_strlit("2");
        reveal_strlit("3");
        reveal_strlit("4");
        reveal_strlit("5");
        reveal_strlit("6");
        reveal_strlit("7");
        reveal_strlit("8");
        reveal_strlit("9");
    }
    let s = if d == 0 {
        "0"
    } else if d == 1 {
        "1"
    } else if d == 2 {
        "2"
    } else if d == 3 {
        "3"
    } else if d == 4 {
        "4"
    } else if d == 5 {
        "5"
    } else if d == 6 {
        "6"
    } else if d == 7 {
        "7"
    } else if d == 8 {
        "8"
    } else {
        "9"
    };
    out.append(s);
    assert(final(out)@ =~= old(out)@.push(digit_char(d as int)));
}

/// Appends a byte written in decimal.
fn push_decimal(out: &mut String, n: u8)
    ensures
        final(out)@ == old(out)@ + decimal(n as nat),
{
    reveal_with_fuel(decimal, 3);
    if n >= 100 {
        push_digit(out, n / 100);
        push_digit(out, (n / 10) % 10);
        push_digit(out, n % 10);
        assert(decimal(n as nat) =~= seq![
            digit_char((n / 100) as int),
            digit_char(((n / 10) % 10) as int),
            digit_char((n % 10) as int),
        ]);
    } else if n >= 10 {
        push_digit(out, n / 10);
        push_digit(out, n % 10);
        assert(decimal(n as nat) =~= seq![
            digit_char((n / 10) as int),
            digit_char((n % 10) as int),
        ]);
    } else {
        push_digit(out, n);
    }
    assert(final(out)@ =~= old(out)@ + decimal(n as nat));
}

/// The control sequence for one colour, as its own string.
pub fn ansi_rgb(rgb: (u8, u8, u8)) -> (r: String)
    ensures
        r@ == colour_code(rgb),
{
    let mut out = String::new();
    out.append("\x1b[38;2;");
    push_decimal(&mut out, rgb.0);
    out.append(";");
    push_decimal(&mut out, rgb.1);
    out.append(";");
    push_decimal(&mut out, rgb.2);
    out.append(";48;2;");
    push_decimal(&mut out, rgb.0);
    out.append(";");
    push_decimal(&mut out, rgb.1);
    out.append(";");
    push_decimal(&mut out, rgb.2);
    out.append("m");
    reveal(colour_code);
    assert(out@ =~= colour_code(rgb));
    out
}

/// Appends the cell of byte `i` of the key.
fn push_cell(out: &mut String, key: &[u8; 32], i: usize)
    requires
        i < 32,
    ensures
        final(out)@ == old(out)@ + cell_text(key@, i as int),
{
    let ghost lead = if i % 8 == 0 && i != 0 {
        "\r\n"@
    } else {
        Seq::<char>::empty()
    };
    if i % ROW_LEN == 0 && i != 0 {
        out.append("\r\n");
    }
    assert(out@ =~= old(out)@ + lead);
    let (l, r) = split_byte(key[i]);
    let left = ansi_rgb(l);
    let right = ansi_rgb(r);
    out.append(left.as_str());
    out.append("  ");
    out.append(right.as_str());
    if i % 2 == 1 {
        out.append("  \x1b[0m  ");
    } else {
        out.append("  \x1b[0m");
    }
    assert(final(out)@ =~= old(out)@ + cell_text(key@, i as int));
}

/// Draws a 32-byte key as a mosaic of coloured cells: four rows of eight
/// bytes, each byte shown as its two nibble colours.
pub fn render(key: &[u8; 32]) -> (r: String)
    ensures
        r@ == mosaic_text(key@),
{
    let mut out = String::new();
    let mut i: usize = 0;
    while i < KEY_LEN
        invariant
            0 <= i <= 32,
            out@ == cells_upto(key@, i as int),
        decreases KEY_LEN - i,
    {
        push_cell(&mut out, key, i);
        i = i + 1;
    }
    out.append("\x1b[0m");
    out
}

} // verus!
