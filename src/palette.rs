use vstd::prelude::*;

verus! {

/// The sixteen colours of the mosaic, indexed by a nibble.
pub open spec fn palette(n: int) -> (u8, u8, u8) {
    if n == 0 {
        (0, 0, 0)  // black
    } else if n == 1 {
        (194, 54, 33)  // red
    } else if n == 2 {
        (37, 188, 36)  // green
    } else if n == 3 {
        (173, 173, 39)  // yellow
    } else if n == 4 {
        (73, 46, 225)  // blue
    } else if n == 5 {
        (211, 56, 211)  // magenta
    } else if n == 6 {
        (51, 187, 200)  // cyan
    } else if n == 7 {
        (203, 204, 205)  // white
    } else if n == 8 {
        (129, 131, 131)  // gray
    } else if n == 9 {
        (252, 57, 31)  // bright red
    } else if n == 10 {
        (49, 231, 34)  // bright green
    } else if n == 11 {
        (234, 236, 35)  // bright yellow
    } else if n == 12 {
        (88, 51, 255)  // bright blue
    } else if n == 13 {
        (249, 53, 248)  // bright magenta
    } else if n == 14 {
        (20, 240, 240)  // bright cyan
    } else {
        (233, 235, 235)  // bright white
    }
}

/// A colour is a palette colour when some nibble selects it.
pub open spec fn in_palette(c: (u8, u8, u8)) -> bool {
    exists|n: int| 0 <= n < 16 && #[trigger] palette(n) == c
}

/// The high nibble of a byte.
pub open spec fn high_nibble(b: u8) -> int {
    b as int / 16
}

/// The low nibble of a byte.
pub open spec fn low_nibble(b: u8) -> int {
    b as int % 16
}

/// Looks a nibble up in the palette.
pub fn colour(n: u8) -> (c: (u8, u8, u8))
    requires
        n < 16,
    ensures
        c == palette(n as int),
{
    if n == 0 {
        (0, 0, 0)
    } else if n == 1 {
        (194, 54, 33)
    } else if n == 2 {
        (37, 188, 36)
    } else if n == 3 {
        (173, 173, 39)
    } else if n == 4 {
        (73, 46, 225)
    } else if n == 5 {
        (211, 56, 211)
    } else if n == 6 {
        (51, 187, 200)
    } else if n == 7 {
        (203, 204, 205)
    } else if n == 8 {
        (129, 131, 131)
    } else if n == 9 {
        (252, 57, 31)
    } else if n == 10 {
        (49, 231, 34)
    } else if n == 11 {
        (234, 236, 35)
    } else if n == 12 {
        (88, 51, 255)
    } else if n == 13 {
        (249, 53, 248)
    } else if n == 14 {
        (20, 240, 240)
    } else {
        (233, 235, 235)
    }
}

/// Splits a byte into its two nibbles and gives the palette colour of each,
/// high nibble first.
pub fn split_byte(b: u8) -> (r: ((u8, u8, u8), (u8, u8, u8)))
    ensures
        r.0 == palette(high_nibble(b)),
        r.1 == palette(low_nibble(b)),
{
    let l: u8 = b >> 4;
    let r: u8 = b & 0x0f;
    assert(l == b / 16 && r == b % 16) by (bit_vector)
        requires
            l == b >> 4,
            r == b & 0x0f,
    ;
    (colour(l), colour(r))
}

} // verus!
