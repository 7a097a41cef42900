use vstd::prelude::*;

use crate::ansi::{cell_text, cells_upto, colour_code, mosaic_text, reset_code};
use crate::mozaic::{hkdf_sha256_okm32, Mozaic};
use crate::palette::{high_nibble, in_palette, low_nibble, palette};

verus! {

/// The pieces a mosaic is written with.
pub enum Piece {
    /// Sets foreground and background to a colour.
    Colour((u8, u8, u8)),
    /// Two spaces.
    Gap,
    /// Restores the default colours.
    Reset,
    /// Ends a row: carriage return and line feed.
    RowBreak,
}

/// The text of one piece.
pub open spec fn piece_text(p: Piece) -> Seq<char> {
    match p {
        Piece::Colour(c) => colour_code(c),
        Piece::Gap => "  "@,
        Piece::Reset => reset_code(),
        Piece::RowBreak => "\r\n"@,
    }
}

/// The text of a sequence of pieces, written one after the other.
pub open spec fn text_of(ps: Seq<Piece>) -> Seq<char>
    decreases ps.len(),
{
    if ps.len() == 0 {
        Seq::empty()
    } else {
        text_of(ps.drop_last()) + piece_text(ps.last())
    }
}

/// How many pieces of a sequence satisfy `f`.
pub open spec fn count(ps: Seq<Piece>, f: spec_fn(Piece) -> bool) -> nat
    decreases ps.len(),
{
    if ps.len() == 0 {
        0
    } else {
        count(ps.drop_last(), f) + if f(ps.last()) {
            1nat
        } else {
            0nat
        }
    }
}

/// The pieces of the cell of byte `i` of the key.
pub open spec fn cell_pieces(key: Seq<u8>, i: int) -> Seq<Piece> {
    let b = key[i];
    let lead = if i % 8 == 0 && i != 0 {
        seq![Piece::RowBreak]
    } else {
        Seq::empty()
    };
    let tail = if i % 2 == 1 {
        seq![Piece::Gap]
    } else {
        Seq::empty()
    };
    lead + seq![
        Piece::Colour(palette(high_nibble(b))),
        Piece::Gap,
        Piece::Colour(palette(low_nibble(b))),
        Piece::Gap,
        Piece::Reset,
    ] + tail
}

/// The pieces of the cells of the first `n` bytes of the key.
pub open spec fn pieces_upto(key: Seq<u8>, n: int) -> Seq<Piece>
    decreases n,
{
    if n <= 0 {
        Seq::empty()
    } else {
        pieces_upto(key, n - 1) + cell_pieces(key, n - 1)
    }
}

/// The pieces of the whole mosaic of a 32-byte key.
pub open spec fn mosaic_pieces(key: Seq<u8>) -> Seq<Piece> {
    pieces_upto(key, 32).push(Piece::Reset)
}

proof fn lemma_text_of_add(a: Seq<Piece>, b: Seq<Piece>)
    ensures
        text_of(a + b) == text_of(a) + text_of(b),
    decreases b.len(),
{
    if b.len() == 0 {
        assert(a + b =~= a);
        assert(text_of(a) + text_of(b) =~= text_of(a));
    } else {
        lemma_text_of_add(a, b.drop_last());
        assert((a + b).drop_last() =~= a + b.drop_last());
        assert(text_of(a + b) =~= text_of(a) + text_of(b));
    }
}

proof fn lemma_count_add(a: Seq<Piece>, b: Seq<Piece>, f: spec_fn(Piece) -> bool)
    ensures
        count(a + b, f) == count(a, f) + count(b, f),
    decreases b.len(),
{
    if b.len() == 0 {
        assert(a + b =~= a);
    } else {
        lemma_count_add(a, b.drop_last(), f);
        assert((a + b).drop_last() =~= a + b.drop_last());
    }
}

proof fn lemma_cell_text(key: Seq<u8>, i: int)
    requires
        0 <= i < key.len(),
    ensures
        text_of(cell_pieces(key, i)) == cell_text(key, i),
{
    reveal_with_fuel(text_of, 8);
    reveal_strlit("  ");
    reveal_strlit("\x1b[0m");
    reveal_strlit("  \x1b[0m");
    reveal_strlit("  \x1b[0m  ");
    reveal_strlit("\r\n");
    let ps = cell_pieces(key, i);
    assert(text_of(ps) =~= cell_text(key, i));
}

/// The mosaic's text is exactly the text of its pieces.
pub proof fn lemma_mosaic_is_pieces(key: Seq<u8>)
    requires
        key.len() == 32,
    ensures
        mosaic_text(key) == text_of(mosaic_pieces(key)),
{
    assert forall|n: int| 0 <= n <= 32 implies #[trigger] cells_upto(key, n) == text_of(
        pieces_upto(key, n),
    ) by {
        lemma_cells_upto(key, n);
    }
    let ps = pieces_upto(key, 32);
    assert(mosaic_pieces(key).drop_last() =~= ps);
}

proof fn lemma_cells_upto(key: Seq<u8>, n: int)
    requires
        0 <= n <= key.len(),
    ensures
        cells_upto(key, n) == text_of(pieces_upto(key, n)),
    decreases n,
{
    if n > 0 {
        lemma_cells_upto(key, n - 1);
        lemma_text_of_add(pieces_upto(key, n - 1), cell_pieces(key, n - 1));
        lemma_cell_text(key, n - 1);
    }
}

/// Whether a piece is a row break.
pub open spec fn is_row_break(p: Piece) -> bool {
    p is RowBreak
}

/// Whether a piece sets a colour.
pub open spec fn is_colour(p: Piece) -> bool {
    p is Colour
}

/// Whether a piece is a reset.
pub open spec fn is_reset(p: Piece) -> bool {
    p is Reset
}

proof fn lemma_cell_counts(key: Seq<u8>, i: int)
    requires
        0 <= i < key.len(),
    ensures
        count(cell_pieces(key, i), |p: Piece| is_row_break(p)) == if i % 8 == 0 && i != 0 {
            1nat
        } else {
            0nat
        },
        count(cell_pieces(key, i), |p: Piece| is_colour(p)) == 2,
        count(cell_pieces(key, i), |p: Piece| is_reset(p)) == 1,
{
    reveal_with_fuel(count, 8);
}

proof fn lemma_counts_upto(key: Seq<u8>, n: int)
    requires
        0 <= n <= key.len(),
    ensures
        count(pieces_upto(key, n), |p: Piece| is_row_break(p)) == if n == 0 {
            0
        } else {
            (n - 1) / 8
        },
        count(pieces_upto(key, n), |p: Piece| is_colour(p)) == 2 * n,
        count(pieces_upto(key, n), |p: Piece| is_reset(p)) == n,
    decreases n,
{
    if n > 0 {
        lemma_counts_upto(key, n - 1);
        lemma_cell_counts(key, n - 1);
        lemma_count_add(pieces_upto(key, n - 1), cell_pieces(key, n - 1), |p: Piece| is_row_break(p));
        lemma_count_add(pieces_upto(key, n - 1), cell_pieces(key, n - 1), |p: Piece| is_colour(p));
        lemma_count_add(pieces_upto(key, n - 1), cell_pieces(key, n - 1), |p: Piece| is_reset(p));
    }
}

/// Every mosaic has the same shape: four rows, so three row breaks, and two
/// colour codes for each of the 32 bytes, with a reset closing each byte's
/// cell and one more at the end.
pub proof fn lemma_fixed_shape(key: Seq<u8>)
    requires
        key.len() == 32,
    ensures
        mosaic_text(key) == text_of(mosaic_pieces(key)),
        count(mosaic_pieces(key), |p: Piece| is_row_break(p)) == 3,
        count(mosaic_pieces(key), |p: Piece| is_colour(p)) == 64,
        count(mosaic_pieces(key), |p: Piece| is_reset(p)) == 33,
{
    lemma_mosaic_is_pieces(key);
    lemma_counts_upto(key, 32);
    let ps = mosaic_pieces(key);
    assert(ps.drop_last() =~= pieces_upto(key, 32));
}

/// Whether every colour among the pieces is a palette colour.
pub open spec fn colours_in_palette(ps: Seq<Piece>) -> bool {
    forall|j: int|
        0 <= j < ps.len() && (#[trigger] ps[j]) is Colour ==> in_palette(ps[j]->Colour_0)
}

proof fn lemma_palette_upto(key: Seq<u8>, n: int)
    requires
        0 <= n <= key.len(),
    ensures
        colours_in_palette(pieces_upto(key, n)),
    decreases n,
{
    if n > 0 {
        lemma_palette_upto(key, n - 1);
        let a = pieces_upto(key, n - 1);
        let c = cell_pieces(key, n - 1);
        let b = key[n - 1];
        assert(in_palette(palette(high_nibble(b))));
        assert(in_palette(palette(low_nibble(b))));
        assert(colours_in_palette(c));
        assert(pieces_upto(key, n) == a + c);
        assert forall|j: int|
            0 <= j < (a + c).len() && (#[trigger] (a + c)[j]) is Colour implies in_palette(
            (a + c)[j]->Colour_0,
        ) by {
            if j >= a.len() {
                assert((a + c)[j] == c[j - a.len()]);
            }
        }
    }
}

/// Every colour code of a mosaic sets one of the sixteen palette colours.
pub proof fn lemma_palette_bound(key: Seq<u8>)
    requires
        key.len() == 32,
    ensures
        mosaic_text(key) == text_of(mosaic_pieces(key)),
        colours_in_palette(mosaic_pieces(key)),
{
    lemma_mosaic_is_pieces(key);
    lemma_palette_upto(key, 32);
    let ps = mosaic_pieces(key);
    assert forall|j: int|
        0 <= j < ps.len() && (#[trigger] ps[j]) is Colour implies in_palette(ps[j]->Colour_0) by {
        assert(ps[j] == pieces_upto(key, 32)[j]);
    }
}

/// A mosaic ends with exactly one reset after the last cell: the two spaces
/// that close the last cell, then the reset.
pub proof fn lemma_trailing_reset(key: Seq<u8>)
    requires
        key.len() == 32,
    ensures
        mosaic_text(key).len() >= 6,
        mosaic_text(key).subrange(mosaic_text(key).len() - 6, mosaic_text(key).len() as int)
            == "  \x1b[0m"@,
{
    reveal_strlit("  \x1b[0m");
    reveal_strlit("  \x1b[0m  ");
    reveal_strlit("\x1b[0m");
    let t = mosaic_text(key);
    let front = cells_upto(key, 31);
    let last = cell_text(key, 31);
    assert(t == front + last + reset_code());
    let b = key[31];
    let body = colour_code(palette(high_nibble(b))) + "  "@ + colour_code(
        palette(low_nibble(b)),
    );
    assert(last == body + "  \x1b[0m  "@) by {
        assert(last =~= body + "  \x1b[0m  "@);
    }
    assert(t.subrange(t.len() - 6, t.len() as int) =~= "  \x1b[0m"@);
}

/// A mosaic depends on its input alone: two values built from the same bytes
/// draw the same text.
pub proof fn lemma_deterministic(input: Seq<u8>, a: Mozaic, b: Mozaic)
    requires
        a@ == hkdf_sha256_okm32(input),
        b@ == hkdf_sha256_okm32(input),
    ensures
        mosaic_text(a@) == mosaic_text(b@),
{
}

} // verus!
