//! Fixed-size character bitmaps from the Noto Sans Mono font, with a
//! replacement glyph for characters the font does not know.

use vstd::prelude::*;

verus! {

/// Height in pixel rows of every glyph raster of the chosen font size.
pub const CHAR_RASTER_HEIGHT: usize = 24;

/// Width in pixel columns of every glyph raster of the chosen font size.
pub const CHAR_RASTER_WIDTH: usize = 11;

/// Extra blank rows between two text lines.
pub const LINE_SPACING: usize = 0;

/// Extra blank columns between two characters.
pub const LETTER_SPACING: usize = 0;

/// Blank border, in pixels, that the cursor starts from.
pub const BORDER_PADDING: usize = 0;

/// Vertical advance of one text line.
pub const LINE_HEIGHT: usize = CHAR_RASTER_HEIGHT + LINE_SPACING;

/// Horizontal advance of one character.
pub const FONT_WIDTH: usize = CHAR_RASTER_WIDTH + LETTER_SPACING;

/// The character whose glyph stands in for characters the font cannot render.
pub const REPLACEMENT_CHAR: char = '\u{fffd}';

/// What the font returns for a character: `None` if it has no glyph for it,
/// otherwise the raster as rows of per-pixel intensities. The font data is
/// fixed, so the result depends on the character alone.
pub uninterp spec fn raster_of(c: char) -> Option<Seq<Seq<u8>>>;

/// The rows of a glyph held as vectors, as mathematical sequences.
pub open spec fn glyph_view(g: Vec<Vec<u8>>) -> Seq<Seq<u8>> {
    g@.map_values(|row: Vec<u8>| row@)
}

/// A raster has exactly `CHAR_RASTER_HEIGHT` rows of exactly
/// `CHAR_RASTER_WIDTH` intensity bytes each.
pub open spec fn glyph_dims_ok(g: Seq<Seq<u8>>) -> bool {
    &&& g.len() == CHAR_RASTER_HEIGHT
    &&& forall|r: int| 0 <= r < g.len() ==> (#[trigger] g[r]).len() == CHAR_RASTER_WIDTH
}

/// The all-zero raster: drawn when neither the requested character nor the
/// replacement character has a usable glyph.
pub open spec fn blank_glyph() -> Seq<Seq<u8>> {
    Seq::new(
        CHAR_RASTER_HEIGHT as nat,
        |r: int| Seq::new(CHAR_RASTER_WIDTH as nat, |c: int| 0u8),
    )
}

/// The raster that the console draws for `c`: the font's glyph for `c` when
/// it exists and has the fixed dimensions, else the replacement character's
/// glyph, else the blank raster.
pub open spec fn glyph_for(c: char) -> Seq<Seq<u8>> {
    if raster_of(c) matches Some(g) && glyph_dims_ok(g) {
        raster_of(c)->Some_0
    } else if raster_of(REPLACEMENT_CHAR) matches Some(g) && glyph_dims_ok(g) {
        raster_of(REPLACEMENT_CHAR)->Some_0
    } else {
        blank_glyph()
    }
}

/// Relies on `noto_sans_mono_bitmap::get_raster` with regular weight and
/// raster height 24: a pure table lookup whose result depends on the
/// character alone; `None` when the font has no glyph for the character.
#[verifier::external_body]
fn raster_lookup(c: char) -> (r: Option<Vec<Vec<u8>>>)
    ensures
        (match r {
            Some(g) => raster_of(c) == Some(glyph_view(g)),
            None => raster_of(c) is None,
        }),
{
    let weight = noto_sans_mono_bitmap::FontWeight::Regular;
    let height = noto_sans_mono_bitmap::RasterHeight::Size24;
    noto_sans_mono_bitmap::get_raster(c, weight, height)
        .map(|rc| rc.raster().iter().map(|row| row.to_vec()).collect())
}

/// Checks that a looked-up raster has the fixed glyph dimensions.
fn glyph_dims_checked(g: &Vec<Vec<u8>>) -> (ok: bool)
    ensures
        ok == glyph_dims_ok(glyph_view(*g)),
{
    if g.len() != CHAR_RASTER_HEIGHT {
        return false;
    }
    let mut r: usize = 0;
    while r < g.len()
        invariant
            0 <= r <= g@.len(),
            g@.len() == CHAR_RASTER_HEIGHT,
            forall|j: int| 0 <= j < r ==> (#[trigger] glyph_view(*g)[j]).len() == CHAR_RASTER_WIDTH,
        decreases g@.len() - r,
    {
        if g[r].len() != CHAR_RASTER_WIDTH {
            proof {
                assert(glyph_view(*g)[r as int].len() != CHAR_RASTER_WIDTH);
            }
            return false;
        }
        r += 1;
    }
    true
}

/// The raster to draw for character `c`: the font's glyph when it has one,
/// the replacement glyph otherwise, and a blank raster if even that is
/// unavailable. Always has the fixed glyph dimensions.
pub fn get_char_raster(c: char) -> (g: Vec<Vec<u8>>)
    ensures
        glyph_view(g) == glyph_for(c),
        glyph_dims_ok(glyph_view(g)),
{
    if let Some(g) = raster_lookup(c) {
        if glyph_dims_checked(&g) {
            return g;
        }
    }
    if let Some(g) = raster_lookup(REPLACEMENT_CHAR) {
        if glyph_dims_checked(&g) {
            return g;
        }
    }
    let mut blank: Vec<Vec<u8>> = Vec::new();
    while blank.len() < CHAR_RASTER_HEIGHT
        invariant
            blank@.len() <= CHAR_RASTER_HEIGHT,
            forall|j: int| 0 <= j < blank@.len()
                ==> (#[trigger] blank@[j])@.len() == CHAR_RASTER_WIDTH,
            forall|j: int, k: int| 0 <= j < blank@.len() && 0 <= k < CHAR_RASTER_WIDTH
                ==> (#[trigger] blank@[j]@[k]) == 0u8,
        decreases CHAR_RASTER_HEIGHT - blank@.len(),
    {
        let mut row: Vec<u8> = Vec::new();
        while row.len() < CHAR_RASTER_WIDTH
            invariant
                row@.len() <= CHAR_RASTER_WIDTH,
                forall|k: int| 0 <= k < row@.len() ==> (#[trigger] row@[k]) == 0u8,
            decreases CHAR_RASTER_WIDTH - row@.len(),
        {
            row.push(0u8);
        }
        blank.push(row);
    }
    proof {
        assert(glyph_view(blank) =~~= blank_glyph());
    }
    blank
}

/// A character that has no glyph in the font renders as the replacement
/// character's glyph instead.
pub proof fn lemma_missing_glyph_uses_replacement(c: char)
    requires
        raster_of(c) is None,
    ensures
        glyph_for(c) == glyph_for(REPLACEMENT_CHAR),
{
}

} // verus!
