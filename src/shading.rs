//! The shading palette: thirteen glyphs ordered from darkest to brightest.
//!
//! An intensity in `[0, 1]` is scaled by the number of steps between the first
//! and the last glyph and rounded to the nearest integer; that integer is the
//! shade level. Levels outside the palette are clamped to its ends.
use vstd::prelude::*;

verus! {

/// Number of steps between the darkest and the brightest glyph.
pub const SHADE_STEPS: i64 = 12;

/// The glyphs, darkest first.
pub open spec fn palette() -> Seq<char> {
    seq!['.', ':', '-', '"', '+', '=', 'c', 'o', '*', '%', '#', 'M', '@']
}

/// Position in the palette chosen for a shade level: the level clamped to
/// `[0, SHADE_STEPS]`.
pub open spec fn glyph_index(level: int) -> int {
    if level < 0 {
        0
    } else if level > SHADE_STEPS {
        SHADE_STEPS as int
    } else {
        level
    }
}

/// Glyph drawn for a shade level.
pub open spec fn shade_glyph(level: int) -> char {
    palette()[glyph_index(level)]
}

/// Whether `c` is one of the palette's glyphs.
pub open spec fn is_palette_glyph(c: char) -> bool {
    exists|i: int| 0 <= i < palette().len() && palette()[i] == c
}

/// The palette as a vector, darkest glyph first.
pub fn grayscale_lut() -> (v: Vec<char>)
    ensures
        v@ == palette(),
{
    let v = vec!['.', ':', '-', '"', '+', '=', 'c', 'o', '*', '%', '#', 'M', '@'];
    assert(v@ =~= palette());
    v
}

/// Glyph for a shade level; levels below zero give the darkest glyph and
/// levels above `SHADE_STEPS` the brightest.
pub fn shade_level_to_char(level: i64) -> (c: char)
    ensures
        c == shade_glyph(level as int),
        is_palette_glyph(c),
{
    let lut = grayscale_lut();
    let idx: usize = if level < 0 {
        0
    } else if level > SHADE_STEPS {
        SHADE_STEPS as usize
    } else {
        level as usize
    };
    let c = lut[idx];
    assert(palette()[idx as int] == c);
    c
}

/// The palette is ordered: a higher shade level never picks an earlier glyph.
pub proof fn lemma_shading_monotonic(a: int, b: int)
    requires
        a <= b,
    ensures
        glyph_index(a) <= glyph_index(b),
        0 <= glyph_index(a) < palette().len(),
        0 <= glyph_index(b) < palette().len(),
{
}

/// Out-of-range levels are clamped: every level at or below zero draws the
/// darkest glyph and every level at or above `SHADE_STEPS` the brightest.
pub proof fn lemma_shading_clamped(level: int)
    ensures
        level <= 0 ==> shade_glyph(level) == palette()[0],
        level >= SHADE_STEPS ==> shade_glyph(level) == palette()[palette().len() - 1],
        palette()[0] == '.',
        palette()[palette().len() - 1] == '@',
{
}

} // verus!
