//! The glyph table: a fixed mapping from Unicode box- and line-drawing
//! characters to one-character ASCII replacements. Every other character is
//! left unchanged.

use vstd::prelude::*;

verus! {

/// The ASCII replacement of a single character: box- and line-drawing glyphs
/// map to `+ - | / \ X =`, every other character maps to itself.
///
/// The table covers the light junctions (U+250C..U+253C), the double and
/// mixed-weight junctions together with the arc corners (U+2552..U+2570),
/// the diagonals (U+2571..U+2573) and the half-lines (U+2574..U+257F).
pub open spec fn glyph_sub(c: char) -> char {
    let u: u32 = c as u32;
    if u == 0x2500 {
        '-'
    } else if u == 0x2502 {
        '|'
    } else if u == 0x250C || u == 0x2510 || u == 0x2514 || u == 0x2518 || u == 0x251C
        || u == 0x252C || u == 0x2534 || u == 0x253C {
        '+'
    } else if u == 0x2550 {
        '='
    } else if u == 0x2551 {
        '|'
    } else if 0x2552 <= u && u <= 0x2570 {
        '+'
    } else if u == 0x2571 {
        '/'
    } else if u == 0x2572 {
        '\\'
    } else if u == 0x2573 {
        'X'
    } else if 0x2574 <= u && u <= 0x257F {
        if u % 2 == 0 {
            '-'
        } else {
            '|'
        }
    } else {
        c
    }
}

/// A sequence is glyph-free when the table leaves every character unchanged.
pub open spec fn glyph_free(s: Seq<char>) -> bool {
    forall|i: int| 0 <= i < s.len() ==> glyph_sub(s[i]) == s[i]
}

/// The glyph-remapping step, applied pointwise to a whole line.
pub open spec fn map_glyphs(s: Seq<char>) -> Seq<char> {
    s.map_values(|c: char| glyph_sub(c))
}

/// The replacement of a character is never itself a mapped glyph, so a second
/// application of the table changes nothing.
pub proof fn lemma_glyph_sub_idempotent(c: char)
    ensures
        glyph_sub(glyph_sub(c)) == glyph_sub(c),
{
}

/// Remapping changes no character of a glyph-free sequence.
pub proof fn lemma_map_glyphs_identity(s: Seq<char>)
    requires
        glyph_free(s),
    ensures
        map_glyphs(s) == s,
{
    assert(map_glyphs(s) =~= s);
}

/// Remapping is idempotent: one pass already removes every mapped glyph.
pub proof fn lemma_map_glyphs_idempotent(s: Seq<char>)
    ensures
        map_glyphs(map_glyphs(s)) == map_glyphs(s),
{
    assert forall|i: int| 0 <= i < s.len() implies glyph_sub(glyph_sub(s[i])) == glyph_sub(
        s[i],
    ) by {
        lemma_glyph_sub_idempotent(s[i]);
    }
    assert(map_glyphs(map_glyphs(s)) =~= map_glyphs(s));
}

/// Remapping a character count: the step is one-for-one.
pub proof fn lemma_map_glyphs_len(s: Seq<char>)
    ensures
        map_glyphs(s).len() == s.len(),
{
}

/// Remapping acts pointwise, so it distributes over concatenation.
pub proof fn lemma_map_glyphs_distributes(a: Seq<char>, b: Seq<char>)
    ensures
        map_glyphs(a + b) == map_glyphs(a) + map_glyphs(b),
{
    assert(map_glyphs(a + b) =~= map_glyphs(a) + map_glyphs(b));
}

/// The executable glyph lookup.
pub fn glyph_ascii(c: char) -> (r: char)
    ensures
        r == glyph_sub(c),
{
    let u: u32 = c as u32;
    if u == 0x2500 {
        '-'
    } else if u == 0x2502 {
        '|'
    } else if u == 0x250C || u == 0x2510 || u == 0x2514 || u == 0x2518 || u == 0x251C
        || u == 0x252C || u == 0x2534 || u == 0x253C {
        '+'
    } else if u == 0x2550 {
        '='
    } else if u == 0x2551 {
        '|'
    } else if 0x2552 <= u && u <= 0x2570 {
        '+'
    } else if u == 0x2571 {
        '/'
    } else if u == 0x2572 {
        '\\'
    } else if u == 0x2573 {
        'X'
    } else if 0x2574 <= u && u <= 0x257F {
        if u % 2 == 0 {
            '-'
        } else {
            '|'
        }
    } else {
        c
    }
}

} // verus!
