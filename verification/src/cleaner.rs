//! The whole cleaning transformation: strip every escape sequence, then map
//! every box-drawing glyph to its ASCII replacement. The laws the
//! transformation obeys stand here as proof functions.

use vstd::prelude::*;

use crate::escape::escape_free;
use crate::escape::is_escape_seq;
use crate::escape::lemma_strip_escape_context;
use crate::escape::lemma_strip_from_identity;
use crate::escape::lemma_strip_from_len;
use crate::escape::strip_escapes;
use crate::escape::strip_escapes_exec;
use crate::glyph::glyph_ascii;
use crate::glyph::glyph_free;
use crate::glyph::glyph_sub;
use crate::glyph::lemma_map_glyphs_distributes;
use crate::glyph::lemma_map_glyphs_idempotent;
use crate::glyph::lemma_map_glyphs_identity;
use crate::glyph::map_glyphs;

verus! {

/// One cleaned line: the text with every complete escape sequence deleted
/// and, in what remains, every mapped glyph replaced by its ASCII
/// equivalent.
pub open spec fn clean(s: Seq<char>) -> Seq<char> {
    map_glyphs(strip_escapes(s))
}

/// Relies on `String::push`: appends the one character to the end of the
/// string.
#[verifier::external_body]
fn push_char(s: &mut String, c: char)
    ensures
        final(s)@ == old(s)@.push(c),
{
    s.push(c);
}

/// The glyph-remapping pass: every character of `v`, each sent through the
/// glyph table.
pub fn map_glyphs_exec(v: &Vec<char>) -> (out: String)
    ensures
        out@ == map_glyphs(v@),
{
    let mut out = String::new();
    let mut i: usize = 0;
    while i < v.len()
        invariant
            i <= v@.len(),
            out@.len() == i,
            forall|k: int| 0 <= k < i ==> out@[k] == glyph_sub(v@[k]),
        decreases v@.len() - i,
    {
        let c = glyph_ascii(v[i]);
        push_char(&mut out, c);
        i = i + 1;
    }
    proof {
        assert(out@ =~= map_glyphs(v@));
    }
    out
}

/// Cleans one line of text: deletes every complete `ESC [ … letter` escape
/// sequence, then replaces every box-drawing glyph with its ASCII
/// equivalent. Total: every line of valid text is accepted, and nothing of
/// it is changed beyond those two steps.
pub fn clean_text(input: &str) -> (out: String)
    ensures
        out@ == clean(input@),
{
    let stripped = strip_escapes_exec(input);
    map_glyphs_exec(&stripped)
}

/// The name of the output file beside an input file with stem `stem`.
pub fn output_file_name(stem: &str) -> (r: String)
    ensures
        r@ == stem@ + "_output.txt"@,
{
    let mut r = stem.to_owned();
    r.append("_output.txt");
    r
}

/// Cleaning text that holds no escape sequence and no mapped glyph returns
/// it unchanged.
pub proof fn lemma_clean_identity(x: Seq<char>)
    requires
        escape_free(x),
        glyph_free(x),
    ensures
        clean(x) == x,
{
    lemma_strip_from_identity(x, 0);
    assert(x.skip(0) =~= x);
    lemma_map_glyphs_identity(x);
}

/// A complete escape sequence vanishes wherever it stands: cleaning text
/// around it cleans the two sides exactly as it would clean them alone.
pub proof fn lemma_clean_escape_context(a: Seq<char>, e: Seq<char>, b: Seq<char>)
    requires
        is_escape_seq(e),
    ensures
        clean(a + e + b) == clean(a) + clean(b),
{
    lemma_strip_escape_context(a, e, b);
    lemma_map_glyphs_distributes(strip_escapes(a), strip_escapes(b));
}

/// Cleaning a second time changes nothing, provided the first pass left no
/// escape sequence behind. The proviso is needed: deleting a sequence can
/// pull an `ESC [` prefix and a letter together, and the glyph table can
/// mint the letter `X`, so a single pass may leave a new sequence that a
/// second pass would delete.
pub proof fn lemma_clean_idempotent(x: Seq<char>)
    requires
        escape_free(clean(x)),
    ensures
        clean(clean(x)) == clean(x),
{
    lemma_strip_from_identity(clean(x), 0);
    assert(clean(x).skip(0) =~= clean(x));
    lemma_map_glyphs_idempotent(strip_escapes(x));
}

/// Cleaning never lengthens a line: glyph replacement is one character for
/// one, and escape deletion only removes.
pub proof fn lemma_clean_len(x: Seq<char>)
    ensures
        clean(x).len() == strip_escapes(x).len(),
        clean(x).len() <= x.len(),
{
    lemma_strip_from_len(x, 0);
}

} // verus!
