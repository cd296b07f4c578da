//! Terminal escape sequences: the pattern ESC `'['` `[0-9;]*` `[A-Za-z]`,
//! and the pass that deletes every leftmost, non-overlapping occurrence.
//!
//! A sequence that reaches the end of the line without its terminating
//! letter is not a match and stays in the text.

use vstd::prelude::*;

verus! {

/// A parameter character of an escape sequence: a decimal digit or `;`.
pub open spec fn is_param(c: char) -> bool {
    let u: u32 = c as u32;
    (0x30 <= u && u <= 0x39) || u == 0x3B
}

/// An ASCII letter, the only characters that terminate an escape sequence.
pub open spec fn is_letter(c: char) -> bool {
    let u: u32 = c as u32;
    (0x41 <= u && u <= 0x5A) || (0x61 <= u && u <= 0x7A)
}

/// The first position at or after `i` whose character is not a parameter
/// character, or the end of the line if the run of parameters reaches it.
pub open spec fn run_end(s: Seq<char>, i: int) -> int
    recommends
        0 <= i,
    decreases s.len() - i,
{
    if i < 0 || i >= s.len() {
        s.len() as int
    } else if is_param(s[i]) {
        run_end(s, i + 1)
    } else {
        i
    }
}

/// An escape sequence begins at position `i`: ESC, then `[`, then a run of
/// parameter characters, then a terminating letter before the end of the line.
pub open spec fn match_at(s: Seq<char>, i: int) -> bool {
    &&& 0 <= i
    &&& i + 1 < s.len()
    &&& s[i] == '\u{1b}'
    &&& s[i + 1] == '['
    &&& run_end(s, i + 2) < s.len()
    &&& is_letter(s[run_end(s, i + 2)])
}

/// One past the terminating letter of the escape sequence at `i`.
pub open spec fn match_end(s: Seq<char>, i: int) -> int {
    run_end(s, i + 2) + 1
}

/// The whole of `e` is a single escape sequence.
pub open spec fn is_escape_seq(e: Seq<char>) -> bool {
    &&& e.len() >= 3
    &&& e[0] == '\u{1b}'
    &&& e[1] == '['
    &&& forall|k: int| 2 <= k < e.len() - 1 ==> is_param(e[k])
    &&& is_letter(e[e.len() - 1])
}

/// No escape sequence begins anywhere in `s`.
pub open spec fn escape_free(s: Seq<char>) -> bool {
    forall|i: int| 0 <= i < s.len() ==> !match_at(s, i)
}

/// A run of parameter characters ends no earlier than where it starts and no
/// later than the end of the line.
pub proof fn lemma_run_end_bounds(s: Seq<char>, i: int)
    requires
        0 <= i <= s.len(),
    ensures
        i <= run_end(s, i) <= s.len(),
    decreases s.len() - i,
{
    if i < s.len() && is_param(s[i]) {
        lemma_run_end_bounds(s, i + 1);
    }
}

/// The text from position `i` on, with every leftmost, non-overlapping
/// escape sequence deleted. The scan never resumes inside deleted text, so
/// sequences formed by a deletion's two ends are kept, exactly as a single
/// left-to-right replacement pass keeps them.
pub open spec fn strip_from(s: Seq<char>, i: int) -> Seq<char>
    recommends
        0 <= i,
    decreases s.len() - i,
    via strip_from_decreases
{
    if i < 0 || i >= s.len() {
        Seq::empty()
    } else if match_at(s, i) {
        strip_from(s, match_end(s, i))
    } else {
        seq![s[i]] + strip_from(s, i + 1)
    }
}

#[via_fn]
proof fn strip_from_decreases(s: Seq<char>, i: int) {
    if 0 <= i && i < s.len() && match_at(s, i) {
        lemma_run_end_bounds(s, i + 2);
    }
}

/// The escape-stripping step on a whole line.
pub open spec fn strip_escapes(s: Seq<char>) -> Seq<char> {
    strip_from(s, 0)
}

/// A scan that saw parameter characters from `i` up to `j` and a
/// non-parameter character (or the end of the line) at `j` found the end of
/// the run.
pub proof fn lemma_run_end_scan(s: Seq<char>, i: int, j: int)
    requires
        0 <= i <= j <= s.len(),
        forall|k: int| i <= k < j ==> is_param(s[k]),
        j == s.len() || !is_param(s[j]),
    ensures
        run_end(s, i) == j,
    decreases j - i,
{
    if i < j {
        lemma_run_end_scan(s, i + 1, j);
    }
}

/// Stripping deletes whole sequences of at least three characters, so it
/// never lengthens the text.
pub proof fn lemma_strip_from_len(s: Seq<char>, i: int)
    requires
        0 <= i <= s.len(),
    ensures
        strip_from(s, i).len() <= s.len() - i,
    decreases s.len() - i,
{
    if i < s.len() {
        if match_at(s, i) {
            lemma_run_end_bounds(s, i + 2);
            lemma_strip_from_len(s, match_end(s, i));
        } else {
            lemma_strip_from_len(s, i + 1);
        }
    }
}

/// On text in which no escape sequence begins, stripping keeps every
/// character.
pub proof fn lemma_strip_from_identity(s: Seq<char>, i: int)
    requires
        0 <= i <= s.len(),
        escape_free(s),
    ensures
        strip_from(s, i) == s.skip(i),
    decreases s.len() - i,
{
    if i < s.len() {
        lemma_strip_from_identity(s, i + 1);
        assert(seq![s[i]] + s.skip(i + 1) =~= s.skip(i));
    } else {
        assert(s.skip(i) =~= Seq::<char>::empty());
    }
}

/// A run of parameters inside the suffix `t` is not changed by text placed
/// in front of it.
pub proof fn lemma_run_end_shift(u: Seq<char>, t: Seq<char>, k: int)
    requires
        0 <= k <= t.len(),
    ensures
        run_end(u + t, u.len() + k) == u.len() + run_end(t, k),
    decreases t.len() - k,
{
    let s = u + t;
    if k < t.len() {
        assert(s[u.len() + k] == t[k]);
        if is_param(t[k]) {
            lemma_run_end_shift(u, t, k + 1);
        }
    }
}

/// A match inside the suffix `t` is not changed by text placed in front of
/// it: the pattern reads only positions at or after its start.
pub proof fn lemma_match_at_shift(u: Seq<char>, t: Seq<char>, j: int)
    requires
        0 <= j,
    ensures
        match_at(u + t, u.len() + j) == match_at(t, j),
        match_at(t, j) ==> match_end(u + t, u.len() + j) == u.len() + match_end(t, j),
{
    let s = u + t;
    if j + 1 < t.len() {
        assert(s[u.len() + j] == t[j]);
        assert(s[u.len() + j + 1] == t[j + 1]);
        lemma_run_end_shift(u, t, j + 2);
        lemma_run_end_bounds(t, j + 2);
        let r = run_end(t, j + 2);
        if r < t.len() {
            assert(s[u.len() + r] == t[r]);
        }
    } else {
        assert(!match_at(t, j));
    }
}

/// Stripping the suffix `t` of a longer line from its own start gives the
/// same text as stripping `t` alone.
pub proof fn lemma_strip_from_suffix(u: Seq<char>, t: Seq<char>, j: int)
    requires
        0 <= j <= t.len(),
    ensures
        strip_from(u + t, u.len() + j) == strip_from(t, j),
    decreases t.len() - j,
{
    let s = u + t;
    if j < t.len() {
        lemma_match_at_shift(u, t, j);
        if match_at(t, j) {
            lemma_run_end_bounds(t, j + 2);
            lemma_strip_from_suffix(u, t, match_end(t, j));
        } else {
            assert(s[u.len() + j] == t[j]);
            lemma_strip_from_suffix(u, t, j + 1);
        }
    }
}

/// Appending `t` behind `a` changes no run of parameters that starts in `a`,
/// provided `t` opens with a non-parameter character.
pub proof fn lemma_run_end_append(a: Seq<char>, t: Seq<char>, j: int)
    requires
        0 <= j <= a.len(),
        t.len() > 0,
        !is_param(t[0]),
    ensures
        run_end(a + t, j) == run_end(a, j),
    decreases a.len() - j,
{
    let s = a + t;
    if j < a.len() {
        assert(s[j] == a[j]);
        if is_param(a[j]) {
            lemma_run_end_append(a, t, j + 1);
        }
    } else {
        assert(s[j] == t[0]);
    }
}

/// Appending `t` behind `a` neither completes nor destroys a match that
/// starts in `a`, provided `t` opens with a character that can stand in no
/// position of the pattern but the first: not a parameter, not a letter,
/// and not `[`.
pub proof fn lemma_match_at_append(a: Seq<char>, t: Seq<char>, i: int)
    requires
        0 <= i < a.len(),
        t.len() > 0,
        !is_param(t[0]),
        !is_letter(t[0]),
        t[0] != '[',
    ensures
        match_at(a + t, i) == match_at(a, i),
        match_at(a, i) ==> match_end(a + t, i) == match_end(a, i) && match_end(a, i) <= a.len(),
{
    let s = a + t;
    assert(s[i] == a[i]);
    if i + 1 < a.len() {
        assert(s[i + 1] == a[i + 1]);
        if a[i] == '\u{1b}' && a[i + 1] == '[' {
            lemma_run_end_append(a, t, i + 2);
            lemma_run_end_bounds(a, i + 2);
            let r = run_end(a, i + 2);
            if r < a.len() {
                assert(s[r] == a[r]);
            } else {
                assert(s[r] == t[0]);
            }
        }
    } else {
        assert(s[i + 1] == t[0]);
    }
}

/// Stripping a line followed by a blocker character processes the line
/// exactly as stripping it alone would: the blocker lets no partial pattern
/// continue across the boundary.
pub proof fn lemma_strip_from_append(a: Seq<char>, t: Seq<char>, i: int)
    requires
        0 <= i <= a.len(),
        t.len() > 0,
        !is_param(t[0]),
        !is_letter(t[0]),
        t[0] != '[',
    ensures
        strip_from(a + t, i) == strip_from(a, i) + strip_from(t, 0),
    decreases a.len() - i,
{
    let s = a + t;
    if i < a.len() {
        lemma_match_at_append(a, t, i);
        if match_at(a, i) {
            lemma_run_end_bounds(a, i + 2);
            lemma_strip_from_append(a, t, match_end(a, i));
        } else {
            assert(s[i] == a[i]);
            lemma_strip_from_append(a, t, i + 1);
            assert(seq![a[i]] + (strip_from(a, i + 1) + strip_from(t, 0)) =~= (seq![a[i]]
                + strip_from(a, i + 1)) + strip_from(t, 0));
        }
    } else {
        lemma_strip_from_suffix(a, t, 0);
        assert(strip_from(a, i) =~= Seq::<char>::empty());
        assert(Seq::<char>::empty() + strip_from(t, 0) =~= strip_from(t, 0));
    }
}

/// A complete escape sequence vanishes from between any two pieces of text,
/// and the two pieces are stripped exactly as they would be alone.
pub proof fn lemma_strip_escape_context(a: Seq<char>, e: Seq<char>, b: Seq<char>)
    requires
        is_escape_seq(e),
    ensures
        strip_escapes(a + e + b) == strip_escapes(a) + strip_escapes(b),
{
    let t = e + b;
    assert(t[0] == e[0]);
    assert(a + e + b =~= a + t);
    lemma_strip_from_append(a, t, 0);
    assert(forall|k: int| 2 <= k < e.len() - 1 ==> t[k] == e[k]);
    assert(t[e.len() - 1] == e[e.len() - 1]);
    lemma_run_end_scan(t, 2, e.len() - 1);
    assert(t[1] == e[1]);
    assert(match_at(t, 0));
    assert(strip_from(t, 0) == strip_from(t, e.len() as int));
    lemma_strip_from_suffix(e, b, 0);
    assert(strip_from(e + b, e.len() as int) == strip_from(b, 0));
}

/// The executable test for a parameter character.
pub fn is_param_char(c: char) -> (r: bool)
    ensures
        r == is_param(c),
{
    let u: u32 = c as u32;
    (0x30 <= u && u <= 0x39) || u == 0x3B
}

/// The executable test for an ASCII letter.
pub fn is_ascii_letter(c: char) -> (r: bool)
    ensures
        r == is_letter(c),
{
    let u: u32 = c as u32;
    (0x41 <= u && u <= 0x5A) || (0x61 <= u && u <= 0x7A)
}

/// The escape-stripping pass: one left-to-right scan that deletes every
/// leftmost, non-overlapping escape sequence and keeps every other
/// character, unterminated pattern prefixes included.
pub fn strip_escapes_exec(input: &str) -> (out: Vec<char>)
    ensures
        out@ == strip_escapes(input@),
{
    let n = input.unicode_len();
    let mut out: Vec<char> = Vec::new();
    proof {
        assert(Seq::<char>::empty() + strip_from(input@, 0) =~= strip_from(input@, 0));
    }
    let mut i: usize = 0;
    while i < n
        invariant
            n == input@.len(),
            i <= n,
            strip_escapes(input@) == out@ + strip_from(input@, i as int),
        decreases n - i,
    {
        let ghost s = input@;
        let ghost out_pre = out@;
        let c = input.get_char(i);
        let mut matched = false;
        if c == '\u{1b}' && i + 1 < n && input.get_char(i + 1) == '[' {
            let mut j: usize = i + 2;
            while j < n && is_param_char(input.get_char(j))
                invariant
                    n == input@.len(),
                    i + 2 <= j <= n,
                    forall|k: int| i + 2 <= k < j ==> is_param(input@[k]),
                decreases n - j,
            {
                j = j + 1;
            }
            proof {
                lemma_run_end_scan(s, i as int + 2, j as int);
            }
            if j < n && is_ascii_letter(input.get_char(j)) {
                proof {
                    assert(match_at(s, i as int));
                    assert(strip_from(s, i as int) == strip_from(s, j as int + 1));
                }
                matched = true;
                i = j + 1;
            }
        }
        if !matched {
            proof {
                assert(!match_at(s, i as int));
                assert(strip_from(s, i as int) == seq![s[i as int]] + strip_from(s, i as int + 1));
                assert(out_pre.push(s[i as int]) + strip_from(s, i as int + 1) =~= out_pre
                    + strip_from(s, i as int));
            }
            out.push(c);
            i = i + 1;
        }
    }
    proof {
        assert(strip_from(input@, n as int) =~= Seq::<char>::empty());
        assert(out@ + Seq::<char>::empty() =~= out@);
    }
    out
}

} // verus!
