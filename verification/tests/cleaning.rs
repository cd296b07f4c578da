use text_cleaner::clean_text;
use text_cleaner::output_file_name;

/// The glyph table as pairs of source glyph and ASCII replacement, written
/// out pair by pair.
fn glyph_table() -> Vec<(char, char)> {
    let mut t: Vec<(char, char)> = Vec::new();
    t.push(('├', '+'));
    t.push(('─', '-'));
    t.push(('│', '|'));
    for g in ['└', '┌', '┐', '┘', '┬', '┴', '┼', '╭', '╮', '╯', '╰'] {
        t.push((g, '+'));
    }
    for g in ['╒', '╓', '╔', '╕', '╖', '╗', '╘', '╙', '╚', '╛', '╜', '╝', '╞', '╟', '╠', '╡',
        '╢', '╣', '╤', '╥', '╦', '╧', '╨', '╩', '╪', '╫', '╬']
    {
        t.push((g, '+'));
    }
    t.push(('╱', '/'));
    t.push(('╲', '\\'));
    t.push(('╳', 'X'));
    for g in ['╴', '╶', '╸', '╺', '╼', '╾'] {
        t.push((g, '-'));
    }
    for g in ['╵', '╷', '╹', '╻', '╽', '╿'] {
        t.push((g, '|'));
    }
    t.push(('═', '='));
    t.push(('║', '|'));
    t
}

/// A reference cleaner built from the regex crate and a character map, the
/// way a plain implementation would write it.
fn reference_clean(input: &str) -> String {
    let ansi = regex::Regex::new(r"\x1B\[[0-9;]*[a-zA-Z]").unwrap();
    let stripped = ansi.replace_all(input, "");
    let table = glyph_table();
    stripped
        .chars()
        .map(|c| table.iter().find(|(g, _)| *g == c).map(|(_, a)| *a).unwrap_or(c))
        .collect()
}

#[test]
fn colour_codes_are_stripped() {
    assert_eq!(clean_text("\x1B[31mHello\x1B[0m"), "Hello");
}

#[test]
fn light_junctions_become_plus() {
    assert_eq!(clean_text("┼──┼"), "+--+");
    assert_eq!(clean_text("├──"), "+--");
}

#[test]
fn vertical_bars_become_pipes() {
    assert_eq!(clean_text("│ data │"), "| data |");
}

#[test]
fn plain_text_is_unchanged() {
    assert_eq!(clean_text("plain ascii line"), "plain ascii line");
}

#[test]
fn double_frame_becomes_ascii() {
    assert_eq!(clean_text("╔═══╗"), "+===+");
}

#[test]
fn unterminated_escape_is_kept() {
    assert_eq!(clean_text("\x1B[31"), "\x1B[31");
    assert_eq!(clean_text("\x1B[31;"), "\x1B[31;");
    assert_eq!(clean_text("\x1B["), "\x1B[");
    assert_eq!(clean_text("\x1B"), "\x1B");
}

#[test]
fn empty_line_stays_empty() {
    assert_eq!(clean_text(""), "");
}

#[test]
fn every_table_glyph_maps_to_its_ascii() {
    for (g, a) in glyph_table() {
        assert_eq!(clean_text(&g.to_string()), a.to_string());
    }
}

#[test]
fn unmapped_characters_pass_through() {
    assert_eq!(clean_text("┤"), "┤");
    assert_eq!(clean_text("héllo → 世界 3.14"), "héllo → 世界 3.14");
}

#[test]
fn escape_variants_are_stripped() {
    assert_eq!(clean_text("\x1B[m"), "");
    assert_eq!(clean_text("\x1B[123;456;789m"), "");
    assert_eq!(clean_text("\x1B[2K"), "");
    assert_eq!(clean_text("a\x1B[1mb\x1B[0mc"), "abc");
}

#[test]
fn non_csi_escapes_are_kept() {
    assert_eq!(clean_text("\x1B]0;title\x07"), "\x1B]0;title\x07");
}

#[test]
fn stripping_is_a_single_pass() {
    // Deleting the inner sequence pulls "\x1B[" and "31m" together, but the
    // scan does not resume inside the joined text.
    assert_eq!(clean_text("\x1B[\x1B[0m31m"), "\x1B[31m");
}

#[test]
fn escape_vanishes_between_any_context() {
    let a = "├─";
    let e = "\x1B[1;32m";
    let b = "─┼";
    let joined = format!("{}{}{}", a, e, b);
    let split = format!("{}{}", clean_text(a), clean_text(b));
    assert_eq!(clean_text(&joined), split);
}

#[test]
fn cleaning_twice_changes_nothing_once_settled() {
    for x in ["\x1B[31mHi╔╗", "├┤│─", "plain", "\x1B[31"] {
        let once = clean_text(x);
        assert_eq!(clean_text(&once), once);
    }
}

#[test]
fn diagonal_cross_can_complete_a_new_escape() {
    // The one way a second pass differs from the first: the table turns the
    // diagonal cross into the letter X, which can terminate a sequence that
    // an unterminated prefix left open.
    let once = clean_text("\x1B[31╳");
    assert_eq!(once, "\x1B[31X");
    assert_eq!(clean_text(&once), "");
}

#[test]
fn cleaning_never_lengthens_a_line() {
    for x in ["\x1B[31mHello\x1B[0m", "├──", "╔═══╗", "", "\x1B[31", "héllo"] {
        let cleaned = clean_text(x);
        assert!(cleaned.chars().count() <= x.chars().count());
    }
}

#[test]
fn glyph_replacement_preserves_character_count() {
    for x in ["├──", "╔═══╗", "│ data │", "╱╲╳"] {
        assert_eq!(clean_text(x).chars().count(), x.chars().count());
    }
}

#[test]
fn matches_a_regex_reference() {
    let inputs = [
        "\x1B[31mHello\x1B[0m",
        "┼──┼",
        "├──┤",
        "│ data │",
        "plain ascii line",
        "╔═══╗",
        "\x1B[31",
        "\x1B[\x1B[0m31m",
        "\x1B[;;m",
        "\x1B[31;m tail",
        "a\x1B[1mb\x1B[0mc╭╮╯╰",
        "\x1B]0;title\x07",
        "\x1B[31╳",
        "╴╵╶╷╸╹╺╻╼╽╾╿",
        "mixed ╠═╣ and \x1B[7mreverse\x1B[27m",
        "\x1B[A\x1B[B\x1B[C",
        "edge\x1B",
        "[0m no escape",
    ];
    for x in inputs {
        assert_eq!(clean_text(x), reference_clean(x), "input {:?}", x);
    }
}

#[test]
fn output_name_appends_suffix() {
    assert_eq!(output_file_name("notes"), "notes_output.txt");
    assert_eq!(output_file_name("output"), "output_output.txt");
}
