//! The diagnostic renderer: three lines, a six-character gutter, and exact
//! caret placement for every error kind.

use lamda::document::ElementData;
use lamda::error::ParseError;

fn head(line_number: usize, line: &str) -> String {
    format!("{:>6} | {}\n", line_number, line)
}

fn carets(column: usize, width: usize) -> String {
    format!("{:>6} | {}{}\n", "", " ".repeat(column), "^".repeat(width))
}

fn note(text: &str) -> String {
    format!("{:>6} = {}.\n", "", text)
}

#[test]
fn render_not_enough_input() {
    let e = "".parse::<ElementData>().unwrap_err();
    let expected = format!(
        "{:>6} |\n{}{}",
        1,
        carets(0, 6),
        note("Line 1 is empty, but there should be more input")
    );
    assert_eq!(e.render(), expected);
}

#[test]
fn render_wrong_comment_format_points_at_line_start() {
    let e = "MOLECULE\n".parse::<ElementData>().unwrap_err();
    let expected = format!(
        "{}{}{}",
        head(1, "MOLECULE"),
        carets(0, 1),
        note("Comment should begin with `!` character")
    );
    assert_eq!(e.render(), expected);
}

#[test]
fn render_not_a_float_underlines_the_whole_line() {
    let e = "!A\nX\n!B\ntwenty\n".parse::<ElementData>().unwrap_err();
    let expected = format!(
        "{}{}{}",
        head(4, "twenty"),
        carets(0, 6),
        note("Expected floating point number")
    );
    assert_eq!(e.render(), expected);
}

#[test]
fn render_not_an_integer_underlines_the_whole_line() {
    let e = "!A\nX\n!B\n1.0\n!C\nmany\n".parse::<ElementData>().unwrap_err();
    let expected = format!(
        "{}{}{}",
        head(6, "many"),
        carets(0, 4),
        note("Expected integer")
    );
    assert_eq!(e.render(), expected);
}

#[test]
fn render_missing_field_points_one_past_the_text() {
    let e = "!A\nX\n!B\n1.0\n!C\n1\n!D\n1 0.0\n".parse::<ElementData>().unwrap_err();
    let expected = format!(
        "{}{}{}",
        head(8, "1 0.0"),
        carets(6, 6),
        note("Missing field `statistical weight` with value of floating point number type")
    );
    assert_eq!(e.render(), expected);
}

#[test]
fn render_unknown_item_points_at_the_token() {
    let e = "!A\nX\n!B\n1.0\n!C\n1\n!D\n1 badx 2.0\n".parse::<ElementData>().unwrap_err();
    let expected = format!(
        "{}{}{}",
        head(8, "1 badx 2.0"),
        carets(2, 4),
        note("Value `badx` from field `energy [cm-1]` has wrong type (should be floating point number)")
    );
    assert_eq!(e.render(), expected);
}

#[test]
fn render_expands_tabs_so_the_caret_still_aligns() {
    let e = "!A\nX\n!B\n1.0\n!C\n1\n!D\n1\tbadx\t2.0\n".parse::<ElementData>().unwrap_err();
    let expected = format!(
        "{}{}{}",
        head(8, "1 badx 2.0"),
        carets(2, 4),
        note("Value `badx` from field `energy [cm-1]` has wrong type (should be floating point number)")
    );
    assert_eq!(e.render(), expected);
}

#[test]
fn render_unknown_partner_points_at_its_code() {
    let mut text = String::new();
    text.push_str("!MOLECULE\nX\n!W\n1.0\n!L\n0\n!LL\n!T\n0\n!TT\n!P\n1\n");
    text.push_str("!COLLISIONS BETWEEN\n");
    text.push_str("  9 exotic\n");
    let e = text.parse::<ElementData>().unwrap_err();
    let expected = format!(
        "{}{}{}",
        head(14, "  9 exotic"),
        carets(2, 1),
        note("Unknown collision partner id (1=H2, 2=para-H2, 3=ortho-H2, 4=electrons, 5=H, 6=He, 7=H+)")
    );
    assert_eq!(e.render(), expected);
}
