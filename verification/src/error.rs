//! The closed set of parse errors and the renderer that turns each into a
//! three-line, caret-pointing annotation.

use vstd::prelude::*;
use crate::text::{
    dec_str, repeat_char, right_aligned, run_end, lemma_run_end, tokens, scan_while,
    append_carets, append_decimal, append_right_aligned, append_spaces, CharSet,
};

verus! {

/// The mathematical shape of a `ParseError`, over character sequences.
pub enum ParseErrorModel {
    NotEnoughInput { line_number: int },
    WrongCommentFormat { line_number: int, line: Seq<char>, note: Seq<char> },
    MissingField { line_number: int, line: Seq<char>, note: Seq<char> },
    NotAFloat { line_number: int, line: Seq<char>, note: Seq<char> },
    NotAnInteger { line_number: int, line: Seq<char>, note: Seq<char> },
    UnknownItem {
        line_number: int,
        column: int,
        value_width: int,
        line: Seq<char>,
        note: Seq<char>,
    },
    UnknownCollisionPartner { line_number: int, line: Seq<char>, note: Seq<char> },
}

/// The first structural problem a parse ran into. Every variant carries the
/// 1-based number of the offending line, and all but `NotEnoughInput` keep
/// the raw line text and a human-oriented note, enough to render a
/// diagnostic without re-reading the source.
#[derive(Debug, PartialEq, Eq)]
pub enum ParseError {
    /// The input ended where a line with the given number was still expected.
    NotEnoughInput { line_number: usize },
    /// A line that had to be a comment does not start with `!`.
    WrongCommentFormat { line_number: usize, line: String, note: String },
    /// A record line ended before one of its mandatory fields.
    MissingField { line_number: usize, line: String, note: String },
    /// A line that had to hold a floating-point number does not.
    NotAFloat { line_number: usize, line: String, note: String },
    /// A line that had to hold an unsigned integer does not.
    NotAnInteger { line_number: usize, line: String, note: String },
    /// A token inside a line has the wrong shape; `column` is its first
    /// occurrence in the line and `value_width` its width.
    UnknownItem {
        line_number: usize,
        column: usize,
        value_width: usize,
        line: String,
        note: String,
    },
    /// A collision-partner line does not begin with one of the seven codes.
    UnknownCollisionPartner { line_number: usize, line: String, note: String },
}

impl View for ParseError {
    type V = ParseErrorModel;

    open spec fn view(&self) -> ParseErrorModel {
        match self {
            ParseError::NotEnoughInput { line_number } => ParseErrorModel::NotEnoughInput {
                line_number: *line_number as int,
            },
            ParseError::WrongCommentFormat { line_number, line, note } =>
                ParseErrorModel::WrongCommentFormat {
                line_number: *line_number as int,
                line: line@,
                note: note@,
            },
            ParseError::MissingField { line_number, line, note } => ParseErrorModel::MissingField {
                line_number: *line_number as int,
                line: line@,
                note: note@,
            },
            ParseError::NotAFloat { line_number, line, note } => ParseErrorModel::NotAFloat {
                line_number: *line_number as int,
                line: line@,
                note: note@,
            },
            ParseError::NotAnInteger { line_number, line, note } => ParseErrorModel::NotAnInteger {
                line_number: *line_number as int,
                line: line@,
                note: note@,
            },
            ParseError::UnknownItem { line_number, column, value_width, line, note } =>
                ParseErrorModel::UnknownItem {
                line_number: *line_number as int,
                column: *column as int,
                value_width: *value_width as int,
                line: line@,
                note: note@,
            },
            ParseError::UnknownCollisionPartner { line_number, line, note } =>
                ParseErrorModel::UnknownCollisionPartner {
                line_number: *line_number as int,
                line: line@,
                note: note@,
            },
        }
    }
}

/// `s` with every tab replaced by a single space, so that a caret column
/// computed on the text aligns under the printed line.
pub open spec fn expand_tabs(s: Seq<char>) -> Seq<char> {
    s.map_values(|c: char| if c == '\t' { ' ' } else { c })
}

/// The width of the line-number gutter of every rendered diagnostic.
pub open spec fn gutter_width() -> int {
    6
}

/// The first rendered line: the right-aligned line number, a pipe, and the
/// tab-expanded source line.
pub open spec fn head_line(line_number: int, line: Seq<char>) -> Seq<char> {
    right_aligned(line_number, gutter_width()) + " | "@ + expand_tabs(line) + "\n"@
}

/// The second rendered line: a blank gutter, then a caret run of the given
/// width starting at the given column of the source line.
pub open spec fn caret_line(column: int, width: int) -> Seq<char> {
    repeat_char(' ', gutter_width()) + " | "@ + repeat_char(' ', column) + repeat_char('^', width)
        + "\n"@
}

/// The third rendered line: a blank gutter and the note, closed by a period.
pub open spec fn note_line(note: Seq<char>) -> Seq<char> {
    repeat_char(' ', gutter_width()) + " = "@ + note + ".\n"@
}

/// The column of the first ASCII-alphanumeric character of `line`, or 0.
pub open spec fn alnum_offset(line: Seq<char>) -> int {
    let a = run_end(line, 0, CharSet::NonAlnum);
    if a == line.len() {
        0
    } else {
        a
    }
}

/// The width of the first whitespace-separated token of `line`, or 0.
pub open spec fn first_token_width(line: Seq<char>) -> int {
    if tokens(line).len() == 0 {
        0
    } else {
        tokens(line)[0].len() as int
    }
}

/// The full three-line rendering of an error. The caret is placed at the
/// start of the line for a malformed comment, across the whole line for a
/// malformed count or weight line, one past the end of the visible text for
/// a missing field, at the offending token for a mistyped value, and on the
/// first alphanumeric character for an unknown collision partner.
pub open spec fn render_spec(e: ParseErrorModel) -> Seq<char> {
    match e {
        ParseErrorModel::NotEnoughInput { line_number } => right_aligned(
            line_number,
            gutter_width(),
        ) + " |\n"@ + caret_line(0, gutter_width()) + repeat_char(' ', gutter_width()) + " = Line "@
            + dec_str(line_number) + " is empty, but there should be more input.\n"@,
        ParseErrorModel::WrongCommentFormat { line_number, line, note } => head_line(
            line_number,
            line,
        ) + caret_line(0, 1) + note_line(note),
        ParseErrorModel::MissingField { line_number, line, note } => head_line(line_number, line)
            + caret_line(line.len() as int + 1, gutter_width()) + note_line(note),
        ParseErrorModel::NotAFloat { line_number, line, note } => head_line(line_number, line)
            + caret_line(0, line.len() as int) + note_line(note),
        ParseErrorModel::NotAnInteger { line_number, line, note } => head_line(line_number, line)
            + caret_line(0, line.len() as int) + note_line(note),
        ParseErrorModel::UnknownItem { line_number, column, value_width, line, note } => head_line(
            line_number,
            line,
        ) + caret_line(column, value_width) + note_line(note),
        ParseErrorModel::UnknownCollisionPartner { line_number, line, note } => head_line(
            line_number,
            line,
        ) + caret_line(alnum_offset(line), first_token_width(line)) + note_line(note),
    }
}

/// Append `line` to `acc` with every tab replaced by a single space.
fn append_tab_expanded(acc: &mut String, line: &str)
    ensures
        final(acc)@ == old(acc)@ + expand_tabs(line@),
{
    let n = line.unicode_len();
    let mut i: usize = 0;
    proof {
        reveal_strlit(" ");
    }
    while i < n
        invariant
            i <= n,
            n == line@.len(),
            " "@ == seq![' '],
            acc@ =~= old(acc)@ + expand_tabs(line@.take(i as int)),
        decreases n - i,
    {
        let e = scan_while(line, i, CharSet::NonTab);
        proof {
            lemma_run_end(line@, i as int, CharSet::NonTab);
        }
        if e > i {
            let part = line.substring_char(i, e);
            acc.append(part);
            proof {
                assert(acc@ =~= old(acc)@ + expand_tabs(line@.take(e as int)));
            }
            i = e;
        } else {
            acc.append(" ");
            proof {
                assert(acc@ =~= old(acc)@ + expand_tabs(line@.take(i + 1)));
            }
            i = i + 1;
        }
    }
    proof {
        assert(line@.take(n as int) =~= line@);
    }
}

impl ParseError {
    /// Render this error as its three-line diagnostic, exactly as
    /// `render_spec` lays it out.
    pub fn render(&self) -> (r: String)
        ensures
            r@ == render_spec(self@),
    {
        let mut acc = String::new();
        match self {
            ParseError::NotEnoughInput { line_number } => {
                append_right_aligned(&mut acc, *line_number as u64, 6);
                acc.append(" |\n");
                append_spaces(&mut acc, 6);
                acc.append(" | ");
                append_carets(&mut acc, 6);
                acc.append("\n");
                append_spaces(&mut acc, 6);
                acc.append(" = Line ");
                append_decimal(&mut acc, *line_number as u64);
                acc.append(" is empty, but there should be more input.\n");
                proof {
                    assert(acc@ =~= render_spec(self@));
                }
            },
            ParseError::WrongCommentFormat { line_number, line, note } => {
                append_head_line(&mut acc, *line_number, line.as_str());
                append_caret_line(&mut acc, 0, 1);
                append_note_line(&mut acc, note.as_str());
                proof {
                    assert(acc@ =~= render_spec(self@));
                }
            },
            ParseError::MissingField { line_number, line, note } => {
                append_head_line(&mut acc, *line_number, line.as_str());
                let w = line.as_str().unicode_len();
                append_spaces(&mut acc, 6);
                acc.append(" | ");
                append_spaces(&mut acc, w);
                acc.append(" ");
                append_carets(&mut acc, 6);
                acc.append("\n");
                proof {
                    reveal_strlit(" ");
                    assert(acc@ =~= head_line(*line_number as int, line@)
                        + caret_line(line@.len() as int + 1, 6));
                }
                append_note_line(&mut acc, note.as_str());
                proof {
                    assert(acc@ =~= render_spec(self@));
                }
            },
            ParseError::NotAFloat { line_number, line, note } => {
                append_head_line(&mut acc, *line_number, line.as_str());
                let w = line.as_str().unicode_len();
                append_caret_line(&mut acc, 0, w);
                append_note_line(&mut acc, note.as_str());
                proof {
                    assert(acc@ =~= render_spec(self@));
                }
            },
            ParseError::NotAnInteger { line_number, line, note } => {
                append_head_line(&mut acc, *line_number, line.as_str());
                let w = line.as_str().unicode_len();
                append_caret_line(&mut acc, 0, w);
                append_note_line(&mut acc, note.as_str());
                proof {
                    assert(acc@ =~= render_spec(self@));
                }
            },
            ParseError::UnknownItem { line_number, column, value_width, line, note } => {
                append_head_line(&mut acc, *line_number, line.as_str());
                append_caret_line(&mut acc, *column, *value_width);
                append_note_line(&mut acc, note.as_str());
                proof {
                    assert(acc@ =~= render_spec(self@));
                }
            },
            ParseError::UnknownCollisionPartner { line_number, line, note } => {
                append_head_line(&mut acc, *line_number, line.as_str());
                let ls = line.as_str();
                let n = ls.unicode_len();
                let a = scan_while(ls, 0, CharSet::NonAlnum);
                let col = if a == n {
                    0
                } else {
                    a
                };
                let toks = crate::text::tokenize(ls);
                let w = if toks.len() == 0 {
                    0
                } else {
                    toks[0].unicode_len()
                };
                proof {
                    assert(col as int == alnum_offset(line@));
                    assert(crate::text::views_of(toks@).len() == tokens(line@).len());
                    if toks@.len() > 0 {
                        assert(crate::text::views_of(toks@)[0] == toks@[0]@);
                    }
                    assert(w as int == first_token_width(line@));
                }
                append_caret_line(&mut acc, col, w);
                append_note_line(&mut acc, note.as_str());
                proof {
                    assert(acc@ =~= render_spec(self@));
                }
            },
        }
        acc
    }
}

/// Append the first rendered line of a diagnostic.
fn append_head_line(acc: &mut String, line_number: usize, line: &str)
    ensures
        final(acc)@ == old(acc)@ + head_line(line_number as int, line@),
{
    append_right_aligned(acc, line_number as u64, 6);
    acc.append(" | ");
    append_tab_expanded(acc, line);
    acc.append("\n");
}

/// Append the caret line of a diagnostic.
fn append_caret_line(acc: &mut String, column: usize, width: usize)
    ensures
        final(acc)@ == old(acc)@ + caret_line(column as int, width as int),
{
    append_spaces(acc, 6);
    acc.append(" | ");
    append_spaces(acc, column);
    append_carets(acc, width);
    acc.append("\n");
}

/// Append the note line of a diagnostic.
fn append_note_line(acc: &mut String, note: &str)
    ensures
        final(acc)@ == old(acc)@ + note_line(note@),
{
    append_spaces(acc, 6);
    acc.append(" = ");
    acc.append(note);
    acc.append(".\n");
}

} // verus!
