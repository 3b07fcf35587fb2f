//! The document orchestrator: a strictly sequential walk over the fixed
//! grammar of interleaved comment and data lines, producing a fully
//! validated document or the first error met.

use vstd::prelude::*;
use crate::text::{
    trim, trim_str, lines, split_lines, views_of, first_occurrence, find_first, dec_str,
    append_decimal, CharSet,
};
use crate::error::{ParseError, ParseErrorModel};
use crate::records::{
    is_comment, check_comment, comment_text, spec_parse_name, spec_parse_weight,
    spec_parse_count, spec_parse_partner_name, spec_parse_temperatures,
    spec_parse_energy_level, spec_parse_radiative_transition, spec_parse_rates,
    SplittedFieldErrorModel, SplittedFieldParseError,
    EnergyLevel, EnergyLevelModel, EnergyLevelField, EnergyLevelParseError,
    RadiativeTransition, RadiativeTransitionModel, RadiativeTransitionField,
    RadiativeTransitionParseError, CollisionalRates, CollisionalRatesModel,
    CollisionalRatesField, CollisionalRatesParseError, CollisionalTemperatures,
    CollisionPartnerId, CollisionPartnerName, Comment, ElementName, ElementWeight,
};
use crate::res_models;
use crate::string_views;

verus! {

/// The model of one collision partner's data.
pub struct CollisionPartnerDataModel {
    pub name: CollisionPartnerId,
    pub information: Seq<char>,
    pub temperatures: Seq<Seq<char>>,
    pub rates: Seq<CollisionalRatesModel>,
}

/// One collision partner: its identity, free-text information, the
/// temperature grid, and one rate row per declared collisional transition.
#[derive(Debug, Default, PartialEq)]
pub struct CollisionPartnerData {
    pub name: CollisionPartnerId,
    pub information: String,
    pub temperatures: Vec<String>,
    pub rates: Vec<CollisionalRates>,
}

/// The views of a sequence of rate rows.
pub open spec fn rates_views(v: Seq<CollisionalRates>) -> Seq<CollisionalRatesModel> {
    v.map_values(|x: CollisionalRates| x@)
}

impl View for CollisionPartnerData {
    type V = CollisionPartnerDataModel;

    open spec fn view(&self) -> CollisionPartnerDataModel {
        CollisionPartnerDataModel {
            name: self.name,
            information: self.information@,
            temperatures: string_views(self.temperatures@),
            rates: rates_views(self.rates@),
        }
    }
}

/// The model of a fully parsed document.
pub struct ElementDataModel {
    pub name: Seq<char>,
    pub information: Seq<char>,
    pub weight: Seq<char>,
    pub energy_levels: Seq<EnergyLevelModel>,
    pub radiative_transitions: Seq<RadiativeTransitionModel>,
    pub collision_partners: Seq<CollisionPartnerDataModel>,
}

/// The views of a sequence of energy levels.
pub open spec fn level_views(v: Seq<EnergyLevel>) -> Seq<EnergyLevelModel> {
    v.map_values(|x: EnergyLevel| x@)
}

/// The views of a sequence of radiative transitions.
pub open spec fn transition_views(v: Seq<RadiativeTransition>) -> Seq<RadiativeTransitionModel> {
    v.map_values(|x: RadiativeTransition| x@)
}

/// The views of a sequence of collision partners.
pub open spec fn partner_views(v: Seq<CollisionPartnerData>) -> Seq<CollisionPartnerDataModel> {
    v.map_values(|x: CollisionPartnerData| x@)
}

/// A fully validated document: the species name and weight (the weight kept
/// as its literal floating-point token), accumulated free-text information,
/// and the three bounded sections. Constructed atomically by `from_text`;
/// never partially.
#[derive(Debug, Default, PartialEq)]
pub struct ElementData {
    pub name: String,
    pub information: String,
    pub weight: String,
    pub energy_levels: Vec<EnergyLevel>,
    pub radiative_transitions: Vec<RadiativeTransition>,
    pub collision_partners: Vec<CollisionPartnerData>,
}

impl View for ElementData {
    type V = ElementDataModel;

    open spec fn view(&self) -> ElementDataModel {
        ElementDataModel {
            name: self.name@,
            information: self.information@,
            weight: self.weight@,
            energy_levels: level_views(self.energy_levels@),
            radiative_transitions: transition_views(self.radiative_transitions@),
            collision_partners: partner_views(self.collision_partners@),
        }
    }
}

/// The note of a comment-gate failure.
pub open spec fn comment_note() -> Seq<char> {
    "Comment should begin with `!` character"@
}

/// The note of a malformed count line.
pub open spec fn int_note() -> Seq<char> {
    "Expected integer"@
}

/// The note of a malformed weight line.
pub open spec fn float_note() -> Seq<char> {
    "Expected floating point number"@
}

/// The note of an unknown collision-partner code, enumerating the seven
/// valid codes.
pub open spec fn partner_note() -> Seq<char> {
    "Unknown collision partner id (1=H2, 2=para-H2, 3=ortho-H2, 4=electrons, 5=H, 6=He, 7=H+)"@
}

/// The note of a record field that was never reached.
pub open spec fn missing_field_note(field: Seq<char>, kind: Seq<char>) -> Seq<char> {
    "Missing field `"@ + field + "` with value of "@ + kind + " type"@
}

/// The note of a record token with the wrong shape.
pub open spec fn unknown_item_note(value: Seq<char>, field: Seq<char>, kind: Seq<char>) -> Seq<char> {
    "Value `"@ + value + "` from field `"@ + field + "` has wrong type (should be "@ + kind + ")"@
}

/// The note of a temperature token with the wrong shape.
pub open spec fn bad_temperature_note(value: Seq<char>) -> Seq<char> {
    "Value `"@ + value + "` has wrong type (should be floating point number)"@
}

/// The note of a non-comment line after the last collision partner.
pub open spec fn trailing_note(npart: int) -> Seq<char> {
    dec_str(npart)
        + " collision partners were read, only comments with additional information should be left"@
}

/// The column of the first occurrence of `value` in `line`, or 0.
pub open spec fn column_of(line: Seq<char>, value: Seq<char>) -> int {
    match first_occurrence(line, value, 0) {
        Some(i) => i,
        None => 0,
    }
}

} // verus!

verus! {

/// The comment gate at line index `i` (0-based): the line must exist and
/// must start, after whitespace, with the `!` marker.
pub open spec fn expect_comment_at(ls: Seq<Seq<char>>, i: int) -> Result<(), ParseErrorModel> {
    if i < 0 || i >= ls.len() {
        Err(ParseErrorModel::NotEnoughInput { line_number: i + 1 })
    } else if !is_comment(ls[i]) {
        Err(
            ParseErrorModel::WrongCommentFormat {
                line_number: i + 1,
                line: ls[i],
                note: comment_note(),
            },
        )
    } else {
        Ok(())
    }
}

/// The name line at index `i`; it never fails once the line exists.
pub open spec fn name_at(ls: Seq<Seq<char>>, i: int) -> Result<
    crate::records::ElementNameModel,
    ParseErrorModel,
> {
    if i < 0 || i >= ls.len() {
        Err(ParseErrorModel::NotEnoughInput { line_number: i + 1 })
    } else {
        Ok(spec_parse_name(ls[i]))
    }
}

/// The weight line at index `i`: its trimmed text must have the shape of a
/// floating-point number.
pub open spec fn weight_at(ls: Seq<Seq<char>>, i: int) -> Result<Seq<char>, ParseErrorModel> {
    if i < 0 || i >= ls.len() {
        Err(ParseErrorModel::NotEnoughInput { line_number: i + 1 })
    } else {
        match spec_parse_weight(ls[i]) {
            Ok(w) => Ok(w),
            Err(_) => Err(
                ParseErrorModel::NotAFloat { line_number: i + 1, line: ls[i], note: float_note() },
            ),
        }
    }
}

/// A count line at index `i`: its trimmed text must be an unsigned integer.
pub open spec fn count_at(ls: Seq<Seq<char>>, i: int) -> Result<u32, ParseErrorModel> {
    if i < 0 || i >= ls.len() {
        Err(ParseErrorModel::NotEnoughInput { line_number: i + 1 })
    } else {
        match spec_parse_count(ls[i]) {
            Some(n) => Ok(n),
            None => Err(
                ParseErrorModel::NotAnInteger { line_number: i + 1, line: ls[i], note: int_note() },
            ),
        }
    }
}

/// An energy-level failure wrapped with its line context.
pub open spec fn wrap_level_error(
    e: SplittedFieldErrorModel<EnergyLevelField>,
    ln: int,
    line: Seq<char>,
) -> ParseErrorModel {
    match e {
        SplittedFieldErrorModel::MissingField { field, expected } => ParseErrorModel::MissingField {
            line_number: ln,
            line,
            note: missing_field_note(field.label_spec(), expected.label_spec()),
        },
        SplittedFieldErrorModel::UnknownFormat { field, value, expected } =>
            ParseErrorModel::UnknownItem {
            line_number: ln,
            column: column_of(line, value),
            value_width: value.len() as int,
            line,
            note: unknown_item_note(value, field.label_spec(), expected.label_spec()),
        },
    }
}

/// A radiative-transition failure wrapped with its line context.
pub open spec fn wrap_transition_error(
    e: SplittedFieldErrorModel<RadiativeTransitionField>,
    ln: int,
    line: Seq<char>,
) -> ParseErrorModel {
    match e {
        SplittedFieldErrorModel::MissingField { field, expected } => ParseErrorModel::MissingField {
            line_number: ln,
            line,
            note: missing_field_note(field.label_spec(), expected.label_spec()),
        },
        SplittedFieldErrorModel::UnknownFormat { field, value, expected } =>
            ParseErrorModel::UnknownItem {
            line_number: ln,
            column: column_of(line, value),
            value_width: value.len() as int,
            line,
            note: unknown_item_note(value, field.label_spec(), expected.label_spec()),
        },
    }
}

/// A collisional-rate failure wrapped with its line context.
pub open spec fn wrap_rates_error(
    e: SplittedFieldErrorModel<CollisionalRatesField>,
    ln: int,
    line: Seq<char>,
) -> ParseErrorModel {
    match e {
        SplittedFieldErrorModel::MissingField { field, expected } => ParseErrorModel::MissingField {
            line_number: ln,
            line,
            note: missing_field_note(field.label_spec(), expected.label_spec()),
        },
        SplittedFieldErrorModel::UnknownFormat { field, value, expected } =>
            ParseErrorModel::UnknownItem {
            line_number: ln,
            column: column_of(line, value),
            value_width: value.len() as int,
            line,
            note: unknown_item_note(value, field.label_spec(), expected.label_spec()),
        },
    }
}

/// The `n` energy-level lines from index `i` on.
pub open spec fn levels_from(ls: Seq<Seq<char>>, i: int, n: int) -> Result<
    Seq<EnergyLevelModel>,
    ParseErrorModel,
> 
    decreases n,
{
    if n <= 0 {
        Ok(Seq::empty())
    } else if i < 0 || i >= ls.len() {
        Err(ParseErrorModel::NotEnoughInput { line_number: i + 1 })
    } else {
        match spec_parse_energy_level(ls[i]) {
            Err(e) => Err(wrap_level_error(e, i + 1, ls[i])),
            Ok(item) => match levels_from(ls, i + 1, n - 1) {
                Ok(rest) => Ok(seq![item] + rest),
                Err(er) => Err(er),
            },
        }
    }
}

/// The `n` radiative-transition lines from index `i` on.
pub open spec fn transitions_from(ls: Seq<Seq<char>>, i: int, n: int) -> Result<
    Seq<RadiativeTransitionModel>,
    ParseErrorModel,
> 
    decreases n,
{
    if n <= 0 {
        Ok(Seq::empty())
    } else if i < 0 || i >= ls.len() {
        Err(ParseErrorModel::NotEnoughInput { line_number: i + 1 })
    } else {
        match spec_parse_radiative_transition(ls[i]) {
            Err(e) => Err(wrap_transition_error(e, i + 1, ls[i])),
            Ok(item) => match transitions_from(ls, i + 1, n - 1) {
                Ok(rest) => Ok(seq![item] + rest),
                Err(er) => Err(er),
            },
        }
    }
}

/// The `n` collisional-rate lines from index `i` on.
pub open spec fn rates_from(ls: Seq<Seq<char>>, i: int, n: int) -> Result<
    Seq<CollisionalRatesModel>,
    ParseErrorModel,
> 
    decreases n,
{
    if n <= 0 {
        Ok(Seq::empty())
    } else if i < 0 || i >= ls.len() {
        Err(ParseErrorModel::NotEnoughInput { line_number: i + 1 })
    } else {
        match spec_parse_rates(ls[i]) {
            Err(e) => Err(wrap_rates_error(e, i + 1, ls[i])),
            Ok(item) => match rates_from(ls, i + 1, n - 1) {
                Ok(rest) => Ok(seq![item] + rest),
                Err(er) => Err(er),
            },
        }
    }
}

/// One full collision-partner block starting at index `i`: comment, partner
/// name, comment, collisional-transition count, comment, temperature count,
/// comment, temperatures, comment, then one rate row per declared
/// collisional transition. Yields the partner and the index just past the
/// block.
pub open spec fn partner_at(ls: Seq<Seq<char>>, i: int) -> Result<
    (CollisionPartnerDataModel, int),
    ParseErrorModel,
> {
    match expect_comment_at(ls, i) {
        Err(e) => Err(e),
        Ok(_) => if i + 1 >= ls.len() {
            Err(ParseErrorModel::NotEnoughInput { line_number: i + 2 })
        } else {
            match spec_parse_partner_name(ls[i + 1]) {
                Err(_) => Err(
                    ParseErrorModel::UnknownCollisionPartner {
                        line_number: i + 2,
                        line: ls[i + 1],
                        note: partner_note(),
                    },
                ),
                Ok(nm) => match expect_comment_at(ls, i + 2) {
                    Err(e) => Err(e),
                    Ok(_) => match count_at(ls, i + 3) {
                        Err(e) => Err(e),
                        Ok(ncol) => match expect_comment_at(ls, i + 4) {
                            Err(e) => Err(e),
                            Ok(_) => match count_at(ls, i + 5) {
                                Err(e) => Err(e),
                                Ok(_ntemp) => match expect_comment_at(ls, i + 6) {
                                    Err(e) => Err(e),
                                    Ok(_) => if i + 7 >= ls.len() {
                                        Err(
                                            ParseErrorModel::NotEnoughInput {
                                                line_number: i + 8,
                                            },
                                        )
                                    } else {
                                        match spec_parse_temperatures(ls[i + 7]) {
                                            Err(v) => Err(
                                                ParseErrorModel::UnknownItem {
                                                    line_number: i + 8,
                                                    column: column_of(ls[i + 7], v),
                                                    value_width: v.len() as int,
                                                    line: ls[i + 7],
                                                    note: bad_temperature_note(v),
                                                },
                                            ),
                                            Ok(temps) => match expect_comment_at(ls, i + 8) {
                                                Err(e) => Err(e),
                                                Ok(_) => match rates_from(ls, i + 9, ncol as int) {
                                                    Err(e) => Err(e),
                                                    Ok(rs) => Ok(
                                                        (
                                                            CollisionPartnerDataModel {
                                                                name: nm.name,
                                                                information: nm.information,
                                                                temperatures: temps,
                                                                rates: rs,
                                                            },
                                                            i + 9 + ncol,
                                                        ),
                                                    ),
                                                },
                                            },
                                        }
                                    },
                                },
                            },
                        },
                    },
                },
            }
        },
    }
}

/// The `n` collision-partner blocks from index `i` on. Yields the partners
/// and the index just past the last block.
pub open spec fn partners_from(ls: Seq<Seq<char>>, i: int, n: int) -> Result<
    (Seq<CollisionPartnerDataModel>, int),
    ParseErrorModel,
> 
    decreases n,
{
    if n <= 0 {
        Ok((Seq::empty(), i))
    } else {
        match partner_at(ls, i) {
            Err(e) => Err(e),
            Ok((p, j)) => match partners_from(ls, j, n - 1) {
                Ok((rest, k)) => Ok((seq![p] + rest, k)),
                Err(e) => Err(e),
            },
        }
    }
}

/// Every remaining line from index `i` on: blank lines contribute nothing,
/// comment lines contribute their text followed by one space, and anything
/// else fails, noting how many partners were already read.
pub open spec fn trailing_from(ls: Seq<Seq<char>>, i: int, npart: int) -> Result<
    Seq<char>,
    ParseErrorModel,
> 
    decreases ls.len() - i,
{
    if i < 0 || i >= ls.len() {
        Ok(Seq::empty())
    } else if trim(ls[i], CharSet::Whitespace).len() == 0 {
        trailing_from(ls, i + 1, npart)
    } else if !is_comment(ls[i]) {
        Err(
            ParseErrorModel::WrongCommentFormat {
                line_number: i + 1,
                line: ls[i],
                note: trailing_note(npart),
            },
        )
    } else {
        match trailing_from(ls, i + 1, npart) {
            Ok(rest) => Ok(comment_text(ls[i]) + " "@ + rest),
            Err(e) => Err(e),
        }
    }
}

/// The whole document grammar over its lines: the fixed header, the three
/// bounded sections, and the trailing comments.
pub open spec fn parse_document_lines(ls: Seq<Seq<char>>) -> Result<
    ElementDataModel,
    ParseErrorModel,
> {
    match expect_comment_at(ls, 0) {
        Err(e) => Err(e),
        Ok(_) => match name_at(ls, 1) {
            Err(e) => Err(e),
            Ok(nm) => match expect_comment_at(ls, 2) {
                Err(e) => Err(e),
                Ok(_) => match weight_at(ls, 3) {
                    Err(e) => Err(e),
                    Ok(w) => match expect_comment_at(ls, 4) {
                        Err(e) => Err(e),
                        Ok(_) => match count_at(ls, 5) {
                            Err(e) => Err(e),
                            Ok(nlev) => match expect_comment_at(ls, 6) {
                                Err(e) => Err(e),
                                Ok(_) => match levels_from(ls, 7, nlev as int) {
                                    Err(e) => Err(e),
                                    Ok(levels) => parse_document_tail(ls, nm, w, levels, 7 + nlev),
                                },
                            },
                        },
                    },
                },
            },
        },
    }
}

/// The grammar from the radiative-transition section on; `i1` is the index
/// of the comment line that precedes the transition count.
pub open spec fn parse_document_tail(
    ls: Seq<Seq<char>>,
    nm: crate::records::ElementNameModel,
    w: Seq<char>,
    levels: Seq<EnergyLevelModel>,
    i1: int,
) -> Result<ElementDataModel, ParseErrorModel> {
    match expect_comment_at(ls, i1) {
        Err(e) => Err(e),
        Ok(_) => match count_at(ls, i1 + 1) {
            Err(e) => Err(e),
            Ok(nlin) => match expect_comment_at(ls, i1 + 2) {
                Err(e) => Err(e),
                Ok(_) => match transitions_from(ls, i1 + 3, nlin as int) {
                    Err(e) => Err(e),
                    Ok(trans) => {
                        let i2 = i1 + 3 + nlin;
                        match expect_comment_at(ls, i2) {
                            Err(e) => Err(e),
                            Ok(_) => match count_at(ls, i2 + 1) {
                                Err(e) => Err(e),
                                Ok(npart) => match partners_from(ls, i2 + 2, npart as int) {
                                    Err(e) => Err(e),
                                    Ok((parts, j)) => match trailing_from(ls, j, npart as int) {
                                        Err(e) => Err(e),
                                        Ok(tail) => Ok(
                                            ElementDataModel {
                                                name: nm.name,
                                                information: nm.information + ". "@ + tail,
                                                weight: w,
                                                energy_levels: levels,
                                                radiative_transitions: trans,
                                                collision_partners: parts,
                                            },
                                        ),
                                    },
                                },
                            },
                        }
                    },
                },
            },
        },
    }
}

/// A whole document: its lines, run through the grammar.
pub open spec fn spec_parse_document(text: Seq<char>) -> Result<ElementDataModel, ParseErrorModel> {
    parse_document_lines(lines(text))
}

} // verus!

verus! {

/// Build the note of a record field that was never reached.
fn build_missing_note(field: &str, kind: &str) -> (r: String)
    ensures
        r@ == missing_field_note(field@, kind@),
{
    let mut s = String::from_str("Missing field `");
    s.append(field);
    s.append("` with value of ");
    s.append(kind);
    s.append(" type");
    s
}

/// Build the note of a record token with the wrong shape.
fn build_unknown_note(value: &str, field: &str, kind: &str) -> (r: String)
    ensures
        r@ == unknown_item_note(value@, field@, kind@),
{
    let mut s = String::from_str("Value `");
    s.append(value);
    s.append("` from field `");
    s.append(field);
    s.append("` has wrong type (should be ");
    s.append(kind);
    s.append(")");
    s
}

/// Build the note of a temperature token with the wrong shape.
fn build_temperature_note(value: &str) -> (r: String)
    ensures
        r@ == bad_temperature_note(value@),
{
    let mut s = String::from_str("Value `");
    s.append(value);
    s.append("` has wrong type (should be floating point number)");
    s
}

/// Build the note of a non-comment line after the last collision partner.
fn build_trailing_note(npart: u32) -> (r: String)
    ensures
        r@ == trailing_note(npart as int),
{
    let mut s = String::new();
    append_decimal(&mut s, npart as u64);
    s.append(" collision partners were read, only comments with additional information should be left");
    s
}

/// The column of the first occurrence of `value` in `line`, or 0.
fn column_of_str(line: &str, value: &str) -> (r: usize)
    ensures
        r as int == column_of(line@, value@),
{
    match find_first(line, value) {
        Some(c) => c,
        None => 0,
    }
}

/// Wrap an energy-level failure with its line context.
fn wrap_level_error_exec(e: EnergyLevelParseError, ln: usize, line: &str) -> (r: ParseError)
    ensures
        r@ == wrap_level_error(e@, ln as int, line@),
{
    match e {
        SplittedFieldParseError::MissingField { field, expected } => ParseError::MissingField {
            line_number: ln,
            line: line.to_owned(),
            note: build_missing_note(field.label(), expected.label()),
        },
        SplittedFieldParseError::UnknownFormat { field, value, expected } => {
            let col = column_of_str(line, value.as_str());
            let w = value.as_str().unicode_len();
            ParseError::UnknownItem {
                line_number: ln,
                column: col,
                value_width: w,
                line: line.to_owned(),
                note: build_unknown_note(value.as_str(), field.label(), expected.label()),
            }
        },
    }
}

/// Wrap a radiative-transition failure with its line context.
fn wrap_transition_error_exec(e: RadiativeTransitionParseError, ln: usize, line: &str) -> (r:
    ParseError)
    ensures
        r@ == wrap_transition_error(e@, ln as int, line@),
{
    match e {
        SplittedFieldParseError::MissingField { field, expected } => ParseError::MissingField {
            line_number: ln,
            line: line.to_owned(),
            note: build_missing_note(field.label(), expected.label()),
        },
        SplittedFieldParseError::UnknownFormat { field, value, expected } => {
            let col = column_of_str(line, value.as_str());
            let w = value.as_str().unicode_len();
            ParseError::UnknownItem {
                line_number: ln,
                column: col,
                value_width: w,
                line: line.to_owned(),
                note: build_unknown_note(value.as_str(), field.label(), expected.label()),
            }
        },
    }
}

/// Wrap a collisional-rate failure with its line context.
fn wrap_rates_error_exec(e: CollisionalRatesParseError, ln: usize, line: &str) -> (r: ParseError)
    ensures
        r@ == wrap_rates_error(e@, ln as int, line@),
{
    match e {
        SplittedFieldParseError::MissingField { field, expected } => ParseError::MissingField {
            line_number: ln,
            line: line.to_owned(),
            note: build_missing_note(field.label(), expected.label()),
        },
        SplittedFieldParseError::UnknownFormat { field, value, expected } => {
            let col = column_of_str(line, value.as_str());
            let w = value.as_str().unicode_len();
            ParseError::UnknownItem {
                line_number: ln,
                column: col,
                value_width: w,
                line: line.to_owned(),
                note: build_unknown_note(value.as_str(), field.label(), expected.label()),
            }
        },
    }
}

/// Enforce the comment gate at line index `i`.
fn expect_comment(lines: &Vec<&str>, i: usize) -> (r: Result<(), ParseError>)
    requires
        i <= lines@.len(),
        lines@.len() < usize::MAX,
    ensures
        match r {
            Ok(_) => expect_comment_at(views_of(lines@), i as int) == Ok::<(), ParseErrorModel>(())
                && i < lines@.len(),
            Err(e) => expect_comment_at(views_of(lines@), i as int) == Err::<(), ParseErrorModel>(
                e@,
            ),
        },
{
    if i >= lines.len() {
        return Err(ParseError::NotEnoughInput { line_number: i + 1 });
    }
    let line = lines[i];
    proof {
        assert(views_of(lines@)[i as int] == lines@[i as int]@);
    }
    if check_comment(line) {
        Ok(())
    } else {
        Err(
            ParseError::WrongCommentFormat {
                line_number: i + 1,
                line: line.to_owned(),
                note: String::from_str("Comment should begin with `!` character"),
            },
        )
    }
}

/// Read the count line at index `i`.
fn read_count(lines: &Vec<&str>, i: usize) -> (r: Result<u32, ParseError>)
    requires
        i <= lines@.len(),
        lines@.len() < usize::MAX,
    ensures
        match r {
            Ok(n) => count_at(views_of(lines@), i as int) == Ok::<u32, ParseErrorModel>(n) && i
                < lines@.len(),
            Err(e) => count_at(views_of(lines@), i as int) == Err::<u32, ParseErrorModel>(e@),
        },
{
    if i >= lines.len() {
        return Err(ParseError::NotEnoughInput { line_number: i + 1 });
    }
    let line = lines[i];
    proof {
        assert(views_of(lines@)[i as int] == lines@[i as int]@);
    }
    match crate::records::parse_count_line(line) {
        Some(n) => Ok(n),
        None => Err(
            ParseError::NotAnInteger {
                line_number: i + 1,
                line: line.to_owned(),
                note: String::from_str("Expected integer"),
            },
        ),
    }
}

} // verus!

verus! {

/// Parse one full collision-partner block starting at line index `i`;
/// yields the partner and the index just past its last rate row.
#[verifier::rlimit(60)]
fn parse_partner_block(lines: &Vec<&str>, i: usize) -> (r: Result<
    (CollisionPartnerData, usize),
    ParseError,
>)
    requires
        i <= lines@.len(),
        lines@.len() < usize::MAX,
    ensures
        match r {
            Ok((p, j)) => partner_at(views_of(lines@), i as int) == Ok::<
                (CollisionPartnerDataModel, int),
                ParseErrorModel,
            >((p@, j as int)) && i <= j <= lines@.len(),
            Err(e) => partner_at(views_of(lines@), i as int) == Err::<
                (CollisionPartnerDataModel, int),
                ParseErrorModel,
            >(e@),
        },
{
    let ghost ls = views_of(lines@);
    if let Err(e) = expect_comment(lines, i) {
        return Err(e);
    }
    if i + 1 >= lines.len() {
        return Err(ParseError::NotEnoughInput { line_number: i + 2 });
    }
    let name_line = lines[i + 1];
    proof {
        assert(ls[i as int + 1] == lines@[i as int + 1]@);
    }
    let nm = match CollisionPartnerName::from_line(name_line) {
        Ok(nm) => nm,
        Err(_) => {
            return Err(
                ParseError::UnknownCollisionPartner {
                    line_number: i + 2,
                    line: name_line.to_owned(),
                    note: String::from_str(
                        "Unknown collision partner id (1=H2, 2=para-H2, 3=ortho-H2, 4=electrons, 5=H, 6=He, 7=H+)",
                    ),
                },
            );
        },
    };
    if let Err(e) = expect_comment(lines, i + 2) {
        return Err(e);
    }
    let ncol = match read_count(lines, i + 3) {
        Ok(n) => n,
        Err(e) => {
            return Err(e);
        },
    };
    if let Err(e) = expect_comment(lines, i + 4) {
        return Err(e);
    }
    let _ntemp = match read_count(lines, i + 5) {
        Ok(n) => n,
        Err(e) => {
            return Err(e);
        },
    };
    if let Err(e) = expect_comment(lines, i + 6) {
        return Err(e);
    }
    if i + 7 >= lines.len() {
        return Err(ParseError::NotEnoughInput { line_number: i + 8 });
    }
    let temp_line = lines[i + 7];
    proof {
        assert(ls[i as int + 7] == lines@[i as int + 7]@);
    }
    let temps = match CollisionalTemperatures::from_line(temp_line) {
        Ok(t) => t,
        Err(e) => {
            let col = column_of_str(temp_line, e.value.as_str());
            let w = e.value.as_str().unicode_len();
            return Err(
                ParseError::UnknownItem {
                    line_number: i + 8,
                    column: col,
                    value_width: w,
                    line: temp_line.to_owned(),
                    note: build_temperature_note(e.value.as_str()),
                },
            );
        },
    };
    if let Err(e) = expect_comment(lines, i + 8) {
        return Err(e);
    }
    let (rates, end) = match parse_rate_rows(lines, i + 9, ncol) {
        Ok(pair) => pair,
        Err(e) => {
            return Err(e);
        },
    };
    Ok(
        (
            CollisionPartnerData {
                name: nm.name,
                information: nm.information,
                temperatures: temps.0,
                rates,
            },
            end,
        ),
    )
}

/// Read exactly `n` collisional-rate rows starting at line index `start`;
/// yields the rows and the index just past the last one.
fn parse_rate_rows(lines: &Vec<&str>, start: usize, n: u32) -> (r: Result<
    (Vec<CollisionalRates>, usize),
    ParseError,
>)
    requires
        start <= lines@.len(),
        lines@.len() < usize::MAX,
    ensures
        match r {
            Ok((rows, j)) => rates_from(views_of(lines@), start as int, n as int) == Ok::<
                _,
                ParseErrorModel,
            >(rates_views(rows@)) && j == start + n && j <= lines@.len(),
            Err(e) => rates_from(views_of(lines@), start as int, n as int) == Err::<
                Seq<CollisionalRatesModel>,
                _,
            >(e@),
        },
{
    let ghost ls = views_of(lines@);
    let mut rates: Vec<CollisionalRates> = Vec::new();
    let mut idx: usize = start;
    let mut k: u32 = 0;
    proof {
        assert(rates_views(rates@) =~= Seq::<CollisionalRatesModel>::empty());
    }
    while k < n
        invariant
            start <= idx <= lines@.len(),
            idx == start + k,
            k <= n,
            lines@.len() < usize::MAX,
            ls == views_of(lines@),
            rates_from(ls, start as int, n as int) == (match rates_from(
                ls,
                idx as int,
                (n - k) as int,
            ) {
                Ok(rest) => Ok::<_, ParseErrorModel>(rates_views(rates@) + rest),
                Err(e) => Err::<Seq<CollisionalRatesModel>, _>(e),
            }),
        decreases n - k,
    {
        if idx >= lines.len() {
            return Err(ParseError::NotEnoughInput { line_number: idx + 1 });
        }
        let line = lines[idx];
        proof {
            assert(ls[idx as int] == lines@[idx as int]@);
        }
        match CollisionalRates::from_line(line) {
            Err(e) => {
                let wrapped = wrap_rates_error_exec(e, idx + 1, line);
                return Err(wrapped);
            },
            Ok(row) => {
                let ghost pre = rates@;
                rates.push(row);
                proof {
                    assert(rates_views(rates@) =~= rates_views(pre) + seq![row@]);
                    match rates_from(ls, idx as int + 1, (n - k) as int - 1) {
                        Ok(rest) => {
                            assert(rates_views(pre) + (seq![row@] + rest) =~= rates_views(rates@)
                                + rest);
                        },
                        Err(_) => {},
                    }
                }
                idx = idx + 1;
                k = k + 1;
            },
        }
    }
    proof {
        match rates_from(ls, start as int, n as int) {
            Ok(all) => {
                assert(rates_views(rates@) + Seq::<CollisionalRatesModel>::empty() =~= rates_views(
                    rates@,
                ));
            },
            Err(_) => {},
        }
    }
    Ok((rates, idx))
}

} // verus!

verus! {

/// Read exactly `n` energy-level lines starting at line index `start`.
fn parse_level_lines(lines: &Vec<&str>, start: usize, n: u32) -> (r: Result<
    Vec<EnergyLevel>,
    ParseError,
>)
    requires
        start <= lines@.len(),
        lines@.len() < usize::MAX,
    ensures
        match r {
            Ok(rows) => levels_from(views_of(lines@), start as int, n as int) == Ok::<
                _,
                ParseErrorModel,
            >(level_views(rows@)) && start + n <= lines@.len(),
            Err(e) => levels_from(views_of(lines@), start as int, n as int) == Err::<
                Seq<EnergyLevelModel>,
                _,
            >(e@),
        },
{
    let ghost ls = views_of(lines@);
    let mut rows: Vec<EnergyLevel> = Vec::new();
    let mut idx: usize = start;
    let mut k: u32 = 0;
    proof {
        assert(level_views(rows@) =~= Seq::<EnergyLevelModel>::empty());
    }
    while k < n
        invariant
            start <= idx <= lines@.len(),
            idx == start + k,
            k <= n,
            lines@.len() < usize::MAX,
            ls == views_of(lines@),
            levels_from(ls, start as int, n as int) == (match levels_from(
                ls,
                idx as int,
                (n - k) as int,
            ) {
                Ok(rest) => Ok::<_, ParseErrorModel>(level_views(rows@) + rest),
                Err(e) => Err::<Seq<EnergyLevelModel>, _>(e),
            }),
        decreases n - k,
    {
        if idx >= lines.len() {
            return Err(ParseError::NotEnoughInput { line_number: idx + 1 });
        }
        let line = lines[idx];
        proof {
            assert(ls[idx as int] == lines@[idx as int]@);
        }
        match EnergyLevel::from_line(line) {
            Err(e) => {
                let wrapped = wrap_level_error_exec(e, idx + 1, line);
                return Err(wrapped);
            },
            Ok(row) => {
                let ghost pre = rows@;
                rows.push(row);
                proof {
                    assert(level_views(rows@) =~= level_views(pre) + seq![row@]);
                    match levels_from(ls, idx as int + 1, (n - k) as int - 1) {
                        Ok(rest) => {
                            assert(level_views(pre) + (seq![row@] + rest) =~= level_views(rows@)
                                + rest);
                        },
                        Err(_) => {},
                    }
                }
                idx = idx + 1;
                k = k + 1;
            },
        }
    }
    proof {
        match levels_from(ls, start as int, n as int) {
            Ok(all) => {
                assert(level_views(rows@) + Seq::<EnergyLevelModel>::empty() =~= level_views(
                    rows@,
                ));
            },
            Err(_) => {},
        }
    }
    Ok(rows)
}

/// Read exactly `n` radiative-transition lines starting at line index
/// `start`.
fn parse_transition_lines(lines: &Vec<&str>, start: usize, n: u32) -> (r: Result<
    Vec<RadiativeTransition>,
    ParseError,
>)
    requires
        start <= lines@.len(),
        lines@.len() < usize::MAX,
    ensures
        match r {
            Ok(rows) => transitions_from(views_of(lines@), start as int, n as int) == Ok::<
                _,
                ParseErrorModel,
            >(transition_views(rows@)) && start + n <= lines@.len(),
            Err(e) => transitions_from(views_of(lines@), start as int, n as int) == Err::<
                Seq<RadiativeTransitionModel>,
                _,
            >(e@),
        },
{
    let ghost ls = views_of(lines@);
    let mut rows: Vec<RadiativeTransition> = Vec::new();
    let mut idx: usize = start;
    let mut k: u32 = 0;
    proof {
        assert(transition_views(rows@) =~= Seq::<RadiativeTransitionModel>::empty());
    }
    while k < n
        invariant
            start <= idx <= lines@.len(),
            idx == start + k,
            k <= n,
            lines@.len() < usize::MAX,
            ls == views_of(lines@),
            transitions_from(ls, start as int, n as int) == (match transitions_from(
                ls,
                idx as int,
                (n - k) as int,
            ) {
                Ok(rest) => Ok::<_, ParseErrorModel>(transition_views(rows@) + rest),
                Err(e) => Err::<Seq<RadiativeTransitionModel>, _>(e),
            }),
        decreases n - k,
    {
        if idx >= lines.len() {
            return Err(ParseError::NotEnoughInput { line_number: idx + 1 });
        }
        let line = lines[idx];
        proof {
            assert(ls[idx as int] == lines@[idx as int]@);
        }
        match RadiativeTransition::from_line(line) {
            Err(e) => {
                let wrapped = wrap_transition_error_exec(e, idx + 1, line);
                return Err(wrapped);
            },
            Ok(row) => {
                let ghost pre = rows@;
                rows.push(row);
                proof {
                    assert(transition_views(rows@) =~= transition_views(pre) + seq![row@]);
                    match transitions_from(ls, idx as int + 1, (n - k) as int - 1) {
                        Ok(rest) => {
                            assert(transition_views(pre) + (seq![row@] + rest) =~= transition_views(
                                rows@,
                            ) + rest);
                        },
                        Err(_) => {},
                    }
                }
                idx = idx + 1;
                k = k + 1;
            },
        }
    }
    proof {
        match transitions_from(ls, start as int, n as int) {
            Ok(all) => {
                assert(transition_views(rows@) + Seq::<RadiativeTransitionModel>::empty()
                    =~= transition_views(rows@));
            },
            Err(_) => {},
        }
    }
    Ok(rows)
}

/// Read exactly `n` collision-partner blocks starting at line index
/// `start`; yields the partners and the index just past the last block.
fn parse_partner_blocks(lines: &Vec<&str>, start: usize, n: u32) -> (r: Result<
    (Vec<CollisionPartnerData>, usize),
    ParseError,
>)
    requires
        start <= lines@.len(),
        lines@.len() < usize::MAX,
    ensures
        match r {
            Ok((parts, j)) => partners_from(views_of(lines@), start as int, n as int) == Ok::<
                _,
                ParseErrorModel,
            >((partner_views(parts@), j as int)) && j <= lines@.len(),
            Err(e) => partners_from(views_of(lines@), start as int, n as int) == Err::<
                (Seq<CollisionPartnerDataModel>, int),
                _,
            >(e@),
        },
{
    let ghost ls = views_of(lines@);
    let mut parts: Vec<CollisionPartnerData> = Vec::new();
    let mut idx: usize = start;
    let mut k: u32 = 0;
    proof {
        assert(partner_views(parts@) =~= Seq::<CollisionPartnerDataModel>::empty());
    }
    while k < n
        invariant
            idx <= lines@.len(),
            k <= n,
            lines@.len() < usize::MAX,
            ls == views_of(lines@),
            partners_from(ls, start as int, n as int) == (match partners_from(
                ls,
                idx as int,
                (n - k) as int,
            ) {
                Ok((rest, j)) => Ok::<_, ParseErrorModel>((partner_views(parts@) + rest, j)),
                Err(e) => Err::<(Seq<CollisionPartnerDataModel>, int), _>(e),
            }),
        decreases n - k,
    {
        match parse_partner_block(lines, idx) {
            Err(e) => {
                return Err(e);
            },
            Ok((p, j)) => {
                let ghost pre = parts@;
                parts.push(p);
                proof {
                    assert(partner_views(parts@) =~= partner_views(pre) + seq![p@]);
                    match partners_from(ls, j as int, (n - k) as int - 1) {
                        Ok((rest, _)) => {
                            assert(partner_views(pre) + (seq![p@] + rest) =~= partner_views(parts@)
                                + rest);
                        },
                        Err(_) => {},
                    }
                }
                idx = j;
                k = k + 1;
            },
        }
    }
    proof {
        match partners_from(ls, start as int, n as int) {
            Ok((all, _)) => {
                assert(partner_views(parts@) + Seq::<CollisionPartnerDataModel>::empty()
                    =~= partner_views(parts@));
            },
            Err(_) => {},
        }
    }
    Ok((parts, idx))
}

/// Gather the trailing comment lines from index `start` on into one
/// space-joined text.
fn parse_trailing_lines(lines: &Vec<&str>, start: usize, npart: u32) -> (r: Result<
    String,
    ParseError,
>)
    requires
        start <= lines@.len(),
        lines@.len() < usize::MAX,
    ensures
        match r {
            Ok(tail) => trailing_from(views_of(lines@), start as int, npart as int) == Ok::<
                _,
                ParseErrorModel,
            >(tail@),
            Err(e) => trailing_from(views_of(lines@), start as int, npart as int) == Err::<
                Seq<char>,
                _,
            >(e@),
        },
{
    let ghost ls = views_of(lines@);
    let n = lines.len();
    let mut tail = String::new();
    let mut idx: usize = start;
    proof {
        reveal_strlit(" ");
    }
    while idx < n
        invariant
            start <= idx <= n,
            n == lines@.len(),
            lines@.len() < usize::MAX,
            ls == views_of(lines@),
            " "@ == seq![' '],
            trailing_from(ls, start as int, npart as int) == (match trailing_from(
                ls,
                idx as int,
                npart as int,
            ) {
                Ok(rest) => Ok::<_, ParseErrorModel>(tail@ + rest),
                Err(e) => Err::<Seq<char>, _>(e),
            }),
        decreases n - idx,
    {
        let line = lines[idx];
        proof {
            assert(ls[idx as int] == lines@[idx as int]@);
        }
        let t = trim_str(line, CharSet::Whitespace);
        if t.unicode_len() == 0 {
            idx = idx + 1;
        } else if !check_comment(line) {
            return Err(
                ParseError::WrongCommentFormat {
                    line_number: idx + 1,
                    line: line.to_owned(),
                    note: build_trailing_note(npart),
                },
            );
        } else {
            let c = trim_str(line, CharSet::CommentTrim);
            let ghost pre = tail@;
            tail.append(c);
            tail.append(" ");
            proof {
                match trailing_from(ls, idx as int + 1, npart as int) {
                    Ok(rest) => {
                        assert(pre + (comment_text(ls[idx as int]) + " "@ + rest) =~= tail@ + rest);
                    },
                    Err(_) => {},
                }
            }
            idx = idx + 1;
        }
    }
    proof {
        assert(trailing_from(ls, idx as int, npart as int) == Ok::<_, ParseErrorModel>(
            Seq::<char>::empty(),
        ));
        match trailing_from(ls, start as int, npart as int) {
            Ok(all) => {
                assert(tail@ + Seq::<char>::empty() =~= tail@);
            },
            Err(_) => {},
        }
    }
    Ok(tail)
}

} // verus!

verus! {

impl ElementData {
    /// The comment gate: the whitespace-trimmed line must start with the
    /// `!` marker; on success the comment's informational text is returned.
    pub fn validate_and_parse_comment(line_number: usize, line: &str) -> (r: Result<
        Comment,
        ParseError,
    >)
        ensures
            match r {
                Ok(c) => is_comment(line@) && c.0@ == comment_text(line@),
                Err(e) => !is_comment(line@) && e@ == (ParseErrorModel::WrongCommentFormat {
                    line_number: line_number as int,
                    line: line@,
                    note: comment_note(),
                }),
            },
    {
        if check_comment(line) {
            Ok(Comment::from_line(line))
        } else {
            Err(
                ParseError::WrongCommentFormat {
                    line_number,
                    line: line.to_owned(),
                    note: String::from_str("Comment should begin with `!` character"),
                },
            )
        }
    }

    /// Parse a whole LAMDA document. Either every section is read and the
    /// document is returned complete, or the first structural problem is
    /// returned as a `ParseError`; no partial document ever escapes. The
    /// result is exactly what `spec_parse_document` assigns to the text.
    #[verifier::rlimit(60)]
    pub fn from_text(s: &str) -> (r: Result<ElementData, ParseError>)
        requires
            s@.len() < usize::MAX,
        ensures
            res_models(r, spec_parse_document(s@)),
    {
        let lines_vec = split_lines(s);
        let ghost ls = views_of(lines_vec@);
        if let Err(e) = expect_comment(&lines_vec, 0) {
            return Err(e);
        }
        if 1 >= lines_vec.len() {
            return Err(ParseError::NotEnoughInput { line_number: 2 });
        }
        let name_line = lines_vec[1];
        proof {
            assert(ls[1] == lines_vec@[1]@);
        }
        let nm = ElementName::from_line(name_line);
        if let Err(e) = expect_comment(&lines_vec, 2) {
            return Err(e);
        }
        if 3 >= lines_vec.len() {
            return Err(ParseError::NotEnoughInput { line_number: 4 });
        }
        let weight_line = lines_vec[3];
        proof {
            assert(ls[3] == lines_vec@[3]@);
        }
        let weight = match ElementWeight::from_line(weight_line) {
            Ok(w) => w,
            Err(_) => {
                return Err(
                    ParseError::NotAFloat {
                        line_number: 4,
                        line: weight_line.to_owned(),
                        note: String::from_str("Expected floating point number"),
                    },
                );
            },
        };
        if let Err(e) = expect_comment(&lines_vec, 4) {
            return Err(e);
        }
        let nlev = match read_count(&lines_vec, 5) {
            Ok(n) => n,
            Err(e) => {
                return Err(e);
            },
        };
        if let Err(e) = expect_comment(&lines_vec, 6) {
            return Err(e);
        }
        let levels = match parse_level_lines(&lines_vec, 7, nlev) {
            Ok(v) => v,
            Err(e) => {
                return Err(e);
            },
        };
        let i1: usize = 7 + (nlev as usize);
        if let Err(e) = expect_comment(&lines_vec, i1) {
            return Err(e);
        }
        let nlin = match read_count(&lines_vec, i1 + 1) {
            Ok(n) => n,
            Err(e) => {
                return Err(e);
            },
        };
        if let Err(e) = expect_comment(&lines_vec, i1 + 2) {
            return Err(e);
        }
        let trans = match parse_transition_lines(&lines_vec, i1 + 3, nlin) {
            Ok(v) => v,
            Err(e) => {
                return Err(e);
            },
        };
        let i2: usize = i1 + 3 + (nlin as usize);
        if let Err(e) = expect_comment(&lines_vec, i2) {
            return Err(e);
        }
        let npart = match read_count(&lines_vec, i2 + 1) {
            Ok(n) => n,
            Err(e) => {
                return Err(e);
            },
        };
        let (parts, j) = match parse_partner_blocks(&lines_vec, i2 + 2, npart) {
            Ok(pair) => pair,
            Err(e) => {
                return Err(e);
            },
        };
        let tail = match parse_trailing_lines(&lines_vec, j, npart) {
            Ok(t) => t,
            Err(e) => {
                return Err(e);
            },
        };
        let mut information = nm.information;
        information.append(". ");
        information.append(tail.as_str());
        let result = ElementData {
            name: nm.name,
            information,
            weight: weight.0,
            energy_levels: levels,
            radiative_transitions: trans,
            collision_partners: parts,
        };
        Ok(result)
    }
}

impl core::str::FromStr for ElementData {
    type Err = ParseError;

    fn from_str(s: &str) -> Result<ElementData, ParseError> {
        let n = s.unicode_len();
        if n < usize::MAX {
            ElementData::from_text(s)
        } else {
            Err(ParseError::NotEnoughInput { line_number: 1 })
        }
    }
}

} // verus!
