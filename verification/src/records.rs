//! Field and record parsers: each turns one line's text into one typed
//! value, or a narrow, field-attributed failure that the orchestrator later
//! wraps with line context.

use vstd::prelude::*;
use crate::text::{
    trim, trim_str, tokens, tokenize, views_of, join_spaced, append_joined, run_end,
    scan_while, CharSet,
};
use crate::numbers::{parse_u32, parse_u32_str, is_float, is_float_str};
use crate::res_models;

verus! {

/// The kind of value a record field must hold, used to name it in notes.
#[derive(Clone, Copy, Debug, PartialEq, Eq, Structural)]
pub enum ExpectedFieldValue {
    Integer,
    Float,
}

impl ExpectedFieldValue {
    pub open spec fn label_spec(self) -> Seq<char> {
        match self {
            ExpectedFieldValue::Integer => "integer"@,
            ExpectedFieldValue::Float => "floating point number"@,
        }
    }

    /// The human-readable name of this kind of value.
    pub fn label(&self) -> (r: &'static str)
        ensures
            r@ == self.label_spec(),
    {
        match self {
            ExpectedFieldValue::Integer => "integer",
            ExpectedFieldValue::Float => "floating point number",
        }
    }
}

/// A failure while mapping the whitespace-split tokens of one line onto a
/// fixed prefix of typed fields.
#[derive(Debug, PartialEq)]
pub enum SplittedFieldParseError<F> {
    /// The token stream ended before this field was reached.
    MissingField { field: F, expected: ExpectedFieldValue },
    /// A token exists but does not parse as the expected kind; its literal
    /// text is kept verbatim for later column lookup.
    UnknownFormat { field: F, value: String, expected: ExpectedFieldValue },
}

/// The mathematical shape of `SplittedFieldParseError`.
pub enum SplittedFieldErrorModel<F> {
    MissingField { field: F, expected: ExpectedFieldValue },
    UnknownFormat { field: F, value: Seq<char>, expected: ExpectedFieldValue },
}

impl<F: Copy> View for SplittedFieldParseError<F> {
    type V = SplittedFieldErrorModel<F>;

    open spec fn view(&self) -> SplittedFieldErrorModel<F> {
        match self {
            SplittedFieldParseError::MissingField { field, expected } =>
                SplittedFieldErrorModel::MissingField { field: *field, expected: *expected },
            SplittedFieldParseError::UnknownFormat { field, value, expected } =>
                SplittedFieldErrorModel::UnknownFormat {
                field: *field,
                value: value@,
                expected: *expected,
            },
        }
    }
}

/// A comment line's informational text: the line with spaces, comment
/// markers and line feeds stripped from both ends.
pub open spec fn comment_text(line: Seq<char>) -> Seq<char> {
    trim(line, CharSet::CommentTrim)
}

/// Whether a line passes the comment gate: its whitespace-trimmed text
/// starts with the `!` marker.
pub open spec fn is_comment(line: Seq<char>) -> bool {
    let t = trim(line, CharSet::Whitespace);
    t.len() > 0 && t[0] == '!'
}

/// The informational text of a comment line.
#[derive(Debug, PartialEq, Eq)]
pub struct Comment(pub String);

impl Comment {
    /// Strip the comment marker and surrounding spaces; never fails.
    pub fn from_line(line: &str) -> (r: Comment)
        ensures
            r.0@ == comment_text(line@),
    {
        Comment(trim_str(line, CharSet::CommentTrim).to_owned())
    }
}

impl core::str::FromStr for Comment {
    type Err = crate::error::ParseError;

    fn from_str(s: &str) -> Result<Comment, crate::error::ParseError> {
        Ok(Comment::from_line(s))
    }
}

/// Decide the comment gate for a line.
pub fn check_comment(line: &str) -> (r: bool)
    ensures
        r == is_comment(line@),
{
    let t = trim_str(line, CharSet::Whitespace);
    if t.unicode_len() == 0 {
        false
    } else {
        t.get_char(0) == '!'
    }
}

/// `t` split at its first whitespace character: the prefix, and the rest
/// with that one separator removed.
pub open spec fn split_first(t: Seq<char>) -> (Seq<char>, Seq<char>) {
    let k = run_end(t, 0, CharSet::NonWhitespace);
    if k == t.len() {
        (t, Seq::empty())
    } else {
        (t.take(k), t.skip(k + 1))
    }
}

/// Split the trimmed `t` at its first whitespace character.
pub fn split_first_str<'a>(t: &'a str) -> (r: (&'a str, &'a str))
    ensures
        (r.0@, r.1@) == split_first(t@),
{
    let n = t.unicode_len();
    let k = scan_while(t, 0, CharSet::NonWhitespace);
    if k == n {
        proof {
            reveal_strlit("");
            assert(""@ =~= Seq::<char>::empty());
        }
        (t, "")
    } else {
        let head = t.substring_char(0, k);
        let rest = t.substring_char(k + 1, n);
        proof {
            reveal_strlit("");
            assert(head@ =~= t@.take(k as int));
            assert(rest@ =~= t@.skip(k as int + 1));
        }
        (head, rest)
    }
}

/// The model of a parsed name line.
pub struct ElementNameModel {
    pub name: Seq<char>,
    pub information: Seq<char>,
}

/// The species name and the trailing free-text information of a name line.
#[derive(Debug, PartialEq, Eq)]
pub struct ElementName {
    pub name: String,
    pub information: String,
}

impl View for ElementName {
    type V = ElementNameModel;

    open spec fn view(&self) -> ElementNameModel {
        ElementNameModel { name: self.name@, information: self.information@ }
    }
}

/// A name line, split at the first whitespace boundary of its trimmed text:
/// the name, and the comment-trimmed remainder. Absent a separator the whole
/// trimmed line becomes the name.
pub open spec fn spec_parse_name(line: Seq<char>) -> ElementNameModel {
    let t = trim(line, CharSet::Whitespace);
    let (d, r) = split_first(t);
    ElementNameModel { name: d, information: trim(r, CharSet::CommentTrim) }
}

impl ElementName {
    /// Split a name line into the name and its trailing information.
    pub fn from_line(line: &str) -> (r: ElementName)
        ensures
            r@ == spec_parse_name(line@),
    {
        let t = trim_str(line, CharSet::Whitespace);
        let (d, rest) = split_first_str(t);
        ElementName {
            name: d.to_owned(),
            information: trim_str(rest, CharSet::CommentTrim).to_owned(),
        }
    }
}

impl core::str::FromStr for ElementName {
    type Err = crate::error::ParseError;

    fn from_str(s: &str) -> Result<ElementName, crate::error::ParseError> {
        Ok(ElementName::from_line(s))
    }
}

/// A token did not have the shape of a floating-point number.
#[derive(Debug, PartialEq, Eq)]
pub struct FloatFormatError;

impl View for FloatFormatError {
    type V = FloatFormatError;

    open spec fn view(&self) -> FloatFormatError {
        FloatFormatError
    }
}

/// A token did not have the shape of an unsigned integer.
#[derive(Debug, PartialEq, Eq)]
pub struct IntFormatError;

impl View for IntFormatError {
    type V = IntFormatError;

    open spec fn view(&self) -> IntFormatError {
        IntFormatError
    }
}

/// The weight line's floating-point token, kept as its literal text.
#[derive(Debug, PartialEq, Eq)]
pub struct ElementWeight(pub String);

/// A weight line: its whitespace-trimmed text, accepted exactly when it has
/// the shape of a floating-point number.
pub open spec fn spec_parse_weight(line: Seq<char>) -> Result<Seq<char>, FloatFormatError> {
    let t = trim(line, CharSet::Whitespace);
    if is_float(t) {
        Ok(t)
    } else {
        Err(FloatFormatError)
    }
}

impl ElementWeight {
    /// Read the weight line's floating-point token.
    pub fn from_line(line: &str) -> (r: Result<ElementWeight, FloatFormatError>)
        ensures
            match (r, spec_parse_weight(line@)) {
                (Ok(w), Ok(m)) => w.0@ == m,
                (Err(a), Err(b)) => a == b,
                _ => false,
            },
    {
        let t = trim_str(line, CharSet::Whitespace);
        if is_float_str(t) {
            Ok(ElementWeight(t.to_owned()))
        } else {
            Err(FloatFormatError)
        }
    }
}

impl core::str::FromStr for ElementWeight {
    type Err = FloatFormatError;

    fn from_str(s: &str) -> Result<ElementWeight, FloatFormatError> {
        ElementWeight::from_line(s)
    }
}

/// A count line: its whitespace-trimmed text read as an unsigned integer.
pub open spec fn spec_parse_count(line: Seq<char>) -> Option<u32> {
    parse_u32(trim(line, CharSet::Whitespace))
}

/// Read a count line.
pub fn parse_count_line(line: &str) -> (r: Option<u32>)
    ensures
        r == spec_parse_count(line@),
{
    parse_u32_str(trim_str(line, CharSet::Whitespace))
}

} // verus!

verus! {

/// The declared number of energy levels.
#[derive(Debug, PartialEq, Eq, Structural)]
pub struct NumberOfEnergyLevels(pub u32);

impl core::str::FromStr for NumberOfEnergyLevels {
    type Err = IntFormatError;

    fn from_str(s: &str) -> Result<NumberOfEnergyLevels, IntFormatError> {
        match parse_count_line(s) {
            Some(n) => Ok(NumberOfEnergyLevels(n)),
            None => Err(IntFormatError),
        }
    }
}

/// The declared number of radiative transitions.
#[derive(Debug, PartialEq, Eq, Structural)]
pub struct NumberOfRadiativeTransitions(pub u32);

impl core::str::FromStr for NumberOfRadiativeTransitions {
    type Err = IntFormatError;

    fn from_str(s: &str) -> Result<NumberOfRadiativeTransitions, IntFormatError> {
        match parse_count_line(s) {
            Some(n) => Ok(NumberOfRadiativeTransitions(n)),
            None => Err(IntFormatError),
        }
    }
}

/// The declared number of collision partners.
#[derive(Debug, PartialEq, Eq, Structural)]
pub struct NumberOfCollisionPartners(pub u32);

impl core::str::FromStr for NumberOfCollisionPartners {
    type Err = IntFormatError;

    fn from_str(s: &str) -> Result<NumberOfCollisionPartners, IntFormatError> {
        match parse_count_line(s) {
            Some(n) => Ok(NumberOfCollisionPartners(n)),
            None => Err(IntFormatError),
        }
    }
}

/// The declared number of collisional transitions of one partner.
#[derive(Debug, PartialEq, Eq, Structural)]
pub struct NumberOfCollisionalTransitions(pub u32);

impl core::str::FromStr for NumberOfCollisionalTransitions {
    type Err = IntFormatError;

    fn from_str(s: &str) -> Result<NumberOfCollisionalTransitions, IntFormatError> {
        match parse_count_line(s) {
            Some(n) => Ok(NumberOfCollisionalTransitions(n)),
            None => Err(IntFormatError),
        }
    }
}

/// The declared number of collisional temperatures of one partner.
#[derive(Debug, PartialEq, Eq, Structural)]
pub struct NumberOfCollisionalTemperatures(pub u32);

impl core::str::FromStr for NumberOfCollisionalTemperatures {
    type Err = IntFormatError;

    fn from_str(s: &str) -> Result<NumberOfCollisionalTemperatures, IntFormatError> {
        match parse_count_line(s) {
            Some(n) => Ok(NumberOfCollisionalTemperatures(n)),
            None => Err(IntFormatError),
        }
    }
}

/// The closed set of collision partners a rate table can be given for,
/// numbered 1 to 7 in the format.
#[allow(non_camel_case_types)]
#[derive(Clone, Copy, Debug, Default, PartialEq, Eq, Structural)]
pub enum CollisionPartnerId {
    /// Molecular hydrogen (code 1).
    #[default]
    H2,
    /// Para-hydrogen (code 2).
    pH2,
    /// Ortho-hydrogen (code 3).
    oH2,
    /// Electrons (code 4).
    electrons,
    /// Atomic hydrogen (code 5).
    HI,
    /// Helium (code 6).
    He,
    /// Ionized hydrogen (code 7).
    HII,
}

/// A collision-partner code was not a number from 1 to 7.
#[derive(Debug, PartialEq, Eq)]
pub struct CollisionPartnerIdParseError;

impl View for CollisionPartnerIdParseError {
    type V = CollisionPartnerIdParseError;

    open spec fn view(&self) -> CollisionPartnerIdParseError {
        CollisionPartnerIdParseError
    }
}

/// The partner identity a numeric code stands for, if any.
pub open spec fn partner_of_code(code: u32) -> Option<CollisionPartnerId> {
    if code == 1 {
        Some(CollisionPartnerId::H2)
    } else if code == 2 {
        Some(CollisionPartnerId::pH2)
    } else if code == 3 {
        Some(CollisionPartnerId::oH2)
    } else if code == 4 {
        Some(CollisionPartnerId::electrons)
    } else if code == 5 {
        Some(CollisionPartnerId::HI)
    } else if code == 6 {
        Some(CollisionPartnerId::He)
    } else if code == 7 {
        Some(CollisionPartnerId::HII)
    } else {
        None
    }
}

impl CollisionPartnerId {
    /// Map a numeric code to the partner it names.
    pub fn try_from(item: u32) -> (r: Result<CollisionPartnerId, CollisionPartnerIdParseError>)
        ensures
            match r {
                Ok(id) => partner_of_code(item) == Some(id),
                Err(_) => partner_of_code(item) is None,
            },
    {
        if item == 1 {
            Ok(CollisionPartnerId::H2)
        } else if item == 2 {
            Ok(CollisionPartnerId::pH2)
        } else if item == 3 {
            Ok(CollisionPartnerId::oH2)
        } else if item == 4 {
            Ok(CollisionPartnerId::electrons)
        } else if item == 5 {
            Ok(CollisionPartnerId::HI)
        } else if item == 6 {
            Ok(CollisionPartnerId::He)
        } else if item == 7 {
            Ok(CollisionPartnerId::HII)
        } else {
            Err(CollisionPartnerIdParseError)
        }
    }
}

/// The model of a parsed collision-partner name line.
pub struct CollisionPartnerNameModel {
    pub name: CollisionPartnerId,
    pub information: Seq<char>,
}

/// The partner identity and trailing free text of a collision-partner line.
#[derive(Debug, PartialEq, Eq)]
pub struct CollisionPartnerName {
    pub name: CollisionPartnerId,
    pub information: String,
}

impl View for CollisionPartnerName {
    type V = CollisionPartnerNameModel;

    open spec fn view(&self) -> CollisionPartnerNameModel {
        CollisionPartnerNameModel { name: self.name, information: self.information@ }
    }
}

/// A collision-partner name line: the first token must be a code from 1 to
/// 7; the remainder, comment-trimmed, is free-text information.
pub open spec fn spec_parse_partner_name(line: Seq<char>) -> Result<
    CollisionPartnerNameModel,
    CollisionPartnerIdParseError,
> {
    let t = trim(line, CharSet::Whitespace);
    let (d, r) = split_first(t);
    match parse_u32(d) {
        Some(code) => match partner_of_code(code) {
            Some(id) => Ok(
                CollisionPartnerNameModel {
                    name: id,
                    information: trim(r, CharSet::CommentTrim),
                },
            ),
            None => Err(CollisionPartnerIdParseError),
        },
        None => Err(CollisionPartnerIdParseError),
    }
}

impl CollisionPartnerName {
    /// Read a collision-partner name line.
    pub fn from_line(line: &str) -> (r: Result<
        CollisionPartnerName,
        CollisionPartnerIdParseError,
    >)
        ensures
            res_models(r, spec_parse_partner_name(line@)),
    {
        let t = trim_str(line, CharSet::Whitespace);
        let (d, rest) = split_first_str(t);
        match parse_u32_str(d) {
            Some(code) => match CollisionPartnerId::try_from(code) {
                Ok(id) => Ok(
                    CollisionPartnerName {
                        name: id,
                        information: trim_str(rest, CharSet::CommentTrim).to_owned(),
                    },
                ),
                Err(e) => Err(e),
            },
            None => Err(CollisionPartnerIdParseError),
        }
    }
}

impl core::str::FromStr for CollisionPartnerName {
    type Err = CollisionPartnerIdParseError;

    fn from_str(s: &str) -> Result<CollisionPartnerName, CollisionPartnerIdParseError> {
        CollisionPartnerName::from_line(s)
    }
}

} // verus!

verus! {

/// The field positions of an energy-level record.
#[derive(Clone, Copy, Debug, PartialEq, Eq, Structural)]
pub enum EnergyLevelField {
    Level,
    Energy,
    StatisticalWeight,
}

impl EnergyLevelField {
    pub open spec fn label_spec(self) -> Seq<char> {
        match self {
            EnergyLevelField::Level => "level"@,
            EnergyLevelField::Energy => "energy [cm-1]"@,
            EnergyLevelField::StatisticalWeight => "statistical weight"@,
        }
    }

    /// The human-readable name of this field.
    pub fn label(&self) -> (r: &'static str)
        ensures
            r@ == self.label_spec(),
    {
        match self {
            EnergyLevelField::Level => "level",
            EnergyLevelField::Energy => "energy [cm-1]",
            EnergyLevelField::StatisticalWeight => "statistical weight",
        }
    }
}

pub type EnergyLevelParseError = SplittedFieldParseError<EnergyLevelField>;

/// The model of an energy-level record.
pub struct EnergyLevelModel {
    pub level: u32,
    pub energy: Seq<char>,
    pub stat_weight: Seq<char>,
    pub qnums: Seq<char>,
}

/// One energy level: its 1-based index, its energy and statistical weight
/// (kept as their literal floating-point tokens), and a free-text
/// quantum-number label.
#[derive(Debug, PartialEq, Eq)]
pub struct EnergyLevel {
    pub level: u32,
    pub energy: String,
    pub stat_weight: String,
    pub qnums: String,
}

impl View for EnergyLevel {
    type V = EnergyLevelModel;

    open spec fn view(&self) -> EnergyLevelModel {
        EnergyLevelModel {
            level: self.level,
            energy: self.energy@,
            stat_weight: self.stat_weight@,
            qnums: self.qnums@,
        }
    }
}

/// An energy-level line: an integer level index, a floating-point energy, a
/// floating-point statistical weight, then free-text quantum numbers,
/// trimmed of surrounding spaces, markers and quotes.
pub open spec fn spec_parse_energy_level(line: Seq<char>) -> Result<
    EnergyLevelModel,
    SplittedFieldErrorModel<EnergyLevelField>,
> {
    let ts = tokens(line);
    if ts.len() < 1 {
        Err(
            SplittedFieldErrorModel::MissingField {
                field: EnergyLevelField::Level,
                expected: ExpectedFieldValue::Integer,
            },
        )
    } else {
        match parse_u32(ts[0]) {
            None => Err(
                SplittedFieldErrorModel::UnknownFormat {
                    field: EnergyLevelField::Level,
                    value: ts[0],
                    expected: ExpectedFieldValue::Integer,
                },
            ),
            Some(level) => if ts.len() < 2 {
                Err(
                    SplittedFieldErrorModel::MissingField {
                        field: EnergyLevelField::Energy,
                        expected: ExpectedFieldValue::Float,
                    },
                )
            } else if !is_float(ts[1]) {
                Err(
                    SplittedFieldErrorModel::UnknownFormat {
                        field: EnergyLevelField::Energy,
                        value: ts[1],
                        expected: ExpectedFieldValue::Float,
                    },
                )
            } else if ts.len() < 3 {
                Err(
                    SplittedFieldErrorModel::MissingField {
                        field: EnergyLevelField::StatisticalWeight,
                        expected: ExpectedFieldValue::Float,
                    },
                )
            } else if !is_float(ts[2]) {
                Err(
                    SplittedFieldErrorModel::UnknownFormat {
                        field: EnergyLevelField::StatisticalWeight,
                        value: ts[2],
                        expected: ExpectedFieldValue::Float,
                    },
                )
            } else {
                Ok(
                    EnergyLevelModel {
                        level,
                        energy: ts[1],
                        stat_weight: ts[2],
                        qnums: trim(join_spaced(ts.skip(3)), CharSet::TailTrim),
                    },
                )
            },
        }
    }
}

impl EnergyLevel {
    /// Parse one energy-level line.
    pub fn from_line(line: &str) -> (r: Result<EnergyLevel, EnergyLevelParseError>)
        ensures
            res_models(r, spec_parse_energy_level(line@)),
    {
        let ts = tokenize(line);
        proof {
            assert(views_of(ts@).len() == ts@.len());
            assert forall|i: int| 0 <= i < ts@.len() implies views_of(ts@)[i] == ts@[i]@ by {}
        }
        if ts.len() < 1 {
            return Err(
                SplittedFieldParseError::MissingField {
                    field: EnergyLevelField::Level,
                    expected: ExpectedFieldValue::Integer,
                },
            );
        }
        let level = match parse_u32_str(ts[0]) {
            Some(v) => v,
            None => {
                return Err(
                    SplittedFieldParseError::UnknownFormat {
                        field: EnergyLevelField::Level,
                        value: ts[0].to_owned(),
                        expected: ExpectedFieldValue::Integer,
                    },
                );
            },
        };
        if ts.len() < 2 {
            return Err(
                SplittedFieldParseError::MissingField {
                    field: EnergyLevelField::Energy,
                    expected: ExpectedFieldValue::Float,
                },
            );
        }
        if !is_float_str(ts[1]) {
            return Err(
                SplittedFieldParseError::UnknownFormat {
                    field: EnergyLevelField::Energy,
                    value: ts[1].to_owned(),
                    expected: ExpectedFieldValue::Float,
                },
            );
        }
        if ts.len() < 3 {
            return Err(
                SplittedFieldParseError::MissingField {
                    field: EnergyLevelField::StatisticalWeight,
                    expected: ExpectedFieldValue::Float,
                },
            );
        }
        if !is_float_str(ts[2]) {
            return Err(
                SplittedFieldParseError::UnknownFormat {
                    field: EnergyLevelField::StatisticalWeight,
                    value: ts[2].to_owned(),
                    expected: ExpectedFieldValue::Float,
                },
            );
        }
        let mut joined = String::new();
        append_joined(&mut joined, &ts, 3);
        let qnums = trim_str(joined.as_str(), CharSet::TailTrim).to_owned();
        proof {
            assert(views_of(ts@).skip(3) =~= tokens(line@).skip(3));
        }
        Ok(EnergyLevel { level, energy: ts[1].to_owned(), stat_weight: ts[2].to_owned(), qnums })
    }
}

impl core::str::FromStr for EnergyLevel {
    type Err = EnergyLevelParseError;

    fn from_str(s: &str) -> Result<EnergyLevel, EnergyLevelParseError> {
        EnergyLevel::from_line(s)
    }
}

} // verus!

verus! {

/// The field positions of a radiative-transition record.
#[derive(Clone, Copy, Debug, PartialEq, Eq, Structural)]
pub enum RadiativeTransitionField {
    Transition,
    UpperLevel,
    LowerLevel,
    SpontaneousDecayRate,
}

impl RadiativeTransitionField {
    pub open spec fn label_spec(self) -> Seq<char> {
        match self {
            RadiativeTransitionField::Transition => "transition"@,
            RadiativeTransitionField::UpperLevel => "upper level"@,
            RadiativeTransitionField::LowerLevel => "lower level"@,
            RadiativeTransitionField::SpontaneousDecayRate => "spontaneous decay rate [s-1]"@,
        }
    }

    /// The human-readable name of this field.
    pub fn label(&self) -> (r: &'static str)
        ensures
            r@ == self.label_spec(),
    {
        match self {
            RadiativeTransitionField::Transition => "transition",
            RadiativeTransitionField::UpperLevel => "upper level",
            RadiativeTransitionField::LowerLevel => "lower level",
            RadiativeTransitionField::SpontaneousDecayRate => "spontaneous decay rate [s-1]",
        }
    }
}

pub type RadiativeTransitionParseError = SplittedFieldParseError<RadiativeTransitionField>;

/// The model of a radiative-transition record.
pub struct RadiativeTransitionModel {
    pub transition: u32,
    pub up: u32,
    pub low: u32,
    pub aeinst: Seq<char>,
    pub extra: Seq<char>,
}

/// One radiative transition: its index, the upper and lower level indices,
/// the Einstein A coefficient (kept as its literal token), and trailing
/// free text.
#[derive(Debug, PartialEq, Eq)]
pub struct RadiativeTransition {
    pub transition: u32,
    pub up: u32,
    pub low: u32,
    pub aeinst: String,
    pub extra: String,
}

impl View for RadiativeTransition {
    type V = RadiativeTransitionModel;

    open spec fn view(&self) -> RadiativeTransitionModel {
        RadiativeTransitionModel {
            transition: self.transition,
            up: self.up,
            low: self.low,
            aeinst: self.aeinst@,
            extra: self.extra@,
        }
    }
}

/// A radiative-transition line: three integer indices, a floating-point
/// decay rate, then trailing free text, trimmed of surrounding spaces,
/// markers and quotes.
pub open spec fn spec_parse_radiative_transition(line: Seq<char>) -> Result<
    RadiativeTransitionModel,
    SplittedFieldErrorModel<RadiativeTransitionField>,
> {
    let ts = tokens(line);
    if ts.len() < 1 {
        Err(
            SplittedFieldErrorModel::MissingField {
                field: RadiativeTransitionField::Transition,
                expected: ExpectedFieldValue::Integer,
            },
        )
    } else {
        match parse_u32(ts[0]) {
            None => Err(
                SplittedFieldErrorModel::UnknownFormat {
                    field: RadiativeTransitionField::Transition,
                    value: ts[0],
                    expected: ExpectedFieldValue::Integer,
                },
            ),
            Some(transition) => if ts.len() < 2 {
                Err(
                    SplittedFieldErrorModel::MissingField {
                        field: RadiativeTransitionField::UpperLevel,
                        expected: ExpectedFieldValue::Integer,
                    },
                )
            } else {
                match parse_u32(ts[1]) {
                    None => Err(
                        SplittedFieldErrorModel::UnknownFormat {
                            field: RadiativeTransitionField::UpperLevel,
                            value: ts[1],
                            expected: ExpectedFieldValue::Integer,
                        },
                    ),
                    Some(up) => if ts.len() < 3 {
                        Err(
                            SplittedFieldErrorModel::MissingField {
                                field: RadiativeTransitionField::LowerLevel,
                                expected: ExpectedFieldValue::Integer,
                            },
                        )
                    } else {
                        match parse_u32(ts[2]) {
                            None => Err(
                                SplittedFieldErrorModel::UnknownFormat {
                                    field: RadiativeTransitionField::LowerLevel,
                                    value: ts[2],
                                    expected: ExpectedFieldValue::Integer,
                                },
                            ),
                            Some(low) => if ts.len() < 4 {
                                Err(
                                    SplittedFieldErrorModel::MissingField {
                                        field: RadiativeTransitionField::SpontaneousDecayRate,
                                        expected: ExpectedFieldValue::Float,
                                    },
                                )
                            } else if !is_float(ts[3]) {
                                Err(
                                    SplittedFieldErrorModel::UnknownFormat {
                                        field: RadiativeTransitionField::SpontaneousDecayRate,
                                        value: ts[3],
                                        expected: ExpectedFieldValue::Float,
                                    },
                                )
                            } else {
                                Ok(
                                    RadiativeTransitionModel {
                                        transition,
                                        up,
                                        low,
                                        aeinst: ts[3],
                                        extra: trim(join_spaced(ts.skip(4)), CharSet::TailTrim),
                                    },
                                )
                            },
                        }
                    },
                }
            },
        }
    }
}

impl RadiativeTransition {
    /// Parse one radiative-transition line.
    pub fn from_line(line: &str) -> (r: Result<RadiativeTransition, RadiativeTransitionParseError>)
        ensures
            res_models(r, spec_parse_radiative_transition(line@)),
    {
        let ts = tokenize(line);
        proof {
            assert(views_of(ts@).len() == ts@.len());
            assert forall|i: int| 0 <= i < ts@.len() implies views_of(ts@)[i] == ts@[i]@ by {}
        }
        if ts.len() < 1 {
            return Err(
                SplittedFieldParseError::MissingField {
                    field: RadiativeTransitionField::Transition,
                    expected: ExpectedFieldValue::Integer,
                },
            );
        }
        let transition = match parse_u32_str(ts[0]) {
            Some(v) => v,
            None => {
                return Err(
                    SplittedFieldParseError::UnknownFormat {
                        field: RadiativeTransitionField::Transition,
                        value: ts[0].to_owned(),
                        expected: ExpectedFieldValue::Integer,
                    },
                );
            },
        };
        if ts.len() < 2 {
            return Err(
                SplittedFieldParseError::MissingField {
                    field: RadiativeTransitionField::UpperLevel,
                    expected: ExpectedFieldValue::Integer,
                },
            );
        }
        let up = match parse_u32_str(ts[1]) {
            Some(v) => v,
            None => {
                return Err(
                    SplittedFieldParseError::UnknownFormat {
                        field: RadiativeTransitionField::UpperLevel,
                        value: ts[1].to_owned(),
                        expected: ExpectedFieldValue::Integer,
                    },
                );
            },
        };
        if ts.len() < 3 {
            return Err(
                SplittedFieldParseError::MissingField {
                    field: RadiativeTransitionField::LowerLevel,
                    expected: ExpectedFieldValue::Integer,
                },
            );
        }
        let low = match parse_u32_str(ts[2]) {
            Some(v) => v,
            None => {
                return Err(
                    SplittedFieldParseError::UnknownFormat {
                        field: RadiativeTransitionField::LowerLevel,
                        value: ts[2].to_owned(),
                        expected: ExpectedFieldValue::Integer,
                    },
                );
            },
        };
        if ts.len() < 4 {
            return Err(
                SplittedFieldParseError::MissingField {
                    field: RadiativeTransitionField::SpontaneousDecayRate,
                    expected: ExpectedFieldValue::Float,
                },
            );
        }
        if !is_float_str(ts[3]) {
            return Err(
                SplittedFieldParseError::UnknownFormat {
                    field: RadiativeTransitionField::SpontaneousDecayRate,
                    value: ts[3].to_owned(),
                    expected: ExpectedFieldValue::Float,
                },
            );
        }
        let mut joined = String::new();
        append_joined(&mut joined, &ts, 4);
        let extra = trim_str(joined.as_str(), CharSet::TailTrim).to_owned();
        proof {
            assert(views_of(ts@).skip(4) =~= tokens(line@).skip(4));
        }
        Ok(
            RadiativeTransition {
                transition,
                up,
                low,
                aeinst: ts[3].to_owned(),
                extra,
            },
        )
    }
}

impl core::str::FromStr for RadiativeTransition {
    type Err = RadiativeTransitionParseError;

    fn from_str(s: &str) -> Result<RadiativeTransition, RadiativeTransitionParseError> {
        RadiativeTransition::from_line(s)
    }
}

} // verus!

verus! {

/// A run of floating-point tokens from position `k` of `ts` on: all of
/// them, or the literal text of the first token that is not one.
pub open spec fn spec_parse_float_list(ts: Seq<Seq<char>>, k: int) -> Result<Seq<Seq<char>>, Seq<char>>
    decreases ts.len() - k,
{
    if k < 0 || k >= ts.len() {
        Ok(Seq::empty())
    } else if !is_float(ts[k]) {
        Err(ts[k])
    } else {
        match spec_parse_float_list(ts, k + 1) {
            Ok(rest) => Ok(seq![ts[k]] + rest),
            Err(e) => Err(e),
        }
    }
}

/// `r` with `pre` prepended to its success value.
pub open spec fn prepend_tokens(pre: Seq<Seq<char>>, r: Result<Seq<Seq<char>>, Seq<char>>) -> Result<
    Seq<Seq<char>>,
    Seq<char>,
> {
    match r {
        Ok(rest) => Ok(pre + rest),
        Err(e) => Err(e),
    }
}

/// Collect the floating-point tokens of `ts` from position `from` on into
/// `out`, or report the first token that is not one.
fn collect_float_list(ts: &Vec<&str>, from: usize, out: &mut Vec<String>) -> (r: Result<
    (),
    String,
>)
    requires
        from <= ts@.len(),
        old(out)@.len() == 0,
    ensures
        match r {
            Ok(_) => spec_parse_float_list(views_of(ts@), from as int) == Ok::<_, Seq<char>>(
                crate::string_views(final(out)@),
            ),
            Err(v) => spec_parse_float_list(views_of(ts@), from as int) == Err::<Seq<Seq<char>>, _>(
                v@,
            ),
        },
{
    let n = ts.len();
    let mut k = from;
    proof {
        assert(crate::string_views(out@) =~= Seq::<Seq<char>>::empty());
        assert(views_of(ts@).len() == ts@.len());
        assert forall|i: int| 0 <= i < ts@.len() implies views_of(ts@)[i] == ts@[i]@ by {}
    }
    while k < n
        invariant
            from <= k <= n,
            n == ts@.len(),
            views_of(ts@).len() == ts@.len(),
            forall|i: int| 0 <= i < ts@.len() ==> views_of(ts@)[i] == ts@[i]@,
            spec_parse_float_list(views_of(ts@), from as int) == prepend_tokens(
                crate::string_views(out@),
                spec_parse_float_list(views_of(ts@), k as int),
            ),
        decreases n - k,
    {
        let t = ts[k];
        if !is_float_str(t) {
            return Err(t.to_owned());
        }
        let ghost pre = out@;
        out.push(t.to_owned());
        proof {
            assert(crate::string_views(out@) =~= crate::string_views(pre) + seq![t@]);
            let vs = views_of(ts@);
            match spec_parse_float_list(vs, k + 1) {
                Ok(rest) => {
                    assert(crate::string_views(pre) + (seq![vs[k as int]] + rest)
                        =~= crate::string_views(out@) + rest);
                },
                Err(_) => {},
            }
        }
        k = k + 1;
    }
    proof {
        match spec_parse_float_list(views_of(ts@), from as int) {
            Ok(all) => {
                assert(crate::string_views(out@) + Seq::<Seq<char>>::empty()
                    =~= crate::string_views(out@));
            },
            Err(_) => {},
        }
    }
    Ok(())
}

/// A temperatures line could not be read: the literal text of the first
/// token that is not a floating-point number.
#[derive(Debug, PartialEq, Eq)]
pub struct CollisionalTemperaturesParseError {
    pub value: String,
}

impl View for CollisionalTemperaturesParseError {
    type V = Seq<char>;

    open spec fn view(&self) -> Seq<char> {
        self.value@
    }
}

/// The temperature grid of one collision partner, each temperature kept as
/// its literal floating-point token.
#[derive(Debug, PartialEq, Eq)]
pub struct CollisionalTemperatures(pub Vec<String>);

impl View for CollisionalTemperatures {
    type V = Seq<Seq<char>>;

    open spec fn view(&self) -> Seq<Seq<char>> {
        crate::string_views(self.0@)
    }
}

/// A temperatures line: every whitespace-separated token must be a
/// floating-point number.
pub open spec fn spec_parse_temperatures(line: Seq<char>) -> Result<Seq<Seq<char>>, Seq<char>> {
    spec_parse_float_list(tokens(line), 0)
}

impl CollisionalTemperatures {
    /// Parse one temperatures line.
    pub fn from_line(line: &str) -> (r: Result<
        CollisionalTemperatures,
        CollisionalTemperaturesParseError,
    >)
        ensures
            res_models(r, spec_parse_temperatures(line@)),
    {
        let ts = tokenize(line);
        let mut out: Vec<String> = Vec::new();
        match collect_float_list(&ts, 0, &mut out) {
            Ok(_) => Ok(CollisionalTemperatures(out)),
            Err(v) => Err(CollisionalTemperaturesParseError { value: v }),
        }
    }
}

impl core::str::FromStr for CollisionalTemperatures {
    type Err = CollisionalTemperaturesParseError;

    fn from_str(s: &str) -> Result<CollisionalTemperatures, CollisionalTemperaturesParseError> {
        CollisionalTemperatures::from_line(s)
    }
}

} // verus!

verus! {

/// The field positions of a collisional-rate record.
#[derive(Clone, Copy, Debug, PartialEq, Eq, Structural)]
pub enum CollisionalRatesField {
    Transition,
    UpperLevel,
    LowerLevel,
    RateCoefficients,
}

impl CollisionalRatesField {
    pub open spec fn label_spec(self) -> Seq<char> {
        match self {
            CollisionalRatesField::Transition => "transition"@,
            CollisionalRatesField::UpperLevel => "upper level"@,
            CollisionalRatesField::LowerLevel => "lower level"@,
            CollisionalRatesField::RateCoefficients => "rate coefficients [cm3 s-1]"@,
        }
    }

    /// The human-readable name of this field.
    pub fn label(&self) -> (r: &'static str)
        ensures
            r@ == self.label_spec(),
    {
        match self {
            CollisionalRatesField::Transition => "transition",
            CollisionalRatesField::UpperLevel => "upper level",
            CollisionalRatesField::LowerLevel => "lower level",
            CollisionalRatesField::RateCoefficients => "rate coefficients [cm3 s-1]",
        }
    }
}

pub type CollisionalRatesParseError = SplittedFieldParseError<CollisionalRatesField>;

/// The model of a collisional-rate record.
pub struct CollisionalRatesModel {
    pub transition: u32,
    pub up: u32,
    pub low: u32,
    pub rates: Seq<Seq<char>>,
}

/// One collisional-rate row: three integer indices, then the rate
/// coefficients over the temperature grid, each kept as its literal token.
/// The row length is declared by context but never cross-checked.
#[derive(Debug, PartialEq, Eq)]
pub struct CollisionalRates {
    pub transition: u32,
    pub up: u32,
    pub low: u32,
    pub rates: Vec<String>,
}

impl View for CollisionalRates {
    type V = CollisionalRatesModel;

    open spec fn view(&self) -> CollisionalRatesModel {
        CollisionalRatesModel {
            transition: self.transition,
            up: self.up,
            low: self.low,
            rates: crate::string_views(self.rates@),
        }
    }
}

/// A collisional-rate line: three integer indices, then a variable-length
/// run of floating-point rate coefficients.
pub open spec fn spec_parse_rates(line: Seq<char>) -> Result<
    CollisionalRatesModel,
    SplittedFieldErrorModel<CollisionalRatesField>,
> {
    let ts = tokens(line);
    if ts.len() < 1 {
        Err(
            SplittedFieldErrorModel::MissingField {
                field: CollisionalRatesField::Transition,
                expected: ExpectedFieldValue::Integer,
            },
        )
    } else {
        match parse_u32(ts[0]) {
            None => Err(
                SplittedFieldErrorModel::UnknownFormat {
                    field: CollisionalRatesField::Transition,
                    value: ts[0],
                    expected: ExpectedFieldValue::Integer,
                },
            ),
            Some(transition) => if ts.len() < 2 {
                Err(
                    SplittedFieldErrorModel::MissingField {
                        field: CollisionalRatesField::UpperLevel,
                        expected: ExpectedFieldValue::Integer,
                    },
                )
            } else {
                match parse_u32(ts[1]) {
                    None => Err(
                        SplittedFieldErrorModel::UnknownFormat {
                            field: CollisionalRatesField::UpperLevel,
                            value: ts[1],
                            expected: ExpectedFieldValue::Integer,
                        },
                    ),
                    Some(up) => if ts.len() < 3 {
                        Err(
                            SplittedFieldErrorModel::MissingField {
                                field: CollisionalRatesField::LowerLevel,
                                expected: ExpectedFieldValue::Integer,
                            },
                        )
                    } else {
                        match parse_u32(ts[2]) {
                            None => Err(
                                SplittedFieldErrorModel::UnknownFormat {
                                    field: CollisionalRatesField::LowerLevel,
                                    value: ts[2],
                                    expected: ExpectedFieldValue::Integer,
                                },
                            ),
                            Some(low) => match spec_parse_float_list(ts, 3) {
                                Ok(rs) => Ok(
                                    CollisionalRatesModel { transition, up, low, rates: rs },
                                ),
                                Err(v) => Err(
                                    SplittedFieldErrorModel::UnknownFormat {
                                        field: CollisionalRatesField::RateCoefficients,
                                        value: v,
                                        expected: ExpectedFieldValue::Float,
                                    },
                                ),
                            },
                        }
                    },
                }
            },
        }
    }
}

impl CollisionalRates {
    /// Parse one collisional-rate line.
    pub fn from_line(line: &str) -> (r: Result<CollisionalRates, CollisionalRatesParseError>)
        ensures
            res_models(r, spec_parse_rates(line@)),
    {
        let ts = tokenize(line);
        proof {
            assert(views_of(ts@).len() == ts@.len());
            assert forall|i: int| 0 <= i < ts@.len() implies views_of(ts@)[i] == ts@[i]@ by {}
        }
        if ts.len() < 1 {
            return Err(
                SplittedFieldParseError::MissingField {
                    field: CollisionalRatesField::Transition,
                    expected: ExpectedFieldValue::Integer,
                },
            );
        }
        let transition = match parse_u32_str(ts[0]) {
            Some(v) => v,
            None => {
                return Err(
                    SplittedFieldParseError::UnknownFormat {
                        field: CollisionalRatesField::Transition,
                        value: ts[0].to_owned(),
                        expected: ExpectedFieldValue::Integer,
                    },
                );
            },
        };
        if ts.len() < 2 {
            return Err(
                SplittedFieldParseError::MissingField {
                    field: CollisionalRatesField::UpperLevel,
                    expected: ExpectedFieldValue::Integer,
                },
            );
        }
        let up = match parse_u32_str(ts[1]) {
            Some(v) => v,
            None => {
                return Err(
                    SplittedFieldParseError::UnknownFormat {
                        field: CollisionalRatesField::UpperLevel,
                        value: ts[1].to_owned(),
                        expected: ExpectedFieldValue::Integer,
                    },
                );
            },
        };
        if ts.len() < 3 {
            return Err(
                SplittedFieldParseError::MissingField {
                    field: CollisionalRatesField::LowerLevel,
                    expected: ExpectedFieldValue::Integer,
                },
            );
        }
        let low = match parse_u32_str(ts[2]) {
            Some(v) => v,
            None => {
                return Err(
                    SplittedFieldParseError::UnknownFormat {
                        field: CollisionalRatesField::LowerLevel,
                        value: ts[2].to_owned(),
                        expected: ExpectedFieldValue::Integer,
                    },
                );
            },
        };
        let mut rates: Vec<String> = Vec::new();
        match collect_float_list(&ts, 3, &mut rates) {
            Ok(_) => Ok(CollisionalRates { transition, up, low, rates }),
            Err(v) => Err(
                SplittedFieldParseError::UnknownFormat {
                    field: CollisionalRatesField::RateCoefficients,
                    value: v,
                    expected: ExpectedFieldValue::Float,
                },
            ),
        }
    }
}

impl core::str::FromStr for CollisionalRates {
    type Err = CollisionalRatesParseError;

    fn from_str(s: &str) -> Result<CollisionalRates, CollisionalRatesParseError> {
        CollisionalRates::from_line(s)
    }
}

} // verus!
