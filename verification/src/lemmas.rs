//! The laws of the parser, stated and proved once over its mathematical
//! model: section lengths, zero-count sections, trimming, caret placement,
//! and the shapes of the guaranteed failures.

use vstd::prelude::*;
use crate::text::{
    trim, run_end, run_start, lemma_run_end, lemma_run_start, tokens, first_occurrence, CharSet,
};
use crate::numbers::{parse_u32, is_float, all_digits, dec_value};
use crate::error::ParseErrorModel;
use crate::records::{
    spec_parse_energy_level, spec_parse_partner_name, spec_parse_count,
    SplittedFieldErrorModel, ExpectedFieldValue, EnergyLevelField, EnergyLevelModel,
};
use crate::document::{levels_from, transitions_from, rates_from, partners_from};

verus! {

/// Trimming is idempotent: once the surrounding characters of the set are
/// gone, trimming again changes nothing. In particular a comment's text,
/// whatever extra spaces or markers surrounded it, trims to itself.
pub proof fn lemma_trim_idempotent(s: Seq<char>, set: CharSet)
    ensures
        trim(trim(s, set), set) == trim(s, set),
{
    let a = run_end(s, 0, set);
    let b = run_start(s, s.len() as int, set);
    lemma_run_end(s, 0, set);
    lemma_run_start(s, s.len() as int, set);
    let t = trim(s, set);
    if a == s.len() {
        assert(t =~= Seq::<char>::empty());
        assert(trim(t, set) =~= t);
    } else {
        assert(!set.has(s[a]));
        if b <= a {
            assert(set.has(s[a]));
        }
        assert(t == s.subrange(a, b));
        assert(t[0] == s[a]);
        assert(!set.has(s[b - 1]));
        assert(t.last() == s[b - 1]);
        assert(run_end(t, 0, set) == 0);
        assert(run_start(t, t.len() as int, set) == t.len());
        assert(trim(t, set) =~= t);
    }
}

/// One extra leading character of the set does not change the trimmed text.
pub proof fn lemma_trim_prepend(c: char, s: Seq<char>, set: CharSet)
    requires
        set.has(c),
    ensures
        trim(seq![c] + s, set) == trim(s, set),
    decreases s.len(),
{
    let u = seq![c] + s;
    lemma_run_end_shift(c, s, set);
    let a = run_end(s, 0, set);
    lemma_run_end(s, 0, set);
    if a == s.len() {
        assert(run_end(u, 0, set) == run_end(u, 1, set));
        assert(trim(u, set) =~= Seq::<char>::empty());
        assert(trim(s, set) =~= Seq::<char>::empty());
    } else {
        lemma_run_start_shift(c, s, set);
        let b = run_start(s, s.len() as int, set);
        lemma_run_start(s, s.len() as int, set);
        if b <= a {
            assert(set.has(s[a]));
        }
        assert(run_end(u, 0, set) == run_end(u, 1, set) == a + 1);
        assert(run_start(u, u.len() as int, set) == b + 1);
        assert(trim(u, set) =~= trim(s, set));
    }
}

/// One extra trailing character of the set does not change the trimmed text.
pub proof fn lemma_trim_append(s: Seq<char>, c: char, set: CharSet)
    requires
        set.has(c),
    ensures
        trim(s + seq![c], set) == trim(s, set),
{
    let u = s + seq![c];
    lemma_run_end_prefix(s, c, set);
    let a = run_end(s, 0, set);
    lemma_run_end(s, 0, set);
    lemma_run_end(u, 0, set);
    if a == s.len() {
        assert(run_end(u, 0, set) == u.len());
        assert(trim(u, set) =~= Seq::<char>::empty());
        assert(trim(s, set) =~= Seq::<char>::empty());
    } else {
        let b = run_start(s, s.len() as int, set);
        lemma_run_start(s, s.len() as int, set);
        if b <= a {
            assert(set.has(s[a]));
        }
        assert(run_end(u, 0, set) == a);
        assert(run_start(u, u.len() as int, set) == run_start(u, s.len() as int, set)) by {
            assert(set.has(u[u.len() - 1]));
        }
        assert(run_start(u, s.len() as int, set) == b) by {
            lemma_run_start_same(s, u, s.len() as int, set);
        }
        assert(trim(u, set) =~= trim(s, set));
    }
}

/// Scanning forward from position `i + 1` of `[c] + s` lands one past where
/// it lands in `s` from position `i`.
proof fn lemma_run_end_shift_at(c: char, s: Seq<char>, i: int, set: CharSet)
    requires
        0 <= i <= s.len(),
    ensures
        run_end(seq![c] + s, i + 1, set) == run_end(s, i, set) + 1,
    decreases s.len() - i,
{
    let u = seq![c] + s;
    if i < s.len() && set.has(s[i]) {
        lemma_run_end_shift_at(c, s, i + 1, set);
    }
}

/// Scanning forward from the start of `[c] + s`, with `c` in the set, skips
/// `c` and continues as in `s`.
proof fn lemma_run_end_shift(c: char, s: Seq<char>, set: CharSet)
    requires
        set.has(c),
    ensures
        run_end(seq![c] + s, 0, set) == run_end(s, 0, set) + 1,
{
    let u = seq![c] + s;
    assert(u[0] == c);
    assert(run_end(u, 0, set) == run_end(u, 1, set));
    lemma_run_end_shift_at(c, s, 0, set);
}

/// Scanning backward in `[c] + s` from a position past `c` stops where it
/// stops in `s`, shifted by one, as long as it does not reach `c`; with `c`
/// in the set it may also swallow `c`, exactly when all of `s`'s prefix was
/// in the set.
proof fn lemma_run_start_shift_at(c: char, s: Seq<char>, i: int, set: CharSet)
    requires
        0 <= i <= s.len(),
    ensures
        run_start(s, i, set) > 0 ==> run_start(seq![c] + s, i + 1, set) == run_start(s, i, set) + 1,
        run_start(s, i, set) == 0 && !set.has(c) ==> run_start(seq![c] + s, i + 1, set) == 1,
    decreases i,
{
    if 0 < i && set.has(s[i - 1]) {
        lemma_run_start_shift_at(c, s, i - 1, set);
    }
}

/// The backward scan of `[c] + s` from its end, when not all of `s` is in
/// the set, stops one past where it stops in `s`.
proof fn lemma_run_start_shift(c: char, s: Seq<char>, set: CharSet)
    requires
        run_end(s, 0, set) < s.len(),
    ensures
        run_start(seq![c] + s, s.len() as int + 1, set) == run_start(s, s.len() as int, set) + 1,
{
    lemma_run_end(s, 0, set);
    lemma_run_start(s, s.len() as int, set);
    let a = run_end(s, 0, set);
    let b = run_start(s, s.len() as int, set);
    if b == 0 {
        assert(set.has(s[a]));
    }
    lemma_run_start_shift_at(c, s, s.len() as int, set);
}

/// A forward scan that stops inside `s` stops at the same place in `s`
/// extended by one more character.
proof fn lemma_run_end_prefix(s: Seq<char>, c: char, set: CharSet)
    ensures
        run_end(s, 0, set) < s.len() ==> run_end(s + seq![c], 0, set) == run_end(s, 0, set),
        run_end(s, 0, set) == s.len() && set.has(c) ==> run_end(s + seq![c], 0, set) == s.len() + 1,
{
    lemma_run_end_prefix_at(s, c, 0, set);
}

proof fn lemma_run_end_prefix_at(s: Seq<char>, c: char, i: int, set: CharSet)
    requires
        0 <= i <= s.len(),
    ensures
        run_end(s, i, set) < s.len() ==> run_end(s + seq![c], i, set) == run_end(s, i, set),
        run_end(s, i, set) == s.len() && set.has(c) ==> run_end(s + seq![c], i, set) == s.len() + 1,
    decreases s.len() - i,
{
    lemma_run_end(s, i, set);
    if i < s.len() && set.has(s[i]) {
        lemma_run_end_prefix_at(s, c, i + 1, set);
    } else if i == s.len() && set.has(c) {
        assert((s + seq![c])[i] == c);
        assert(run_end(s + seq![c], i, set) == run_end(s + seq![c], i + 1, set));
    }
}

/// A backward scan from a position inside the shared prefix of two
/// sequences stops at the same place in both.
proof fn lemma_run_start_same(s: Seq<char>, u: Seq<char>, i: int, set: CharSet)
    requires
        0 <= i <= s.len(),
        s.len() <= u.len(),
        forall|j: int| 0 <= j < s.len() ==> s[j] == u[j],
    ensures
        run_start(u, i, set) == run_start(s, i, set),
    decreases i,
{
    if 0 < i && set.has(s[i - 1]) {
        lemma_run_start_same(s, u, i - 1, set);
    }
}

} // verus!

verus! {

/// A bounded section that parses has exactly the declared number of
/// records: `n` energy levels, and it consumed exactly `n` lines.
pub proof fn lemma_levels_len(ls: Seq<Seq<char>>, i: int, n: int)
    requires
        n >= 0,
    ensures
        match levels_from(ls, i, n) {
            Ok(v) => v.len() == n,
            Err(_) => true,
        },
    decreases n,
{
    if n > 0 && 0 <= i < ls.len() {
        match spec_parse_energy_level(ls[i]) {
            Ok(_) => {
                lemma_levels_len(ls, i + 1, n - 1);
            },
            Err(_) => {},
        }
    }
}

/// A bounded section that parses has exactly the declared number of
/// records: `n` radiative transitions.
pub proof fn lemma_transitions_len(ls: Seq<Seq<char>>, i: int, n: int)
    requires
        n >= 0,
    ensures
        match transitions_from(ls, i, n) {
            Ok(v) => v.len() == n,
            Err(_) => true,
        },
    decreases n,
{
    if n > 0 && 0 <= i < ls.len() {
        match crate::records::spec_parse_radiative_transition(ls[i]) {
            Ok(_) => {
                lemma_transitions_len(ls, i + 1, n - 1);
            },
            Err(_) => {},
        }
    }
}

/// A bounded section that parses has exactly the declared number of
/// records: `n` collisional-rate rows.
pub proof fn lemma_rates_len(ls: Seq<Seq<char>>, i: int, n: int)
    requires
        n >= 0,
    ensures
        match rates_from(ls, i, n) {
            Ok(v) => v.len() == n,
            Err(_) => true,
        },
    decreases n,
{
    if n > 0 && 0 <= i < ls.len() {
        match crate::records::spec_parse_rates(ls[i]) {
            Ok(_) => {
                lemma_rates_len(ls, i + 1, n - 1);
            },
            Err(_) => {},
        }
    }
}

/// A partner run that parses has exactly the declared number of partners,
/// and within each partner the rate table has exactly the length its own
/// count line declared.
pub proof fn lemma_partners_len(ls: Seq<Seq<char>>, i: int, n: int)
    requires
        n >= 0,
    ensures
        match partners_from(ls, i, n) {
            Ok((v, _)) => v.len() == n,
            Err(_) => true,
        },
    decreases n,
{
    if n > 0 {
        match crate::document::partner_at(ls, i) {
            Ok((_, j)) => {
                lemma_partners_len(ls, j, n - 1);
            },
            Err(_) => {},
        }
    }
}

/// One partner block that parses carries exactly as many rate rows as the
/// collisional-transition count inside the block declares.
pub proof fn lemma_partner_rates_len(ls: Seq<Seq<char>>, i: int)
    ensures
        match crate::document::partner_at(ls, i) {
            Ok((p, _)) => match crate::document::count_at(ls, i + 3) {
                Ok(ncol) => p.rates.len() == ncol,
                Err(_) => false,
            },
            Err(_) => true,
        },
{
    match crate::document::partner_at(ls, i) {
        Ok((p, _)) => {
            match crate::document::count_at(ls, i + 3) {
                Ok(ncol) => {
                    lemma_rates_len(ls, i + 9, ncol as int);
                },
                Err(_) => {},
            }
        },
        Err(_) => {},
    }
}

/// Zero-count sections succeed with empty sequences, never with an error:
/// zero levels, transitions or rate rows consume nothing, and zero declared
/// partners leave the cursor where it stood.
pub proof fn lemma_zero_count_sections(ls: Seq<Seq<char>>, i: int)
    ensures
        levels_from(ls, i, 0) == Ok::<Seq<EnergyLevelModel>, ParseErrorModel>(Seq::empty()),
        transitions_from(ls, i, 0) == Ok::<
            Seq<crate::records::RadiativeTransitionModel>,
            ParseErrorModel,
        >(Seq::empty()),
        rates_from(ls, i, 0) == Ok::<Seq<crate::records::CollisionalRatesModel>, ParseErrorModel>(
            Seq::empty(),
        ),
        partners_from(ls, i, 0) == Ok::<
            (Seq<crate::document::CollisionPartnerDataModel>, int),
            ParseErrorModel,
        >((Seq::empty(), i)),
{
}

/// A level line of exactly two tokens, an integer and a floating-point
/// number, fails with a missing-field error naming the statistical weight.
pub proof fn lemma_two_token_level_line(line: Seq<char>)
    requires
        tokens(line).len() == 2,
        parse_u32(tokens(line)[0]) is Some,
        is_float(tokens(line)[1]),
    ensures
        spec_parse_energy_level(line) == Err::<
            EnergyLevelModel,
            SplittedFieldErrorModel<EnergyLevelField>,
        >(
            SplittedFieldErrorModel::MissingField {
                field: EnergyLevelField::StatisticalWeight,
                expected: ExpectedFieldValue::Float,
            },
        ),
{
}

/// A collision-partner line that begins with `9` and a space fails as an
/// unknown collision partner, whatever its trailing text.
pub proof fn lemma_partner_code_nine(line: Seq<char>)
    requires
        line.len() >= 2,
        line[0] == '9',
        line[1] == ' ',
    ensures
        spec_parse_partner_name(line) is Err,
{
    let t = trim(line, CharSet::Whitespace);
    lemma_run_end(line, 0, CharSet::Whitespace);
    lemma_run_start(line, line.len() as int, CharSet::Whitespace);
    let a = run_end(line, 0, CharSet::Whitespace);
    let b = run_start(line, line.len() as int, CharSet::Whitespace);
    assert(!crate::text::is_ws('9'));
    assert(a == 0);
    assert(b >= 1);
    assert(t[0] == '9');
    let k = run_end(t, 0, CharSet::NonWhitespace);
    lemma_run_end(t, 0, CharSet::NonWhitespace);
    if t.len() >= 2 {
        assert(t[1] == line[1]);
        assert(crate::text::is_ws(' '));
        assert(k == 1) by {
            assert(run_end(t, 0, CharSet::NonWhitespace) == run_end(t, 1, CharSet::NonWhitespace));
        }
    } else {
        assert(k == 1);
    }
    let d = crate::records::split_first(t).0;
    assert(d =~= seq!['9']);
    assert(all_digits(d));
    assert(dec_value(d) == 9) by {
        assert(d.last() == '9');
        assert('9' as u32 == 0x39);
        assert(d.drop_last() =~= Seq::<char>::empty());
        assert(dec_value(Seq::<char>::empty()) == 0);
    }
    assert(parse_u32(d) == Some(9u32));
    assert(crate::records::partner_of_code(9) is None);
}

/// The position `first_occurrence` names really is the first: the pattern
/// matches there and nowhere earlier; and `None` means it matches nowhere.
pub proof fn lemma_first_occurrence_is_first(s: Seq<char>, pat: Seq<char>, i: int)
    requires
        0 <= i,
    ensures
        match first_occurrence(s, pat, i) {
            Some(p) => i <= p && p + pat.len() <= s.len() && s.subrange(p, p + pat.len()) == pat
                && forall|q: int|
                i <= q < p ==> #[trigger] s.subrange(q, q + pat.len()) != pat,
            None => forall|q: int|
                i <= q && q + pat.len() <= s.len() ==> #[trigger] s.subrange(q, q + pat.len())
                    != pat,
        },
    decreases s.len() - i,
{
    if i + pat.len() > s.len() {
    } else if s.subrange(i, i + pat.len()) == pat {
    } else if i + pat.len() == s.len() {
    } else {
        lemma_first_occurrence_is_first(s, pat, i + 1);
    }
}

} // verus!

verus! {

/// Caret placement for a mistyped record token: the diagnostic rendered
/// from the wrapped error puts its caret exactly at the token's first
/// occurrence in the line, with exactly the token's width, and no earlier
/// position of the line matches the token.
pub proof fn lemma_caret_offset(
    ln: int,
    line: Seq<char>,
    value: Seq<char>,
    field: EnergyLevelField,
    expected: ExpectedFieldValue,
    p: int,
)
    requires
        first_occurrence(line, value, 0) == Some(p),
    ensures
        crate::error::render_spec(
            crate::document::wrap_level_error(
                SplittedFieldErrorModel::UnknownFormat { field, value, expected },
                ln,
                line,
            ),
        ) == crate::error::head_line(ln, line) + crate::error::caret_line(p, value.len() as int)
            + crate::error::note_line(
            crate::document::unknown_item_note(value, field.label_spec(), expected.label_spec()),
        ),
        line.subrange(p, p + value.len()) == value,
        forall|q: int| 0 <= q < p ==> #[trigger] line.subrange(q, q + value.len()) != value,
{
    lemma_first_occurrence_is_first(line, value, 0);
}

/// The declared count of a count line, or 0 where it does not parse.
pub open spec fn count_val(ls: Seq<Seq<char>>, i: int) -> int {
    match spec_parse_count(ls[i]) {
        Some(n) => n as int,
        None => 0,
    }
}

/// `n` well-formed energy-level lines stand at `i`.
pub open spec fn wf_levels(ls: Seq<Seq<char>>, i: int, n: int) -> bool {
    &&& i >= 0
    &&& i + n <= ls.len()
    &&& forall|k: int| 0 <= k < n ==> spec_parse_energy_level(#[trigger] ls[i + k]) is Ok
}

/// `n` well-formed radiative-transition lines stand at `i`.
pub open spec fn wf_transitions(ls: Seq<Seq<char>>, i: int, n: int) -> bool {
    &&& i >= 0
    &&& i + n <= ls.len()
    &&& forall|k: int|
        0 <= k < n ==> crate::records::spec_parse_radiative_transition(#[trigger] ls[i + k]) is Ok
}

/// `n` well-formed collisional-rate lines stand at `i`.
pub open spec fn wf_rates(ls: Seq<Seq<char>>, i: int, n: int) -> bool {
    &&& i >= 0
    &&& i + n <= ls.len()
    &&& forall|k: int| 0 <= k < n ==> crate::records::spec_parse_rates(#[trigger] ls[i + k]) is Ok
}

#[verifier::rlimit(50)]
pub proof fn lemma_wf_levels(ls: Seq<Seq<char>>, i: int, n: int)
    requires
        n >= 0,
        wf_levels(ls, i, n),
    ensures
        levels_from(ls, i, n) is Ok,
    decreases n,
{
    if n > 0 {
        assert(spec_parse_energy_level(ls[i + 0]) is Ok);
        assert(wf_levels(ls, i + 1, n - 1)) by {
            assert forall|k: int| 0 <= k < n - 1 implies spec_parse_energy_level(
                #[trigger] ls[i + 1 + k],
            ) is Ok by {
                assert(ls[i + 1 + k] == ls[i + (k + 1)]);
            }
        }
        lemma_wf_levels(ls, i + 1, n - 1);
    }
}

#[verifier::rlimit(50)]
pub proof fn lemma_wf_transitions(ls: Seq<Seq<char>>, i: int, n: int)
    requires
        n >= 0,
        wf_transitions(ls, i, n),
    ensures
        transitions_from(ls, i, n) is Ok,
    decreases n,
{
    if n > 0 {
        assert(crate::records::spec_parse_radiative_transition(ls[i + 0]) is Ok);
        assert(wf_transitions(ls, i + 1, n - 1)) by {
            assert forall|k: int| 0 <= k < n - 1 implies crate::records::spec_parse_radiative_transition(
                #[trigger] ls[i + 1 + k],
            ) is Ok by {
                assert(ls[i + 1 + k] == ls[i + (k + 1)]);
            }
        }
        lemma_wf_transitions(ls, i + 1, n - 1);
    }
}

#[verifier::rlimit(50)]
pub proof fn lemma_wf_rates(ls: Seq<Seq<char>>, i: int, n: int)
    requires
        n >= 0,
        wf_rates(ls, i, n),
    ensures
        rates_from(ls, i, n) is Ok,
    decreases n,
{
    if n > 0 {
        assert(crate::records::spec_parse_rates(ls[i + 0]) is Ok);
        assert(wf_rates(ls, i + 1, n - 1)) by {
            assert forall|k: int| 0 <= k < n - 1 implies crate::records::spec_parse_rates(
                #[trigger] ls[i + 1 + k],
            ) is Ok by {
                assert(ls[i + 1 + k] == ls[i + (k + 1)]);
            }
        }
        lemma_wf_rates(ls, i + 1, n - 1);
    }
}

/// A well-formed collision-partner block stands at `i`: its seven header
/// lines, a temperatures line, and the declared number of rate rows.
pub open spec fn wf_partner_block(ls: Seq<Seq<char>>, i: int) -> bool {
    &&& i >= 0
    &&& i + 9 <= ls.len()
    &&& crate::records::is_comment(ls[i])
    &&& spec_parse_partner_name(ls[i + 1]) is Ok
    &&& crate::records::is_comment(ls[i + 2])
    &&& spec_parse_count(ls[i + 3]) is Some
    &&& crate::records::is_comment(ls[i + 4])
    &&& spec_parse_count(ls[i + 5]) is Some
    &&& crate::records::is_comment(ls[i + 6])
    &&& crate::records::spec_parse_temperatures(ls[i + 7]) is Ok
    &&& crate::records::is_comment(ls[i + 8])
    &&& wf_rates(ls, i + 9, count_val(ls, i + 3))
}

/// The index just past the block that starts at `i`.
pub open spec fn partner_block_end(ls: Seq<Seq<char>>, i: int) -> int {
    i + 9 + count_val(ls, i + 3)
}

#[verifier::rlimit(50)]
pub proof fn lemma_wf_partner_block(ls: Seq<Seq<char>>, i: int)
    requires
        wf_partner_block(ls, i),
    ensures
        match crate::document::partner_at(ls, i) {
            Ok((p, j)) => j == partner_block_end(ls, i) && p.rates.len() == count_val(ls, i + 3),
            Err(_) => false,
        },
{
    lemma_wf_rates(ls, i + 9, count_val(ls, i + 3));
    lemma_rates_len(ls, i + 9, count_val(ls, i + 3));
}

/// `n` well-formed partner blocks stand one after another from `i` on.
pub open spec fn wf_partners(ls: Seq<Seq<char>>, i: int, n: int) -> bool
    decreases n,
{
    n <= 0 || (wf_partner_block(ls, i) && wf_partners(ls, partner_block_end(ls, i), n - 1))
}

/// The index just past the last of those blocks.
pub open spec fn partners_end(ls: Seq<Seq<char>>, i: int, n: int) -> int
    decreases n,
{
    if n <= 0 {
        i
    } else {
        partners_end(ls, partner_block_end(ls, i), n - 1)
    }
}

pub proof fn lemma_wf_partners(ls: Seq<Seq<char>>, i: int, n: int)
    requires
        n >= 0,
        wf_partners(ls, i, n),
    ensures
        match partners_from(ls, i, n) {
            Ok((ps, j)) => ps.len() == n && j == partners_end(ls, i, n),
            Err(_) => false,
        },
    decreases n,
{
    if n > 0 {
        lemma_wf_partner_block(ls, i);
        lemma_wf_partners(ls, partner_block_end(ls, i), n - 1);
    }
}

/// Every line from `i` on is blank or a comment.
pub open spec fn wf_trailing(ls: Seq<Seq<char>>, i: int) -> bool {
    forall|k: int|
        i <= k < ls.len() ==> (trim(#[trigger] ls[k], CharSet::Whitespace).len() == 0
            || crate::records::is_comment(ls[k]))
}

pub proof fn lemma_wf_trailing(ls: Seq<Seq<char>>, i: int, npart: int)
    requires
        0 <= i,
        wf_trailing(ls, i),
    ensures
        crate::document::trailing_from(ls, i, npart) is Ok,
    decreases ls.len() - i,
{
    if i < ls.len() {
        lemma_wf_trailing(ls, i + 1, npart);
    }
}

/// The whole grammar holds of `ls`: the fixed header, three bounded
/// sections each matching its count line, and only comments or blank lines
/// after the last partner.
pub open spec fn wf_document(ls: Seq<Seq<char>>) -> bool {
    &&& ls.len() >= 7
    &&& crate::records::is_comment(ls[0])
    &&& crate::records::is_comment(ls[2])
    &&& crate::records::spec_parse_weight(ls[3]) is Ok
    &&& crate::records::is_comment(ls[4])
    &&& spec_parse_count(ls[5]) is Some
    &&& crate::records::is_comment(ls[6])
    &&& wf_levels(ls, 7, count_val(ls, 5))
    &&& {
        let i1 = 7 + count_val(ls, 5);
        &&& i1 < ls.len()
        &&& crate::records::is_comment(ls[i1])
        &&& i1 + 1 < ls.len()
        &&& spec_parse_count(ls[i1 + 1]) is Some
        &&& i1 + 2 < ls.len()
        &&& crate::records::is_comment(ls[i1 + 2])
        &&& wf_transitions(ls, i1 + 3, count_val(ls, i1 + 1))
        &&& {
            let i2 = i1 + 3 + count_val(ls, i1 + 1);
            &&& i2 < ls.len()
            &&& crate::records::is_comment(ls[i2])
            &&& i2 + 1 < ls.len()
            &&& spec_parse_count(ls[i2 + 1]) is Some
            &&& wf_partners(ls, i2 + 2, count_val(ls, i2 + 1))
            &&& wf_trailing(ls, partners_end(ls, i2 + 2, count_val(ls, i2 + 1)))
        }
    }
}

/// For any input whose lines follow the grammar, parsing succeeds, and
/// each bounded section's produced length equals the count its preceding
/// count line declares. Within each partner, the rate table's length
/// equals the block's own count line; that is `lemma_wf_partner_block`.
#[verifier::rlimit(50)]
pub proof fn lemma_well_formed_input_parses(text: Seq<char>)
    requires
        wf_document(crate::text::lines(text)),
    ensures
        ({
            let ls = crate::text::lines(text);
            let i1 = 7 + count_val(ls, 5);
            let i2 = i1 + 3 + count_val(ls, i1 + 1);
            match crate::document::spec_parse_document(text) {
                Ok(m) => {
                    &&& m.energy_levels.len() == count_val(ls, 5)
                    &&& m.radiative_transitions.len() == count_val(ls, i1 + 1)
                    &&& m.collision_partners.len() == count_val(ls, i2 + 1)
                },
                Err(_) => false,
            }
        }),
{
    let ls = crate::text::lines(text);
    let nlev = count_val(ls, 5);
    let i1 = 7 + nlev;
    let nlin = count_val(ls, i1 + 1);
    let i2 = i1 + 3 + nlin;
    let npart = count_val(ls, i2 + 1);
    lemma_wf_levels(ls, 7, nlev);
    lemma_levels_len(ls, 7, nlev);
    lemma_wf_transitions(ls, i1 + 3, nlin);
    lemma_transitions_len(ls, i1 + 3, nlin);
    lemma_wf_partners(ls, i2 + 2, npart);
    lemma_wf_trailing(ls, partners_end(ls, i2 + 2, npart), npart);
}

} // verus!
