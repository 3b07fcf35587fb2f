//! Character classes and low-level text operations: trimming, tokenizing,
//! line splitting, substring search and decimal formatting.

use vstd::prelude::*;

verus! {

/// The Unicode `White_Space` code points, the set that `char::is_whitespace`
/// recognizes.
pub open spec fn is_ws(c: char) -> bool {
    let u = c as u32;
    u == 0x09 || u == 0x0A || u == 0x0B || u == 0x0C || u == 0x0D || u == 0x20
        || u == 0x85 || u == 0xA0 || u == 0x1680 || (0x2000 <= u && u <= 0x200A)
        || u == 0x2028 || u == 0x2029 || u == 0x202F || u == 0x205F || u == 0x3000
}

pub open spec fn is_digit(c: char) -> bool {
    0x30 <= c as u32 && c as u32 <= 0x39
}

pub open spec fn digit_val(c: char) -> int {
    c as u32 - 0x30
}

/// The ASCII letters and digits; the caret for an unknown collision partner
/// is anchored on the first such character of the line.
pub open spec fn is_alnum(c: char) -> bool {
    let u = c as u32;
    (0x30 <= u && u <= 0x39) || (0x41 <= u && u <= 0x5A) || (0x61 <= u && u <= 0x7A)
}

/// A character set that trimming and scanning operations are parameterized by.
#[derive(Clone, Copy, PartialEq, Eq, Structural, Debug)]
pub enum CharSet {
    /// Unicode whitespace.
    Whitespace,
    /// Everything but whitespace: used to scan to the end of a token.
    NonWhitespace,
    /// Everything but a line feed: used to scan to the end of a line.
    NonNewline,
    /// Space, comment marker and line feed: stripped around comment text.
    CommentTrim,
    /// Space, comment marker, single quote and line feed: stripped around
    /// free-text record tails.
    TailTrim,
    /// Everything but an ASCII letter or digit.
    NonAlnum,
    /// The ASCII decimal digits.
    Digit,
    /// Everything but a tab: used to copy a line while expanding tabs.
    NonTab,
}

impl CharSet {
    pub open spec fn has(self, c: char) -> bool {
        match self {
            CharSet::Whitespace => is_ws(c),
            CharSet::NonWhitespace => !is_ws(c),
            CharSet::NonNewline => c != '\n',
            CharSet::CommentTrim => c == ' ' || c == '!' || c == '\n',
            CharSet::TailTrim => c == ' ' || c == '!' || c == '\'' || c == '\n',
            CharSet::NonAlnum => !is_alnum(c),
            CharSet::Digit => is_digit(c),
            CharSet::NonTab => c != '\t',
        }
    }

    pub fn contains(&self, c: char) -> (b: bool)
        ensures
            b == self.has(c),
    {
        match self {
            CharSet::Whitespace => {
                let u = c as u32;
                u == 0x09 || u == 0x0A || u == 0x0B || u == 0x0C || u == 0x0D || u == 0x20
                    || u == 0x85 || u == 0xA0 || u == 0x1680 || (0x2000 <= u && u <= 0x200A)
                    || u == 0x2028 || u == 0x2029 || u == 0x202F || u == 0x205F || u == 0x3000
            },
            CharSet::NonWhitespace => {
                let u = c as u32;
                !(u == 0x09 || u == 0x0A || u == 0x0B || u == 0x0C || u == 0x0D || u == 0x20
                    || u == 0x85 || u == 0xA0 || u == 0x1680 || (0x2000 <= u && u <= 0x200A)
                    || u == 0x2028 || u == 0x2029 || u == 0x202F || u == 0x205F || u == 0x3000)
            },
            CharSet::NonNewline => c != '\n',
            CharSet::CommentTrim => c == ' ' || c == '!' || c == '\n',
            CharSet::TailTrim => c == ' ' || c == '!' || c == '\'' || c == '\n',
            CharSet::NonAlnum => {
                let u = c as u32;
                !((0x30 <= u && u <= 0x39) || (0x41 <= u && u <= 0x5A) || (0x61 <= u && u <= 0x7A))
            },
            CharSet::Digit => {
                let u = c as u32;
                0x30 <= u && u <= 0x39
            },
            CharSet::NonTab => c != '\t',
        }
    }
}

/// First index at or after `i` whose character falls outside `set`
/// (or the end of `s`).
pub open spec fn run_end(s: Seq<char>, i: int, set: CharSet) -> int
    decreases s.len() - i,
{
    if 0 <= i && i < s.len() && set.has(s[i]) {
        run_end(s, i + 1, set)
    } else {
        i
    }
}

pub proof fn lemma_run_end(s: Seq<char>, i: int, set: CharSet)
    requires
        0 <= i <= s.len(),
    ensures
        i <= run_end(s, i, set) <= s.len(),
        forall|j: int| i <= j < run_end(s, i, set) ==> set.has(s[j]),
        run_end(s, i, set) < s.len() ==> !set.has(s[run_end(s, i, set)]),
    decreases s.len() - i,
{
    if i < s.len() && set.has(s[i]) {
        lemma_run_end(s, i + 1, set);
    }
}

/// First index at or before `i`, scanning backwards, such that the character
/// just before it falls outside `set` (or the start of `s`).
pub open spec fn run_start(s: Seq<char>, i: int, set: CharSet) -> int
    decreases i,
{
    if 0 < i && i <= s.len() && set.has(s[i - 1]) {
        run_start(s, i - 1, set)
    } else {
        i
    }
}

pub proof fn lemma_run_start(s: Seq<char>, i: int, set: CharSet)
    requires
        0 <= i <= s.len(),
    ensures
        0 <= run_start(s, i, set) <= i,
        forall|j: int| run_start(s, i, set) <= j < i ==> set.has(s[j]),
        run_start(s, i, set) > 0 ==> !set.has(s[run_start(s, i, set) - 1]),
    decreases i,
{
    if 0 < i && set.has(s[i - 1]) {
        lemma_run_start(s, i - 1, set);
    }
}

/// `s` with every leading and trailing character of `set` removed.
pub open spec fn trim(s: Seq<char>, set: CharSet) -> Seq<char> {
    let a = run_end(s, 0, set);
    if a == s.len() {
        Seq::empty()
    } else {
        s.subrange(a, run_start(s, s.len() as int, set))
    }
}

/// Scan forward from `from` while characters stay in `set`.
pub fn scan_while(s: &str, from: usize, set: CharSet) -> (r: usize)
    requires
        from <= s@.len(),
    ensures
        r == run_end(s@, from as int, set),
        from <= r <= s@.len(),
{
    let n = s.unicode_len();
    let mut i = from;
    proof {
        lemma_run_end(s@, from as int, set);
    }
    while i < n && set.contains(s.get_char(i))
        invariant
            from <= i <= n,
            n == s@.len(),
            run_end(s@, from as int, set) == run_end(s@, i as int, set),
        decreases n - i,
    {
        i = i + 1;
    }
    i
}

/// Scan backward from `from` while the characters just before stay in `set`.
pub fn scan_back_while(s: &str, from: usize, set: CharSet) -> (r: usize)
    requires
        from <= s@.len(),
    ensures
        r == run_start(s@, from as int, set),
        r <= from,
{
    let mut i = from;
    proof {
        lemma_run_start(s@, from as int, set);
    }
    while i > 0 && set.contains(s.get_char(i - 1))
        invariant
            0 <= i <= from,
            from <= s@.len(),
            run_start(s@, from as int, set) == run_start(s@, i as int, set),
        decreases i,
    {
        i = i - 1;
    }
    i
}

/// `s` with every leading and trailing character of `set` removed.
pub fn trim_str<'a>(s: &'a str, set: CharSet) -> (r: &'a str)
    ensures
        r@ == trim(s@, set),
{
    let n = s.unicode_len();
    let a = scan_while(s, 0, set);
    if a == n {
        proof {
            reveal_strlit("");
            assert(trim(s@, set) =~= ""@);
        }
        ""
    } else {
        let b = scan_back_while(s, n, set);
        proof {
            lemma_run_end(s@, 0, set);
            lemma_run_start(s@, s@.len() as int, set);
            if b <= a {
                assert(!set.has(s@[a as int]));
                assert(b > a as int || (run_start(s@, s@.len() as int, set) <= a < s@.len()
                    && set.has(s@[a as int])));
            }
        }
        s.substring_char(a, b)
    }
}

} // verus!

verus! {

/// The views of a sequence of string slices.
pub open spec fn views_of(v: Seq<&str>) -> Seq<Seq<char>> {
    v.map_values(|t: &str| t@)
}

/// The whitespace-separated tokens of `s`, starting the scan at `i`.
pub open spec fn tokens_from(s: Seq<char>, i: int) -> Seq<Seq<char>>
    decreases s.len() - i, s.len() - i,
        via tokens_from_dec
{
    if i < 0 || i >= s.len() {
        Seq::empty()
    } else if is_ws(s[i]) {
        tokens_from(s, i + 1)
    } else {
        let e = run_end(s, i, CharSet::NonWhitespace);
        seq![s.subrange(i, e)] + tokens_from(s, e)
    }
}

#[via_fn]
proof fn tokens_from_dec(s: Seq<char>, i: int) {
    if 0 <= i && i < s.len() && !is_ws(s[i]) {
        lemma_run_end(s, i + 1, CharSet::NonWhitespace);
    }
}

/// The whitespace-separated tokens of `s`.
pub open spec fn tokens(s: Seq<char>) -> Seq<Seq<char>> {
    tokens_from(s, 0)
}

/// Split `s` into whitespace-separated tokens, as slices of `s`.
pub fn tokenize<'a>(s: &'a str) -> (r: Vec<&'a str>)
    ensures
        views_of(r@) == tokens(s@),
{
    let n = s.unicode_len();
    let mut r: Vec<&'a str> = Vec::new();
    let mut i: usize = 0;
    while i < n
        invariant
            i <= n,
            n == s@.len(),
            tokens(s@) == views_of(r@) + tokens_from(s@, i as int),
        decreases n - i,
    {
        if CharSet::Whitespace.contains(s.get_char(i)) {
            i = i + 1;
        } else {
            let e = scan_while(s, i, CharSet::NonWhitespace);
            proof {
                lemma_run_end(s@, i as int + 1, CharSet::NonWhitespace);
            }
            let tok = s.substring_char(i, e);
            let ghost pre = r@;
            r.push(tok);
            proof {
                assert(views_of(r@) =~= views_of(pre) + seq![tok@]);
                assert(tokens(s@) =~= views_of(r@) + tokens_from(s@, e as int));
            }
            i = e;
        }
    }
    proof {
        assert(tokens(s@) =~= views_of(r@));
    }
    r
}

} // verus!

verus! {

/// The lines of `s` from position `i` on: split at every line feed, with a
/// carriage return stripped just before a line feed, and no empty final line
/// after a trailing line feed.
pub open spec fn lines_from(s: Seq<char>, i: int) -> Seq<Seq<char>>
    decreases s.len() - i,
        via lines_from_dec
{
    if i < 0 || i >= s.len() {
        Seq::empty()
    } else {
        let e = run_end(s, i, CharSet::NonNewline);
        let seg = s.subrange(i, e);
        if e < s.len() {
            let line = if seg.len() > 0 && seg.last() == '\r' {
                seg.drop_last()
            } else {
                seg
            };
            seq![line] + lines_from(s, e + 1)
        } else {
            seq![seg]
        }
    }
}

#[via_fn]
proof fn lines_from_dec(s: Seq<char>, i: int) {
    if 0 <= i && i < s.len() {
        lemma_run_end(s, i, CharSet::NonNewline);
    }
}

/// The lines of `s`, as `str::lines` produces them.
pub open spec fn lines(s: Seq<char>) -> Seq<Seq<char>> {
    lines_from(s, 0)
}

/// There are never more lines than characters.
pub proof fn lemma_lines_count(s: Seq<char>, i: int)
    requires
        0 <= i <= s.len(),
    ensures
        lines_from(s, i).len() <= s.len() - i,
    decreases s.len() - i,
{
    if i < s.len() {
        let e = run_end(s, i, CharSet::NonNewline);
        lemma_run_end(s, i, CharSet::NonNewline);
        if e < s.len() {
            lemma_lines_count(s, e + 1);
        }
    }
}

/// Split `s` into its lines, as slices of `s`.
pub fn split_lines<'a>(s: &'a str) -> (r: Vec<&'a str>)
    ensures
        views_of(r@) == lines(s@),
        r@.len() <= s@.len(),
{
    let n = s.unicode_len();
    let mut r: Vec<&'a str> = Vec::new();
    let mut i: usize = 0;
    proof {
        lemma_lines_count(s@, 0);
    }
    while i < n
        invariant
            i <= n,
            n == s@.len(),
            lines(s@) == views_of(r@) + lines_from(s@, i as int),
            r@.len() + lines_from(s@, i as int).len() <= s@.len(),
        decreases n - i,
    {
        let e = scan_while(s, i, CharSet::NonNewline);
        proof {
            lemma_lines_count(s@, i as int);
        }
        let seg_end = if e < n && e > i && s.get_char(e - 1) == '\r' {
            e - 1
        } else {
            e
        };
        let line = s.substring_char(i, seg_end);
        let ghost pre = r@;
        proof {
            let seg = s@.subrange(i as int, e as int);
            if e < n && seg.len() > 0 && seg.last() == '\r' {
                assert(line@ =~= seg.drop_last());
            }
        }
        r.push(line);
        proof {
            assert(views_of(r@) =~= views_of(pre) + seq![line@]);
            if e < n {
                assert(lines(s@) =~= views_of(r@) + lines_from(s@, e as int + 1));
            } else {
                assert(lines_from(s@, e as int) =~= Seq::<Seq<char>>::empty());
                assert(lines(s@) =~= views_of(r@) + lines_from(s@, e as int));
            }
        }
        if e < n {
            i = e + 1;
        } else {
            i = e;
        }
    }
    proof {
        assert(lines(s@) =~= views_of(r@));
    }
    r
}

/// The least position at or after `i` where `pat` occurs in `s`.
pub open spec fn first_occurrence(s: Seq<char>, pat: Seq<char>, i: int) -> Option<int>
    decreases s.len() - i,
{
    if i < 0 || i + pat.len() > s.len() {
        None
    } else if s.subrange(i, i + pat.len()) == pat {
        Some(i)
    } else if i + pat.len() == s.len() {
        None
    } else {
        first_occurrence(s, pat, i + 1)
    }
}

/// Least position where `pat` occurs in `s`, or `None`.
pub fn find_first(s: &str, pat: &str) -> (r: Option<usize>)
    ensures
        match r {
            Some(k) => first_occurrence(s@, pat@, 0) == Some(k as int),
            None => first_occurrence(s@, pat@, 0) is None,
        },
{
    let n = s.unicode_len();
    let m = pat.unicode_len();
    if m > n {
        return None;
    }
    let mut i: usize = 0;
    while i <= n - m
        invariant
            i <= n,
            m <= n,
            n == s@.len(),
            m == pat@.len(),
            first_occurrence(s@, pat@, 0) == first_occurrence(s@, pat@, i as int),
        decreases n - i,
    {
        let mut j: usize = 0;
        let mut hit = true;
        while j < m
            invariant
                j <= m,
                i + m <= n,
                n == s@.len(),
                m == pat@.len(),
                hit ==> forall|q: int| 0 <= q < j ==> s@[i + q] == pat@[q],
                !hit ==> exists|q: int| 0 <= q < j && s@[i + q] != pat@[q],
            decreases m - j,
        {
            if s.get_char(i + j) != pat.get_char(j) {
                hit = false;
            }
            j = j + 1;
        }
        if hit {
            proof {
                assert(s@.subrange(i as int, i + m) =~= pat@);
            }
            return Some(i);
        }
        proof {
            let q = choose|q: int| 0 <= q < m && s@[i + q] != pat@[q];
            assert(s@.subrange(i as int, i + m)[q] != pat@[q]);
        }
        i = i + 1;
    }
    None
}

/// The elements of `ts`, each followed by a single space.
pub open spec fn join_spaced(ts: Seq<Seq<char>>) -> Seq<char>
    decreases ts.len(),
{
    if ts.len() == 0 {
        Seq::empty()
    } else {
        join_spaced(ts.drop_last()) + ts.last() + seq![' ']
    }
}

/// Append the tokens of `ts` from position `from` on to `acc`, each followed
/// by a single space.
pub fn append_joined(acc: &mut String, ts: &Vec<&str>, from: usize)
    requires
        from <= ts@.len(),
    ensures
        final(acc)@ == old(acc)@ + join_spaced(views_of(ts@).skip(from as int)),
{
    let n = ts.len();
    let ghost base = acc@;
    let mut k = from;
    proof {
        reveal_strlit(" ");
        assert(join_spaced(views_of(ts@).subrange(from as int, from as int)) =~= Seq::<char>::empty());
    }
    while k < n
        invariant
            from <= k <= n,
            n == ts@.len(),
            acc@ == base + join_spaced(views_of(ts@).subrange(from as int, k as int)),
            " "@ == seq![' '],
        decreases n - k,
    {
        let t = ts[k];
        acc.append(t);
        acc.append(" ");
        proof {
            let vs = views_of(ts@);
            assert(vs.subrange(from as int, k + 1).drop_last() =~= vs.subrange(from as int, k as int));
            assert(vs.subrange(from as int, k + 1).last() == t@);
        }
        k = k + 1;
    }
    proof {
        assert(views_of(ts@).subrange(from as int, n as int) =~= views_of(ts@).skip(from as int));
    }
}

} // verus!

verus! {

/// The character for the decimal digit `d`.
pub open spec fn dec_digit(d: int) -> char
    recommends
        0 <= d <= 9,
{
    ((0x30 + d) as u8) as char
}

/// The decimal notation of the non-negative integer `n`.
pub open spec fn dec_str(n: int) -> Seq<char>
    recommends
        n >= 0,
    decreases n,
{
    if n < 10 {
        seq![dec_digit(n)]
    } else {
        dec_str(n / 10) + seq![dec_digit(n % 10)]
    }
}

/// `n` copies of `c`.
pub open spec fn repeat_char(c: char, n: int) -> Seq<char>
    recommends
        n >= 0,
{
    Seq::new(if n >= 0 { n as nat } else { 0 }, |j: int| c)
}

/// A single-character string slice for the decimal digit `d`.
fn digit_str(d: u64) -> (r: &'static str)
    requires
        d <= 9,
    ensures
        r@ =~= seq![dec_digit(d as int)],
{
    proof {
        reveal_strlit("0");
        reveal_strlit("1");
        reveal_strlit("2");
        reveal_strlit("3");
        reveal_strlit("4");
        reveal_strlit("5");
        reveal_strlit("6");
        reveal_strlit("7");
        reveal_strlit("8");
        reveal_strlit("9");
    }
    if d == 0 {
        "0"
    } else if d == 1 {
        "1"
    } else if d == 2 {
        "2"
    } else if d == 3 {
        "3"
    } else if d == 4 {
        "4"
    } else if d == 5 {
        "5"
    } else if d == 6 {
        "6"
    } else if d == 7 {
        "7"
    } else if d == 8 {
        "8"
    } else {
        "9"
    }
}

/// The digits of `ds` in reverse order, as characters.
pub open spec fn digits_rev(ds: Seq<u64>) -> Seq<char> {
    Seq::new(ds.len(), |j: int| dec_digit(ds[ds.len() - 1 - j] as int))
}

/// Append the decimal notation of `n` to `acc`.
pub fn append_decimal(acc: &mut String, n: u64)
    ensures
        final(acc)@ == old(acc)@ + dec_str(n as int),
{
    let mut digits: Vec<u64> = Vec::new();
    let mut m = n;
    loop
        invariant_except_break
            digits@.len() == 0 ==> m == n,
            digits@.len() > 0 ==> m > 0 && dec_str(n as int) =~= dec_str(m as int)
                + digits_rev(digits@),
            forall|j: int| 0 <= j < digits@.len() ==> digits@[j] <= 9,
        ensures
            dec_str(n as int) =~= digits_rev(digits@),
            forall|j: int| 0 <= j < digits@.len() ==> digits@[j] <= 9,
            digits@.len() > 0,
        decreases m, (if digits@.len() == 0 { 1int } else { 0int }),
    {
        let d = m % 10;
        let ghost pre = digits@;
        let ghost m0 = m;
        digits.push(d);
        m = m / 10;
        proof {
            assert(digits_rev(digits@) =~= seq![dec_digit(d as int)] + digits_rev(pre));
            if pre.len() == 0 {
                if m0 >= 10 {
                    assert(dec_str(n as int) =~= dec_str(m as int) + digits_rev(digits@));
                } else {
                    assert(dec_str(n as int) =~= digits_rev(digits@));
                }
            } else {
                if m0 >= 10 {
                    assert(dec_str(m0 as int) + digits_rev(pre) =~= dec_str(m as int)
                        + digits_rev(digits@));
                } else {
                    assert(dec_str(m0 as int) + digits_rev(pre) =~= digits_rev(digits@));
                }
            }
        }
        if m == 0 {
            break;
        }
    }
    let k0 = digits.len();
    let mut k = k0;
    while k > 0
        invariant
            k <= k0,
            k0 == digits@.len(),
            forall|j: int| 0 <= j < digits@.len() ==> digits@[j] <= 9,
            acc@ =~= old(acc)@ + digits_rev(digits@).take(k0 - k),
        decreases k,
    {
        k = k - 1;
        acc.append(digit_str(digits[k]));
        proof {
            assert(acc@ =~= old(acc)@ + digits_rev(digits@).take(k0 - k));
        }
    }
    proof {
        assert(digits_rev(digits@).take(k0 as int) =~= digits_rev(digits@));
    }
}

/// Append `n` copies of the space character to `acc`.
pub fn append_spaces(acc: &mut String, n: usize)
    ensures
        final(acc)@ == old(acc)@ + repeat_char(' ', n as int),
{
    let mut k: usize = 0;
    proof {
        reveal_strlit(" ");
    }
    while k < n
        invariant
            k <= n,
            " "@ == seq![' '],
            acc@ =~= old(acc)@ + repeat_char(' ', k as int),
        decreases n - k,
    {
        acc.append(" ");
        k = k + 1;
        proof {
            assert(acc@ =~= old(acc)@ + repeat_char(' ', k as int));
        }
    }
}

/// Append `n` copies of the caret character to `acc`.
pub fn append_carets(acc: &mut String, n: usize)
    ensures
        final(acc)@ == old(acc)@ + repeat_char('^', n as int),
{
    let mut k: usize = 0;
    proof {
        reveal_strlit("^");
    }
    while k < n
        invariant
            k <= n,
            "^"@ == seq!['^'],
            acc@ =~= old(acc)@ + repeat_char('^', k as int),
        decreases n - k,
    {
        acc.append("^");
        k = k + 1;
        proof {
            assert(acc@ =~= old(acc)@ + repeat_char('^', k as int));
        }
    }
}

/// The decimal notation of `n`, right-aligned in a field of `width` spaces.
pub open spec fn right_aligned(n: int, width: int) -> Seq<char> {
    let d = dec_str(n);
    if d.len() >= width {
        d
    } else {
        repeat_char(' ', width - d.len()) + d
    }
}

/// Append the decimal notation of `n`, right-aligned in a field of `width`
/// spaces, to `acc`.
pub fn append_right_aligned(acc: &mut String, n: u64, width: usize)
    ensures
        final(acc)@ == old(acc)@ + right_aligned(n as int, width as int),
{
    let mut num = String::new();
    append_decimal(&mut num, n);
    let w = num.as_str().unicode_len();
    if w < width {
        append_spaces(acc, width - w);
    }
    acc.append(num.as_str());
    proof {
        assert(final(acc)@ =~= old(acc)@ + right_aligned(n as int, width as int));
    }
}

} // verus!
