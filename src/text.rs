use vstd::prelude::*;

use crate::model::Episode;

verus! {

/// Lower-case form of a text, as `str::to_lowercase` computes it.
pub uninterp spec fn lower_of(s: Seq<char>) -> Seq<char>;

/// Relies on `str::to_lowercase`: the result depends on the characters
/// alone.
#[verifier::external_body]
fn lowercase(s: &str) -> (r: String)
    ensures
        r@ == lower_of(s@),
{
    s.to_lowercase()
}

/// Whether two texts hold the same characters.
pub fn same_text(a: &str, b: &str) -> (r: bool)
    ensures
        r == (a@ == b@),
{
    let n = a.unicode_len();
    if n != b.unicode_len() {
        return false;
    }
    let mut i: usize = 0;
    while i < n
        invariant
            n == a@.len(),
            n == b@.len(),
            i <= n,
            forall|k: int| 0 <= k < i ==> a@[k] == b@[k],
        decreases n - i,
    {
        if a.get_char(i) != b.get_char(i) {
            return false;
        }
        i = i + 1;
    }
    assert(a@ =~= b@);
    true
}

/// A lower-cased title without its leading article: `a `, `an ` or
/// `the `, at most one of them.
pub open spec fn strip_article(s: Seq<char>) -> Seq<char> {
    if s.len() >= 2 && s[0] == 'a' && s[1] == ' ' {
        s.skip(2)
    } else if s.len() >= 3 && s[0] == 'a' && s[1] == 'n' && s[2] == ' ' {
        s.skip(3)
    } else if s.len() >= 4 && s[0] == 't' && s[1] == 'h' && s[2] == 'e' && s[3] == ' ' {
        s.skip(4)
    } else {
        s
    }
}

/// Removes one leading article from a title that is already lower case.
pub fn strip_leading_article(lowered: &str) -> (r: String)
    ensures
        r@ == strip_article(lowered@),
{
    let n = lowered.unicode_len();
    let mut skip: usize = 0;
    if n >= 2 && lowered.get_char(0) == 'a' && lowered.get_char(1) == ' ' {
        skip = 2;
    } else if n >= 3 && lowered.get_char(0) == 'a' && lowered.get_char(1) == 'n'
        && lowered.get_char(2) == ' ' {
        skip = 3;
    } else if n >= 4 && lowered.get_char(0) == 't' && lowered.get_char(1) == 'h'
        && lowered.get_char(2) == 'e' && lowered.get_char(3) == ' ' {
        skip = 4;
    }
    let rest = lowered.substring_char(skip, n);
    assert(lowered@.skip(0) =~= lowered@);
    String::from_str(rest)
}

/// The title used to order podcasts for display: lower case, without a
/// leading article.
pub fn sort_title(title: &str) -> (r: String)
    ensures
        r@ == strip_article(lower_of(title@)),
{
    let lowered = lowercase(title);
    strip_leading_article(lowered.as_str())
}

/// The explicit-content flag that a lower-cased free-text value stands for.
pub open spec fn explicit_of(s: Seq<char>) -> Option<bool> {
    if s == "yes"@ || s == "explicit"@ || s == "true"@ {
        Some(true)
    } else if s == "no"@ || s == "clean"@ || s == "false"@ {
        Some(false)
    } else {
        None
    }
}

/// Reads a lower-cased explicit-content value.
pub fn explicit_from_lowered(lowered: &str) -> (r: Option<bool>)
    ensures
        r == explicit_of(lowered@),
{
    if same_text(lowered, "yes") || same_text(lowered, "explicit") || same_text(lowered, "true") {
        Some(true)
    } else if same_text(lowered, "no") || same_text(lowered, "clean") || same_text(
        lowered,
        "false",
    ) {
        Some(false)
    } else {
        None
    }
}

/// Reads a feed's explicit-content value, in any letter case.
pub fn explicit_flag(raw: &str) -> (r: Option<bool>)
    ensures
        r == explicit_of(lower_of(raw@)),
{
    let lowered = lowercase(raw);
    explicit_from_lowered(lowered.as_str())
}

/// A text cut at each `:` into groups; a text without `:` is one group.
pub open spec fn colon_split(s: Seq<char>) -> Seq<Seq<char>>
    decreases s.len(),
{
    if s.len() == 0 {
        seq![Seq::empty()]
    } else {
        let gs = colon_split(s.drop_last());
        if s.last() == ':' {
            gs.push(Seq::empty())
        } else {
            gs.update(gs.len() - 1, gs.last().push(s.last()))
        }
    }
}

pub open spec fn is_digit(c: char) -> bool {
    '0' <= c && c <= '9'
}

pub open spec fn all_digits(g: Seq<char>) -> bool {
    forall|k: int| 0 <= k < g.len() ==> is_digit(#[trigger] g[k])
}

/// The number that a string of decimal digits spells.
pub open spec fn digits_value(g: Seq<char>) -> int
    decreases g.len(),
{
    if g.len() == 0 {
        0
    } else {
        digits_value(g.drop_last()) * 10 + (g.last() as int - '0' as int)
    }
}

/// A group of a duration: one or more decimal digits, whose value fits
/// in an `i32`.
pub open spec fn group_ok(g: Seq<char>) -> bool {
    g.len() > 0 && all_digits(g) && digits_value(g) <= i32::MAX
}

/// The seconds that a duration text stands for: `SS`, `MM:SS` or
/// `HH:MM:SS`, where each group is a number of decimal digits. Any other
/// text, and a total beyond `i32::MAX`, stands for no duration.
pub open spec fn duration_of(s: Seq<char>) -> Option<int> {
    let gs = colon_split(s);
    if gs.len() <= 3 && forall|k: int| 0 <= k < gs.len() ==> group_ok(#[trigger] gs[k]) {
        let total = if gs.len() == 1 {
            digits_value(gs[0])
        } else if gs.len() == 2 {
            digits_value(gs[0]) * 60 + digits_value(gs[1])
        } else {
            digits_value(gs[0]) * 3600 + digits_value(gs[1]) * 60 + digits_value(gs[2])
        };
        if total <= i32::MAX {
            Some(total)
        } else {
            None
        }
    } else {
        None
    }
}

/// A split that no further characters can make into a duration.
spec fn split_hopeless(gs: Seq<Seq<char>>) -> bool {
    ||| gs.len() > 3
    ||| exists|k: int| 0 <= k < gs.len() - 1 && !group_ok(#[trigger] gs[k])
    ||| !all_digits(gs.last())
    ||| digits_value(gs.last()) > i32::MAX
}

proof fn lemma_colon_split_nonempty(s: Seq<char>)
    ensures
        colon_split(s).len() >= 1,
    decreases s.len(),
{
    if s.len() > 0 {
        lemma_colon_split_nonempty(s.drop_last());
    }
}

proof fn lemma_digits_value_nonneg(g: Seq<char>)
    requires
        all_digits(g),
    ensures
        digits_value(g) >= 0,
    decreases g.len(),
{
    if g.len() > 0 {
        assert(is_digit(g[g.len() - 1]));
        lemma_digits_value_nonneg(g.drop_last());
    }
}

proof fn lemma_hopeless_stays(t: Seq<char>, c: char)
    requires
        split_hopeless(colon_split(t)),
    ensures
        split_hopeless(colon_split(t.push(c))),
{
    let s = t.push(c);
    assert(s.drop_last() =~= t);
    let gs = colon_split(t);
    let ns = colon_split(s);
    lemma_colon_split_nonempty(t);
    if c == ':' {
        assert(ns == gs.push(Seq::empty()));
        if gs.len() <= 3 {
            if exists|k: int| 0 <= k < gs.len() - 1 && !group_ok(#[trigger] gs[k]) {
                let k = choose|k: int| 0 <= k < gs.len() - 1 && !group_ok(#[trigger] gs[k]);
                assert(ns[k] == gs[k]);
            } else {
                assert(ns[gs.len() - 1] == gs.last());
                assert(!group_ok(ns[gs.len() - 1]));
            }
        }
    } else {
        let last = gs.last().push(c);
        assert(ns == gs.update(gs.len() - 1, last));
        assert(ns.last() == last);
        assert(last.drop_last() =~= gs.last());
        if exists|k: int| 0 <= k < gs.len() - 1 && !group_ok(#[trigger] gs[k]) {
            let k = choose|k: int| 0 <= k < gs.len() - 1 && !group_ok(#[trigger] gs[k]);
            assert(ns[k] == gs[k]);
        } else if !all_digits(gs.last()) {
            let k = choose|k: int| 0 <= k < gs.last().len() && !is_digit(#[trigger] gs.last()[k]);
            assert(last[k] == gs.last()[k]);
        } else if is_digit(c) {
            lemma_digits_value_nonneg(gs.last());
        } else {
            assert(!is_digit(last[last.len() - 1]));
        }
    }
}

proof fn lemma_hopeless_final(s: Seq<char>, i: int)
    requires
        0 <= i <= s.len(),
        split_hopeless(colon_split(s.take(i))),
    ensures
        duration_of(s) is None,
    decreases s.len() - i,
{
    if i < s.len() {
        assert(s.take(i + 1) =~= s.take(i).push(s[i]));
        lemma_hopeless_stays(s.take(i), s[i]);
        lemma_hopeless_final(s, i + 1);
    } else {
        assert(s.take(i) =~= s);
        let gs = colon_split(s);
        lemma_colon_split_nonempty(s);
        if gs.len() <= 3 && !(exists|k: int| 0 <= k < gs.len() - 1 && !group_ok(#[trigger] gs[k])) {
            assert(!group_ok(gs[gs.len() - 1]));
        }
    }
}

/// Seconds of a duration text, see `duration_of`.
fn parse_duration(d: &str) -> (r: Option<i32>)
    ensures
        (match r {
            Some(v) => Some(v as int),
            None => None::<int>,
        }) == duration_of(d@),
{
    let n = d.unicode_len();
    let mut done: Vec<i64> = Vec::new();
    let mut cur: i64 = 0;
    let mut cur_len: usize = 0;
    let mut i: usize = 0;
    while i < n
        invariant
            n == d@.len(),
            i <= n,
            colon_split(d@.take(i as int)).len() == done@.len() + 1,
            done@.len() <= 2,
            forall|k: int|
                0 <= k < done@.len() ==> group_ok(#[trigger] colon_split(d@.take(i as int))[k])
                    && done@[k] == digits_value(colon_split(d@.take(i as int))[k]),
            all_digits(colon_split(d@.take(i as int)).last()),
            cur == digits_value(colon_split(d@.take(i as int)).last()),
            0 <= cur <= i32::MAX,
            cur_len == colon_split(d@.take(i as int)).last().len(),
            cur_len <= i,
            forall|k: int| 0 <= k < done@.len() ==> 0 <= #[trigger] done@[k] <= i32::MAX,
        decreases n - i,
    {
        let c = d.get_char(i);
        let ghost t = d@.take(i as int);
        let ghost gs = colon_split(t);
        assert(d@.take(i + 1) =~= t.push(c));
        assert(t.push(c).drop_last() =~= t);
        if c == ':' {
            if cur_len == 0 || done.len() == 2 {
                proof {
                    let ns = colon_split(d@.take(i + 1));
                    assert(ns == gs.push(Seq::empty()));
                    if cur_len == 0 {
                        assert(ns[gs.len() - 1] == gs.last());
                    }
                    lemma_hopeless_final(d@, i + 1);
                }
                return None;
            }
            done.push(cur);
            cur = 0;
            cur_len = 0;
            proof {
                let ns = colon_split(d@.take(i + 1));
                assert(ns == gs.push(Seq::empty()));
                assert forall|k: int| 0 <= k < done@.len() implies group_ok(#[trigger] ns[k])
                    && done@[k] == digits_value(ns[k]) by {
                    assert(ns[k] == gs[k]);
                }
            }
        } else if '0' <= c && c <= '9' {
            let digit = (c as u32 - '0' as u32) as i64;
            let next = cur * 10 + digit;
            proof {
                let ns = colon_split(d@.take(i + 1));
                let last = gs.last().push(c);
                assert(ns == gs.update(gs.len() - 1, last));
                assert(last.drop_last() =~= gs.last());
                assert(ns.last() == last);
                assert forall|k: int| 0 <= k < done@.len() implies group_ok(#[trigger] ns[k])
                    && done@[k] == digits_value(ns[k]) by {
                    assert(ns[k] == gs[k]);
                }
                assert forall|k: int| 0 <= k < last.len() implies is_digit(#[trigger] last[k]) by {
                    if k < gs.last().len() {
                        assert(last[k] == gs.last()[k]);
                    }
                }
            }
            if next > 2147483647 {
                proof {
                    lemma_hopeless_final(d@, i + 1);
                }
                return None;
            }
            cur = next;
            cur_len = cur_len + 1;
        } else {
            proof {
                let ns = colon_split(d@.take(i + 1));
                let last = gs.last().push(c);
                assert(ns == gs.update(gs.len() - 1, last));
                assert(ns.last() == last);
                assert(!is_digit(last[last.len() - 1]));
                lemma_hopeless_final(d@, i + 1);
            }
            return None;
        }
        i = i + 1;
    }
    assert(d@.take(n as int) =~= d@);
    let ghost gs = colon_split(d@);
    if cur_len == 0 {
        assert(!group_ok(gs[gs.len() - 1]));
        return None;
    }
    assert(forall|k: int| 0 <= k < gs.len() ==> group_ok(#[trigger] gs[k]));
    let total: i64 = if done.len() == 0 {
        cur
    } else if done.len() == 1 {
        done[0] * 60 + cur
    } else {
        done[0] * 3600 + done[1] * 60 + cur
    };
    if total > 2147483647 {
        None
    } else {
        Some(total as i32)
    }
}

/// Given a string representing an episode duration, converts it to a
/// number of seconds; see `duration_of` for the forms accepted.
pub fn duration_to_int(duration: Option<&str>) -> (r: Option<i32>)
    ensures
        (match r {
            Some(v) => Some(v as int),
            None => None::<int>,
        }) == (match duration {
            Some(d) => duration_of(d@),
            None => None::<int>,
        }),
{
    match duration {
        Some(d) => parse_duration(d),
        None => None,
    }
}

/// The character of a decimal digit.
pub open spec fn digit_char(d: nat) -> char {
    if d == 0 { '0' }
    else if d == 1 { '1' }
    else if d == 2 { '2' }
    else if d == 3 { '3' }
    else if d == 4 { '4' }
    else if d == 5 { '5' }
    else if d == 6 { '6' }
    else if d == 7 { '7' }
    else if d == 8 { '8' }
    else { '9' }
}

/// The decimal digits of a number, without leading zeros.
pub open spec fn decimal(n: nat) -> Seq<char>
    decreases n,
{
    if n < 10 {
        seq![digit_char(n)]
    } else {
        decimal(n / 10).push(digit_char(n % 10))
    }
}

/// A number written with at least two characters: a leading zero for
/// 0 to 9, a minus sign for a negative number.
pub open spec fn two_digits(n: int) -> Seq<char> {
    if n < 0 {
        seq!['-'] + decimal((-n) as nat)
    } else if n < 10 {
        seq!['0'] + decimal(n as nat)
    } else {
        decimal(n as nat)
    }
}

/// Hours, minutes and seconds of a number of seconds; for a negative
/// number each part is negative or zero (division rounds toward zero).
pub open spec fn clock_parts(d: int) -> (int, int, int) {
    let a = if d < 0 { -d } else { d };
    let sign = if d < 0 { -1int } else { 1int };
    (sign * (a / 3600), sign * ((a % 3600) / 60), sign * (a % 60))
}

/// The `HH:MM:SS` text of an optional duration in seconds.
pub open spec fn duration_text(duration: Option<i64>) -> Seq<char> {
    match duration {
        Some(d) => {
            let (h, m, s) = clock_parts(d as int);
            two_digits(h) + seq![':'] + two_digits(m) + seq![':'] + two_digits(s)
        },
        None => seq!['-', '-', ':', '-', '-', ':', '-', '-'],
    }
}

fn digit_text(d: u64) -> (r: &'static str)
    requires
        d < 10,
    ensures
        r@ == seq![digit_char(d as nat)],
{
    if d == 0 {
        proof { reveal_strlit("0"); }
        "0"
    } else if d == 1 {
        proof { reveal_strlit("1"); }
        "1"
    } else if d == 2 {
        proof { reveal_strlit("2"); }
        "2"
    } else if d == 3 {
        proof { reveal_strlit("3"); }
        "3"
    } else if d == 4 {
        proof { reveal_strlit("4"); }
        "4"
    } else if d == 5 {
        proof { reveal_strlit("5"); }
        "5"
    } else if d == 6 {
        proof { reveal_strlit("6"); }
        "6"
    } else if d == 7 {
        proof { reveal_strlit("7"); }
        "7"
    } else if d == 8 {
        proof { reveal_strlit("8"); }
        "8"
    } else {
        proof { reveal_strlit("9"); }
        "9"
    }
}

fn append_decimal(out: &mut String, n: u64)
    ensures
        final(out)@ == old(out)@ + decimal(n as nat),
    decreases n,
{
    if n >= 10 {
        append_decimal(out, n / 10);
        out.append(digit_text(n % 10));
        assert(final(out)@ =~= old(out)@ + decimal(n as nat));
    } else {
        out.append(digit_text(n));
    }
}

fn append_two_digits(out: &mut String, n: i64)
    requires
        n > i64::MIN,
    ensures
        final(out)@ == old(out)@ + two_digits(n as int),
{
    if n < 0 {
        proof { reveal_strlit("-"); }
        out.append("-");
        append_decimal(out, (-n) as u64);
        assert(final(out)@ =~= old(out)@ + two_digits(n as int));
    } else {
        if n < 10 {
            proof { reveal_strlit("0"); }
            out.append("0");
        }
        append_decimal(out, n as u64);
        assert(final(out)@ =~= old(out)@ + two_digits(n as int));
    }
}

impl Episode {
    /// Formats the duration in seconds as `HH:MM:SS`, or `--:--:--` when
    /// the duration is not known.
    pub fn format_duration(&self) -> (r: String)
        ensures
            r@ == duration_text(self.duration),
    {
        match self.duration {
            Some(d) => {
                let a: i128 = if d < 0 { -(d as i128) } else { d as i128 };
                let sign: i128 = if d < 0 { -1 } else { 1 };
                assert(0 <= a / 3600 <= a && 0 <= (a % 3600) / 60 < 60 && 0 <= a % 60 < 60)
                    by (nonlinear_arith)
                    requires
                        0 <= a <= 0x8000_0000_0000_0000,
                ;
                let hours = (sign * (a / 3600)) as i64;
                let minutes = (sign * ((a % 3600) / 60)) as i64;
                let seconds = (sign * (a % 60)) as i64;
                let mut out = String::new();
                append_two_digits(&mut out, hours);
                proof { reveal_strlit(":"); }
                out.append(":");
                append_two_digits(&mut out, minutes);
                out.append(":");
                append_two_digits(&mut out, seconds);
                assert(out@ =~= duration_text(self.duration));
                out
            },
            None => {
                proof { reveal_strlit("--:--:--"); }
                String::from_str("--:--:--")
            },
        }
    }
}

} // verus!
