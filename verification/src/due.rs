use vstd::prelude::*;
use crate::date::{days_in_month, valid_date, Date};
use crate::decimal::{digit_value, digits_value, is_digit};
use crate::text::is_ascii_text;
use crate::date::{iso_date, parse_iso_date, valid_opt};
use crate::text::string_of;

verus! {

/// The day after `d`, if it is still a valid date.
pub open spec fn next_day(d: Date) -> Option<Date> {
    let n = if (d.day as int) < days_in_month(d.year as int, d.month as int) {
        Date { year: d.year, month: d.month, day: (d.day + 1) as u32 }
    } else if d.month < 12 {
        Date { year: d.year, month: (d.month + 1) as u32, day: 1 }
    } else {
        Date { year: (d.year + 1) as i32, month: 1, day: 1 }
    };
    if valid_date(n) {
        Some(n)
    } else {
        None
    }
}

/// The day before `d`, if it is still a valid date.
pub open spec fn prev_day(d: Date) -> Option<Date> {
    let n = if d.day > 1 {
        Date { year: d.year, month: d.month, day: (d.day - 1) as u32 }
    } else if d.month > 1 {
        Date {
            year: d.year,
            month: (d.month - 1) as u32,
            day: days_in_month(d.year as int, d.month - 1) as u32,
        }
    } else {
        Date { year: (d.year - 1) as i32, month: 12, day: 31 }
    };
    if valid_date(n) {
        Some(n)
    } else {
        None
    }
}

/// The date `n` days after `d` (before it, for a negative `n`), if every day on the way is a
/// valid date.
pub open spec fn date_plus(d: Date, n: int) -> Option<Date>
    decreases (if n < 0 { -n } else { n }),
{
    if n == 0 {
        Some(d)
    } else if n > 0 {
        match next_day(d) {
            Some(e) => date_plus(e, n - 1),
            None => None,
        }
    } else {
        match prev_day(d) {
            Some(e) => date_plus(e, n + 1),
            None => None,
        }
    }
}

/// A relative date in a `due` or `t` tag: its sign, its number and the first letter of its
/// unit (`d`ays, `w`eeks, `m`onths or `y`ears).
pub struct Relative {
    pub negative: bool,
    pub count: nat,
    pub unit: char,
}

/// A unit letter of a relative date.
pub open spec fn is_unit(c: char) -> bool {
    c == 'd' || c == 'w' || c == 'm' || c == 'y'
}

/// How many digits follow position `p`.
pub open spec fn digit_run(v: Seq<char>, p: int) -> nat
    decreases v.len() - p,
{
    if 0 <= p < v.len() && is_digit(v[p]) {
        1 + digit_run(v, p + 1)
    } else {
        0
    }
}

/// A count and unit starting at `p`: digits, then a unit letter.
pub open spec fn count_at(v: Seq<char>, p: int, negative: bool) -> Option<Relative> {
    let n = digit_run(v, p);
    if 0 <= p && n > 0 && p + n < v.len() && is_unit(v[p + n]) {
        Some(Relative { negative, count: digits_value(v.subrange(p, p + n)), unit: v[p + n] })
    } else {
        None
    }
}

/// The relative date that starts at position `p`, with an optional sign.
pub open spec fn relative_at(v: Seq<char>, p: int) -> Option<Relative> {
    if 0 <= p < v.len() && (v[p] == '+' || v[p] == '-') {
        count_at(v, p + 1, v[p] == '-')
    } else {
        count_at(v, p, false)
    }
}

/// Where the first relative date in `v` from position `p` on starts.
pub open spec fn relative_pos(v: Seq<char>, p: int) -> Option<int>
    decreases v.len() - p,
{
    if p < 0 || p >= v.len() {
        None
    } else if relative_at(v, p) is Some {
        Some(p)
    } else {
        relative_pos(v, p + 1)
    }
}

/// Where the relative date that starts at `p` ends: just after its unit letter.
pub open spec fn relative_end(v: Seq<char>, p: int) -> int {
    let s = if 0 <= p < v.len() && (v[p] == '+' || v[p] == '-') {
        p + 1
    } else {
        p
    };
    s + digit_run(v, s) + 1
}

/// The largest count of days, either way, that a relative date is resolved to: no date lies
/// that far from a date that chrono represents (its years span fewer days), so the todo_txt
/// crate's addition of such an offset panics.
pub const MAX_OFFSET: u64 = 200000000;

/// The relative dates that are resolved here: days and weeks up to `MAX_OFFSET` days; months
/// up to 275000 and years up to 11483, the counts for which the todo_txt crate's
/// single-precision product (30.5 days a month, 365.25 a year) is exact.
pub open spec fn within_limits(r: Relative) -> bool {
    if r.unit == 'd' {
        r.count <= MAX_OFFSET
    } else if r.unit == 'w' {
        r.count * 7 <= MAX_OFFSET
    } else if r.unit == 'm' {
        r.count <= 275000
    } else {
        r.count <= 11483
    }
}

/// The days that a relative date stands for: a month counts 30.5 days and a year 365.25,
/// rounded towards zero.
pub open spec fn relative_days(r: Relative) -> int {
    let n = r.count as int;
    let days = if r.unit == 'd' {
        n
    } else if r.unit == 'w' {
        n * 7
    } else if r.unit == 'm' {
        n * 61 / 2
    } else {
        n * 1461 / 4
    };
    if r.negative {
        -days
    } else {
        days
    }
}

/// The date that a `due` or `t` value gives, counted from `today`: the first relative date
/// (an optional sign, ASCII digits and a unit letter), when the text up to its end is ASCII
/// and it is within the limits (see `within_limits`), gives the date that many days away,
/// when that is a valid date; anything else gives none. (Before a non-ASCII character a
/// digit of another script might start a relative date, which the todo_txt crate finds but
/// cannot read as a number.)
pub open spec fn relative_date(v: Seq<char>, today: Date) -> Option<Date> {
    match relative_pos(v, 0) {
        Some(q) => {
            let r = relative_at(v, q)->0;
            if is_ascii_text(v.take(relative_end(v, q))) && r.count <= MAX_OFFSET && within_limits(r) {
                date_plus(today, relative_days(r))
            } else {
                None
            }
        },
        None => None,
    }
}

proof fn lemma_days_in_month(y: int, m: int)
    ensures
        28 <= days_in_month(y, m) <= 31,
{
}

/// The next day of a valid date, if any.
fn next_day_exec(d: Date) -> (r: Option<Date>)
    requires
        valid_date(d),
    ensures
        r == next_day(d),
{
    proof {
        lemma_days_in_month(d.year as int, d.month as int);
    }
    let dim = month_days(d.year, d.month);
    let n = if d.day < dim {
        Date { year: d.year, month: d.month, day: d.day + 1 }
    } else if d.month < 12 {
        Date { year: d.year, month: d.month + 1, day: 1 }
    } else {
        if d.year >= 262142 {
            return None;
        }
        Date { year: d.year + 1, month: 1, day: 1 }
    };
    proof {
        lemma_days_in_month(n.year as int, n.month as int);
    }
    Some(n)
}

/// The previous day of a valid date, if any.
fn prev_day_exec(d: Date) -> (r: Option<Date>)
    requires
        valid_date(d),
    ensures
        r == prev_day(d),
{
    let n = if d.day > 1 {
        Date { year: d.year, month: d.month, day: d.day - 1 }
    } else if d.month > 1 {
        let m = d.month - 1;
        let dim = month_days(d.year, m);
        proof {
            lemma_days_in_month(d.year as int, m as int);
        }
        Date { year: d.year, month: m, day: dim }
    } else {
        if d.year <= -262143 {
            return None;
        }
        Date { year: d.year - 1, month: 12, day: 31 }
    };
    proof {
        lemma_days_in_month(n.year as int, n.month as int);
    }
    Some(n)
}

/// The days of a month.
fn month_days(y: i32, m: u32) -> (r: u32)
    ensures
        r == days_in_month(y as int, m as int),
{
    if m == 2 {
        if (y % 4 == 0 && y % 100 != 0) || y % 400 == 0 {
            29
        } else {
            28
        }
    } else if m == 4 || m == 6 || m == 9 || m == 11 {
        30
    } else {
        31
    }
}

/// The date `n` days after (or before) a valid date (see `date_plus`).
pub fn add_days(d: Date, n: i64) -> (r: Option<Date>)
    requires
        valid_date(d),
    ensures
        r == date_plus(d, n as int),
        r matches Some(e) ==> valid_date(e),
{
    let mut cur = d;
    let mut k: i64 = n;
    while k != 0
        invariant
            valid_date(cur),
            date_plus(cur, k as int) == date_plus(d, n as int),
            (n >= 0 ==> 0 <= k <= n),
            (n < 0 ==> n <= k <= 0),
        decreases (if k < 0 { -(k as int) } else { k as int }),
    {
        if k > 0 {
            match next_day_exec(cur) {
                Some(e) => {
                    cur = e;
                    k = k - 1;
                },
                None => {
                    return None;
                },
            }
        } else {
            match prev_day_exec(cur) {
                Some(e) => {
                    cur = e;
                    k = k + 1;
                },
                None => {
                    return None;
                },
            }
        }
    }
    Some(cur)
}

/// How many digits follow position `p` (see `digit_run`).
fn digit_run_exec(v: &Vec<char>, p: usize) -> (r: usize)
    requires
        p <= v@.len(),
    ensures
        r == digit_run(v@, p as int),
        p + r <= v@.len(),
{
    let mut q = p;
    while q < v.len() && '0' <= v[q] && v[q] <= '9'
        invariant
            p <= q <= v@.len(),
            digit_run(v@, p as int) == (q - p) + digit_run(v@, q as int),
        decreases v@.len() - q,
    {
        q = q + 1;
    }
    q - p
}

/// The value of the digits `v[p..q]` when it is at most `MAX_OFFSET`.
fn count_value(v: &Vec<char>, p: usize, q: usize) -> (r: Option<u64>)
    requires
        p <= q <= v@.len(),
        forall|i: int| p <= i < q ==> is_digit(#[trigger] v@[i]),
    ensures
        r matches Some(n) ==> n == digits_value(v@.subrange(p as int, q as int)) && n <= MAX_OFFSET,
        r is None ==> digits_value(v@.subrange(p as int, q as int)) > MAX_OFFSET,
{
    let mut acc: u64 = 0;
    let mut i = p;
    while i < q
        invariant
            p <= i <= q <= v@.len(),
            forall|j: int| p <= j < q ==> is_digit(#[trigger] v@[j]),
            acc == digits_value(v@.subrange(p as int, i as int)),
            acc <= MAX_OFFSET,
        decreases q - i,
    {
        let ghost s = v@.subrange(p as int, i + 1);
        assert(s.drop_last() =~= v@.subrange(p as int, i as int));
        assert(s.last() == v@[i as int]);
        let dv = (v[i] as u32 - '0' as u32) as u64;
        assert(dv == digit_value(v@[i as int]));
        let next = acc * 10 + dv;
        if next > MAX_OFFSET {
            proof {
                lemma_digits_value_prefix(v@, p as int, i + 1, q as int);
            }
            return None;
        }
        acc = next;
        i = i + 1;
    }
    Some(acc)
}

/// Adding digits never makes the value smaller.
proof fn lemma_digits_value_prefix(v: Seq<char>, p: int, i: int, q: int)
    requires
        0 <= p <= i <= q <= v.len(),
    ensures
        digits_value(v.subrange(p, i)) <= digits_value(v.subrange(p, q)),
    decreases q - i,
{
    if i < q {
        lemma_digits_value_prefix(v, p, i, q - 1);
        let s = v.subrange(p, q);
        assert(s.drop_last() =~= v.subrange(p, q - 1));
    }
}

/// The relative date that starts at `p` (see `relative_at`), when its count is at most
/// `MAX_OFFSET`; `Err(())` when there is one with a larger count.
fn relative_at_exec(v: &Vec<char>, p: usize) -> (r: Result<Option<(bool, u64, char, usize)>, ()>)
    requires
        p < v@.len(),
    ensures
        match r {
            Ok(Some((neg, n, u, e))) => relative_at(v@, p as int) == Some(Relative { negative: neg, count: n as nat, unit: u })
                && n <= MAX_OFFSET && e == relative_end(v@, p as int) && e <= v@.len(),
            Ok(None) => relative_at(v@, p as int) is None,
            Err(()) => relative_at(v@, p as int) matches Some(x) && x.count > MAX_OFFSET,
        },
{
    let len = v.len();
    let signed = v[p] == '+' || v[p] == '-';
    let start = if signed {
        p + 1
    } else {
        p
    };
    let n = digit_run_exec(v, start);
    if n == 0 || start + n >= v.len() {
        return Ok(None);
    }
    let u = v[start + n];
    if !(u == 'd' || u == 'w' || u == 'm' || u == 'y') {
        return Ok(None);
    }
    proof {
        assert forall|i: int| start <= i < start + n implies is_digit(#[trigger] v@[i]) by {
            lemma_digit_run(v@, start as int, i);
        }
    }
    match count_value(v, start, start + n) {
        Some(c) => Ok(Some((signed && v[p] == '-', c, u, start + n + 1))),
        None => Err(()),
    }
}

/// The characters counted by `digit_run` are digits.
proof fn lemma_digit_run(v: Seq<char>, p: int, i: int)
    requires
        p <= i < p + digit_run(v, p),
    ensures
        is_digit(v[i]),
    decreases v.len() - p,
{
    if i > p {
        lemma_digit_run(v, p + 1, i);
    }
}

/// The days of a relative date with a count up to `MAX_OFFSET` (see `relative_days`).
fn days_of(neg: bool, n: u64, u: char) -> (r: i64)
    requires
        n <= MAX_OFFSET,
    ensures
        r == relative_days(Relative { negative: neg, count: n as nat, unit: u }),
{
    let m = n as i64;
    assert(m * 1461 <= 200000000 * 1461) by (nonlinear_arith)
        requires
            0 <= m <= 200000000,
    ;
    let days: i64 = if u == 'd' {
        m
    } else if u == 'w' {
        m * 7
    } else if u == 'm' {
        m * 61 / 2
    } else {
        m * 1461 / 4
    };
    if neg {
        -days
    } else {
        days
    }
}

/// The date that a `due` or `t` value gives, counted from `today` (see `relative_date`).
pub fn relative_date_exec(v: &Vec<char>, today: Date) -> (r: Option<Date>)
    requires
        valid_date(today),
    ensures
        r == relative_date(v@, today),
        r matches Some(e) ==> valid_date(e),
{
    let mut p: usize = 0;
    while p < v.len()
        invariant
            p <= v@.len(),
            valid_date(today),
            relative_pos(v@, 0) == relative_pos(v@, p as int),
        decreases v@.len() - p,
    {
        match relative_at_exec(v, p) {
            Ok(Some((neg, n, u, e))) => {
                assert(relative_pos(v@, 0) == Some(p as int));
                let mut k: usize = 0;
                while k < e
                    invariant
                        k <= e <= v@.len(),
                        relative_pos(v@, 0) == Some(p as int),
                        e == relative_end(v@, p as int),
                        forall|j: int| 0 <= j < k ==> (#[trigger] v@[j] as u32) < 128,
                    decreases e - k,
                {
                    if v[k] as u32 >= 128 {
                        proof {
                            assert(v@.take(e as int)[k as int] == v@[k as int]);
                        }
                        return None;
                    }
                    k = k + 1;
                }
                proof {
                    assert forall|j: int| 0 <= j < v@.take(e as int).len() implies (#[trigger] v@.take(e as int)[j] as u32) < 128 by {
                        assert(v@.take(e as int)[j] == v@[j]);
                    }
                }
                let ok = if u == 'd' {
                    true
                } else if u == 'w' {
                    n <= MAX_OFFSET / 7
                } else if u == 'm' {
                    n <= 275000
                } else {
                    n <= 11483
                };
                if !ok {
                    return None;
                }
                let days = days_of(neg, n, u);
                return add_days(today, days);
            },
            Ok(None) => {},
            Err(()) => {
                return None;
            },
        }
        p = p + 1;
    }
    None
}


/// Unicode white space, as `char::is_whitespace` and the `\s` class of the regex crate take
/// it.
pub open spec fn is_white(c: char) -> bool {
    let n = c as u32;
    ||| 0x09 <= n <= 0x0d
    ||| n == 0x20 || n == 0x85 || n == 0xa0 || n == 0x1680
    ||| 0x2000 <= n <= 0x200a
    ||| n == 0x2028 || n == 0x2029 || n == 0x202f || n == 0x205f || n == 0x3000
}

/// Where the word (a run of characters that are not white space) that goes on at `p` ends.
pub open spec fn word_end(v: Seq<char>, p: int) -> int
    decreases v.len() - p,
{
    if 0 <= p < v.len() && !is_white(v[p]) {
        word_end(v, p + 1)
    } else {
        p
    }
}

/// Where the word that goes on at position `i` starts.
pub open spec fn word_start(v: Seq<char>, i: int) -> int
    decreases i,
{
    if 0 < i <= v.len() && !is_white(v[i - 1]) {
        word_start(v, i - 1)
    } else {
        i
    }
}

/// The word at `s` begins with `due:`.
pub open spec fn starts_due(v: Seq<char>, s: int) -> bool {
    0 <= s && s + 4 <= v.len() && v[s] == 'd' && v[s + 1] == 'u' && v[s + 2] == 'e' && v[s + 3] == ':'
}

/// The word at `s` begins with `t:`.
pub open spec fn starts_t(v: Seq<char>, s: int) -> bool {
    0 <= s && s + 2 <= v.len() && v[s] == 't' && v[s + 1] == ':'
}

/// When the word that starts at `s` is a `due` tag, 4, the length of `due:`; when it is a `t`
/// tag, 2; else 0. A word is such a tag when it begins with the key and a colon, goes on past
/// the colon, and its value does not begin with '/'.
pub open spec fn date_key_len(v: Seq<char>, s: int) -> int {
    let k: int = if starts_due(v, s) {
        4
    } else if starts_t(v, s) {
        2
    } else {
        0
    };
    if k > 0 && s + k < word_end(v, s) && v[s + k] != '/' {
        k
    } else {
        0
    }
}

/// Position `i` lies in the value of a `due` or `t` tag.
pub open spec fn in_date_value(v: Seq<char>, i: int) -> bool {
    let s = word_start(v, i);
    &&& 0 <= i < v.len()
    &&& !is_white(v[i])
    &&& date_key_len(v, s) > 0
    &&& i >= s + date_key_len(v, s)
}

/// The line with each digit in the value of a `due` or `t` tag replaced by 'x'.
pub open spec fn blotted(v: Seq<char>) -> Seq<char> {
    Seq::new(v.len(), |i: int| if in_date_value(v, i) && is_digit(v[i]) { 'x' } else { v[i] })
}

/// The value of the last `due` tag (`due` true) or `t` tag (`due` false) among the words that
/// start at or after `p`.
pub open spec fn tag_value_from(v: Seq<char>, p: int, due: bool) -> Option<Seq<char>>
    decreases v.len() - p,
{
    if p < 0 || p >= v.len() {
        None
    } else {
        let later = tag_value_from(v, p + 1, due);
        if later is Some {
            later
        } else if word_start(v, p) == p && !is_white(v[p]) && date_key_len(v, p) == (if due {
            4int
        } else {
            2int
        }) {
            Some(v.subrange(p + date_key_len(v, p), word_end(v, p)))
        } else {
            None
        }
    }
}

/// The date that a `due` or `t` value gives: a date written as year, month and day joined by
/// '-', as chrono reads it; else a relative date counted from `today`.
pub open spec fn value_date(x: Seq<char>, today: Date) -> Option<Date> {
    match iso_date(x) {
        Some(d) => Some(d),
        None => relative_date(x, today),
    }
}

/// The date of the last `due` tag (`due` true) or `t` tag (`due` false) of a line.
pub open spec fn tag_date(v: Seq<char>, due: bool, today: Date) -> Option<Date> {
    match tag_value_from(v, 0, due) {
        Some(x) => value_date(x, today),
        None => None,
    }
}

/// Blotting keeps white space and what is not a digit.
proof fn lemma_blotted_chars(v: Seq<char>, j: int)
    requires
        0 <= j < v.len(),
    ensures
        is_white(blotted(v)[j]) == is_white(v[j]),
        !is_digit(v[j]) ==> blotted(v)[j] == v[j],
        blotted(v)[j] == v[j] || (is_digit(v[j]) && blotted(v)[j] == 'x'),
{
}

proof fn lemma_blotted_word_start(v: Seq<char>, i: int)
    requires
        0 <= i <= v.len(),
    ensures
        word_start(blotted(v), i) == word_start(v, i),
    decreases i,
{
    if i > 0 {
        lemma_blotted_chars(v, i - 1);
        lemma_blotted_word_start(v, i - 1);
    }
}

proof fn lemma_blotted_word_end(v: Seq<char>, p: int)
    requires
        0 <= p <= v.len(),
    ensures
        word_end(blotted(v), p) == word_end(v, p),
    decreases v.len() - p,
{
    if p < v.len() {
        lemma_blotted_chars(v, p);
        lemma_blotted_word_end(v, p + 1);
    }
}

proof fn lemma_blotted_key(v: Seq<char>, s: int)
    requires
        0 <= s <= v.len(),
    ensures
        date_key_len(blotted(v), s) == date_key_len(v, s),
{
    let w = blotted(v);
    lemma_blotted_word_end(v, s);
    if s < v.len() {
        lemma_blotted_chars(v, s);
    }
    if s + 1 < v.len() {
        lemma_blotted_chars(v, s + 1);
    }
    if s + 2 < v.len() {
        lemma_blotted_chars(v, s + 2);
    }
    if s + 3 < v.len() {
        lemma_blotted_chars(v, s + 3);
    }
    if s + 4 < v.len() {
        lemma_blotted_chars(v, s + 4);
    }
    assert(starts_due(w, s) == starts_due(v, s));
    assert(starts_t(w, s) == starts_t(v, s));
    assert(word_end(w, s) == word_end(v, s));
    lemma_word_end_range(v, s);
    if starts_due(v, s) && s + 4 < word_end(v, s) {
        assert((w[s + 4] == '/') == (v[s + 4] == '/'));
    }
    if starts_t(v, s) && s + 2 < word_end(v, s) {
        assert((w[s + 2] == '/') == (v[s + 2] == '/'));
    }
}

proof fn lemma_word_end_range(v: Seq<char>, p: int)
    requires
        0 <= p <= v.len(),
    ensures
        p <= word_end(v, p) <= v.len(),
    decreases v.len() - p,
{
    if p < v.len() {
        lemma_word_end_range(v, p + 1);
    }
}

proof fn lemma_word_start_range(v: Seq<char>, i: int)
    requires
        0 <= i <= v.len(),
    ensures
        0 <= word_start(v, i) <= i,
    decreases i,
{
    if i > 0 {
        lemma_word_start_range(v, i - 1);
    }
}

/// Blotting a blotted line changes nothing: no digit is left in a `due` or `t` value.
pub proof fn lemma_blotted_blotted(v: Seq<char>)
    ensures
        blotted(blotted(v)) == blotted(v),
{
    let w = blotted(v);
    assert forall|i: int| 0 <= i < w.len() implies #[trigger] blotted(w)[i] == w[i] by {
        lemma_blotted_chars(v, i);
        lemma_blotted_word_start(v, i);
        lemma_word_start_range(v, i);
        lemma_blotted_key(v, word_start(v, i));
    }
    assert(blotted(w) =~= w);
}


/// Whether `c` is white space (see `is_white`).
fn is_white_exec(c: char) -> (b: bool)
    ensures
        b == is_white(c),
{
    let n = c as u32;
    (0x09 <= n && n <= 0x0d) || n == 0x20 || n == 0x85 || n == 0xa0 || n == 0x1680 || (0x2000 <= n
        && n <= 0x200a) || n == 0x2028 || n == 0x2029 || n == 0x202f || n == 0x205f || n == 0x3000
}

/// Where the word that goes on at `p` ends (see `word_end`).
fn word_end_exec(v: &Vec<char>, p: usize) -> (e: usize)
    requires
        p <= v@.len(),
    ensures
        e == word_end(v@, p as int),
{
    let mut q = p;
    while q < v.len() && !is_white_exec(v[q])
        invariant
            p <= q <= v@.len(),
            word_end(v@, p as int) == word_end(v@, q as int),
        decreases v@.len() - q,
    {
        q = q + 1;
    }
    q
}

/// The key length of the `due` or `t` tag that the word at `s` is, or 0 (see
/// `date_key_len`).
fn date_key_len_exec(v: &Vec<char>, s: usize) -> (k: usize)
    requires
        s <= v@.len(),
    ensures
        k == date_key_len(v@, s as int),
{
    let len = v.len();
    let e = word_end_exec(v, s);
    proof {
        lemma_word_end_range(v@, s as int);
    }
    let k: usize = if s < len && len - s >= 4 && v[s] == 'd' && v[s + 1] == 'u' && v[s + 2] == 'e' && v[s + 3]
        == ':' {
        4
    } else if s < len && len - s >= 2 && v[s] == 't' && v[s + 1] == ':' {
        2
    } else {
        0
    };
    if k > 0 && s + k < e && v[s + k] != '/' {
        k
    } else {
        0
    }
}

/// The line with each digit in the value of a `due` or `t` tag replaced by 'x' (see
/// `blotted`).
pub fn blot(v: &Vec<char>) -> (r: Vec<char>)
    ensures
        r@ == blotted(v@),
{
    let mut r: Vec<char> = Vec::new();
    let mut s: usize = 0;
    let mut k: usize = 0;
    let mut i: usize = 0;
    while i < v.len()
        invariant
            i <= v@.len(),
            r@.len() == i,
            forall|j: int| 0 <= j < i ==> #[trigger] r@[j] == blotted(v@)[j],
            i > 0 && !is_white(v@[i - 1]) ==> s == word_start(v@, i as int) && s <= i && k
                == date_key_len(v@, s as int),
        decreases v@.len() - i,
    {
        let c = v[i];
        if is_white_exec(c) {
            r.push(c);
        } else {
            if i == 0 || is_white_exec(v[i - 1]) {
                s = i;
                k = date_key_len_exec(v, i);
            }
            assert(word_start(v@, i as int) == s);
            if k > 0 && i >= s + k && '0' <= c && c <= '9' {
                r.push('x');
            } else {
                r.push(c);
            }
        }
        i = i + 1;
        proof {
            if !is_white(v@[i - 1]) {
                assert(word_start(v@, i as int) == word_start(v@, i - 1));
            }
        }
    }
    assert(r@ =~= blotted(v@));
    r
}

/// The value of the last `due` tag (`due` true) or `t` tag (`due` false) of a line (see
/// `tag_value_from`).
pub fn tag_value(v: &Vec<char>, due: bool) -> (r: Option<Vec<char>>)
    ensures
        match r {
            Some(x) => tag_value_from(v@, 0, due) == Some(x@),
            None => tag_value_from(v@, 0, due) is None,
        },
{
    let want: usize = if due {
        4
    } else {
        2
    };
    let mut found: Option<(usize, usize)> = None;
    let mut i: usize = v.len();
    let ghost g: Option<Seq<char>> = None;
    while i > 0
        invariant
            i <= v@.len(),
            want == (if due { 4int } else { 2int }),
            g == tag_value_from(v@, i as int, due),
            match found {
                Some((a, b)) => a <= b <= v@.len() && g == Some(v@.subrange(a as int, b as int)),
                None => g is None,
            },
        decreases i,
    {
        i = i - 1;
        if found.is_none() {
            let at_start = !is_white_exec(v[i]) && (i == 0 || is_white_exec(v[i - 1]));
            proof {
                if i > 0 && !is_white(v@[i - 1]) {
                    assert(word_start(v@, i as int) == word_start(v@, i - 1));
                    lemma_word_start_range(v@, i - 1);
                }
            }
            if at_start {
                let k = date_key_len_exec(v, i);
                if k == want {
                    let e = word_end_exec(v, i);
                    proof {
                        lemma_word_end_range(v@, i as int);
                    }
                    found = Some((i + k, e));
                }
            }
        }
        proof {
            g = tag_value_from(v@, i as int, due);
        }
    }
    match found {
        Some((a, b)) => {
            let mut x: Vec<char> = Vec::new();
            let mut j = a;
            while j < b
                invariant
                    a <= j <= b <= v@.len(),
                    x@ == v@.subrange(a as int, j as int),
                decreases b - j,
            {
                x.push(v[j]);
                j = j + 1;
                assert(x@ =~= v@.subrange(a as int, j as int));
            }
            Some(x)
        },
        None => None,
    }
}


/// The date that a `due` or `t` value gives (see `value_date`).
pub fn value_date_exec(x: &Vec<char>, today: Date) -> (r: Option<Date>)
    requires
        valid_date(today),
    ensures
        r == value_date(x@, today),
        valid_opt(r),
{
    let text = string_of(&x);
    match parse_iso_date(text.as_str()) {
        Some(d) => Some(d),
        None => relative_date_exec(x, today),
    }
}

/// The date of the last `due` tag (`due` true) or `t` tag (`due` false) of a line (see
/// `tag_date`).
pub fn tag_date_exec(v: &Vec<char>, due: bool, today: Date) -> (r: Option<Date>)
    requires
        valid_date(today),
    ensures
        r == tag_date(v@, due, today),
        valid_opt(r),
{
    match tag_value(v, due) {
        Some(x) => value_date_exec(&x, today),
        None => None,
    }
}

} // verus!
