use vstd::prelude::*;
use crate::decimal::{decimal_text, parse_u32, parse_u32_str, u32_text};
use crate::lines::{starts_with, starts_with_str, trim, trim_str, skip_str};
use crate::text::{chars_of, views, push_char, str_eq, concat_str, to_string};

verus! {

/// The first position of `ls` whose line satisfies `p`.
pub open spec fn first_index(ls: Seq<Seq<char>>, p: spec_fn(Seq<char>) -> bool) -> Option<int>
    decreases ls.len(),
{
    if ls.len() == 0 {
        None
    } else {
        match first_index(ls.drop_last(), p) {
            Some(i) => Some(i),
            None => if p(ls.last()) {
                Some(ls.len() - 1)
            } else {
                None
            },
        }
    }
}

/// `first_index` finds the first line that satisfies `p`, and none when there is none.
pub proof fn lemma_first_index(ls: Seq<Seq<char>>, p: spec_fn(Seq<char>) -> bool)
    ensures
        first_index(ls, p) matches Some(i) ==> 0 <= i < ls.len() && p(ls[i]) && forall|j: int|
            0 <= j < i ==> !p(#[trigger] ls[j]),
        first_index(ls, p) is None ==> forall|j: int| 0 <= j < ls.len() ==> !p(#[trigger] ls[j]),
    decreases ls.len(),
{
    if ls.len() > 0 {
        lemma_first_index(ls.drop_last(), p);
        assert forall|j: int| 0 <= j < ls.len() - 1 implies ls.drop_last()[j] == ls[j] by {}
    }
}

/// The line that `first_index` finds is the first line of the filtered sequence.
pub proof fn lemma_first_index_filter(ls: Seq<Seq<char>>, p: spec_fn(Seq<char>) -> bool)
    ensures
        first_index(ls, p) matches Some(i) ==> ls.filter(p).len() > 0 && ls.filter(p)[0] == ls[i],
        first_index(ls, p) is None ==> ls.filter(p).len() == 0,
    decreases ls.len(),
{
    reveal(Seq::filter);
    if ls.len() > 0 {
        lemma_first_index_filter(ls.drop_last(), p);
        lemma_first_index(ls.drop_last(), p);
        if let Some(i) = first_index(ls.drop_last(), p) {
            assert(ls.drop_last()[i] == ls[i]);
        }
    }
}

/// Filtering after appending one line.
pub proof fn lemma_filter_push(s: Seq<Seq<char>>, x: Seq<char>, p: spec_fn(Seq<char>) -> bool)
    ensures
        s.push(x).filter(p) == (if p(x) {
            s.filter(p).push(x)
        } else {
            s.filter(p)
        }),
{
    reveal(Seq::filter);
    assert(s.push(x).drop_last() =~= s);
}

/// Filtering distributes over a split of the sequence.
pub proof fn lemma_filter_split(a: Seq<Seq<char>>, x: Seq<char>, b: Seq<Seq<char>>, p: spec_fn(Seq<char>) -> bool)
    requires
        !p(x),
    ensures
        (a + seq![x] + b).filter(p) == (a + b).filter(p),
{
    Seq::filter_distributes_over_add(a + seq![x], b, p);
    Seq::filter_distributes_over_add(a, b, p);
    lemma_filter_push(a, x, p);
    assert(a + seq![x] =~= a.push(x));
}

/// Replacing a line that `p` drops by another that `p` drops keeps the filtered sequence.
pub proof fn lemma_filter_update(ls: Seq<Seq<char>>, i: int, x: Seq<char>, p: spec_fn(Seq<char>) -> bool)
    requires
        0 <= i < ls.len(),
        !p(ls[i]),
        !p(x),
    ensures
        ls.update(i, x).filter(p) == ls.filter(p),
{
    let a = ls.take(i);
    let b = ls.skip(i + 1);
    assert(ls.update(i, x) =~= a + seq![x] + b);
    assert(ls =~= a + seq![ls[i]] + b);
    lemma_filter_split(a, x, b, p);
    lemma_filter_split(a, ls[i], b, p);
}

/// Inserting a line that `p` drops keeps the filtered sequence.
pub proof fn lemma_filter_insert(ls: Seq<Seq<char>>, j: int, x: Seq<char>, p: spec_fn(Seq<char>) -> bool)
    requires
        0 <= j <= ls.len(),
        !p(x),
    ensures
        ls.insert(j, x).filter(p) == ls.filter(p),
{
    let a = ls.take(j);
    let b = ls.skip(j);
    assert(ls.insert(j, x) =~= a + seq![x] + b);
    assert(ls =~= a + b);
    lemma_filter_split(a, x, b, p);
}

/// Filtering by `q` first changes nothing when everything `p` keeps, `q` keeps too.
pub proof fn lemma_filter_filter(ls: Seq<Seq<char>>, q: spec_fn(Seq<char>) -> bool, p: spec_fn(Seq<char>) -> bool)
    requires
        forall|l: Seq<char>| #[trigger] p(l) ==> q(l),
    ensures
        ls.filter(q).filter(p) == ls.filter(p),
    decreases ls.len(),
{
    reveal(Seq::filter);
    if ls.len() > 0 {
        lemma_filter_filter(ls.drop_last(), q, p);
        if q(ls.last()) {
            lemma_filter_push(ls.drop_last().filter(q), ls.last(), p);
        }
    }
}

/// `l` begins with `key` followed by ':' or by ';' (a property, possibly with parameters).
pub open spec fn is_prop_line(l: Seq<char>, key: Seq<char>) -> bool {
    starts_with(l, key.push(':')) || starts_with(l, key.push(';'))
}

/// The line that sets property `key` to `value`.
pub open spec fn prop_line(key: Seq<char>, value: Seq<char>) -> Seq<char> {
    key.push(':') + value
}

/// The line that closes a VTODO block, white space aside.
pub open spec fn is_end_line(l: Seq<char>) -> bool {
    trim(l) == "END:VTODO"@
}

/// The lines with property `key` set to `value`: the first line of the property is replaced;
/// without one, the line goes before the first `END:VTODO`; without that, nothing changes.
pub open spec fn set_property(ls: Seq<Seq<char>>, key: Seq<char>, value: Seq<char>) -> Seq<Seq<char>> {
    match first_index(ls, |l: Seq<char>| is_prop_line(l, key)) {
        Some(i) => ls.update(i, prop_line(key, value)),
        None => match first_index(ls, |l: Seq<char>| is_end_line(l)) {
            Some(j) => ls.insert(j, prop_line(key, value)),
            None => ls,
        },
    }
}

/// The lines without any line of property `key`.
pub open spec fn removed_property(ls: Seq<Seq<char>>, key: Seq<char>) -> Seq<Seq<char>> {
    ls.filter(|l: Seq<char>| !is_prop_line(l, key))
}

/// `key` followed by `sep`.
pub fn key_prefix(key: &str, sep: char) -> (r: String)
    ensures
        r@ == key@.push(sep),
{
    let mut r = to_string(key);
    push_char(&mut r, sep);
    r
}

/// Whether the line sets property `key`.
pub fn is_prop_line_str(line: &str, key: &str) -> (b: bool)
    ensures
        b == is_prop_line(line@, key@),
{
    let colon = key_prefix(key, ':');
    let semi = key_prefix(key, ';');
    starts_with_str(line, colon.as_str()) || starts_with_str(line, semi.as_str())
}

/// Whether the line closes a VTODO block.
pub fn is_end_line_str(line: &str) -> (b: bool)
    ensures
        b == is_end_line(line@),
{
    let t = trim_str(line);
    str_eq(t.as_str(), "END:VTODO")
}

/// The position of the first line that closes a VTODO block.
pub fn find_end_line(lines: &Vec<String>) -> (r: Option<usize>)
    ensures
        r matches Some(j) ==> j < lines@.len() && first_index(views(lines@), |l: Seq<char>| is_end_line(l)) == Some(
            j as int,
        ),
        r is None ==> first_index(views(lines@), |l: Seq<char>| is_end_line(l)) is None,
{
    let ghost ls = views(lines@);
    let ghost p = |l: Seq<char>| is_end_line(l);
    proof {
        lemma_first_index(ls, p);
    }
    let mut j: usize = 0;
    while j < lines.len()
        invariant
            j <= lines@.len(),
            ls == views(lines@),
            p == (|l: Seq<char>| is_end_line(l)),
            forall|k: int| 0 <= k < j ==> !p(#[trigger] ls[k]),
            first_index(ls, p) matches Some(i) ==> 0 <= i < ls.len() && p(ls[i]) && forall|k: int|
                0 <= k < i ==> !p(#[trigger] ls[k]),
            first_index(ls, p) is None ==> forall|k: int| 0 <= k < ls.len() ==> !p(#[trigger] ls[k]),
        decreases lines@.len() - j,
    {
        if is_end_line_str(lines[j].as_str()) {
            assert(p(ls[j as int]));
            return Some(j);
        }
        j = j + 1;
    }
    None
}

/// Sets property `key` of the VTODO lines to `value` (see `set_property`).
pub fn set_or_update_property(lines: &mut Vec<String>, key: &str, value: &str)
    ensures
        views(final(lines)@) == set_property(views(old(lines)@), key@, value@),
{
    let ghost ls = views(lines@);
    let ghost p = |l: Seq<char>| is_prop_line(l, key@);
    proof {
        lemma_first_index(ls, p);
    }
    let colon = key_prefix(key, ':');
    let new_line = concat_str(colon.as_str(), value);
    let mut i: usize = 0;
    while i < lines.len()
        invariant
            i <= lines@.len(),
            ls == views(lines@),
            lines@ == old(lines)@,
            p == (|l: Seq<char>| is_prop_line(l, key@)),
            new_line@ == prop_line(key@, value@),
            forall|k: int| 0 <= k < i ==> !p(#[trigger] ls[k]),
            first_index(ls, p) matches Some(f) ==> 0 <= f < ls.len() && p(ls[f]) && forall|k: int|
                0 <= k < f ==> !p(#[trigger] ls[k]),
            first_index(ls, p) is None ==> forall|k: int| 0 <= k < ls.len() ==> !p(#[trigger] ls[k]),
        decreases lines@.len() - i,
    {
        if is_prop_line_str(lines[i].as_str(), key) {
            assert(p(ls[i as int]));
            lines.set(i, new_line);
            assert(views(lines@) =~= ls.update(i as int, prop_line(key@, value@)));
            return;
        }
        i = i + 1;
    }
    match find_end_line(lines) {
        Some(j) => {
            lines.insert(j, new_line);
            assert(views(lines@) =~= ls.insert(j as int, prop_line(key@, value@)));
        },
        None => {},
    }
}

/// Removes every line of property `key` from the VTODO lines.
pub fn remove_property(lines: &mut Vec<String>, key: &str)
    ensures
        views(final(lines)@) == removed_property(views(old(lines)@), key@),
{
    let ghost ls = views(lines@);
    let ghost p = |l: Seq<char>| !is_prop_line(l, key@);
    let mut kept: Vec<String> = Vec::new();
    let mut i: usize = 0;
    while i < lines.len()
        invariant
            i <= lines@.len(),
            ls == views(lines@),
            lines@ == old(lines)@,
            p == (|l: Seq<char>| !is_prop_line(l, key@)),
            views(kept@) == ls.take(i as int).filter(p),
        decreases lines@.len() - i,
    {
        let ghost before = kept@;
        proof {
            assert(ls.take(i + 1) =~= ls.take(i as int).push(ls[i as int]));
            lemma_filter_push(ls.take(i as int), ls[i as int], p);
        }
        if !is_prop_line_str(lines[i].as_str(), key) {
            kept.push(lines[i].clone());
            assert(views(kept@) =~= views(before).push(ls[i as int]));
        }
        i = i + 1;
    }
    assert(ls.take(lines@.len() as int) =~= ls);
    *lines = kept;
}

/// The number that a `SEQUENCE:` line holds, when its text after the colon, white space
/// aside, reads as a `u32`.
pub open spec fn seq_value(l: Seq<char>) -> Option<u32> {
    if starts_with(l, "SEQUENCE"@.push(':')) {
        parse_u32(trim(l.skip("SEQUENCE"@.len() as int + 1)))
    } else {
        None
    }
}

/// The line holds a `SEQUENCE` number.
pub open spec fn has_seq(l: Seq<char>) -> bool {
    seq_value(l) is Some
}

/// The lines with their `SEQUENCE` number raised by one: the first line that holds one is
/// rewritten; without one, `SEQUENCE:1` goes before the first `END:VTODO`.
pub open spec fn incremented(ls: Seq<Seq<char>>) -> Seq<Seq<char>> {
    match first_index(ls, |l: Seq<char>| has_seq(l)) {
        Some(i) => ls.update(i, prop_line("SEQUENCE"@, decimal_text((seq_value(ls[i])->0 + 1) as nat))),
        None => match first_index(ls, |l: Seq<char>| is_end_line(l)) {
            Some(j) => ls.insert(j, prop_line("SEQUENCE"@, decimal_text(1))),
            None => ls,
        },
    }
}

/// The number that the first `SEQUENCE` line holds can be raised within a `u32`.
pub open spec fn seq_bounded(ls: Seq<Seq<char>>) -> bool {
    match first_index(ls, |l: Seq<char>| has_seq(l)) {
        Some(i) => seq_value(ls[i])->0 < u32::MAX,
        None => true,
    }
}

/// The `SEQUENCE` number a line holds, if any (see `seq_value`).
pub fn seq_value_str(line: &str) -> (r: Option<u32>)
    ensures
        r == seq_value(line@),
{
    let prefix = key_prefix("SEQUENCE", ':');
    if !starts_with_str(line, prefix.as_str()) {
        return None;
    }
    let n = chars_of(prefix.as_str()).len();
    let rest = skip_str(line, n);
    let t = trim_str(rest.as_str());
    parse_u32_str(t.as_str())
}

/// Whether the first `SEQUENCE` number of the lines can be raised (see `seq_bounded`).
pub fn sequence_bounded(lines: &Vec<String>) -> (b: bool)
    ensures
        b == seq_bounded(views(lines@)),
{
    let ghost ls = views(lines@);
    let ghost p = |l: Seq<char>| has_seq(l);
    proof {
        lemma_first_index(ls, p);
    }
    let mut i: usize = 0;
    while i < lines.len()
        invariant
            i <= lines@.len(),
            ls == views(lines@),
            p == (|l: Seq<char>| has_seq(l)),
            forall|k: int| 0 <= k < i ==> !p(#[trigger] ls[k]),
            first_index(ls, p) matches Some(f) ==> 0 <= f < ls.len() && p(ls[f]) && forall|k: int|
                0 <= k < f ==> !p(#[trigger] ls[k]),
            first_index(ls, p) is None ==> forall|k: int| 0 <= k < ls.len() ==> !p(#[trigger] ls[k]),
        decreases lines@.len() - i,
    {
        match seq_value_str(lines[i].as_str()) {
            Some(v) => {
                assert(p(ls[i as int]));
                return v < u32::MAX;
            },
            None => {},
        }
        i = i + 1;
    }
    true
}

/// Raises the `SEQUENCE` number of the VTODO lines by one (see `incremented`).
pub fn increment_sequence(lines: &mut Vec<String>)
    requires
        seq_bounded(views(old(lines)@)),
    ensures
        views(final(lines)@) == incremented(views(old(lines)@)),
{
    let ghost ls = views(lines@);
    let ghost p = |l: Seq<char>| has_seq(l);
    proof {
        lemma_first_index(ls, p);
    }
    let mut i: usize = 0;
    while i < lines.len()
        invariant
            i <= lines@.len(),
            ls == views(lines@),
            lines@ == old(lines)@,
            seq_bounded(ls),
            p == (|l: Seq<char>| has_seq(l)),
            forall|k: int| 0 <= k < i ==> !p(#[trigger] ls[k]),
            first_index(ls, p) matches Some(f) ==> 0 <= f < ls.len() && p(ls[f]) && forall|k: int|
                0 <= k < f ==> !p(#[trigger] ls[k]),
            first_index(ls, p) is None ==> forall|k: int| 0 <= k < ls.len() ==> !p(#[trigger] ls[k]),
        decreases lines@.len() - i,
    {
        match seq_value_str(lines[i].as_str()) {
            Some(v) => {
                assert(p(ls[i as int]));
                let num = u32_text(v + 1);
                let new_line = concat_str(key_prefix("SEQUENCE", ':').as_str(), num.as_str());
                lines.set(i, new_line);
                assert(views(lines@) =~= ls.update(
                    i as int,
                    prop_line("SEQUENCE"@, decimal_text((seq_value(ls[i as int])->0 + 1) as nat)),
                ));
                return;
            },
            None => {},
        }
        i = i + 1;
    }
    match find_end_line(lines) {
        Some(j) => {
            let one = u32_text(1);
            let new_line = concat_str(key_prefix("SEQUENCE", ':').as_str(), one.as_str());
            lines.insert(j, new_line);
            assert(views(lines@) =~= ls.insert(j as int, prop_line("SEQUENCE"@, decimal_text(1))));
        },
        None => {},
    }
}

/// A line written by `prop_line` is a line of its property.
pub proof fn lemma_prop_line_is_prop(key: Seq<char>, value: Seq<char>)
    ensures
        is_prop_line(prop_line(key, value), key),
{
    assert(prop_line(key, value).take(key.push(':').len() as int) =~= key.push(':'));
}

/// Setting property `key` keeps the lines that `p` keeps, when `p` keeps no line of `key`.
pub proof fn lemma_set_keeps(ls: Seq<Seq<char>>, key: Seq<char>, value: Seq<char>, p: spec_fn(Seq<char>) -> bool)
    requires
        forall|l: Seq<char>| #[trigger] is_prop_line(l, key) ==> !p(l),
    ensures
        set_property(ls, key, value).filter(p) == ls.filter(p),
{
    lemma_prop_line_is_prop(key, value);
    lemma_first_index(ls, |l: Seq<char>| is_prop_line(l, key));
    lemma_first_index(ls, |l: Seq<char>| is_end_line(l));
    match first_index(ls, |l: Seq<char>| is_prop_line(l, key)) {
        Some(i) => {
            assert(is_prop_line(ls[i], key));
            lemma_filter_update(ls, i, prop_line(key, value), p);
        },
        None => match first_index(ls, |l: Seq<char>| is_end_line(l)) {
            Some(j) => lemma_filter_insert(ls, j, prop_line(key, value), p),
            None => {},
        },
    }
}

/// Removing property `key` keeps the lines that `p` keeps, when `p` keeps no line of `key`.
pub proof fn lemma_remove_keeps(ls: Seq<Seq<char>>, key: Seq<char>, p: spec_fn(Seq<char>) -> bool)
    requires
        forall|l: Seq<char>| #[trigger] is_prop_line(l, key) ==> !p(l),
    ensures
        removed_property(ls, key).filter(p) == ls.filter(p),
{
    let q = |l: Seq<char>| !is_prop_line(l, key);
    assert forall|l: Seq<char>| #[trigger] p(l) implies q(l) by {
        if is_prop_line(l, key) {
        }
    }
    lemma_filter_filter(ls, q, p);
}

/// A line of property `key` holds no `SEQUENCE` number when `key` and `SEQUENCE` differ at
/// position `m`.
pub proof fn lemma_not_seq(key: Seq<char>, m: int)
    requires
        0 <= m < key.len(),
        m < "SEQUENCE"@.len(),
        key[m] != "SEQUENCE"@[m],
    ensures
        forall|l: Seq<char>| #[trigger] is_prop_line(l, key) ==> !has_seq(l),
{
    assert forall|l: Seq<char>| #[trigger] is_prop_line(l, key) implies !has_seq(l) by {
        if has_seq(l) {
            let s = "SEQUENCE"@.push(':');
            assert(l.take(s.len() as int)[m] == l[m]);
            assert(s[m] == "SEQUENCE"@[m]);
            if starts_with(l, key.push(':')) {
                assert(l.take(key.len() as int + 1)[m] == l[m]);
                assert(key.push(':')[m] == key[m]);
            } else {
                assert(l.take(key.len() as int + 1)[m] == l[m]);
                assert(key.push(';')[m] == key[m]);
            }
        }
    }
}

/// Lines with the same `SEQUENCE` lines in the same order agree on `seq_bounded`.
pub proof fn lemma_seq_bounded_same(a: Seq<Seq<char>>, b: Seq<Seq<char>>)
    requires
        a.filter(|l: Seq<char>| has_seq(l)) == b.filter(|l: Seq<char>| has_seq(l)),
    ensures
        seq_bounded(a) == seq_bounded(b),
{
    lemma_first_index_filter(a, |l: Seq<char>| has_seq(l));
    lemma_first_index_filter(b, |l: Seq<char>| has_seq(l));
    lemma_first_index(a, |l: Seq<char>| has_seq(l));
    lemma_first_index(b, |l: Seq<char>| has_seq(l));
}

} // verus!
