use vstd::prelude::*;
use crate::date::{compact_date_text, two_digits, valid_date};
use crate::decimal::{decimal_text, digit_char, digits_value, digit_value, parse_u32};
use crate::ical::{
    ical_to_todotxt, line_prop, priority_of, prop_in, task_fields_set, todotxt_to_ical, updated_lines, with_categories, with_date,
    with_priority, with_status,
};
use crate::lines::{is_ws, join, lemma_lines_append, lemma_lines_crlf, lemma_lines_no_lf, lines, starts_with, trim, trim_end, trim_start};
use crate::ical::{crlf, ends_with, prop_value, updated_text, with_final_crlf};
use crate::task::{TaskView, LOWEST_PRIORITY};
use crate::vtodo::{
    first_index, has_seq, incremented, is_end_line, is_prop_line, lemma_filter_insert, lemma_filter_update, lemma_first_index,
    lemma_first_index_filter, lemma_prop_line_is_prop, lemma_remove_keeps, lemma_set_keeps, prop_line, removed_property,
    seq_value, set_property,
};

verus! {

/// The lines that give a value for property `key`.
pub open spec fn valued(key: Seq<char>) -> spec_fn(Seq<char>) -> bool {
    |l: Seq<char>| line_prop(l, key) is Some
}

/// Every line that gives a value for `key`, white space aside, is itself a line of `key`: no
/// property `key` hides behind leading white space, as on a folded continuation line.
pub open spec fn plain_key_lines(ls: Seq<Seq<char>>, key: Seq<char>) -> bool {
    forall|i: int| 0 <= i < ls.len() && (#[trigger] line_prop(ls[i], key)) is Some ==> is_prop_line(ls[i], key)
}

/// The lines hold a line that closes a VTODO block.
pub open spec fn has_end_line(ls: Seq<Seq<char>>) -> bool {
    first_index(ls, |l: Seq<char>| is_end_line(l)) is Some
}

proof fn lemma_trim_end_prefix(s: Seq<char>, n: int)
    requires
        0 < n <= s.len(),
        !is_ws(s[n - 1]),
    ensures
        n <= trim_end(s).len(),
        trim_end(s).take(n) == s.take(n),
    decreases s.len(),
{
    if s.len() > 0 && is_ws(s.last()) {
        lemma_trim_end_prefix(s.drop_last(), n);
        assert(s.drop_last().take(n) =~= s.take(n));
    }
}

/// Trimming keeps a prefix without white space.
proof fn lemma_trim_prefix(l: Seq<char>, n: int)
    requires
        0 < n <= l.len(),
        forall|j: int| 0 <= j < n ==> !is_ws(#[trigger] l[j]),
    ensures
        n <= trim(l).len(),
        trim(l).take(n) == l.take(n),
{
    assert(!is_ws(l[0]));
    assert(trim_start(l) == l);
    assert(!is_ws(l[n - 1]));
    lemma_trim_end_prefix(l, n);
}

/// A line of property `k` gives no value for a key that differs from `k` at position `m`.
proof fn lemma_other_key(l: Seq<char>, k: Seq<char>, key: Seq<char>, m: int)
    requires
        is_prop_line(l, k),
        0 <= m < k.len(),
        m < key.len(),
        k[m] != key[m],
        forall|j: int| 0 <= j <= m ==> !is_ws(#[trigger] k[j]),
    ensures
        line_prop(l, key) is None,
{
    assert forall|j: int| 0 <= j <= m implies l[j] == k[j] by {
        if starts_with(l, k.push(':')) {
            assert(l.take(k.len() as int + 1)[j] == l[j]);
            assert(k.push(':')[j] == k[j]);
        } else {
            assert(l.take(k.len() as int + 1)[j] == l[j]);
            assert(k.push(';')[j] == k[j]);
        }
    }
    assert forall|j: int| 0 <= j < m + 1 implies !is_ws(#[trigger] l[j]) by {
        assert(l[j] == k[j]);
    }
    lemma_trim_prefix(l, m + 1);
    let t = trim(l);
    assert(t.take(m + 1)[m] == t[m]);
    assert(l.take(m + 1)[m] == l[m]);
    if starts_with(t, key.push(':')) {
        assert(t.take(key.len() as int + 1)[m] == t[m]);
        assert(key.push(':')[m] == key[m]);
    }
    if starts_with(t, key.push(';')) {
        assert(t.take(key.len() as int + 1)[m] == t[m]);
        assert(key.push(';')[m] == key[m]);
    }
}

/// No line of property `k` gives a value for a key that differs from `k` at position `m`.
proof fn lemma_other_key_all(k: Seq<char>, key: Seq<char>, m: int)
    requires
        0 <= m < k.len(),
        m < key.len(),
        k[m] != key[m],
        forall|j: int| 0 <= j <= m ==> !is_ws(#[trigger] k[j]),
    ensures
        forall|l: Seq<char>| #[trigger] is_prop_line(l, k) ==> !valued(key)(l),
{
    assert forall|l: Seq<char>| #[trigger] is_prop_line(l, k) implies !valued(key)(l) by {
        lemma_other_key(l, k, key, m);
    }
}

/// No line of property `k` closes a VTODO block, when `k` does not begin with 'E'.
proof fn lemma_not_end_all(k: Seq<char>)
    requires
        k.len() > 0,
        k[0] != 'E',
        !is_ws(k[0]),
    ensures
        forall|l: Seq<char>| #[trigger] is_prop_line(l, k) ==> !is_end_line(l),
{
    assert forall|l: Seq<char>| #[trigger] is_prop_line(l, k) implies !is_end_line(l) by {
        assert(l.take(k.len() as int + 1)[0] == l[0]);
        assert(k.push(':')[0] == k[0]);
        assert(k.push(';')[0] == k[0]);
        assert(l[0] == k[0]);
        lemma_trim_prefix(l, 1);
        assert(trim(l).take(1)[0] == trim(l)[0]);
        assert(l.take(1)[0] == l[0]);
        if is_end_line(l) {
            assert("END:VTODO"@[0] == 'E') by {
                reveal_strlit("END:VTODO");
            }
        }
    }
}

/// The value of `key` in the lines is the value of the first line that gives one.
proof fn lemma_prop_in_first(ls: Seq<Seq<char>>, key: Seq<char>, i: int)
    requires
        0 <= i < ls.len(),
        line_prop(ls[i], key) is Some,
        forall|j: int| 0 <= j < i ==> (#[trigger] line_prop(ls[j], key)) is None,
    ensures
        prop_in(ls, key) == line_prop(ls[i], key),
    decreases i,
{
    if i > 0 {
        assert(line_prop(ls[0], key) is None);
        assert forall|j: int| 0 <= j < i - 1 implies (#[trigger] line_prop(ls.skip(1)[j], key)) is None by {
            assert(ls.skip(1)[j] == ls[j + 1]);
            assert(line_prop(ls[j + 1], key) is None);
        }
        lemma_prop_in_first(ls.skip(1), key, i - 1);
        assert(ls.skip(1)[i - 1] == ls[i]);
    }
}

/// Lines none of which gives a value for `key` give none.
proof fn lemma_prop_in_none(ls: Seq<Seq<char>>, key: Seq<char>)
    requires
        forall|j: int| 0 <= j < ls.len() ==> (#[trigger] line_prop(ls[j], key)) is None,
    ensures
        prop_in(ls, key) is None,
    decreases ls.len(),
{
    if ls.len() > 0 {
        assert(line_prop(ls[0], key) is None);
        assert forall|j: int| 0 <= j < ls.len() - 1 implies (#[trigger] line_prop(ls.skip(1)[j], key)) is None by {
            assert(ls.skip(1)[j] == ls[j + 1]);
            assert(line_prop(ls[j + 1], key) is None);
        }
        lemma_prop_in_none(ls.skip(1), key);
    }
}

/// The value of `key` depends only on the lines that give one, in their order.
proof fn lemma_prop_in_filter(ls: Seq<Seq<char>>, key: Seq<char>)
    ensures
        prop_in(ls, key) == prop_in(ls.filter(valued(key)), key),
    decreases ls.len(),
{
    let p = valued(key);
    reveal(Seq::filter);
    if ls.len() > 0 {
        lemma_prop_in_filter(ls.skip(1), key);
        let h = seq![ls[0]];
        assert(ls =~= h + ls.skip(1));
        Seq::filter_distributes_over_add(h, ls.skip(1), p);
        assert(h.drop_last() =~= Seq::<Seq<char>>::empty());
        assert(h.drop_last().filter(p) =~= Seq::<Seq<char>>::empty());
        if p(ls[0]) {
            assert(h.filter(p) =~= h);
            let f = ls.filter(p);
            assert(f =~= h + ls.skip(1).filter(p));
            assert(f[0] == ls[0]);
        } else {
            assert(h.filter(p) =~= Seq::<Seq<char>>::empty());
            assert(ls.filter(p) =~= ls.skip(1).filter(p));
        }
    } else {
        assert(ls.filter(p) =~= ls);
    }
}

/// Lines with the same lines giving values for `key`, in the same order, give the same value.
proof fn lemma_prop_in_same(a: Seq<Seq<char>>, b: Seq<Seq<char>>, key: Seq<char>)
    requires
        a.filter(valued(key)) == b.filter(valued(key)),
    ensures
        prop_in(a, key) == prop_in(b, key),
{
    lemma_prop_in_filter(a, key);
    lemma_prop_in_filter(b, key);
}

/// Plain lines of `key` stay plain when the lines giving values for `key` stay the same.
proof fn lemma_plain_same(a: Seq<Seq<char>>, b: Seq<Seq<char>>, key: Seq<char>)
    requires
        a.filter(valued(key)) == b.filter(valued(key)),
        plain_key_lines(a, key),
    ensures
        plain_key_lines(b, key),
{
    let p = valued(key);
    assert forall|i: int| 0 <= i < b.len() && (#[trigger] line_prop(b[i], key)) is Some implies is_prop_line(b[i], key) by {
        assert(p(b[i]));
        b.lemma_filter_contains(p, i);
        assert(a.filter(p).contains(b[i]));
        a.lemma_filter_contains_rev(p, b[i]);
        let j = choose|j: int| 0 <= j < a.len() && a[j] == b[i];
        assert(line_prop(a[j], key) is Some);
    }
}

/// A closing line stays when the lines that close a block stay the same.
proof fn lemma_end_same(a: Seq<Seq<char>>, b: Seq<Seq<char>>)
    requires
        a.filter(|l: Seq<char>| is_end_line(l)) == b.filter(|l: Seq<char>| is_end_line(l)),
        has_end_line(a),
    ensures
        has_end_line(b),
{
    lemma_first_index_filter(a, |l: Seq<char>| is_end_line(l));
    lemma_first_index_filter(b, |l: Seq<char>| is_end_line(l));
}

/// The line that sets `key` to `v` gives `v` for `key`, when neither ends with white space
/// and `key` does not begin with it.
proof fn lemma_own_line(key: Seq<char>, v: Seq<char>)
    requires
        key.len() > 0,
        !is_ws(key[0]),
        v.len() > 0 && !is_ws(v.last()),
    ensures
        line_prop(prop_line(key, v), key) == Some(v),
{
    let l = prop_line(key, v);
    assert(l[0] == key[0]);
    assert(l.last() == v.last());
    assert(trim_start(l) == l);
    assert(trim_end(l) == l);
    assert(l.take(key.len() as int + 1) =~= key.push(':'));
    assert(l.skip(key.len() as int + 1) =~= v);
}

/// Setting `key` to `v` in lines whose `key` lines are plain and that close a block makes the
/// value that the new line gives the value of `key`.
proof fn lemma_set_own(ls: Seq<Seq<char>>, key: Seq<char>, v: Seq<char>)
    requires
        plain_key_lines(ls, key),
        has_end_line(ls),
        line_prop(prop_line(key, v), key) is Some,
    ensures
        prop_in(set_property(ls, key, v), key) == line_prop(prop_line(key, v), key),
{
    let x = prop_line(key, v);
    lemma_first_index(ls, |l: Seq<char>| is_prop_line(l, key));
    lemma_first_index(ls, |l: Seq<char>| is_end_line(l));
    match first_index(ls, |l: Seq<char>| is_prop_line(l, key)) {
        Some(i) => {
            let n = ls.update(i, x);
            assert forall|j: int| 0 <= j < i implies (#[trigger] line_prop(n[j], key)) is None by {
                assert(n[j] == ls[j]);
                assert(!is_prop_line(ls[j], key));
            }
            lemma_prop_in_first(n, key, i);
        },
        None => {
            let j = first_index(ls, |l: Seq<char>| is_end_line(l))->0;
            let n = ls.insert(j, x);
            assert forall|k: int| 0 <= k < j implies (#[trigger] line_prop(n[k], key)) is None by {
                assert(n[k] == ls[k]);
                assert(!is_prop_line(ls[k], key));
            }
            lemma_prop_in_first(n, key, j);
        },
    }
}

/// Removing `key` from lines whose `key` lines are plain leaves no value for `key`.
proof fn lemma_remove_own(ls: Seq<Seq<char>>, key: Seq<char>)
    requires
        plain_key_lines(ls, key),
    ensures
        prop_in(removed_property(ls, key), key) is None,
{
    let q = |l: Seq<char>| !is_prop_line(l, key);
    let r = ls.filter(q);
    assert forall|j: int| 0 <= j < r.len() implies (#[trigger] line_prop(r[j], key)) is None by {
        ls.lemma_filter_pred(q, j);
        assert(q(r[j]));
        assert(r.contains(r[j]));
        ls.lemma_filter_contains_rev(q, r[j]);
        let i = choose|i: int| 0 <= i < ls.len() && ls[i] == r[j];
        if line_prop(ls[i], key) is Some {
            assert(is_prop_line(ls[i], key));
        }
    }
    lemma_prop_in_none(r, key);
}

/// Raising the `SEQUENCE` number keeps the lines that `p` keeps, when `p` keeps no line of
/// `SEQUENCE`.
proof fn lemma_incremented_keeps(ls: Seq<Seq<char>>, p: spec_fn(Seq<char>) -> bool)
    requires
        forall|l: Seq<char>| #[trigger] is_prop_line(l, "SEQUENCE"@) ==> !p(l),
    ensures
        incremented(ls).filter(p) == ls.filter(p),
{
    let hs = |l: Seq<char>| has_seq(l);
    lemma_first_index(ls, hs);
    lemma_first_index(ls, |l: Seq<char>| is_end_line(l));
    lemma_prop_line_is_prop("SEQUENCE"@, decimal_text(1));
    match first_index(ls, hs) {
        Some(i) => {
            let v = decimal_text((seq_value(ls[i])->0 + 1) as nat);
            lemma_prop_line_is_prop("SEQUENCE"@, v);
            assert(is_prop_line(ls[i], "SEQUENCE"@));
            lemma_filter_update(ls, i, prop_line("SEQUENCE"@, v), p);
        },
        None => match first_index(ls, |l: Seq<char>| is_end_line(l)) {
            Some(j) => lemma_filter_insert(ls, j, prop_line("SEQUENCE"@, decimal_text(1)), p),
            None => {},
        },
    }
}

/// Setting property `k`, which differs from `key` at position `m` and does not begin with
/// 'E', keeps the lines that give values for `key` and the lines that close a block.
proof fn lemma_set_other(ls: Seq<Seq<char>>, k: Seq<char>, v: Seq<char>, key: Seq<char>, m: int)
    requires
        0 <= m < k.len(),
        m < key.len(),
        k[m] != key[m],
        forall|j: int| 0 <= j <= m ==> !is_ws(#[trigger] k[j]),
        k[0] != 'E',
    ensures
        set_property(ls, k, v).filter(valued(key)) == ls.filter(valued(key)),
        set_property(ls, k, v).filter(|l: Seq<char>| is_end_line(l)) == ls.filter(|l: Seq<char>| is_end_line(l)),
{
    lemma_other_key_all(k, key, m);
    lemma_set_keeps(ls, k, v, valued(key));
    lemma_not_end_all(k);
    lemma_set_keeps(ls, k, v, |l: Seq<char>| is_end_line(l));
}

/// Removing property `k` (see `lemma_set_other`) keeps the same lines.
proof fn lemma_remove_other(ls: Seq<Seq<char>>, k: Seq<char>, key: Seq<char>, m: int)
    requires
        0 <= m < k.len(),
        m < key.len(),
        k[m] != key[m],
        forall|j: int| 0 <= j <= m ==> !is_ws(#[trigger] k[j]),
        k[0] != 'E',
    ensures
        removed_property(ls, k).filter(valued(key)) == ls.filter(valued(key)),
        removed_property(ls, k).filter(|l: Seq<char>| is_end_line(l)) == ls.filter(|l: Seq<char>| is_end_line(l)),
{
    lemma_other_key_all(k, key, m);
    lemma_remove_keeps(ls, k, valued(key));
    lemma_not_end_all(k);
    lemma_remove_keeps(ls, k, |l: Seq<char>| is_end_line(l));
}

/// A digit character is no white space.
proof fn lemma_digit_not_ws(n: nat)
    requires
        n < 10,
    ensures
        !is_ws(digit_char(n)),
        '0' <= digit_char(n) <= '9',
        digit_char(n) as int == '0' as int + n,
{
}

/// The text of a valid date ends with a digit.
proof fn lemma_date_text_end(d: crate::date::Date)
    requires
        valid_date(d),
    ensures
        compact_date_text(d).len() > 0,
        !is_ws(compact_date_text(d).last()),
{
    let dd = two_digits(d.day as int);
    lemma_digit_not_ws((d.day as int % 10) as nat);
    assert(compact_date_text(d).last() == dd[1]);
}

/// The keys of the properties that saving a task sets, spelled out.
proof fn lemma_keys()
    ensures
        "SUMMARY"@ =~= seq!['S', 'U', 'M', 'M', 'A', 'R', 'Y'],
        "PRIORITY"@ =~= seq!['P', 'R', 'I', 'O', 'R', 'I', 'T', 'Y'],
        "STATUS"@ =~= seq!['S', 'T', 'A', 'T', 'U', 'S'],
        "COMPLETED"@ =~= seq!['C', 'O', 'M', 'P', 'L', 'E', 'T', 'E', 'D'],
        "DTSTART"@ =~= seq!['D', 'T', 'S', 'T', 'A', 'R', 'T'],
        "DUE"@ =~= seq!['D', 'U', 'E'],
        "CATEGORIES"@ =~= seq!['C', 'A', 'T', 'E', 'G', 'O', 'R', 'I', 'E', 'S'],
        "SEQUENCE"@ =~= seq!['S', 'E', 'Q', 'U', 'E', 'N', 'C', 'E'],
        "LAST-MODIFIED"@ =~= seq!['L', 'A', 'S', 'T', '-', 'M', 'O', 'D', 'I', 'F', 'I', 'E', 'D'],
{
    reveal_strlit("SUMMARY");
    reveal_strlit("PRIORITY");
    reveal_strlit("STATUS");
    reveal_strlit("COMPLETED");
    reveal_strlit("DTSTART");
    reveal_strlit("DUE");
    reveal_strlit("CATEGORIES");
    reveal_strlit("SEQUENCE");
    reveal_strlit("LAST-MODIFIED");
}

/// The steps of saving a task after its priority keep the lines that give values for `key`,
/// when `key` begins with neither 'S', 'C', 'D' nor 'L'.
proof fn lemma_after_priority_keeps(l2: Seq<Seq<char>>, t: TaskView, now: Seq<char>, key: Seq<char>)
    requires
        key.len() > 0,
        key[0] != 'S' && key[0] != 'C' && key[0] != 'D' && key[0] != 'L',
    ensures
        set_property(
            incremented(with_categories(with_date(with_date(with_status(l2, t), "DTSTART"@, t.create_date), "DUE"@, t.due_date), t)),
            "LAST-MODIFIED"@,
            now,
        ).filter(valued(key)) == l2.filter(valued(key)),
{
    lemma_keys();
    let p = valued(key);
    let l3 = with_status(l2, t);
    if t.finished {
        let a = set_property(l2, "STATUS"@, "COMPLETED"@);
        lemma_set_other(l2, "STATUS"@, "COMPLETED"@, key, 0);
        match t.finish_date {
            Some(d) => lemma_set_other(a, "COMPLETED"@, compact_date_text(d) + "T000000Z"@, key, 0),
            None => {},
        }
    } else {
        let a = set_property(l2, "STATUS"@, "NEEDS-ACTION"@);
        lemma_set_other(l2, "STATUS"@, "NEEDS-ACTION"@, key, 0);
        lemma_remove_other(a, "COMPLETED"@, key, 0);
    }
    let l4 = with_date(l3, "DTSTART"@, t.create_date);
    match t.create_date {
        Some(d) => lemma_set_other(l3, "DTSTART"@, compact_date_text(d), key, 0),
        None => lemma_remove_other(l3, "DTSTART"@, key, 0),
    }
    let l5 = with_date(l4, "DUE"@, t.due_date);
    match t.due_date {
        Some(d) => lemma_set_other(l4, "DUE"@, compact_date_text(d), key, 0),
        None => lemma_remove_other(l4, "DUE"@, key, 0),
    }
    let l6 = with_categories(l5, t);
    lemma_set_other(l5, "CATEGORIES"@, crate::ical::category_text(t), key, 0);
    lemma_remove_other(l5, "CATEGORIES"@, key, 0);
    lemma_other_key_all("SEQUENCE"@, key, 0);
    lemma_incremented_keeps(l6, p);
    lemma_set_other(incremented(l6), "LAST-MODIFIED"@, now, key, 0);
}

/// Saving a task into its stored VTODO block writes the task's priority as iCalendar holds it:
/// reading the `PRIORITY` property of the saved lines gives `1` to `4` for the priorities A to
/// D and nothing for any other priority or none, so that reading the block back gives the
/// task's priority when iCalendar can hold it and no priority otherwise. The block's lines
/// must close it and hold no `PRIORITY` property behind leading white space.
pub proof fn lemma_saved_priority(ls: Seq<Seq<char>>, t: TaskView, now: Seq<char>)
    requires
        plain_key_lines(ls, "PRIORITY"@),
        has_end_line(ls),
    ensures
        prop_in(updated_lines(ls, t, now), "PRIORITY"@) == (match todotxt_to_ical(t.priority) {
            Some(q) => Some(decimal_text(q as nat)),
            None => None,
        }),
        priority_of(prop_in(updated_lines(ls, t, now), "PRIORITY"@)) == (if t.priority <= 3 {
            t.priority
        } else {
            LOWEST_PRIORITY
        }),
{
    lemma_keys();
    let key = "PRIORITY"@;
    let l1 = set_property(ls, "SUMMARY"@, t.subject);
    lemma_set_other(ls, "SUMMARY"@, t.subject, key, 0);
    lemma_plain_same(ls, l1, key);
    lemma_end_same(ls, l1);
    let l2 = with_priority(l1, t);
    match todotxt_to_ical(t.priority) {
        Some(q) => {
            lemma_digit_not_ws(q as nat);
            assert(decimal_text(q as nat) == seq![digit_char(q as nat)]);
            lemma_own_line(key, decimal_text(q as nat));
            lemma_set_own(l1, key, decimal_text(q as nat));
        },
        None => lemma_remove_own(l1, key),
    }
    lemma_after_priority_keeps(l2, t, now, key);
    lemma_prop_in_same(l2, updated_lines(ls, t, now), key);
    match todotxt_to_ical(t.priority) {
        Some(q) => {
            let c = digit_char(q as nat);
            let s1 = seq![c];
            assert(trim_start(s1) == s1);
            assert(trim_end(s1) == s1);
            assert(s1.drop_last() =~= Seq::<char>::empty());
            assert(digits_value(s1) == digits_value(s1.drop_last()) * 10 + digit_value(c));
            assert(digit_value(c) == q);
            assert(parse_u32(s1) == Some(q));
        },
        None => {},
    }
}

/// Saving a task into its stored VTODO block writes the task's due date: reading the `DUE`
/// property of the saved lines gives the task's due date written as year, month and day
/// (`YYYYMMDD`), and nothing when the task has no due date, so that reading the block back
/// gives the task's due date. The block's lines must close it and hold no `DUE` property
/// behind leading white space.
pub proof fn lemma_saved_due(ls: Seq<Seq<char>>, t: TaskView, now: Seq<char>)
    requires
        plain_key_lines(ls, "DUE"@),
        has_end_line(ls),
        t.due_date matches Some(d) ==> valid_date(d),
    ensures
        prop_in(updated_lines(ls, t, now), "DUE"@) == (match t.due_date {
            Some(d) => Some(compact_date_text(d)),
            None => None,
        }),
{
    lemma_keys();
    let key = "DUE"@;
    let p = valued(key);
    let l1 = set_property(ls, "SUMMARY"@, t.subject);
    lemma_set_other(ls, "SUMMARY"@, t.subject, key, 0);
    let l2 = with_priority(l1, t);
    match todotxt_to_ical(t.priority) {
        Some(q) => lemma_set_other(l1, "PRIORITY"@, decimal_text(q as nat), key, 0),
        None => lemma_remove_other(l1, "PRIORITY"@, key, 0),
    }
    let l3 = with_status(l2, t);
    if t.finished {
        let a = set_property(l2, "STATUS"@, "COMPLETED"@);
        lemma_set_other(l2, "STATUS"@, "COMPLETED"@, key, 0);
        match t.finish_date {
            Some(d) => lemma_set_other(a, "COMPLETED"@, compact_date_text(d) + "T000000Z"@, key, 0),
            None => {},
        }
    } else {
        let a = set_property(l2, "STATUS"@, "NEEDS-ACTION"@);
        lemma_set_other(l2, "STATUS"@, "NEEDS-ACTION"@, key, 0);
        lemma_remove_other(a, "COMPLETED"@, key, 0);
    }
    let l4 = with_date(l3, "DTSTART"@, t.create_date);
    match t.create_date {
        Some(d) => lemma_set_other(l3, "DTSTART"@, compact_date_text(d), key, 1),
        None => lemma_remove_other(l3, "DTSTART"@, key, 1),
    }
    lemma_plain_same(ls, l4, key);
    lemma_end_same(ls, l4);
    let l5 = with_date(l4, key, t.due_date);
    match t.due_date {
        Some(d) => {
            lemma_date_text_end(d);
            lemma_own_line(key, compact_date_text(d));
            lemma_set_own(l4, key, compact_date_text(d));
        },
        None => lemma_remove_own(l4, key),
    }
    let l6 = with_categories(l5, t);
    lemma_set_other(l5, "CATEGORIES"@, crate::ical::category_text(t), key, 0);
    lemma_remove_other(l5, "CATEGORIES"@, key, 0);
    lemma_other_key_all("SEQUENCE"@, key, 0);
    lemma_incremented_keeps(l6, p);
    lemma_set_other(incremented(l6), "LAST-MODIFIED"@, now, key, 0);
    lemma_prop_in_same(l5, updated_lines(ls, t, now), key);
}

/// The steps of saving a task before its status keep the lines that give values for `key`,
/// when `key` differs from `SUMMARY` at position `m` (zero or one) and does not begin with 'P'.
proof fn lemma_before_status_keeps(ls: Seq<Seq<char>>, t: TaskView, key: Seq<char>, m: int)
    requires
        0 <= m <= 1,
        key.len() > 1,
        !is_ws(key[0]) && !is_ws(key[1]),
        key[m] != "SUMMARY"@[m],
        key[0] != 'P',
    ensures
        with_priority(set_property(ls, "SUMMARY"@, t.subject), t).filter(valued(key)) == ls.filter(valued(key)),
        with_priority(set_property(ls, "SUMMARY"@, t.subject), t).filter(|l: Seq<char>| is_end_line(l)) == ls.filter(
            |l: Seq<char>| is_end_line(l),
        ),
{
    lemma_keys();
    let l1 = set_property(ls, "SUMMARY"@, t.subject);
    lemma_set_other(ls, "SUMMARY"@, t.subject, key, m);
    match todotxt_to_ical(t.priority) {
        Some(q) => lemma_set_other(l1, "PRIORITY"@, decimal_text(q as nat), key, 0),
        None => lemma_remove_other(l1, "PRIORITY"@, key, 0),
    }
}

/// The steps of saving a task after its creation date keep the lines that give values for
/// `key`, when `key` differs from `DUE` at position `m`, from `SEQUENCE` at position `n` and
/// from `CATEGORIES` at position `c` (each zero or one) and does not begin with 'L'.
proof fn lemma_after_start_keeps(l4: Seq<Seq<char>>, t: TaskView, now: Seq<char>, key: Seq<char>, m: int, n: int, c: int)
    requires
        0 <= m <= 1,
        0 <= n <= 1,
        0 <= c <= 1,
        key.len() > 1,
        key[m] != "DUE"@[m],
        key[n] != "SEQUENCE"@[n],
        key[c] != "CATEGORIES"@[c],
        key[0] != 'L',
    ensures
        set_property(incremented(with_categories(with_date(l4, "DUE"@, t.due_date), t)), "LAST-MODIFIED"@, now).filter(
            valued(key),
        ) == l4.filter(valued(key)),
{
    lemma_keys();
    let p = valued(key);
    let l5 = with_date(l4, "DUE"@, t.due_date);
    match t.due_date {
        Some(d) => lemma_set_other(l4, "DUE"@, compact_date_text(d), key, m),
        None => lemma_remove_other(l4, "DUE"@, key, m),
    }
    let l6 = with_categories(l5, t);
    lemma_set_other(l5, "CATEGORIES"@, crate::ical::category_text(t), key, c);
    lemma_remove_other(l5, "CATEGORIES"@, key, c);
    lemma_other_key_all("SEQUENCE"@, key, n);
    lemma_incremented_keeps(l6, p);
    lemma_set_other(incremented(l6), "LAST-MODIFIED"@, now, key, 0);
}

/// Saving a task into its stored VTODO block writes the task's creation date: reading the
/// `DTSTART` property of the saved lines gives the task's creation date written as year, month
/// and day (`YYYYMMDD`), and nothing when the task has none. The block's lines must close it
/// and hold no `DTSTART` property behind leading white space.
pub proof fn lemma_saved_create_date(ls: Seq<Seq<char>>, t: TaskView, now: Seq<char>)
    requires
        plain_key_lines(ls, "DTSTART"@),
        has_end_line(ls),
        t.create_date matches Some(d) ==> valid_date(d),
    ensures
        prop_in(updated_lines(ls, t, now), "DTSTART"@) == (match t.create_date {
            Some(d) => Some(compact_date_text(d)),
            None => None,
        }),
{
    lemma_keys();
    let key = "DTSTART"@;
    let l2 = with_priority(set_property(ls, "SUMMARY"@, t.subject), t);
    lemma_before_status_keeps(ls, t, key, 0);
    let l3 = with_status(l2, t);
    if t.finished {
        let a = set_property(l2, "STATUS"@, "COMPLETED"@);
        lemma_set_other(l2, "STATUS"@, "COMPLETED"@, key, 0);
        match t.finish_date {
            Some(d) => lemma_set_other(a, "COMPLETED"@, compact_date_text(d) + "T000000Z"@, key, 0),
            None => {},
        }
    } else {
        let a = set_property(l2, "STATUS"@, "NEEDS-ACTION"@);
        lemma_set_other(l2, "STATUS"@, "NEEDS-ACTION"@, key, 0);
        lemma_remove_other(a, "COMPLETED"@, key, 0);
    }
    lemma_plain_same(ls, l3, key);
    lemma_end_same(ls, l3);
    let l4 = with_date(l3, key, t.create_date);
    match t.create_date {
        Some(d) => {
            lemma_date_text_end(d);
            lemma_own_line(key, compact_date_text(d));
            lemma_set_own(l3, key, compact_date_text(d));
        },
        None => lemma_remove_own(l3, key),
    }
    lemma_after_start_keeps(l4, t, now, key, 1, 0, 0);
    lemma_prop_in_same(l4, updated_lines(ls, t, now), key);
}

/// Saving a task into its stored VTODO block writes the task's status: reading the `STATUS`
/// property of the saved lines gives `COMPLETED` for a finished task and `NEEDS-ACTION` for
/// another, so that reading the block back tells whether the task is done. The block's lines
/// must close it and hold no `STATUS` property behind leading white space.
pub proof fn lemma_saved_status(ls: Seq<Seq<char>>, t: TaskView, now: Seq<char>)
    requires
        plain_key_lines(ls, "STATUS"@),
        has_end_line(ls),
    ensures
        prop_in(updated_lines(ls, t, now), "STATUS"@) == Some(
            if t.finished {
                "COMPLETED"@
            } else {
                "NEEDS-ACTION"@
            },
        ),
{
    lemma_keys();
    reveal_strlit("NEEDS-ACTION");
    let key = "STATUS"@;
    let l2 = with_priority(set_property(ls, "SUMMARY"@, t.subject), t);
    lemma_before_status_keeps(ls, t, key, 1);
    lemma_plain_same(ls, l2, key);
    lemma_end_same(ls, l2);
    let v = if t.finished {
        "COMPLETED"@
    } else {
        "NEEDS-ACTION"@
    };
    let a = set_property(l2, key, v);
    lemma_own_line(key, v);
    lemma_set_own(l2, key, v);
    let l3 = with_status(l2, t);
    if t.finished {
        match t.finish_date {
            Some(d) => lemma_set_other(a, "COMPLETED"@, compact_date_text(d) + "T000000Z"@, key, 0),
            None => {},
        }
    } else {
        lemma_remove_other(a, "COMPLETED"@, key, 0);
    }
    let l4 = with_date(l3, "DTSTART"@, t.create_date);
    match t.create_date {
        Some(d) => lemma_set_other(l3, "DTSTART"@, compact_date_text(d), key, 0),
        None => lemma_remove_other(l3, "DTSTART"@, key, 0),
    }
    lemma_after_start_keeps(l4, t, now, key, 0, 1, 0);
    lemma_prop_in_same(a, updated_lines(ls, t, now), key);
}

/// Saving a task into its stored VTODO block writes the task's finish date: reading the
/// `COMPLETED` property of the saved lines gives, for a finished task with a finish date, that
/// date at midnight UTC (`YYYYMMDDT000000Z`); for a finished task without one, the completion
/// time that the block held; and nothing for a task that is not finished. The block's lines
/// must close it and hold no `COMPLETED` property behind leading white space.
pub proof fn lemma_saved_finish_date(ls: Seq<Seq<char>>, t: TaskView, now: Seq<char>)
    requires
        plain_key_lines(ls, "COMPLETED"@),
        has_end_line(ls),
        t.finish_date matches Some(d) ==> valid_date(d),
    ensures
        prop_in(updated_lines(ls, t, now), "COMPLETED"@) == (if !t.finished {
            None
        } else {
            match t.finish_date {
                Some(d) => Some(compact_date_text(d) + "T000000Z"@),
                None => prop_in(ls, "COMPLETED"@),
            }
        }),
{
    lemma_keys();
    reveal_strlit("T000000Z");
    let key = "COMPLETED"@;
    let l2 = with_priority(set_property(ls, "SUMMARY"@, t.subject), t);
    lemma_before_status_keeps(ls, t, key, 0);
    let l3 = with_status(l2, t);
    if t.finished {
        let a = set_property(l2, "STATUS"@, "COMPLETED"@);
        lemma_set_other(l2, "STATUS"@, "COMPLETED"@, key, 0);
        lemma_plain_same(ls, a, key);
        lemma_end_same(ls, a);
        match t.finish_date {
            Some(d) => {
                let v = compact_date_text(d) + "T000000Z"@;
                assert(v.last() == 'Z');
                lemma_own_line(key, v);
                lemma_set_own(a, key, v);
            },
            None => lemma_prop_in_same(ls, a, key),
        }
    } else {
        let a = set_property(l2, "STATUS"@, "NEEDS-ACTION"@);
        lemma_set_other(l2, "STATUS"@, "NEEDS-ACTION"@, key, 0);
        lemma_plain_same(ls, a, key);
        lemma_remove_own(a, key);
    }
    let l4 = with_date(l3, "DTSTART"@, t.create_date);
    match t.create_date {
        Some(d) => lemma_set_other(l3, "DTSTART"@, compact_date_text(d), key, 0),
        None => lemma_remove_other(l3, "DTSTART"@, key, 0),
    }
    lemma_after_start_keeps(l4, t, now, key, 0, 0, 1);
    lemma_prop_in_same(l3, updated_lines(ls, t, now), key);
}

/// Trailing white space aside, text after a prefix that does not end with white space is
/// trimmed on its own.
proof fn lemma_trim_end_after(a: Seq<char>, v: Seq<char>)
    requires
        a.len() > 0,
        !is_ws(a.last()),
    ensures
        trim_end(a + v) == a + trim_end(v),
    decreases v.len(),
{
    if v.len() > 0 && is_ws(v.last()) {
        assert((a + v).drop_last() =~= a + v.drop_last());
        lemma_trim_end_after(a, v.drop_last());
    } else if v.len() > 0 {
        assert((a + v).last() == v.last());
    } else {
        assert(a + v =~= a);
    }
}

/// The line that sets `key` to `v` gives `v` without its trailing white space for `key`.
proof fn lemma_own_line_trimmed(key: Seq<char>, v: Seq<char>)
    requires
        key.len() > 0,
        !is_ws(key[0]),
    ensures
        line_prop(prop_line(key, v), key) == Some(trim_end(v)),
{
    let a = key.push(':');
    let l = prop_line(key, v);
    assert(l[0] == key[0]);
    assert(trim_start(l) == l);
    lemma_trim_end_after(a, v);
    let t = trim(l);
    assert(t == a + trim_end(v));
    assert(t.take(a.len() as int) =~= a);
    assert(t.skip(key.len() as int + 1) =~= trim_end(v));
}

/// Saving a task into its stored VTODO block writes the task's text: reading the `SUMMARY`
/// property of the saved lines gives the task's subject, trailing white space aside. The
/// block's lines must close it and hold no `SUMMARY` property behind leading white space.
pub proof fn lemma_saved_subject(ls: Seq<Seq<char>>, t: TaskView, now: Seq<char>)
    requires
        plain_key_lines(ls, "SUMMARY"@),
        has_end_line(ls),
    ensures
        prop_in(updated_lines(ls, t, now), "SUMMARY"@) == Some(trim_end(t.subject)),
{
    lemma_keys();
    let key = "SUMMARY"@;
    let l1 = set_property(ls, key, t.subject);
    lemma_own_line_trimmed(key, t.subject);
    lemma_set_own(ls, key, t.subject);
    let l2 = with_priority(l1, t);
    match todotxt_to_ical(t.priority) {
        Some(q) => lemma_set_other(l1, "PRIORITY"@, decimal_text(q as nat), key, 0),
        None => lemma_remove_other(l1, "PRIORITY"@, key, 0),
    }
    let l3 = with_status(l2, t);
    if t.finished {
        let a = set_property(l2, "STATUS"@, "COMPLETED"@);
        lemma_set_other(l2, "STATUS"@, "COMPLETED"@, key, 1);
        match t.finish_date {
            Some(d) => lemma_set_other(a, "COMPLETED"@, compact_date_text(d) + "T000000Z"@, key, 0),
            None => {},
        }
    } else {
        let a = set_property(l2, "STATUS"@, "NEEDS-ACTION"@);
        lemma_set_other(l2, "STATUS"@, "NEEDS-ACTION"@, key, 1);
        lemma_remove_other(a, "COMPLETED"@, key, 0);
    }
    let l4 = with_date(l3, "DTSTART"@, t.create_date);
    match t.create_date {
        Some(d) => lemma_set_other(l3, "DTSTART"@, compact_date_text(d), key, 0),
        None => lemma_remove_other(l3, "DTSTART"@, key, 0),
    }
    lemma_after_start_keeps(l4, t, now, key, 0, 1, 0);
    lemma_prop_in_same(l1, updated_lines(ls, t, now), key);
}

/// Saving a task into its stored VTODO block writes the task's categories: reading the
/// `CATEGORIES` property of the saved lines gives the task's projects, contexts and hashtags as
/// one comma-separated list (`category_text`), trailing white space aside, and nothing when the
/// task has none. The block's lines must close it and hold no `CATEGORIES` property behind
/// leading white space.
pub proof fn lemma_saved_categories(ls: Seq<Seq<char>>, t: TaskView, now: Seq<char>)
    requires
        plain_key_lines(ls, "CATEGORIES"@),
        has_end_line(ls),
    ensures
        prop_in(updated_lines(ls, t, now), "CATEGORIES"@) == (if crate::ical::category_text(t).len() == 0 {
            None
        } else {
            Some(trim_end(crate::ical::category_text(t)))
        }),
{
    lemma_keys();
    let key = "CATEGORIES"@;
    let p = valued(key);
    let l2 = with_priority(set_property(ls, "SUMMARY"@, t.subject), t);
    lemma_before_status_keeps(ls, t, key, 0);
    let l3 = with_status(l2, t);
    if t.finished {
        let a = set_property(l2, "STATUS"@, "COMPLETED"@);
        lemma_set_other(l2, "STATUS"@, "COMPLETED"@, key, 0);
        match t.finish_date {
            Some(d) => lemma_set_other(a, "COMPLETED"@, compact_date_text(d) + "T000000Z"@, key, 1),
            None => {},
        }
    } else {
        let a = set_property(l2, "STATUS"@, "NEEDS-ACTION"@);
        lemma_set_other(l2, "STATUS"@, "NEEDS-ACTION"@, key, 0);
        lemma_remove_other(a, "COMPLETED"@, key, 1);
    }
    let l4 = with_date(l3, "DTSTART"@, t.create_date);
    match t.create_date {
        Some(d) => lemma_set_other(l3, "DTSTART"@, compact_date_text(d), key, 0),
        None => lemma_remove_other(l3, "DTSTART"@, key, 0),
    }
    let l5 = with_date(l4, "DUE"@, t.due_date);
    match t.due_date {
        Some(d) => lemma_set_other(l4, "DUE"@, compact_date_text(d), key, 0),
        None => lemma_remove_other(l4, "DUE"@, key, 0),
    }
    lemma_plain_same(ls, l5, key);
    lemma_end_same(ls, l5);
    let c = crate::ical::category_text(t);
    let l6 = with_categories(l5, t);
    if c.len() == 0 {
        lemma_remove_own(l5, key);
    } else {
        lemma_own_line_trimmed(key, c);
        lemma_set_own(l5, key, c);
    }
    lemma_other_key_all("SEQUENCE"@, key, 0);
    lemma_incremented_keeps(l6, p);
    lemma_set_other(incremented(l6), "LAST-MODIFIED"@, now, key, 0);
    lemma_prop_in_same(l6, updated_lines(ls, t, now), key);
}

/// No character of `s` is a line feed.
spec fn lf_free(s: Seq<char>) -> bool {
    forall|j: int| 0 <= j < s.len() ==> #[trigger] s[j] != '\n'
}

/// No line holds a line feed.
spec fn lf_free_lines(ls: Seq<Seq<char>>) -> bool {
    forall|i: int| 0 <= i < ls.len() ==> lf_free(#[trigger] ls[i])
}

/// Both ways of saying that a text holds no line feed agree.
proof fn lemma_lf_free_contains(s: Seq<char>)
    ensures
        lf_free(s) <==> !s.contains('\n'),
{
    if !lf_free(s) {
        let j = choose|j: int| 0 <= j < s.len() && s[j] == '\n';
        assert(s.contains('\n'));
    }
}

/// A property line of a key and a value without line feeds has none.
proof fn lemma_prop_line_lf_free(k: Seq<char>, v: Seq<char>)
    requires
        lf_free(k),
        lf_free(v),
    ensures
        lf_free(prop_line(k, v)),
{
    let l = prop_line(k, v);
    assert forall|j: int| 0 <= j < l.len() implies #[trigger] l[j] != '\n' by {
        if j < k.len() {
            assert(l[j] == k[j]);
        } else if j == k.len() {
            assert(l[j] == ':');
        } else {
            assert(l[j] == v[j - k.len() - 1]);
        }
    }
}

/// The decimal writing of a number holds digits only.
proof fn lemma_decimal_lf_free(n: nat)
    ensures
        lf_free(decimal_text(n)),
    decreases n,
{
    if n < 10 {
        lemma_digit_not_ws(n);
    } else {
        lemma_decimal_lf_free(n / 10);
        lemma_digit_not_ws(n % 10);
        let d = decimal_text(n / 10);
        let e = d.push(digit_char(n % 10));
        assert forall|j: int| 0 <= j < e.len() implies #[trigger] e[j] != '\n' by {
            if j < d.len() {
                assert(e[j] == d[j]);
            }
        }
    }
}

/// Two digits of a number below one hundred hold no line feed.
proof fn lemma_two_digits_lf_free(n: int)
    requires
        0 <= n < 100,
    ensures
        lf_free(two_digits(n)),
{
    lemma_digit_not_ws((n / 10) as nat);
    lemma_digit_not_ws((n % 10) as nat);
}

/// The text of a valid date holds no line feed.
proof fn lemma_date_lf_free(d: crate::date::Date)
    requires
        valid_date(d),
    ensures
        lf_free(compact_date_text(d)),
{
    let y = d.year as int;
    let a = if y < 0 { -y } else { y };
    if a <= 9999 {
        lemma_two_digits_lf_free(a / 100);
        lemma_two_digits_lf_free(a % 100);
    } else {
        lemma_decimal_lf_free(a as nat);
    }
    let yt = crate::date::year_text(y);
    assert(lf_free(yt)) by {
        if 0 <= y <= 9999 {
            let f = two_digits(y / 100) + two_digits(y % 100);
            assert forall|j: int| 0 <= j < f.len() implies #[trigger] f[j] != '\n' by {
                if j < 2 {
                    assert(f[j] == two_digits(y / 100)[j]);
                } else {
                    assert(f[j] == two_digits(y % 100)[j - 2]);
                }
            }
        } else {
            let sign = if y < 0 { seq!['-'] } else { seq!['+'] };
            let rest = if a <= 9999 { two_digits(a / 100) + two_digits(a % 100) } else { decimal_text(a as nat) };
            assert forall|j: int| 0 <= j < rest.len() implies #[trigger] rest[j] != '\n' by {
                if a <= 9999 {
                    if j < 2 {
                        assert(rest[j] == two_digits(a / 100)[j]);
                    } else {
                        assert(rest[j] == two_digits(a % 100)[j - 2]);
                    }
                }
            }
            assert(yt =~= sign + rest);
            assert forall|j: int| 0 <= j < yt.len() implies #[trigger] yt[j] != '\n' by {
                if j > 0 {
                    assert(yt[j] == rest[j - 1]);
                }
            }
        }
    }
    lemma_two_digits_lf_free(d.month as int);
    lemma_two_digits_lf_free(d.day as int);
    let m = two_digits(d.month as int);
    let dd = two_digits(d.day as int);
    let c = compact_date_text(d);
    assert forall|j: int| 0 <= j < c.len() implies #[trigger] c[j] != '\n' by {
        if j < yt.len() {
            assert(c[j] == yt[j]);
        } else if j < yt.len() + 2 {
            assert(c[j] == m[j - yt.len()]);
        } else {
            assert(c[j] == dd[j - yt.len() - 2]);
        }
    }
}

/// Setting a property to a value without line feeds keeps lines without them.
proof fn lemma_set_lf_free(ls: Seq<Seq<char>>, k: Seq<char>, v: Seq<char>)
    requires
        lf_free_lines(ls),
        lf_free(k),
        lf_free(v),
    ensures
        lf_free_lines(set_property(ls, k, v)),
{
    let x = prop_line(k, v);
    lemma_prop_line_lf_free(k, v);
    lemma_first_index(ls, |l: Seq<char>| is_prop_line(l, k));
    lemma_first_index(ls, |l: Seq<char>| is_end_line(l));
    let r = set_property(ls, k, v);
    match first_index(ls, |l: Seq<char>| is_prop_line(l, k)) {
        Some(i) => {
            assert forall|n: int| 0 <= n < r.len() implies lf_free(#[trigger] r[n]) by {
                if n != i {
                    assert(r[n] == ls[n]);
                }
            }
        },
        None => match first_index(ls, |l: Seq<char>| is_end_line(l)) {
            Some(j) => {
                assert forall|n: int| 0 <= n < r.len() implies lf_free(#[trigger] r[n]) by {
                    if n < j {
                        assert(r[n] == ls[n]);
                    } else if n > j {
                        assert(r[n] == ls[n - 1]);
                    }
                }
            },
            None => {},
        },
    }
}

/// Removing a property keeps lines without line feeds.
proof fn lemma_remove_lf_free(ls: Seq<Seq<char>>, k: Seq<char>)
    requires
        lf_free_lines(ls),
    ensures
        lf_free_lines(removed_property(ls, k)),
{
    let q = |l: Seq<char>| !is_prop_line(l, k);
    let r = ls.filter(q);
    assert forall|n: int| 0 <= n < r.len() implies lf_free(#[trigger] r[n]) by {
        assert(r.contains(r[n]));
        ls.lemma_filter_contains_rev(q, r[n]);
        let i = choose|i: int| 0 <= i < ls.len() && ls[i] == r[n];
        assert(lf_free(ls[i]));
    }
}

/// Raising the `SEQUENCE` number keeps lines without line feeds.
proof fn lemma_incremented_lf_free(ls: Seq<Seq<char>>)
    requires
        lf_free_lines(ls),
    ensures
        lf_free_lines(incremented(ls)),
{
    lemma_keys();
    let k = "SEQUENCE"@;
    lemma_first_index(ls, |l: Seq<char>| has_seq(l));
    lemma_first_index(ls, |l: Seq<char>| is_end_line(l));
    let r = incremented(ls);
    match first_index(ls, |l: Seq<char>| has_seq(l)) {
        Some(i) => {
            let v = decimal_text((seq_value(ls[i])->0 + 1) as nat);
            lemma_decimal_lf_free((seq_value(ls[i])->0 + 1) as nat);
            lemma_prop_line_lf_free(k, v);
            assert forall|n: int| 0 <= n < r.len() implies lf_free(#[trigger] r[n]) by {
                if n != i {
                    assert(r[n] == ls[n]);
                }
            }
        },
        None => match first_index(ls, |l: Seq<char>| is_end_line(l)) {
            Some(j) => {
                lemma_decimal_lf_free(1);
                lemma_prop_line_lf_free(k, decimal_text(1));
                assert forall|n: int| 0 <= n < r.len() implies lf_free(#[trigger] r[n]) by {
                    if n < j {
                        assert(r[n] == ls[n]);
                    } else if n > j {
                        assert(r[n] == ls[n - 1]);
                    }
                }
            },
            None => {},
        },
    }
}

/// The keys and fixed values that saving a task writes hold no line feed.
proof fn lemma_fixed_lf_free()
    ensures
        lf_free("SUMMARY"@),
        lf_free("PRIORITY"@),
        lf_free("STATUS"@),
        lf_free("COMPLETED"@),
        lf_free("DTSTART"@),
        lf_free("DUE"@),
        lf_free("CATEGORIES"@),
        lf_free("LAST-MODIFIED"@),
        lf_free("NEEDS-ACTION"@),
        lf_free("T000000Z"@),
{
    lemma_keys();
    reveal_strlit("NEEDS-ACTION");
    reveal_strlit("T000000Z");
}

/// Two texts without line feeds make one without.
proof fn lemma_concat_lf_free(a: Seq<char>, b: Seq<char>)
    requires
        lf_free(a),
        lf_free(b),
    ensures
        lf_free(a + b),
{
    let c = a + b;
    assert forall|j: int| 0 <= j < c.len() implies #[trigger] c[j] != '\n' by {
        if j < a.len() {
            assert(c[j] == a[j]);
        } else {
            assert(c[j] == b[j - a.len()]);
        }
    }
}

/// Saving a task whose texts hold no line feed into lines without line feeds gives lines
/// without them.
proof fn lemma_updated_lf_free(ls: Seq<Seq<char>>, t: TaskView, now: Seq<char>)
    requires
        lf_free_lines(ls),
        lf_free(t.subject),
        lf_free(crate::ical::category_text(t)),
        lf_free(now),
        crate::task::dates_valid(t),
    ensures
        lf_free_lines(updated_lines(ls, t, now)),
{
    lemma_fixed_lf_free();
    let l1 = set_property(ls, "SUMMARY"@, t.subject);
    lemma_set_lf_free(ls, "SUMMARY"@, t.subject);
    let l2 = with_priority(l1, t);
    match todotxt_to_ical(t.priority) {
        Some(q) => {
            lemma_decimal_lf_free(q as nat);
            lemma_set_lf_free(l1, "PRIORITY"@, decimal_text(q as nat));
        },
        None => lemma_remove_lf_free(l1, "PRIORITY"@),
    }
    let l3 = with_status(l2, t);
    if t.finished {
        let a = set_property(l2, "STATUS"@, "COMPLETED"@);
        lemma_set_lf_free(l2, "STATUS"@, "COMPLETED"@);
        match t.finish_date {
            Some(d) => {
                lemma_date_lf_free(d);
                lemma_concat_lf_free(compact_date_text(d), "T000000Z"@);
                lemma_set_lf_free(a, "COMPLETED"@, compact_date_text(d) + "T000000Z"@);
            },
            None => {},
        }
    } else {
        let a = set_property(l2, "STATUS"@, "NEEDS-ACTION"@);
        lemma_set_lf_free(l2, "STATUS"@, "NEEDS-ACTION"@);
        lemma_remove_lf_free(a, "COMPLETED"@);
    }
    let l4 = with_date(l3, "DTSTART"@, t.create_date);
    match t.create_date {
        Some(d) => {
            lemma_date_lf_free(d);
            lemma_set_lf_free(l3, "DTSTART"@, compact_date_text(d));
        },
        None => lemma_remove_lf_free(l3, "DTSTART"@),
    }
    let l5 = with_date(l4, "DUE"@, t.due_date);
    match t.due_date {
        Some(d) => {
            lemma_date_lf_free(d);
            lemma_set_lf_free(l4, "DUE"@, compact_date_text(d));
        },
        None => lemma_remove_lf_free(l4, "DUE"@),
    }
    let l6 = with_categories(l5, t);
    if crate::ical::category_text(t).len() == 0 {
        lemma_remove_lf_free(l5, "CATEGORIES"@);
    } else {
        lemma_set_lf_free(l5, "CATEGORIES"@, crate::ical::category_text(t));
    }
    lemma_incremented_lf_free(l6);
    lemma_set_lf_free(incremented(l6), "LAST-MODIFIED"@, now);
}

/// Lines without line feeds, each followed by a carriage return and a line feed, read back as
/// the same lines.
proof fn lemma_join_crlf_lines(ls: Seq<Seq<char>>)
    requires
        ls.len() > 0,
        lf_free_lines(ls),
    ensures
        lines(join(ls, crlf()) + crlf()) == ls,
    decreases ls.len(),
{
    let c = crlf();
    let z = ls.last();
    lemma_lf_free_contains(z);
    lemma_lines_crlf(z);
    assert(z + c =~= z + seq!['\r', '\n']);
    if ls.len() == 1 {
        assert(join(ls, c) == ls[0]);
        assert(seq![ls[0]] =~= ls);
    } else {
        let d = ls.drop_last();
        assert forall|i: int| 0 <= i < d.len() implies lf_free(#[trigger] d[i]) by {
            assert(d[i] == ls[i]);
        }
        lemma_join_crlf_lines(d);
        let x = join(d, c) + c;
        assert(join(ls, c) == join(d, c) + c + z);
        assert(join(ls, c) + c =~= x + (z + c));
        assert(x.last() == '\n');
        lemma_lines_append(x, z + c);
        assert(d + seq![z] =~= ls);
    }
}

/// An empty line gives no value for any key.
proof fn lemma_empty_line_no_value(key: Seq<char>)
    ensures
        line_prop(Seq::<char>::empty(), key) is None,
{
    let e = Seq::<char>::empty();
    assert(trim_start(e) == e);
    assert(trim_end(e) == e);
    assert(trim(e) == e);
}

/// Lines without line feeds joined into a text that ends with a line break give, read back,
/// the same value for every key.
proof fn lemma_text_prop(ls: Seq<Seq<char>>, key: Seq<char>)
    requires
        lf_free_lines(ls),
    ensures
        prop_in(lines(with_final_crlf(join(ls, crlf()))), key) == prop_in(ls, key),
{
    let c = crlf();
    let e = Seq::<char>::empty();
    lemma_empty_line_no_value(key);
    if ls.len() == 0 {
        assert(join(ls, c) == e);
        assert(!ends_with(e, c));
        assert(with_final_crlf(join(ls, c)) =~= e + seq!['\r', '\n']);
        lemma_lf_free_contains(e);
        lemma_lines_crlf(e);
        let r = seq![e];
        assert(prop_in(r, key) == prop_in(r.skip(1), key));
        assert(r.skip(1).len() == 0);
    } else if !ends_with(join(ls, c), c) {
        lemma_join_crlf_lines(ls);
    } else {
        let j = join(ls, c);
        let z = ls.last();
        assert(lf_free(z));
        if ls.len() == 1 {
            assert(j == z);
            assert(j[j.len() - 1] == j.skip(j.len() - 2)[1]);
            assert(false);
        }
        let d = ls.drop_last();
        assert(j == join(d, c) + c + z);
        if z.len() > 0 {
            assert(j[j.len() - 1] == j.skip(j.len() - 2)[1]);
            assert(j[j.len() - 1] == z[z.len() - 1]);
            assert(false);
        }
        assert(z =~= e);
        assert(j =~= join(d, c) + c);
        assert(with_final_crlf(j) == j);
        assert forall|i: int| 0 <= i < d.len() implies lf_free(#[trigger] d[i]) by {
            assert(d[i] == ls[i]);
        }
        lemma_join_crlf_lines(d);
        let p = valued(key);
        reveal(Seq::filter);
        assert(ls.drop_last() =~= d);
        assert(!p(ls.last()));
        assert(ls.filter(p) == d.filter(p));
        lemma_prop_in_same(d, ls, key);
    }
}

/// Reading a saved VTODO block back gives, for every key, the value that the saved lines give:
/// the text that saving writes (`updated_text`) is the saved lines (`updated_lines`), each
/// ended by a line break. This holds when the task's text, its categories and the time hold no
/// line feed and the task's dates are valid.
pub proof fn lemma_saved_text_reads_back(raw: Seq<char>, t: TaskView, now: Seq<char>, key: Seq<char>)
    requires
        !t.subject.contains('\n'),
        !crate::ical::category_text(t).contains('\n'),
        !now.contains('\n'),
        crate::task::dates_valid(t),
    ensures
        prop_value(updated_text(raw, t, now), key) == prop_in(updated_lines(lines(raw), t, now), key),
{
    lemma_lf_free_contains(t.subject);
    lemma_lf_free_contains(crate::ical::category_text(t));
    lemma_lf_free_contains(now);
    let ls = lines(raw);
    lemma_lines_no_lf(raw);
    assert forall|i: int| 0 <= i < ls.len() implies lf_free(#[trigger] ls[i]) by {
        lemma_lf_free_contains(ls[i]);
    }
    lemma_updated_lf_free(ls, t, now);
    lemma_text_prop(updated_lines(ls, t, now), key);
}

/// Saving a task into its stored VTODO block and reading the block back gives the task's due
/// date: the `DUE` property of the saved text is the due date written as year, month and day
/// (`YYYYMMDD`), and there is none when the task has no due date. The block's lines must
/// close it and hold no `DUE` property behind leading white space; the task's text, its
/// categories and the time must hold no line feed, and its dates must be valid.
pub proof fn lemma_saved_text_due(raw: Seq<char>, t: TaskView, now: Seq<char>)
    requires
        plain_key_lines(lines(raw), "DUE"@),
        has_end_line(lines(raw)),
        !t.subject.contains('\n'),
        !crate::ical::category_text(t).contains('\n'),
        !now.contains('\n'),
        crate::task::dates_valid(t),
    ensures
        prop_value(updated_text(raw, t, now), "DUE"@) == (match t.due_date {
            Some(d) => Some(compact_date_text(d)),
            None => None,
        }),
{
    lemma_saved_text_reads_back(raw, t, now, "DUE"@);
    lemma_saved_due(lines(raw), t, now);
}

/// Saving a task into its stored VTODO block and reading the block back gives the task's
/// priority as iCalendar holds it: the `PRIORITY` property of the saved text is `1` to `4` for
/// the priorities A to D, and there is none for any other priority or none, so that the
/// priority read back is the task's when it is A to D and no priority otherwise. The block's
/// lines must close it and hold no `PRIORITY` property behind leading white space; the task's
/// text, its categories and the time must hold no line feed, and its dates must be valid.
pub proof fn lemma_saved_text_priority(raw: Seq<char>, t: TaskView, now: Seq<char>)
    requires
        plain_key_lines(lines(raw), "PRIORITY"@),
        has_end_line(lines(raw)),
        !t.subject.contains('\n'),
        !crate::ical::category_text(t).contains('\n'),
        !now.contains('\n'),
        crate::task::dates_valid(t),
    ensures
        prop_value(updated_text(raw, t, now), "PRIORITY"@) == (match todotxt_to_ical(t.priority) {
            Some(q) => Some(decimal_text(q as nat)),
            None => None,
        }),
        priority_of(prop_value(updated_text(raw, t, now), "PRIORITY"@)) == (if t.priority <= 3 {
            t.priority
        } else {
            LOWEST_PRIORITY
        }),
{
    lemma_saved_text_reads_back(raw, t, now, "PRIORITY"@);
    lemma_saved_priority(lines(raw), t, now);
}

} // verus!
