use vstd::prelude::*;
use crate::date::{Date, compact_date_text, format_compact_date};
use crate::decimal::{decimal_text, u32_text};
use crate::date::{compact_date, parse_compact_date};
use crate::lines::{
    join, join_strs, lines, lines_of, starts_with, trim, trim_str, split_on, split_str, skip_str,
    take_str, index_of, find_char, starts_with_str, lines_weight, lemma_lines_weight,
    lemma_lines_weight_step, lemma_lines_weight_nonneg, is_ws, lemma_index_of_none, lemma_split_join,
};
use crate::decimal::parse_u32;
use crate::decimal::is_digit;
use crate::decimal::parse_u32_str;
use crate::text::{str_eq, copy_string, to_string, concat_str};
use crate::task::{tag_views, LOWEST_PRIORITY};
use crate::todo::ToDo;
use vstd::utf8::{valid_utf8, decode_utf8, encode_utf8};
use crate::encoding::{base64_of_text, base64_bytes, base64_encode, base64_decode, string_from_utf8};
use crate::task::{Task, TaskView, dates_valid};
use crate::text::{chars_of, views, push_char, push_str};
use crate::vtodo::{
    first_index, has_seq, incremented, is_prop_line, lemma_filter_filter, lemma_filter_insert,
    lemma_filter_update, lemma_first_index, lemma_first_index_filter, prop_line, removed_property,
    seq_bounded, seq_value, set_property, increment_sequence, remove_property, set_or_update_property,
    is_end_line, lemma_set_keeps, lemma_remove_keeps, lemma_not_seq, lemma_seq_bounded_same, lemma_prop_line_is_prop,
};

verus! {

/// The todo.txt priority for an iCalendar priority: 1 to 4 become A to D, anything else no
/// priority.
pub open spec fn ical_to_todotxt(p: u32) -> u8 {
    if 1 <= p <= 4 {
        (p - 1) as u8
    } else {
        26
    }
}

/// The iCalendar priority for a todo.txt priority: A to D become 1 to 4, anything else none.
pub open spec fn todotxt_to_ical(p: u8) -> Option<u32> {
    if p <= 3 {
        Some((p + 1) as u32)
    } else {
        None
    }
}

/// A todo.txt priority that iCalendar can hold comes back unchanged through it, and an
/// iCalendar priority from 1 to 4 comes back unchanged through todo.txt.
pub proof fn lemma_priority_round_trip(p: u8, q: u32)
    ensures
        todotxt_to_ical(p) matches Some(i) ==> ical_to_todotxt(i) == p,
        1 <= q <= 4 ==> todotxt_to_ical(ical_to_todotxt(q)) == Some(q),
{
}

/// Converts an iCalendar priority to a todo.txt priority (see `ical_to_todotxt`).
pub fn ical_priority_to_todotxt(ical_priority: u32) -> (r: u8)
    ensures
        r == ical_to_todotxt(ical_priority),
{
    if 1 <= ical_priority && ical_priority <= 4 {
        (ical_priority - 1) as u8
    } else {
        26
    }
}

/// Converts a todo.txt priority to an iCalendar priority (see `todotxt_to_ical`).
pub fn todotxt_priority_to_ical(priority: u8) -> (r: Option<u32>)
    ensures
        r == todotxt_to_ical(priority),
{
    if priority <= 3 {
        Some(priority as u32 + 1)
    } else {
        None
    }
}

/// Each name of `v` with `c` before it.
pub open spec fn prefixed(c: char, v: Seq<Seq<char>>) -> Seq<Seq<char>> {
    v.map_values(|s: Seq<char>| seq![c] + s)
}

/// The entries of a task's `CATEGORIES`: its projects with '+', its contexts with '@' and its
/// hashtags with '#' before them.
pub open spec fn category_parts(t: TaskView) -> Seq<Seq<char>> {
    prefixed('+', t.projects) + prefixed('@', t.contexts) + prefixed('#', t.hashtags)
}

/// The `CATEGORIES` value of a task: its entries joined by commas.
pub open spec fn category_text(t: TaskView) -> Seq<char> {
    join(category_parts(t), seq![','])
}

/// Appends to `parts` each name of `names` with `c` before it.
fn push_prefixed(parts: &mut Vec<String>, c: char, names: &Vec<String>)
    ensures
        views(final(parts)@) == views(old(parts)@) + prefixed(c, views(names@)),
{
    let mut i: usize = 0;
    while i < names.len()
        invariant
            i <= names@.len(),
            views(parts@) == views(old(parts)@) + prefixed(c, views(names@).take(i as int)),
        decreases names@.len() - i,
    {
        let ghost before = parts@;
        let mut s = String::new();
        push_char(&mut s, c);
        push_str(&mut s, names[i].as_str());
        assert(s@ =~= seq![c] + names@[i as int]@);
        parts.push(s);
        i = i + 1;
        proof {
            let t = views(names@).take(i as int);
            assert(t =~= views(names@).take(i - 1).push(names@[i - 1]@));
            assert(prefixed(c, t) =~= prefixed(c, views(names@).take(i - 1)).push(seq![c] + names@[i - 1]@));
            assert(views(parts@) =~= views(before).push(seq![c] + names@[i - 1]@));
            assert(views(parts@) =~= views(old(parts)@) + prefixed(c, views(names@).take(i as int)));
        }
    }
    assert(views(names@).take(names@.len() as int) =~= views(names@));
}

/// The `CATEGORIES` value of a task (see `category_text`).
pub fn build_categories(task: &Task) -> (s: String)
    ensures
        s@ == category_text(task@),
{
    let mut parts: Vec<String> = Vec::new();
    push_prefixed(&mut parts, '+', &task.projects);
    push_prefixed(&mut parts, '@', &task.contexts);
    push_prefixed(&mut parts, '#', &task.hashtags);
    proof {
        reveal_strlit(",");
        assert(","@ =~= seq![',']);
        assert(views(parts@) =~= category_parts(task@));
    }
    join_strs(&parts, ",")
}

/// The projects, contexts and hashtags that a list of trimmed `CATEGORIES` entries gives:
/// an empty entry is skipped, '+' marks a project, '@' a context, '#' a hashtag, and an entry
/// without a mark is a context.
pub open spec fn classified(entries: Seq<Seq<char>>) -> (Seq<Seq<char>>, Seq<Seq<char>>, Seq<Seq<char>>)
    decreases entries.len(),
{
    if entries.len() == 0 {
        (seq![], seq![], seq![])
    } else {
        let (p, c, h) = classified(entries.drop_last());
        let x = entries.last();
        if x.len() == 0 {
            (p, c, h)
        } else if x[0] == '+' {
            (p.push(x.skip(1)), c, h)
        } else if x[0] == '@' {
            (p, c.push(x.skip(1)), h)
        } else if x[0] == '#' {
            (p, c, h.push(x.skip(1)))
        } else {
            (p, c.push(x), h)
        }
    }
}

/// A category name that a `CATEGORIES` value carries as it is: without commas and without
/// white space at its end.
pub open spec fn plain_name(n: Seq<char>) -> bool {
    !n.contains(',') && (n.len() == 0 || !is_ws(n.last()))
}

/// Classifying entries and then the marked names of one more category adds those names to
/// that category.
proof fn lemma_classified_prefixed(a: Seq<Seq<char>>, c: char, names: Seq<Seq<char>>)
    requires
        c == '+' || c == '@' || c == '#',
    ensures
        classified(a + prefixed(c, names)) == ({
            let (p, x, h) = classified(a);
            if c == '+' {
                (p + names, x, h)
            } else if c == '@' {
                (p, x + names, h)
            } else {
                (p, x, h + names)
            }
        }),
    decreases names.len(),
{
    if names.len() == 0 {
        assert(a + prefixed(c, names) =~= a);
        let (p, x, h) = classified(a);
        assert(p + names =~= p);
        assert(x + names =~= x);
        assert(h + names =~= h);
    } else {
        let d = names.drop_last();
        let n = names.last();
        lemma_classified_prefixed(a, c, d);
        let all = a + prefixed(c, names);
        assert(all.drop_last() =~= a + prefixed(c, d));
        assert(all.last() == seq![c] + n);
        assert((seq![c] + n).skip(1) =~= n);
        let (p, x, h) = classified(a);
        assert(p + d.push(n) =~= (p + d).push(n));
        assert(x + d.push(n) =~= (x + d).push(n));
        assert(h + d.push(n) =~= (h + d).push(n));
        assert(d.push(n) =~= names);
    }
}

/// The `CATEGORIES` value written for a task reads back as its projects, contexts and
/// hashtags, when every name is plain (see `plain_name`).
pub proof fn lemma_categories_round_trip(t: TaskView)
    requires
        forall|i: int| 0 <= i < t.projects.len() ==> plain_name(#[trigger] t.projects[i]),
        forall|i: int| 0 <= i < t.contexts.len() ==> plain_name(#[trigger] t.contexts[i]),
        forall|i: int| 0 <= i < t.hashtags.len() ==> plain_name(#[trigger] t.hashtags[i]),
    ensures
        classified(category_entries(category_text(t))) == (t.projects, t.contexts, t.hashtags),
{
    let parts = category_parts(t);
    let e = Seq::<Seq<char>>::empty();
    lemma_classified_prefixed(e, '+', t.projects);
    lemma_classified_prefixed(prefixed('+', t.projects), '@', t.contexts);
    lemma_classified_prefixed(prefixed('+', t.projects) + prefixed('@', t.contexts), '#', t.hashtags);
    assert(e + prefixed('+', t.projects) =~= prefixed('+', t.projects));
    let (p0, c0, h0) = classified(e);
    assert(p0 + t.projects =~= t.projects);
    assert(c0 + t.contexts =~= t.contexts);
    assert(h0 + t.hashtags =~= t.hashtags);
    assert(classified(parts) == (t.projects, t.contexts, t.hashtags));
    // Every part is a mark and a plain name: it has no comma and trimming keeps it.
    assert forall|i: int| 0 <= i < parts.len() implies !(#[trigger] parts[i]).contains(',') && trim(parts[i]) == parts[i] by {
        let np = t.projects.len() as int;
        let nc = t.contexts.len() as int;
        let (m, n) = if i < np {
            ('+', t.projects[i])
        } else if i < np + nc {
            ('@', t.contexts[i - np])
        } else {
            ('#', t.hashtags[i - np - nc])
        };
        assert(parts[i] == seq![m] + n);
        assert(plain_name(n));
        if parts[i].contains(',') {
            let k = choose|k: int| 0 <= k < parts[i].len() && parts[i][k] == ',';
            assert(k > 0);
            assert(n[k - 1] == ',');
            assert(n.contains(','));
        }
        assert(!is_ws(parts[i][0]));
        assert(!is_ws(parts[i].last()));
    }
    if parts.len() == 0 {
        assert(category_text(t) == Seq::<char>::empty());
        lemma_index_of_none(Seq::<char>::empty(), ',');
        assert(split_on(Seq::<char>::empty(), ',') == seq![Seq::<char>::empty()]);
        let es = category_entries(category_text(t));
        assert(trim(Seq::<char>::empty()) == Seq::<char>::empty());
        assert(es =~= seq![Seq::<char>::empty()]);
        assert(es.drop_last() =~= parts);
    } else {
        lemma_split_join(parts, ',');
        assert(category_entries(category_text(t)) =~= parts);
    }
}

/// The entries of a `CATEGORIES` value: the pieces between its commas, trimmed.
pub open spec fn category_entries(s: Seq<char>) -> Seq<Seq<char>> {
    split_on(s, ',').map_values(|e: Seq<char>| trim(e))
}

/// Splits a `CATEGORIES` value into projects, contexts and hashtags (see `classified`).
pub fn parse_categories(categories: &str) -> (r: (Vec<String>, Vec<String>, Vec<String>))
    ensures
        (views(r.0@), views(r.1@), views(r.2@)) == classified(category_entries(categories@)),
{
    let pieces = split_str(categories, ',');
    let ghost es = category_entries(categories@);
    let mut projects: Vec<String> = Vec::new();
    let mut contexts: Vec<String> = Vec::new();
    let mut hashtags: Vec<String> = Vec::new();
    let mut i: usize = 0;
    while i < pieces.len()
        invariant
            i <= pieces@.len(),
            views(pieces@) == split_on(categories@, ','),
            es == category_entries(categories@),
            es.len() == pieces@.len(),
            (views(projects@), views(contexts@), views(hashtags@)) == classified(es.take(i as int)),
        decreases pieces@.len() - i,
    {
        let t = trim_str(pieces[i].as_str());
        let v = chars_of(t.as_str());
        proof {
            assert(es[i as int] == trim(pieces@[i as int]@));
            assert(es.take(i + 1).drop_last() =~= es.take(i as int));
            assert(es.take(i + 1).last() == t@);
        }
        let ghost (p0, c0, h0) = classified(es.take(i as int));
        if v.len() == 0 {
        } else if v[0] == '+' {
            projects.push(skip_str(t.as_str(), 1));
            assert(views(projects@) =~= p0.push(t@.skip(1)));
        } else if v[0] == '@' {
            contexts.push(skip_str(t.as_str(), 1));
            assert(views(contexts@) =~= c0.push(t@.skip(1)));
        } else if v[0] == '#' {
            hashtags.push(skip_str(t.as_str(), 1));
            assert(views(hashtags@) =~= h0.push(t@.skip(1)));
        } else {
            contexts.push(t);
            assert(views(contexts@) =~= c0.push(v@));
        }
        i = i + 1;
    }
    assert(es.take(pieces@.len() as int) =~= es);
    (projects, contexts, hashtags)
}

/// The lines with the priority of `t` set, or removed when it has none.
pub open spec fn with_priority(ls: Seq<Seq<char>>, t: TaskView) -> Seq<Seq<char>> {
    match todotxt_to_ical(t.priority) {
        Some(p) => set_property(ls, "PRIORITY"@, decimal_text(p as nat)),
        None => removed_property(ls, "PRIORITY"@),
    }
}

/// The lines with the status of `t`: a finished task is `COMPLETED`, with its finish date
/// when it has one; another `NEEDS-ACTION`, without a completion date.
pub open spec fn with_status(ls: Seq<Seq<char>>, t: TaskView) -> Seq<Seq<char>> {
    if t.finished {
        let a = set_property(ls, "STATUS"@, "COMPLETED"@);
        match t.finish_date {
            Some(d) => set_property(a, "COMPLETED"@, compact_date_text(d) + "T000000Z"@),
            None => a,
        }
    } else {
        removed_property(set_property(ls, "STATUS"@, "NEEDS-ACTION"@), "COMPLETED"@)
    }
}

/// The lines with date property `key` set to `d`, or removed when there is none.
pub open spec fn with_date(ls: Seq<Seq<char>>, key: Seq<char>, d: Option<Date>) -> Seq<Seq<char>> {
    match d {
        Some(x) => set_property(ls, key, compact_date_text(x)),
        None => removed_property(ls, key),
    }
}

/// The lines with the categories of `t`, or without `CATEGORIES` when it has none.
pub open spec fn with_categories(ls: Seq<Seq<char>>, t: TaskView) -> Seq<Seq<char>> {
    if category_text(t).len() == 0 {
        removed_property(ls, "CATEGORIES"@)
    } else {
        set_property(ls, "CATEGORIES"@, category_text(t))
    }
}

/// The lines with every property that a task carries set from `t`.
pub open spec fn task_fields_set(ls: Seq<Seq<char>>, t: TaskView) -> Seq<Seq<char>> {
    let l1 = set_property(ls, "SUMMARY"@, t.subject);
    let l2 = with_priority(l1, t);
    let l3 = with_status(l2, t);
    let l4 = with_date(l3, "DTSTART"@, t.create_date);
    let l5 = with_date(l4, "DUE"@, t.due_date);
    with_categories(l5, t)
}

/// The lines of a stored VTODO after saving task `t` at time `now`: the task's properties set,
/// the `SEQUENCE` number raised and `LAST-MODIFIED` set to `now`.
pub open spec fn updated_lines(ls: Seq<Seq<char>>, t: TaskView, now: Seq<char>) -> Seq<Seq<char>> {
    set_property(incremented(task_fields_set(ls, t)), "LAST-MODIFIED"@, now)
}

/// A carriage return and a line feed.
pub open spec fn crlf() -> Seq<char> {
    seq!['\r', '\n']
}

/// `s` ends with `suffix`.
pub open spec fn ends_with(s: Seq<char>, suffix: Seq<char>) -> bool {
    suffix.len() <= s.len() && s.skip(s.len() - suffix.len()) == suffix
}

/// `s`, with a line break added when it does not end with one.
pub open spec fn with_final_crlf(s: Seq<char>) -> Seq<char> {
    if ends_with(s, crlf()) {
        s
    } else {
        s + crlf()
    }
}

/// The text of a stored VTODO after saving task `t` at time `now`: its updated lines joined
/// by line breaks, ending with one.
pub open spec fn updated_text(raw: Seq<char>, t: TaskView, now: Seq<char>) -> Seq<char> {
    with_final_crlf(join(updated_lines(lines(raw), t, now), crlf()))
}

/// Whether the text ends with a carriage return and a line feed.
pub fn ends_with_crlf(s: &str) -> (b: bool)
    ensures
        b == ends_with(s@, crlf()),
{
    let v = chars_of(s);
    let n = v.len();
    if n < 2 {
        return false;
    }
    let r = v[n - 2] == '\r' && v[n - 1] == '\n';
    proof {
        if r {
            assert(s@.skip(n - 2) =~= crlf());
        } else {
            assert(s@.skip(n - 2)[0] == s@[n - 2]);
            assert(s@.skip(n - 2)[1] == s@[n - 1]);
        }
    }
    r
}

/// The line is one of the properties that saving a task rewrites.
pub open spec fn is_managed(l: Seq<char>) -> bool {
    ||| is_prop_line(l, "SUMMARY"@)
    ||| is_prop_line(l, "PRIORITY"@)
    ||| is_prop_line(l, "STATUS"@)
    ||| is_prop_line(l, "COMPLETED"@)
    ||| is_prop_line(l, "DTSTART"@)
    ||| is_prop_line(l, "DUE"@)
    ||| is_prop_line(l, "CATEGORIES"@)
    ||| is_prop_line(l, "SEQUENCE"@)
    ||| is_prop_line(l, "LAST-MODIFIED"@)
}

/// The lines that saving a task leaves as they are.
pub open spec fn unmanaged() -> spec_fn(Seq<char>) -> bool {
    |l: Seq<char>| !is_managed(l)
}

/// Setting the task's fields keeps the lines that `p` keeps, when `p` keeps no line of a
/// property that a task carries.
proof fn lemma_fields_keep(ls: Seq<Seq<char>>, t: TaskView, p: spec_fn(Seq<char>) -> bool)
    requires
        forall|l: Seq<char>| #[trigger] is_prop_line(l, "SUMMARY"@) ==> !p(l),
        forall|l: Seq<char>| #[trigger] is_prop_line(l, "PRIORITY"@) ==> !p(l),
        forall|l: Seq<char>| #[trigger] is_prop_line(l, "STATUS"@) ==> !p(l),
        forall|l: Seq<char>| #[trigger] is_prop_line(l, "COMPLETED"@) ==> !p(l),
        forall|l: Seq<char>| #[trigger] is_prop_line(l, "DTSTART"@) ==> !p(l),
        forall|l: Seq<char>| #[trigger] is_prop_line(l, "DUE"@) ==> !p(l),
        forall|l: Seq<char>| #[trigger] is_prop_line(l, "CATEGORIES"@) ==> !p(l),
    ensures
        task_fields_set(ls, t).filter(p) == ls.filter(p),
{
    let l1 = set_property(ls, "SUMMARY"@, t.subject);
    lemma_set_keeps(ls, "SUMMARY"@, t.subject, p);
    let l2 = with_priority(l1, t);
    match todotxt_to_ical(t.priority) {
        Some(q) => lemma_set_keeps(l1, "PRIORITY"@, decimal_text(q as nat), p),
        None => lemma_remove_keeps(l1, "PRIORITY"@, p),
    }
    let l3 = with_status(l2, t);
    if t.finished {
        let a = set_property(l2, "STATUS"@, "COMPLETED"@);
        lemma_set_keeps(l2, "STATUS"@, "COMPLETED"@, p);
        match t.finish_date {
            Some(d) => lemma_set_keeps(a, "COMPLETED"@, compact_date_text(d) + "T000000Z"@, p),
            None => {},
        }
    } else {
        let a = set_property(l2, "STATUS"@, "NEEDS-ACTION"@);
        lemma_set_keeps(l2, "STATUS"@, "NEEDS-ACTION"@, p);
        lemma_remove_keeps(a, "COMPLETED"@, p);
    }
    let l4 = with_date(l3, "DTSTART"@, t.create_date);
    match t.create_date {
        Some(d) => lemma_set_keeps(l3, "DTSTART"@, compact_date_text(d), p),
        None => lemma_remove_keeps(l3, "DTSTART"@, p),
    }
    let l5 = with_date(l4, "DUE"@, t.due_date);
    match t.due_date {
        Some(d) => lemma_set_keeps(l4, "DUE"@, compact_date_text(d), p),
        None => lemma_remove_keeps(l4, "DUE"@, p),
    }
    if category_text(t).len() == 0 {
        lemma_remove_keeps(l5, "CATEGORIES"@, p);
    } else {
        lemma_set_keeps(l5, "CATEGORIES"@, category_text(t), p);
    }
}

/// Setting the task's fields leaves the `SEQUENCE` lines as they were.
proof fn lemma_fields_keep_sequence(ls: Seq<Seq<char>>, t: TaskView)
    ensures
        seq_bounded(task_fields_set(ls, t)) == seq_bounded(ls),
{
    reveal_strlit("SEQUENCE");
    reveal_strlit("SUMMARY");
    reveal_strlit("PRIORITY");
    reveal_strlit("STATUS");
    reveal_strlit("COMPLETED");
    reveal_strlit("DTSTART");
    reveal_strlit("DUE");
    reveal_strlit("CATEGORIES");
    lemma_not_seq("SUMMARY"@, 1);
    lemma_not_seq("PRIORITY"@, 0);
    lemma_not_seq("STATUS"@, 1);
    lemma_not_seq("COMPLETED"@, 0);
    lemma_not_seq("DTSTART"@, 0);
    lemma_not_seq("DUE"@, 0);
    lemma_not_seq("CATEGORIES"@, 0);
    lemma_fields_keep(ls, t, |l: Seq<char>| has_seq(l));
    lemma_seq_bounded_same(task_fields_set(ls, t), ls);
}

/// Saving a task into its stored VTODO keeps every line that is not one of the rewritten
/// properties (`is_managed`), in the same order: what the task does not carry, such as a
/// description, the `UID` or a custom `X-` property, survives the save.
pub proof fn lemma_update_keeps_other_lines(ls: Seq<Seq<char>>, t: TaskView, now: Seq<char>)
    ensures
        updated_lines(ls, t, now).filter(unmanaged()) == ls.filter(unmanaged()),
{
    let p = unmanaged();
    lemma_fields_keep(ls, t, p);
    let l6 = task_fields_set(ls, t);
    let hs = |l: Seq<char>| has_seq(l);
    lemma_first_index(l6, hs);
    lemma_first_index(l6, |l: Seq<char>| is_end_line(l));
    lemma_prop_line_is_prop("SEQUENCE"@, decimal_text(1));
    match first_index(l6, hs) {
        Some(i) => {
            let x = prop_line("SEQUENCE"@, decimal_text((seq_value(l6[i])->0 + 1) as nat));
            lemma_prop_line_is_prop("SEQUENCE"@, decimal_text((seq_value(l6[i])->0 + 1) as nat));
            assert(is_prop_line(l6[i], "SEQUENCE"@));
            lemma_filter_update(l6, i, x, p);
        },
        None => match first_index(l6, |l: Seq<char>| is_end_line(l)) {
            Some(j) => lemma_filter_insert(l6, j, prop_line("SEQUENCE"@, decimal_text(1)), p),
            None => {},
        },
    }
    lemma_set_keeps(incremented(l6), "LAST-MODIFIED"@, now, p);
}

/// The text of a stored VTODO after saving task `task` into it at time `now` (see
/// `updated_text`).
pub fn update_vtodo_properties(raw: &str, task: &Task, now: &str) -> (r: String)
    requires
        dates_valid(task@),
        seq_bounded(lines(raw@)),
    ensures
        r@ == updated_text(raw@, task@, now@),
{
    let mut ls = lines_of(raw);
    let ghost l0 = views(ls@);
    set_or_update_property(&mut ls, "SUMMARY", task.subject.as_str());
    match todotxt_priority_to_ical(task.priority) {
        Some(p) => {
            let t = u32_text(p);
            set_or_update_property(&mut ls, "PRIORITY", t.as_str());
        },
        None => remove_property(&mut ls, "PRIORITY"),
    }
    if task.finished {
        set_or_update_property(&mut ls, "STATUS", "COMPLETED");
        match task.finish_date {
            Some(d) => {
                let mut v = format_compact_date(d);
                push_str(&mut v, "T000000Z");
                set_or_update_property(&mut ls, "COMPLETED", v.as_str());
            },
            None => {},
        }
    } else {
        set_or_update_property(&mut ls, "STATUS", "NEEDS-ACTION");
        remove_property(&mut ls, "COMPLETED");
    }
    match task.create_date {
        Some(d) => {
            let v = format_compact_date(d);
            set_or_update_property(&mut ls, "DTSTART", v.as_str());
        },
        None => remove_property(&mut ls, "DTSTART"),
    }
    match task.due_date {
        Some(d) => {
            let v = format_compact_date(d);
            set_or_update_property(&mut ls, "DUE", v.as_str());
        },
        None => remove_property(&mut ls, "DUE"),
    }
    let categories = build_categories(task);
    if categories.as_str().is_empty() {
        remove_property(&mut ls, "CATEGORIES");
    } else {
        set_or_update_property(&mut ls, "CATEGORIES", categories.as_str());
    }
    proof {
        assert(views(ls@) == task_fields_set(l0, task@));
        lemma_fields_keep_sequence(l0, task@);
    }
    increment_sequence(&mut ls);
    set_or_update_property(&mut ls, "LAST-MODIFIED", now);
    let mut result = join_strs(&ls, "\r\n");
    proof {
        reveal_strlit("\r\n");
        assert("\r\n"@ =~= crlf());
    }
    if !ends_with_crlf(result.as_str()) {
        push_str(&mut result, "\r\n");
    }
    result
}

/// The state of the scan for VTODO blocks after some lines: whether a block is open, the
/// text gathered so far, and the blocks found.
pub open spec fn scan_step(st: (bool, Seq<char>, Seq<Seq<char>>), line: Seq<char>) -> (bool, Seq<char>, Seq<Seq<char>>) {
    let t = trim(line);
    let opened = t == "BEGIN:VTODO"@;
    let inside = opened || st.0;
    let cur0 = if opened { seq![] } else { st.1 };
    let cur1 = if inside { cur0 + line + crlf() } else { cur0 };
    if inside && t == "END:VTODO"@ {
        (false, cur1, st.2.push(cur1))
    } else {
        (inside, cur1, st.2)
    }
}

/// The scan for VTODO blocks over lines, in order (see `scan_step`).
pub open spec fn scan(ls: Seq<Seq<char>>) -> (bool, Seq<char>, Seq<Seq<char>>)
    decreases ls.len(),
{
    if ls.len() == 0 {
        (false, seq![], seq![])
    } else {
        scan_step(scan(ls.drop_last()), ls.last())
    }
}

/// The VTODO blocks of an iCalendar text: from each line that reads `BEGIN:VTODO` to the next
/// that reads `END:VTODO` (white space aside), each line ended by a line break; lines outside
/// such blocks, a stray `END:VTODO` among them, give nothing.
pub open spec fn raw_vtodos(text: Seq<char>) -> Seq<Seq<char>> {
    scan(lines(text)).2
}

/// Extracts the VTODO blocks of an iCalendar text (see `raw_vtodos`).
pub fn extract_raw_vtodos(text: &str) -> (r: Vec<String>)
    ensures
        views(r@) == raw_vtodos(text@),
        forall|i: int| 0 <= i < r@.len() ==> (#[trigger] r@[i])@.len() <= 2 * text@.len() + 2,
{
    let lsv = lines_of(text);
    let ghost ls = views(lsv@);
    proof {
        lemma_lines_weight(text@);
        lemma_lines_weight_nonneg(ls);
        assert(ls.skip(0) =~= ls);
    }
    let mut results: Vec<String> = Vec::new();
    let mut in_vtodo = false;
    let mut current = String::new();
    let mut k: usize = 0;
    while k < lsv.len()
        invariant
            k <= lsv@.len(),
            ls == views(lsv@),
            ls == lines(text@),
            lines_weight(ls) <= text@.len() + 1,
            (in_vtodo, current@, views(results@)) == scan(ls.take(k as int)),
            current@.len() + 2 * lines_weight(ls.skip(k as int)) <= 2 * lines_weight(ls),
            forall|i: int| 0 <= i < results@.len() ==> (#[trigger] results@[i])@.len() <= 2 * lines_weight(ls),
        decreases lsv@.len() - k,
    {
        let line = &lsv[k];
        proof {
            lemma_lines_weight_step(ls, k as int);
            lemma_lines_weight_nonneg(ls.skip(k + 1));
            assert(ls.take(k + 1).drop_last() =~= ls.take(k as int));
            assert(ls.take(k + 1).last() == line@);
        }
        let ghost st = scan(ls.take(k as int));
        let trimmed = trim_str(line.as_str());
        if str_eq(trimmed.as_str(), "BEGIN:VTODO") {
            in_vtodo = true;
            current = String::new();
        }
        if in_vtodo {
            push_str(&mut current, line.as_str());
            push_str(&mut current, "\r\n");
            proof {
                reveal_strlit("\r\n");
                assert("\r\n"@ =~= crlf());
            }
        }
        if in_vtodo && str_eq(trimmed.as_str(), "END:VTODO") {
            in_vtodo = false;
            let ghost before = results@;
            results.push(copy_string(&current));
            assert(views(results@) =~= views(before).push(current@));
        }
        proof {
            assert((in_vtodo, current@, views(results@)) == scan_step(st, line@));
        }
        k = k + 1;
    }
    assert(ls.take(lsv@.len() as int) =~= ls);
    results
}

/// The value that a line gives for property `key`, white space aside: what follows `key:`,
/// or, for a property with parameters (`key;...`), what follows the first colon.
pub open spec fn line_prop(l: Seq<char>, key: Seq<char>) -> Option<Seq<char>> {
    let t = trim(l);
    if starts_with(t, key.push(':')) {
        Some(t.skip(key.len() as int + 1))
    } else if starts_with(t, key.push(';')) {
        match index_of(t, ':') {
            Some(p) => Some(t.skip(p + 1)),
            None => None,
        }
    } else {
        None
    }
}

/// The value of property `key` in the first of the lines that gives one.
pub open spec fn prop_in(ls: Seq<Seq<char>>, key: Seq<char>) -> Option<Seq<char>>
    decreases ls.len(),
{
    if ls.len() == 0 {
        None
    } else {
        match line_prop(ls[0], key) {
            Some(v) => Some(v),
            None => prop_in(ls.skip(1), key),
        }
    }
}

/// The value of property `key` in a VTODO block.
pub open spec fn prop_value(raw: Seq<char>, key: Seq<char>) -> Option<Seq<char>> {
    prop_in(lines(raw), key)
}

/// The value of property `key` in a VTODO block (see `prop_value`).
pub fn raw_property_value(raw: &str, key: &str) -> (r: Option<String>)
    ensures
        r matches Some(v) ==> prop_value(raw@, key@) == Some(v@),
        r is None ==> prop_value(raw@, key@) is None,
{
    let lsv = lines_of(raw);
    let ghost ls = views(lsv@);
    let colon = crate::vtodo::key_prefix(key, ':');
    let semi = crate::vtodo::key_prefix(key, ';');
    let n = chars_of(colon.as_str()).len();
    assert(ls.skip(0) =~= ls);
    let mut i: usize = 0;
    while i < lsv.len()
        invariant
            i <= lsv@.len(),
            ls == views(lsv@),
            ls == lines(raw@),
            colon@ == key@.push(':'),
            semi@ == key@.push(';'),
            n == key@.len() + 1,
            prop_in(ls, key@) == prop_in(ls.skip(i as int), key@),
        decreases lsv@.len() - i,
    {
        proof {
            assert(ls.skip(i as int)[0] == lsv@[i as int]@);
            assert(ls.skip(i as int).skip(1) =~= ls.skip(i + 1));
        }
        let t = trim_str(lsv[i].as_str());
        if starts_with_str(t.as_str(), colon.as_str()) {
            return Some(skip_str(t.as_str(), n));
        }
        if starts_with_str(t.as_str(), semi.as_str()) {
            match find_char(t.as_str(), ':') {
                Some(pos) => {
                    proof {
                        crate::lines::lemma_index_of_bound(t@, ':');
                    }
                    let tn = chars_of(t.as_str()).len();
                    assert(pos < tn);
                    return Some(skip_str(t.as_str(), pos + 1));
                },
                None => {},
            }
        }
        i = i + 1;
    }
    assert(ls.skip(lsv@.len() as int) =~= Seq::<Seq<char>>::empty());
    None
}

/// The date that an iCalendar `DATE` or `DATE-TIME` value gives: its first eight characters
/// read as year, month and day.
pub open spec fn ical_date(s: Seq<char>) -> Option<Date> {
    compact_date(if s.len() >= 8 { s.take(8) } else { s })
}

/// Reads the date of an iCalendar `DATE` or `DATE-TIME` value (see `ical_date`).
pub fn parse_ical_date(s: &str) -> (r: Option<Date>)
    ensures
        r == ical_date(s@),
        crate::date::valid_opt(r),
{
    let n = chars_of(s).len();
    if n >= 8 {
        let head = take_str(s, 8);
        parse_compact_date(head.as_str())
    } else {
        parse_compact_date(s)
    }
}

/// The value of the first tag named `key`.
pub open spec fn tag_value(tags: Seq<(Seq<char>, Seq<char>)>, key: Seq<char>) -> Option<Seq<char>>
    decreases tags.len(),
{
    if tags.len() == 0 {
        None
    } else if tags[0].0 == key {
        Some(tags[0].1)
    } else {
        tag_value(tags.skip(1), key)
    }
}

/// The value of the first tag named `key` (see `tag_value`).
pub fn get_tag(tags: &Vec<(String, String)>, key: &str) -> (r: Option<String>)
    ensures
        r matches Some(v) ==> tag_value(tag_views(tags@), key@) == Some(v@),
        r is None ==> tag_value(tag_views(tags@), key@) is None,
{
    let ghost tv = tag_views(tags@);
    assert(tv.skip(0) =~= tv);
    let mut i: usize = 0;
    while i < tags.len()
        invariant
            i <= tags@.len(),
            tv == tag_views(tags@),
            tag_value(tv, key@) == tag_value(tv.skip(i as int), key@),
        decreases tags@.len() - i,
    {
        proof {
            assert(tv.skip(i as int)[0] == tv[i as int]);
            assert(tv.skip(i as int).skip(1) =~= tv.skip(i + 1));
        }
        if str_eq(tags[i].0.as_str(), key) {
            return Some(copy_string(&tags[i].1));
        }
        i = i + 1;
    }
    assert(tv.skip(tags@.len() as int) =~= Seq::<(Seq<char>, Seq<char>)>::empty());
    None
}

/// The todo.txt priority that a `PRIORITY` value gives; none without a readable number.
pub open spec fn priority_of(v: Option<Seq<char>>) -> u8 {
    match v {
        Some(x) => match parse_u32(trim(x)) {
            Some(p) => ical_to_todotxt(p),
            None => LOWEST_PRIORITY,
        },
        None => LOWEST_PRIORITY,
    }
}

/// The date that a date property's value gives, white space aside.
pub open spec fn date_of(v: Option<Seq<char>>) -> Option<Date> {
    match v {
        Some(x) => ical_date(trim(x)),
        None => None,
    }
}

/// The categories that a `CATEGORIES` value gives: projects, contexts and hashtags.
pub open spec fn categories_of(v: Option<Seq<char>>) -> (Seq<Seq<char>>, Seq<Seq<char>>, Seq<Seq<char>>) {
    match v {
        Some(c) => classified(category_entries(c)),
        None => (seq![], seq![], seq![]),
    }
}

/// The task that a VTODO block describes: subject, priority, status, dates and categories from
/// its properties, its `UID` in the tag `_ical_uid`, and the whole block, base64-encoded, in the
/// tag `_ical_vtodo`, so that saving can rewrite it.
pub open spec fn task_of_vtodo(raw: Seq<char>) -> TaskView {
    let cats = categories_of(prop_value(raw, "CATEGORIES"@));
    let uid_tags: Seq<(Seq<char>, Seq<char>)> = match prop_value(raw, "UID"@) {
        Some(u) => seq![("_ical_uid"@, trim(u))],
        None => seq![],
    };
    TaskView {
        subject: match prop_value(raw, "SUMMARY"@) {
            Some(v) => v,
            None => seq![],
        },
        priority: priority_of(prop_value(raw, "PRIORITY"@)),
        create_date: date_of(prop_value(raw, "DTSTART"@)),
        finish_date: date_of(prop_value(raw, "COMPLETED"@)),
        finished: (prop_value(raw, "STATUS"@) matches Some(v) && trim(v) == "COMPLETED"@) || prop_value(
            raw,
            "COMPLETED"@,
        ) is Some,
        threshold_date: None,
        due_date: date_of(prop_value(raw, "DUE"@)),
        contexts: cats.1,
        projects: cats.0,
        hashtags: cats.2,
        tags: uid_tags.push(("_ical_vtodo"@, base64_of_text(raw))),
    }
}

/// The VTODO block stored in a task's `_ical_vtodo` tag, when it decodes.
pub open spec fn stored_vtodo(t: TaskView) -> Option<Seq<char>> {
    match tag_value(t.tags, "_ical_vtodo"@) {
        Some(e) => match base64_bytes(e) {
            Some(b) => if valid_utf8(b) {
                Some(decode_utf8(b))
            } else {
                None
            },
            None => None,
        },
        None => None,
    }
}

/// The date of an optional property value (see `date_of`).
fn date_of_value(v: &Option<String>) -> (r: Option<Date>)
    ensures
        r == date_of(match v {
            Some(x) => Some(x@),
            None => None,
        }),
        crate::date::valid_opt(r),
{
    match v {
        Some(x) => {
            let t = trim_str(x.as_str());
            parse_ical_date(t.as_str())
        },
        None => None,
    }
}

/// The task that a VTODO block describes (see `task_of_vtodo`); its stored block decodes back
/// to `raw`.
pub fn vtodo_task(raw: &str) -> (t: Task)
    requires
        raw@.len() <= usize::MAX / 8,
    ensures
        t@ == task_of_vtodo(raw@),
        dates_valid(t@),
        stored_vtodo(t@) == Some(raw@),
{
    let mut task = Task::empty();
    let summary = raw_property_value(raw, "SUMMARY");
    match summary {
        Some(v) => task.subject = v,
        None => {},
    }
    let priority = raw_property_value(raw, "PRIORITY");
    match &priority {
        Some(v) => {
            let t = trim_str(v.as_str());
            match parse_u32_str(t.as_str()) {
                Some(p) => task.priority = ical_priority_to_todotxt(p),
                None => {},
            }
        },
        None => {},
    }
    let status = raw_property_value(raw, "STATUS");
    match &status {
        Some(v) => {
            let t = trim_str(v.as_str());
            if str_eq(t.as_str(), "COMPLETED") {
                task.finished = true;
            }
        },
        None => {},
    }
    let completed = raw_property_value(raw, "COMPLETED");
    if completed.is_some() {
        task.finished = true;
        task.finish_date = date_of_value(&completed);
    }
    let dtstart = raw_property_value(raw, "DTSTART");
    task.create_date = date_of_value(&dtstart);
    let due = raw_property_value(raw, "DUE");
    task.due_date = date_of_value(&due);
    let categories = raw_property_value(raw, "CATEGORIES");
    match &categories {
        Some(c) => {
            let (projects, contexts, hashtags) = parse_categories(c.as_str());
            task.projects = projects;
            task.contexts = contexts;
            task.hashtags = hashtags;
        },
        None => {},
    }
    let uid = raw_property_value(raw, "UID");
    match &uid {
        Some(u) => {
            let t = trim_str(u.as_str());
            task.tags.push((to_string("_ical_uid"), t));
        },
        None => {},
    }
    let encoded = base64_encode(raw);
    task.tags.push((to_string("_ical_vtodo"), encoded));
    proof {
        let tv = task@;
        let expected = task_of_vtodo(raw@);
        assert(tv.subject == expected.subject);
        assert(tv.projects == expected.projects);
        assert(tv.contexts == expected.contexts);
        assert(tv.hashtags == expected.hashtags);
        assert(tv.tags =~= expected.tags);
        reveal_strlit("_ical_uid");
        reveal_strlit("_ical_vtodo");
        assert("_ical_uid"@[6] != "_ical_vtodo"@[6]);
        let tags = tv.tags;
        if tags.len() == 2 {
            assert(tags[0].0 != "_ical_vtodo"@);
            assert(tags.skip(1)[0] == tags[1]);
            assert(tag_value(tags.skip(1), "_ical_vtodo"@) == Some(base64_of_text(raw@)));
        }
        assert(tag_value(tags, "_ical_vtodo"@) == Some(base64_of_text(raw@)));
        vstd::utf8::encode_utf8_valid_utf8(raw@);
        vstd::utf8::encode_utf8_decode_utf8(raw@);
    }
    task
}

/// The views of a list of tasks.
pub open spec fn task_views(ts: Seq<Task>) -> Seq<TaskView> {
    ts.map_values(|t: Task| t@)
}

/// The tasks that the VTODO blocks of an iCalendar text describe, in order.
pub open spec fn loaded_tasks(text: Seq<char>) -> Seq<TaskView> {
    raw_vtodos(text).map_values(|r: Seq<char>| task_of_vtodo(r))
}

/// Adds the tasks of an iCalendar text to the lists: finished ones to the done list, the others
/// to the pending list, in the order of their VTODO blocks. The block that each task came from
/// is stored in it and decodes back to the same text.
pub fn load_tasks(text: &str, todo: &mut ToDo)
    requires
        text@.len() <= usize::MAX / 32,
    ensures
        task_views(final(todo).pending@) == task_views(old(todo).pending@) + loaded_tasks(text@).filter(
            |t: TaskView| !t.finished,
        ),
        task_views(final(todo).done@) == task_views(old(todo).done@) + loaded_tasks(text@).filter(
            |t: TaskView| t.finished,
        ),
        forall|i: int|
            0 <= i < raw_vtodos(text@).len() ==> stored_vtodo(task_of_vtodo(#[trigger] raw_vtodos(text@)[i]))
                == Some(raw_vtodos(text@)[i]),
        final(todo).state == old(todo).state,
        final(todo).config == old(todo).config,
{
    let raws = extract_raw_vtodos(text);
    let ghost lt = loaded_tasks(text@);
    let ghost pend = |t: TaskView| !t.finished;
    let ghost fin = |t: TaskView| t.finished;
    proof {
        reveal(Seq::filter);
        assert(lt.take(0) =~= Seq::<TaskView>::empty());
        assert(task_views(todo.pending@) =~= task_views(old(todo).pending@) + lt.take(0).filter(pend));
        assert(task_views(todo.done@) =~= task_views(old(todo).done@) + lt.take(0).filter(fin));
    }
    let mut i: usize = 0;
    while i < raws.len()
        invariant
            i <= raws@.len(),
            views(raws@) == raw_vtodos(text@),
            text@.len() <= usize::MAX / 32,
            forall|k: int| 0 <= k < raws@.len() ==> (#[trigger] raws@[k])@.len() <= 2 * text@.len() + 2,
            lt == loaded_tasks(text@),
            pend == (|t: TaskView| !t.finished),
            fin == (|t: TaskView| t.finished),
            task_views(todo.pending@) == task_views(old(todo).pending@) + lt.take(i as int).filter(pend),
            task_views(todo.done@) == task_views(old(todo).done@) + lt.take(i as int).filter(fin),
            forall|k: int|
                0 <= k < i ==> stored_vtodo(task_of_vtodo(#[trigger] raw_vtodos(text@)[k])) == Some(
                    raw_vtodos(text@)[k],
                ),
            todo.state == old(todo).state,
            todo.config == old(todo).config,
        decreases raws@.len() - i,
    {
        assert(raws@[i as int]@.len() <= 2 * text@.len() + 2);
        let task = vtodo_task(raws[i].as_str());
        let ghost tv = task@;
        let ghost before_p = todo.pending@;
        let ghost before_d = todo.done@;
        todo.add_task(task);
        proof {
            reveal(Seq::filter);
            assert(raw_vtodos(text@)[i as int] == raws@[i as int]@);
            assert(lt[i as int] == tv);
            assert(lt.take(i + 1).drop_last() =~= lt.take(i as int));
            assert(lt.take(i + 1).last() == tv);
            if tv.finished {
                assert(task_views(todo.done@) =~= task_views(before_d).push(tv));
                assert(task_views(todo.pending@) =~= task_views(before_p));
            } else {
                assert(task_views(todo.pending@) =~= task_views(before_p).push(tv));
                assert(task_views(todo.done@) =~= task_views(before_d));
            }
        }
        i = i + 1;
    }
    assert(lt.take(raws@.len() as int) =~= lt);
}

/// The priority line of a new VTODO, if the task has a priority that iCalendar keeps.
pub open spec fn new_priority_lines(t: TaskView) -> Seq<Seq<char>> {
    match todotxt_to_ical(t.priority) {
        Some(p) => seq![prop_line("PRIORITY"@, decimal_text(p as nat))],
        None => seq![],
    }
}

/// The status lines of a new VTODO: `COMPLETED`, with the finish date when there is one, or
/// `NEEDS-ACTION`.
pub open spec fn new_status_lines(t: TaskView) -> Seq<Seq<char>> {
    if t.finished {
        seq![prop_line("STATUS"@, "COMPLETED"@)] + match t.finish_date {
            Some(d) => seq![prop_line("COMPLETED"@, compact_date_text(d) + "T000000Z"@)],
            None => seq![],
        }
    } else {
        seq![prop_line("STATUS"@, "NEEDS-ACTION"@)]
    }
}

/// The line of date property `key`, if there is a date.
pub open spec fn new_date_lines(key: Seq<char>, d: Option<Date>) -> Seq<Seq<char>> {
    match d {
        Some(x) => seq![prop_line(key, compact_date_text(x))],
        None => seq![],
    }
}

/// The `CATEGORIES` line of a new VTODO, if the task has categories.
pub open spec fn new_category_lines(t: TaskView) -> Seq<Seq<char>> {
    if category_text(t).len() == 0 {
        seq![]
    } else {
        seq![prop_line("CATEGORIES"@, category_text(t))]
    }
}

/// The lines of a new VTODO block for task `t` with identifier `uid`, stamped `now`.
pub open spec fn new_vtodo_lines(t: TaskView, uid: Seq<char>, now: Seq<char>) -> Seq<Seq<char>> {
    seq!["BEGIN:VTODO"@, prop_line("UID"@, uid), prop_line("DTSTAMP"@, now), prop_line("SUMMARY"@, t.subject)]
        + new_priority_lines(t) + new_status_lines(t) + new_date_lines("DTSTART"@, t.create_date)
        + new_date_lines("DUE"@, t.due_date) + new_category_lines(t) + seq!["END:VTODO"@]
}

/// The text of a new VTODO block: its lines, each ended by a line break.
pub open spec fn new_vtodo_text(t: TaskView, uid: Seq<char>, now: Seq<char>) -> Seq<char> {
    join(new_vtodo_lines(t, uid, now), crlf()) + crlf()
}

/// The line that sets property `key` to `value`.
fn prop_line_str(key: &str, value: &str) -> (r: String)
    ensures
        r@ == prop_line(key@, value@),
{
    let k = crate::vtodo::key_prefix(key, ':');
    concat_str(k.as_str(), value)
}

/// Builds the VTODO block of a task that has none stored (see `new_vtodo_text`).
pub fn build_new_vtodo(task: &Task, uid: &str, now: &str) -> (r: String)
    requires
        dates_valid(task@),
    ensures
        r@ == new_vtodo_text(task@, uid@, now@),
{
    let ghost t = task@;
    let mut ls: Vec<String> = Vec::new();
    ls.push(to_string("BEGIN:VTODO"));
    ls.push(prop_line_str("UID", uid));
    ls.push(prop_line_str("DTSTAMP", now));
    ls.push(prop_line_str("SUMMARY", task.subject.as_str()));
    let ghost l0 = views(ls@);
    assert(l0 =~= seq!["BEGIN:VTODO"@, prop_line("UID"@, uid@), prop_line("DTSTAMP"@, now@), prop_line("SUMMARY"@, t.subject)]);
    match todotxt_priority_to_ical(task.priority) {
        Some(p) => {
            let v = u32_text(p);
            ls.push(prop_line_str("PRIORITY", v.as_str()));
        },
        None => {},
    }
    let ghost l1 = views(ls@);
    assert(l1 =~= l0 + new_priority_lines(t));
    if task.finished {
        ls.push(prop_line_str("STATUS", "COMPLETED"));
        match task.finish_date {
            Some(d) => {
                let mut v = format_compact_date(d);
                push_str(&mut v, "T000000Z");
                ls.push(prop_line_str("COMPLETED", v.as_str()));
            },
            None => {},
        }
    } else {
        ls.push(prop_line_str("STATUS", "NEEDS-ACTION"));
    }
    let ghost l2 = views(ls@);
    assert(l2 =~= l1 + new_status_lines(t));
    match task.create_date {
        Some(d) => {
            let v = format_compact_date(d);
            ls.push(prop_line_str("DTSTART", v.as_str()));
        },
        None => {},
    }
    let ghost l3 = views(ls@);
    assert(l3 =~= l2 + new_date_lines("DTSTART"@, t.create_date));
    match task.due_date {
        Some(d) => {
            let v = format_compact_date(d);
            ls.push(prop_line_str("DUE", v.as_str()));
        },
        None => {},
    }
    let ghost l4 = views(ls@);
    assert(l4 =~= l3 + new_date_lines("DUE"@, t.due_date));
    let categories = build_categories(task);
    if !categories.as_str().is_empty() {
        ls.push(prop_line_str("CATEGORIES", categories.as_str()));
    }
    let ghost l5 = views(ls@);
    assert(l5 =~= l4 + new_category_lines(t));
    ls.push(to_string("END:VTODO"));
    assert(views(ls@) =~= new_vtodo_lines(t, uid@, now@));
    let mut r = join_strs(&ls, "\r\n");
    push_str(&mut r, "\r\n");
    proof {
        reveal_strlit("\r\n");
        assert("\r\n"@ =~= crlf());
    }
    r
}

/// Why the stored VTODO of a task cannot be saved.
#[derive(PartialEq, Eq, Structural, Debug, Copy, Clone)]
pub enum IcalError {
    /// The `_ical_vtodo` tag is not valid base64.
    BadEncoding,
    /// The decoded VTODO is not valid UTF-8.
    NotUtf8,
    /// The VTODO's `SEQUENCE` number cannot be raised within 32 bits.
    SequenceOverflow,
    /// The text is not an iCalendar calendar.
    BadCalendar,
}

/// The identifier that a new VTODO for `t` gets: its `_ical_uid` tag, else `fresh`.
pub open spec fn uid_for(t: TaskView, fresh: Seq<char>) -> Seq<char> {
    match tag_value(t.tags, "_ical_uid"@) {
        Some(u) => u,
        None => fresh,
    }
}

/// The VTODO text that saving task `t` at time `now` writes: its stored block rewritten when it
/// has one, else a new block with identifier `uid_for(t, fresh_uid)`.
pub open spec fn vtodo_text_for(t: TaskView, now: Seq<char>, fresh_uid: Seq<char>) -> Result<Seq<char>, IcalError> {
    match tag_value(t.tags, "_ical_vtodo"@) {
        Some(e) => match base64_bytes(e) {
            None => Err(IcalError::BadEncoding),
            Some(b) => if !valid_utf8(b) {
                Err(IcalError::NotUtf8)
            } else if !seq_bounded(lines(decode_utf8(b))) {
                Err(IcalError::SequenceOverflow)
            } else {
                Ok(updated_text(decode_utf8(b), t, now))
            },
        },
        None => Ok(new_vtodo_text(t, uid_for(t, fresh_uid), now)),
    }
}

/// Whether a task has no `_ical_uid` tag, so that a new identifier would be needed.
pub fn needs_uid(task: &Task) -> (b: bool)
    ensures
        b == (tag_value(task@.tags, "_ical_uid"@) is None),
{
    get_tag(&task.tags, "_ical_uid").is_none()
}

/// The VTODO text that saving a task at time `now` writes (see `vtodo_text_for`).
pub fn vtodo_text(task: &Task, now: &str, fresh_uid: &str) -> (r: Result<String, IcalError>)
    requires
        dates_valid(task@),
    ensures
        match r {
            Ok(s) => vtodo_text_for(task@, now@, fresh_uid@) == Ok::<Seq<char>, IcalError>(s@),
            Err(e) => vtodo_text_for(task@, now@, fresh_uid@) == Err::<Seq<char>, IcalError>(e),
        },
{
    match get_tag(&task.tags, "_ical_vtodo") {
        Some(encoded) => {
            let bytes = match base64_decode(encoded.as_str()) {
                Some(b) => b,
                None => return Err(IcalError::BadEncoding),
            };
            let raw = match string_from_utf8(bytes) {
                Some(s) => s,
                None => return Err(IcalError::NotUtf8),
            };
            let ls = lines_of(raw.as_str());
            if !crate::vtodo::sequence_bounded(&ls) {
                return Err(IcalError::SequenceOverflow);
            }
            Ok(update_vtodo_properties(raw.as_str(), task, now))
        },
        None => {
            let uid = match get_tag(&task.tags, "_ical_uid") {
                Some(u) => u,
                None => to_string(fresh_uid),
            };
            Ok(build_new_vtodo(task, uid.as_str(), now))
        },
    }
}

/// The first lines of the calendar that saving writes.
pub open spec fn calendar_head() -> Seq<char> {
    "BEGIN:VCALENDAR\nVERSION:2.0\nPRODID:-//todotxt-tui//EN\n"@
}

/// The last line of the calendar that saving writes.
pub open spec fn calendar_tail() -> Seq<char> {
    "END:VCALENDAR\n"@
}

/// The calendar text for the first `n` tasks, each saved at its time in `nows` and with its
/// fresh identifier in `uids`, up to the first task that cannot be saved.
pub open spec fn calendar_upto(ts: Seq<TaskView>, nows: Seq<Seq<char>>, uids: Seq<Seq<char>>, n: int) -> Result<Seq<char>, IcalError>
    decreases n,
{
    if n <= 0 {
        Ok(calendar_head())
    } else {
        match calendar_upto(ts, nows, uids, n - 1) {
            Err(e) => Err(e),
            Ok(c) => match vtodo_text_for(ts[n - 1], nows[n - 1], uids[n - 1]) {
                Err(e) => Err(e),
                Ok(v) => Ok(c + v),
            },
        }
    }
}

/// Whether task `t` can be saved: it holds no stored VTODO, or its stored VTODO is valid
/// base64 of UTF-8 text whose `SEQUENCE` number can be raised.
pub open spec fn saveable(t: TaskView) -> bool {
    match tag_value(t.tags, "_ical_vtodo"@) {
        Some(e) => match base64_bytes(e) {
            None => false,
            Some(b) => valid_utf8(b) && seq_bounded(lines(decode_utf8(b))),
        },
        None => true,
    }
}

/// The calendar for the first `n` tasks is written exactly when each of them can be saved.
proof fn lemma_calendar_ok(ts: Seq<TaskView>, nows: Seq<Seq<char>>, uids: Seq<Seq<char>>, n: int)
    requires
        0 <= n <= ts.len(),
    ensures
        calendar_upto(ts, nows, uids, n) is Ok <==> forall|i: int| 0 <= i < n ==> #[trigger] saveable(ts[i]),
    decreases n,
{
    if n > 0 {
        lemma_calendar_ok(ts, nows, uids, n - 1);
        if !saveable(ts[n - 1]) {
            assert(!(forall|i: int| 0 <= i < n ==> #[trigger] saveable(ts[i])));
        }
    }
}

/// Once a task cannot be saved, the calendar stays at that error.
proof fn lemma_calendar_error_stays(ts: Seq<TaskView>, nows: Seq<Seq<char>>, uids: Seq<Seq<char>>, n: int, m: int, e: IcalError)
    requires
        1 <= n <= m,
        calendar_upto(ts, nows, uids, n) == Err::<Seq<char>, IcalError>(e),
    ensures
        calendar_upto(ts, nows, uids, m) == Err::<Seq<char>, IcalError>(e),
    decreases m - n,
{
    if m > n {
        lemma_calendar_error_stays(ts, nows, uids, n, m - 1, e);
    }
}

/// The calendar text that saving the tasks writes: the calendar lines around the VTODO of each
/// task, or the error of the first task that cannot be saved.
pub open spec fn calendar_text(ts: Seq<TaskView>, nows: Seq<Seq<char>>, uids: Seq<Seq<char>>) -> Result<Seq<char>, IcalError> {
    match calendar_upto(ts, nows, uids, ts.len() as int) {
        Err(e) => Err(e),
        Ok(c) => Ok(c + calendar_tail()),
    }
}

/// The calendar text for the tasks, task `i` saved at time `nows[i]` and, when it needs a new
/// identifier, with `uids[i]` (see `calendar_text`).
pub fn save_tasks_with(tasks: &[Task], nows: &Vec<String>, uids: &Vec<String>) -> (r: Result<String, IcalError>)
    requires
        nows@.len() == tasks@.len(),
        uids@.len() == tasks@.len(),
        forall|i: int| 0 <= i < tasks@.len() ==> dates_valid(#[trigger] tasks@[i]@),
    ensures
        match r {
            Ok(s) => calendar_text(task_views(tasks@), views(nows@), views(uids@)) == Ok::<Seq<char>, IcalError>(s@),
            Err(e) => calendar_text(task_views(tasks@), views(nows@), views(uids@)) == Err::<Seq<char>, IcalError>(e),
        },
        r is Ok <==> forall|i: int| 0 <= i < tasks@.len() ==> #[trigger] saveable(task_views(tasks@)[i]),
{
    proof {
        lemma_calendar_ok(task_views(tasks@), views(nows@), views(uids@), tasks@.len() as int);
    }
    let ghost ts = task_views(tasks@);
    let mut out = String::new();
    push_str(&mut out, "BEGIN:VCALENDAR\nVERSION:2.0\nPRODID:-//todotxt-tui//EN\n");
    let mut i: usize = 0;
    while i < tasks.len()
        invariant
            i <= tasks@.len(),
            nows@.len() == tasks@.len(),
            uids@.len() == tasks@.len(),
            ts == task_views(tasks@),
            forall|k: int| 0 <= k < tasks@.len() ==> dates_valid(#[trigger] tasks@[k]@),
            calendar_upto(ts, views(nows@), views(uids@), i as int) == Ok::<Seq<char>, IcalError>(out@),
        decreases tasks@.len() - i,
    {
        let task = &tasks[i];
        assert(dates_valid(tasks@[i as int]@));
        match vtodo_text(task, nows[i].as_str(), uids[i].as_str()) {
            Ok(v) => {
                push_str(&mut out, v.as_str());
            },
            Err(e) => {
                proof {
                    lemma_calendar_error_stays(ts, views(nows@), views(uids@), i + 1, tasks@.len() as int, e);
                    lemma_calendar_ok(ts, views(nows@), views(uids@), tasks@.len() as int);
                }
                return Err(e);
            },
        }
        i = i + 1;
    }
    push_str(&mut out, "END:VCALENDAR\n");
    Ok(out)
}

/// A UUID as `uuid::Uuid`'s `Display` writes it: 36 characters, '-' at positions 8, 13, 18
/// and 23, lowercase hexadecimal digits elsewhere.
pub open spec fn uuid_text(s: Seq<char>) -> bool {
    &&& s.len() == 36
    &&& forall|i: int| 0 <= i < 36 ==> if i == 8 || i == 13 || i == 18 || i == 23 {
        s[i] == '-'
    } else {
        ('0' <= s[i] && s[i] <= '9') || ('a' <= s[i] && s[i] <= 'f')
    }
}

/// A new random identifier for a VTODO.
/// Trusted: `uuid::Uuid::new_v4()` draws a random version 4 UUID and `to_string` writes it in
/// the hyphenated lowercase form (`Display` goes through `LowerHex` of `Hyphenated`); which
/// identifier comes out is left open.
#[verifier::external_body]
pub(crate) fn new_uid() -> (s: String)
    ensures
        uuid_text(s@),
{
    uuid::Uuid::new_v4().to_string()
}

/// The shape of a UTC `DATE-TIME` as chrono writes it with `%Y%m%dT%H%M%SZ`: at least 16
/// characters, 'Z' last, 'T' eighth from the end, and digits elsewhere but for a sign that
/// may open a year outside 0 to 9999.
pub open spec fn utc_stamp_text(s: Seq<char>) -> bool {
    &&& s.len() >= 16
    &&& s[s.len() - 1] == 'Z'
    &&& s[s.len() - 8] == 'T'
    &&& forall|i: int| 0 <= i < s.len() - 1 && i != s.len() - 8 ==> is_digit(#[trigger] s[i]) || (i == 0 && (s[i] == '+' || s[i]
        == '-'))
}

/// The current time in UTC as an iCalendar `DATE-TIME` (`20230501T120000Z`).
/// Trusted: formats `chrono::Utc::now()` with `%Y%m%dT%H%M%SZ`: `%Y` writes four digits, or a
/// sign and at least four digits outside the years 0 to 9999, and `%m`, `%d`, `%H`, `%M` and
/// `%S` two digits each (see `utc_stamp_text`); which time the clock gives is left open.
#[verifier::external_body]
pub(crate) fn utc_timestamp() -> (s: String)
    ensures
        utc_stamp_text(s@),
{
    chrono::Utc::now().format("%Y%m%dT%H%M%SZ").to_string()
}

/// Writes the tasks as an iCalendar text: each task's stored VTODO rewritten with its current
/// fields (see `update_vtodo_properties`), or a new VTODO for a task without one; or the error
/// of the first task whose stored VTODO cannot be read. Each task is stamped with the current
/// time, and a task without identifier gets a new random one.
pub fn save_tasks(tasks: &[Task]) -> (r: Result<String, IcalError>)
    requires
        forall|i: int| 0 <= i < tasks@.len() ==> dates_valid(#[trigger] tasks@[i]@),
    ensures
        exists|nows: Seq<Seq<char>>, uids: Seq<Seq<char>>|
            nows.len() == tasks@.len() && uids.len() == tasks@.len() && (forall|i: int| 0 <= i < uids.len() ==> uuid_text(
                #[trigger] uids[i],
            ) || uids[i].len() == 0) && (forall|i: int| 0 <= i < nows.len() ==> utc_stamp_text(#[trigger] nows[i])) && match r {
                Ok(s) => #[trigger] calendar_text(task_views(tasks@), nows, uids) == Ok::<Seq<char>, IcalError>(s@),
                Err(e) => calendar_text(task_views(tasks@), nows, uids) == Err::<Seq<char>, IcalError>(e),
            },
        r is Ok <==> forall|i: int| 0 <= i < tasks@.len() ==> #[trigger] saveable(task_views(tasks@)[i]),
{
    let mut nows: Vec<String> = Vec::new();
    let mut uids: Vec<String> = Vec::new();
    let mut i: usize = 0;
    while i < tasks.len()
        invariant
            i <= tasks@.len(),
            nows@.len() == i,
            uids@.len() == i,
            forall|k: int| 0 <= k < i ==> uuid_text(#[trigger] uids@[k]@) || uids@[k]@.len() == 0,
            forall|k: int| 0 <= k < i ==> utc_stamp_text(#[trigger] nows@[k]@),
        decreases tasks@.len() - i,
    {
        nows.push(utc_timestamp());
        if needs_uid(&tasks[i]) {
            uids.push(new_uid());
        } else {
            uids.push(String::new());
        }
        i = i + 1;
    }
    let r = save_tasks_with(tasks, &nows, &uids);
    proof {
        assert forall|k: int| 0 <= k < views(nows@).len() implies utc_stamp_text(#[trigger] views(nows@)[k]) by {
            assert(views(nows@)[k] == nows@[k]@);
        }
    }
    proof {
        assert(views(nows@).len() == tasks@.len());
        assert(views(uids@).len() == tasks@.len());
        assert forall|k: int| 0 <= k < views(uids@).len() implies uuid_text(#[trigger] views(uids@)[k]) || views(uids@)[k].len() == 0 by {
            assert(views(uids@)[k] == uids@[k]@);
        }
    }
    r
}

/// Saving a task that was loaded from a VTODO block rewrites that very block: when the task's
/// stored block decodes to `raw` and its `SEQUENCE` can be raised, what is written is `raw` with
/// the task's properties set (`updated_text`), and every line of `raw` that is not one of those
/// properties is kept, in order.
pub proof fn lemma_save_rewrites_stored_vtodo(t: TaskView, raw: Seq<char>, now: Seq<char>, fresh_uid: Seq<char>)
    requires
        stored_vtodo(t) == Some(raw),
        seq_bounded(lines(raw)),
    ensures
        vtodo_text_for(t, now, fresh_uid) == Ok::<Seq<char>, IcalError>(updated_text(raw, t, now)),
        updated_lines(lines(raw), t, now).filter(unmanaged()) == lines(raw).filter(unmanaged()),
{
    lemma_update_keeps_other_lines(lines(raw), t, now);
}

/// The blocks that saving writes for the first `n` tasks of `ts`, whose stored blocks are
/// `raws`, at times `nows`: each stored block rewritten with its task's properties, in order.
pub open spec fn rewritten_blocks(ts: Seq<TaskView>, raws: Seq<Seq<char>>, nows: Seq<Seq<char>>, n: int) -> Seq<char>
    decreases n,
{
    if n <= 0 {
        seq![]
    } else {
        rewritten_blocks(ts, raws, nows, n - 1) + updated_text(raws[n - 1], ts[n - 1], nows[n - 1])
    }
}

proof fn lemma_calendar_of_stored(ts: Seq<TaskView>, raws: Seq<Seq<char>>, nows: Seq<Seq<char>>, uids: Seq<Seq<char>>, n: int)
    requires
        0 <= n <= ts.len(),
        raws.len() == ts.len(),
        forall|i: int| 0 <= i < ts.len() ==> stored_vtodo(#[trigger] ts[i]) == Some(raws[i]) && seq_bounded(lines(raws[i])),
    ensures
        calendar_upto(ts, nows, uids, n) == Ok::<Seq<char>, IcalError>(calendar_head() + rewritten_blocks(ts, raws, nows, n)),
    decreases n,
{
    if n == 0 {
        assert(calendar_head() + rewritten_blocks(ts, raws, nows, 0) =~= calendar_head());
    } else {
        lemma_calendar_of_stored(ts, raws, nows, uids, n - 1);
        assert(stored_vtodo(ts[n - 1]) == Some(raws[n - 1]));
        lemma_save_rewrites_stored_vtodo(ts[n - 1], raws[n - 1], nows[n - 1], uids[n - 1]);
        assert(calendar_head() + rewritten_blocks(ts, raws, nows, n - 1) + updated_text(raws[n - 1], ts[n - 1], nows[n - 1])
            =~= calendar_head() + rewritten_blocks(ts, raws, nows, n));
    }
}

/// Saving tasks that each hold a stored VTODO block (as the tasks loaded from a calendar do,
/// see `load_tasks`) writes the calendar with each stored block rewritten in place, in order,
/// whatever the times and fresh identifiers; every line of a block that is not one of the
/// task's own properties is kept, in order.
pub proof fn lemma_save_rewrites_all_stored(ts: Seq<TaskView>, raws: Seq<Seq<char>>, nows: Seq<Seq<char>>, uids: Seq<Seq<char>>)
    requires
        raws.len() == ts.len(),
        forall|i: int| 0 <= i < ts.len() ==> stored_vtodo(#[trigger] ts[i]) == Some(raws[i]) && seq_bounded(lines(raws[i])),
    ensures
        calendar_text(ts, nows, uids) == Ok::<Seq<char>, IcalError>(
            calendar_head() + rewritten_blocks(ts, raws, nows, ts.len() as int) + calendar_tail(),
        ),
        forall|i: int| 0 <= i < ts.len() ==> (#[trigger] updated_lines(lines(raws[i]), ts[i], nows[i])).filter(unmanaged())
            == lines(raws[i]).filter(unmanaged()),
{
    lemma_calendar_of_stored(ts, raws, nows, uids, ts.len() as int);
    assert forall|i: int| 0 <= i < ts.len() implies (#[trigger] updated_lines(lines(raws[i]), ts[i], nows[i])).filter(unmanaged())
        == lines(raws[i]).filter(unmanaged()) by {
        lemma_update_keeps_other_lines(lines(raws[i]), ts[i], nows[i]);
    }
}

/// Loading a calendar text and saving its tasks rewrites each VTODO block of the text in place,
/// in order, when the tasks still hold the stored blocks that loading gave them (whatever else
/// of them changed) and each block's `SEQUENCE` can be raised: every line of a block that is
/// not one of the task's own properties is kept, in order (`load_tasks` stores each block so
/// that it decodes back to itself).
pub proof fn lemma_load_then_save(text: Seq<char>, ts: Seq<TaskView>, nows: Seq<Seq<char>>, uids: Seq<Seq<char>>)
    requires
        ts.len() == raw_vtodos(text).len(),
        forall|i: int| 0 <= i < ts.len() ==> stored_vtodo(task_of_vtodo(#[trigger] raw_vtodos(text)[i])) == Some(raw_vtodos(text)[i]),
        forall|i: int| 0 <= i < ts.len() ==> tag_value(#[trigger] ts[i].tags, "_ical_vtodo"@) == tag_value(
            task_of_vtodo(raw_vtodos(text)[i]).tags,
            "_ical_vtodo"@,
        ),
        forall|i: int| 0 <= i < ts.len() ==> seq_bounded(lines(#[trigger] raw_vtodos(text)[i])),
    ensures
        calendar_text(ts, nows, uids) == Ok::<Seq<char>, IcalError>(
            calendar_head() + rewritten_blocks(ts, raw_vtodos(text), nows, ts.len() as int) + calendar_tail(),
        ),
        forall|i: int| 0 <= i < ts.len() ==> (#[trigger] updated_lines(lines(raw_vtodos(text)[i]), ts[i], nows[i])).filter(
            unmanaged(),
        ) == lines(raw_vtodos(text)[i]).filter(unmanaged()),
{
    let raws = raw_vtodos(text);
    assert forall|i: int| 0 <= i < ts.len() implies stored_vtodo(#[trigger] ts[i]) == Some(raws[i]) && seq_bounded(lines(raws[i])) by {
        assert(tag_value(ts[i].tags, "_ical_vtodo"@) == tag_value(task_of_vtodo(raws[i]).tags, "_ical_vtodo"@));
        assert(stored_vtodo(task_of_vtodo(raws[i])) == Some(raws[i]));
        assert(seq_bounded(lines(raws[i])));
    }
    lemma_save_rewrites_all_stored(ts, raws, nows, uids);
}

} // verus!
