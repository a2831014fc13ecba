use vstd::prelude::*;
use crate::options::TaskSort;
use crate::task::Task;
use crate::text::{seq_lt, str_lt};

verus! {

pub proof fn lemma_seq_lt_irreflexive(a: Seq<char>)
    ensures
        !seq_lt(a, a),
    decreases a.len(),
{
    if a.len() > 0 {
        lemma_seq_lt_irreflexive(a.drop_first());
    }
}

pub proof fn lemma_seq_lt_transitive(a: Seq<char>, b: Seq<char>, c: Seq<char>)
    requires
        seq_lt(a, b),
        seq_lt(b, c),
    ensures
        seq_lt(a, c),
    decreases a.len(),
{
    if a.len() > 0 && b.len() > 0 && c.len() > 0 {
        if a[0] == b[0] && b[0] == c[0] {
            lemma_seq_lt_transitive(a.drop_first(), b.drop_first(), c.drop_first());
        }
    }
}

pub proof fn lemma_seq_lt_total(a: Seq<char>, b: Seq<char>)
    ensures
        seq_lt(a, b) || seq_lt(b, a) || a == b,
    decreases a.len(),
{
    if a.len() > 0 && b.len() > 0 {
        if a[0] == b[0] {
            lemma_seq_lt_total(a.drop_first(), b.drop_first());
            if a.drop_first() == b.drop_first() {
                assert(a =~= seq![a[0]] + a.drop_first());
                assert(b =~= seq![b[0]] + b.drop_first());
            }
        }
    } else if a.len() == 0 && b.len() == 0 {
        assert(a =~= b);
    }
}

/// Task `a` strictly precedes task `b` in the order `sort` (for the keyed orders; ties are
/// broken by position, which keeps the sort stable).
pub open spec fn before(ts: Seq<Task>, sort: TaskSort, a: usize, b: usize) -> bool {
    let (ta, tb) = (ts[a as int], ts[b as int]);
    match sort {
        TaskSort::Priority => ta.priority < tb.priority || (ta.priority == tb.priority && a < b),
        TaskSort::Alphanumeric => seq_lt(ta.subject@, tb.subject@) || (ta.subject@ == tb.subject@
            && a < b),
        TaskSort::AlphanumericReverse => seq_lt(tb.subject@, ta.subject@) || (ta.subject@
            == tb.subject@ && a < b),
        _ => a < b,
    }
}

/// Every pair of the sequence is in order.
pub open spec fn sorted_by(ts: Seq<Task>, sort: TaskSort, s: Seq<usize>) -> bool {
    forall|i: int, j: int| 0 <= i < j < s.len() ==> #[trigger] before(ts, sort, s[i], s[j])
}

/// `r` holds exactly the elements of `s`.
pub open spec fn same_elements(r: Seq<usize>, s: Seq<usize>) -> bool {
    &&& r.len() == s.len()
    &&& forall|x: usize| r.contains(x) <==> s.contains(x)
}

/// The positions `s` (all smaller than the number of tasks) in the order `sort`:
/// kept as they are, reversed, or sorted stably by priority or by subject.
pub open spec fn ordered(ts: Seq<Task>, sort: TaskSort, s: Seq<usize>, r: Seq<usize>) -> bool {
    match sort {
        TaskSort::NoSort => r == s,
        TaskSort::Reverse => r == s.reverse(),
        _ => same_elements(r, s) && sorted_by(ts, sort, r),
    }
}

pub proof fn lemma_before_strict(ts: Seq<Task>, sort: TaskSort, a: usize, b: usize, c: usize)
    requires
        a < ts.len(),
        b < ts.len(),
        c < ts.len(),
        sort != TaskSort::NoSort && sort != TaskSort::Reverse,
    ensures
        !before(ts, sort, a, a),
        a != b ==> before(ts, sort, a, b) || before(ts, sort, b, a),
        before(ts, sort, a, b) && before(ts, sort, b, c) ==> before(ts, sort, a, c),
        before(ts, sort, a, b) ==> !before(ts, sort, b, a),
{
    let (ta, tb, tc) = (ts[a as int].subject@, ts[b as int].subject@, ts[c as int].subject@);
    lemma_seq_lt_irreflexive(ta);
    lemma_seq_lt_irreflexive(tb);
    lemma_seq_lt_total(ta, tb);
    if seq_lt(ta, tb) && seq_lt(tb, ta) {
        lemma_seq_lt_transitive(ta, tb, ta);
    }
    if seq_lt(ta, tb) && seq_lt(tb, tc) {
        lemma_seq_lt_transitive(ta, tb, tc);
    }
    if seq_lt(tc, tb) && seq_lt(tb, ta) {
        lemma_seq_lt_transitive(tc, tb, ta);
    }
}

/// Whether task `a` strictly precedes task `b` in the order `sort`.
fn is_before(tasks: &Vec<Task>, sort: TaskSort, a: usize, b: usize) -> (r: bool)
    requires
        a < tasks@.len(),
        b < tasks@.len(),
    ensures
        r == before(tasks@, sort, a, b),
{
    let (ta, tb) = (&tasks[a], &tasks[b]);
    match sort {
        TaskSort::Priority => ta.priority < tb.priority || (ta.priority == tb.priority && a < b),
        TaskSort::Alphanumeric => {
            if str_lt(ta.subject.as_str(), tb.subject.as_str()) {
                true
            } else {
                !str_lt(tb.subject.as_str(), ta.subject.as_str()) && a < b && {
                    proof {
                        lemma_seq_lt_total(ta.subject@, tb.subject@);
                    }
                    true
                }
            }
        },
        TaskSort::AlphanumericReverse => {
            if str_lt(tb.subject.as_str(), ta.subject.as_str()) {
                true
            } else {
                !str_lt(ta.subject.as_str(), tb.subject.as_str()) && a < b && {
                    proof {
                        lemma_seq_lt_total(ta.subject@, tb.subject@);
                    }
                    true
                }
            }
        },
        _ => a < b,
    }
}

/// Orders the task positions `idx` by `sort`.
pub fn sort_indices(tasks: &Vec<Task>, idx: Vec<usize>, sort: TaskSort) -> (r: Vec<usize>)
    requires
        forall|i: int| 0 <= i < idx@.len() ==> idx@[i] < tasks@.len(),
        forall|i: int, j: int| 0 <= i < j < idx@.len() ==> idx@[i] != idx@[j],
    ensures
        ordered(tasks@, sort, idx@, r@),
        forall|i: int| 0 <= i < r@.len() ==> r@[i] < tasks@.len(),
{
    match sort {
        TaskSort::NoSort => idx,
        TaskSort::Reverse => {
            let mut r: Vec<usize> = Vec::new();
            let mut i: usize = idx.len();
            while i > 0
                invariant
                    i <= idx@.len(),
                    r@ == idx@.subrange(i as int, idx@.len() as int).reverse(),
                decreases i,
            {
                i = i - 1;
                r.push(idx[i]);
                proof {
                    assert(idx@.subrange(i as int, idx@.len() as int).reverse() =~= idx@.subrange(
                        i + 1,
                        idx@.len() as int,
                    ).reverse().push(idx@[i as int]));
                }
            }
            proof {
                assert(idx@.subrange(0, idx@.len() as int) =~= idx@);
                assert forall|k: int| 0 <= k < r@.len() implies r@[k] < tasks@.len() by {
                    assert(r@[k] == idx@[idx@.len() - 1 - k]);
                }
            }
            r
        },
        _ => {
            let mut r: Vec<usize> = Vec::new();
            let mut i: usize = 0;
            while i < idx.len()
                invariant
                    i <= idx@.len(),
                    sort != TaskSort::NoSort && sort != TaskSort::Reverse,
                    forall|k: int| 0 <= k < idx@.len() ==> idx@[k] < tasks@.len(),
                    forall|k: int, j: int| 0 <= k < j < idx@.len() ==> idx@[k] != idx@[j],
                    r@.len() == i,
                    forall|x: usize| r@.contains(x) <==> idx@.subrange(0, i as int).contains(x),
                    forall|k: int| 0 <= k < r@.len() ==> r@[k] < tasks@.len(),
                    sorted_by(tasks@, sort, r@),
                decreases idx@.len() - i,
            {
                let e = idx[i];
                let mut p: usize = 0;
                while p < r.len() && is_before(tasks, sort, r[p], e)
                    invariant
                        p <= r@.len(),
                        e < tasks@.len(),
                        forall|k: int| 0 <= k < r@.len() ==> r@[k] < tasks@.len(),
                        forall|k: int| 0 <= k < p ==> before(tasks@, sort, r@[k], e),
                    decreases r@.len() - p,
                {
                    p = p + 1;
                }
                let ghost old_r = r@;
                proof {
                    assert(!idx@.subrange(0, i as int).contains(e)) by {
                        if idx@.subrange(0, i as int).contains(e) {
                            let k = choose|k: int| 0 <= k < i && idx@.subrange(0, i as int)[k] == e;
                            assert(idx@[k] == idx@[i as int]);
                        }
                    }
                    assert(!old_r.contains(e));
                    if p < old_r.len() {
                        assert(!before(tasks@, sort, old_r[p as int], e));
                        assert(old_r[p as int] != e);
                        lemma_before_strict(tasks@, sort, old_r[p as int], e, e);
                        assert(before(tasks@, sort, e, old_r[p as int]));
                    }
                    assert forall|k: int| p <= k < old_r.len() implies before(tasks@, sort, e, #[trigger] old_r[k]) by {
                        if k > p {
                            assert(before(tasks@, sort, old_r[p as int], old_r[k]));
                            lemma_before_strict(tasks@, sort, e, old_r[p as int], old_r[k]);
                        }
                    }
                }
                r.insert(p, e);
                proof {
                    assert(r@ == old_r.insert(p as int, e));
                    assert forall|a: int, b: int| 0 <= a < b < r@.len() implies #[trigger] before(tasks@, sort, r@[a], r@[b]) by {
                        if b < p {
                            assert(before(tasks@, sort, old_r[a], old_r[b]));
                        } else if b == p {
                            assert(before(tasks@, sort, old_r[a], e));
                        } else if a < p {
                            assert(before(tasks@, sort, old_r[a], old_r[b - 1]));
                        } else if a == p {
                            assert(before(tasks@, sort, e, old_r[b - 1]));
                        } else {
                            assert(before(tasks@, sort, old_r[a - 1], old_r[b - 1]));
                        }
                    }
                    assert(idx@.subrange(0, i + 1) =~= idx@.subrange(0, i as int).push(e));
                    assert forall|x: usize| r@.contains(x) <==> idx@.subrange(0, i + 1).contains(x) by {
                        if r@.contains(x) {
                            let k = choose|k: int| 0 <= k < r@.len() && r@[k] == x;
                            if k < p {
                                assert(old_r[k] == x);
                                assert(old_r.contains(x));
                                let q = choose|q: int| 0 <= q < i && idx@.subrange(0, i as int)[q] == x;
                                assert(idx@.subrange(0, i + 1)[q] == x);
                            } else if k > p {
                                assert(old_r[k - 1] == x);
                                assert(old_r.contains(x));
                                let q = choose|q: int| 0 <= q < i && idx@.subrange(0, i as int)[q] == x;
                                assert(idx@.subrange(0, i + 1)[q] == x);
                            } else {
                                assert(idx@.subrange(0, i + 1)[i as int] == x);
                            }
                        }
                        if idx@.subrange(0, i + 1).contains(x) {
                            if x == e {
                                assert(r@[p as int] == e);
                            } else {
                                assert(idx@.subrange(0, i as int).contains(x));
                                assert(old_r.contains(x));
                                let k = choose|k: int| 0 <= k < old_r.len() && old_r[k] == x;
                                if k < p {
                                    assert(r@[k] == x);
                                } else {
                                    assert(r@[k + 1] == x);
                                }
                            }
                        }
                    }
                    assert forall|k: int| 0 <= k < r@.len() implies r@[k] < tasks@.len() by {
                        if k < p {
                            assert(r@[k] == old_r[k]);
                        } else if k > p {
                            assert(r@[k] == old_r[k - 1]);
                        }
                    }
                }
                i = i + 1;
            }
            proof {
                assert(idx@.subrange(0, idx@.len() as int) =~= idx@);
            }
            r
        },
    }
}

} // verus!
