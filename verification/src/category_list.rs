use vstd::prelude::*;
use crate::task::Task;
use crate::task_list::{lemma_seq_lt_irreflexive, lemma_seq_lt_total, lemma_seq_lt_transitive};
use crate::text::{copy_string, str_eq, str_lt, seq_lt, strictly_sorted, views};
use crate::todo::{category_names, filter_views, keys_distinct, FilterState, ToDo};
use crate::widget_type::ToDoCategory;

verus! {

/// The names of a category, each with the filter set on it, if any.
#[derive(Debug)]
pub struct CategoryList {
    pub vec: Vec<(String, Option<FilterState>)>,
}

/// The names of a category list.
pub open spec fn entry_names(v: Seq<(String, Option<FilterState>)>) -> Seq<Seq<char>> {
    v.map_values(|p: (String, Option<FilterState>)| p.0@)
}

/// The state of the filter named `n`, if there is one.
pub open spec fn filter_state_of(f: Seq<(Seq<char>, FilterState)>, n: Seq<char>) -> Option<FilterState> {
    if exists|k: int| 0 <= k < f.len() && f[k].0 == n {
        Some(f[choose|k: int| 0 <= k < f.len() && f[k].0 == n].1)
    } else {
        None
    }
}

/// The names of category `c` used by the first `n` tasks.
pub open spec fn names_upto(ts: Seq<Task>, c: ToDoCategory, n: int) -> Set<Seq<char>> {
    Set::new(|x: Seq<char>| exists|k: int| 0 <= k < n && #[trigger] category_names(ts[k]@, c).contains(x))
}

/// The names that the category list of `c` holds: those of the pending tasks, those of the
/// done tasks when they count, and those of the filters.
pub open spec fn category_pool(t: ToDo, c: ToDoCategory) -> Set<Seq<char>> {
    Set::new(
        |x: Seq<char>|
            names_upto(t.pending@, c, t.pending@.len() as int).contains(x) || (t.config.use_done
                && names_upto(t.done@, c, t.done@.len() as int).contains(x)) || (exists|k: int|
                0 <= k < t.state.filters(c).len() && #[trigger] t.state.filters(c)[k].0 == x),
    )
}

/// The sorted names that the category list of `c` holds (see `category_pool`); there is only
/// one such sequence (see `lemma_sorted_unique`).
pub open spec fn listed(t: ToDo, c: ToDoCategory) -> Seq<Seq<char>> {
    choose|names: Seq<Seq<char>>|
        strictly_sorted(names) && forall|x: Seq<char>| #[trigger] names.contains(x) <==> category_pool(t, c).contains(x)
}

/// Two strictly sorted sequences that hold the same names are equal.
pub proof fn lemma_sorted_unique(a: Seq<Seq<char>>, b: Seq<Seq<char>>)
    requires
        strictly_sorted(a),
        strictly_sorted(b),
        forall|x: Seq<char>| #[trigger] a.contains(x) <==> b.contains(x),
    ensures
        a == b,
    decreases a.len(),
{
    if a.len() == 0 {
        if b.len() > 0 {
            assert(b.contains(b[0]));
            assert(a.contains(b[0]));
        }
        assert(a =~= b);
    } else {
        assert(a.contains(a[0]));
        assert(b.len() > 0);
        assert(b.contains(b[0]));
        assert(b.contains(a[0]));
        assert(a.contains(b[0]));
        let i = choose|i: int| 0 <= i < b.len() && b[i] == a[0];
        let j = choose|j: int| 0 <= j < a.len() && a[j] == b[0];
        if a[0] != b[0] {
            assert(i > 0 && j > 0);
            assert(seq_lt(b[0], b[i]));
            assert(seq_lt(a[0], a[j]));
            lemma_seq_lt_transitive(a[0], b[0], a[0]);
            lemma_seq_lt_irreflexive(a[0]);
        }
        let (ra, rb) = (a.drop_first(), b.drop_first());
        assert forall|x: Seq<char>| #[trigger] ra.contains(x) implies rb.contains(x) by {
            let k = choose|k: int| 0 <= k < ra.len() && ra[k] == x;
            assert(a[k + 1] == x);
            assert(seq_lt(a[0], x));
            assert(a.contains(x));
            assert(b.contains(x));
            let m = choose|m: int| 0 <= m < b.len() && b[m] == x;
            if m == 0 {
                lemma_seq_lt_irreflexive(x);
            }
            assert(rb[m - 1] == x);
        }
        assert forall|x: Seq<char>| #[trigger] rb.contains(x) implies ra.contains(x) by {
            let k = choose|k: int| 0 <= k < rb.len() && rb[k] == x;
            assert(b[k + 1] == x);
            assert(seq_lt(b[0], x));
            assert(b.contains(x));
            assert(a.contains(x));
            let m = choose|m: int| 0 <= m < a.len() && a[m] == x;
            if m == 0 {
                lemma_seq_lt_irreflexive(x);
            }
            assert(ra[m - 1] == x);
        }
        lemma_sorted_unique(ra, rb);
        assert(a =~= seq![a[0]] + ra);
        assert(b =~= seq![b[0]] + rb);
    }
}

impl CategoryList {
    /// The names, without their filter states.
    pub fn names(&self) -> (v: Vec<String>)
        ensures
            views(v@) == entry_names(self.vec@),
    {
        let mut v: Vec<String> = Vec::new();
        let mut i: usize = 0;
        while i < self.vec.len()
            invariant
                i <= self.vec@.len(),
                views(v@) == entry_names(self.vec@).take(i as int),
            decreases self.vec@.len() - i,
        {
            let ghost before = views(v@);
            v.push(copy_string(&self.vec[i].0));
            proof {
                assert(views(v@) =~= before.push(self.vec@[i as int].0@));
                assert(entry_names(self.vec@).take(i + 1) =~= entry_names(self.vec@).take(i as int).push(self.vec@[i as int].0@));
            }
            i = i + 1;
        }
        proof {
            assert(entry_names(self.vec@).take(i as int) =~= entry_names(self.vec@));
        }
        v
    }

    pub fn len(&self) -> (n: usize)
        ensures
            n == self.vec@.len(),
    {
        self.vec.len()
    }

    /// The name at position `index`.
    pub fn get_name(&self, index: usize) -> (s: &String)
        requires
            index < self.vec@.len(),
        ensures
            *s == self.vec@[index as int].0,
    {
        &self.vec[index].0
    }
}

/// Inserts `s` into the strictly sorted `v`, unless it is there already.
fn insert_sorted(v: &mut Vec<String>, s: &String)
    requires
        strictly_sorted(views(old(v)@)),
    ensures
        strictly_sorted(views(final(v)@)),
        forall|x: Seq<char>| views(final(v)@).contains(x) <==> (views(old(v)@).contains(x) || x == s@),
{
    let ghost w = views(v@);
    let mut p: usize = 0;
    while p < v.len() && str_lt(v[p].as_str(), s.as_str())
        invariant
            p <= v@.len(),
            w == views(v@),
            v@ == old(v)@,
            forall|k: int| 0 <= k < p ==> seq_lt(w[k], s@),
        decreases v@.len() - p,
    {
        p = p + 1;
    }
    if p < v.len() && str_eq(v[p].as_str(), s.as_str()) {
        proof {
            assert(w[p as int] == s@);
        }
        return;
    }
    proof {
        if p < w.len() {
            lemma_seq_lt_total(w[p as int], s@);
            assert(seq_lt(s@, w[p as int]));
        }
        assert forall|k: int| p <= k < w.len() implies seq_lt(s@, #[trigger] w[k]) by {
            if k > p {
                lemma_seq_lt_transitive(s@, w[p as int], w[k]);
            }
        }
    }
    v.insert(p, copy_string(s));
    proof {
        let nw = views(v@);
        assert(nw =~= w.insert(p as int, s@));
        assert forall|a: int, b: int| 0 <= a < b < nw.len() implies seq_lt(nw[a], nw[b]) by {
            if b < p {
            } else if b == p {
            } else if a < p {
                lemma_seq_lt_transitive(nw[a], s@, nw[b]);
            } else if a == p {
            } else {
            }
        }
        assert forall|x: Seq<char>| nw.contains(x) <==> (w.contains(x) || x == s@) by {
            if nw.contains(x) {
                let k = choose|k: int| 0 <= k < nw.len() && nw[k] == x;
                if k < p {
                    assert(w[k] == x);
                } else if k > p {
                    assert(w[k - 1] == x);
                }
            }
            if w.contains(x) {
                let k = choose|k: int| 0 <= k < w.len() && w[k] == x;
                if k < p {
                    assert(nw[k] == x);
                } else {
                    assert(nw[k + 1] == x);
                }
            }
            if x == s@ {
                assert(nw[p as int] == x);
            }
        }
    }
}

/// Inserts the names of category `c` of all tasks into `v`.
fn insert_task_names(v: &mut Vec<String>, tasks: &Vec<Task>, c: ToDoCategory)
    requires
        strictly_sorted(views(old(v)@)),
    ensures
        strictly_sorted(views(final(v)@)),
        forall|x: Seq<char>| views(final(v)@).contains(x) <==> (views(old(v)@).contains(x)
            || names_upto(tasks@, c, tasks@.len() as int).contains(x)),
{
    let mut i: usize = 0;
    while i < tasks.len()
        invariant
            i <= tasks@.len(),
            strictly_sorted(views(v@)),
            forall|x: Seq<char>| views(v@).contains(x) <==> (views(old(v)@).contains(x)
                || names_upto(tasks@, c, i as int).contains(x)),
        decreases tasks@.len() - i,
    {
        let names = match c {
            ToDoCategory::Projects => &tasks[i].projects,
            ToDoCategory::Contexts => &tasks[i].contexts,
            ToDoCategory::Hashtags => &tasks[i].hashtags,
        };
        proof {
            assert(views(names@) == category_names(tasks@[i as int]@, c));
        }
        let mut j: usize = 0;
        while j < names.len()
            invariant
                i < tasks@.len(),
                j <= names@.len(),
                views(names@) == category_names(tasks@[i as int]@, c),
                strictly_sorted(views(v@)),
                forall|x: Seq<char>| views(v@).contains(x) <==> (views(old(v)@).contains(x)
                    || names_upto(tasks@, c, i as int).contains(x) || views(names@).subrange(0, j as int).contains(x)),
            decreases names@.len() - j,
        {
            let ghost before = views(v@);
            insert_sorted(v, &names[j]);
            proof {
                assert forall|x: Seq<char>| views(v@).contains(x) <==> (views(old(v)@).contains(x)
                    || names_upto(tasks@, c, i as int).contains(x) || views(names@).subrange(0, j + 1).contains(x)) by {
                    let s1 = views(names@).subrange(0, j + 1);
                    let s0 = views(names@).subrange(0, j as int);
                    if s1.contains(x) {
                        let k = choose|k: int| 0 <= k < s1.len() && s1[k] == x;
                        if k < j {
                            assert(s0[k] == x);
                        }
                    }
                    if s0.contains(x) {
                        let k = choose|k: int| 0 <= k < s0.len() && s0[k] == x;
                        assert(s1[k] == x);
                    }
                    if x == names@[j as int]@ {
                        assert(views(names@).subrange(0, j + 1)[j as int] == x);
                    }
                }
            }
            j = j + 1;
        }
        proof {
            assert(views(names@).subrange(0, names@.len() as int) =~= views(names@));
            assert forall|x: Seq<char>| views(v@).contains(x) <==> (views(old(v)@).contains(x)
                || names_upto(tasks@, c, i + 1).contains(x)) by {
                if names_upto(tasks@, c, i + 1).contains(x) {
                    let k = choose|k: int| 0 <= k < i + 1 && #[trigger] category_names(tasks@[k]@, c).contains(x);
                    if k < i {
                        assert(names_upto(tasks@, c, i as int).contains(x));
                    }
                }
                if names_upto(tasks@, c, i as int).contains(x) {
                    let k = choose|k: int| 0 <= k < i && #[trigger] category_names(tasks@[k]@, c).contains(x);
                    assert(names_upto(tasks@, c, i + 1).contains(x));
                }
                if views(names@).contains(x) {
                    assert(category_names(tasks@[i as int]@, c).contains(x));
                    assert(names_upto(tasks@, c, i + 1).contains(x));
                }
            }
        }
        i = i + 1;
    }
}

/// The state of the filter named `name`, if there is one.
fn lookup_filter(filters: &Vec<(String, FilterState)>, name: &String) -> (r: Option<FilterState>)
    requires
        keys_distinct(filter_views(filters@)),
    ensures
        r == filter_state_of(filter_views(filters@), name@),
{
    let ghost f = filter_views(filters@);
    let mut k: usize = 0;
    while k < filters.len()
        invariant
            k <= filters@.len(),
            f == filter_views(filters@),
            keys_distinct(f),
            forall|j: int| 0 <= j < k ==> f[j].0 != name@,
        decreases filters@.len() - k,
    {
        if str_eq(filters[k].0.as_str(), name.as_str()) {
            proof {
                assert(f[k as int].0 == name@);
                let c = choose|c: int| 0 <= c < f.len() && f[c].0 == name@;
                assert(c == k);
                assert(f[k as int].1 == filters@[k as int].1);
            }
            return Some(filters[k].1);
        }
        k = k + 1;
    }
    None
}

} // verus!

verus! {

impl ToDo {
    /// The sorted names of a category used by the pending tasks, by the done tasks when
    /// `use_done` is set, and by the filters, each with the state of its filter.
    pub fn get_categories(&self, category: ToDoCategory) -> (r: CategoryList)
        requires
            self.wf(),
        ensures
            strictly_sorted(entry_names(r.vec@)),
            forall|x: Seq<char>| entry_names(r.vec@).contains(x) <==> category_pool(*self, category).contains(x),
            entry_names(r.vec@) == listed(*self, category),
            forall|i: int| 0 <= i < r.vec@.len() ==> (#[trigger] r.vec@[i]).1 == filter_state_of(self.state.filters(category), r.vec@[i].0@),
    {
        let mut names: Vec<String> = Vec::new();
        proof {
            assert(views(names@) =~= Seq::<Seq<char>>::empty());
        }
        insert_task_names(&mut names, &self.pending, category);
        let ghost after_pending = views(names@);
        if self.config.use_done {
            insert_task_names(&mut names, &self.done, category);
        }
        let ghost tasks_names = views(names@);
        proof {
            assert forall|x: Seq<char>| tasks_names.contains(x) <==> (names_upto(self.pending@, category, self.pending@.len() as int).contains(x)
                || (self.config.use_done && names_upto(self.done@, category, self.done@.len() as int).contains(x))) by {
                assert(!Seq::<Seq<char>>::empty().contains(x));
            }
        }
        let filters = self.state.get_category(category);
        let ghost f = filter_views(filters@);
        let ghost base = views(names@);
        let mut k: usize = 0;
        while k < filters.len()
            invariant
                k <= filters@.len(),
                f == filter_views(filters@),
                strictly_sorted(views(names@)),
                forall|x: Seq<char>| views(names@).contains(x) <==> (base.contains(x) || exists|j: int| 0 <= j < k && #[trigger] f[j].0 == x),
            decreases filters@.len() - k,
        {
            let ghost prev = views(names@);
            assert(forall|x: Seq<char>| prev.contains(x) <==> (base.contains(x) || exists|j: int| 0 <= j < k && #[trigger] f[j].0 == x));
            insert_sorted(&mut names, &filters[k].0);
            proof {
                assert(f[k as int].0 == filters@[k as int].0@);
                assert forall|x: Seq<char>| views(names@).contains(x) <==> (base.contains(x) || exists|j: int| 0 <= j < k + 1 && #[trigger] f[j].0 == x) by {
                    if views(names@).contains(x) {
                        if x == f[k as int].0 {
                            assert(f[k as int].0 == x);
                        } else {
                            assert(prev.contains(x));
                            if !base.contains(x) {
                                let j = choose|j: int| 0 <= j < k && #[trigger] f[j].0 == x;
                                assert(f[j].0 == x);
                            }
                        }
                    }
                    if exists|j: int| 0 <= j < k + 1 && #[trigger] f[j].0 == x {
                        let j = choose|j: int| 0 <= j < k + 1 && #[trigger] f[j].0 == x;
                        if j < k {
                            assert(exists|j2: int| 0 <= j2 < k && #[trigger] f[j2].0 == x);
                            assert(prev.contains(x));
                        } else {
                            assert(x == f[k as int].0);
                        }
                    }
                    if base.contains(x) {
                        assert(prev.contains(x));
                    }
                }
            }
            k = k + 1;
        }
        proof {
            assert(base == tasks_names);
            assert(f == self.state.filters(category));
            assert(f.len() == filters@.len());
            assert(k == f.len());
            assert forall|x: Seq<char>| views(names@).contains(x) <==> category_pool(*self, category).contains(x) by {
                assert(views(names@).contains(x) <==> (base.contains(x) || exists|j: int| 0 <= j < k && #[trigger] f[j].0 == x));
                assert(tasks_names.contains(x) <==> (names_upto(self.pending@, category, self.pending@.len() as int).contains(x)
                    || (self.config.use_done && names_upto(self.done@, category, self.done@.len() as int).contains(x))));
                if exists|j: int| 0 <= j < k && #[trigger] f[j].0 == x {
                    let j = choose|j: int| 0 <= j < k && #[trigger] f[j].0 == x;
                    assert(self.state.filters(category)[j].0 == x);
                }
                if exists|j: int| 0 <= j < self.state.filters(category).len() && #[trigger] self.state.filters(category)[j].0 == x {
                    let j = choose|j: int| 0 <= j < self.state.filters(category).len() && #[trigger] self.state.filters(category)[j].0 == x;
                    assert(f[j].0 == x);
                }
            }
        }
        let mut vec: Vec<(String, Option<FilterState>)> = Vec::new();
        let mut i: usize = 0;
        while i < names.len()
            invariant
                i <= names@.len(),
                vec@.len() == i,
                keys_distinct(filter_views(filters@)),
                filter_views(filters@) == self.state.filters(category),
                forall|j: int| 0 <= j < i ==> (#[trigger] vec@[j]).0@ == names@[j]@,
                strictly_sorted(views(names@)),
                forall|x: Seq<char>| views(names@).contains(x) <==> category_pool(*self, category).contains(x),
                forall|j: int| 0 <= j < i ==> (#[trigger] vec@[j]).1 == filter_state_of(self.state.filters(category), vec@[j].0@),
            decreases names@.len() - i,
        {
            let state = lookup_filter(filters, &names[i]);
            vec.push((copy_string(&names[i]), state));
            i = i + 1;
        }
        proof {
            assert(entry_names(vec@) =~= views(names@));
            let l = listed(*self, category);
            assert(strictly_sorted(entry_names(vec@)) && forall|x: Seq<char>| #[trigger] entry_names(vec@).contains(x) <==> category_pool(*self, category).contains(x));
            lemma_sorted_unique(entry_names(vec@), l);
        }
        CategoryList { vec }
    }
}

} // verus!
