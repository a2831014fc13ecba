use vstd::prelude::*;
use crate::category_list::{entry_names, listed};
use crate::lines::{starts_with, starts_with_str, skip_str, take_str};
use crate::text::{chars_of, copy_string, push_char, push_str, string_of, strictly_sorted, to_string, views};
use crate::todo::ToDo;
use crate::widget_type::ToDoCategory;

verus! {

/// The position of the last space of `s`.
pub open spec fn last_space(s: Seq<char>) -> Option<int>
    decreases s.len(),
{
    if s.len() == 0 {
        None
    } else if s.last() == ' ' {
        Some(s.len() - 1)
    } else {
        last_space(s.drop_last())
    }
}

/// Where the last word of `s` starts: after its last space, or at the start.
pub open spec fn word_start(s: Seq<char>) -> int {
    match last_space(s) {
        Some(i) => i + 1,
        None => 0,
    }
}

/// How many characters `a` and `b` share at their start.
pub open spec fn common_len(a: Seq<char>, b: Seq<char>) -> nat
    decreases a.len(),
{
    if a.len() == 0 || b.len() == 0 || a[0] != b[0] {
        0
    } else {
        1 + common_len(a.skip(1), b.skip(1))
    }
}

/// The longest text that all of `ms` begin with (for at least one name).
pub open spec fn common_prefix(ms: Seq<Seq<char>>) -> Seq<char>
    decreases ms.len(),
{
    if ms.len() == 0 {
        seq![]
    } else if ms.len() == 1 {
        ms[0]
    } else {
        let p = common_prefix(ms.drop_last());
        p.take(common_len(p, ms.last()) as int)
    }
}

/// The category that a mark introduces: '+' projects, '@' contexts, '#' hashtags.
pub open spec fn category_of_mark(c: char) -> Option<ToDoCategory> {
    if c == '+' {
        Some(ToDoCategory::Projects)
    } else if c == '@' {
        Some(ToDoCategory::Contexts)
    } else if c == '#' {
        Some(ToDoCategory::Hashtags)
    } else {
        None
    }
}

/// The names that begin with `pattern`, in order.
pub open spec fn matching_names(names: Seq<Seq<char>>, pattern: Seq<char>) -> Seq<Seq<char>> {
    names.filter(|n: Seq<char>| starts_with(n, pattern))
}

/// The input `s` completed from `names`: the last word, after its mark, is the pattern; with
/// one name beginning with it, the rest of that name and a space are added; with several, the
/// rest of what they all begin with; with none, nothing changes.
pub open spec fn completed(s: Seq<char>, names: Seq<Seq<char>>) -> Seq<char> {
    let base = s.skip(word_start(s));
    if base.len() == 0 {
        s
    } else {
        let pattern = base.skip(1);
        let ms = matching_names(names, pattern);
        if ms.len() == 0 {
            s
        } else if ms.len() == 1 {
            s + ms[0].skip(pattern.len() as int) + seq![' ']
        } else {
            s + common_prefix(ms).skip(pattern.len() as int)
        }
    }
}

/// Completing only adds to the input; when exactly one name begins with the typed part of the
/// last word, that word becomes its mark, the whole name and a space.
pub proof fn lemma_completion(s: Seq<char>, names: Seq<Seq<char>>)
    ensures
        starts_with(completed(s, names), s),
        ({
            let w = word_start(s);
            let base = s.skip(w);
            base.len() > 0 && matching_names(names, base.skip(1)).len() == 1 ==> completed(s, names) == s.take(w)
                + seq![base[0]] + matching_names(names, base.skip(1))[0] + seq![' ']
        }),
{
    let w = word_start(s);
    let base = s.skip(w);
    lemma_last_space(s);
    assert(0 <= w <= s.len());
    let c = completed(s, names);
    assert(c.take(s.len() as int) =~= s);
    if base.len() > 0 {
        let pattern = base.skip(1);
        let pred = |n: Seq<char>| starts_with(n, pattern);
        let ms = matching_names(names, pattern);
        if ms.len() == 1 {
            names.lemma_filter_pred(pred, 0);
            let m = ms[0];
            assert(starts_with(m, pattern));
            assert(m.take(pattern.len() as int) == pattern);
            assert(s =~= s.take(w) + seq![base[0]] + pattern);
            assert(pattern + m.skip(pattern.len() as int) =~= m);
            assert(c =~= s.take(w) + seq![base[0]] + m + seq![' ']);
        }
    }
}

/// `last_space` finds the last space.
proof fn lemma_last_space(s: Seq<char>)
    ensures
        last_space(s) matches Some(i) ==> 0 <= i < s.len() && s[i] == ' ' && forall|j: int| i < j < s.len() ==> s[j] != ' ',
        last_space(s) is None ==> forall|j: int| 0 <= j < s.len() ==> s[j] != ' ',
    decreases s.len(),
{
    if s.len() > 0 && s.last() != ' ' {
        lemma_last_space(s.drop_last());
        assert forall|j: int| 0 <= j < s.len() - 1 implies s.drop_last()[j] == s[j] by {}
    }
}

/// `common_len` counts the shared start.
proof fn lemma_common_len(a: Seq<char>, b: Seq<char>)
    ensures
        common_len(a, b) <= a.len(),
        common_len(a, b) <= b.len(),
        forall|j: int| 0 <= j < common_len(a, b) ==> a[j] == b[j],
        common_len(a, b) < a.len() && common_len(a, b) < b.len() ==> a[common_len(a, b) as int] != b[common_len(a, b) as int],
    decreases a.len(),
{
    if !(a.len() == 0 || b.len() == 0 || a[0] != b[0]) {
        lemma_common_len(a.skip(1), b.skip(1));
        assert forall|j: int| 0 <= j < common_len(a, b) implies a[j] == b[j] by {
            if j > 0 {
                assert(a[j] == a.skip(1)[j - 1]);
                assert(b[j] == b.skip(1)[j - 1]);
            }
        }
        let n = common_len(a, b) as int;
        if n < a.len() && n < b.len() {
            assert(a[n] == a.skip(1)[n - 1]);
            assert(b[n] == b.skip(1)[n - 1]);
        }
    }
}

/// A shared start of length `n` found by comparing characters is `common_len`.
proof fn lemma_common_len_exact(a: Seq<char>, b: Seq<char>, n: int)
    requires
        0 <= n <= a.len(),
        n <= b.len(),
        forall|j: int| 0 <= j < n ==> a[j] == b[j],
        n == a.len() || n == b.len() || a[n] != b[n],
    ensures
        common_len(a, b) == n,
    decreases n,
{
    if n > 0 {
        assert forall|j: int| 0 <= j < n - 1 implies a.skip(1)[j] == b.skip(1)[j] by {
            assert(a.skip(1)[j] == a[j + 1]);
            assert(b.skip(1)[j] == b[j + 1]);
        }
        if n < a.len() && n < b.len() {
            assert(a.skip(1)[n - 1] == a[n]);
            assert(b.skip(1)[n - 1] == b[n]);
        }
        lemma_common_len_exact(a.skip(1), b.skip(1), n - 1);
    }
}

/// When every name begins with `p`, so does what they all begin with.
proof fn lemma_common_prefix_starts(ms: Seq<Seq<char>>, p: Seq<char>)
    requires
        ms.len() > 0,
        forall|k: int| 0 <= k < ms.len() ==> starts_with(#[trigger] ms[k], p),
    ensures
        starts_with(common_prefix(ms), p),
    decreases ms.len(),
{
    if ms.len() > 1 {
        let q = ms.drop_last();
        assert forall|k: int| 0 <= k < q.len() implies starts_with(#[trigger] q[k], p) by {
            assert(q[k] == ms[k]);
        }
        lemma_common_prefix_starts(q, p);
        let c = common_prefix(q);
        let b = ms.last();
        assert(starts_with(b, p));
        lemma_common_len(c, b);
        let n = common_len(c, b) as int;
        assert forall|j: int| 0 <= j < p.len() implies c[j] == b[j] by {
            assert(c.take(p.len() as int)[j] == c[j]);
            assert(b.take(p.len() as int)[j] == b[j]);
        }
        if n < p.len() {
            assert(c[n] == b[n]);
        }
        assert(common_prefix(ms) == c.take(n));
        assert(c.take(n).take(p.len() as int) =~= c.take(p.len() as int));
    }
}

/// The longest start that two texts share.
fn common_start(a: &Vec<char>, b: &str) -> (r: Vec<char>)
    ensures
        r@ == a@.take(common_len(a@, b@) as int),
{
    let w = chars_of(b);
    let mut n: usize = 0;
    while n < a.len() && n < w.len() && a[n] == w[n]
        invariant
            n <= a@.len(),
            n <= w@.len(),
            w@ == b@,
            forall|j: int| 0 <= j < n ==> a@[j] == w@[j],
        decreases a@.len() - n,
    {
        n = n + 1;
    }
    proof {
        lemma_common_len_exact(a@, b@, n as int);
    }
    let mut r: Vec<char> = Vec::new();
    let mut k: usize = 0;
    while k < n
        invariant
            k <= n <= a@.len(),
            r@ == a@.take(k as int),
        decreases n - k,
    {
        r.push(a[k]);
        k = k + 1;
        assert(r@ =~= a@.take(k as int));
    }
    r
}

/// Where the last word of the text starts (see `word_start`).
fn word_start_of(s: &str) -> (r: usize)
    ensures
        r == word_start(s@),
        r <= s@.len(),
{
    let v = chars_of(s);
    let mut i: usize = v.len();
    proof {
        lemma_last_space(s@);
    }
    while i > 0 && v[i - 1] != ' '
        invariant
            i <= v@.len(),
            v@ == s@,
            forall|j: int| i <= j < v@.len() ==> v@[j] != ' ',
        decreases i,
    {
        i = i - 1;
    }
    i
}

/// Completes the input from `names` (see `completed`).
pub fn complete_with(actual: &str, names: &Vec<String>) -> (r: String)
    ensures
        r@ == completed(actual@, views(names@)),
{
    let start = word_start_of(actual);
    let base = skip_str(actual, start);
    let bv = chars_of(base.as_str());
    if bv.len() == 0 {
        return to_string(actual);
    }
    let pattern = skip_str(base.as_str(), 1);
    let plen = chars_of(pattern.as_str()).len();
    let ghost ns = views(names@);
    let ghost p = |n: Seq<char>| starts_with(n, pattern@);
    let mut ms: Vec<String> = Vec::new();
    let mut i: usize = 0;
    while i < names.len()
        invariant
            i <= names@.len(),
            ns == views(names@),
            p == (|n: Seq<char>| starts_with(n, pattern@)),
            views(ms@) == ns.take(i as int).filter(p),
        decreases names@.len() - i,
    {
        proof {
            reveal(Seq::filter);
            assert(ns.take(i + 1).drop_last() =~= ns.take(i as int));
        }
        let ghost before = views(ms@);
        if starts_with_str(names[i].as_str(), pattern.as_str()) {
            ms.push(copy_string(&names[i]));
            assert(views(ms@) =~= before.push(ns[i as int]));
        }
        i = i + 1;
    }
    assert(ns.take(names@.len() as int) =~= ns);
    let ghost msv = views(ms@);
    assert(msv == matching_names(ns, pattern@));
    proof {
        assert forall|k: int| 0 <= k < msv.len() implies starts_with(#[trigger] msv[k], pattern@) by {
            ns.lemma_filter_pred(p, k);
        }
    }
    if ms.len() == 0 {
        return to_string(actual);
    }
    let mut out = to_string(actual);
    if ms.len() == 1 {
        assert(starts_with(msv[0], pattern@));
        let rest = skip_str(ms[0].as_str(), plen);
        push_str(&mut out, rest.as_str());
        push_char(&mut out, ' ');
        return out;
    }
    let mut pre: Vec<char> = chars_of(ms[0].as_str());
    let mut k: usize = 1;
    assert(msv.take(1).drop_last() =~= Seq::<Seq<char>>::empty());
    while k < ms.len()
        invariant
            1 <= k <= ms@.len(),
            msv == views(ms@),
            pre@ == common_prefix(msv.take(k as int)),
        decreases ms@.len() - k,
    {
        proof {
            assert(msv.take(k + 1).drop_last() =~= msv.take(k as int));
            assert(msv.take(k + 1).last() == ms@[k as int]@);
        }
        pre = common_start(&pre, ms[k].as_str());
        k = k + 1;
    }
    assert(msv.take(ms@.len() as int) =~= msv);
    proof {
        lemma_common_prefix_starts(msv, pattern@);
    }
    let pre_s = string_of(&pre);
    let rest = skip_str(pre_s.as_str(), plen);
    push_str(&mut out, rest.as_str());
    out
}

/// The keys that the task input reacts to; any other key is `Other`.
#[derive(PartialEq, Eq, Structural, Debug, Copy, Clone)]
pub enum InputKey {
    Char(char),
    Backspace,
    Enter,
    Esc,
    Tab,
    Other,
}

/// The text typed into the task input.
pub struct StateInput {
    pub actual: String,
}

impl StateInput {
    /// An empty input.
    pub fn new() -> (s: StateInput)
        ensures
            s.actual@.len() == 0,
    {
        StateInput { actual: String::new() }
    }

    /// The category that the last word of the input names by its mark, if any.
    pub fn mark_category(&self) -> (r: Option<ToDoCategory>)
        ensures
            r == (if self.actual@.skip(word_start(self.actual@)).len() > 0 {
                category_of_mark(self.actual@.skip(word_start(self.actual@))[0])
            } else {
                None
            }),
    {
        let start = word_start_of(self.actual.as_str());
        let base = skip_str(self.actual.as_str(), start);
        let bv = chars_of(base.as_str());
        if bv.len() == 0 {
            return None;
        }
        let c = bv[0];
        if c == '+' {
            Some(ToDoCategory::Projects)
        } else if c == '@' {
            Some(ToDoCategory::Contexts)
        } else if c == '#' {
            Some(ToDoCategory::Hashtags)
        } else {
            None
        }
    }

    /// Completes the last word of the input from the names of the category its mark names
    /// (see `completed`); without such a mark the input stays.
    pub fn autocomplete(&mut self, todo: &ToDo)
        requires
            todo.wf(),
        ensures
            match old(self).mark_category_spec() {
                Some(c) => final(self).actual@ == completed(old(self).actual@, listed(*todo, c)),
                None => final(self).actual@ == old(self).actual@,
            },
    {
        match self.mark_category() {
            None => {},
            Some(c) => {
                let list = todo.get_categories(c);
                let mut names: Vec<String> = Vec::new();
                let mut i: usize = 0;
                while i < list.vec.len()
                    invariant
                        i <= list.vec@.len(),
                        views(names@) == entry_names(list.vec@).take(i as int),
                    decreases list.vec@.len() - i,
                {
                    let ghost before = views(names@);
                    let nm = copy_string(&list.vec[i].0);
                    names.push(nm);
                    proof {
                        assert(views(names@) =~= before.push(list.vec@[i as int].0@));
                        assert(entry_names(list.vec@).take(i + 1) =~= entry_names(list.vec@).take(i as int).push(
                            list.vec@[i as int].0@,
                        ));
                    }
                    i = i + 1;
                }
                assert(entry_names(list.vec@).take(list.vec@.len() as int) =~= entry_names(list.vec@));
                let ghost old_actual = self.actual@;
                self.actual = complete_with(self.actual.as_str(), &names);
                assert(completed(old_actual, views(names@)) == self.actual@);
            },
        }
    }

    /// The category that the last word of the input names by its mark, if any.
    pub open spec fn mark_category_spec(&self) -> Option<ToDoCategory> {
        if self.actual@.skip(word_start(self.actual@)).len() > 0 {
            category_of_mark(self.actual@.skip(word_start(self.actual@))[0])
        } else {
            None
        }
    }

    /// Appends a typed character.
    pub fn push(&mut self, c: char)
        ensures
            final(self).actual@ == old(self).actual@.push(c),
    {
        push_char(&mut self.actual, c);
    }

    /// Removes the last typed character, if there is one.
    pub fn pop(&mut self)
        ensures
            final(self).actual@ == (if old(self).actual@.len() > 0 {
                old(self).actual@.drop_last()
            } else {
                old(self).actual@
            }),
    {
        let v = chars_of(self.actual.as_str());
        if v.len() > 0 {
            let mut w: Vec<char> = Vec::new();
            let mut i: usize = 0;
            let n = v.len() - 1;
            while i < n
                invariant
                    n == v@.len() - 1,
                    i <= n,
                    w@ == v@.take(i as int),
                decreases v@.len() - i,
            {
                w.push(v[i]);
                i = i + 1;
                assert(w@ =~= v@.take(i as int));
            }
            assert(w@ =~= v@.drop_last());
            self.actual = string_of(&w);
        }
    }

    /// Reacts to a key: a character is typed, backspace removes the last one, enter adds
    /// the typed task (see `submit`), escape clears the input and tab completes the last word
    /// (see `autocomplete`); other keys do nothing.
    pub fn handle_key(&mut self, key: InputKey, todo: &mut ToDo)
        requires
            old(todo).wf(),
        ensures
            key != InputKey::Enter ==> *final(todo) == *old(todo),
            match key {
                InputKey::Char(c) => final(self).actual@ == old(self).actual@.push(c),
                InputKey::Backspace => final(self).actual@ == (if old(self).actual@.len() > 0 {
                    old(self).actual@.drop_last()
                } else {
                    old(self).actual@
                }),
                InputKey::Enter => final(self).actual@.len() == 0 && final(todo).state == old(todo).state
                    && final(todo).config == old(todo).config && exists|d: crate::date::Date|
                    #![trigger crate::todo::new_task_view(old(self).actual@, d)]
                    crate::date::valid_date(d) && (if crate::todo::new_task_view(old(self).actual@, d).finished {
                        crate::todo::pushed(old(todo).done@, final(todo).done@, crate::todo::new_task_view(old(self).actual@, d))
                            && final(todo).pending@ == old(todo).pending@
                    } else {
                        crate::todo::pushed(old(todo).pending@, final(todo).pending@, crate::todo::new_task_view(old(self).actual@, d))
                            && final(todo).done@ == old(todo).done@
                    }),
                InputKey::Esc => final(self).actual@.len() == 0,
                InputKey::Tab => match old(self).mark_category_spec() {
                    Some(c) => final(self).actual@ == completed(old(self).actual@, listed(*old(todo), c)),
                    None => final(self).actual@ == old(self).actual@,
                },
                InputKey::Other => final(self).actual@ == old(self).actual@,
            },
    {
        match key {
            InputKey::Char(c) => self.push(c),
            InputKey::Backspace => self.pop(),
            InputKey::Enter => self.submit(todo),
            InputKey::Esc => self.clear(),
            InputKey::Tab => self.autocomplete(todo),
            InputKey::Other => {},
        }
    }

    /// Clears the input.
    pub fn clear(&mut self)
        ensures
            final(self).actual@.len() == 0,
    {
        self.actual = String::new();
    }

    /// Adds the typed task to the lists and clears the input.
    pub fn submit(&mut self, todo: &mut ToDo)
        ensures
            final(self).actual@.len() == 0,
            final(todo).state == old(todo).state,
            final(todo).config == old(todo).config,
            exists|d: crate::date::Date| #![trigger crate::todo::new_task_view(old(self).actual@, d)]
                crate::date::valid_date(d) && (if crate::todo::new_task_view(old(self).actual@, d).finished {
                    crate::todo::pushed(old(todo).done@, final(todo).done@, crate::todo::new_task_view(old(self).actual@, d))
                        && final(todo).pending@ == old(todo).pending@
                } else {
                    crate::todo::pushed(old(todo).pending@, final(todo).pending@, crate::todo::new_task_view(old(self).actual@, d))
                        && final(todo).done@ == old(todo).done@
                }),
    {
        todo.new_task(self.actual.as_str());
        self.actual = String::new();
    }
}

} // verus!
