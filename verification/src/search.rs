use vstd::prelude::*;
use crate::text::{chars_of, views};

verus! {

/// `p` occurs in `s` starting at position `i`.
pub open spec fn occurs_at(s: Seq<char>, p: Seq<char>, i: int) -> bool {
    0 <= i && i + p.len() <= s.len() && s.subrange(i, i + p.len()) == p
}

/// `p` occurs somewhere in `s`.
pub open spec fn has_infix(s: Seq<char>, p: Seq<char>) -> bool {
    exists|i: int| occurs_at(s, p, i)
}

/// The position of the first entry at or after `from` that contains `s`.
pub open spec fn match_from(names: Seq<Seq<char>>, s: Seq<char>, from: int) -> Option<int>
    decreases names.len() - from,
{
    if from < 0 || from >= names.len() {
        None
    } else if has_infix(names[from], s) {
        Some(from)
    } else {
        match_from(names, s, from + 1)
    }
}

/// The position of the last entry before `upto` that contains `s`.
pub open spec fn match_before(names: Seq<Seq<char>>, s: Seq<char>, upto: int) -> Option<int>
    decreases upto,
{
    if upto <= 0 {
        None
    } else if upto > names.len() {
        match_before(names, s, names.len() as int)
    } else if has_infix(names[upto - 1], s) {
        Some(upto - 1)
    } else {
        match_before(names, s, upto - 1)
    }
}

/// Where a search moves the cursor from `index`: to the next entry after it that contains the
/// search text (or, backward, the last one before it); it stays when there is no search text
/// or no such entry.
pub open spec fn search_target(names: Seq<Seq<char>>, to_search: Option<String>, index: int, forward: bool) -> int {
    match to_search {
        None => index,
        Some(s) => if forward {
            match match_from(names, s@, index + 1) {
                Some(p) => p,
                None => index,
            }
        } else {
            match match_before(names, s@, index) {
                Some(p) => p,
                None => index,
            }
        },
    }
}

/// A match found from `from` lies at or after it and inside the entries.
pub proof fn lemma_match_from_bounds(names: Seq<Seq<char>>, s: Seq<char>, from: int)
    ensures
        match_from(names, s, from) matches Some(p) ==> from <= p < names.len() && has_infix(names[p], s)
            && forall|j: int| from <= j < p ==> !has_infix(#[trigger] names[j], s),
        match_from(names, s, from) is None && 0 <= from ==> forall|j: int| from <= j < names.len() ==> !has_infix(#[trigger] names[j], s),
    decreases names.len() - from,
{
    if 0 <= from < names.len() && !has_infix(names[from], s) {
        lemma_match_from_bounds(names, s, from + 1);
    }
}

/// A match found before `upto` lies before it and inside the entries.
pub proof fn lemma_match_before_bounds(names: Seq<Seq<char>>, s: Seq<char>, upto: int)
    ensures
        match_before(names, s, upto) matches Some(p) ==> 0 <= p < upto && p < names.len() && has_infix(names[p], s)
            && forall|j: int| p < j < upto && j < names.len() ==> !has_infix(#[trigger] names[j], s),
        match_before(names, s, upto) is None ==> forall|j: int| 0 <= j < upto && j < names.len() ==> !has_infix(#[trigger] names[j], s),
    decreases upto,
{
    if upto > names.len() {
        if upto > 0 {
            lemma_match_before_bounds(names, s, names.len() as int);
        }
    } else if upto > 0 && !has_infix(names[upto - 1], s) {
        lemma_match_before_bounds(names, s, upto - 1);
    }
}

/// A search moves the cursor onto an entry that contains the search text, in the direction
/// of the search, past no other such entry; when the cursor stays, there is no such entry in
/// that direction.
pub proof fn lemma_search_target(names: Seq<Seq<char>>, to_search: Option<String>, index: int, forward: bool)
    requires
        0 <= index < names.len(),
    ensures
        ({
            let t = search_target(names, to_search, index, forward);
            &&& 0 <= t < names.len()
            &&& forward ==> t >= index
            &&& !forward ==> t <= index
            &&& to_search matches Some(s) ==> {
                &&& t != index ==> has_infix(names[t], s@)
                &&& forward ==> forall|j: int| index < j < t ==> !has_infix(#[trigger] names[j], s@)
                &&& !forward ==> forall|j: int| t < j < index ==> !has_infix(#[trigger] names[j], s@)
                &&& forward && t == index ==> forall|j: int| index < j < names.len() ==> !has_infix(#[trigger] names[j], s@)
                &&& !forward && t == index ==> forall|j: int| 0 <= j < index ==> !has_infix(#[trigger] names[j], s@)
            }
        }),
{
    if let Some(s) = to_search {
        lemma_match_from_bounds(names, s@, index + 1);
        lemma_match_before_bounds(names, s@, index);
    }
}

/// Whether `p` occurs in `s` at position `i`.
fn occurs_at_exec(s: &Vec<char>, p: &Vec<char>, i: usize) -> (r: bool)
    ensures
        r == occurs_at(s@, p@, i as int),
{
    if i > s.len() || p.len() > s.len() - i {
        return false;
    }
    let mut k: usize = 0;
    while k < p.len()
        invariant
            i + p.len() <= s.len(),
            k <= p@.len(),
            forall|j: int| 0 <= j < k ==> s@[i + j] == p@[j],
        decreases p@.len() - k,
    {
        if s[i + k] != p[k] {
            proof {
                assert(s@.subrange(i as int, i + p@.len())[k as int] == s@[i + k]);
            }
            return false;
        }
        k = k + 1;
    }
    assert(s@.subrange(i as int, i + p@.len()) =~= p@);
    true
}

/// Whether `p` occurs in `s`.
pub fn contains_text(s: &str, p: &str) -> (r: bool)
    ensures
        r == has_infix(s@, p@),
{
    let v = chars_of(s);
    let w = chars_of(p);
    if w.len() == 0 {
        assert(s@.subrange(0, 0) =~= p@);
        assert(occurs_at(s@, p@, 0));
        return true;
    }
    let mut i: usize = 0;
    while i < v.len()
        invariant
            v@ == s@,
            w@ == p@,
            p@.len() > 0,
            i <= v@.len(),
            forall|j: int| 0 <= j < i ==> !occurs_at(s@, p@, j),
        decreases v@.len() - i,
    {
        if occurs_at_exec(&v, &w, i) {
            return true;
        }
        i = i + 1;
    }
    assert forall|j: int| !occurs_at(s@, p@, j) by {
        if 0 <= j < i {
        }
    }
    false
}

/// How many entries past `from` the first entry at or after `from` that contains `to_search`
/// lies, if there is one.
pub fn next_search_index(names: &Vec<String>, to_search: &str, from: usize) -> (r: Option<usize>)
    ensures
        r == (match match_from(views(names@), to_search@, from as int) {
            Some(p) => Some((p - from) as usize),
            None => None::<usize>,
        }),
{
    let ghost ns = views(names@);
    let mut i: usize = from;
    while i < names.len()
        invariant
            ns == views(names@),
            from <= i,
            i >= names@.len() ==> match_from(ns, to_search@, i as int) is None,
            match_from(ns, to_search@, from as int) == match_from(ns, to_search@, i as int),
        decreases names@.len() - i,
    {
        assert(ns[i as int] == names@[i as int]@);
        if contains_text(names[i].as_str(), to_search) {
            return Some(i - from);
        }
        i = i + 1;
    }
    None
}

/// How many entries before `upto` the last entry before `upto` that contains `to_search`
/// lies (0 for the entry right before it), if there is one.
pub fn prev_search_index(names: &Vec<String>, to_search: &str, upto: usize) -> (r: Option<usize>)
    ensures
        r == (match match_before(views(names@), to_search@, upto as int) {
            Some(p) => Some((upto - 1 - p) as usize),
            None => None::<usize>,
        }),
{
    let ghost ns = views(names@);
    proof {
        lemma_match_before_bounds(ns, to_search@, upto as int);
    }
    let mut i: usize = if upto > names.len() {
        names.len()
    } else {
        upto
    };
    while i > 0
        invariant
            ns == views(names@),
            i <= upto,
            i <= names@.len(),
            match_before(ns, to_search@, upto as int) == match_before(ns, to_search@, i as int),
        decreases i,
    {
        assert(ns[i - 1] == names@[i - 1]@);
        if contains_text(names[i - 1].as_str(), to_search) {
            return Some(upto - i);
        }
        i = i - 1;
    }
    None
}

} // verus!
