use vstd::prelude::*;
use crate::text::{chars_of, string_of, views};

verus! {

/// Whether `c` is white space as Rust's `char::is_whitespace` has it (the Unicode
/// `White_Space` property).
pub open spec fn is_ws(c: char) -> bool {
    ||| c == '\t' || c == '\n' || c == '\x0B' || c == '\x0C' || c == '\r' || c == ' '
    ||| c == '\u{85}' || c == '\u{A0}' || c == '\u{1680}'
    ||| ('\u{2000}' <= c && c <= '\u{200A}')
    ||| c == '\u{2028}' || c == '\u{2029}' || c == '\u{202F}' || c == '\u{205F}' || c == '\u{3000}'
}

/// Whether `c` is white space (see `is_ws`).
pub fn char_is_ws(c: char) -> (r: bool)
    ensures
        r == is_ws(c),
{
    c == '\t' || c == '\n' || c == '\x0B' || c == '\x0C' || c == '\r' || c == ' ' || c == '\u{85}'
        || c == '\u{A0}' || c == '\u{1680}' || ('\u{2000}' <= c && c <= '\u{200A}') || c == '\u{2028}'
        || c == '\u{2029}' || c == '\u{202F}' || c == '\u{205F}' || c == '\u{3000}'
}

/// `s` without leading white space.
pub open spec fn trim_start(s: Seq<char>) -> Seq<char>
    decreases s.len(),
{
    if s.len() > 0 && is_ws(s[0]) {
        trim_start(s.skip(1))
    } else {
        s
    }
}

/// `s` without trailing white space.
pub open spec fn trim_end(s: Seq<char>) -> Seq<char>
    decreases s.len(),
{
    if s.len() > 0 && is_ws(s.last()) {
        trim_end(s.drop_last())
    } else {
        s
    }
}

/// `s` without leading and trailing white space, as `str::trim` gives it.
pub open spec fn trim(s: Seq<char>) -> Seq<char> {
    trim_end(trim_start(s))
}

proof fn lemma_trim_start_at(s: Seq<char>, k: int)
    requires
        0 <= k <= s.len(),
        forall|j: int| 0 <= j < k ==> is_ws(s[j]),
        k == s.len() || !is_ws(s[k]),
    ensures
        trim_start(s) == s.skip(k),
    decreases k,
{
    if k == 0 {
        assert(s.skip(0) =~= s);
    } else {
        lemma_trim_start_at(s.skip(1), k - 1);
        assert(s.skip(1).skip(k - 1) =~= s.skip(k));
    }
}

proof fn lemma_trim_end_at(s: Seq<char>, k: int)
    requires
        0 <= k <= s.len(),
        forall|j: int| k <= j < s.len() ==> is_ws(s[j]),
        k == 0 || !is_ws(s[k - 1]),
    ensures
        trim_end(s) == s.take(k),
    decreases s.len() - k,
{
    if k == s.len() {
        assert(s.take(k) =~= s);
    } else {
        lemma_trim_end_at(s.drop_last(), k);
        assert(s.drop_last().take(k) =~= s.take(k));
    }
}

/// `s` without leading and trailing white space.
pub fn trim_chars(s: &[char]) -> (r: Vec<char>)
    ensures
        r@ == trim(s@),
{
    let mut a: usize = 0;
    while a < s.len() && char_is_ws(s[a])
        invariant
            a <= s@.len(),
            forall|j: int| 0 <= j < a ==> is_ws(s@[j]),
        decreases s@.len() - a,
    {
        a = a + 1;
    }
    proof {
        lemma_trim_start_at(s@, a as int);
    }
    let mut b: usize = s.len();
    while b > a && char_is_ws(s[b - 1])
        invariant
            a <= b <= s@.len(),
            forall|j: int| b <= j < s@.len() ==> is_ws(s@[j]),
        decreases b,
    {
        b = b - 1;
    }
    let ghost t = s@.skip(a as int);
    proof {
        assert forall|j: int| b - a <= j < t.len() implies is_ws(t[j]) by {
            assert(t[j] == s@[a + j]);
        }
        if b > a {
            assert(t[b - a - 1] == s@[b - 1]);
        }
        lemma_trim_end_at(t, b - a);
    }
    let mut r: Vec<char> = Vec::new();
    let mut i: usize = a;
    while i < b
        invariant
            a <= i <= b,
            b <= s@.len(),
            r@ == s@.subrange(a as int, i as int),
        decreases b - i,
    {
        r.push(s[i]);
        i = i + 1;
        proof {
            assert(r@ =~= s@.subrange(a as int, i as int));
        }
    }
    proof {
        assert(t.take(b - a) =~= s@.subrange(a as int, b as int));
    }
    r
}

/// The string without leading and trailing white space.
pub fn trim_str(s: &str) -> (r: String)
    ensures
        r@ == trim(s@),
{
    let v = chars_of(s);
    let t = trim_chars(&v);
    string_of(&t)
}

/// A line without the carriage return that ended it.
pub open spec fn strip_cr(l: Seq<char>) -> Seq<char> {
    if l.len() > 0 && l.last() == '\r' {
        l.drop_last()
    } else {
        l
    }
}

/// The position of the first `c` in `s`, if any.
pub open spec fn index_of(s: Seq<char>, c: char) -> Option<int>
    decreases s.len(),
{
    if s.len() == 0 {
        None
    } else if s[0] == c {
        Some(0)
    } else {
        match index_of(s.skip(1), c) {
            Some(i) => Some(i + 1),
            None => None,
        }
    }
}

proof fn lemma_index_of(s: Seq<char>, c: char, k: int)
    requires
        0 <= k <= s.len(),
        forall|j: int| 0 <= j < k ==> s[j] != c,
    ensures
        k < s.len() && s[k] == c ==> index_of(s, c) == Some(k),
        k == s.len() ==> index_of(s, c) is None,
    decreases k,
{
    if k > 0 {
        lemma_index_of(s.skip(1), c, k - 1);
    }
}

/// The lines of `s` as `str::lines` splits them: at each '\n', with a '\r' right before it
/// dropped; no line after a final '\n'.
pub open spec fn lines(s: Seq<char>) -> Seq<Seq<char>>
    decreases s.len(),
{
    if s.len() == 0 {
        seq![]
    } else {
        match index_of(s, '\n') {
            Some(i) => if 0 <= i < s.len() {
                seq![strip_cr(s.take(i))] + lines(s.skip(i + 1))
            } else {
                seq![s]
            },
            None => seq![s],
        }
    }
}

pub proof fn lemma_index_of_bound(s: Seq<char>, c: char)
    ensures
        index_of(s, c) matches Some(i) ==> 0 <= i < s.len() && s[i] == c,
    decreases s.len(),
{
    if s.len() > 0 {
        lemma_index_of_bound(s.skip(1), c);
    }
}

/// The lines of the text (see `lines`).
pub fn lines_of(s: &str) -> (r: Vec<String>)
    ensures
        views(r@) == lines(s@),
{
    let v = chars_of(s);
    let mut r: Vec<String> = Vec::new();
    let mut start: usize = 0;
    assert(v@.skip(0) =~= v@);
    while start < v.len()
        invariant
            start <= v@.len(),
            v@ == s@,
            views(r@) + lines(v@.skip(start as int)) == lines(s@),
        decreases v@.len() - start,
    {
        let ghost rest = v@.skip(start as int);
        let mut e: usize = start;
        while e < v.len() && v[e] != '\n'
            invariant
                start <= e <= v@.len(),
                forall|j: int| start <= j < e ==> v@[j] != '\n',
            decreases v@.len() - e,
        {
            e = e + 1;
        }
        proof {
            assert forall|j: int| 0 <= j < e - start implies rest[j] != '\n' by {
                assert(rest[j] == v@[start + j]);
            }
            if e < v@.len() {
                assert(rest[e - start] == v@[e as int]);
            }
            lemma_index_of(rest, '\n', e - start);
        }
        let mut line: Vec<char> = Vec::new();
        let mut k: usize = start;
        let end = if e < v.len() && e > start && v[e - 1] == '\r' { e - 1 } else { e };
        while k < end
            invariant
                start <= k <= end,
                end <= v@.len(),
                line@ == v@.subrange(start as int, k as int),
            decreases end - k,
        {
            line.push(v[k]);
            k = k + 1;
            proof {
                assert(line@ =~= v@.subrange(start as int, k as int));
            }
        }
        let ghost before = r@;
        r.push(string_of(&line));
        proof {
            assert(views(r@) =~= views(before).push(line@));
            if e < v@.len() {
                assert(rest.take(e - start) =~= v@.subrange(start as int, e as int));
                if e > start && v@[e - 1] == '\r' {
                    assert(strip_cr(rest.take(e - start)) =~= line@);
                } else {
                    assert(strip_cr(rest.take(e - start)) =~= line@);
                }
                assert(rest.skip(e - start + 1) =~= v@.skip(e + 1));
                assert(lines(rest) == seq![line@] + lines(v@.skip(e + 1)));
                assert(views(r@) + lines(v@.skip(e + 1)) =~= views(before) + lines(rest));
            } else {
                assert(rest =~= line@);
                assert(lines(rest) == seq![line@]);
                assert(v@.skip(v@.len() as int) =~= Seq::<char>::empty());
                assert(views(r@) + lines(v@.skip(v@.len() as int)) =~= views(before) + lines(rest));
            }
        }
        start = if e < v.len() { e + 1 } else { e };
    }
    proof {
        assert(v@.skip(start as int) =~= Seq::<char>::empty());
        assert(views(r@) + lines(v@.skip(start as int)) =~= views(r@));
    }
    r
}

/// The pieces of `s` between the occurrences of `c`, as `str::split` gives them: one more
/// than the occurrences, empty pieces included.
pub open spec fn split_on(s: Seq<char>, c: char) -> Seq<Seq<char>>
    decreases s.len(),
{
    match index_of(s, c) {
        Some(i) => if 0 <= i < s.len() {
            seq![s.take(i)] + split_on(s.skip(i + 1), c)
        } else {
            seq![s]
        },
        None => seq![s],
    }
}

/// The pieces of the text between the occurrences of `c` (see `split_on`).
pub fn split_str(s: &str, c: char) -> (r: Vec<String>)
    ensures
        views(r@) == split_on(s@, c),
{
    let v = chars_of(s);
    let mut r: Vec<String> = Vec::new();
    let mut start: usize = 0;
    assert(v@.skip(0) =~= v@);
    loop
        invariant
            start <= v@.len(),
            v@ == s@,
            views(r@) + split_on(v@.skip(start as int), c) == split_on(s@, c),
        decreases v@.len() - start,
    {
        let ghost rest = v@.skip(start as int);
        let mut e: usize = start;
        while e < v.len() && v[e] != c
            invariant
                start <= e <= v@.len(),
                forall|j: int| start <= j < e ==> v@[j] != c,
            decreases v@.len() - e,
        {
            e = e + 1;
        }
        proof {
            assert forall|j: int| 0 <= j < e - start implies rest[j] != c by {
                assert(rest[j] == v@[start + j]);
            }
            if e < v@.len() {
                assert(rest[e - start] == v@[e as int]);
            }
            lemma_index_of(rest, c, e - start);
        }
        let mut piece: Vec<char> = Vec::new();
        let mut k: usize = start;
        while k < e
            invariant
                start <= k <= e,
                e <= v@.len(),
                piece@ == v@.subrange(start as int, k as int),
            decreases e - k,
        {
            piece.push(v[k]);
            k = k + 1;
            proof {
                assert(piece@ =~= v@.subrange(start as int, k as int));
            }
        }
        let ghost before = r@;
        r.push(string_of(&piece));
        proof {
            assert(views(r@) =~= views(before).push(piece@));
            assert(rest.take(e - start) =~= piece@);
        }
        if e < v.len() {
            proof {
                assert(rest.skip(e - start + 1) =~= v@.skip(e + 1));
                assert(split_on(rest, c) == seq![piece@] + split_on(v@.skip(e + 1), c));
                assert(views(r@) + split_on(v@.skip(e + 1), c) =~= views(before) + split_on(rest, c));
            }
            start = e + 1;
        } else {
            proof {
                assert(rest =~= piece@);
                assert(split_on(rest, c) == seq![piece@]);
                assert(views(r@) =~= views(before) + split_on(rest, c));
            }
            return r;
        }
    }
}

/// `s` begins with `p`.
pub open spec fn starts_with(s: Seq<char>, p: Seq<char>) -> bool {
    p.len() <= s.len() && s.take(p.len() as int) == p
}

/// Whether the text begins with `p`.
pub fn starts_with_str(s: &str, p: &str) -> (r: bool)
    ensures
        r == starts_with(s@, p@),
{
    let v = chars_of(s);
    let w = chars_of(p);
    if w.len() > v.len() {
        return false;
    }
    let mut i: usize = 0;
    while i < w.len()
        invariant
            w@.len() <= v@.len(),
            v@ == s@,
            w@ == p@,
            i <= w@.len(),
            forall|j: int| 0 <= j < i ==> v@[j] == w@[j],
        decreases w@.len() - i,
    {
        if v[i] != w[i] {
            proof {
                assert(v@.take(w@.len() as int)[i as int] == v@[i as int]);
                assert(v@.take(w@.len() as int) != w@);
            }
            return false;
        }
        i = i + 1;
    }
    assert(v@.take(w@.len() as int) =~= w@);
    true
}

/// The text after its first `n` characters.
pub fn skip_str(s: &str, n: usize) -> (r: String)
    requires
        n <= s@.len(),
    ensures
        r@ == s@.skip(n as int),
{
    let v = chars_of(s);
    let mut out: Vec<char> = Vec::new();
    let mut i: usize = n;
    while i < v.len()
        invariant
            n <= i <= v@.len(),
            out@ == v@.subrange(n as int, i as int),
        decreases v@.len() - i,
    {
        out.push(v[i]);
        i = i + 1;
        proof {
            assert(out@ =~= v@.subrange(n as int, i as int));
        }
    }
    assert(v@.subrange(n as int, v@.len() as int) =~= v@.skip(n as int));
    string_of(&out)
}

/// The first `n` characters of the text.
pub fn take_str(s: &str, n: usize) -> (r: String)
    requires
        n <= s@.len(),
    ensures
        r@ == s@.take(n as int),
{
    let v = chars_of(s);
    let mut out: Vec<char> = Vec::new();
    let mut i: usize = 0;
    while i < n
        invariant
            i <= n <= v@.len(),
            out@ == v@.subrange(0, i as int),
        decreases n - i,
    {
        out.push(v[i]);
        i = i + 1;
        proof {
            assert(out@ =~= v@.subrange(0, i as int));
        }
    }
    assert(v@.subrange(0, n as int) =~= v@.take(n as int));
    string_of(&out)
}

/// The position of the first `c` in the text, if any.
pub fn find_char(s: &str, c: char) -> (r: Option<usize>)
    ensures
        r matches Some(i) ==> index_of(s@, c) == Some(i as int),
        r is None ==> index_of(s@, c) is None,
{
    let v = chars_of(s);
    let mut i: usize = 0;
    while i < v.len()
        invariant
            i <= v@.len(),
            v@ == s@,
            forall|j: int| 0 <= j < i ==> v@[j] != c,
        decreases v@.len() - i,
    {
        if v[i] == c {
            proof {
                lemma_index_of(v@, c, i as int);
            }
            return Some(i);
        }
        i = i + 1;
    }
    proof {
        lemma_index_of(v@, c, i as int);
    }
    None
}

/// The strings of `v` joined with `sep` between them.
pub open spec fn join(v: Seq<Seq<char>>, sep: Seq<char>) -> Seq<char>
    decreases v.len(),
{
    if v.len() == 0 {
        seq![]
    } else if v.len() == 1 {
        v[0]
    } else {
        join(v.drop_last(), sep) + sep + v.last()
    }
}

/// The strings joined with `sep` between them (see `join`).
pub fn join_strs(v: &Vec<String>, sep: &str) -> (r: String)
    ensures
        r@ == join(views(v@), sep@),
{
    let sepv = chars_of(sep);
    let mut out: Vec<char> = Vec::new();
    let mut i: usize = 0;
    while i < v.len()
        invariant
            i <= v@.len(),
            sepv@ == sep@,
            out@ == join(views(v@).take(i as int), sep@),
        decreases v@.len() - i,
    {
        let ghost before = out@;
        if i > 0 {
            let mut k: usize = 0;
            while k < sepv.len()
                invariant
                    k <= sepv@.len(),
                    out@ == before + sepv@.take(k as int),
                decreases sepv@.len() - k,
            {
                out.push(sepv[k]);
                k = k + 1;
                proof {
                    assert(out@ =~= before + sepv@.take(k as int));
                }
            }
            proof {
                assert(sepv@.take(sepv@.len() as int) =~= sepv@);
            }
        }
        let ghost mid = out@;
        let w = chars_of(v[i].as_str());
        let mut k: usize = 0;
        while k < w.len()
            invariant
                k <= w@.len(),
                out@ == mid + w@.take(k as int),
            decreases w@.len() - k,
        {
            out.push(w[k]);
            k = k + 1;
            proof {
                assert(out@ =~= mid + w@.take(k as int));
            }
        }
        proof {
            assert(w@.take(w@.len() as int) =~= w@);
            let t = views(v@).take(i + 1);
            assert(t.drop_last() =~= views(v@).take(i as int));
            assert(t.last() == v@[i as int]@);
            if i == 0 {
                assert(out@ =~= join(t, sep@));
            } else {
                assert(out@ =~= join(t, sep@));
            }
        }
        i = i + 1;
    }
    proof {
        assert(views(v@).take(v@.len() as int) =~= views(v@));
    }
    string_of(&out)
}

/// The characters that lines take up, each with one for the line break after it.
pub open spec fn lines_weight(ls: Seq<Seq<char>>) -> int
    decreases ls.len(),
{
    if ls.len() == 0 {
        0
    } else {
        ls[0].len() + 1 + lines_weight(ls.skip(1))
    }
}

/// The lines of a text take up at most its characters and one line break.
pub proof fn lemma_lines_weight(s: Seq<char>)
    ensures
        lines_weight(lines(s)) <= s.len() + 1,
    decreases s.len(),
{
    if s.len() > 0 {
        lemma_index_of_bound(s, '\n');
        match index_of(s, '\n') {
            Some(i) => {
                if 0 <= i < s.len() {
                    lemma_lines_weight(s.skip(i + 1));
                    let x = strip_cr(s.take(i));
                    let r = lines(s.skip(i + 1));
                    assert((seq![x] + r)[0] == x);
                    assert((seq![x] + r).skip(1) =~= r);
                    assert(lines(s) == seq![x] + r);
                    assert(x.len() <= i);
                    assert(lines_weight(seq![x] + r) == x.len() + 1 + lines_weight(r));
                } else {
                    assert(seq![s].skip(1) =~= Seq::<Seq<char>>::empty());
                    assert(lines_weight(seq![s]) == s.len() + 1 + lines_weight(Seq::<Seq<char>>::empty()));
                }
            },
            None => {
                assert(seq![s].skip(1) =~= Seq::<Seq<char>>::empty());
                assert(lines_weight(seq![s]) == s.len() + 1 + lines_weight(Seq::<Seq<char>>::empty()));
            },
        }
    }
}

/// The weight of lines from position `k` on is that of line `k` and of those after it.
pub proof fn lemma_lines_weight_step(ls: Seq<Seq<char>>, k: int)
    requires
        0 <= k < ls.len(),
    ensures
        lines_weight(ls.skip(k)) == ls[k].len() + 1 + lines_weight(ls.skip(k + 1)),
{
    assert(ls.skip(k)[0] == ls[k]);
    assert(ls.skip(k).skip(1) =~= ls.skip(k + 1));
}

/// Lines have a weight of at least zero.
pub proof fn lemma_lines_weight_nonneg(ls: Seq<Seq<char>>)
    ensures
        lines_weight(ls) >= 0,
    decreases ls.len(),
{
    if ls.len() > 0 {
        lemma_lines_weight_nonneg(ls.skip(1));
    }
}

/// The first `c` of `x` is the first of `x + y` too.
proof fn lemma_index_of_append(x: Seq<char>, y: Seq<char>, c: char)
    requires
        index_of(x, c) is Some,
    ensures
        index_of(x + y, c) == index_of(x, c),
    decreases x.len(),
{
    assert((x + y)[0] == x[0]);
    if x[0] != c {
        assert((x + y).skip(1) =~= x.skip(1) + y);
        lemma_index_of_append(x.skip(1), y, c);
    }
}

/// A text that ends with a line break splits into its lines and then the lines of what
/// follows it.
pub proof fn lemma_lines_append(x: Seq<char>, y: Seq<char>)
    requires
        x.len() == 0 || x.last() == '\n',
    ensures
        lines(x + y) == lines(x) + lines(y),
    decreases x.len(),
{
    if x.len() == 0 {
        assert(x + y =~= y);
        assert(lines(x) + lines(y) =~= lines(y));
    } else {
        lemma_index_of_exists(x, '\n', x.len() - 1);
        lemma_index_of_append(x, y, '\n');
        lemma_index_of_bound(x, '\n');
        let i = index_of(x, '\n')->0;
        assert((x + y).take(i) =~= x.take(i));
        assert((x + y).skip(i + 1) =~= x.skip(i + 1) + y);
        let rest = x.skip(i + 1);
        assert(rest.len() == 0 || rest.last() == '\n');
        lemma_lines_append(rest, y);
        assert(lines(x + y) == seq![strip_cr(x.take(i))] + lines(rest + y));
        assert(lines(x) == seq![strip_cr(x.take(i))] + lines(rest));
        assert(seq![strip_cr(x.take(i))] + (lines(rest) + lines(y)) =~= (seq![strip_cr(x.take(i))] + lines(rest)) + lines(y));
    }
}

/// Some `c` at position `j` means there is a first one.
proof fn lemma_index_of_exists(s: Seq<char>, c: char, j: int)
    requires
        0 <= j < s.len(),
        s[j] == c,
    ensures
        index_of(s, c) is Some,
    decreases j,
{
    if s[0] != c {
        lemma_index_of_exists(s.skip(1), c, j - 1);
    }
}

/// A line without line breaks and not ending with a carriage return, followed by a line
/// break, is one line.
pub proof fn lemma_lines_single(l: Seq<char>)
    requires
        !l.contains('\n'),
        strip_cr(l) == l,
    ensures
        lines(l + seq!['\n']) == seq![l],
{
    let s = l + seq!['\n'];
    assert forall|j: int| 0 <= j < l.len() implies s[j] != '\n' by {
        assert(s[j] == l[j]);
        if l[j] == '\n' {
            assert(l.contains('\n'));
        }
    }
    assert(s[l.len() as int] == '\n');
    lemma_index_of(s, '\n', l.len() as int);
    assert(index_of(s, '\n') == Some(l.len() as int));
    assert(s.take(l.len() as int) =~= l);
    assert(s.skip(l.len() + 1int) =~= Seq::<char>::empty());
    assert(lines(Seq::<char>::empty()) == Seq::<Seq<char>>::empty());
    assert(lines(s) == seq![strip_cr(l)] + lines(Seq::<char>::empty()));
    assert(seq![l] + Seq::<Seq<char>>::empty() =~= seq![l]);
}

/// A text without `c` has no `c` to find.
pub proof fn lemma_index_of_none(s: Seq<char>, c: char)
    requires
        !s.contains(c),
    ensures
        index_of(s, c) is None,
{
    assert forall|j: int| 0 <= j < s.len() implies s[j] != c by {
        if s[j] == c {
            assert(s.contains(c));
        }
    }
    lemma_index_of(s, c, s.len() as int);
}

/// Splitting at a `c` between two texts splits each of them.
pub proof fn lemma_split_append(x: Seq<char>, y: Seq<char>, c: char)
    ensures
        split_on(x + seq![c] + y, c) == split_on(x, c) + split_on(y, c),
    decreases x.len(),
{
    let s = x + seq![c] + y;
    lemma_index_of_bound(x, c);
    match index_of(x, c) {
        Some(i) => {
            lemma_index_of_append(x, seq![c] + y, c);
            assert(x + (seq![c] + y) =~= s);
            assert(s.take(i) =~= x.take(i));
            assert(s.skip(i + 1) =~= x.skip(i + 1) + seq![c] + y);
            lemma_split_append(x.skip(i + 1), y, c);
            assert(seq![x.take(i)] + (split_on(x.skip(i + 1), c) + split_on(y, c)) =~= (seq![x.take(i)] + split_on(x.skip(i + 1), c)) + split_on(y, c));
        },
        None => {
            assert forall|j: int| 0 <= j < x.len() implies s[j] != c by {
                assert(s[j] == x[j]);
                if x[j] == c {
                    lemma_index_of_exists(x, c, j);
                }
            }
            lemma_index_of(s, c, x.len() as int);
            assert(s.take(x.len() as int) =~= x);
            assert(s.skip(x.len() + 1int) =~= y);
        },
    }
}

/// Splitting texts joined by `c` at `c` gives them back, when none holds `c`.
pub proof fn lemma_split_join(v: Seq<Seq<char>>, c: char)
    requires
        v.len() > 0,
        forall|i: int| 0 <= i < v.len() ==> !(#[trigger] v[i]).contains(c),
    ensures
        split_on(join(v, seq![c]), c) == v,
    decreases v.len(),
{
    if v.len() == 1 {
        lemma_index_of_none(v[0], c);
        assert(seq![v[0]] =~= v);
    } else {
        let d = v.drop_last();
        assert forall|i: int| 0 <= i < d.len() implies !(#[trigger] d[i]).contains(c) by {
            assert(d[i] == v[i]);
        }
        lemma_split_join(d, c);
        lemma_split_append(join(d, seq![c]), v.last(), c);
        assert(!v[v.len() - 1].contains(c));
        lemma_index_of_none(v.last(), c);
        assert(d + seq![v.last()] =~= v);
    }
}

/// The first `c` of `s` has no `c` before it, and a text with no first `c` has none at all.
pub proof fn lemma_index_of_first(s: Seq<char>, c: char)
    ensures
        index_of(s, c) matches Some(i) ==> forall|j: int| 0 <= j < i ==> s[j] != c,
        index_of(s, c) is None ==> !s.contains(c),
    decreases s.len(),
{
    if s.len() > 0 {
        lemma_index_of_first(s.skip(1), c);
        lemma_index_of_bound(s.skip(1), c);
        if s[0] != c {
            if let Some(k) = index_of(s.skip(1), c) {
                assert forall|j: int| 0 <= j < k + 1 implies s[j] != c by {
                    if j > 0 {
                        assert(s[j] == s.skip(1)[j - 1]);
                    }
                }
            }
            if index_of(s.skip(1), c) is None {
                assert forall|j: int| 0 <= j < s.len() implies s[j] != c by {
                    if j > 0 {
                        assert(s[j] == s.skip(1)[j - 1]);
                        if s[j] == c {
                            assert(s.skip(1).contains(c));
                        }
                    }
                }
                assert(!s.contains(c));
            }
        }
    }
}

/// No line of a text holds a line feed.
pub proof fn lemma_lines_no_lf(s: Seq<char>)
    ensures
        forall|i: int| 0 <= i < lines(s).len() ==> !(#[trigger] lines(s)[i]).contains('\n'),
    decreases s.len(),
{
    if s.len() > 0 {
        lemma_index_of_first(s, '\n');
        lemma_index_of_bound(s, '\n');
        match index_of(s, '\n') {
            Some(i) => {
                let h = s.take(i);
                assert forall|j: int| 0 <= j < h.len() implies h[j] != '\n' by {
                    assert(h[j] == s[j]);
                }
                assert(!h.contains('\n'));
                let sh = strip_cr(h);
                assert forall|j: int| 0 <= j < sh.len() implies sh[j] != '\n' by {
                    assert(sh[j] == h[j]);
                }
                assert(!sh.contains('\n'));
                lemma_lines_no_lf(s.skip(i + 1));
                let r = lines(s.skip(i + 1));
                assert(lines(s) == seq![sh] + r);
                assert forall|k: int| 0 <= k < lines(s).len() implies !(#[trigger] lines(s)[k]).contains('\n') by {
                    if k > 0 {
                        assert(lines(s)[k] == r[k - 1]);
                    }
                }
            },
            None => {},
        }
    }
}

/// A line without a line feed, followed by a carriage return and a line feed, is one line.
pub proof fn lemma_lines_crlf(l: Seq<char>)
    requires
        !l.contains('\n'),
    ensures
        lines(l + seq!['\r', '\n']) == seq![l],
{
    let s = l + seq!['\r', '\n'];
    let n = l.len() as int;
    assert forall|j: int| 0 <= j < n + 1 implies s[j] != '\n' by {
        if j < n {
            assert(s[j] == l[j]);
            if l[j] == '\n' {
                assert(l.contains('\n'));
            }
        }
    }
    assert(s[n + 1] == '\n');
    lemma_index_of(s, '\n', n + 1);
    assert(s.take(n + 1) =~= l.push('\r'));
    assert(l.push('\r').drop_last() =~= l);
    assert(s.skip(n + 2) =~= Seq::<char>::empty());
    assert(lines(Seq::<char>::empty()) == Seq::<Seq<char>>::empty());
    assert(lines(s) == seq![strip_cr(s.take(n + 1))] + lines(s.skip(n + 2)));
    assert(seq![l] + Seq::<Seq<char>>::empty() =~= seq![l]);
}

} // verus!
