use vstd::prelude::*;
use crate::decimal::{is_digit, parse_u32, parse_u32_str};
use crate::layout::{Constraint, Container, Direction, Item, Layout, containers_wf, container_wf, leaf};
use crate::widget_type::spec_accepts_focus;
use crate::text::{ascii_lower, chars_of, eq_ignore_ascii_case, lowercase, string_of};
use crate::widget_type::{WidgetType, widget_named};

verus! {

/// A token of a layout template.
#[derive(Debug)]
pub enum Tok {
    Open,
    Close,
    Comma,
    Colon,
    Percent,
    /// A run of ASCII letters.
    Word(String),
    /// A run of ASCII digits.
    Number(String),
}

/// A token of a layout template as plain values.
pub enum TokV {
    Open,
    Close,
    Comma,
    Colon,
    Percent,
    Word(Seq<char>),
    Number(Seq<char>),
}

impl View for Tok {
    type V = TokV;

    open spec fn view(&self) -> TokV {
        match self {
            Tok::Open => TokV::Open,
            Tok::Close => TokV::Close,
            Tok::Comma => TokV::Comma,
            Tok::Colon => TokV::Colon,
            Tok::Percent => TokV::Percent,
            Tok::Word(w) => TokV::Word(w@),
            Tok::Number(n) => TokV::Number(n@),
        }
    }
}

/// The views of a list of tokens.
pub open spec fn tok_views(ts: Seq<Tok>) -> Seq<TokV> {
    ts.map_values(|t: Tok| t@)
}

/// White space between the tokens of a template.
pub open spec fn is_space(c: char) -> bool {
    c == ' ' || c == '\t' || c == '\n' || c == '\r'
}

/// An ASCII letter.
pub open spec fn is_letter(c: char) -> bool {
    ('a' <= c && c <= 'z') || ('A' <= c && c <= 'Z')
}

/// A letter when `letters`, else a digit.
pub open spec fn in_class(c: char, letters: bool) -> bool {
    if letters {
        is_letter(c)
    } else {
        is_digit(c)
    }
}

/// The length of the run of letters (or digits) at the start of `s`.
pub open spec fn run_of(s: Seq<char>, letters: bool) -> nat
    decreases s.len(),
{
    if s.len() > 0 && in_class(s[0], letters) {
        1 + run_of(s.skip(1), letters)
    } else {
        0
    }
}

/// A run lies within the text and ends at a character of another class, or at the end.
pub proof fn lemma_run_of(s: Seq<char>, letters: bool)
    ensures
        run_of(s, letters) <= s.len(),
        forall|k: int| 0 <= k < run_of(s, letters) ==> in_class(#[trigger] s[k], letters),
        run_of(s, letters) < s.len() ==> !in_class(s[run_of(s, letters) as int], letters),
    decreases s.len(),
{
    if s.len() > 0 && in_class(s[0], letters) {
        lemma_run_of(s.skip(1), letters);
        assert forall|k: int| 0 <= k < run_of(s, letters) implies in_class(#[trigger] s[k], letters) by {
            if k > 0 {
                assert(s[k] == s.skip(1)[k - 1]);
            }
        }
        if run_of(s, letters) < s.len() {
            assert(s[run_of(s, letters) as int] == s.skip(1)[run_of(s.skip(1), letters) as int]);
        }
    }
}

/// A run of length `n` is the run at the start of `s`.
pub proof fn lemma_run_of_exact(s: Seq<char>, letters: bool, n: int)
    requires
        0 <= n <= s.len(),
        forall|k: int| 0 <= k < n ==> in_class(#[trigger] s[k], letters),
        n == s.len() || !in_class(s[n], letters),
    ensures
        run_of(s, letters) == n,
    decreases n,
{
    if n > 0 {
        assert forall|k: int| 0 <= k < n - 1 implies in_class(#[trigger] s.skip(1)[k], letters) by {
            assert(s.skip(1)[k] == s[k + 1]);
        }
        if n < s.len() {
            assert(s.skip(1)[n - 1] == s[n]);
        }
        lemma_run_of_exact(s.skip(1), letters, n - 1);
    }
}

/// The token of a punctuation character.
pub open spec fn punct(c: char) -> Option<TokV> {
    if c == '[' {
        Some(TokV::Open)
    } else if c == ']' {
        Some(TokV::Close)
    } else if c == ',' {
        Some(TokV::Comma)
    } else if c == ':' {
        Some(TokV::Colon)
    } else if c == '%' {
        Some(TokV::Percent)
    } else {
        None
    }
}

/// The tokens of a template: brackets, commas, colons, percent signs, words of letters and
/// numbers of digits, with white space between them skipped; none when another character
/// occurs.
pub open spec fn layout_tokens(s: Seq<char>) -> Option<Seq<TokV>>
    decreases s.len(),
{
    if s.len() == 0 {
        Some(seq![])
    } else if is_space(s[0]) {
        layout_tokens(s.skip(1))
    } else if is_letter(s[0]) || is_digit(s[0]) {
        let letters = is_letter(s[0]);
        let n = run_of(s, letters);
        proof {
            lemma_run_of(s, letters);
        }
        match layout_tokens(s.skip(n as int)) {
            Some(r) => Some(seq![
                if letters {
                    TokV::Word(s.take(n as int))
                } else {
                    TokV::Number(s.take(n as int))
                },
            ] + r),
            None => None,
        }
    } else {
        match punct(s[0]) {
            Some(t) => match layout_tokens(s.skip(1)) {
                Some(r) => Some(seq![t] + r),
                None => None,
            },
            None => None,
        }
    }
}

/// Whether `c` is a letter (when `letters`) or a digit (otherwise).
fn char_in_class(c: char, letters: bool) -> (b: bool)
    ensures
        b == in_class(c, letters),
{
    if letters {
        ('a' <= c && c <= 'z') || ('A' <= c && c <= 'Z')
    } else {
        '0' <= c && c <= '9'
    }
}

/// `prefix` before the tokens of `rest`, if there are any.
pub open spec fn prepend_tokens(prefix: Seq<TokV>, rest: Option<Seq<TokV>>) -> Option<Seq<TokV>> {
    match rest {
        Some(r) => Some(prefix + r),
        None => None,
    }
}

/// Splits a template into tokens (see `layout_tokens`).
pub fn tokenize(s: &str) -> (r: Option<Vec<Tok>>)
    ensures
        r matches Some(v) ==> layout_tokens(s@) == Some(tok_views(v@)),
        r is None ==> layout_tokens(s@) is None,
{
    let v = chars_of(s);
    let mut out: Vec<Tok> = Vec::new();
    let mut i: usize = 0;
    assert(v@.skip(0) =~= v@);
    assert(tok_views(out@) + Seq::<TokV>::empty() =~= Seq::<TokV>::empty());
    while i < v.len()
        invariant
            i <= v@.len(),
            v@ == s@,
            layout_tokens(s@) == prepend_tokens(tok_views(out@), layout_tokens(v@.skip(i as int))),
        decreases v@.len() - i,
    {
        let ghost rest = v@.skip(i as int);
        let c = v[i];
        assert(rest[0] == c);
        let ghost before = tok_views(out@);
        if c == ' ' || c == '\t' || c == '\n' || c == '\r' {
            assert(rest.skip(1) =~= v@.skip(i + 1));
            i = i + 1;
        } else if ('a' <= c && c <= 'z') || ('A' <= c && c <= 'Z') || ('0' <= c && c <= '9') {
            let letters = ('a' <= c && c <= 'z') || ('A' <= c && c <= 'Z');
            let mut j: usize = i + 1;
            while j < v.len() && char_in_class(v[j], letters)
                invariant
                    i < j <= v@.len(),
                    forall|k: int| i <= k < j ==> in_class(#[trigger] v@[k], letters),
                decreases v@.len() - j,
            {
                j = j + 1;
            }
            let mut word: Vec<char> = Vec::new();
            let mut k: usize = i;
            while k < j
                invariant
                    i <= k <= j,
                    j <= v@.len(),
                    word@ == v@.subrange(i as int, k as int),
                decreases j - k,
            {
                word.push(v[k]);
                k = k + 1;
                assert(word@ =~= v@.subrange(i as int, k as int));
            }
            proof {
                assert forall|m: int| 0 <= m < j - i implies in_class(#[trigger] rest[m], letters) by {
                    assert(rest[m] == v@[i + m]);
                }
                if j < v@.len() {
                    assert(rest[j - i] == v@[j as int]);
                }
                lemma_run_of_exact(rest, letters, j - i);
                assert(rest.take(j - i) =~= word@);
                assert(rest.skip(j - i) =~= v@.skip(j as int));
            }
            let w = string_of(&word);
            if letters {
                out.push(Tok::Word(w));
            } else {
                out.push(Tok::Number(w));
            }
            proof {
                assert(tok_views(out@) =~= before.push(
                    if letters {
                        TokV::Word(rest.take(j - i))
                    } else {
                        TokV::Number(rest.take(j - i))
                    },
                ));
                match layout_tokens(v@.skip(j as int)) {
                    Some(r) => {
                        assert(tok_views(out@) + r =~= before + (seq![
                            if letters {
                                TokV::Word(rest.take(j - i))
                            } else {
                                TokV::Number(rest.take(j - i))
                            },
                        ] + r));
                    },
                    None => {},
                }
            }
            i = j;
        } else {
            let t = if c == '[' {
                Tok::Open
            } else if c == ']' {
                Tok::Close
            } else if c == ',' {
                Tok::Comma
            } else if c == ':' {
                Tok::Colon
            } else if c == '%' {
                Tok::Percent
            } else {
                return None;
            };
            out.push(t);
            proof {
                assert(rest.skip(1) =~= v@.skip(i + 1));
                assert(tok_views(out@) =~= before.push(punct(c)->0));
                match layout_tokens(v@.skip(i + 1)) {
                    Some(r) => {
                        assert(tok_views(out@) + r =~= before + (seq![punct(c)->0] + r));
                    },
                    None => {},
                }
            }
            i = i + 1;
        }
    }
    assert(v@.skip(i as int) =~= Seq::<char>::empty());
    assert(tok_views(out@) + Seq::<TokV>::empty() =~= tok_views(out@));
    Some(out)
}

/// Why a layout template cannot be read.
#[derive(PartialEq, Eq, Structural, Debug, Copy, Clone)]
pub enum LayoutError {
    /// The template does not follow the layout grammar.
    Syntax,
    /// A widget name is not one of a widget type.
    UnknownWidget,
    /// A size does not fit in 16 bits.
    SizeOverflow,
    /// A block holds no widget and no nested block.
    EmptyBlock,
}

/// A container as plain values, without its active index.
pub struct ContainerV {
    pub items: Seq<Item>,
    pub direction: Direction,
    pub constraints: Seq<Constraint>,
    pub parent: Option<usize>,
}

/// A container as plain values.
pub open spec fn cview(c: Container) -> ContainerV {
    ContainerV { items: c.items@, direction: c.direction, constraints: c.constraints@, parent: c.parent }
}

/// The containers as plain values.
pub open spec fn cviews(cs: Seq<Container>) -> Seq<ContainerV> {
    cs.map_values(|c: Container| cview(c))
}

/// The position of the `]` that closes the block whose items start at `j`, within `hi`,
/// `depth` blocks deeper.
pub open spec fn close_scan(ts: Seq<TokV>, j: int, hi: int, depth: nat) -> Option<int>
    decreases hi - j,
{
    if j >= hi || j < 0 {
        None
    } else {
        match ts[j] {
            TokV::Open => close_scan(ts, j + 1, hi, depth + 1),
            TokV::Close => if depth == 0 {
                Some(j)
            } else {
                close_scan(ts, j + 1, hi, (depth - 1) as nat)
            },
            _ => close_scan(ts, j + 1, hi, depth),
        }
    }
}

/// The closing position lies within the scanned range.
pub proof fn lemma_close_scan(ts: Seq<TokV>, j: int, hi: int, depth: nat)
    ensures
        close_scan(ts, j, hi, depth) matches Some(e) ==> 0 <= j <= e < hi,
    decreases hi - j,
{
    if 0 <= j < hi {
        match ts[j] {
            TokV::Open => lemma_close_scan(ts, j + 1, hi, depth + 1),
            TokV::Close => if depth > 0 {
                lemma_close_scan(ts, j + 1, hi, (depth - 1) as nat);
            },
            _ => lemma_close_scan(ts, j + 1, hi, depth),
        }
    }
}

/// An item of a block other than a nested block.
pub enum ItemV {
    /// `Direction: Horizontal` or `Direction: Vertical`, in any case.
    Dir(Direction),
    /// `Size: n` or `Size: n%`: the size of the next nested block.
    Size(Seq<char>, bool),
    /// A widget name, with an optional size `: n` or `: n%`.
    Widget(Seq<char>, Option<(Seq<char>, bool)>),
}

/// The token is a word that reads `w` in any case.
pub open spec fn is_word_ci(t: TokV, w: Seq<char>) -> bool {
    t matches TokV::Word(x) && ascii_lower(x) == w
}

/// A size at `i`: a number, then possibly `%`; its digits, whether it is a percentage and the
/// tokens it takes.
pub open spec fn size_at(ts: Seq<TokV>, i: int, hi: int) -> Option<(Seq<char>, bool, int)> {
    if 0 <= i < hi {
        match ts[i] {
            TokV::Number(d) => if i + 1 < hi && ts[i + 1] is Percent {
                Some((d, true, 2))
            } else {
                Some((d, false, 1))
            },
            _ => None,
        }
    } else {
        None
    }
}

/// The item that starts at `i` (not a nested block) and the tokens it takes.
pub open spec fn item_at(ts: Seq<TokV>, i: int, hi: int) -> Option<(ItemV, int)> {
    if 0 <= i < hi {
        match ts[i] {
            TokV::Word(w) => {
                let lw = ascii_lower(w);
                if lw == "direction"@ && i + 2 < hi && ts[i + 1] is Colon && is_word_ci(ts[i + 2], "horizontal"@) {
                    Some((ItemV::Dir(Direction::Horizontal), 3))
                } else if lw == "direction"@ && i + 2 < hi && ts[i + 1] is Colon && is_word_ci(ts[i + 2], "vertical"@) {
                    Some((ItemV::Dir(Direction::Vertical), 3))
                } else if lw == "size"@ && i + 1 < hi && ts[i + 1] is Colon && size_at(ts, i + 2, hi) is Some {
                    let (d, p, n) = size_at(ts, i + 2, hi)->0;
                    Some((ItemV::Size(d, p), 2 + n))
                } else if i + 1 < hi && ts[i + 1] is Colon {
                    match size_at(ts, i + 2, hi) {
                        Some((d, p, n)) => Some((ItemV::Widget(w, Some((d, p))), 2 + n)),
                        None => None,
                    }
                } else {
                    Some((ItemV::Widget(w, None), 1))
                }
            },
            _ => None,
        }
    } else {
        None
    }
}

/// An item takes at least one token and stays within the block.
pub proof fn lemma_item_at(ts: Seq<TokV>, i: int, hi: int)
    ensures
        item_at(ts, i, hi) matches Some((it, n)) ==> 1 <= n && i + n <= hi,
{
}

/// The constraint that a size writes: a length, or a percentage with `%`; sizes that do not
/// fit in 16 bits are refused.
pub open spec fn size_value(d: Seq<char>, percent: bool) -> Result<Constraint, LayoutError> {
    match parse_u32(d) {
        Some(v) => if v <= 0xFFFF {
            Ok(if percent {
                Constraint::Percentage(v as u16)
            } else {
                Constraint::Length(v as u16)
            })
        } else {
            Err(LayoutError::SizeOverflow)
        },
        None => Err(LayoutError::SizeOverflow),
    }
}

/// The other direction.
pub open spec fn toggled(d: Direction) -> Direction {
    match d {
        Direction::Vertical => Direction::Horizontal,
        Direction::Horizontal => Direction::Vertical,
    }
}

/// Container `c` with one more item and its constraint.
pub open spec fn with_item(cs: Seq<ContainerV>, c: int, it: Item, k: Constraint) -> Seq<ContainerV> {
    cs.update(
        c,
        ContainerV {
            items: cs[c].items.push(it),
            direction: cs[c].direction,
            constraints: cs[c].constraints.push(k),
            parent: cs[c].parent,
        },
    )
}

/// Container `c` laid out in direction `d`.
pub open spec fn with_dir(cs: Seq<ContainerV>, c: int, d: Direction) -> Seq<ContainerV> {
    cs.update(
        c,
        ContainerV { items: cs[c].items, direction: d, constraints: cs[c].constraints, parent: cs[c].parent },
    )
}

/// A nested block opened in container `c` with size `k`: `c` takes the new container as an
/// item, and the new container, empty, goes at the end with the direction opposite to `c`'s.
pub open spec fn with_child(cs: Seq<ContainerV>, c: int, k: Constraint) -> Seq<ContainerV> {
    with_item(cs, c, Item::Cont(cs.len() as usize), k).push(
        ContainerV { items: seq![], direction: toggled(cs[c].direction), constraints: seq![], parent: Some(c as usize) },
    )
}

/// Reads the items of container `c` from position `i` up to the block's end `hi`, with `act`
/// the size given for the next nested block (`Percentage(50)` when none is given): items
/// separated by commas, at least one, a comma after the last allowed.
pub open spec fn read_items(ts: Seq<TokV>, i: int, hi: int, cs: Seq<ContainerV>, c: int, act: Option<Constraint>) -> Result<Seq<ContainerV>, LayoutError>
    decreases hi - i, 1int,
{
    if i < 0 || i >= hi || hi > ts.len() {
        Err(LayoutError::Syntax)
    } else if ts[i] is Open {
        match close_scan(ts, i + 1, hi, 0) {
            None => Err(LayoutError::Syntax),
            Some(e) => {
                proof {
                    lemma_close_scan(ts, i + 1, hi, 0);
                }
                let k = match act {
                    Some(x) => x,
                    None => Constraint::Percentage(50),
                };
                let child = cs.len() as int;
                match read_items(ts, i + 1, e, with_child(cs, c, k), child, None) {
                    Err(x) => Err(x),
                    Ok(cs2) => read_sep(ts, e + 1, hi, cs2, c, None),
                }
            },
        }
    } else {
        proof {
            lemma_item_at(ts, i, hi);
        }
        match item_at(ts, i, hi) {
            None => Err(LayoutError::Syntax),
            Some((it, n)) => match it {
                ItemV::Dir(d) => read_sep(ts, i + n, hi, with_dir(cs, c, d), c, act),
                ItemV::Size(dg, p) => match size_value(dg, p) {
                    Err(x) => Err(x),
                    Ok(k) => read_sep(ts, i + n, hi, cs, c, Some(k)),
                },
                ItemV::Widget(name, sz) => {
                    let k = match sz {
                        Some((dg, p)) => size_value(dg, p),
                        None => Ok(Constraint::Percentage(50)),
                    };
                    match k {
                        Err(x) => Err(x),
                        Ok(k) => match widget_named(lowercase(name)) {
                            None => Err(LayoutError::UnknownWidget),
                            Some(w) => read_sep(ts, i + n, hi, with_item(cs, c, Item::Widget(w), k), c, act),
                        },
                    }
                },
            },
        }
    }
}

/// After an item of container `c` at position `i`: the block's end, a comma before the block's
/// end, or a comma and the next item.
pub open spec fn read_sep(ts: Seq<TokV>, i: int, hi: int, cs: Seq<ContainerV>, c: int, act: Option<Constraint>) -> Result<Seq<ContainerV>, LayoutError>
    decreases hi - i, 0int,
{
    if i >= hi || i < 0 || hi > ts.len() {
        Ok(cs)
    } else if ts[i] is Comma {
        if i + 1 >= hi {
            Ok(cs)
        } else {
            read_items(ts, i + 1, hi, cs, c, act)
        }
    } else {
        Err(LayoutError::Syntax)
    }
}

/// The root container, before its items are read.
pub open spec fn root_container() -> ContainerV {
    ContainerV { items: seq![], direction: Direction::Vertical, constraints: seq![], parent: None }
}

/// The containers that a template's tokens describe: one block, `[` items `]`, whose nested
/// blocks become containers in the order in which they open.
pub open spec fn parse_tokens(ts: Seq<TokV>) -> Result<Seq<ContainerV>, LayoutError> {
    if ts.len() >= 2 && ts[0] is Open && close_scan(ts, 1, ts.len() as int, 0) == Some(ts.len() - 1) {
        read_items(ts, 1, ts.len() - 1, seq![root_container()], 0, None)
    } else {
        Err(LayoutError::Syntax)
    }
}

/// The containers that a layout template describes (see `layout_tokens` and `parse_tokens`).
pub open spec fn layout_containers(t: Seq<char>) -> Result<Seq<ContainerV>, LayoutError> {
    match layout_tokens(t) {
        None => Err(LayoutError::Syntax),
        Some(ts) => parse_tokens(ts),
    }
}

/// The position of the `]` that closes the block whose items start at `j` (see `close_scan`).
pub fn close_at(ts: &Vec<Tok>, j: usize, hi: usize) -> (r: Option<usize>)
    requires
        hi <= ts@.len(),
    ensures
        r matches Some(e) ==> close_scan(tok_views(ts@), j as int, hi as int, 0) == Some(e as int),
        r is None ==> close_scan(tok_views(ts@), j as int, hi as int, 0) is None,
{
    let ghost tv = tok_views(ts@);
    let mut k: usize = j;
    let mut depth: usize = 0;
    while k < hi
        invariant
            j <= k,
            hi <= ts@.len(),
            depth <= k,
            tv == tok_views(ts@),
            close_scan(tv, j as int, hi as int, 0) == close_scan(tv, k as int, hi as int, depth as nat),
        decreases hi - k,
    {
        assert(tv[k as int] == ts@[k as int]@);
        match &ts[k] {
            Tok::Open => {
                depth = depth + 1;
            },
            Tok::Close => {
                if depth == 0 {
                    return Some(k);
                }
                depth = depth - 1;
            },
            _ => {},
        }
        k = k + 1;
    }
    None
}

/// An item of a block other than a nested block (see `ItemV`).
pub enum ItemX {
    Dir(Direction),
    Size(String, bool),
    Widget(String, Option<(String, bool)>),
}

impl View for ItemX {
    type V = ItemV;

    open spec fn view(&self) -> ItemV {
        match self {
            ItemX::Dir(d) => ItemV::Dir(*d),
            ItemX::Size(d, p) => ItemV::Size(d@, *p),
            ItemX::Widget(w, sz) => ItemV::Widget(
                w@,
                match sz {
                    Some((d, p)) => Some((d@, *p)),
                    None => None,
                },
            ),
        }
    }
}

/// A size at `i` (see `size_at`).
fn size_at_exec(ts: &Vec<Tok>, i: usize, hi: usize) -> (r: Option<(String, bool, usize)>)
    requires
        hi <= ts@.len(),
    ensures
        r matches Some((d, p, n)) ==> size_at(tok_views(ts@), i as int, hi as int) == Some((d@, p, n as int)),
        r is None ==> size_at(tok_views(ts@), i as int, hi as int) is None,
{
    if i >= hi {
        return None;
    }
    assert(tok_views(ts@)[i as int] == ts@[i as int]@);
    match &ts[i] {
        Tok::Number(d) => {
            let percent = if i + 1 < hi {
                assert(tok_views(ts@)[i + 1] == ts@[i + 1]@);
                match &ts[i + 1] {
                    Tok::Percent => true,
                    _ => false,
                }
            } else {
                false
            };
            let n: usize = if percent { 2 } else { 1 };
            Some((crate::text::copy_string(d), percent, n))
        },
        _ => None,
    }
}

/// Whether the token at `i` is a colon.
fn is_colon(ts: &Vec<Tok>, i: usize) -> (b: bool)
    requires
        i < ts@.len(),
    ensures
        b == (tok_views(ts@)[i as int] is Colon),
{
    assert(tok_views(ts@)[i as int] == ts@[i as int]@);
    match &ts[i] {
        Tok::Colon => true,
        _ => false,
    }
}

/// Whether the token at `i` is a word that reads `w` in any case.
fn is_word_ci_exec(ts: &Vec<Tok>, i: usize, w: &str) -> (b: bool)
    requires
        i < ts@.len(),
    ensures
        b == is_word_ci(tok_views(ts@)[i as int], w@),
{
    assert(tok_views(ts@)[i as int] == ts@[i as int]@);
    match &ts[i] {
        Tok::Word(x) => eq_ignore_ascii_case(x.as_str(), w),
        _ => false,
    }
}

/// The item that starts at `i` (see `item_at`).
pub fn item_at_exec(ts: &Vec<Tok>, i: usize, hi: usize) -> (r: Option<(ItemX, usize)>)
    requires
        hi <= ts@.len(),
    ensures
        r matches Some((it, n)) ==> item_at(tok_views(ts@), i as int, hi as int) == Some((it@, n as int)),
        r is None ==> item_at(tok_views(ts@), i as int, hi as int) is None,
{
    if i >= hi {
        return None;
    }
    assert(tok_views(ts@)[i as int] == ts@[i as int]@);
    let w = match &ts[i] {
        Tok::Word(w) => w,
        _ => {
            return None;
        },
    };
    let is_dir = eq_ignore_ascii_case(w.as_str(), "direction");
    let is_size = eq_ignore_ascii_case(w.as_str(), "size");
    if is_dir && hi - i > 2 && is_colon(ts, i + 1) && is_word_ci_exec(ts, i + 2, "horizontal") {
        return Some((ItemX::Dir(Direction::Horizontal), 3));
    }
    if is_dir && hi - i > 2 && is_colon(ts, i + 1) && is_word_ci_exec(ts, i + 2, "vertical") {
        return Some((ItemX::Dir(Direction::Vertical), 3));
    }
    if is_size && hi - i > 1 && is_colon(ts, i + 1) {
        match size_at_exec(ts, i + 2, hi) {
            Some((d, p, n)) => {
                return Some((ItemX::Size(d, p), 2 + n));
            },
            None => {},
        }
    }
    if hi - i > 1 && is_colon(ts, i + 1) {
        match size_at_exec(ts, i + 2, hi) {
            Some((d, p, n)) => Some((ItemX::Widget(crate::text::copy_string(w), Some((d, p))), 2 + n)),
            None => None,
        }
    } else {
        Some((ItemX::Widget(crate::text::copy_string(w), None), 1))
    }
}

/// The constraint that a size writes (see `size_value`).
pub fn size_value_exec(d: &str, percent: bool) -> (r: Result<Constraint, LayoutError>)
    ensures
        r == size_value(d@, percent),
{
    match parse_u32_str(d) {
        Some(v) => if v <= 0xFFFF {
            if percent {
                Ok(Constraint::Percentage(v as u16))
            } else {
                Ok(Constraint::Length(v as u16))
            }
        } else {
            Err(LayoutError::SizeOverflow)
        },
        None => Err(LayoutError::SizeOverflow),
    }
}

/// The containers link each other consistently: a nested container comes after its parent,
/// names it as parent and is one of its items; only the first container has no parent; each
/// container has one constraint per item.
pub open spec fn links_ok(cs: Seq<ContainerV>) -> bool {
    &&& cs.len() > 0
    &&& forall|k: int, m: int|
        0 <= k < cs.len() && 0 <= m < cs[k].items.len() ==> (#[trigger] cs[k].items[m] matches Item::Cont(
            j,
        ) ==> k < j < cs.len() && cs[j as int].parent == Some(k as usize))
    &&& forall|k: int| 0 <= k < cs.len() ==> ((k == 0) <==> (#[trigger] cs[k].parent) is None)
    &&& forall|k: int|
        0 <= k < cs.len() ==> ((#[trigger] cs[k].parent) matches Some(p) ==> p < k && exists|m: int|
            0 <= m < cs[p as int].items.len() && cs[p as int].items[m] == Item::Cont(k as usize))
    &&& forall|k: int| 0 <= k < cs.len() ==> (#[trigger] cs[k]).constraints.len() == cs[k].items.len()
}

/// Every container has an item.
pub open spec fn all_filled(cs: Seq<ContainerV>) -> bool {
    forall|k: int| 0 <= k < cs.len() ==> (#[trigger] cs[k]).items.len() > 0
}

/// Adding a widget keeps the links.
proof fn lemma_with_widget_links(cs: Seq<ContainerV>, c: int, w: WidgetType, k: Constraint)
    requires
        links_ok(cs),
        0 <= c < cs.len(),
    ensures
        links_ok(with_item(cs, c, Item::Widget(w), k)),
{
    let ns = with_item(cs, c, Item::Widget(w), k);
    assert forall|a: int, m: int|
        0 <= a < ns.len() && 0 <= m < ns[a].items.len() implies (#[trigger] ns[a].items[m] matches Item::Cont(
            j,
        ) ==> a < j < ns.len() && ns[j as int].parent == Some(a as usize)) by {
        if a == c && m == cs[c].items.len() {
        } else {
            assert(ns[a].items[m] == cs[a].items[m]);
        }
    }
    assert forall|a: int| 0 <= a < ns.len() implies ((#[trigger] ns[a].parent) matches Some(p) ==> p < a
        && exists|m: int| 0 <= m < ns[p as int].items.len() && ns[p as int].items[m] == Item::Cont(a as usize)) by {
        if let Some(p) = ns[a].parent {
            assert(cs[a].parent == Some(p));
            let m = choose|m: int| 0 <= m < cs[p as int].items.len() && cs[p as int].items[m] == Item::Cont(a as usize);
            assert(ns[p as int].items[m] == Item::Cont(a as usize));
        }
    }
}

/// Setting a direction keeps the links.
proof fn lemma_with_dir_links(cs: Seq<ContainerV>, c: int, d: Direction)
    requires
        links_ok(cs),
        0 <= c < cs.len(),
    ensures
        links_ok(with_dir(cs, c, d)),
{
    let ns = with_dir(cs, c, d);
    assert forall|a: int, m: int|
        0 <= a < ns.len() && 0 <= m < ns[a].items.len() implies (#[trigger] ns[a].items[m] matches Item::Cont(
            j,
        ) ==> a < j < ns.len() && ns[j as int].parent == Some(a as usize)) by {
        assert(ns[a].items[m] == cs[a].items[m]);
    }
    assert forall|a: int| 0 <= a < ns.len() implies ((#[trigger] ns[a].parent) matches Some(p) ==> p < a
        && exists|m: int| 0 <= m < ns[p as int].items.len() && ns[p as int].items[m] == Item::Cont(a as usize)) by {
        if let Some(p) = ns[a].parent {
            let m = choose|m: int| 0 <= m < cs[p as int].items.len() && cs[p as int].items[m] == Item::Cont(a as usize);
            assert(ns[p as int].items[m] == Item::Cont(a as usize));
        }
    }
}

/// Opening a nested block keeps the links.
proof fn lemma_with_child_links(cs: Seq<ContainerV>, c: int, k: Constraint)
    requires
        links_ok(cs),
        0 <= c < cs.len(),
        cs.len() < usize::MAX,
    ensures
        links_ok(with_child(cs, c, k)),
{
    let n = cs.len() as int;
    let ns = with_child(cs, c, k);
    let old_c = cs[c];
    assert(ns.len() == n + 1);
    assert forall|a: int| 0 <= a < n && a != c implies #[trigger] ns[a] == cs[a] by {}
    assert(ns[c].items == old_c.items.push(Item::Cont(n as usize)));
    assert(ns[c].parent == old_c.parent);
    assert(ns[n].parent == Some(c as usize));
    assert(ns[n].items.len() == 0);
    lemma_child_items(cs, c, k);
    lemma_child_parents(cs, c, k);
}

/// After opening a nested block, every nested container comes after its parent and names it.
proof fn lemma_child_items(cs: Seq<ContainerV>, c: int, k: Constraint)
    requires
        links_ok(cs),
        0 <= c < cs.len(),
        cs.len() < usize::MAX,
    ensures
        forall|a: int, m: int|
            0 <= a < with_child(cs, c, k).len() && 0 <= m < with_child(cs, c, k)[a].items.len() ==> (
            #[trigger] with_child(cs, c, k)[a].items[m] matches Item::Cont(j) ==> a < j < with_child(
                cs,
                c,
                k,
            ).len() && with_child(cs, c, k)[j as int].parent == Some(a as usize)),
        forall|a: int| 0 <= a < with_child(cs, c, k).len() ==> (#[trigger] with_child(cs, c, k)[a]).constraints.len()
            == with_child(cs, c, k)[a].items.len(),
{
    let n = cs.len() as int;
    let ns = with_child(cs, c, k);
    assert forall|a: int, m: int|
        0 <= a < ns.len() && 0 <= m < ns[a].items.len() implies (#[trigger] ns[a].items[m] matches Item::Cont(
            j,
        ) ==> a < j < ns.len() && ns[j as int].parent == Some(a as usize)) by {
        if a == c && m == cs[c].items.len() {
        } else if a < n {
            assert(ns[a].items[m] == cs[a].items[m]);
            if let Item::Cont(j) = cs[a].items[m] {
                assert(ns[j as int].parent == cs[j as int].parent);
            }
        }
    }
    assert forall|a: int| 0 <= a < ns.len() implies (#[trigger] ns[a]).constraints.len() == ns[a].items.len() by {
        if a < n && a != c {
            assert(ns[a] == cs[a]);
        }
    }
}

/// After opening a nested block, every container but the first has a parent that holds it.
proof fn lemma_child_parents(cs: Seq<ContainerV>, c: int, k: Constraint)
    requires
        links_ok(cs),
        0 <= c < cs.len(),
        cs.len() < usize::MAX,
    ensures
        forall|a: int| 0 <= a < with_child(cs, c, k).len() ==> ((a == 0) <==> (#[trigger] with_child(cs, c, k)[a].parent) is None),
        forall|a: int|
            0 <= a < with_child(cs, c, k).len() ==> ((#[trigger] with_child(cs, c, k)[a].parent) matches Some(p) ==> p < a
                && exists|m: int|
                0 <= m < with_child(cs, c, k)[p as int].items.len() && with_child(cs, c, k)[p as int].items[m]
                    == Item::Cont(a as usize)),
{
    let n = cs.len() as int;
    let ns = with_child(cs, c, k);
    assert forall|a: int| 0 <= a < ns.len() implies ((a == 0) <==> (#[trigger] ns[a].parent) is None) by {
        if a < n {
            assert(ns[a].parent == cs[a].parent);
        }
    }
    assert forall|a: int| 0 <= a < ns.len() implies ((#[trigger] ns[a].parent) matches Some(p) ==> p < a
        && exists|m: int| 0 <= m < ns[p as int].items.len() && ns[p as int].items[m] == Item::Cont(a as usize)) by {
        if a == n {
            assert(ns[c as int].items[cs[c].items.len() as int] == Item::Cont(n as usize));
        } else if let Some(p) = ns[a].parent {
            assert(cs[a].parent == Some(p));
            let m = choose|m: int| 0 <= m < cs[p as int].items.len() && cs[p as int].items[m] == Item::Cont(a as usize);
            assert(ns[p as int].items[m] == Item::Cont(a as usize));
        }
    }
}

/// The outcome of reading, with the containers as plain values.
pub open spec fn outcome(r: Result<(), LayoutError>, cs: Seq<Container>) -> Result<Seq<ContainerV>, LayoutError> {
    match r {
        Ok(_) => Ok(cviews(cs)),
        Err(e) => Err(e),
    }
}

/// Every container starts at its first item.
pub open spec fn at_first(cs: Seq<Container>) -> bool {
    forall|k: int| 0 <= k < cs.len() ==> (#[trigger] cs[k]).act_index == 0
}

/// Appends item `it` with constraint `k` to container `c`.
fn push_item(cs: &mut Vec<Container>, c: usize, it: Item, k: Constraint)
    requires
        c < old(cs)@.len(),
    ensures
        cviews(final(cs)@) == with_item(cviews(old(cs)@), c as int, it, k),
        final(cs)@.len() == old(cs)@.len(),
        forall|j: int| 0 <= j < final(cs)@.len() ==> (#[trigger] final(cs)@[j]).act_index == old(cs)@[j].act_index,
{
    match it {
        Item::Widget(w) => cs[c].add_widget(w),
        Item::Cont(j) => cs[c].add_cont(j),
    }
    cs[c].constraints.push(k);
    assert(cviews(cs@) =~= with_item(cviews(old(cs)@), c as int, it, k));
}

/// Reads the items of container `c` from position `i` up to `hi` (see `read_items`).
pub fn read_items_exec(ts: &Vec<Tok>, i: usize, hi: usize, cs: &mut Vec<Container>, c: usize, act: Option<Constraint>) -> (r: Result<(), LayoutError>)
    requires
        hi <= ts@.len(),
        c < old(cs)@.len(),
        links_ok(cviews(old(cs)@)),
        at_first(old(cs)@),
    ensures
        read_items(tok_views(ts@), i as int, hi as int, cviews(old(cs)@), c as int, act) == outcome(r, final(cs)@),
        r is Ok ==> links_ok(cviews(final(cs)@)) && at_first(final(cs)@),
        final(cs)@.len() >= old(cs)@.len(),
    decreases hi - i, 2int,
{
    if i >= hi {
        return Err(LayoutError::Syntax);
    }
    assert(tok_views(ts@)[i as int] == ts@[i as int]@);
    match &ts[i] {
        Tok::Open => read_nested_exec(ts, i, hi, cs, c, act),
        _ => read_plain_exec(ts, i, hi, cs, c, act),
    }
}

/// Reads a nested block that opens at `i` in container `c`, then what follows it.
fn read_nested_exec(ts: &Vec<Tok>, i: usize, hi: usize, cs: &mut Vec<Container>, c: usize, act: Option<Constraint>) -> (r: Result<(), LayoutError>)
    requires
        i < hi <= ts@.len(),
        tok_views(ts@)[i as int] is Open,
        c < old(cs)@.len(),
        links_ok(cviews(old(cs)@)),
        at_first(old(cs)@),
    ensures
        read_items(tok_views(ts@), i as int, hi as int, cviews(old(cs)@), c as int, act) == outcome(r, final(cs)@),
        r is Ok ==> links_ok(cviews(final(cs)@)) && at_first(final(cs)@),
        final(cs)@.len() >= old(cs)@.len(),
    decreases hi - i, 1int,
{
    let ghost tv = tok_views(ts@);
    match close_at(ts, i + 1, hi) {
        None => Err(LayoutError::Syntax),
        Some(e) => {
            proof {
                lemma_close_scan(tv, i + 1, hi as int, 0);
            }
            let k = match act {
                Some(x) => x,
                None => Constraint::Percentage(50),
            };
            let child = cs.len();
            let ghost before = cviews(cs@);
            let dir = cs[c].direction;
            push_item(cs, c, Item::Cont(child), k);
            let mut nc = Container::new();
            nc.parent = Some(c);
            nc.direction = match dir {
                Direction::Vertical => Direction::Horizontal,
                Direction::Horizontal => Direction::Vertical,
            };
            let ghost mid = cviews(cs@);
            assert(nc.items@ =~= Seq::<Item>::empty());
            assert(nc.constraints@ =~= Seq::<Constraint>::empty());
            cs.push(nc);
            let n = cs.len();
            proof {
                assert(cviews(cs@) =~= mid.push(cview(nc)));
                assert(cviews(cs@) =~= with_child(before, c as int, k));
                lemma_with_child_links(before, c as int, k);
            }
            match read_items_exec(ts, i + 1, e, cs, child, None) {
                Err(x) => Err(x),
                Ok(()) => read_sep_exec(ts, e + 1, hi, cs, c, None),
            }
        },
    }
}

/// Reads an item at `i` in container `c` that is not a nested block, then what follows it.
fn read_plain_exec(ts: &Vec<Tok>, i: usize, hi: usize, cs: &mut Vec<Container>, c: usize, act: Option<Constraint>) -> (r: Result<(), LayoutError>)
    requires
        i < hi <= ts@.len(),
        !(tok_views(ts@)[i as int] is Open),
        c < old(cs)@.len(),
        links_ok(cviews(old(cs)@)),
        at_first(old(cs)@),
    ensures
        read_items(tok_views(ts@), i as int, hi as int, cviews(old(cs)@), c as int, act) == outcome(r, final(cs)@),
        r is Ok ==> links_ok(cviews(final(cs)@)) && at_first(final(cs)@),
        final(cs)@.len() >= old(cs)@.len(),
    decreases hi - i, 1int,
{
    proof {
        lemma_item_at(tok_views(ts@), i as int, hi as int);
    }
    match item_at_exec(ts, i, hi) {
        None => Err(LayoutError::Syntax),
        Some((it, n)) => match it {
            ItemX::Dir(d) => {
                let ghost before = cviews(cs@);
                cs[c].direction = d;
                proof {
                    assert(cviews(cs@) =~= with_dir(before, c as int, d));
                    lemma_with_dir_links(before, c as int, d);
                }
                read_sep_exec(ts, i + n, hi, cs, c, act)
            },
            ItemX::Size(dg, p) => match size_value_exec(dg.as_str(), p) {
                Err(x) => Err(x),
                Ok(k) => read_sep_exec(ts, i + n, hi, cs, c, Some(k)),
            },
            ItemX::Widget(name, sz) => {
                let k = match &sz {
                    Some((dg, p)) => size_value_exec(dg.as_str(), *p),
                    None => Ok(Constraint::Percentage(50)),
                };
                match k {
                    Err(x) => Err(x),
                    Ok(k) => match WidgetType::parse(name.as_str()) {
                        Err(_) => Err(LayoutError::UnknownWidget),
                        Ok(w) => {
                            let ghost before = cviews(cs@);
                            push_item(cs, c, Item::Widget(w), k);
                            proof {
                                lemma_with_widget_links(before, c as int, w, k);
                            }
                            read_sep_exec(ts, i + n, hi, cs, c, act)
                        },
                    },
                }
            },
        },
    }
}

/// After an item of container `c` at position `i` (see `read_sep`).
pub fn read_sep_exec(ts: &Vec<Tok>, i: usize, hi: usize, cs: &mut Vec<Container>, c: usize, act: Option<Constraint>) -> (r: Result<(), LayoutError>)
    requires
        hi <= ts@.len(),
        c < old(cs)@.len(),
        links_ok(cviews(old(cs)@)),
        at_first(old(cs)@),
    ensures
        read_sep(tok_views(ts@), i as int, hi as int, cviews(old(cs)@), c as int, act) == outcome(r, final(cs)@),
        r is Ok ==> links_ok(cviews(final(cs)@)) && at_first(final(cs)@),
        final(cs)@.len() >= old(cs)@.len(),
    decreases hi - i, 0int,
{
    if i >= hi {
        return Ok(());
    }
    assert(i < hi);
    assert(tok_views(ts@)[i as int] == ts@[i as int]@);
    match &ts[i] {
        Tok::Comma => {
            if i + 1 >= hi {
                Ok(())
            } else {
                read_items_exec(ts, i + 1, hi, cs, c, act)
            }
        },
        _ => Err(LayoutError::Syntax),
    }
}

/// Reads a layout template into its containers (see `layout_containers`), every container at
/// its first item.
pub fn parse_layout(template: &str) -> (r: Result<Vec<Container>, LayoutError>)
    ensures
        match r {
            Ok(cs) => layout_containers(template@) == Ok::<Seq<ContainerV>, LayoutError>(cviews(cs@))
                && links_ok(cviews(cs@)) && at_first(cs@),
            Err(e) => layout_containers(template@) == Err::<Seq<ContainerV>, LayoutError>(e),
        },
{
    let ts = match tokenize(template) {
        None => return Err(LayoutError::Syntax),
        Some(ts) => ts,
    };
    let ghost tv = tok_views(ts@);
    let n = ts.len();
    if n < 2 {
        return Err(LayoutError::Syntax);
    }
    assert(tv[0] == ts@[0]@);
    let opens = match &ts[0] {
        Tok::Open => true,
        _ => false,
    };
    if !opens {
        return Err(LayoutError::Syntax);
    }
    match close_at(&ts, 1, n) {
        Some(e) => {
            if e != n - 1 {
                return Err(LayoutError::Syntax);
            }
        },
        None => {
            return Err(LayoutError::Syntax);
        },
    }
    let mut cs: Vec<Container> = Vec::new();
    cs.push(Container::new());
    proof {
        let r = root_container();
        assert(cs@[0].items@ =~= r.items);
        assert(cs@[0].constraints@ =~= r.constraints);
        assert(cviews(cs@) =~= seq![r]);
    }
    match read_items_exec(&ts, 1, n - 1, &mut cs, 0, None) {
        Ok(()) => Ok(cs),
        Err(e) => Err(e),
    }
}

/// Linked containers that all have an item and start at their first item are well formed.
proof fn lemma_links_wf(cs: Seq<Container>)
    requires
        links_ok(cviews(cs)),
        all_filled(cviews(cs)),
        at_first(cs),
    ensures
        containers_wf(cs),
{
    let vs = cviews(cs);
    assert forall|c: int| 0 <= c < cs.len() implies #[trigger] container_wf(cs, c) by {
        assert(vs[c] == cview(cs[c]));
        assert(vs[c].items.len() > 0);
        assert forall|k: int| 0 <= k < cs[c].items@.len() implies (#[trigger] cs[c].items@[k] matches Item::Cont(j)
            ==> (c < j < cs.len() && cs[j as int].parent == Some(c as usize))) by {
            assert(vs[c].items[k] == cs[c].items@[k]);
            if let Item::Cont(j) = cs[c].items@[k] {
                assert(vs[j as int] == cview(cs[j as int]));
            }
        }
        if let Some(p) = cs[c].parent {
            assert(vs[c].parent == Some(p));
            assert(vs[p as int] == cview(cs[p as int]));
            let m = choose|m: int| 0 <= m < vs[p as int].items.len() && vs[p as int].items[m] == Item::Cont(c as usize);
            assert(cs[p as int].items@[m] == Item::Cont(c as usize));
        }
        assert(vs[c].parent == cs[c].parent);
    }
}

/// Whether every container has an item.
pub fn all_have_items(cs: &Vec<Container>) -> (b: bool)
    ensures
        b == all_filled(cviews(cs@)),
{
    let mut i: usize = 0;
    while i < cs.len()
        invariant
            i <= cs@.len(),
            forall|k: int| 0 <= k < i ==> (#[trigger] cviews(cs@)[k]).items.len() > 0,
        decreases cs@.len() - i,
    {
        if cs[i].items.len() == 0 {
            assert(cviews(cs@)[i as int].items.len() == 0);
            return false;
        }
        i = i + 1;
    }
    true
}

impl Layout {
    /// The layout that a template describes (see `layout_containers`), focused on the first
    /// widget reached from the outer block through first items; a template with an empty block
    /// is refused. A template with a size that does not fit in 16 bits is not taken
    /// (`parse_layout` reports it).
    pub fn from_str(template: &str) -> (r: Result<Layout, LayoutError>)
        requires
            layout_containers(template@) != Err::<Seq<ContainerV>, LayoutError>(LayoutError::SizeOverflow),
        ensures
            match r {
                Ok(l) => {
                    &&& l.wf()
                    &&& layout_containers(template@) == Ok::<Seq<ContainerV>, LayoutError>(cviews(l.spec_containers()))
                    &&& all_filled(cviews(l.spec_containers()))
                    &&& at_first(l.spec_containers())
                    &&& l.spec_act() == leaf(l.spec_containers(), 0)
                    &&& l.spec_focused() == spec_accepts_focus(l.spec_active_widget())
                },
                Err(e) => match layout_containers(template@) {
                    Ok(cs) => e == LayoutError::EmptyBlock && !all_filled(cs),
                    Err(x) => e == x,
                },
            },
    {
        match parse_layout(template) {
            Err(e) => Err(e),
            Ok(cs) => {
                if !all_have_items(&cs) {
                    return Err(LayoutError::EmptyBlock);
                }
                proof {
                    lemma_links_wf(cs@);
                }
                let l = Layout::from_containers(cs);
                Ok(l)
            },
        }
    }
}

} // verus!
