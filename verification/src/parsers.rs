use vstd::prelude::*;
use crate::decimal::{all_digits, digits_value, is_digit};
use crate::error::ToDoError;
use crate::options::{SetFinalDateType, TaskSort, WidgetBorderType};
use crate::text::{ascii_lower_char, chars_of, push_char, push_str, to_string};

verus! {

/// What `str::parse::<u64>` accepts: an optional '+' and at least one digit, of a value that
/// fits in a `u64`.
pub open spec fn parse_u64(s: Seq<char>) -> Option<u64> {
    let d = if s.len() > 0 && s[0] == '+' { s.skip(1) } else { s };
    if d.len() > 0 && all_digits(d) && digits_value(d) <= u64::MAX {
        Some(digits_value(d) as u64)
    } else {
        None
    }
}

/// Reads an unsigned 64-bit number as `str::parse::<u64>` does.
pub fn parse_u64_str(s: &str) -> (r: Option<u64>)
    ensures
        r == parse_u64(s@),
{
    let v = chars_of(s);
    let mut i: usize = 0;
    if v.len() > 0 && v[0] == '+' {
        i = 1;
    }
    let ghost d = if s@.len() > 0 && s@[0] == '+' { s@.skip(1) } else { s@ };
    assert(d =~= v@.skip(i as int));
    if i == v.len() {
        return None;
    }
    let start = i;
    let mut acc: u64 = 0;
    while i < v.len()
        invariant
            start <= i <= v@.len(),
            start < v@.len(),
            v@ == s@,
            d == (if s@.len() > 0 && s@[0] == '+' { s@.skip(1) } else { s@ }),
            d == v@.skip(start as int),
            all_digits(v@.subrange(start as int, i as int)),
            acc == digits_value(v@.subrange(start as int, i as int)),
        decreases v@.len() - i,
    {
        let c = v[i];
        if c < '0' || c > '9' {
            proof {
                assert(d[i - start] == c);
                assert(!is_digit(d[i - start]));
            }
            return None;
        }
        let dv: u64 = (c as u64) - ('0' as u64);
        let ghost prev = v@.subrange(start as int, i as int);
        let ghost next = v@.subrange(start as int, i + 1);
        assert(next.drop_last() =~= prev);
        assert(next.last() == c);
        assert(all_digits(next)) by {
            assert forall|j: int| 0 <= j < next.len() implies is_digit(#[trigger] next[j]) by {
                if j < prev.len() {
                    assert(next[j] == prev[j]);
                }
            }
        }
        if acc > (u64::MAX - dv) / 10 {
            proof {
                assert(digits_value(next) == acc * 10 + dv);
                assert(acc * 10 + dv > u64::MAX) by (nonlinear_arith)
                    requires
                        acc > (u64::MAX - dv) / 10,
                        dv <= 9,
                ;
                assert(d.take(next.len() as int) =~= next);
                if all_digits(d) {
                    crate::decimal::lemma_digits_value_grows(d, next.len() as int);
                }
            }
            return None;
        }
        proof {
            assert(acc * 10 + dv <= u64::MAX) by (nonlinear_arith)
                requires
                    acc <= (u64::MAX - dv) / 10,
                    dv <= 9,
            ;
        }
        acc = acc * 10 + dv;
        i = i + 1;
    }
    assert(v@.subrange(start as int, i as int) =~= d);
    Some(acc)
}

/// Reads a duration given in whole seconds (see `parse_u64`); the duration is its number of
/// seconds.
pub fn parse_duration(arg: &str) -> (r: Result<u64, ToDoError>)
    ensures
        match r {
            Ok(secs) => parse_u64(arg@) == Some(secs),
            Err(e) => parse_u64(arg@) is None && (e matches ToDoError::ParseValue(s) && s@ == arg@),
        },
{
    match parse_u64_str(arg) {
        Some(secs) => Ok(secs),
        None => Err(ToDoError::ParseValue(to_string(arg))),
    }
}

/// What `char::is_uppercase` says of a character.
pub uninterp spec fn is_upper(c: char) -> bool;

/// What `char::to_lowercase` gives for a character, collected into a text.
pub uninterp spec fn char_lowercase(c: char) -> Seq<char>;

/// Whether a character is uppercase.
/// Trusted: calls `char::is_uppercase` (the Unicode `Uppercase` property), named `is_upper`;
/// among ASCII characters exactly 'A' to 'Z' are uppercase.
#[verifier::external_body]
pub(crate) fn char_is_upper(c: char) -> (b: bool)
    ensures
        b == is_upper(c),
        (c as u32) < 128 ==> (b <==> ('A' <= c && c <= 'Z')),
{
    c.is_uppercase()
}

/// The lowercase of a character, as a text.
/// Trusted: collects `char::to_lowercase` into a string, named `char_lowercase`; an ASCII
/// character becomes its ASCII lowercase.
#[verifier::external_body]
pub(crate) fn char_to_lowercase(c: char) -> (s: String)
    ensures
        s@ == char_lowercase(c),
        (c as u32) < 128 ==> s@ == seq![ascii_lower_char(c)],
{
    c.to_lowercase().collect::<String>()
}

/// The rest of a name in kebab case: each uppercase character becomes '-' and its lowercase.
pub open spec fn kebab_rest(t: Seq<char>) -> Seq<char>
    decreases t.len(),
{
    if t.len() == 0 {
        seq![]
    } else {
        (if is_upper(t[0]) {
            seq!['-'] + char_lowercase(t[0])
        } else {
            seq![t[0]]
        }) + kebab_rest(t.skip(1))
    }
}

/// A name written in camel case (a `Debug` name of a variant) in kebab case: its first
/// character lowercased, and each later uppercase character as '-' and its lowercase.
pub open spec fn kebab(s: Seq<char>) -> Seq<char> {
    if s.len() == 0 {
        seq![]
    } else {
        char_lowercase(s[0]) + kebab_rest(s.skip(1))
    }
}

/// Writes a camel-case name in kebab case (see `kebab`).
pub fn enum_debug_display_parser(s: &str) -> (r: String)
    ensures
        r@ == kebab(s@),
{
    let v = chars_of(s);
    let mut result = String::new();
    if v.len() == 0 {
        return result;
    }
    let first = char_to_lowercase(v[0]);
    push_str(&mut result, first.as_str());
    let mut i: usize = 1;
    assert(s@.skip(1) =~= v@.skip(1));
    while i < v.len()
        invariant
            1 <= i <= v@.len(),
            v@ == s@,
            kebab(s@) == result@ + kebab_rest(v@.skip(i as int)),
        decreases v@.len() - i,
    {
        let c = v[i];
        let ghost rest = v@.skip(i as int);
        assert(rest[0] == c);
        assert(rest.skip(1) =~= v@.skip(i + 1));
        let ghost before = result@;
        if char_is_upper(c) {
            push_char(&mut result, '-');
            let l = char_to_lowercase(c);
            push_str(&mut result, l.as_str());
            assert(result@ =~= before + (seq!['-'] + char_lowercase(c)));
        } else {
            push_char(&mut result, c);
            assert(result@ =~= before + seq![c]);
        }
        i = i + 1;
    }
    assert(v@.skip(i as int) =~= Seq::<char>::empty());
    assert(kebab_rest(Seq::<char>::empty()) =~= Seq::<char>::empty());
    result
}

impl SetFinalDateType {
    /// The name of the option, in kebab case.
    pub fn to_text(&self) -> (s: String)
        ensures
            s@ == kebab(match self {
                SetFinalDateType::Override => "Override"@,
                SetFinalDateType::OnlyMissing => "OnlyMissing"@,
                SetFinalDateType::Never => "Never"@,
            }),
    {
        match self {
            SetFinalDateType::Override => enum_debug_display_parser("Override"),
            SetFinalDateType::OnlyMissing => enum_debug_display_parser("OnlyMissing"),
            SetFinalDateType::Never => enum_debug_display_parser("Never"),
        }
    }
}

impl TaskSort {
    /// The name of the order, in kebab case (`none` when the list is not sorted).
    pub fn to_text(&self) -> (s: String)
        ensures
            s@ == kebab(match self {
                TaskSort::NoSort => "None"@,
                TaskSort::Reverse => "Reverse"@,
                TaskSort::Priority => "Priority"@,
                TaskSort::Alphanumeric => "Alphanumeric"@,
                TaskSort::AlphanumericReverse => "AlphanumericReverse"@,
            }),
    {
        match self {
            TaskSort::NoSort => enum_debug_display_parser("None"),
            TaskSort::Reverse => enum_debug_display_parser("Reverse"),
            TaskSort::Priority => enum_debug_display_parser("Priority"),
            TaskSort::Alphanumeric => enum_debug_display_parser("Alphanumeric"),
            TaskSort::AlphanumericReverse => enum_debug_display_parser("AlphanumericReverse"),
        }
    }
}

impl WidgetBorderType {
    /// The name of the border type, in kebab case.
    pub fn to_text(&self) -> (s: String)
        ensures
            s@ == kebab(match self {
                WidgetBorderType::Plain => "Plain"@,
                WidgetBorderType::Rounded => "Rounded"@,
                WidgetBorderType::Double => "Double"@,
                WidgetBorderType::Thick => "Thick"@,
            }),
    {
        match self {
            WidgetBorderType::Plain => enum_debug_display_parser("Plain"),
            WidgetBorderType::Rounded => enum_debug_display_parser("Rounded"),
            WidgetBorderType::Double => enum_debug_display_parser("Double"),
            WidgetBorderType::Thick => enum_debug_display_parser("Thick"),
        }
    }
}

} // verus!
