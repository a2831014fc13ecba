use vstd::prelude::*;
use crate::decimal::{decimal_text, parse_u32, parse_u32_str, u32_text};
use crate::error::ToDoError;
use crate::lines::{is_ws, char_is_ws, index_of, find_char, split_on, split_str, starts_with, trim, trim_str, skip_str, take_str};
use crate::options::TextModifier;
use crate::text::{chars_of, copy_string, lowercase, push_char, push_str, str_eq, string_of, to_lowercase, to_string, views};
use crate::widget_type::{ToDoCategory, ToDoData};

verus! {

/// A terminal color: one of the sixteen named colors, an indexed color or an RGB color.
#[derive(PartialEq, Eq, Structural, Debug, Copy, Clone)]
pub enum Color {
    Black,
    Red,
    Green,
    Yellow,
    Blue,
    Magenta,
    Cyan,
    Gray,
    DarkGray,
    LightRed,
    LightGreen,
    LightYellow,
    LightBlue,
    LightMagenta,
    LightCyan,
    White,
    Indexed(u8),
    Rgb(u8, u8, u8),
}

/// The named color that a lowercase name stands for.
pub open spec fn named_color(n: Seq<char>) -> Option<Color> {
    if n == "black"@ {
        Some(Color::Black)
    } else if n == "red"@ {
        Some(Color::Red)
    } else if n == "green"@ {
        Some(Color::Green)
    } else if n == "yellow"@ {
        Some(Color::Yellow)
    } else if n == "blue"@ {
        Some(Color::Blue)
    } else if n == "magenta"@ {
        Some(Color::Magenta)
    } else if n == "cyan"@ {
        Some(Color::Cyan)
    } else if n == "gray"@ {
        Some(Color::Gray)
    } else if n == "darkgray"@ {
        Some(Color::DarkGray)
    } else if n == "lightred"@ {
        Some(Color::LightRed)
    } else if n == "lightgreen"@ {
        Some(Color::LightGreen)
    } else if n == "lightyellow"@ {
        Some(Color::LightYellow)
    } else if n == "lightblue"@ {
        Some(Color::LightBlue)
    } else if n == "lightmagenta"@ {
        Some(Color::LightMagenta)
    } else if n == "lightcyan"@ {
        Some(Color::LightCyan)
    } else if n == "white"@ {
        Some(Color::White)
    } else {
        None
    }
}

/// The value of a hexadecimal digit, in either case.
pub open spec fn hex_value(c: char) -> Option<u8> {
    if '0' <= c <= '9' {
        Some((c as u32 - 48) as u8)
    } else if 'a' <= c <= 'f' {
        Some((c as u32 - 87) as u8)
    } else if 'A' <= c <= 'F' {
        Some((c as u32 - 55) as u8)
    } else {
        None
    }
}

/// The byte that two hexadecimal digits write.
pub open spec fn hex_byte(a: char, b: char) -> Option<u8> {
    match (hex_value(a), hex_value(b)) {
        (Some(x), Some(y)) => Some((x * 16 + y) as u8),
        _ => None,
    }
}

/// The RGB color that `#rrggbb` writes, the three bytes in hexadecimal.
pub open spec fn rgb_of(s: Seq<char>) -> Option<Color> {
    if s.len() == 7 && s[0] == '#' {
        match (hex_byte(s[1], s[2]), hex_byte(s[3], s[4]), hex_byte(s[5], s[6])) {
            (Some(r), Some(g), Some(b)) => Some(Color::Rgb(r, g, b)),
            _ => None,
        }
    } else {
        None
    }
}

/// The color that a text names: a number up to 255 is an indexed color; a color name, in
/// any case, a named color; `#rrggbb` an RGB color.
pub open spec fn color_of(s: Seq<char>) -> Option<Color> {
    if parse_u32(s) is Some && parse_u32(s)->0 <= 255 {
        Some(Color::Indexed(parse_u32(s)->0 as u8))
    } else {
        match named_color(lowercase(s)) {
            Some(c) => Some(c),
            None => rgb_of(s),
        }
    }
}

/// An RGB color reads back from the text it is written as.
pub proof fn lemma_rgb_round_trip(r: u8, g: u8, b: u8)
    ensures
        rgb_of(color_text(Color::Rgb(r, g, b))) == Some(Color::Rgb(r, g, b)),
{
    let t = color_text(Color::Rgb(r, g, b));
    assert(t == seq!['#'] + hex2(r) + hex2(g) + hex2(b));
    assert(t.len() == 7);
    assert(t[1] == hex_digit((r / 16) as nat) && t[2] == hex_digit((r % 16) as nat));
    assert(t[3] == hex_digit((g / 16) as nat) && t[4] == hex_digit((g % 16) as nat));
    assert(t[5] == hex_digit((b / 16) as nat) && t[6] == hex_digit((b % 16) as nat));
    lemma_hex_byte(r);
    lemma_hex_byte(g);
    lemma_hex_byte(b);
}

/// The two hexadecimal digits of a byte read back as the byte.
proof fn lemma_hex_byte(b: u8)
    ensures
        hex_byte(hex_digit((b / 16) as nat), hex_digit((b % 16) as nat)) == Some(b),
{
    let (h, l) = ((b / 16) as nat, (b % 16) as nat);
    assert(h < 16 && l < 16);
    assert(hex_value(hex_digit(h)) == Some(h as u8));
    assert(hex_value(hex_digit(l)) == Some(l as u8));
    assert(h * 16 + l == b) by (nonlinear_arith)
        requires
            h == (b / 16) as nat,
            l == (b % 16) as nat,
    ;
}

/// The value of a hexadecimal digit.
fn hex_value_exec(c: char) -> (r: Option<u8>)
    ensures
        r == hex_value(c),
{
    if '0' <= c && c <= '9' {
        Some((c as u32 - 48) as u8)
    } else if 'a' <= c && c <= 'f' {
        Some((c as u32 - 87) as u8)
    } else if 'A' <= c && c <= 'F' {
        Some((c as u32 - 55) as u8)
    } else {
        None
    }
}

/// The byte that two hexadecimal digits write.
fn hex_byte_exec(a: char, b: char) -> (r: Option<u8>)
    ensures
        r == hex_byte(a, b),
{
    match (hex_value_exec(a), hex_value_exec(b)) {
        (Some(x), Some(y)) => Some(x * 16 + y),
        _ => None,
    }
}

/// The RGB color that `#rrggbb` writes (see `rgb_of`).
fn rgb_exec(s: &str) -> (r: Option<Color>)
    ensures
        r == rgb_of(s@),
{
    let v = chars_of(s);
    if v.len() != 7 || v[0] != '#' {
        return None;
    }
    match (hex_byte_exec(v[1], v[2]), hex_byte_exec(v[3], v[4]), hex_byte_exec(v[5], v[6])) {
        (Some(r), Some(g), Some(b)) => Some(Color::Rgb(r, g, b)),
        _ => None,
    }
}

/// The named color for a lowercase name (see `named_color`).
fn named_color_exec(n: &str) -> (r: Option<Color>)
    ensures
        r == named_color(n@),
{
    if str_eq(n, "black") {
        Some(Color::Black)
    } else if str_eq(n, "red") {
        Some(Color::Red)
    } else if str_eq(n, "green") {
        Some(Color::Green)
    } else if str_eq(n, "yellow") {
        Some(Color::Yellow)
    } else if str_eq(n, "blue") {
        Some(Color::Blue)
    } else if str_eq(n, "magenta") {
        Some(Color::Magenta)
    } else if str_eq(n, "cyan") {
        Some(Color::Cyan)
    } else if str_eq(n, "gray") {
        Some(Color::Gray)
    } else if str_eq(n, "darkgray") {
        Some(Color::DarkGray)
    } else if str_eq(n, "lightred") {
        Some(Color::LightRed)
    } else if str_eq(n, "lightgreen") {
        Some(Color::LightGreen)
    } else if str_eq(n, "lightyellow") {
        Some(Color::LightYellow)
    } else if str_eq(n, "lightblue") {
        Some(Color::LightBlue)
    } else if str_eq(n, "lightmagenta") {
        Some(Color::LightMagenta)
    } else if str_eq(n, "lightcyan") {
        Some(Color::LightCyan)
    } else if str_eq(n, "white") {
        Some(Color::White)
    } else {
        None
    }
}

/// Two hexadecimal digits of a byte, in lowercase.
pub open spec fn hex2(b: u8) -> Seq<char> {
    seq![hex_digit((b / 16) as nat), hex_digit((b % 16) as nat)]
}

/// The hexadecimal digit of a value below sixteen.
pub open spec fn hex_digit(d: nat) -> char {
    if d < 10 {
        ('0' as int + d) as char
    } else {
        ('a' as int + d - 10) as char
    }
}

/// How a color is written: the variant's name for a named color, the index for an indexed
/// one, and `#rrggbb` for an RGB one.
pub open spec fn color_text(c: Color) -> Seq<char> {
    match c {
        Color::Black => "Black"@,
        Color::Red => "Red"@,
        Color::Green => "Green"@,
        Color::Yellow => "Yellow"@,
        Color::Blue => "Blue"@,
        Color::Magenta => "Magenta"@,
        Color::Cyan => "Cyan"@,
        Color::Gray => "Gray"@,
        Color::DarkGray => "DarkGray"@,
        Color::LightRed => "LightRed"@,
        Color::LightGreen => "LightGreen"@,
        Color::LightYellow => "LightYellow"@,
        Color::LightBlue => "LightBlue"@,
        Color::LightMagenta => "LightMagenta"@,
        Color::LightCyan => "LightCyan"@,
        Color::White => "White"@,
        Color::Indexed(i) => decimal_text(i as nat),
        Color::Rgb(r, g, b) => seq!['#'] + hex2(r) + hex2(g) + hex2(b),
    }
}

/// The hexadecimal digit of a value below sixteen.
fn hex_digit_exec(d: u8) -> (c: char)
    requires
        d < 16,
    ensures
        c == hex_digit(d as nat),
{
    if d < 10 {
        let n: u8 = 48 + d;
        n as char
    } else {
        let n: u8 = 87 + d;
        n as char
    }
}

/// Appends the two hexadecimal digits of a byte.
fn push_hex2(s: &mut String, b: u8)
    ensures
        final(s)@ == old(s)@ + hex2(b),
{
    push_char(s, hex_digit_exec(b / 16));
    push_char(s, hex_digit_exec(b % 16));
    assert(final(s)@ =~= old(s)@ + hex2(b));
}

impl Color {
    /// The color that a text names (see `color_of`).
    pub fn parse(s: &str) -> (r: Result<Color, ToDoError>)
        ensures
            match r {
                Ok(c) => color_of(s@) == Some(c),
                Err(e) => color_of(s@) is None && (e matches ToDoError::ColorSerializationFailed(m) && m@ == s@),
            },
    {
        let p = parse_u32_str(s);
        match p {
            Some(v) => {
                if v <= 255 {
                    return Ok(Color::Indexed(v as u8));
                }
            },
            None => {},
        }
        assert(!(parse_u32(s@) is Some && parse_u32(s@)->0 <= 255));
        let lower = to_lowercase(s);
        match named_color_exec(lower.as_str()) {
            Some(c) => Ok(c),
            None => match rgb_exec(s) {
                Some(c) => Ok(c),
                None => Err(ToDoError::ColorSerializationFailed(to_string(s))),
            },
        }
    }

    /// How the color is written (see `color_text`).
    pub fn to_text(&self) -> (s: String)
        ensures
            s@ == color_text(*self),
    {
        match self {
            Color::Black => to_string("Black"),
            Color::Red => to_string("Red"),
            Color::Green => to_string("Green"),
            Color::Yellow => to_string("Yellow"),
            Color::Blue => to_string("Blue"),
            Color::Magenta => to_string("Magenta"),
            Color::Cyan => to_string("Cyan"),
            Color::Gray => to_string("Gray"),
            Color::DarkGray => to_string("DarkGray"),
            Color::LightRed => to_string("LightRed"),
            Color::LightGreen => to_string("LightGreen"),
            Color::LightYellow => to_string("LightYellow"),
            Color::LightBlue => to_string("LightBlue"),
            Color::LightMagenta => to_string("LightMagenta"),
            Color::LightCyan => to_string("LightCyan"),
            Color::White => to_string("White"),
            Color::Indexed(i) => u32_text(*i as u32),
            Color::Rgb(r, g, b) => {
                let mut s = String::new();
                push_char(&mut s, '#');
                push_hex2(&mut s, *r);
                push_hex2(&mut s, *g);
                push_hex2(&mut s, *b);
                assert(s@ =~= seq!['#'] + hex2(*r) + hex2(*g) + hex2(*b));
                s
            },
        }
    }
}

/// The text modifier that a lowercase name stands for.
pub open spec fn modifier_named(n: Seq<char>) -> Option<TextModifier> {
    if n == "bold"@ {
        Some(TextModifier::Bold)
    } else if n == "italic"@ {
        Some(TextModifier::Italic)
    } else if n == "underline"@ {
        Some(TextModifier::Underlined)
    } else {
        None
    }
}

impl TextModifier {
    /// The text modifier that a name stands for, in any case: `bold`, `italic` or
    /// `underline`.
    pub fn parse(s: &str) -> (r: Result<TextModifier, ToDoError>)
        ensures
            match r {
                Ok(m) => modifier_named(lowercase(s@)) == Some(m),
                Err(e) => modifier_named(lowercase(s@)) is None && (e matches ToDoError::ParseTextModifier(n) && n@ == s@),
            },
    {
        let l = to_lowercase(s);
        if str_eq(l.as_str(), "bold") {
            Ok(TextModifier::Bold)
        } else if str_eq(l.as_str(), "italic") {
            Ok(TextModifier::Italic)
        } else if str_eq(l.as_str(), "underline") {
            Ok(TextModifier::Underlined)
        } else {
            Err(ToDoError::ParseTextModifier(to_string(s)))
        }
    }
}

/// A text style: optional background and foreground colors and an optional modifier.
#[derive(PartialEq, Eq, Structural, Debug, Copy, Clone)]
pub struct TextStyle {
    pub bg: Option<Color>,
    pub fg: Option<Color>,
    pub modifier: Option<TextModifier>,
}

/// The style without colors or modifier.
pub open spec fn no_style() -> TextStyle {
    TextStyle { bg: None, fg: None, modifier: None }
}

/// `base` with every property that `additional` sets taken from it.
pub open spec fn combined(base: TextStyle, additional: TextStyle) -> TextStyle {
    TextStyle {
        bg: if additional.bg is Some { additional.bg } else { base.bg },
        fg: if additional.fg is Some { additional.fg } else { base.fg },
        modifier: if additional.modifier is Some { additional.modifier } else { base.modifier },
    }
}

/// The style of a priority in the default priority styles: A red, B yellow, C blue.
pub open spec fn default_priority_style(key: Seq<char>) -> Option<TextStyle> {
    if key == "A"@ {
        Some(TextStyle { bg: None, fg: Some(Color::Red), modifier: None })
    } else if key == "B"@ {
        Some(TextStyle { bg: None, fg: Some(Color::Yellow), modifier: None })
    } else if key == "C"@ {
        Some(TextStyle { bg: None, fg: Some(Color::Blue), modifier: None })
    } else {
        None
    }
}

/// The style after one more word of a style text: `^color` sets the background, a color the
/// foreground, a modifier the modifier, and a priority of the default priority styles adds
/// its style; any other word is refused.
pub open spec fn style_word(st: TextStyle, w: Seq<char>) -> Result<TextStyle, Seq<char>> {
    if w.len() > 0 && w[0] == '^' {
        match color_of(w.skip(1)) {
            Some(c) => Ok(TextStyle { bg: Some(c), ..st }),
            None => Err(w),
        }
    } else {
        match color_of(w) {
            Some(c) => Ok(TextStyle { fg: Some(c), ..st }),
            None => match modifier_named(lowercase(w)) {
                Some(m) => Ok(TextStyle { modifier: Some(m), ..st }),
                None => match default_priority_style(w) {
                    Some(p) => Ok(combined(st, p)),
                    None => Err(w),
                },
            },
        }
    }
}

/// The style that the first `n` words give, starting from no style, or the first refused
/// word.
pub open spec fn style_upto(ws: Seq<Seq<char>>, n: int) -> Result<TextStyle, Seq<char>>
    decreases n,
{
    if n <= 0 {
        Ok(no_style())
    } else {
        match style_upto(ws, n - 1) {
            Err(w) => Err(w),
            Ok(st) => style_word(st, ws[n - 1]),
        }
    }
}

/// The length of the run of characters that are not white space at the start of `s`.
pub open spec fn word_len(s: Seq<char>) -> nat
    decreases s.len(),
{
    if s.len() > 0 && !is_ws(s[0]) {
        1 + word_len(s.skip(1))
    } else {
        0
    }
}

pub proof fn lemma_word_len(s: Seq<char>)
    ensures
        word_len(s) <= s.len(),
        forall|k: int| 0 <= k < word_len(s) ==> !is_ws(#[trigger] s[k]),
        word_len(s) < s.len() ==> is_ws(s[word_len(s) as int]),
    decreases s.len(),
{
    if s.len() > 0 && !is_ws(s[0]) {
        lemma_word_len(s.skip(1));
        assert forall|k: int| 0 <= k < word_len(s) implies !is_ws(#[trigger] s[k]) by {
            if k > 0 {
                assert(s[k] == s.skip(1)[k - 1]);
            }
        }
        if word_len(s) < s.len() {
            assert(s[word_len(s) as int] == s.skip(1)[word_len(s.skip(1)) as int]);
        }
    }
}

proof fn lemma_word_len_exact(s: Seq<char>, n: int)
    requires
        0 <= n <= s.len(),
        forall|k: int| 0 <= k < n ==> !is_ws(#[trigger] s[k]),
        n == s.len() || is_ws(s[n]),
    ensures
        word_len(s) == n,
    decreases n,
{
    if n > 0 {
        assert forall|k: int| 0 <= k < n - 1 implies !is_ws(#[trigger] s.skip(1)[k]) by {
            assert(s.skip(1)[k] == s[k + 1]);
        }
        if n < s.len() {
            assert(s.skip(1)[n - 1] == s[n]);
        }
        lemma_word_len_exact(s.skip(1), n - 1);
    }
}

/// The words of a text, as `str::split_whitespace` gives them: the runs of characters that
/// are not white space.
pub open spec fn words(s: Seq<char>) -> Seq<Seq<char>>
    decreases s.len(),
{
    if s.len() == 0 {
        seq![]
    } else if is_ws(s[0]) {
        words(s.skip(1))
    } else {
        let n = word_len(s);
        proof {
            lemma_word_len(s);
        }
        seq![s.take(n as int)] + words(s.skip(n as int))
    }
}

/// The words of a text (see `words`).
pub fn split_words(s: &str) -> (r: Vec<String>)
    ensures
        views(r@) == words(s@),
{
    let v = chars_of(s);
    let mut out: Vec<String> = Vec::new();
    let mut i: usize = 0;
    assert(v@.skip(0) =~= v@);
    assert(views(out@) + words(v@) =~= words(v@));
    while i < v.len()
        invariant
            i <= v@.len(),
            v@ == s@,
            words(s@) == views(out@) + words(v@.skip(i as int)),
        decreases v@.len() - i,
    {
        let ghost rest = v@.skip(i as int);
        assert(rest[0] == v@[i as int]);
        if char_is_ws(v[i]) {
            assert(rest.skip(1) =~= v@.skip(i + 1));
            i = i + 1;
        } else {
            let mut j: usize = i + 1;
            while j < v.len() && !char_is_ws(v[j])
                invariant
                    i < j <= v@.len(),
                    forall|k: int| i <= k < j ==> !is_ws(#[trigger] v@[k]),
                decreases v@.len() - j,
            {
                j = j + 1;
            }
            let mut w: Vec<char> = Vec::new();
            let mut k: usize = i;
            while k < j
                invariant
                    i <= k <= j,
                    j <= v@.len(),
                    w@ == v@.subrange(i as int, k as int),
                decreases j - k,
            {
                w.push(v[k]);
                k = k + 1;
                assert(w@ =~= v@.subrange(i as int, k as int));
            }
            proof {
                assert forall|m: int| 0 <= m < j - i implies !is_ws(#[trigger] rest[m]) by {
                    assert(rest[m] == v@[i + m]);
                }
                if j < v@.len() {
                    assert(rest[j - i] == v@[j as int]);
                }
                lemma_word_len_exact(rest, j - i);
                assert(rest.take(j - i) =~= w@);
                assert(rest.skip(j - i) =~= v@.skip(j as int));
            }
            let ghost before = views(out@);
            out.push(string_of(&w));
            assert(views(out@) =~= before.push(w@));
            assert(views(out@) + words(v@.skip(j as int)) =~= before + (seq![w@] + words(v@.skip(j as int))));
            i = j;
        }
    }
    assert(v@.skip(i as int) =~= Seq::<char>::empty());
    assert(views(out@) + Seq::<Seq<char>>::empty() =~= views(out@));
    out
}

impl TextStyle {
    /// No colors and no modifier.
    pub fn new() -> (s: TextStyle)
        ensures
            s == no_style(),
    {
        TextStyle { bg: None, fg: None, modifier: None }
    }

    /// The style with background `bg`.
    pub fn bg(self, bg: Color) -> (s: TextStyle)
        ensures
            s == (TextStyle { bg: Some(bg), ..self }),
    {
        TextStyle { bg: Some(bg), ..self }
    }

    /// The style with foreground `fg`.
    pub fn fg(self, fg: Color) -> (s: TextStyle)
        ensures
            s == (TextStyle { fg: Some(fg), ..self }),
    {
        TextStyle { fg: Some(fg), ..self }
    }

    /// The style with modifier `modifier`.
    pub fn modifier(self, modifier: TextModifier) -> (s: TextStyle)
        ensures
            s == (TextStyle { modifier: Some(modifier), ..self }),
    {
        TextStyle { modifier: Some(modifier), ..self }
    }

    /// Whether the style sets anything.
    pub fn is_some(&self) -> (b: bool)
        ensures
            b == (self.bg is Some || self.fg is Some || self.modifier is Some),
    {
        self.bg.is_some() || self.fg.is_some() || self.modifier.is_some()
    }

    /// Takes every property that `additional` sets.
    pub fn add_style(&mut self, additional: &TextStyle)
        ensures
            *final(self) == combined(*old(self), *additional),
    {
        if additional.bg.is_some() {
            self.bg = additional.bg;
        }
        if additional.fg.is_some() {
            self.fg = additional.fg;
        }
        if additional.modifier.is_some() {
            self.modifier = additional.modifier;
        }
    }

    /// This style with every property that `additional` sets taken from it.
    pub fn combine(&self, additional: &TextStyle) -> (s: TextStyle)
        ensures
            s == combined(*self, *additional),
    {
        let mut new = *self;
        new.add_style(additional);
        new
    }

    /// The style that a style text describes (see `style_word`), or the first word it
    /// refuses.
    pub fn parse(s: &str) -> (r: Result<TextStyle, ToDoError>)
        ensures
            match r {
                Ok(st) => style_upto(words(s@), words(s@).len() as int) == Ok::<TextStyle, Seq<char>>(st),
                Err(e) => exists|w: Seq<char>| style_upto(words(s@), words(s@).len() as int) == Err::<TextStyle, Seq<char>>(w)
                    && (e matches ToDoError::ParseTextStyle(m) && m@ == w),
            },
    {
        let ws = split_words(s);
        let ghost wv = views(ws@);
        let mut ret = TextStyle::new();
        let mut i: usize = 0;
        while i < ws.len()
            invariant
                i <= ws@.len(),
                wv == views(ws@),
                wv == words(s@),
                style_upto(wv, i as int) == Ok::<TextStyle, Seq<char>>(ret),
            decreases ws@.len() - i,
        {
            let word = ws[i].as_str();
            let wc = chars_of(word);
            assert(wv[i as int] == word@);
            let ghost st = ret;
            if wc.len() > 0 && wc[0] == '^' {
                let rest = skip_str(word, 1);
                match Color::parse(rest.as_str()) {
                    Ok(c) => {
                        ret = ret.bg(c);
                    },
                    Err(_) => {
                        proof {
                            lemma_style_error_stays(wv, i as int + 1, wv.len() as int, word@);
                        }
                        return Err(ToDoError::ParseTextStyle(to_string(word)));
                    },
                }
            } else {
                match Color::parse(word) {
                    Ok(c) => {
                        ret = ret.fg(c);
                    },
                    Err(_) => match TextModifier::parse(word) {
                        Ok(m) => {
                            ret = ret.modifier(m);
                        },
                        Err(_) => match default_priority_style_exec(word) {
                            Some(p) => {
                                ret = ret.combine(&p);
                            },
                            None => {
                                proof {
                                    lemma_style_error_stays(wv, i as int + 1, wv.len() as int, word@);
                                }
                                return Err(ToDoError::ParseTextStyle(to_string(word)));
                            },
                        },
                    },
                }
            }
            assert(style_word(st, wv[i as int]) == Ok::<TextStyle, Seq<char>>(ret));
            i = i + 1;
        }
        Ok(ret)
    }
}

/// Once a word is refused, the style text stays refused at that word.
proof fn lemma_style_error_stays(ws: Seq<Seq<char>>, n: int, m: int, w: Seq<char>)
    requires
        1 <= n <= m,
        style_upto(ws, n) == Err::<TextStyle, Seq<char>>(w),
    ensures
        style_upto(ws, m) == Err::<TextStyle, Seq<char>>(w),
    decreases m - n,
{
    if m > n {
        lemma_style_error_stays(ws, n, m - 1, w);
    }
}

/// The style of a priority in the default priority styles (see `default_priority_style`).
fn default_priority_style_exec(key: &str) -> (r: Option<TextStyle>)
    ensures
        r == default_priority_style(key@),
{
    if str_eq(key, "A") {
        Some(TextStyle { bg: None, fg: Some(Color::Red), modifier: None })
    } else if str_eq(key, "B") {
        Some(TextStyle { bg: None, fg: Some(Color::Yellow), modifier: None })
    } else if str_eq(key, "C") {
        Some(TextStyle { bg: None, fg: Some(Color::Blue), modifier: None })
    } else {
        None
    }
}

/// The position of a priority name in the priority styles: `A` to `Z`, then `empty`.
pub open spec fn priority_index(key: Seq<char>) -> Option<int> {
    if key.len() == 1 && 'A' <= key[0] <= 'Z' {
        Some(key[0] as int - 'A' as int)
    } else if key == "empty"@ {
        Some(26)
    } else {
        None
    }
}

/// The position of a priority name (see `priority_index`).
fn priority_index_exec(key: &str) -> (r: Option<usize>)
    ensures
        r matches Some(i) ==> priority_index(key@) == Some(i as int),
        r is None ==> priority_index(key@) is None,
{
    let v = chars_of(key);
    if v.len() == 1 && 'A' <= v[0] && v[0] <= 'Z' {
        let n: u32 = (v[0] as u32) - ('A' as u32);
        Some(n as usize)
    } else if str_eq(key, "empty") {
        Some(26)
    } else {
        None
    }
}

/// The styles of the priorities, by position: `A` to `Z`, then `empty` for tasks without
/// priority.
#[derive(Debug)]
pub struct TextStyleList {
    pub styles: Vec<Option<TextStyle>>,
}

/// The default priority styles: `A` red, `B` yellow and `C` blue.
pub open spec fn default_priority_styles() -> Seq<Option<TextStyle>> {
    Seq::new(27, |i: int| if i == 0 {
        Some(TextStyle { bg: None, fg: Some(Color::Red), modifier: None })
    } else if i == 1 {
        Some(TextStyle { bg: None, fg: Some(Color::Yellow), modifier: None })
    } else if i == 2 {
        Some(TextStyle { bg: None, fg: Some(Color::Blue), modifier: None })
    } else {
        None
    })
}

/// The priority styles after one more entry `key:style` of a list: an entry of a priority
/// sets its style, read from the key itself; other entries change nothing.
pub open spec fn list_entry(st: Seq<Option<TextStyle>>, piece: Seq<char>) -> Result<Seq<Option<TextStyle>>, Seq<char>> {
    let key = trim(piece.take(index_of(piece, ':')->0));
    match priority_index(key) {
        Some(i) => match style_upto(words(key), words(key).len() as int) {
            Ok(t) => Ok(st.update(i, Some(t))),
            Err(w) => Err(w),
        },
        None => Ok(st),
    }
}

/// The priority styles after the first `n` entries of a list, starting from none.
pub open spec fn list_upto(ps: Seq<Seq<char>>, n: int) -> Result<Seq<Option<TextStyle>>, Seq<char>>
    decreases n,
{
    if n <= 0 {
        Ok(Seq::new(27, |i: int| None))
    } else {
        match list_upto(ps, n - 1) {
            Err(w) => Err(w),
            Ok(st) => list_entry(st, ps[n - 1]),
        }
    }
}

proof fn lemma_list_error_stays(ps: Seq<Seq<char>>, n: int, m: int, w: Seq<char>)
    requires
        1 <= n <= m,
        list_upto(ps, n) == Err::<Seq<Option<TextStyle>>, Seq<char>>(w),
    ensures
        list_upto(ps, m) == Err::<Seq<Option<TextStyle>>, Seq<char>>(w),
    decreases m - n,
{
    if m > n {
        lemma_list_error_stays(ps, n, m - 1, w);
    }
}

impl TextStyleList {
    /// There is one style entry per priority.
    pub open spec fn wf(&self) -> bool {
        self.styles@.len() == 27
    }

    /// The style of the priority at `index`, or no style.
    pub fn get_style(&self, index: usize) -> (r: TextStyle)
        requires
            self.wf(),
            index < 27,
        ensures
            r == match self.styles@[index as int] {
                Some(t) => t,
                None => no_style(),
            },
    {
        match self.styles[index] {
            Some(t) => t,
            None => TextStyle::new(),
        }
    }

    /// Reads a list of `priority:style` entries separated by commas (see `list_entry`).
    /// A list with an entry without a colon is not taken.
    pub fn parse(s: &str) -> (r: Result<TextStyleList, ToDoError>)
        requires
            forall|k: int| 0 <= k < split_on(s@, ',').len() ==> index_of(#[trigger] split_on(s@, ',')[k], ':') is Some,
        ensures
            match r {
                Ok(l) => list_upto(split_on(s@, ','), split_on(s@, ',').len() as int) == Ok::<Seq<Option<TextStyle>>, Seq<char>>(l.styles@),
                Err(e) => exists|w: Seq<char>| list_upto(split_on(s@, ','), split_on(s@, ',').len() as int) == Err::<Seq<Option<TextStyle>>, Seq<char>>(w)
                    && (e matches ToDoError::ParseTextStyle(m) && m@ == w),
            },
    {
        let pieces = split_str(s, ',');
        let ghost ps = views(pieces@);
        let mut styles: Vec<Option<TextStyle>> = Vec::new();
        let mut k: usize = 0;
        while k < 27
            invariant
                k <= 27,
                styles@ =~= Seq::new(k as nat, |i: int| None::<TextStyle>),
            decreases 27 - k,
        {
            styles.push(None);
            k = k + 1;
        }
        let mut i: usize = 0;
        while i < pieces.len()
            invariant
                i <= pieces@.len(),
                ps == views(pieces@),
                ps == split_on(s@, ','),
                forall|k: int| 0 <= k < ps.len() ==> index_of(#[trigger] ps[k], ':') is Some,
                list_upto(ps, i as int) == Ok::<Seq<Option<TextStyle>>, Seq<char>>(styles@),
                styles@.len() == 27,
            decreases pieces@.len() - i,
        {
            let piece = pieces[i].as_str();
            assert(ps[i as int] == piece@);
            assert(index_of(ps[i as int], ':') is Some);
            let idx = match find_char(piece, ':') {
                Some(j) => j,
                None => {
                    return Err(ToDoError::ParseTextStyle(to_string(piece)));
                },
            };
            proof {
                crate::lines::lemma_index_of_bound(piece@, ':');
            }
            let head = take_str(piece, idx);
            let key = trim_str(head.as_str());
            match priority_index_exec(key.as_str()) {
                Some(p) => match TextStyle::parse(key.as_str()) {
                    Ok(t) => {
                        styles.set(p, Some(t));
                    },
                    Err(e) => {
                        proof {
                            let w = choose|w: Seq<char>| style_upto(words(key@), words(key@).len() as int) == Err::<TextStyle, Seq<char>>(w)
                                && (e matches ToDoError::ParseTextStyle(m) && m@ == w);
                            assert(list_upto(ps, i + 1) == Err::<Seq<Option<TextStyle>>, Seq<char>>(w));
                            lemma_list_error_stays(ps, i + 1, ps.len() as int, w);
                        }
                        return Err(e);
                    },
                },
                None => {},
            }
            i = i + 1;
        }
        Ok(TextStyleList { styles })
    }
}

impl Default for TextStyleList {
    fn default() -> (r: TextStyleList)
        ensures
            r.styles@ == default_priority_styles(),
    {
        let mut styles: Vec<Option<TextStyle>> = Vec::new();
        styles.push(Some(TextStyle { bg: None, fg: Some(Color::Red), modifier: None }));
        styles.push(Some(TextStyle { bg: None, fg: Some(Color::Yellow), modifier: None }));
        styles.push(Some(TextStyle { bg: None, fg: Some(Color::Blue), modifier: None }));
        let mut k: usize = 3;
        while k < 27
            invariant
                3 <= k <= 27,
                styles@.len() == k,
                forall|j: int| 0 <= j < k ==> styles@[j] == #[trigger] default_priority_styles()[j],
            decreases 27 - k,
        {
            styles.push(None);
            k = k + 1;
        }
        assert(styles@ =~= default_priority_styles());
        TextStyleList { styles }
    }
}

/// The style that the last entry named `name` gives, if any.
pub open spec fn entry_style(es: Seq<(Seq<char>, TextStyle)>, name: Seq<char>) -> Option<TextStyle>
    decreases es.len(),
{
    if es.len() == 0 {
        None
    } else if es.last().0 == name {
        Some(es.last().1)
    } else {
        entry_style(es.drop_last(), name)
    }
}

/// The names and styles of a list of style entries.
pub open spec fn style_entries(v: Seq<(String, TextStyle)>) -> Seq<(Seq<char>, TextStyle)> {
    v.map_values(|p: (String, TextStyle)| (p.0@, p.1))
}

/// Styles given to categories by name; a later entry of a name overrides an earlier one.
#[derive(Debug)]
pub struct CustomCategoryStyle {
    pub entries: Vec<(String, TextStyle)>,
}

/// The entry that a piece `name=style` of a custom style list gives.
pub open spec fn custom_entry(piece: Seq<char>) -> Result<(Seq<char>, TextStyle), Option<Seq<char>>> {
    match index_of(piece, '=') {
        None => Err(None),
        Some(i) => {
            let value = piece.skip(i + 1);
            match style_upto(words(value), words(value).len() as int) {
                Ok(t) => Ok((piece.take(i), t)),
                Err(w) => Err(Some(w)),
            }
        },
    }
}

/// The entries of the first `n` pieces of a custom style list, or the first error: a piece
/// without '=' (`None`) or a refused style word.
pub open spec fn custom_upto(ps: Seq<Seq<char>>, n: int) -> Result<Seq<(Seq<char>, TextStyle)>, Option<Seq<char>>>
    decreases n,
{
    if n <= 0 {
        Ok(seq![])
    } else {
        match custom_upto(ps, n - 1) {
            Err(x) => Err(x),
            Ok(es) => match custom_entry(ps[n - 1]) {
                Err(x) => Err(x),
                Ok(e) => Ok(es.push(e)),
            },
        }
    }
}

proof fn lemma_custom_error_stays(ps: Seq<Seq<char>>, n: int, m: int, x: Option<Seq<char>>)
    requires
        1 <= n <= m,
        custom_upto(ps, n) == Err::<Seq<(Seq<char>, TextStyle)>, Option<Seq<char>>>(x),
    ensures
        custom_upto(ps, m) == Err::<Seq<(Seq<char>, TextStyle)>, Option<Seq<char>>>(x),
    decreases m - n,
{
    if m > n {
        lemma_custom_error_stays(ps, n, m - 1, x);
    }
}

impl CustomCategoryStyle {
    /// The style given to a category name, if any (see `entry_style`).
    pub fn get(&self, name: &str) -> (r: Option<TextStyle>)
        ensures
            r == entry_style(style_entries(self.entries@), name@),
    {
        let ghost es = style_entries(self.entries@);
        let mut i: usize = self.entries.len();
        assert(es.take(i as int) =~= es);
        while i > 0
            invariant
                i <= self.entries@.len(),
                es == style_entries(self.entries@),
                entry_style(es, name@) == entry_style(es.take(i as int), name@),
            decreases i,
        {
            let ghost t = es.take(i as int);
            assert(t.last() == es[i - 1]);
            assert(t.drop_last() =~= es.take(i - 1));
            if str_eq(self.entries[i - 1].0.as_str(), name) {
                return Some(self.entries[i - 1].1);
            }
            i = i - 1;
        }
        assert(es.take(0) =~= Seq::<(Seq<char>, TextStyle)>::empty());
        None
    }

    /// Reads `name=style` entries separated by commas (see `custom_entry`).
    pub fn parse(s: &str) -> (r: Result<CustomCategoryStyle, ToDoError>)
        ensures
            match r {
                Ok(c) => custom_upto(split_on(s@, ','), split_on(s@, ',').len() as int) == Ok::<Seq<(Seq<char>, TextStyle)>, Option<Seq<char>>>(style_entries(c.entries@)),
                Err(e) => match custom_upto(split_on(s@, ','), split_on(s@, ',').len() as int) {
                    Err(None) => e matches ToDoError::CustomCategoryStyleParseFailed(m) && m@ == "Key and value must be separated by ="@,
                    Err(Some(w)) => e matches ToDoError::ParseTextStyle(m) && m@ == w,
                    Ok(_) => false,
                },
            },
    {
        let pieces = split_str(s, ',');
        let ghost ps = views(pieces@);
        let mut entries: Vec<(String, TextStyle)> = Vec::new();
        assert(style_entries(entries@) =~= Seq::<(Seq<char>, TextStyle)>::empty());
        let mut i: usize = 0;
        while i < pieces.len()
            invariant
                i <= pieces@.len(),
                ps == views(pieces@),
                ps == split_on(s@, ','),
                custom_upto(ps, i as int) == Ok::<Seq<(Seq<char>, TextStyle)>, Option<Seq<char>>>(style_entries(entries@)),
            decreases pieces@.len() - i,
        {
            let piece = pieces[i].as_str();
            assert(ps[i as int] == piece@);
            match find_char(piece, '=') {
                None => {
                    proof {
                        lemma_custom_error_stays(ps, i + 1, ps.len() as int, None);
                    }
                    return Err(ToDoError::CustomCategoryStyleParseFailed(to_string("Key and value must be separated by =")));
                },
                Some(j) => {
                    proof {
                        crate::lines::lemma_index_of_bound(piece@, '=');
                    }
                    let n = chars_of(piece).len();
                    let key = take_str(piece, j);
                    let value = skip_str(piece, j + 1);
                    match TextStyle::parse(value.as_str()) {
                        Ok(t) => {
                            let ghost before = style_entries(entries@);
                            entries.push((key, t));
                            assert(style_entries(entries@) =~= before.push((piece@.take(j as int), t)));
                        },
                        Err(e) => {
                            proof {
                                let w = choose|w: Seq<char>| style_upto(words(value@), words(value@).len() as int) == Err::<TextStyle, Seq<char>>(w)
                                    && (e matches ToDoError::ParseTextStyle(m) && m@ == w);
                                lemma_custom_error_stays(ps, i + 1, ps.len() as int, Some(w));
                            }
                            return Err(e);
                        },
                    }
                },
            }
            i = i + 1;
        }
        Ok(CustomCategoryStyle { entries })
    }

    /// The default custom styles: `+todo-tui` in light blue.
    pub fn default_styles() -> (c: CustomCategoryStyle)
        ensures
            style_entries(c.entries@) == seq![("+todo-tui"@, TextStyle { bg: None, fg: Some(Color::LightBlue), modifier: None })],
    {
        let mut entries: Vec<(String, TextStyle)> = Vec::new();
        entries.push((to_string("+todo-tui"), TextStyle { bg: None, fg: Some(Color::LightBlue), modifier: None }));
        assert(style_entries(entries@) =~= seq![("+todo-tui"@, TextStyle { bg: None, fg: Some(Color::LightBlue), modifier: None })]);
        CustomCategoryStyle { entries }
    }
}

/// The styles that highlight the active item of lists and categories.
#[derive(PartialEq, Eq, Structural, Debug, Copy, Clone)]
pub struct ActiveColorConfig {
    pub list_active_color: TextStyle,
    pub pending_active_color: TextStyle,
    pub done_active_color: TextStyle,
    pub category_active_color: TextStyle,
    pub projects_active_color: TextStyle,
    pub contexts_active_color: TextStyle,
    pub tags_active_color: TextStyle,
}

impl ActiveColorConfig {
    /// The style of the active task of a list: the list style with the list's own style over
    /// it.
    pub fn get_active_style(&self, data_type: ToDoData) -> (r: TextStyle)
        ensures
            r == combined(self.list_active_color, match data_type {
                ToDoData::Done => self.done_active_color,
                ToDoData::Pending => self.pending_active_color,
            }),
    {
        self.list_active_color.combine(
            &match data_type {
                ToDoData::Done => self.done_active_color,
                ToDoData::Pending => self.pending_active_color,
            },
        )
    }

    /// The style of the active name of a category: the list style, then the category style,
    /// then the style of the kind of category over it.
    pub fn get_active_config_style(&self, category: ToDoCategory) -> (r: TextStyle)
        ensures
            r == combined(combined(self.list_active_color, self.category_active_color), match category {
                ToDoCategory::Projects => self.projects_active_color,
                ToDoCategory::Contexts => self.contexts_active_color,
                ToDoCategory::Hashtags => self.tags_active_color,
            }),
    {
        self.list_active_color.combine(&self.category_active_color).combine(
            &match category {
                ToDoCategory::Projects => self.projects_active_color,
                ToDoCategory::Contexts => self.contexts_active_color,
                ToDoCategory::Hashtags => self.tags_active_color,
            },
        )
    }
}

impl Default for ActiveColorConfig {
    fn default() -> (r: ActiveColorConfig)
        ensures
            r.list_active_color == (TextStyle { bg: Some(Color::LightRed), fg: None, modifier: None }),
            r.pending_active_color == no_style(),
            r.done_active_color == no_style(),
            r.category_active_color == no_style(),
            r.projects_active_color == no_style(),
            r.contexts_active_color == no_style(),
            r.tags_active_color == no_style(),
    {
        ActiveColorConfig {
            list_active_color: TextStyle::new().bg(Color::LightRed),
            pending_active_color: TextStyle::new(),
            done_active_color: TextStyle::new(),
            category_active_color: TextStyle::new(),
            projects_active_color: TextStyle::new(),
            contexts_active_color: TextStyle::new(),
            tags_active_color: TextStyle::new(),
        }
    }
}

/// The styles of the task lists.
#[derive(Debug)]
pub struct Styles {
    pub active_color: Color,
    pub priority_style: TextStyleList,
    pub projects_style: TextStyle,
    pub contexts_style: TextStyle,
    pub hashtags_style: TextStyle,
    pub category_style: TextStyle,
    pub category_select_style: TextStyle,
    pub category_remove_style: TextStyle,
    pub custom_category_style: CustomCategoryStyle,
    pub highlight: TextStyle,
}

/// The style of a category name by its mark: the category style with the style of
/// projects ('+'), contexts ('@') or hashtags ('#') over it.
pub open spec fn base_category_style(st: Styles, name: Seq<char>) -> TextStyle {
    if name[0] == '+' {
        combined(st.category_style, st.projects_style)
    } else if name[0] == '@' {
        combined(st.category_style, st.contexts_style)
    } else if name[0] == '#' {
        combined(st.category_style, st.hashtags_style)
    } else {
        st.category_style
    }
}

impl Styles {
    /// The style of a category name: its custom style if it has one, else the style by its
    /// mark (see `base_category_style`). The name must not be empty.
    pub fn get_category_style(&self, category: &str) -> (r: TextStyle)
        requires
            category@.len() > 0,
        ensures
            r == match entry_style(style_entries(self.custom_category_style.entries@), category@) {
                Some(t) => t,
                None => base_category_style(*self, category@),
            },
    {
        match self.custom_category_style.get(category) {
            Some(t) => t,
            None => self.get_category_base_style(category),
        }
    }

    /// The style of a category name by its mark (see `base_category_style`).
    pub fn get_category_base_style(&self, category: &str) -> (r: TextStyle)
        requires
            category@.len() > 0,
        ensures
            r == base_category_style(*self, category@),
    {
        let v = chars_of(category);
        let c = v[0];
        if c == '+' {
            self.category_style.combine(&self.projects_style)
        } else if c == '@' {
            self.category_style.combine(&self.contexts_style)
        } else if c == '#' {
            self.category_style.combine(&self.hashtags_style)
        } else {
            self.category_style
        }
    }

    /// The default styles: red for the active window, the default priority styles, green for
    /// selected and red for removed categories, light blue for `+todo-tui`, and a yellow
    /// background for search matches.
    pub fn default_styles() -> (s: Styles)
        ensures
            s.active_color == Color::Red,
            s.priority_style.styles@ == default_priority_styles(),
            s.projects_style == no_style(),
            s.contexts_style == no_style(),
            s.hashtags_style == no_style(),
            s.category_style == no_style(),
            s.category_select_style == (TextStyle { bg: None, fg: Some(Color::Green), modifier: None }),
            s.category_remove_style == (TextStyle { bg: None, fg: Some(Color::Red), modifier: None }),
            style_entries(s.custom_category_style.entries@) == seq![("+todo-tui"@, TextStyle { bg: None, fg: Some(Color::LightBlue), modifier: None })],
            s.highlight == (TextStyle { bg: Some(Color::Yellow), fg: None, modifier: None }),
    {
        Styles {
            active_color: Color::Red,
            priority_style: TextStyleList::default(),
            projects_style: TextStyle::new(),
            contexts_style: TextStyle::new(),
            hashtags_style: TextStyle::new(),
            category_style: TextStyle::new(),
            category_select_style: TextStyle::new().fg(Color::Green),
            category_remove_style: TextStyle::new().fg(Color::Red),
            custom_category_style: CustomCategoryStyle::default_styles(),
            highlight: TextStyle::new().bg(Color::Yellow),
        }
    }
}

impl core::str::FromStr for Color {
    type Err = ToDoError;

    fn from_str(s: &str) -> (r: Result<Color, ToDoError>)
        ensures
            match r {
                Ok(c) => color_of(s@) == Some(c),
                Err(e) => color_of(s@) is None && (e matches ToDoError::ColorSerializationFailed(m) && m@ == s@),
            },
    {
        Color::parse(s)
    }
}

impl core::str::FromStr for TextModifier {
    type Err = ToDoError;

    fn from_str(s: &str) -> (r: Result<TextModifier, ToDoError>)
        ensures
            match r {
                Ok(m) => modifier_named(lowercase(s@)) == Some(m),
                Err(e) => modifier_named(lowercase(s@)) is None && (e matches ToDoError::ParseTextModifier(n) && n@ == s@),
            },
    {
        TextModifier::parse(s)
    }
}

impl core::str::FromStr for TextStyle {
    type Err = ToDoError;

    fn from_str(s: &str) -> (r: Result<TextStyle, ToDoError>)
        ensures
            match r {
                Ok(st) => style_upto(words(s@), words(s@).len() as int) == Ok::<TextStyle, Seq<char>>(st),
                Err(e) => exists|w: Seq<char>| style_upto(words(s@), words(s@).len() as int) == Err::<TextStyle, Seq<char>>(w)
                    && (e matches ToDoError::ParseTextStyle(m) && m@ == w),
            },
    {
        TextStyle::parse(s)
    }
}

} // verus!
