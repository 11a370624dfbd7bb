//! Color operations: an 8-bit sRGB color value with text round-trip
//! (hex and `rgb()` forms) and integer-scaled luminosity.

use vstd::arithmetic::div_mod::lemma_fundamental_div_mod;
use vstd::arithmetic::div_mod::lemma_mod_division_less_than_divisor;
use vstd::prelude::*;
use vstd::string::StrSliceExecFns;
use vstd::string::StringExecFns;

verus! {

/// Why a color string failed to parse.
#[derive(Clone, Copy, Debug, PartialEq, Eq, Structural)]
pub enum ParseError {
    /// A hex form without exactly six hex digits.
    InvalidHex,
    /// Neither a `#`-prefixed hex form nor an `rgb(`/`rgba(` form.
    UnrecognizedFormat,
    /// An `rgb()` component that is not a 0..=255 integer, or fewer than
    /// three components.
    InvalidComponent,
}

/// A single color sample: three 8-bit sRGB channels.
///
/// Two colors are equal exactly when their channel triples are equal.
#[derive(Clone, Copy, Debug, PartialEq, Eq, Structural)]
pub struct Color {
    pub r: u8,
    pub g: u8,
    pub b: u8,
}

/// Luminosity of a color, scaled by 10000 * 255: the ITU-R BT.709
/// weighted sum 0.2126 r + 0.7152 g + 0.0722 b of the normalized channels.
pub open spec fn lum_spec(c: Color) -> int {
    2126 * c.r + 7152 * c.g + 722 * c.b
}

/// The uppercase hex digit for a value in 0..16.
pub open spec fn hex_digit_char(d: int) -> char {
    if d == 0 { '0' } else if d == 1 { '1' } else if d == 2 { '2' } else if d == 3 { '3' }
    else if d == 4 { '4' } else if d == 5 { '5' } else if d == 6 { '6' } else if d == 7 { '7' }
    else if d == 8 { '8' } else if d == 9 { '9' } else if d == 10 { 'A' } else if d == 11 { 'B' }
    else if d == 12 { 'C' } else if d == 13 { 'D' } else if d == 14 { 'E' } else { 'F' }
}

/// The canonical text form of a color: `#RRGGBB`, uppercase.
pub open spec fn hex_seq(c: Color) -> Seq<char> {
    seq![
        '#',
        hex_digit_char(c.r as int / 16),
        hex_digit_char(c.r as int % 16),
        hex_digit_char(c.g as int / 16),
        hex_digit_char(c.g as int % 16),
        hex_digit_char(c.b as int / 16),
        hex_digit_char(c.b as int % 16),
    ]
}

/// Whether a character is a hex digit, either case.
pub open spec fn is_hex_digit(ch: char) -> bool {
    (48 <= ch as u32 && ch as u32 <= 57)  // '0'..='9'
    || (65 <= ch as u32 && ch as u32 <= 70)  // 'A'..='F'
    || (97 <= ch as u32 && ch as u32 <= 102)  // 'a'..='f'
}

/// The value of a hex digit character.
pub open spec fn hex_val(ch: char) -> int
    recommends
        is_hex_digit(ch),
{
    if 48 <= ch as u32 && ch as u32 <= 57 {
        ch as u32 - 48
    } else if 65 <= ch as u32 && ch as u32 <= 70 {
        ch as u32 - 55
    } else {
        ch as u32 - 87
    }
}

/// Whether a character is a decimal digit.
pub open spec fn is_digit(ch: char) -> bool {
    48 <= ch as u32 && ch as u32 <= 57
}

/// The value of a decimal digit character.
pub open spec fn digit_val(ch: char) -> int
    recommends
        is_digit(ch),
{
    ch as u32 - 48
}

/// Whether every character of `s[from..end)` is a decimal digit.
pub open spec fn all_digits(s: Seq<char>, from: int, end: int) -> bool {
    forall|j: int| from <= j < end ==> is_digit(s[j])
}

/// The decimal value of the digit run `s[from..end)`.
pub open spec fn digits_val(s: Seq<char>, from: int, end: int) -> int
    decreases end - from,
{
    if end <= from {
        0
    } else {
        digits_val(s, from, end - 1) * 10 + digit_val(s[end - 1])
    }
}

/// An unsigned 8-bit integer written in `s[from..end)`: an optional `+`
/// sign, then one or more decimal digits, with a value of at most 255.
pub open spec fn parse_u8_spec(s: Seq<char>, from: int, end: int) -> Option<u8> {
    let st = if from < end && s[from] == '+' { from + 1 } else { from };
    if st < end && all_digits(s, st, end) && digits_val(s, st, end) <= 255 {
        Some(digits_val(s, st, end) as u8)
    } else {
        None
    }
}

/// The first index of `ch` in `s[from..end)`, or `end` if it does not occur.
pub open spec fn find_in(s: Seq<char>, ch: char, from: int, end: int) -> int
    decreases end - from,
{
    if from >= end {
        end
    } else if s[from] == ch {
        from
    } else {
        find_in(s, ch, from + 1, end)
    }
}

/// The comma-separated components of `s[from..end)`, each read as an 8-bit
/// integer; `None` as soon as one of them is not one.
pub open spec fn comps_spec(s: Seq<char>, from: int, end: int) -> Option<Seq<u8>>
    decreases end - from,
        when from <= end
        via comps_spec_decreases
{
    let j = find_in(s, ',', from, end);
    if j >= end {
        match parse_u8_spec(s, from, end) {
            Some(v) => Some(seq![v]),
            None => None,
        }
    } else {
        match (parse_u8_spec(s, from, j), comps_spec(s, j + 1, end)) {
            (Some(v), Some(rest)) => Some(seq![v] + rest),
            _ => None,
        }
    }
}

#[via_fn]
proof fn comps_spec_decreases(s: Seq<char>, from: int, end: int) {
    lemma_find_in_range(s, ',', from, end);
}

/// Characterization of `find_in`: it stays in range, lands on `ch`, and
/// nothing before it is `ch`.
proof fn lemma_find_in_range(s: Seq<char>, ch: char, from: int, end: int)
    requires
        from <= end,
    ensures
        from <= find_in(s, ch, from, end) <= end,
        find_in(s, ch, from, end) < end ==> s[find_in(s, ch, from, end)] == ch,
        forall|j: int| from <= j < find_in(s, ch, from, end) ==> s[j] != ch,
    decreases end - from,
{
    if from >= end {
    } else if s[from] == ch {
    } else {
        lemma_find_in_range(s, ch, from + 1, end);
    }
}

/// A digit run's value is nonnegative.
proof fn lemma_digits_val_nonneg(s: Seq<char>, from: int, end: int)
    requires
        all_digits(s, from, end),
    ensures
        digits_val(s, from, end) >= 0,
    decreases end - from,
{
    if end > from {
        lemma_digits_val_nonneg(s, from, end - 1);
    }
}

/// A digit run's value only grows as the run is extended to the right.
proof fn lemma_digits_val_mono(s: Seq<char>, from: int, mid: int, end: int)
    requires
        from <= mid <= end,
        all_digits(s, from, end),
    ensures
        digits_val(s, from, mid) <= digits_val(s, from, end),
    decreases end - mid,
{
    if mid < end {
        lemma_digits_val_mono(s, from, mid, end - 1);
        lemma_digits_val_nonneg(s, from, end - 1);
    }
}

/// What `Color::parse` returns on an `rgb(`/`rgba(` form, with `open` the
/// index of the opening parenthesis: the text up to the first `)` is split
/// at commas, every component must be a 0..=255 integer, at least three of
/// them must be present, and the first three are the channels (a fourth
/// alpha component is accepted but ignored).
pub open spec fn parse_rgb_spec(s: Seq<char>, open: int) -> Result<Color, ParseError> {
    let close = find_in(s, ')', open + 1, s.len() as int);
    if close >= s.len() {
        Err(ParseError::UnrecognizedFormat)
    } else {
        match comps_spec(s, open + 1, close) {
            Some(vs) => if vs.len() >= 3 {
                Ok(Color { r: vs[0], g: vs[1], b: vs[2] })
            } else {
                Err(ParseError::InvalidComponent)
            },
            None => Err(ParseError::InvalidComponent),
        }
    }
}

/// What `Color::parse` returns: a `#`-prefixed hex form, an `rgb(` form,
/// or an `rgba(` form; anything else is `UnrecognizedFormat`.
pub open spec fn parse_spec(s: Seq<char>) -> Result<Color, ParseError> {
    if s.len() > 0 && s[0] == '#' {
        from_hex_spec(s)
    } else if s.len() >= 4 && s[0] == 'r' && s[1] == 'g' && s[2] == 'b' && s[3] == '(' {
        parse_rgb_spec(s, 3)
    } else if s.len() >= 5 && s[0] == 'r' && s[1] == 'g' && s[2] == 'b' && s[3] == 'a'
        && s[4] == '(' {
        parse_rgb_spec(s, 4)
    } else {
        Err(ParseError::UnrecognizedFormat)
    }
}

/// What `Color::from_hex` returns: an optional leading `#`, then exactly
/// six hex digits; anything else is `InvalidHex`.
pub open spec fn from_hex_spec(s: Seq<char>) -> Result<Color, ParseError> {
    let t = if s.len() > 0 && s[0] == '#' { s.skip(1) } else { s };
    if t.len() == 6
        && is_hex_digit(t[0]) && is_hex_digit(t[1]) && is_hex_digit(t[2])
        && is_hex_digit(t[3]) && is_hex_digit(t[4]) && is_hex_digit(t[5]) {
        Ok(Color {
            r: (hex_val(t[0]) * 16 + hex_val(t[1])) as u8,
            g: (hex_val(t[2]) * 16 + hex_val(t[3])) as u8,
            b: (hex_val(t[4]) * 16 + hex_val(t[5])) as u8,
        })
    } else {
        Err(ParseError::InvalidHex)
    }
}

impl Color {
    /// Build a color from exact 8-bit channels.
    pub fn from_rgb(r: u8, g: u8, b: u8) -> (c: Color)
        ensures
            c == (Color { r, g, b }),
    {
        Color { r, g, b }
    }

    /// Return the separate red/green/blue channel values.
    pub fn rgb(&self) -> (t: (u8, u8, u8))
        ensures
            t == (self.r, self.g, self.b),
    {
        (self.r, self.g, self.b)
    }

    /// Per-channel 8-bit complement, the basis for text-color generation.
    pub fn negative(&self) -> (c: Color)
        ensures
            c.r == 255 - self.r,
            c.g == 255 - self.g,
            c.b == 255 - self.b,
    {
        Color { r: 255 - self.r, g: 255 - self.g, b: 255 - self.b }
    }

    /// Relative luminance, scaled by 10000 * 255 (so the full range is
    /// 0 ..= 2_550_000 and "more than 0.5" means "more than 1_275_000").
    pub fn luminocity(&self) -> (l: u32)
        ensures
            l == lum_spec(*self),
    {
        2126 * (self.r as u32) + 7152 * (self.g as u32) + 722 * (self.b as u32)
    }

    /// Read a color from a hex string: an optional leading `#`, then
    /// exactly six hex digits.
    pub fn from_hex(s: &str) -> (res: Result<Color, ParseError>)
        ensures
            res == from_hex_spec(s@),
    {
        let n = s.unicode_len();
        let start: usize = if n > 0 && s.get_char(0) == '#' { 1 } else { 0 };
        if n - start != 6 {
            return Err(ParseError::InvalidHex);
        }
        let rv = hex_byte(s, start);
        let gv = hex_byte(s, start + 2);
        let bv = hex_byte(s, start + 4);
        proof {
            let t = if s@.len() > 0 && s@[0] == '#' { s@.skip(1) } else { s@ };
            assert forall|j: int| 0 <= j < 6 implies t[j] == s@[start + j] by {}
        }
        match (rv, gv, bv) {
            (Some(r), Some(g), Some(b)) => Ok(Color { r, g, b }),
            _ => Err(ParseError::InvalidHex),
        }
    }

    /// Read a color from text: a `#`-prefixed hex form, or an
    /// `rgb(r,g,b)` / `rgba(r,g,b,a)` form whose alpha, if present, is
    /// accepted but ignored.
    pub fn parse(s: &str) -> (res: Result<Color, ParseError>)
        ensures
            res == parse_spec(s@),
    {
        let n = s.unicode_len();
        if n > 0 && s.get_char(0) == '#' {
            return Self::from_hex(s);
        }
        if n >= 4 && s.get_char(0) == 'r' && s.get_char(1) == 'g' && s.get_char(2) == 'b'
            && s.get_char(3) == '(' {
            return parse_rgb_body(s, 3, n);
        }
        if n >= 5 && s.get_char(0) == 'r' && s.get_char(1) == 'g' && s.get_char(2) == 'b'
            && s.get_char(3) == 'a' && s.get_char(4) == '(' {
            return parse_rgb_body(s, 4, n);
        }
        Err(ParseError::UnrecognizedFormat)
    }

    /// The canonical uppercase `#RRGGBB` serialization.
    pub fn hex(&self) -> (res: String)
        ensures
            res@ == hex_seq(*self),
    {
        let mut out = hash_str();
        out.append(hex_digit_str(self.r / 16));
        out.append(hex_digit_str(self.r % 16));
        out.append(hex_digit_str(self.g / 16));
        out.append(hex_digit_str(self.g % 16));
        out.append(hex_digit_str(self.b / 16));
        out.append(hex_digit_str(self.b % 16));
        proof {
            assert(out@ =~= hex_seq(*self));
        }
        out
    }
}

/// Find the first `ch` in `s[from..end)`, returning `end` if it is absent.
fn find_char_from(s: &str, ch: char, from: usize, end: usize) -> (j: usize)
    requires
        from <= end <= s@.len(),
    ensures
        j == find_in(s@, ch, from as int, end as int),
{
    let mut i = from;
    while i < end
        invariant
            from <= i <= end <= s@.len(),
            find_in(s@, ch, from as int, end as int) == find_in(s@, ch, i as int, end as int),
        decreases end - i,
    {
        if s.get_char(i) == ch {
            return i;
        }
        i = i + 1;
    }
    end
}

/// Read `s[from..end)` as an unsigned 8-bit integer, as `u8::from_str`
/// would: an optional `+` sign, then one or more decimal digits, value at
/// most 255.
fn parse_u8_range(s: &str, from: usize, end: usize) -> (res: Option<u8>)
    requires
        from <= end <= s@.len(),
    ensures
        res == parse_u8_spec(s@, from as int, end as int),
{
    let st: usize = if from < end && s.get_char(from) == '+' { from + 1 } else { from };
    if st >= end {
        return None;
    }
    let mut acc: u32 = 0;
    let mut i = st;
    while i < end
        invariant
            st <= i <= end <= s@.len(),
            st == (if (from as int) < end && s@[from as int] == '+' { from + 1 } else {
                from as int
            }),
            st < end,
            all_digits(s@, st as int, i as int),
            acc == digits_val(s@, st as int, i as int),
            acc <= 255,
        decreases end - i,
    {
        let ch = s.get_char(i);
        let u = ch as u32;
        if u < 48 || u > 57 {
            return None;
        }
        acc = acc * 10 + (u - 48);
        if acc > 255 {
            proof {
                if all_digits(s@, st as int, end as int) {
                    lemma_digits_val_mono(s@, st as int, i + 1, end as int);
                }
            }
            return None;
        }
        i = i + 1;
    }
    Some(acc as u8)
}

/// Read the comma-separated components of `s[from..end)`, failing as soon
/// as one is not a 0..=255 integer.
fn parse_comps(s: &str, from: usize, end: usize) -> (res: Option<Vec<u8>>)
    requires
        from <= end <= s@.len(),
    ensures
        res is Some <==> comps_spec(s@, from as int, end as int) is Some,
        res is Some ==> res->0@ == comps_spec(s@, from as int, end as int)->0,
    decreases end - from,
{
    proof {
        lemma_find_in_range(s@, ',', from as int, end as int);
    }
    let j = find_char_from(s, ',', from, end);
    if j >= end {
        match parse_u8_range(s, from, end) {
            Some(v) => {
                let mut out: Vec<u8> = Vec::new();
                out.push(v);
                proof {
                    assert(out@ =~= seq![v]);
                }
                Some(out)
            },
            None => None,
        }
    } else {
        let head = parse_u8_range(s, from, j);
        match head {
            Some(v) => {
                match parse_comps(s, j + 1, end) {
                    Some(mut rest) => {
                        let mut out: Vec<u8> = Vec::new();
                        out.push(v);
                        out.append(&mut rest);
                        proof {
                            assert(out@ =~= seq![v] + comps_spec(s@, j + 1, end as int)->0);
                        }
                        Some(out)
                    },
                    None => None,
                }
            },
            None => None,
        }
    }
}

/// Read the parenthesized component list of an `rgb(`/`rgba(` form, with
/// `open` the index of the opening parenthesis.
fn parse_rgb_body(s: &str, open: usize, n: usize) -> (res: Result<Color, ParseError>)
    requires
        open < n,
        n == s@.len(),
    ensures
        res == parse_rgb_spec(s@, open as int),
{
    proof {
        lemma_find_in_range(s@, ')', open + 1, n as int);
    }
    let close = find_char_from(s, ')', open + 1, n);
    if close >= n {
        return Err(ParseError::UnrecognizedFormat);
    }
    match parse_comps(s, open + 1, close) {
        Some(vs) => {
            if vs.len() >= 3 {
                Ok(Color { r: vs[0], g: vs[1], b: vs[2] })
            } else {
                Err(ParseError::InvalidComponent)
            }
        },
        None => Err(ParseError::InvalidComponent),
    }
}

/// Two hex digit characters read as one byte.
fn hex_byte(s: &str, i: usize) -> (res: Option<u8>)
    requires
        i + 2 <= s@.len(),
        i + 2 <= usize::MAX,
    ensures
        res is Some <==> is_hex_digit(s@[i as int]) && is_hex_digit(s@[i + 1]),
        res is Some ==> res->0 == hex_val(s@[i as int]) * 16 + hex_val(s@[i + 1]),
{
    let hi = hex_val_of(s.get_char(i));
    let lo = hex_val_of(s.get_char(i + 1));
    match (hi, lo) {
        (Some(h), Some(l)) => Some(h * 16 + l),
        _ => None,
    }
}

/// The value of one hex digit character, if it is one.
fn hex_val_of(ch: char) -> (res: Option<u8>)
    ensures
        res is Some <==> is_hex_digit(ch),
        res is Some ==> res->0 == hex_val(ch) && res->0 < 16,
{
    let u = ch as u32;
    if 48 <= u && u <= 57 {
        Some((u - 48) as u8)
    } else if 65 <= u && u <= 70 {
        Some((u - 55) as u8)
    } else if 97 <= u && u <= 102 {
        Some((u - 87) as u8)
    } else {
        None
    }
}

/// A one-character string holding `#`.
fn hash_str() -> (res: String)
    ensures
        res@ == seq!['#'],
{
    proof {
        reveal_strlit("#");
    }
    let s = String::from_str("#");
    proof {
        assert(s@ =~= seq!['#']);
    }
    s
}

/// The one-character string for an uppercase hex digit value.
pub(crate) fn hex_digit_str(d: u8) -> (res: &'static str)
    requires
        d < 16,
    ensures
        res@ == seq![hex_digit_char(d as int)],
{
    proof {
        reveal_strlit("0");
        reveal_strlit("1");
        reveal_strlit("2");
        reveal_strlit("3");
        reveal_strlit("4");
        reveal_strlit("5");
        reveal_strlit("6");
        reveal_strlit("7");
        reveal_strlit("8");
        reveal_strlit("9");
        reveal_strlit("A");
        reveal_strlit("B");
        reveal_strlit("C");
        reveal_strlit("D");
        reveal_strlit("E");
        reveal_strlit("F");
    }
    let res = match d {
        0 => "0",
        1 => "1",
        2 => "2",
        3 => "3",
        4 => "4",
        5 => "5",
        6 => "6",
        7 => "7",
        8 => "8",
        9 => "9",
        10 => "A",
        11 => "B",
        12 => "C",
        13 => "D",
        14 => "E",
        _ => "F",
    };
    proof {
        assert(res@ =~= seq![hex_digit_char(d as int)]);
    }
    res
}

/// Encoding a hex digit value and reading it back is the identity.
proof fn lemma_hex_digit_inverse(d: int)
    requires
        0 <= d < 16,
    ensures
        is_hex_digit(hex_digit_char(d)),
        hex_val(hex_digit_char(d)) == d,
{
}

/// Text round-trip: reading back the canonical `#RRGGBB` form of any
/// color, with `from_hex` or with `parse`, yields that color exactly.
pub proof fn lemma_parse_hex_round_trip(c: Color)
    ensures
        from_hex_spec(hex_seq(c)) == Ok::<Color, ParseError>(c),
        parse_spec(hex_seq(c)) == Ok::<Color, ParseError>(c),
{
    let s = hex_seq(c);
    let t = s.skip(1);
    lemma_fundamental_div_mod(c.r as int, 16);
    lemma_fundamental_div_mod(c.g as int, 16);
    lemma_fundamental_div_mod(c.b as int, 16);
    lemma_mod_division_less_than_divisor(c.r as int, 16);
    lemma_mod_division_less_than_divisor(c.g as int, 16);
    lemma_mod_division_less_than_divisor(c.b as int, 16);
    lemma_hex_digit_inverse(c.r as int / 16);
    lemma_hex_digit_inverse(c.r as int % 16);
    lemma_hex_digit_inverse(c.g as int / 16);
    lemma_hex_digit_inverse(c.g as int % 16);
    lemma_hex_digit_inverse(c.b as int / 16);
    lemma_hex_digit_inverse(c.b as int % 16);
    assert(t.len() == 6);
    assert(t[0] == hex_digit_char(c.r as int / 16));
    assert(t[1] == hex_digit_char(c.r as int % 16));
    assert(t[2] == hex_digit_char(c.g as int / 16));
    assert(t[3] == hex_digit_char(c.g as int % 16));
    assert(t[4] == hex_digit_char(c.b as int / 16));
    assert(t[5] == hex_digit_char(c.b as int % 16));
}

} // verus!
