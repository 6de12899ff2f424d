//! RGBA color values: construction, hex parsing and hex formatting.

use vstd::prelude::*;
use crate::text::{hex_byte_str, hex_digit_val, is_hex_digit, push_hex_byte};
use crate::text::parse_hex_digit;

verus! {

/// A fully specified RGBA color; each channel lies in `[0, 255]`.
#[derive(Debug, Clone, Copy, PartialEq, Eq, Structural)]
pub struct Color {
    pub r: u8,
    pub g: u8,
    pub b: u8,
    pub a: u8,
}

/// Why a hex color string was rejected.
#[derive(Debug, Clone, Copy, PartialEq, Eq, Structural)]
pub enum ColorParseError {
    /// The string does not start with `#`.
    MissingHash,
    /// The string is neither 7 nor 9 characters long.
    InvalidLength,
    /// A character outside `0-9`, `a-f`, `A-F` where a hex digit belongs.
    InvalidDigit,
}

impl Color {
    /// Builds an opaque color: alpha defaults to 255.
    pub fn from_rgb(rgb: (u8, u8, u8)) -> (c: Color)
        ensures
            c == (Color { r: rgb.0, g: rgb.1, b: rgb.2, a: 255u8 }),
    {
        Color { r: rgb.0, g: rgb.1, b: rgb.2, a: 255 }
    }

    pub fn from_rgba(rgba: (u8, u8, u8, u8)) -> (c: Color)
        ensures
            c == (Color { r: rgba.0, g: rgba.1, b: rgba.2, a: rgba.3 }),
    {
        Color { r: rgba.0, g: rgba.1, b: rgba.2, a: rgba.3 }
    }

    pub fn to_rgb(&self) -> (t: (u8, u8, u8))
        ensures
            t == (self.r, self.g, self.b),
    {
        (self.r, self.g, self.b)
    }

    pub fn to_rgba(&self) -> (t: (u8, u8, u8, u8))
        ensures
            t == (self.r, self.g, self.b, self.a),
    {
        (self.r, self.g, self.b, self.a)
    }

    /// `#RRGGBB`, upper-case hex.
    pub fn to_rgb_string(&self) -> (s: String)
        ensures
            s@ == rgb_hex_str(*self),
    {
        let s = String::from_str(hash_str());
        let s = push_hex_byte(s, self.r);
        let s = push_hex_byte(s, self.g);
        let s = push_hex_byte(s, self.b);
        proof {
            assert(s@ =~= rgb_hex_str(*self));
        }
        s
    }

    /// `#RRGGBBAA`, upper-case hex.
    pub fn to_rgba_string(&self) -> (s: String)
        ensures
            s@ == rgba_hex_str(*self),
    {
        let s = String::from_str(hash_str());
        let s = push_hex_byte(s, self.r);
        let s = push_hex_byte(s, self.g);
        let s = push_hex_byte(s, self.b);
        let s = push_hex_byte(s, self.a);
        proof {
            assert(s@ =~= rgba_hex_str(*self));
        }
        s
    }

    /// The canonical text form: always the 9-character RGBA form.
    pub fn to_string(&self) -> (s: String)
        ensures
            s@ == rgba_hex_str(*self),
    {
        self.to_rgba_string()
    }

    /// Parses `#RRGGBB` or `#RRGGBBAA`; a missing alpha defaults to 255.
    ///
    /// Never substitutes a default color: every malformed input is
    /// rejected with the error `parse_color_spec` assigns to it.
    pub fn parse(s: &str) -> (r: Result<Color, ColorParseError>)
        ensures
            r == parse_color_spec(s@),
    {
        let n = s.unicode_len();
        if n != 7 && n != 9 {
            return Err(ColorParseError::InvalidLength);
        }
        if s.get_char(0) != '#' {
            return Err(ColorParseError::MissingHash);
        }
        let red = match parse_hex_pair(s, 1) {
            Some(v) => v,
            None => { return Err(ColorParseError::InvalidDigit); },
        };
        let green = match parse_hex_pair(s, 3) {
            Some(v) => v,
            None => { return Err(ColorParseError::InvalidDigit); },
        };
        let blue = match parse_hex_pair(s, 5) {
            Some(v) => v,
            None => { return Err(ColorParseError::InvalidDigit); },
        };
        let alpha = if n == 9 {
            match parse_hex_pair(s, 7) {
                Some(v) => v,
                None => { return Err(ColorParseError::InvalidDigit); },
            }
        } else {
            255
        };
        Ok(Color { r: red, g: green, b: blue, a: alpha })
    }
}

fn hash_str() -> (s: &'static str)
    ensures
        s@ =~= seq!['#'],
{
    proof {
        reveal_strlit("#");
    }
    "#"
}

/// The byte written as the two hex digits at `i` and `i + 1`.
pub open spec fn hex_pair_val(s: Seq<char>, i: int) -> int {
    16 * hex_digit_val(s[i]) + hex_digit_val(s[i + 1])
}

fn parse_hex_pair(s: &str, i: usize) -> (r: Option<u8>)
    requires
        i + 1 < s@.len(),
        s@.len() <= usize::MAX,
    ensures
        r is Some <==> is_hex_digit(s@[i as int]) && is_hex_digit(s@[i + 1]),
        r is Some ==> r->0 == hex_pair_val(s@, i as int),
{
    let hi = match parse_hex_digit(s.get_char(i)) {
        Some(v) => v,
        None => { return None; },
    };
    let lo = match parse_hex_digit(s.get_char(i + 1)) {
        Some(v) => v,
        None => { return None; },
    };
    Some(16 * hi + lo)
}

/// Whether every channel position of the hex form holds a hex digit.
pub open spec fn all_hex_digits(s: Seq<char>) -> bool {
    forall|i: int| 1 <= i < s.len() ==> is_hex_digit(#[trigger] s[i])
}

/// What `Color::parse` returns on any input, in full.
pub open spec fn parse_color_spec(s: Seq<char>) -> Result<Color, ColorParseError> {
    if s.len() != 7 && s.len() != 9 {
        Err(ColorParseError::InvalidLength)
    } else if s[0] != '#' {
        Err(ColorParseError::MissingHash)
    } else if !all_hex_digits(s) {
        Err(ColorParseError::InvalidDigit)
    } else {
        Ok(Color {
            r: hex_pair_val(s, 1) as u8,
            g: hex_pair_val(s, 3) as u8,
            b: hex_pair_val(s, 5) as u8,
            a: if s.len() == 9 { hex_pair_val(s, 7) as u8 } else { 255u8 },
        })
    }
}

/// The 7-character `#RRGGBB` text of a color.
pub open spec fn rgb_hex_str(c: Color) -> Seq<char> {
    seq!['#'] + hex_byte_str(c.r as int) + hex_byte_str(c.g as int) + hex_byte_str(c.b as int)
}

/// The 9-character `#RRGGBBAA` text of a color.
pub open spec fn rgba_hex_str(c: Color) -> Seq<char> {
    rgb_hex_str(c) + hex_byte_str(c.a as int)
}

proof fn lemma_hex_digit_roundtrip(d: int)
    requires
        0 <= d < 16,
    ensures
        is_hex_digit(crate::text::hex_digit_char(d)),
        hex_digit_val(crate::text::hex_digit_char(d)) == d,
{
}

/// Formatting a color and parsing the text back is lossless: the
/// 9-character form reproduces the color exactly, and the 7-character
/// form reproduces it with an explicit alpha of 255.
pub proof fn lemma_color_text_roundtrip(c: Color)
    ensures
        parse_color_spec(rgba_hex_str(c)) == Ok::<Color, ColorParseError>(c),
        parse_color_spec(rgb_hex_str(c)) == Ok::<Color, ColorParseError>(
            Color { r: c.r, g: c.g, b: c.b, a: 255u8 },
        ),
{
    let s9 = rgba_hex_str(c);
    let s7 = rgb_hex_str(c);
    assert(s7 =~= seq![
        '#',
        crate::text::hex_digit_char(c.r as int / 16),
        crate::text::hex_digit_char(c.r as int % 16),
        crate::text::hex_digit_char(c.g as int / 16),
        crate::text::hex_digit_char(c.g as int % 16),
        crate::text::hex_digit_char(c.b as int / 16),
        crate::text::hex_digit_char(c.b as int % 16),
    ]);
    assert(s9 =~= s7 + seq![
        crate::text::hex_digit_char(c.a as int / 16),
        crate::text::hex_digit_char(c.a as int % 16),
    ]);
    lemma_hex_digit_roundtrip(c.r as int / 16);
    lemma_hex_digit_roundtrip(c.r as int % 16);
    lemma_hex_digit_roundtrip(c.g as int / 16);
    lemma_hex_digit_roundtrip(c.g as int % 16);
    lemma_hex_digit_roundtrip(c.b as int / 16);
    lemma_hex_digit_roundtrip(c.b as int % 16);
    lemma_hex_digit_roundtrip(c.a as int / 16);
    lemma_hex_digit_roundtrip(c.a as int % 16);
    assert(all_hex_digits(s7));
    assert(all_hex_digits(s9));
    assert(hex_pair_val(s9, 1) == c.r as int);
    assert(hex_pair_val(s9, 3) == c.g as int);
    assert(hex_pair_val(s9, 5) == c.b as int);
    assert(hex_pair_val(s9, 7) == c.a as int);
    assert(hex_pair_val(s7, 1) == c.r as int);
    assert(hex_pair_val(s7, 3) == c.g as int);
    assert(hex_pair_val(s7, 5) == c.b as int);
}

} // verus!
