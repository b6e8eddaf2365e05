//! CSS hex colors, as the syntax highlighter writes them, read as terminal
//! colors.

use vstd::prelude::*;

use crate::style::Color;
use crate::text::str_chars;

verus! {

/// Whether `c` is an ASCII hexadecimal digit.
pub open spec fn is_hex_digit(c: char) -> bool {
    ('0' <= c <= '9') || ('a' <= c <= 'f') || ('A' <= c <= 'F')
}

/// The value of a hexadecimal digit.
pub open spec fn hex_value(c: char) -> u8 {
    if '0' <= c <= '9' {
        (c as u32 - '0' as u32) as u8
    } else if 'a' <= c <= 'f' {
        (c as u32 - 'a' as u32 + 10) as u8
    } else {
        (c as u32 - 'A' as u32 + 10) as u8
    }
}

/// A byte read from two characters in base 16 (as `u8::from_str_radix`,
/// which also takes a `+` sign before a single digit).
pub open spec fn spec_hex_byte(a: char, b: char) -> Option<u8> {
    if a == '+' && is_hex_digit(b) {
        Some(hex_value(b))
    } else if is_hex_digit(a) && is_hex_digit(b) {
        Some((hex_value(a) * 16 + hex_value(b)) as u8)
    } else {
        None
    }
}

/// The color written `#rrggbb`: a `#` then six ASCII characters forming
/// three bytes in base 16.
pub open spec fn spec_css_hex_to_color(s: Seq<char>) -> Option<Color> {
    if s.len() == 7 && s[0] == '#' && (forall|i: int| 1 <= i < 7 ==> (s[i] as u32) < 0x80) {
        match (spec_hex_byte(s[1], s[2]), spec_hex_byte(s[3], s[4]), spec_hex_byte(s[5], s[6])) {
            (Some(r), Some(g), Some(b)) => Some(Color::Rgb(r, g, b)),
            _ => None,
        }
    } else {
        None
    }
}

fn hex_digit_value(c: char) -> (r: Option<u8>)
    ensures
        r == (if is_hex_digit(c) {
            Some(hex_value(c))
        } else {
            None
        }),
{
    if '0' <= c && c <= '9' {
        Some((c as u32 - '0' as u32) as u8)
    } else if 'a' <= c && c <= 'f' {
        Some((c as u32 - 'a' as u32 + 10) as u8)
    } else if 'A' <= c && c <= 'F' {
        Some((c as u32 - 'A' as u32 + 10) as u8)
    } else {
        None
    }
}

fn hex_byte(a: char, b: char) -> (r: Option<u8>)
    ensures
        r == spec_hex_byte(a, b),
{
    let lo = match hex_digit_value(b) {
        Some(v) => v,
        None => return None,
    };
    if a == '+' {
        return Some(lo);
    }
    match hex_digit_value(a) {
        Some(hi) => {
            assert(hi < 16 && lo < 16);
            Some(hi * 16 + lo)
        },
        None => None,
    }
}

/// Reads a CSS hex color such as `"#cf222e"`.
pub fn css_hex_to_color(hex: &str) -> (r: Option<Color>)
    ensures
        r == spec_css_hex_to_color(hex@),
{
    let s = str_chars(hex);
    if s.len() != 7 || s[0] != '#' {
        return None;
    }
    let mut i: usize = 1;
    while i < 7
        invariant
            s@ == hex@,
            s@.len() == 7,
            1 <= i <= 7,
            forall|j: int| 1 <= j < i ==> (s@[j] as u32) < 0x80,
        decreases 7 - i,
    {
        if (s[i] as u32) >= 0x80 {
            return None;
        }
        i = i + 1;
    }
    let r = match hex_byte(s[1], s[2]) {
        Some(v) => v,
        None => return None,
    };
    let g = match hex_byte(s[3], s[4]) {
        Some(v) => v,
        None => return None,
    };
    let b = match hex_byte(s[5], s[6]) {
        Some(v) => v,
        None => return None,
    };
    Some(Color::Rgb(r, g, b))
}

} // verus!
