//! Text colors: a six-hex-digit `RRGGBB` configuration string becomes the
//! packed `(blue << 16) | (green << 8) | red` reference value the drawing
//! surface expects.

use vstd::prelude::*;

verus! {

/// A hexadecimal digit, either case.
pub open spec fn is_hex_digit(c: char) -> bool {
    ('0' <= c && c <= '9') || ('a' <= c && c <= 'f') || ('A' <= c && c <= 'F')
}

/// The value of a hexadecimal digit; unconstrained for other characters.
pub open spec fn hex_digit_val(c: char) -> nat {
    if '0' <= c && c <= '9' {
        (c as u32 - 48) as nat
    } else if 'a' <= c && c <= 'f' {
        (c as u32 - 87) as nat
    } else if 'A' <= c && c <= 'F' {
        (c as u32 - 55) as nat
    } else {
        0
    }
}

/// The first six characters are hexadecimal digits.
pub open spec fn color_ok(s: Seq<char>) -> bool {
    s.len() >= 6 && forall|i: int| 0 <= i < 6 ==> is_hex_digit(#[trigger] s[i])
}

/// The packed color reference of an `RRGGBB` string: blue in the high byte,
/// red in the low one.
pub open spec fn color_value(s: Seq<char>) -> nat {
    let r = hex_digit_val(s[0]) * 16 + hex_digit_val(s[1]);
    let g = hex_digit_val(s[2]) * 16 + hex_digit_val(s[3]);
    let b = hex_digit_val(s[4]) * 16 + hex_digit_val(s[5]);
    b * 65536 + g * 256 + r
}

/// The value of one hexadecimal digit character.
fn hex_digit_exec(c: char) -> (r: Option<u32>)
    ensures
        match r {
            Some(v) => is_hex_digit(c) && v as nat == hex_digit_val(c) && v <= 15,
            None => !is_hex_digit(c),
        },
{
    let code = c as u32;
    if 48 <= code && code <= 57 {
        Some(code - 48)
    } else if 97 <= code && code <= 102 {
        Some(code - 87)
    } else if 65 <= code && code <= 70 {
        Some(code - 55)
    } else {
        None
    }
}

/// Parses an `RRGGBB` color string into the packed reference value, reading
/// the first six characters; anything shorter or non-hexadecimal is
/// rejected.
pub fn parse_color(s: &str) -> (r: Option<u32>)
    ensures
        match r {
            Some(v) => color_ok(s@) && v as nat == color_value(s@),
            None => !color_ok(s@),
        },
{
    if s.unicode_len() < 6 {
        return None;
    }
    let d0 = hex_digit_exec(s.get_char(0));
    let d1 = hex_digit_exec(s.get_char(1));
    let d2 = hex_digit_exec(s.get_char(2));
    let d3 = hex_digit_exec(s.get_char(3));
    let d4 = hex_digit_exec(s.get_char(4));
    let d5 = hex_digit_exec(s.get_char(5));
    match (d0, d1, d2, d3, d4, d5) {
        (Some(h0), Some(h1), Some(h2), Some(h3), Some(h4), Some(h5)) => {
            let red = h0 * 16 + h1;
            let green = h2 * 16 + h3;
            let blue = h4 * 16 + h5;
            Some(blue * 65536 + green * 256 + red)
        },
        _ => None,
    }
}

} // verus!
