//! Colour packing helpers: 24/32-bit hex words to channel bytes and back
//! to `#`-prefixed hex strings.

use vstd::prelude::*;

use crate::model::Rgba;
use crate::numeric::{spec_hex2, push_hex2, hex_digit_char_lower};
use crate::strutil::chars_to_string;

verus! {

/// The colour a hex word denotes when read as RGB (with implied opaque
/// alpha) or RGBA, depending on its width.
pub open spec fn spec_hex_to_rgba(hex: u32) -> Rgba {
    if hex <= 0xFFFFFF {
        Rgba {
            r: ((hex >> 16) & 0xFF) as u8,
            g: ((hex >> 8) & 0xFF) as u8,
            b: (hex & 0xFF) as u8,
            a: 255,
        }
    } else {
        Rgba {
            r: ((hex >> 24) & 0xFF) as u8,
            g: ((hex >> 16) & 0xFF) as u8,
            b: ((hex >> 8) & 0xFF) as u8,
            a: (hex & 0xFF) as u8,
        }
    }
}

/// The colour a hex word denotes when read as RGB (with implied opaque
/// alpha) or ARGB, depending on its width; returned in (A, R, G, B) order.
pub open spec fn spec_hex_to_argb(hex: u32) -> Rgba {
    if hex <= 0xFFFFFF {
        Rgba {
            r: ((hex >> 16) & 0xFF) as u8,
            g: ((hex >> 8) & 0xFF) as u8,
            b: (hex & 0xFF) as u8,
            a: 255,
        }
    } else {
        Rgba {
            r: ((hex >> 16) & 0xFF) as u8,
            g: ((hex >> 8) & 0xFF) as u8,
            b: (hex & 0xFF) as u8,
            a: ((hex >> 24) & 0xFF) as u8,
        }
    }
}

/// Splits a hex colour word into `(r, g, b, a)` channel bytes.
pub fn hex_to_rgba(hex: u32) -> (c: (u8, u8, u8, u8))
    ensures
        ({
            let k = spec_hex_to_rgba(hex);
            c == (k.r, k.g, k.b, k.a)
        }),
{
    if hex <= 0xFFFFFF {
        let r = ((hex >> 16) & 0xFF) as u8;
        let g = ((hex >> 8) & 0xFF) as u8;
        let b = (hex & 0xFF) as u8;
        (r, g, b, 255)
    } else {
        let r = ((hex >> 24) & 0xFF) as u8;
        let g = ((hex >> 16) & 0xFF) as u8;
        let b = ((hex >> 8) & 0xFF) as u8;
        let a = (hex & 0xFF) as u8;
        (r, g, b, a)
    }
}

/// Splits a hex colour word into `(a, r, g, b)` channel bytes.
pub fn hex_to_argb(hex: u32) -> (c: (u8, u8, u8, u8))
    ensures
        ({
            let k = spec_hex_to_argb(hex);
            c == (k.a, k.r, k.g, k.b)
        }),
{
    if hex <= 0xFFFFFF {
        let r = ((hex >> 16) & 0xFF) as u8;
        let g = ((hex >> 8) & 0xFF) as u8;
        let b = (hex & 0xFF) as u8;
        (255, r, g, b)
    } else {
        let a = ((hex >> 24) & 0xFF) as u8;
        let r = ((hex >> 16) & 0xFF) as u8;
        let g = ((hex >> 8) & 0xFF) as u8;
        let b = (hex & 0xFF) as u8;
        (a, r, g, b)
    }
}

/// The `#`-prefixed upper-case hex form of a colour, with the alpha byte
/// appended only when it is not fully opaque.
pub open spec fn spec_rgba_hex_chars(c: Rgba) -> Seq<char> {
    if c.a == 255 {
        seq!['#'] + spec_hex2(c.r) + spec_hex2(c.g) + spec_hex2(c.b)
    } else {
        seq!['#'] + spec_hex2(c.r) + spec_hex2(c.g) + spec_hex2(c.b) + spec_hex2(c.a)
    }
}

/// Formats `(r, g, b, a)` channel bytes as `#RRGGBB` or `#RRGGBBAA`.
pub fn rgba_to_hex_string(rgba: (u8, u8, u8, u8)) -> (s: String)
    ensures
        s@ == spec_rgba_hex_chars(
            Rgba { r: rgba.0, g: rgba.1, b: rgba.2, a: rgba.3 },
        ),
{
    let (r, g, b, a) = rgba;
    let mut v: Vec<char> = Vec::new();
    v.push('#');
    push_hex2(&mut v, r);
    push_hex2(&mut v, g);
    push_hex2(&mut v, b);
    if a != 255 {
        push_hex2(&mut v, a);
    }
    chars_to_string(&v)
}

/// The `#`-prefixed upper-case hex form of a colour in ARGB channel order,
/// with the alpha byte leading when it is not fully opaque.
pub open spec fn spec_argb_hex_chars(c: Rgba) -> Seq<char> {
    if c.a == 255 {
        seq!['#'] + spec_hex2(c.r) + spec_hex2(c.g) + spec_hex2(c.b)
    } else {
        seq!['#'] + spec_hex2(c.a) + spec_hex2(c.r) + spec_hex2(c.g) + spec_hex2(c.b)
    }
}

/// Formats `(a, r, g, b)` channel bytes as `#RRGGBB` or `#AARRGGBB`.
pub fn argb_to_hex_string(argb: (u8, u8, u8, u8)) -> (s: String)
    ensures
        s@ == spec_argb_hex_chars(
            Rgba { r: argb.1, g: argb.2, b: argb.3, a: argb.0 },
        ),
{
    let (a, r, g, b) = argb;
    let mut v: Vec<char> = Vec::new();
    v.push('#');
    if a != 255 {
        push_hex2(&mut v, a);
    }
    push_hex2(&mut v, r);
    push_hex2(&mut v, g);
    push_hex2(&mut v, b);
    chars_to_string(&v)
}

/// A byte as exactly two lower-case hex digits.
pub open spec fn spec_hex2_lower(b: u8) -> Seq<char> {
    seq![hex_digit_char_lower((b / 16) as nat), hex_digit_char_lower((b % 16) as nat)]
}

fn hex_lower_digit(d: u8) -> (c: char)
    requires
        d < 16,
    ensures
        c == hex_digit_char_lower(d as nat),
{
    if d < 10 {
        (48 + d) as char
    } else {
        (87 + d) as char
    }
}

/// Appends a byte as exactly two lower-case hex digits to `out`.
pub fn push_hex2_lower(out: &mut Vec<char>, b: u8)
    ensures
        final(out)@ == old(out)@ + spec_hex2_lower(b),
{
    let hi = hex_lower_digit(b / 16);
    let lo = hex_lower_digit(b % 16);
    out.push(hi);
    out.push(lo);
    assert(final(out)@ =~= old(out)@ + spec_hex2_lower(b));
}

/// The lower-case hex colour key the rich format groups markers under:
/// `rrggbb` for opaque colours, `aarrggbb` otherwise, with no prefix.
pub open spec fn spec_colour_key_chars(c: Rgba) -> Seq<char> {
    if c.a == 255 {
        spec_hex2_lower(c.r) + spec_hex2_lower(c.g) + spec_hex2_lower(c.b)
    } else {
        spec_hex2_lower(c.a) + spec_hex2_lower(c.r) + spec_hex2_lower(c.g) + spec_hex2_lower(c.b)
    }
}

/// Appends [`spec_colour_key_chars`] of a colour to `out`.
pub fn push_colour_key(out: &mut Vec<char>, c: Rgba)
    ensures
        final(out)@ == old(out)@ + spec_colour_key_chars(c),
{
    if c.a != 255 {
        push_hex2_lower(out, c.a);
    }
    push_hex2_lower(out, c.r);
    push_hex2_lower(out, c.g);
    push_hex2_lower(out, c.b);
    assert(final(out)@ =~= old(out)@ + spec_colour_key_chars(c));
}

} // verus!
