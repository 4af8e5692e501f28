//! An RGB color: three 8-bit channels, parsed from and formatted as six
//! hexadecimal digits, with percentage-based lightening and darkening.

use vstd::prelude::*;
use vstd::arithmetic::div_mod::{lemma_div_is_ordered, lemma_div_multiples_vanish};
use vstd::arithmetic::mul::{lemma_mul_inequality, lemma_mul_upper_bound};
use vstd::string::StrSliceExecFns;
use crate::error::{ErrSpec, RenderError};
use crate::hex::{
    append_hex_digit, hex_digit_val, hex_upper, hex_val, is_hex_digit, lemma_hex_digit_roundtrip,
    upper_hex_digit,
};

verus! {

/// An immutable RGB triple. Equality is structural.
#[derive(Debug, PartialEq, Eq, Structural, Clone, Copy)]
pub struct Color {
    pub red: u8,
    pub green: u8,
    pub blue: u8,
}

/// A sequence of exactly six hexadecimal digit characters: the only texts
/// `Color::parse` accepts.
pub open spec fn valid_hex6(s: Seq<char>) -> bool {
    s.len() == 6 && (forall|i: int| 0 <= i < 6 ==> is_hex_digit(#[trigger] s[i]))
}

/// The color six hexadecimal digits denote, two digits per channel.
pub open spec fn parse_spec(s: Seq<char>) -> Color {
    Color {
        red: (16 * hex_val(s[0]) + hex_val(s[1])) as u8,
        green: (16 * hex_val(s[2]) + hex_val(s[3])) as u8,
        blue: (16 * hex_val(s[4]) + hex_val(s[5])) as u8,
    }
}

/// The six-character uppercase hexadecimal form of a color, zero-padded per
/// channel.
pub open spec fn format_spec(c: Color) -> Seq<char> {
    seq![
        hex_upper(c.red as int / 16),
        hex_upper(c.red as int % 16),
        hex_upper(c.green as int / 16),
        hex_upper(c.green as int % 16),
        hex_upper(c.blue as int / 16),
        hex_upper(c.blue as int % 16),
    ]
}

/// One channel scaled by `(100 + p) / 100` and clamped to 0..=255, the
/// quotient truncated.
pub open spec fn lighten_chan(v: u8, p: int) -> u8 {
    let scaled = v as int * (100 + p) / 100;
    if scaled < 0 {
        0u8
    } else if scaled > 255 {
        255u8
    } else {
        scaled as u8
    }
}

/// One channel scaled by `(100 - p) / 100` and clamped to 0..=255, the
/// quotient truncated; any `p` above 100 zeroes the channel.
pub open spec fn darken_chan(v: u8, p: int) -> u8 {
    let scaled = v as int * (100 - p) / 100;
    if scaled < 0 {
        0u8
    } else if scaled > 255 {
        255u8
    } else {
        scaled as u8
    }
}

/// Every channel of `c` lightened by `p` percent.
pub open spec fn lighten_spec(c: Color, p: int) -> Color {
    Color {
        red: lighten_chan(c.red, p),
        green: lighten_chan(c.green, p),
        blue: lighten_chan(c.blue, p),
    }
}

/// Every channel of `c` darkened by `p` percent.
pub open spec fn darken_spec(c: Color, p: int) -> Color {
    Color {
        red: darken_chan(c.red, p),
        green: darken_chan(c.green, p),
        blue: darken_chan(c.blue, p),
    }
}

impl Color {
    /// Parses exactly six hexadecimal digits, either letter case, into a
    /// color; any other text is rejected with the offending text named.
    pub fn parse(text: &str) -> (r: Result<Color, RenderError>)
        ensures
            valid_hex6(text@) ==> (r matches Ok(c) && c == parse_spec(text@)),
            !valid_hex6(text@) ==> (r matches Err(e) && e@ == (ErrSpec::ColorFormat {
                text: text@,
            })),
    {
        let n = text.unicode_len();
        if n != 6 {
            return Err(RenderError::ColorFormat { text: text.to_owned() });
        }
        let d0 = hex_digit_val(text.get_char(0));
        let d1 = hex_digit_val(text.get_char(1));
        let d2 = hex_digit_val(text.get_char(2));
        let d3 = hex_digit_val(text.get_char(3));
        let d4 = hex_digit_val(text.get_char(4));
        let d5 = hex_digit_val(text.get_char(5));
        if d0 < 16 && d1 < 16 && d2 < 16 && d3 < 16 && d4 < 16 && d5 < 16 {
            Ok(Color { red: 16 * d0 + d1, green: 16 * d2 + d3, blue: 16 * d4 + d5 })
        } else {
            Err(RenderError::ColorFormat { text: text.to_owned() })
        }
    }

    /// Formats the color as six uppercase hexadecimal digits.
    pub fn format(&self) -> (r: String)
        ensures
            r@ == format_spec(*self),
    {
        let mut out = String::new();
        append_hex_digit(&mut out, self.red / 16);
        append_hex_digit(&mut out, self.red % 16);
        append_hex_digit(&mut out, self.green / 16);
        append_hex_digit(&mut out, self.green % 16);
        append_hex_digit(&mut out, self.blue / 16);
        append_hex_digit(&mut out, self.blue % 16);
        proof {
            assert(out@ =~= format_spec(*self));
        }
        out
    }

    /// Lightens every channel by the given percentage: values above 100 are
    /// legal and saturate channels faster.
    pub fn lighten(self, percentage: u8) -> (r: Color)
        ensures
            r == lighten_spec(self, percentage as int),
    {
        Color {
            red: scale_up(self.red, percentage),
            green: scale_up(self.green, percentage),
            blue: scale_up(self.blue, percentage),
        }
    }

    /// Darkens every channel by the given percentage: any percentage of 100
    /// or more zeroes the channel.
    pub fn darken(self, percentage: u8) -> (r: Color)
        ensures
            r == darken_spec(self, percentage as int),
    {
        Color {
            red: scale_down(self.red, percentage),
            green: scale_down(self.green, percentage),
            blue: scale_down(self.blue, percentage),
        }
    }
}

fn scale_up(v: u8, p: u8) -> (r: u8)
    ensures
        r == lighten_chan(v, p as int),
{
    proof {
        lemma_mul_upper_bound(v as int, 255, 100 + p as int, 355);
    }
    let scaled: u32 = v as u32 * (100 + p as u32) / 100;
    if scaled > 255 {
        255
    } else {
        scaled as u8
    }
}

fn scale_down(v: u8, p: u8) -> (r: u8)
    ensures
        r == darken_chan(v, p as int),
{
    if p >= 100 {
        proof {
            lemma_mul_inequality(100 - p as int, 0, v as int);
            lemma_div_is_ordered(v as int * (100 - p as int), 0, 100);
        }
        0
    } else {
        proof {
            lemma_mul_upper_bound(v as int, 255, 100 - p as int, 100);
        }
        let scaled: u32 = v as u32 * (100 - p as u32) / 100;
        proof {
            lemma_div_is_ordered(v as int * (100 - p as int), 25500, 100);
        }
        scaled as u8
    }
}

/// Parsing six hexadecimal digits and formatting the resulting color yields
/// the same six digits with any lowercase letters uppercased.
pub proof fn lemma_parse_format_roundtrip(s: Seq<char>)
    requires
        valid_hex6(s),
    ensures
        format_spec(parse_spec(s)) == s.map_values(|c: char| upper_hex_digit(c)),
{
    let c = parse_spec(s);
    assert forall|i: int| 0 <= i < 6 implies hex_val(#[trigger] s[i]) < 16 by {
        assert(is_hex_digit(s[i]));
    }
    lemma_two_digit_split(hex_val(s[0]), hex_val(s[1]));
    lemma_two_digit_split(hex_val(s[2]), hex_val(s[3]));
    lemma_two_digit_split(hex_val(s[4]), hex_val(s[5]));
    lemma_hex_digit_roundtrip(s[0]);
    lemma_hex_digit_roundtrip(s[1]);
    lemma_hex_digit_roundtrip(s[2]);
    lemma_hex_digit_roundtrip(s[3]);
    lemma_hex_digit_roundtrip(s[4]);
    lemma_hex_digit_roundtrip(s[5]);
    assert(format_spec(c) =~= s.map_values(|ch: char| upper_hex_digit(ch)));
}

/// A two-digit value splits back into its digits: quotient and remainder by
/// 16 recover `a` and `b`.
proof fn lemma_two_digit_split(a: int, b: int)
    requires
        0 <= a < 16,
        0 <= b < 16,
    ensures
        (16 * a + b) / 16 == a,
        (16 * a + b) % 16 == b,
{
    lemma_div_multiples_vanish(a, 16);
    assert((16 * a + b) / 16 == a && (16 * a + b) % 16 == b) by (nonlinear_arith)
        requires
            0 <= a < 16,
            0 <= b < 16,
    ;
}

/// Lightening or darkening by zero percent leaves a color unchanged.
pub proof fn lemma_adjust_identity(c: Color)
    ensures
        lighten_spec(c, 0) == c,
        darken_spec(c, 0) == c,
{
    lemma_scale_identity(c.red);
    lemma_scale_identity(c.green);
    lemma_scale_identity(c.blue);
}

proof fn lemma_scale_identity(v: u8)
    ensures
        lighten_chan(v, 0) == v,
        darken_chan(v, 0) == v,
{
    lemma_div_multiples_vanish(v as int, 100);
    assert(v as int * 100 == 100 * v as int) by (nonlinear_arith);
}

/// Lightening never decreases a channel and never exceeds 255; darkening
/// never increases a channel and never goes below zero.
pub proof fn lemma_adjust_bounds(v: u8, p: int)
    requires
        0 <= p,
    ensures
        v <= lighten_chan(v, p),
        lighten_chan(v, p) <= 255,
        0 <= darken_chan(v, p),
        darken_chan(v, p) <= v,
{
    lemma_div_multiples_vanish(v as int, 100);
    assert(v as int * 100 == 100 * v as int) by (nonlinear_arith);
    lemma_mul_inequality(100, 100 + p, v as int);
    assert(v as int * (100 + p) == (100 + p) * v as int) by (nonlinear_arith);
    lemma_div_is_ordered(100 * v as int, v as int * (100 + p), 100);
    lemma_mul_inequality(100 - p, 100, v as int);
    assert(v as int * (100 - p) == (100 - p) * v as int) by (nonlinear_arith);
    lemma_div_is_ordered(v as int * (100 - p), 100 * v as int, 100);
}

} // verus!
