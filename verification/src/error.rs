//! The closed set of errors the engine surfaces: a color text that is not six
//! hexadecimal digits, a color reference naming an index outside the table, a
//! placeholder whose content matches no alternative, and an adjustment whose
//! percentage is not a 0..=255 decimal number.

use vstd::prelude::*;
use vstd::string::StringExecFns;
use crate::hex::{append_hex_digit, hex_upper};

verus! {

/// Mathematical form of a rendering error, with payloads as sequences and
/// integers; the view of `RenderError`.
pub enum ErrSpec {
    ColorFormat { text: Seq<char> },
    UnknownColorIndex { index: int },
    MalformedPlaceholder { fragment: Seq<char> },
    MalformedPercent { fragment: Seq<char> },
}

/// An error from parsing a color or rendering a template. Each variant
/// carries the offending text or index; the caller attaches file context.
#[derive(Debug, PartialEq, Eq)]
pub enum RenderError {
    /// A color text value is not exactly six hexadecimal digits.
    ColorFormat { text: String },
    /// A syntactically valid color reference names an index outside 0..=15.
    UnknownColorIndex { index: u8 },
    /// The content between `{{` and `}}` matches no grammar alternative.
    MalformedPlaceholder { fragment: String },
    /// An adjustment suffix's numeric portion is not a 0..=255 decimal number.
    MalformedPercent { fragment: String },
}

impl View for RenderError {
    type V = ErrSpec;

    open spec fn view(&self) -> ErrSpec {
        match self {
            RenderError::ColorFormat { text } => ErrSpec::ColorFormat { text: text@ },
            RenderError::UnknownColorIndex { index } => ErrSpec::UnknownColorIndex {
                index: *index as int,
            },
            RenderError::MalformedPlaceholder { fragment } => ErrSpec::MalformedPlaceholder {
                fragment: fragment@,
            },
            RenderError::MalformedPercent { fragment } => ErrSpec::MalformedPercent {
                fragment: fragment@,
            },
        }
    }
}

impl RenderError {
    /// The exact text `describe` returns for each variant.
    pub open spec fn describe_spec(&self) -> Seq<char> {
        match self {
            RenderError::ColorFormat { text } => "Invalid hex color \""@ + text@ + "\""@,
            RenderError::UnknownColorIndex { index } => "Color number must be between 00 and 0F, found "@
                + seq![hex_upper(*index as int / 16), hex_upper(*index as int % 16)],
            RenderError::MalformedPlaceholder { fragment } => "Malformed placeholder \"{{"@
                + fragment@ + "}}\""@,
            RenderError::MalformedPercent { fragment } => "Malformed percentage \""@ + fragment@
                + "\""@,
        }
    }

    /// A human-readable description of the error, quoting the offending
    /// text or naming the attempted index as two hexadecimal digits.
    pub fn describe(&self) -> (r: String)
        ensures
            r@ == self.describe_spec(),
    {
        let mut out = String::new();
        match self {
            RenderError::ColorFormat { text } => {
                out.append("Invalid hex color \"");
                out.append(text.as_str());
                out.append("\"");
                proof {
                    assert(out@ =~= self.describe_spec());
                }
            },
            RenderError::UnknownColorIndex { index } => {
                out.append("Color number must be between 00 and 0F, found ");
                append_hex_digit(&mut out, *index / 16);
                append_hex_digit(&mut out, *index % 16);
                proof {
                    assert(out@ =~= self.describe_spec());
                }
            },
            RenderError::MalformedPlaceholder { fragment } => {
                out.append("Malformed placeholder \"{{");
                out.append(fragment.as_str());
                out.append("}}\"");
                proof {
                    assert(out@ =~= self.describe_spec());
                }
            },
            RenderError::MalformedPercent { fragment } => {
                out.append("Malformed percentage \"");
                out.append(fragment.as_str());
                out.append("\"");
                proof {
                    assert(out@ =~= self.describe_spec());
                }
            },
        }
        out
    }
}

} // verus!
