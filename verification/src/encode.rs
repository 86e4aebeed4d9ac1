//! The encoding of one property assignment as an attribute.

use vstd::prelude::*;
use crate::error::TranspileError;
use crate::mxml::ElemAttribute;
use crate::syntax::Expr;
use crate::text::{
    numeral_value, parse_signed, same_text, spec_is_numeral, spec_upper_hex, upper_hex,
};
use crate::transpiler::MxmlTranspiler;

verus! {

/// Whether `name` is one of the internal properties that are never written.
pub open spec fn spec_is_blocked(name: Seq<char>) -> bool {
    ||| name == "_bindings"@
    ||| name == "_watchers"@
    ||| name == "_bindingsByDestination"@
    ||| name == "_bindingsBeginWithWord"@
    ||| name == "currentState"@
}

/// The text of a value: a string literal's value, a numeric literal's text
/// as written, `true` or `false`, `-` before the text of a negated operand,
/// and nothing for any other expression.
pub open spec fn spec_expr_to_string(expr: Expr) -> Seq<char>
    decreases expr,
{
    match expr {
        Expr::StringLiteral(value) => value@,
        Expr::NumericLiteral(text) => text@,
        Expr::BooleanLiteral(value) => if value {
            "true"@
        } else {
            "false"@
        },
        Expr::Negate(operand) => "-"@ + spec_expr_to_string(*operand),
        _ => Seq::empty(),
    }
}

/// The number whose hexadecimal digits stand for a color that is written
/// as `text`. `text` has to be a signed decimal numeral. From 0 up to the
/// largest number of 64 bits it stands for itself; from -1 down to the
/// smallest signed number of 32 bits it stands for the 32 bits of its two's
/// complement. Any other text stands for no color.
pub open spec fn spec_color_bits(text: Seq<char>) -> Option<u64> {
    let value = numeral_value(text);
    if !spec_is_numeral(text) {
        None
    } else if 0 <= value <= u64::MAX {
        Some(value as u64)
    } else if i32::MIN <= value < 0 {
        Some((value + 0x1_0000_0000) as u64)
    } else {
        None
    }
}

/// A color as it is written: `0x` and the upper-case hexadecimal digits of
/// its number.
pub open spec fn spec_color_text(bits: u64) -> Seq<char> {
    "0x"@ + spec_upper_hex(bits as nat)
}

/// The attribute that the assignment of `value` to the property `name`
/// becomes: none for a blocked name; `width` or `height` with a percent sign
/// for the two percent properties; the hexadecimal form for `color`, which
/// fails where the text stands for no color; else the name and the text
/// unchanged.
pub open spec fn spec_parse_attr(name: Seq<char>, value: Expr) -> Result<
    Option<(Seq<char>, Seq<char>)>,
    TranspileError,
> {
    let text = spec_expr_to_string(value);
    if spec_is_blocked(name) {
        Ok(None)
    } else if name == "percentWidth"@ {
        Ok(Some(("width"@, text + "%"@)))
    } else if name == "percentHeight"@ {
        Ok(Some(("height"@, text + "%"@)))
    } else if name == "color"@ {
        match spec_color_bits(text) {
            Some(color) => Ok(Some((name, spec_color_text(color)))),
            None => Err(TranspileError::InvalidColor),
        }
    } else {
        Ok(Some((name, text)))
    }
}

/// An attribute result, with the attribute as a pair of name and value.
pub open spec fn attribute_result(r: Result<Option<ElemAttribute>, TranspileError>) -> Result<
    Option<(Seq<char>, Seq<char>)>,
    TranspileError,
> {
    match r {
        Ok(Some(attribute)) => Ok(Some(attribute@)),
        Ok(None) => Ok(None),
        Err(e) => Err(e),
    }
}

/// Whether `name` is one of the internal properties that are never written.
pub fn is_blocked(name: &str) -> (r: bool)
    ensures
        r == spec_is_blocked(name@),
{
    same_text(name, "_bindings") || same_text(name, "_watchers") || same_text(
        name,
        "_bindingsByDestination",
    ) || same_text(name, "_bindingsBeginWithWord") || same_text(name, "currentState")
}

/// The number whose hexadecimal digits stand for the color written as
/// `text`, if `text` stands for a color.
pub fn color_bits(text: &str) -> (r: Option<u64>)
    ensures
        r == spec_color_bits(text@),
{
    match parse_signed(text) {
        None => None,
        Some((negative, size)) => if !negative || size == 0 {
            Some(size)
        } else if size <= 0x8000_0000 {
            Some(0x1_0000_0000 - size)
        } else {
            None
        },
    }
}

/// Writes a color as `0x` and the upper-case hexadecimal digits of its number.
pub fn color_text(bits: u64) -> (r: String)
    ensures
        r@ == spec_color_text(bits),
{
    let mut out = String::from_str("0x");
    let digits = upper_hex(bits);
    out.append(digits.as_str());
    out
}

impl<'a> MxmlTranspiler<'a> {
    /// The text of a value expression.
    pub fn expr_to_string(expr: &Expr) -> (r: String)
        ensures
            r@ == spec_expr_to_string(*expr),
        decreases *expr,
    {
        match expr {
            Expr::StringLiteral(value) => value.clone(),
            Expr::NumericLiteral(text) => text.clone(),
            Expr::BooleanLiteral(value) => if *value {
                String::from_str("true")
            } else {
                String::from_str("false")
            },
            Expr::Negate(operand) => {
                let mut out = String::from_str("-");
                let rest = Self::expr_to_string(operand);
                out.append(rest.as_str());
                out
            },
            _ => String::new(),
        }
    }

    /// Encodes the assignment of `val_expr` to the property `name` as an
    /// attribute.
    pub fn parse_attr(name: String, val_expr: &Expr) -> (r: Result<
        Option<ElemAttribute>,
        TranspileError,
    >)
        ensures
            attribute_result(r) == spec_parse_attr(name@, *val_expr),
    {
        if is_blocked(name.as_str()) {
            return Ok(None);
        }
        let mut value = Self::expr_to_string(val_expr);
        if same_text(name.as_str(), "percentWidth") {
            value.append("%");
            Ok(Some(ElemAttribute(String::from_str("width"), value)))
        } else if same_text(name.as_str(), "percentHeight") {
            value.append("%");
            Ok(Some(ElemAttribute(String::from_str("height"), value)))
        } else if same_text(name.as_str(), "color") {
            match color_bits(value.as_str()) {
                Some(color) => Ok(Some(ElemAttribute(name, color_text(color)))),
                None => Err(TranspileError::InvalidColor),
            }
        } else {
            Ok(Some(ElemAttribute(name, value)))
        }
    }
}

} // verus!
