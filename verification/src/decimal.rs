//! Decimal numbers, read by `rust_decimal`.
use vstd::prelude::*;

verus! {

/// A decimal number: `mantissa / 10^scale`, with the text in which `rust_decimal` writes it.
pub struct ParsedDecimal {
    pub mantissa: i128,
    pub scale: u32,
    pub text: String,
}

/// The mathematical value of a decimal number.
pub struct ParsedDecimalView {
    pub mantissa: i128,
    pub scale: u32,
    pub text: Seq<char>,
}

impl View for ParsedDecimal {
    type V = ParsedDecimalView;

    open spec fn view(&self) -> ParsedDecimalView {
        ParsedDecimalView { mantissa: self.mantissa, scale: self.scale, text: self.text@ }
    }
}

/// The number that `Decimal::from_str` reads from a text, or nothing where it refuses the text.
pub uninterp spec fn decimal_of(text: Seq<char>) -> Option<ParsedDecimalView>;

/// The number that `Decimal::from_scientific` reads from a text, or nothing where it refuses the
/// text.
pub uninterp spec fn scientific_of(text: Seq<char>) -> Option<ParsedDecimalView>;

/// Outside function: `Decimal::from_str`. Whether the text is accepted and which number it
/// denotes depend on the text alone; nothing more is claimed.
#[verifier::external_body]
pub(crate) fn read(text: &str) -> (number: Option<ParsedDecimal>)
    ensures
        match number {
            Some(parsed) => decimal_of(text@) == Some(parsed@),
            None => decimal_of(text@) is None,
        },
{
    let parsed: rust_decimal::Decimal = text.parse().ok()?;
    Some(
        ParsedDecimal {
            mantissa: parsed.mantissa(),
            scale: parsed.scale(),
            text: parsed.to_string(),
        },
    )
}

/// Outside function: `Decimal::from_scientific`. Whether the text is accepted and which number it
/// denotes depend on the text alone; nothing more is claimed.
#[verifier::external_body]
pub(crate) fn read_scientific(text: &str) -> (number: Option<ParsedDecimal>)
    ensures
        match number {
            Some(parsed) => scientific_of(text@) == Some(parsed@),
            None => scientific_of(text@) is None,
        },
{
    let parsed = rust_decimal::Decimal::from_scientific(text).ok()?;
    Some(
        ParsedDecimal {
            mantissa: parsed.mantissa(),
            scale: parsed.scale(),
            text: parsed.to_string(),
        },
    )
}

} // verus!
