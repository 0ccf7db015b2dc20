//! Exact decimal numbers, computed by `rust_decimal`.
use vstd::prelude::*;

verus! {

/// Largest magnitude of a mantissa: 96 bits.
pub const MAX_MANTISSA: i128 = 0xFFFF_FFFF_FFFF_FFFF_FFFF_FFFF;

/// Largest number of digits after the decimal point.
pub const MAX_SCALE: u32 = 28;

/// The exact decimal number `mantissa / 10^scale`.
#[derive(Clone, Copy, Debug, PartialEq, Eq, Structural)]
pub struct Dec {
    pub mantissa: i128,
    pub scale: u32,
}

impl Dec {
    /// The mantissa and scale lie in the range of a `rust_decimal::Decimal`.
    pub open spec fn wf(self) -> bool {
        -MAX_MANTISSA <= self.mantissa <= MAX_MANTISSA && self.scale <= MAX_SCALE
    }

    /// The whole number `n`.
    pub open spec fn whole(n: int) -> Dec {
        Dec { mantissa: n as i128, scale: 0 }
    }

    /// The whole number `n`, held exactly.
    pub fn from_u32(n: u32) -> (r: Dec)
        ensures
            r == Dec::whole(n as int),
            r.wf(),
    {
        Dec { mantissa: n as i128, scale: 0 }
    }
}

/// `text` is one to 28 ASCII digits.
pub open spec fn is_short_digits(text: Seq<char>) -> bool {
    1 <= text.len() <= 28 && forall|k: int| 0 <= k < text.len() ==> '0' <= #[trigger] text[k] <= '9'
}

/// The whole number that a string of ASCII digits writes.
pub open spec fn digits_value(text: Seq<char>) -> int
    decreases text.len(),
{
    if text.len() == 0 {
        0
    } else {
        10 * digits_value(text.drop_last()) + (text.last() as int - '0' as int)
    }
}

/// What `rust_decimal` reads from a decimal literal's digits.
pub uninterp spec fn decimal_of(text: Seq<char>) -> Option<Dec>;

/// What `rust_decimal`'s checked division gives for `a / b`.
pub uninterp spec fn quotient_of(a: Dec, b: Dec) -> Option<Dec>;

/// Relies on `<rust_decimal::Decimal as FromStr>::from_str`: the result
/// depends on the text alone, every `Decimal` has a 96-bit mantissa and a
/// scale of at most 28, and up to 28 plain digits read as that whole number.
#[verifier::external_body]
pub(crate) fn read_decimal(text: &str) -> (r: Option<Dec>)
    ensures
        r == decimal_of(text@),
        r matches Some(d) ==> d.wf(),
        is_short_digits(text@) ==> r == Some(
            Dec { mantissa: digits_value(text@) as i128, scale: 0 },
        ),
{
    text.parse::<rust_decimal::Decimal>().ok().map(
        |d| Dec { mantissa: d.mantissa(), scale: d.scale() },
    )
}

/// Relies on `rust_decimal::Decimal::checked_div` (with
/// `Decimal::from_i128_with_scale` to build its operands, which does not
/// panic on values in range): the result depends on the operands alone, and
/// every `Decimal` has a 96-bit mantissa and a scale of at most 28.
#[verifier::external_body]
pub(crate) fn divide(a: Dec, b: Dec) -> (r: Option<Dec>)
    requires
        a.wf(),
        b.wf(),
    ensures
        r == quotient_of(a, b),
        r matches Some(d) ==> d.wf(),
{
    let x = rust_decimal::Decimal::from_i128_with_scale(a.mantissa, a.scale);
    let y = rust_decimal::Decimal::from_i128_with_scale(b.mantissa, b.scale);
    x.checked_div(y).map(|d| Dec { mantissa: d.mantissa(), scale: d.scale() })
}

} // verus!
