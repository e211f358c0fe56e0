//! Exact decimal numbers, held as a signed mantissa and a base-10 scale.

use std::cmp::Ordering;
use vstd::prelude::*;

verus! {

/// The largest scale (digits after the point) a decimal may carry.
pub const MAX_SCALE: u32 = 28;

/// The largest magnitude of a mantissa: 2^96 - 1.
pub const MAX_MANTISSA: i128 = 79228162514264337593543950335;

/// `10` raised to `n`.
pub open spec fn pow10(n: nat) -> int
    decreases n,
{
    if n == 0 {
        1
    } else {
        10 * pow10((n - 1) as nat)
    }
}

/// The decimal number `mantissa / 10^scale`.
#[derive(Clone, Copy, Debug, PartialEq, Eq, Structural)]
pub struct Dec {
    pub(crate) mantissa: i128,
    pub(crate) scale: u32,
}

impl Dec {
    #[verifier::type_invariant]
    pub(crate) closed spec fn inv(self) -> bool {
        &&& self.scale <= MAX_SCALE
        &&& -MAX_MANTISSA <= self.mantissa <= MAX_MANTISSA
    }

    pub closed spec fn mantissa_spec(self) -> int {
        self.mantissa as int
    }

    pub closed spec fn scale_spec(self) -> nat {
        self.scale as nat
    }

    /// The number scaled to the finest scale, an exact integer: two decimals
    /// are numerically equal exactly when their values are equal.
    pub open spec fn value(self) -> int {
        self.mantissa_spec() * pow10((MAX_SCALE - self.scale_spec()) as nat)
    }

    pub open spec fn spec_is_zero(&self) -> bool {
        self.mantissa_spec() == 0
    }

    /// The decimal `mantissa / 10^scale`, when it can be represented.
    pub fn new(mantissa: i128, scale: u32) -> (r: Option<Dec>)
        ensures
            r is Some <==> (scale <= MAX_SCALE && -MAX_MANTISSA <= mantissa <= MAX_MANTISSA),
            r matches Some(d) ==> d.mantissa_spec() == mantissa && d.scale_spec() == scale,
    {
        if scale <= MAX_SCALE && -MAX_MANTISSA <= mantissa && mantissa <= MAX_MANTISSA {
            Some(Dec { mantissa, scale })
        } else {
            None
        }
    }

    pub fn mantissa(&self) -> (r: i128)
        ensures
            r == self.mantissa_spec(),
    {
        self.mantissa
    }

    pub fn scale(&self) -> (r: u32)
        ensures
            r == self.scale_spec(),
    {
        self.scale
    }

    #[verifier::when_used_as_spec(spec_is_zero)]
    pub fn is_zero(&self) -> (r: bool)
        ensures
            r == self.spec_is_zero(),
    {
        self.mantissa == 0
    }
}

/// Relies on `Ord for rust_decimal::Decimal`, which orders decimals by their
/// numeric value whatever their scales. The operands are built with
/// `Decimal::from_i128_with_scale`, which panics only outside the range that
/// `inv` admits.
#[verifier::external_body]
pub(crate) fn compare(a: &Dec, b: &Dec) -> (r: Ordering)
    requires
        a.inv(),
        b.inv(),
    ensures
        (r == Ordering::Less) == (a.value() < b.value()),
        (r == Ordering::Equal) == (a.value() == b.value()),
        (r == Ordering::Greater) == (a.value() > b.value()),
{
    let x = rust_decimal::Decimal::from_i128_with_scale(a.mantissa, a.scale);
    let y = rust_decimal::Decimal::from_i128_with_scale(b.mantissa, b.scale);
    x.cmp(&y)
}

/// The text that rust_decimal writes for the decimal `mantissa / 10^scale`:
/// the digits of the mantissa, with a point before the last `scale` of them.
pub uninterp spec fn decimal_text(mantissa: int, scale: int) -> Seq<char>;

/// Relies on `Display for rust_decimal::Decimal`, which writes the same text
/// as its `serde::Serialize` impl; it depends on the mantissa and scale alone.
/// The decimal is built with `Decimal::from_i128_with_scale`, which panics
/// only outside the range that `inv` admits.
#[verifier::external_body]
pub(crate) fn text_of(d: &Dec) -> (r: String)
    requires
        d.inv(),
    ensures
        r@ == decimal_text(d.mantissa_spec(), d.scale_spec() as int),
{
    rust_decimal::Decimal::from_i128_with_scale(d.mantissa, d.scale).to_string()
}

} // verus!
