//! Decimal numbers as the exchange quotes them.

use crate::amount;
use crate::amount::{Amount, MAX_MANTISSA, MAX_SCALE};
use rust_decimal::Decimal;
use vstd::prelude::*;

verus! {

/// A decimal number, `mantissa / 10^scale`.
#[derive(Clone, Copy, Debug, PartialEq, Eq, Structural)]
pub struct DecimalValue {
    pub mantissa: i128,
    pub scale: u32,
}

impl DecimalValue {
    /// The mantissa fits in 96 bits and the scale is at most 28.
    pub open spec fn wf(self) -> bool {
        amount::decimal_in_range(self.mantissa as int, self.scale as int)
    }

    /// The amount that this number stands for.
    pub open spec fn amount<A: Amount>(self) -> A {
        A::decimal(self.mantissa as int, self.scale as nat)
    }

    /// The amount that this number stands for.
    pub fn to_amount<A: Amount>(&self) -> (amount: A)
        requires
            self.wf(),
        ensures
            amount == self.amount::<A>(),
    {
        A::from_decimal(self.mantissa, self.scale)
    }
}

/// The larger of two scales.
pub open spec fn common_scale(left: DecimalValue, right: DecimalValue) -> nat {
    if left.scale >= right.scale {
        left.scale as nat
    } else {
        right.scale as nat
    }
}

/// The mantissa that `number` has at a scale that is not below its own.
pub open spec fn mantissa_at(number: DecimalValue, scale: nat) -> int {
    number.mantissa * amount::pow10((scale - number.scale) as nat)
}

/// The mantissa of the sum of two numbers at the larger of their scales.
pub open spec fn aligned_sum(left: DecimalValue, right: DecimalValue) -> int {
    mantissa_at(left, common_scale(left, right)) + mantissa_at(right, common_scale(left, right))
}

/// Both numbers and their sum can be written down at the larger of the two scales, or one of
/// the numbers is zero.
pub open spec fn sum_fits(left: DecimalValue, right: DecimalValue) -> bool {
    let scale = common_scale(left, right);
    ||| left.mantissa == 0
    ||| right.mantissa == 0
    ||| {
        &&& -MAX_MANTISSA <= mantissa_at(left, scale) <= MAX_MANTISSA
        &&& -MAX_MANTISSA <= mantissa_at(right, scale) <= MAX_MANTISSA
        &&& -MAX_MANTISSA <= aligned_sum(left, right) <= MAX_MANTISSA
    }
}

/// Mantissa and scale of the exact sum: the other number where one of them is zero, else the
/// sum at the larger of the two scales.
pub open spec fn exact_sum(left: DecimalValue, right: DecimalValue) -> (int, nat) {
    if left.mantissa == 0 {
        (right.mantissa as int, right.scale as nat)
    } else if right.mantissa == 0 {
        (left.mantissa as int, left.scale as nat)
    } else {
        (aligned_sum(left, right), common_scale(left, right))
    }
}

/// Half of `mantissa / 10^scale` can be written down: the mantissa is even, or there is room
/// for one more digit.
pub open spec fn half_fits(mantissa: int, scale: nat) -> bool {
    mantissa % 2 == 0 || (scale < MAX_SCALE && -MAX_MANTISSA <= 5 * mantissa <= MAX_MANTISSA)
}

/// Mantissa and scale of the sum that `Decimal::checked_add` gives for two numbers written
/// as mantissa and scale, or `None` where the sum is out of range.
pub uninterp spec fn decimal_sum(
    left_mantissa: int,
    left_scale: int,
    right_mantissa: int,
    right_scale: int,
) -> Option<(int, int)>;

/// Mantissa and scale of the quotient that `Decimal`'s `/` gives for a number written as
/// mantissa and scale, and an integer.
pub uninterp spec fn decimal_quotient(mantissa: int, scale: int, divisor: int) -> (int, int);

/// Calls `rust_decimal::Decimal::checked_add`. The sum depends on the two numbers alone and
/// is `None` where it is out of range. It is exact, at the larger of the two scales, where
/// both numbers and their sum fit there; where one number is zero, it is the other.
#[verifier::external_body]
pub(crate) fn checked_sum(left: DecimalValue, right: DecimalValue) -> (sum: Option<DecimalValue>)
    requires
        left.wf(),
        right.wf(),
    ensures
        match decimal_sum(
            left.mantissa as int,
            left.scale as int,
            right.mantissa as int,
            right.scale as int,
        ) {
            Some(parts) => sum is Some && sum->0.mantissa == parts.0 && sum->0.scale == parts.1,
            None => sum is None,
        },
        sum is Some ==> sum->0.wf(),
        sum_fits(left, right) ==> sum is Some && (sum->0.mantissa as int, sum->0.scale as nat)
            == exact_sum(left, right),
{
    let l = Decimal::from_i128_with_scale(left.mantissa, left.scale);
    let r = Decimal::from_i128_with_scale(right.mantissa, right.scale);
    match l.checked_add(r) {
        Some(d) => Some(DecimalValue { mantissa: d.mantissa(), scale: d.scale() }),
        None => None,
    }
}

/// Calls `rust_decimal::Decimal`'s division, by an integer above zero, which never overflows.
/// The quotient depends on the two numbers alone. Zero gives zero; a mantissa that the divisor
/// divides is divided at its scale; and a half is exact where there is room for one more
/// digit.
#[verifier::external_body]
pub(crate) fn divided(number: DecimalValue, divisor: u32) -> (quotient: DecimalValue)
    requires
        number.wf(),
        divisor > 0,
    ensures
        (quotient.mantissa as int, quotient.scale as int) == decimal_quotient(
            number.mantissa as int,
            number.scale as int,
            divisor as int,
        ),
        quotient.wf(),
        number.mantissa == 0 ==> quotient.mantissa == 0,
        number.mantissa != 0 && (number.mantissa as int) % (divisor as int) == 0
            ==> quotient.mantissa * divisor == number.mantissa && quotient.scale == number.scale,
        divisor == 2 && number.scale < MAX_SCALE && -MAX_MANTISSA <= 5 * number.mantissa
            <= MAX_MANTISSA ==> quotient.mantissa * 2 * amount::pow10(number.scale as nat)
            == number.mantissa * amount::pow10(quotient.scale as nat),
{
    let d = Decimal::from_i128_with_scale(number.mantissa, number.scale) / Decimal::from(divisor);
    DecimalValue { mantissa: d.mantissa(), scale: d.scale() }
}

} // verus!
