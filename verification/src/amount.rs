//! The number type that prices, sizes and profits are kept in.

use crate::text;
use crate::text::{decimal_text, padded_text};
use vstd::prelude::*;
use vstd::string::*;

verus! {

/// Largest mantissa of a decimal number with a 96-bit mantissa.
pub const MAX_MANTISSA: i128 = 79228162514264337593543950335;

/// Largest number of decimal places of such a number.
pub const MAX_SCALE: u32 = 28;

/// Largest number of decimal places that amounts are written with.
pub const MAX_PLACES: u32 = 6;

/// `mantissa` fits in 96 bits beside its sign, and `scale` in its range.
pub open spec fn decimal_in_range(mantissa: int, scale: int) -> bool {
    &&& -MAX_MANTISSA <= mantissa <= MAX_MANTISSA
    &&& 0 <= scale <= MAX_SCALE
}

/// A number type for money and shares.
///
/// Every operation is a function of its operands, named by the `spec` function beside
/// it; nothing is said about rounding, so an exact type and a binary floating-point
/// type can both stand here. The names have default bodies, from which nothing can be
/// proved, so that a type the verifier does not see can implement the trait.
pub trait Amount: Copy {
    /// The amount that stands for `mantissa / 10^scale`.
    closed spec fn decimal(mantissa: int, scale: nat) -> Self {
        arbitrary()
    }

    closed spec fn sum(self, other: Self) -> Self {
        arbitrary()
    }

    closed spec fn difference(self, other: Self) -> Self {
        arbitrary()
    }

    closed spec fn product(self, other: Self) -> Self {
        arbitrary()
    }

    closed spec fn quotient(self, other: Self) -> Self {
        arbitrary()
    }

    closed spec fn smaller(self, other: Self) -> Self {
        arbitrary()
    }

    closed spec fn larger(self, other: Self) -> Self {
        arbitrary()
    }

    closed spec fn absolute(self) -> Self {
        arbitrary()
    }

    closed spec fn is_at_most(self, other: Self) -> bool {
        arbitrary()
    }

    closed spec fn is_below(self, other: Self) -> bool {
        arbitrary()
    }

    /// The amount written with `places` decimal places.
    closed spec fn fixed_text(self, places: nat) -> Seq<char> {
        arbitrary()
    }

    /// The amount written with as many decimal places as it takes.
    closed spec fn plain_text(self) -> Seq<char> {
        arbitrary()
    }

    /// The amount that stands for `mantissa / 10^scale`.
    fn from_decimal(mantissa: i128, scale: u32) -> (amount: Self)
        requires
            decimal_in_range(mantissa as int, scale as int),
        ensures
            amount == Self::decimal(mantissa as int, scale as nat),
    ;

    fn plus(self, other: Self) -> (amount: Self)
        ensures
            amount == self.sum(other),
    ;

    fn minus(self, other: Self) -> (amount: Self)
        ensures
            amount == self.difference(other),
    ;

    fn times(self, other: Self) -> (amount: Self)
        ensures
            amount == self.product(other),
    ;

    /// `self / other`, for an `other` above zero.
    fn over(self, other: Self) -> (amount: Self)
        requires
            Self::decimal(0, 0).is_below(other),
        ensures
            amount == self.quotient(other),
    ;

    fn least(self, other: Self) -> (amount: Self)
        ensures
            amount == self.smaller(other),
    ;

    fn greatest(self, other: Self) -> (amount: Self)
        ensures
            amount == self.larger(other),
    ;

    fn magnitude(self) -> (amount: Self)
        ensures
            amount == self.absolute(),
    ;

    fn at_most(self, other: Self) -> (answer: bool)
        ensures
            answer == self.is_at_most(other),
    ;

    fn below(self, other: Self) -> (answer: bool)
        ensures
            answer == self.is_below(other),
    ;

    /// The amount written with `places` decimal places.
    fn to_fixed(self, places: u32) -> (text: String)
        requires
            places <= MAX_PLACES,
        ensures
            text@ == self.fixed_text(places as nat),
    ;

    /// The amount written with as many decimal places as it takes.
    fn to_plain(self) -> (text: String)
        ensures
            text@ == self.plain_text(),
    ;
}

/// Exact fixed-point money: a count of millionths.
///
/// Sums and differences are exact; products and quotients are cut off toward zero at the
/// sixth place; every result is held to the range of `i64`.
#[derive(Clone, Copy, Debug, PartialEq, Eq, Structural)]
pub struct Micros {
    pub units: i64,
}

/// `10^n`.
pub open spec fn pow10(n: nat) -> int
    decreases n,
{
    if n == 0 {
        1
    } else {
        10 * pow10((n - 1) as nat)
    }
}

/// `n / d` with the fraction cut off, for a positive `d`.
pub open spec fn toward_zero(n: int, d: int) -> int {
    if n >= 0 {
        n / d
    } else {
        -((-n) / d)
    }
}

/// `n`, held to the range of `i64`.
pub open spec fn saturated(n: int) -> i64 {
    if n > i64::MAX {
        i64::MAX
    } else if n < i64::MIN {
        i64::MIN
    } else {
        n as i64
    }
}

/// `m / unit`, rounded to the nearest number; halfway between two, to the even one.
pub open spec fn to_nearest(m: nat, unit: nat) -> nat {
    let q = m / unit;
    let r = m % unit;
    if 2 * r > unit || (2 * r == unit && q % 2 == 1) {
        q + 1
    } else {
        q
    }
}

/// `n / 10^places`, written out.
pub open spec fn point_text(n: nat, places: nat) -> Seq<char> {
    let whole = text::decimal_digits((n as int / pow10(places)) as nat);
    if places == 0 {
        whole
    } else {
        whole.push('.') + text::padded_digits((n as int % pow10(places)) as nat, places)
    }
}

/// The distance of `units` from zero.
pub open spec fn size_of_units(units: int) -> nat {
    if units >= 0 {
        units as nat
    } else {
        (-units) as nat
    }
}

/// `units` millionths, written with `places` decimal places.
pub open spec fn micros_text(units: int, places: nat) -> Seq<char> {
    let rounded = to_nearest(size_of_units(units), pow10((6 - places) as nat) as nat);
    if units < 0 {
        seq!['-'] + point_text(rounded, places)
    } else {
        point_text(rounded, places)
    }
}

/// The fewest decimal places, `places` at most, that `m` millionths can be written with.
pub open spec fn places_needed(m: nat, places: nat) -> nat
    decreases places,
{
    if places > 0 && m as int % pow10((7 - places) as nat) == 0 {
        places_needed(m, (places - 1) as nat)
    } else {
        places
    }
}

pub proof fn lemma_pow10_positive(n: nat)
    ensures
        pow10(n) >= 1,
{
    lemma_pow10_monotone(0, n);
}

pub proof fn lemma_pow10_sum(m: nat, n: nat)
    ensures
        pow10(m + n) == pow10(m) * pow10(n),
    decreases n,
{
    if n > 0 {
        lemma_pow10_sum(m, (n - 1) as nat);
        let (left, right) = (pow10(m), pow10((n - 1) as nat));
        assert(10 * (left * right) == left * (10 * right)) by (nonlinear_arith);
    } else {
        assert(pow10(m) * 1 == pow10(m));
    }
}

proof fn lemma_pow10_bounds(n: nat)
    requires
        n <= 28,
    ensures
        1 <= pow10(n) <= 10_000_000_000_000_000_000_000_000_000,
{
    lemma_pow10_monotone(n, 28);
    lemma_pow10_monotone(0, n);
    assert(pow10(28) == 10_000_000_000_000_000_000_000_000_000) by {
        reveal_with_fuel(pow10, 29);
    }
}

proof fn lemma_pow10_monotone(m: nat, n: nat)
    requires
        m <= n,
    ensures
        1 <= pow10(m) <= pow10(n),
    decreases n,
{
    if m < n {
        lemma_pow10_monotone(m, (n - 1) as nat);
    } else if n > 0 {
        lemma_pow10_monotone((m - 1) as nat, (n - 1) as nat);
    }
}

fn power_of_ten(n: u32) -> (power: i128)
    requires
        n <= 28,
    ensures
        power == pow10(n as nat),
        1 <= power <= 10_000_000_000_000_000_000_000_000_000,
{
    proof {
        lemma_pow10_bounds(n as nat);
    }
    let mut power: i128 = 1;
    let mut i: u32 = 0;
    while i < n
        invariant
            i <= n <= 28,
            power == pow10(i as nat),
        decreases n - i,
    {
        proof {
            lemma_pow10_bounds((i + 1) as nat);
        }
        power = power * 10;
        i = i + 1;
    }
    power
}

fn saturate(n: i128) -> (units: i64)
    ensures
        units == saturated(n as int),
{
    if n > 9_223_372_036_854_775_807 {
        9_223_372_036_854_775_807
    } else if n < -9_223_372_036_854_775_808 {
        -9_223_372_036_854_775_808
    } else {
        n as i64
    }
}

fn divide_toward_zero(n: i128, d: i128) -> (q: i128)
    requires
        d > 0,
        n > i128::MIN,
    ensures
        q == toward_zero(n as int, d as int),
{
    if n >= 0 {
        n / d
    } else {
        let m: i128 = -n;
        proof {
            assert(0 <= (m as int) / (d as int) <= m) by (nonlinear_arith)
                requires
                    m > 0,
                    d > 0,
            ;
        }
        -(m / d)
    }
}

impl Amount for Micros {
    open spec fn decimal(mantissa: int, scale: nat) -> Self {
        Micros { units: saturated(toward_zero(mantissa * 1_000_000, pow10(scale))) }
    }

    open spec fn sum(self, other: Self) -> Self {
        Micros { units: saturated(self.units + other.units) }
    }

    open spec fn difference(self, other: Self) -> Self {
        Micros { units: saturated(self.units - other.units) }
    }

    open spec fn product(self, other: Self) -> Self {
        Micros { units: saturated(toward_zero(self.units * other.units, 1_000_000)) }
    }

    open spec fn quotient(self, other: Self) -> Self {
        Micros { units: saturated(toward_zero(self.units * 1_000_000, other.units as int)) }
    }

    open spec fn smaller(self, other: Self) -> Self {
        if self.units <= other.units {
            self
        } else {
            other
        }
    }

    open spec fn larger(self, other: Self) -> Self {
        if self.units >= other.units {
            self
        } else {
            other
        }
    }

    open spec fn absolute(self) -> Self {
        if self.units >= 0 {
            self
        } else {
            Micros { units: saturated(-self.units) }
        }
    }

    open spec fn is_at_most(self, other: Self) -> bool {
        self.units <= other.units
    }

    open spec fn is_below(self, other: Self) -> bool {
        self.units < other.units
    }

    open spec fn fixed_text(self, places: nat) -> Seq<char> {
        micros_text(self.units as int, places)
    }

    open spec fn plain_text(self) -> Seq<char> {
        micros_text(self.units as int, places_needed(size_of_units(self.units as int), 6))
    }

    fn from_decimal(mantissa: i128, scale: u32) -> (amount: Self) {
        let power: i128 = power_of_ten(scale);
        proof {
            lemma_pow10_bounds(scale as nat);
        }
        Micros { units: saturate(divide_toward_zero(mantissa * 1_000_000, power)) }
    }

    fn plus(self, other: Self) -> (amount: Self) {
        Micros { units: saturate(self.units as i128 + other.units as i128) }
    }

    fn minus(self, other: Self) -> (amount: Self) {
        Micros { units: saturate(self.units as i128 - other.units as i128) }
    }

    fn times(self, other: Self) -> (amount: Self) {
        proof {
            assert(-0x4000_0000_0000_0000_0000_0000_0000_0000 <= self.units * other.units
                <= 0x4000_0000_0000_0000_0000_0000_0000_0000) by (nonlinear_arith)
                requires
                    -0x8000_0000_0000_0000 <= self.units <= 0x7fff_ffff_ffff_ffff,
                    -0x8000_0000_0000_0000 <= other.units <= 0x7fff_ffff_ffff_ffff,
            ;
        }
        Micros {
            units: saturate(divide_toward_zero(self.units as i128 * other.units as i128, 1_000_000)),
        }
    }

    fn over(self, other: Self) -> (amount: Self) {
        proof {
            assert(Self::decimal(0, 0).units == 0) by {
                reveal_with_fuel(pow10, 1);
            }
        }
        Micros {
            units: saturate(divide_toward_zero(self.units as i128 * 1_000_000, other.units as i128)),
        }
    }

    fn least(self, other: Self) -> (amount: Self) {
        if self.units <= other.units {
            self
        } else {
            other
        }
    }

    fn greatest(self, other: Self) -> (amount: Self) {
        if self.units >= other.units {
            self
        } else {
            other
        }
    }

    fn magnitude(self) -> (amount: Self) {
        if self.units >= 0 {
            self
        } else {
            Micros { units: saturate(-(self.units as i128)) }
        }
    }

    fn at_most(self, other: Self) -> (answer: bool) {
        self.units <= other.units
    }

    fn below(self, other: Self) -> (answer: bool) {
        self.units < other.units
    }

    fn to_fixed(self, places: u32) -> (text: String) {
        let size: u128 = self.size();
        let unit: u128 = power_of_ten(6 - places) as u128;
        let scale: u128 = power_of_ten(places) as u128;
        proof {
            assert(size / unit <= size) by (nonlinear_arith)
                requires
                    unit >= 1,
            ;
            assert(size % unit < unit);
        }
        let mut rounded: u128 = size / unit;
        let rest: u128 = size % unit;
        if 2 * rest > unit || (2 * rest == unit && rounded % 2 == 1) {
            rounded = rounded + 1;
        }
        let mut text: String = String::new();
        if self.units < 0 {
            text.push('-');
        }
        text.append(decimal_text(rounded / scale).as_str());
        if places > 0 {
            text.push('.');
            text.append(padded_text(rounded % scale, places).as_str());
        }
        assert(text@ =~= self.fixed_text(places as nat));
        text
    }

    fn to_plain(self) -> (text: String) {
        let size: u128 = self.size();
        let mut places: u32 = 6;
        let ghost needed = places_needed(size as nat, 6);
        while places > 0 && size % (power_of_ten(7 - places) as u128) == 0
            invariant
                places <= 6,
                needed == places_needed(size as nat, places as nat),
            decreases places,
        {
            places = places - 1;
        }
        self.to_fixed(places)
    }
}

impl Micros {
    fn size(self) -> (size: u128)
        ensures
            size == size_of_units(self.units as int),
            size <= 0x8000_0000_0000_0000,
    {
        if self.units >= 0 {
            self.units as u128
        } else {
            (-(self.units as i128)) as u128
        }
    }
}

/// Rounding moves a number by half a unit at most.
pub proof fn rounding_is_close(m: nat, unit: nat)
    requires
        unit > 0,
    ensures
        2 * (to_nearest(m, unit) * unit - m) <= unit,
        2 * (m - to_nearest(m, unit) * unit) <= unit,
{
    vstd::arithmetic::div_mod::lemma_fundamental_div_mod(m as int, unit as int);
    assert(unit * (m / unit) == (m / unit) * unit) by (nonlinear_arith);
    assert((m / unit + 1) * unit == (m / unit) * unit + unit) by (nonlinear_arith);
}

/// Sums and differences of exact amounts are those of their numbers where they are in range,
/// and else the end of the range.
pub proof fn exact_sums(left: Micros, right: Micros)
    ensures
        i64::MIN <= left.units + right.units <= i64::MAX ==> left.sum(right).units == left.units
            + right.units,
        left.units + right.units > i64::MAX ==> left.sum(right).units == i64::MAX,
        left.units + right.units < i64::MIN ==> left.sum(right).units == i64::MIN,
        i64::MIN <= left.units - right.units <= i64::MAX ==> left.difference(right).units
            == left.units - right.units,
        left.units - right.units > i64::MAX ==> left.difference(right).units == i64::MAX,
        left.units - right.units < i64::MIN ==> left.difference(right).units == i64::MIN,
{
}

/// A product of exact amounts is the product of their numbers, cut off toward zero at the
/// sixth place.
pub proof fn products_are_cut_off(left: Micros, right: Micros)
    requires
        -9_223_372_036_854_775_807 * 1_000_000 <= left.units * right.units
            <= 9_223_372_036_854_775_807 * 1_000_000,
    ensures
        ({
            let (exact, cut) = (left.units * right.units, left.product(right).units * 1_000_000);
            &&& exact >= 0 ==> cut <= exact < cut + 1_000_000
            &&& exact <= 0 ==> cut - 1_000_000 < exact <= cut
        }),
{
}

/// A quotient of exact amounts, times the divisor, is the dividend, but for what is cut off
/// toward zero at the sixth place.
pub proof fn quotients_are_cut_off(left: Micros, right: Micros)
    requires
        right.units > 0,
        -9_223_372_036_854_775_807 * right.units <= left.units * 1_000_000
            <= 9_223_372_036_854_775_807 * right.units,
    ensures
        ({
            let (exact, back) = (
                left.units * 1_000_000,
                left.quotient(right).units * right.units,
            );
            &&& exact >= 0 ==> back <= exact < back + right.units
            &&& exact <= 0 ==> back - right.units < exact <= back
        }),
{
    let (n, d) = (left.units * 1_000_000, right.units as int);
    let size = if n >= 0 {
        n
    } else {
        -n
    };
    let q = size / d;
    vstd::arithmetic::div_mod::lemma_fundamental_div_mod(size, d);
    assert(d * q == q * d) by (nonlinear_arith);
    assert((-q) * d == -(q * d)) by (nonlinear_arith);
    assert(0 <= q <= 9_223_372_036_854_775_807) by (nonlinear_arith)
        requires
            0 <= size <= 9_223_372_036_854_775_807 * d,
            d > 0,
            size == q * d + size % d,
            0 <= size % d < d,
    ;
}

/// The amount of a decimal number that is not negative is that number, cut off at the sixth
/// place.
pub proof fn decimals_are_cut_off(mantissa: int, scale: nat)
    requires
        0 <= mantissa * 1_000_000 <= 9_223_372_036_854_775_807 * pow10(scale),
    ensures
        Micros::decimal(mantissa, scale).units * pow10(scale) <= mantissa * 1_000_000,
        mantissa * 1_000_000 < (Micros::decimal(mantissa, scale).units + 1) * pow10(scale),
{
    let (n, d) = (mantissa * 1_000_000, pow10(scale));
    lemma_pow10_positive(scale);
    let q = n / d;
    vstd::arithmetic::div_mod::lemma_fundamental_div_mod(n, d);
    assert(d * q == q * d) by (nonlinear_arith);
    assert((q + 1) * d == q * d + d) by (nonlinear_arith);
    assert(0 <= q <= 9_223_372_036_854_775_807) by (nonlinear_arith)
        requires
            0 <= n <= 9_223_372_036_854_775_807 * d,
            d >= 1,
            n == q * d + n % d,
            0 <= n % d < d,
    ;
}

/// Ten to the zeroth power is one, and each further power is ten times the one before.
pub proof fn powers_of_ten()
    ensures
        pow10(0) == 1,
        forall|n: nat| #[trigger] pow10(n + 1) == 10 * pow10(n),
{
}

/// Exact amounts compare as their numbers do.
pub proof fn exact_amounts_are_ordered(left: Micros, right: Micros)
    ensures
        left.is_at_most(right) <==> left.units <= right.units,
        left.is_below(right) <==> left.units < right.units,
        left.smaller(right).units <= left.units && left.smaller(right).units <= right.units,
        left.larger(right).units >= left.units && left.larger(right).units >= right.units,
        left.smaller(right) == left || left.smaller(right) == right,
        left.larger(right) == left || left.larger(right) == right,
        left.units >= 0 ==> left.absolute() == left,
        i64::MIN < left.units < 0 ==> left.absolute().units == -left.units,
{
}

/// An exact amount written with decimal places reads back: behind a minus where it is below
/// zero, it is the number of millionths rounded to those places, halfway to the even one.
pub proof fn fixed_texts_read_back(amount: Micros, places: nat)
    requires
        places <= 6,
    ensures
        ({
            let shown = amount.fixed_text(places);
            let body = if amount.units < 0 {
                shown.skip(1)
            } else {
                shown
            };
            let point = body.len() - places - 1;
            let number = if places == 0 {
                text::number_of(body)
            } else {
                text::number_of(body.take(point)) * pow10(places) + text::number_of(
                    body.skip(point + 1),
                )
            };
            let size = if amount.units < 0 {
                -amount.units
            } else {
                amount.units as int
            };
            let unit = pow10((6 - places) as nat);
            &&& amount.units < 0 ==> shown[0] == '-'
            &&& places > 0 ==> point > 0 && body[point] == '.'
            &&& 2 * (number * unit - size) <= unit
            &&& 2 * (size - number * unit) <= unit
            &&& 2 * (number * unit - size) == unit || 2 * (size - number * unit) == unit
                ==> number % 2 == 0
        }),
{
    let unit = pow10((6 - places) as nat);
    let scale = pow10(places);
    lemma_pow10_positive((6 - places) as nat);
    lemma_pow10_positive(places);
    let size = size_of_units(amount.units as int);
    let rounded = to_nearest(size, unit as nat);
    rounding_is_close(size, unit as nat);
    lemma_ties_are_even(size, unit as nat);
    let shown = amount.fixed_text(places);
    let body = if amount.units < 0 {
        shown.skip(1)
    } else {
        shown
    };
    assert(body =~= point_text(rounded, places));
    let (whole, part) = (rounded as int / scale, rounded as int % scale);
    assert(0 <= whole) by (nonlinear_arith)
        requires
            scale >= 1,
            whole == rounded as int / scale,
    ;
    vstd::arithmetic::div_mod::lemma_fundamental_div_mod(rounded as int, scale);
    assert(scale * whole == whole * scale) by (nonlinear_arith);
    text::decimal_digits_read_back(whole as nat);
    text::padded_digits_read_back(part as nat, places);
    if places == 0 {
        assert(scale == 1);
        assert(whole == rounded);
    } else {
        let point = body.len() - places - 1;
        assert(body.take(point) =~= text::decimal_digits(whole as nat));
        assert(body.skip(point + 1) =~= text::padded_digits(part as nat, places));
    }
}

proof fn lemma_ties_are_even(m: nat, unit: nat)
    requires
        unit > 0,
    ensures
        ({
            let rounded = to_nearest(m, unit) * unit;
            2 * (rounded - m) == unit || 2 * (m - rounded) == unit ==> to_nearest(m, unit) % 2 == 0
        }),
{
    vstd::arithmetic::div_mod::lemma_fundamental_div_mod(m as int, unit as int);
    assert(unit * (m / unit) == (m / unit) * unit) by (nonlinear_arith);
    assert((m / unit + 1) * unit == (m / unit) * unit + unit) by (nonlinear_arith);
}

proof fn lemma_places_needed(m: nat, places: nat)
    requires
        places <= 6,
        m as int % pow10((6 - places) as nat) == 0,
    ensures
        places_needed(m, places) <= places,
        m as int % pow10((6 - places_needed(m, places)) as nat) == 0,
        places_needed(m, places) > 0 ==> m as int % pow10((7 - places_needed(m, places)) as nat) != 0,
    decreases places,
{
    if places > 0 && m as int % pow10((7 - places) as nat) == 0 {
        lemma_places_needed(m, (places - 1) as nat);
    }
}

/// An exact amount written plainly has the fewest decimal places that show it in full: those
/// places leave nothing over, and one place fewer would.
pub proof fn plain_texts_are_short_and_exact(amount: Micros)
    ensures
        exists|places: nat|
            places <= 6 && #[trigger] amount.fixed_text(places) == amount.plain_text()
                && size_of_units(amount.units as int) as int % pow10((6 - places) as nat) == 0 && (
            places > 0 ==> size_of_units(amount.units as int) as int % pow10((7 - places) as nat)
                != 0),
{
    let size = size_of_units(amount.units as int);
    assert(size as int % pow10(0) == 0);
    lemma_places_needed(size, 6);
    let places = places_needed(size, 6);
    assert(amount.fixed_text(places) == amount.plain_text());
}

/// The distance from zero is the number without its sign.
pub proof fn sizes_have_no_sign(units: int)
    ensures
        units >= 0 ==> size_of_units(units) == units,
        units < 0 ==> size_of_units(units) == -units,
{
}

} // verus!
