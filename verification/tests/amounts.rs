use updown_trader::amount::{Amount, Micros};
use updown_trader::decimal::DecimalValue;

/// Binary floating-point amounts.
#[derive(Clone, Copy, Debug, PartialEq)]
struct Float(f64);

impl Amount for Float {
    fn from_decimal(mantissa: i128, scale: u32) -> Self {
        Float(format!("{}e-{}", mantissa, scale).parse().unwrap())
    }
    fn plus(self, other: Self) -> Self {
        Float(self.0 + other.0)
    }
    fn minus(self, other: Self) -> Self {
        Float(self.0 - other.0)
    }
    fn times(self, other: Self) -> Self {
        Float(self.0 * other.0)
    }
    fn over(self, other: Self) -> Self {
        Float(self.0 / other.0)
    }
    fn least(self, other: Self) -> Self {
        Float(self.0.min(other.0))
    }
    fn greatest(self, other: Self) -> Self {
        Float(self.0.max(other.0))
    }
    fn magnitude(self) -> Self {
        Float(self.0.abs())
    }
    fn at_most(self, other: Self) -> bool {
        self.0 <= other.0
    }
    fn below(self, other: Self) -> bool {
        self.0 < other.0
    }
    fn to_fixed(self, places: u32) -> String {
        format!("{:.*}", places as usize, self.0)
    }
    fn to_plain(self) -> String {
        format!("{}", self.0)
    }
}

fn micros(units: i64) -> Micros {
    Micros { units }
}

#[test]
fn decimals_become_amounts() {
    assert_eq!(Float::from_decimal(1, 4), Float(0.0001));
    assert_eq!(Float::from_decimal(-2, 2), Float(-0.02));
    assert_eq!(Micros::from_decimal(1, 4), micros(100));
    assert_eq!(Micros::from_decimal(-2, 2), micros(-20_000));
    assert_eq!(Micros::from_decimal(30, 0), micros(30_000_000));
}

#[test]
fn decimals_beyond_the_sixth_place_are_cut_off() {
    assert_eq!(Micros::from_decimal(12345678, 7), micros(1_234_567));
    assert_eq!(Micros::from_decimal(-12345678, 7), micros(-1_234_567));
    assert_eq!(Micros::from_decimal(1, 28), micros(0));
}

#[test]
fn exact_amounts_stay_in_range() {
    let most = 79228162514264337593543950335;
    assert_eq!(Micros::from_decimal(most, 0), micros(i64::MAX));
    assert_eq!(Micros::from_decimal(-most, 0), micros(i64::MIN));
    assert_eq!(micros(i64::MAX).plus(micros(1)), micros(i64::MAX));
    assert_eq!(micros(i64::MIN).minus(micros(1)), micros(i64::MIN));
    assert_eq!(micros(i64::MIN).magnitude(), micros(i64::MAX));
    assert_eq!(micros(i64::MIN).times(micros(i64::MIN)), micros(i64::MAX));
}

#[test]
fn exact_arithmetic() {
    assert_eq!(micros(520_000).times(micros(30_000_000)), micros(15_600_000));
    assert_eq!(micros(15_600_000).over(micros(30_000_000)), micros(520_000));
    assert_eq!(micros(1).times(micros(-1)), micros(0));
    assert_eq!(micros(-7_000_000).over(micros(2_000_000)), micros(-3_500_000));
    assert_eq!(micros(-1).over(micros(3_000_000)), micros(0));
    assert_eq!(micros(5).least(micros(3)), micros(3));
    assert_eq!(micros(5).greatest(micros(3)), micros(5));
    assert_eq!(micros(-5).magnitude(), micros(5));
    assert!(micros(3).at_most(micros(3)));
    assert!(!micros(3).below(micros(3)));
}

#[test]
fn amounts_are_written_with_fixed_places() {
    assert_eq!(micros(530_000).to_fixed(4), "0.5300");
    assert_eq!(micros(30_000_000).to_fixed(0), "30");
    assert_eq!(micros(-1_005_000).to_fixed(2), "-1.00");
    assert_eq!(micros(1_015_000).to_fixed(2), "1.02");
    assert_eq!(micros(999_999).to_fixed(2), "1.00");
    assert_eq!(micros(-1).to_fixed(2), "-0.00");
    assert_eq!(micros(i64::MIN).to_fixed(6), "-9223372036854.775808");
    assert_eq!(Float(0.53).to_fixed(4), "0.5300");
}

#[test]
fn amounts_are_written_plainly() {
    assert_eq!(micros(30_000_000).to_plain(), "30");
    assert_eq!(micros(2_500_000).to_plain(), "2.5");
    assert_eq!(micros(-1).to_plain(), "-0.000001");
    assert_eq!(micros(0).to_plain(), "0");
    assert_eq!(micros(100_000_000).to_plain(), "100");
    assert_eq!(Float(30.0).to_plain(), "30");
}

#[test]
fn quotes_become_amounts() {
    let quote = DecimalValue { mantissa: 53, scale: 2 };
    assert_eq!(quote.to_amount::<Micros>(), micros(530_000));
    assert_eq!(quote.to_amount::<Float>(), Float(0.53));
}
