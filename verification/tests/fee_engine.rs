//! The fee engine: validation and the fee/net split.

use horse_races::fee::{apply_fee, validate_fee_bps, MAX_BPS};
use horse_races::Error;

#[test]
fn fee_splits_gross_amount() {
    assert_eq!(apply_fee(100, 500), Ok((5, 95)));
    assert_eq!(apply_fee(300, 500), Ok((15, 285)));
    assert_eq!(apply_fee(1000, 250), Ok((25, 975)));
}

#[test]
fn fee_and_net_add_back_up() {
    for amount in [0u128, 1, 7, 99, 100, 10_000, 123_456_789] {
        for bps in [0u16, 1, 250, 500, 9_999, 10_000] {
            let (fee, net) = apply_fee(amount, bps).unwrap();
            assert_eq!(fee + net, amount);
            assert_eq!(fee, amount * (bps as u128) / 10_000);
        }
    }
}

#[test]
fn fee_rounds_down_in_bettors_favour() {
    // 99 * 500 / 10000 = 4.95, truncated to 4.
    assert_eq!(apply_fee(99, 500), Ok((4, 95)));
    // 1 * 9999 / 10000 truncates to 0: the whole unit stays with the bettor.
    assert_eq!(apply_fee(1, 9_999), Ok((0, 1)));
}

#[test]
fn zero_fee_charges_nothing() {
    assert_eq!(apply_fee(12_345, 0), Ok((0, 12_345)));
}

#[test]
fn full_fee_takes_everything() {
    assert_eq!(apply_fee(12_345, MAX_BPS), Ok((12_345, 0)));
}

#[test]
fn fee_on_huge_amount_overflows() {
    assert_eq!(apply_fee(u128::MAX, 500), Err(Error::Overflow));
    // With no fee there is nothing to multiply.
    assert_eq!(apply_fee(u128::MAX, 0), Ok((0, u128::MAX)));
}

#[test]
fn fee_bps_validation() {
    assert_eq!(validate_fee_bps(0), Ok(0));
    assert_eq!(validate_fee_bps(10_000), Ok(10_000));
    assert_eq!(validate_fee_bps(10_001), Err(Error::InvalidFeeBps));
    assert_eq!(validate_fee_bps(20_000), Err(Error::InvalidFeeBps));
}
