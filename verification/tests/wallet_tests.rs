use polymarket::decimal::Dec;
use polymarket::error::FORBIDDEN;
use polymarket::wallet::{check_withdraw, try_check_withdraw};

#[test]
fn withdrawing_up_to_the_balance_is_allowed() {
    assert!(check_withdraw(&Dec::new(1000, 2), &Dec::new(10, 0)).is_ok());
    assert!(check_withdraw(&Dec::new(1000, 2), &Dec::new(5, 0)).is_ok());
}

#[test]
fn withdrawing_more_than_the_balance_is_forbidden() {
    let e = check_withdraw(&Dec::new(1000, 2), &Dec::new(1001, 2)).unwrap_err();
    assert_eq!(e.status, FORBIDDEN);
    assert_eq!(e.message, "Insufficient Balance");
}

#[test]
fn overflowing_subtraction_is_reported() {
    let max = Dec::new(79228162514264337593543950335, 0);
    let min = Dec::new(-79228162514264337593543950335, 0);
    assert!(try_check_withdraw(&min, &max).is_none());
    assert!(try_check_withdraw(&Dec::new(1, 0), &Dec::new(2, 0)).unwrap().is_err());
}

#[test]
fn a_rounded_difference_keeps_its_sign() {
    // 79228162514264337593543950335 - 0.4 does not fit at scale 1 and is
    // rounded, but the withdrawal is still allowed
    let big = Dec::new(79228162514264337593543950335, 0);
    assert!(check_withdraw(&big, &Dec::new(4, 1)).is_ok());
    let e = check_withdraw(&Dec::new(4, 1), &big).unwrap_err();
    assert_eq!(e.status, FORBIDDEN);
    assert!(try_check_withdraw(&big, &Dec::new(79228162514264337593543950334, 0)).unwrap().is_ok());
}
