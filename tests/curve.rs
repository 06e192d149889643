use amm::curve::{quote_deposit, quote_swap, quote_withdraw, CurveError};

#[test]
fn deposit_quote_rounds_up() {
    // 1 * 10 / 3 = 3.33.. -> 4 ; 1 * 9 / 3 = 3 exactly
    assert_eq!(quote_deposit(10, 9, 3, 1), Ok((4, 3)));
}

#[test]
fn deposit_quote_exact_share() {
    assert_eq!(quote_deposit(1_000, 2_000, 100, 10), Ok((100, 200)));
}

#[test]
fn deposit_quote_rejects_zero_amount() {
    assert_eq!(quote_deposit(10, 10, 10, 0), Err(CurveError::ZeroAmount));
}

#[test]
fn deposit_quote_rejects_zero_balances() {
    assert_eq!(quote_deposit(0, 10, 10, 1), Err(CurveError::ZeroBalance));
    assert_eq!(quote_deposit(10, 0, 10, 1), Err(CurveError::ZeroBalance));
    assert_eq!(quote_deposit(10, 10, 0, 1), Err(CurveError::ZeroBalance));
}

#[test]
fn deposit_quote_overflow() {
    assert_eq!(quote_deposit(u64::MAX, 1, 1, 2), Err(CurveError::Overflow));
}

#[test]
fn deposit_quote_largest_values() {
    assert_eq!(quote_deposit(u64::MAX, u64::MAX, u64::MAX, u64::MAX), Ok((u64::MAX, u64::MAX)));
}

#[test]
fn withdraw_quote_rounds_down() {
    // 1 * 10 / 3 = 3.33.. -> 3 ; 2 * 9 / 3 = 6 exactly
    assert_eq!(quote_withdraw(10, 9, 3, 1), Ok((3, 3)));
    assert_eq!(quote_withdraw(10, 9, 3, 2), Ok((6, 6)));
}

#[test]
fn withdraw_quote_whole_supply_takes_everything() {
    assert_eq!(quote_withdraw(u64::MAX, 7, u64::MAX, u64::MAX), Ok((u64::MAX, 7)));
}

#[test]
fn withdraw_quote_errors() {
    assert_eq!(quote_withdraw(10, 10, 10, 0), Err(CurveError::ZeroAmount));
    assert_eq!(quote_withdraw(10, 10, 0, 1), Err(CurveError::ZeroBalance));
    assert_eq!(quote_withdraw(10, 10, 10, 11), Err(CurveError::InsufficientSupply));
}

#[test]
fn swap_quote_concrete() {
    assert_eq!(quote_swap(1_000_000, 1_000_000, 30, 10_000), Ok((9_970, 9_871)));
}

#[test]
fn swap_quote_without_fee() {
    // 100 * 100 / (100 + 100) = 50
    assert_eq!(quote_swap(100, 100, 0, 100), Ok((100, 50)));
}

#[test]
fn swap_quote_full_fee_trades_nothing() {
    assert_eq!(quote_swap(100, 100, 10_000, 100), Ok((0, 0)));
}

#[test]
fn swap_quote_errors() {
    assert_eq!(quote_swap(100, 100, 30, 0), Err(CurveError::ZeroAmount));
    assert_eq!(quote_swap(0, 100, 30, 10), Err(CurveError::ZeroBalance));
    assert_eq!(quote_swap(100, 0, 30, 10), Err(CurveError::ZeroBalance));
}

#[test]
fn swap_quote_never_drains_output() {
    let (_, out) = quote_swap(1, 1_000, 0, u64::MAX).unwrap();
    assert!(out < 1_000);
    assert_eq!(out, 999);
}

#[test]
fn rounding_favours_pool_on_values() {
    let (rx, ry, s, l) = (1_001u64, 77u64, 13u64, 5u64);
    let (dx, dy) = quote_deposit(rx, ry, s, l).unwrap();
    let (wx, wy) = quote_withdraw(rx, ry, s, l).unwrap();
    assert!(dx as u128 * s as u128 >= l as u128 * rx as u128);
    assert!(dy as u128 * s as u128 >= l as u128 * ry as u128);
    assert!(wx as u128 * s as u128 <= l as u128 * rx as u128);
    assert!(wy as u128 * s as u128 <= l as u128 * ry as u128);
}
