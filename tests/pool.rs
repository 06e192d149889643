use amm::errors::AmmError;
use amm::pool::{Deposit, PoolBalances, Swap, Withdraw};
use amm::state::{Config, Initialize, InitializeBumps};

fn config(fee: u16, locked: bool) -> Config {
    Config {
        seed: 7,
        authority: None,
        mint_x: [1; 32],
        mint_y: [2; 32],
        fee,
        locked,
        config_bump: 254,
        lp_bump: 253,
    }
}

fn balances(reserve_x: u64, reserve_y: u64, lp_supply: u64) -> PoolBalances {
    PoolBalances { reserve_x, reserve_y, lp_supply }
}

fn swap_pool(fee: u16, reserve_x: u64, reserve_y: u64) -> Swap {
    Swap { config: config(fee, false), balances: balances(reserve_x, reserve_y, 1_000) }
}

#[test]
fn init_writes_unlocked_config() {
    let mut ctx = Initialize { mint_x: [3; 32], mint_y: [4; 32], config: config(0, true) };
    let r = ctx.init(42, 30, Some([9; 32]), InitializeBumps { config: 1, mint_lp: 2 });
    assert_eq!(r, Ok(()));
    assert_eq!(ctx.config.seed, 42);
    assert_eq!(ctx.config.fee, 30);
    assert!(!ctx.config.locked);
    assert_eq!(ctx.config.authority, Some([9; 32]));
    assert_eq!(ctx.config.mint_x, [3; 32]);
    assert_eq!(ctx.config.mint_y, [4; 32]);
    assert_eq!(ctx.config.config_bump, 1);
    assert_eq!(ctx.config.lp_bump, 2);
}

#[test]
fn init_rejects_fee_above_whole() {
    let before = config(0, true);
    let mut ctx = Initialize { mint_x: [3; 32], mint_y: [4; 32], config: before };
    let r = ctx.init(42, 10_001, None, InitializeBumps { config: 1, mint_lp: 2 });
    assert_eq!(r, Err(AmmError::InvalidFee));
    assert_eq!(ctx.config, before);
}

#[test]
fn first_deposit_sets_exact_reserves() {
    let mut init = Initialize { mint_x: [3; 32], mint_y: [4; 32], config: config(0, true) };
    init.init(1, 30, None, InitializeBumps { config: 1, mint_lp: 2 }).unwrap();
    let mut ctx = Deposit { config: init.config, balances: balances(0, 0, 0) };
    assert_eq!(ctx.deposit(500, 1_234, 5_678), Ok((1_234, 5_678)));
    assert_eq!(ctx.balances, balances(1_234, 5_678, 500));
}

#[test]
fn first_deposit_rejects_zero_offer() {
    let mut ctx = Deposit { config: config(30, false), balances: balances(0, 0, 0) };
    assert_eq!(ctx.deposit(500, 0, 5_678), Err(AmmError::InvalidAmount));
    assert_eq!(ctx.balances, balances(0, 0, 0));
}

#[test]
fn deposit_into_pool_is_pro_rata_rounded_up() {
    let mut ctx = Deposit { config: config(30, false), balances: balances(1_000, 3_001, 100) };
    // 7 * 1000 / 100 = 70 ; 7 * 3001 / 100 = 210.07 -> 211
    assert_eq!(ctx.deposit(7, 70, 211), Ok((70, 211)));
    assert_eq!(ctx.balances, balances(1_070, 3_212, 107));
}

#[test]
fn deposit_slippage() {
    let before = balances(1_000, 3_001, 100);
    let mut ctx = Deposit { config: config(30, false), balances: before };
    assert_eq!(ctx.deposit(7, 70, 210), Err(AmmError::SlippageExceeded));
    assert_eq!(ctx.deposit(7, 69, 211), Err(AmmError::SlippageExceeded));
    assert_eq!(ctx.balances, before);
}

#[test]
fn deposit_locked() {
    let before = balances(1_000, 1_000, 100);
    let mut ctx = Deposit { config: config(30, true), balances: before };
    assert_eq!(ctx.deposit(7, 1_000, 1_000), Err(AmmError::PoolLocked));
    assert_eq!(ctx.balances, before);
}

#[test]
fn deposit_curve_error_on_half_empty_pool() {
    let before = balances(0, 1_000, 100);
    let mut ctx = Deposit { config: config(30, false), balances: before };
    assert_eq!(ctx.deposit(7, 1_000, 1_000), Err(AmmError::CurveError));
    assert_eq!(ctx.balances, before);
}

#[test]
fn deposit_curve_error_on_reserve_overflow() {
    let before = balances(u64::MAX - 1, 10, 10);
    let mut ctx = Deposit { config: config(30, false), balances: before };
    assert_eq!(ctx.deposit(1, u64::MAX, u64::MAX), Err(AmmError::CurveError));
    assert_eq!(ctx.balances, before);
}

#[test]
fn withdraw_is_pro_rata_rounded_down() {
    let mut ctx = Withdraw { config: config(30, false), balances: balances(1_000, 3_001, 100) };
    assert_eq!(ctx.withdraw(7, 1, 0), Ok((70, 210)));
    assert_eq!(ctx.balances, balances(930, 2_791, 93));
}

#[test]
fn withdraw_everything_empties_pool() {
    let mut ctx = Withdraw { config: config(30, false), balances: balances(1_000, 3_001, 100) };
    assert_eq!(ctx.withdraw(100, 1_000, 3_001), Ok((1_000, 3_001)));
    assert_eq!(ctx.balances, balances(0, 0, 0));
}

#[test]
fn withdraw_needs_a_floor() {
    let before = balances(1_000, 1_000, 100);
    let mut ctx = Withdraw { config: config(30, false), balances: before };
    assert_eq!(ctx.withdraw(7, 0, 0), Err(AmmError::InvalidAmount));
    assert_eq!(ctx.balances, before);
}

#[test]
fn withdraw_errors() {
    let before = balances(1_000, 1_000, 100);
    let mut ctx = Withdraw { config: config(30, false), balances: before };
    assert_eq!(ctx.withdraw(7, 71, 1), Err(AmmError::SlippageExceeded));
    assert_eq!(ctx.withdraw(101, 1, 1), Err(AmmError::CurveError));
    assert_eq!(ctx.balances, before);
    let mut locked = Withdraw { config: config(30, true), balances: before };
    assert_eq!(locked.withdraw(7, 1, 1), Err(AmmError::PoolLocked));
    assert_eq!(locked.balances, before);
}

#[test]
fn deposit_then_withdraw_never_gains() {
    let mut dep = Deposit { config: config(30, false), balances: balances(1_001, 77, 13) };
    let (x, y) = dep.deposit(5, u64::MAX, u64::MAX).unwrap();
    let mut wd = Withdraw { config: dep.config, balances: dep.balances };
    let (x2, y2) = wd.withdraw(5, 1, 1).unwrap();
    assert!(x2 <= x);
    assert!(y2 <= y);
    assert_eq!((x, y), (385, 30));
    assert_eq!((x2, y2), (385, 29));
}

#[test]
fn swap_concrete_scenario() {
    let mut ctx = swap_pool(30, 1_000_000, 1_000_000);
    assert_eq!(ctx.swap(true, 10_000, 9_871), Ok((10_000, 9_871)));
    assert_eq!(ctx.balances, balances(1_010_000, 990_129, 1_000));
}

#[test]
fn swap_concrete_scenario_slippage() {
    let mut ctx = swap_pool(30, 1_000_000, 1_000_000);
    assert_eq!(ctx.swap(true, 10_000, 9_872), Err(AmmError::SlippageExceeded));
    assert_eq!(ctx.balances, balances(1_000_000, 1_000_000, 1_000));
}

#[test]
fn swap_y_for_x() {
    let mut ctx = swap_pool(0, 100, 300);
    // net 100, out = 100 * 100 / (300 + 100) = 25
    assert_eq!(ctx.swap(false, 100, 0), Ok((100, 25)));
    assert_eq!(ctx.balances, balances(75, 400, 1_000));
}

#[test]
fn swap_keeps_product() {
    let mut ctx = swap_pool(30, 12_345, 67_890);
    let before = ctx.balances;
    ctx.swap(true, 4_321, 1).unwrap();
    let after = ctx.balances;
    assert!(after.reserve_x as u128 * after.reserve_y as u128 >= before.reserve_x as u128 * before.reserve_y as u128);
}

#[test]
fn swap_errors() {
    let mut ctx = swap_pool(30, 1_000, 1_000);
    assert_eq!(ctx.swap(true, 1, 0), Err(AmmError::InvalidAmount));
    let mut empty = Swap { config: config(30, false), balances: balances(0, 0, 0) };
    assert_eq!(empty.swap(true, 10, 0), Err(AmmError::CurveError));
    let mut bad_fee = swap_pool(10_001, 1_000, 1_000);
    assert_eq!(bad_fee.swap(true, 10, 0), Err(AmmError::CurveError));
    let mut full = swap_pool(0, u64::MAX - 5, u64::MAX);
    assert_eq!(full.swap(true, 10, 0), Err(AmmError::CurveError));
    let mut locked = Swap { config: config(30, true), balances: balances(1_000, 1_000, 10) };
    assert_eq!(locked.swap(true, 10, 0), Err(AmmError::PoolLocked));
    assert_eq!(ctx.balances, balances(1_000, 1_000, 1_000));
}

#[test]
fn zero_amounts_rejected() {
    let before = balances(1_000, 1_000, 100);
    let mut dep = Deposit { config: config(30, false), balances: before };
    assert_eq!(dep.deposit(0, 10, 10), Err(AmmError::InvalidAmount));
    assert_eq!(dep.balances, before);
    let mut wd = Withdraw { config: config(30, false), balances: before };
    assert_eq!(wd.withdraw(0, 10, 10), Err(AmmError::InvalidAmount));
    assert_eq!(wd.balances, before);
    let mut sw = Swap { config: config(30, false), balances: before };
    assert_eq!(sw.swap(true, 0, 0), Err(AmmError::InvalidAmount));
    assert_eq!(sw.balances, before);
}
