use vstd::prelude::*;

use crate::curve::{
    deposit_quote, lemma_share_bounds, lemma_swap_product_grows, quote_deposit, quote_swap,
    quote_withdraw, swap_quote, withdraw_quote, BPS_DENOMINATOR,
};
use crate::errors::AmmError;
use crate::state::{created_config, Config, InitializeBumps, Pubkey};

verus! {

/// The pool's holdings of each asset and the LP tokens outstanding.
#[derive(Debug, Clone, Copy, PartialEq, Eq)]
pub struct PoolBalances {
    pub reserve_x: u64,
    pub reserve_y: u64,
    pub lp_supply: u64,
}

impl PoolBalances {
    /// No reserves and no LP tokens: the state before the first deposit.
    pub open spec fn is_empty(&self) -> bool {
        self.lp_supply == 0 && self.reserve_x == 0 && self.reserve_y == 0
    }

    /// Either empty, or both reserves and the supply are positive.
    pub open spec fn wf(&self) -> bool {
        self.is_empty() || (self.lp_supply > 0 && self.reserve_x > 0 && self.reserve_y > 0)
    }
}

/// The balances of a freshly created pool.
pub open spec fn empty_balances() -> PoolBalances {
    PoolBalances { reserve_x: 0, reserve_y: 0, lp_supply: 0 }
}

/// What adding liquidity yields: the amounts of X and Y that the caller pays
/// for `amount` LP tokens, or why it is rejected.
pub open spec fn deposit_outcome(config: Config, b: PoolBalances, amount: u64, max_x: u64, max_y: u64) -> Result<(u64, u64), AmmError> {
    if config.locked {
        Err(AmmError::PoolLocked)
    } else if amount == 0 {
        Err(AmmError::InvalidAmount)
    } else {
        let quoted: Result<(u64, u64), AmmError> = if b.is_empty() {
            if max_x == 0 || max_y == 0 {
                Err(AmmError::InvalidAmount)
            } else {
                Ok((max_x, max_y))
            }
        } else {
            match deposit_quote(b.reserve_x, b.reserve_y, b.lp_supply, amount) {
                Ok(q) => Ok(q),
                Err(_) => Err(AmmError::CurveError),
            }
        };
        match quoted {
            Err(e) => Err(e),
            Ok((x, y)) => if x > max_x || y > max_y {
                Err(AmmError::SlippageExceeded)
            } else if b.reserve_x + x > u64::MAX || b.reserve_y + y > u64::MAX || b.lp_supply + amount > u64::MAX {
                Err(AmmError::CurveError)
            } else {
                Ok((x, y))
            },
        }
    }
}

/// The balances after a deposit of `x` and `y` for `amount` LP tokens.
pub open spec fn deposit_balances(b: PoolBalances, amount: u64, x: u64, y: u64) -> PoolBalances {
    PoolBalances {
        reserve_x: (b.reserve_x + x) as u64,
        reserve_y: (b.reserve_y + y) as u64,
        lp_supply: (b.lp_supply + amount) as u64,
    }
}

/// What removing liquidity yields: the amounts of X and Y paid out for burning
/// `amount` LP tokens, or why it is rejected.
pub open spec fn withdraw_outcome(config: Config, b: PoolBalances, amount: u64, min_x: u64, min_y: u64) -> Result<(u64, u64), AmmError> {
    if config.locked {
        Err(AmmError::PoolLocked)
    } else if amount == 0 || (min_x == 0 && min_y == 0) {
        Err(AmmError::InvalidAmount)
    } else {
        match withdraw_quote(b.reserve_x, b.reserve_y, b.lp_supply, amount) {
            Err(_) => Err(AmmError::CurveError),
            Ok((x, y)) => if x < min_x || y < min_y {
                Err(AmmError::SlippageExceeded)
            } else {
                Ok((x, y))
            },
        }
    }
}

/// The balances after `x` and `y` are paid out for `amount` burned LP tokens.
pub open spec fn withdraw_balances(b: PoolBalances, amount: u64, x: u64, y: u64) -> PoolBalances {
    PoolBalances {
        reserve_x: (b.reserve_x - x) as u64,
        reserve_y: (b.reserve_y - y) as u64,
        lp_supply: (b.lp_supply - amount) as u64,
    }
}

/// The input and output reserves of a trade in the given direction.
pub open spec fn swap_reserves(b: PoolBalances, is_x: bool) -> (u64, u64) {
    if is_x {
        (b.reserve_x, b.reserve_y)
    } else {
        (b.reserve_y, b.reserve_x)
    }
}

/// What a swap yields: the amount taken in and the amount paid out, or why it
/// is rejected.
pub open spec fn swap_outcome(config: Config, b: PoolBalances, is_x: bool, amount_in: u64, min_out: u64) -> Result<(u64, u64), AmmError> {
    let (reserve_in, reserve_out) = swap_reserves(b, is_x);
    if config.locked {
        Err(AmmError::PoolLocked)
    } else if amount_in == 0 {
        Err(AmmError::InvalidAmount)
    } else if config.fee > BPS_DENOMINATOR {
        Err(AmmError::CurveError)
    } else {
        match swap_quote(reserve_in, reserve_out, config.fee, amount_in) {
            Err(_) => Err(AmmError::CurveError),
            Ok((net, out)) => if net == 0 || out == 0 {
                Err(AmmError::InvalidAmount)
            } else if out < min_out {
                Err(AmmError::SlippageExceeded)
            } else if reserve_in + amount_in > u64::MAX {
                Err(AmmError::CurveError)
            } else {
                Ok((amount_in, out))
            },
        }
    }
}

/// The balances after a swap that took in `amount_in` and paid out `out`.
pub open spec fn swap_balances(b: PoolBalances, is_x: bool, amount_in: u64, out: u64) -> PoolBalances {
    if is_x {
        PoolBalances {
            reserve_x: (b.reserve_x + amount_in) as u64,
            reserve_y: (b.reserve_y - out) as u64,
            lp_supply: b.lp_supply,
        }
    } else {
        PoolBalances {
            reserve_x: (b.reserve_x - out) as u64,
            reserve_y: (b.reserve_y + amount_in) as u64,
            lp_supply: b.lp_supply,
        }
    }
}

/// What adding liquidity reads and writes.
#[derive(Debug, Clone, Copy, PartialEq, Eq)]
pub struct Deposit {
    pub config: Config,
    pub balances: PoolBalances,
}

impl Deposit {
    /// Mints `amount` LP tokens against a deposit of X and Y. An empty pool
    /// takes `max_x` and `max_y` as they are; otherwise the deposit is the
    /// pro-rata share, rounded up, and must not exceed `max_x` and `max_y`.
    /// Returns the amounts of X and Y that move from the caller to the pool.
    pub fn deposit(&mut self, amount: u64, max_x: u64, max_y: u64) -> (r: Result<(u64, u64), AmmError>)
        ensures
            r == deposit_outcome(old(self).config, old(self).balances, amount, max_x, max_y),
            final(self).config == old(self).config,
            r matches Ok((x, y)) ==> final(self).balances == deposit_balances(old(self).balances, amount, x, y),
            r is Err ==> final(self).balances == old(self).balances,
            old(self).balances.wf() ==> final(self).balances.wf(),
    {
        if self.config.locked {
            return Err(AmmError::PoolLocked);
        }
        if amount == 0 {
            return Err(AmmError::InvalidAmount);
        }
        let b = self.balances;
        let (x, y) = if b.lp_supply == 0 && b.reserve_x == 0 && b.reserve_y == 0 {
            if max_x == 0 || max_y == 0 {
                return Err(AmmError::InvalidAmount);
            }
            (max_x, max_y)
        } else {
            match quote_deposit(b.reserve_x, b.reserve_y, b.lp_supply, amount) {
                Ok(q) => q,
                Err(_) => return Err(AmmError::CurveError),
            }
        };
        if x > max_x || y > max_y {
            return Err(AmmError::SlippageExceeded);
        }
        let reserve_x = match b.reserve_x.checked_add(x) {
            Some(v) => v,
            None => return Err(AmmError::CurveError),
        };
        let reserve_y = match b.reserve_y.checked_add(y) {
            Some(v) => v,
            None => return Err(AmmError::CurveError),
        };
        let lp_supply = match b.lp_supply.checked_add(amount) {
            Some(v) => v,
            None => return Err(AmmError::CurveError),
        };
        proof {
            if !b.is_empty() {
                lemma_share_bounds(amount as int, b.reserve_x as int, b.lp_supply as int);
                lemma_share_bounds(amount as int, b.reserve_y as int, b.lp_supply as int);
            }
        }
        self.balances = PoolBalances { reserve_x, reserve_y, lp_supply };
        Ok((x, y))
    }
}

/// What removing liquidity reads and writes.
#[derive(Debug, Clone, Copy, PartialEq, Eq)]
pub struct Withdraw {
    pub config: Config,
    pub balances: PoolBalances,
}

impl Withdraw {
    /// Burns `amount` LP tokens for the pro-rata share of each reserve, rounded
    /// down, which must reach `min_x` and `min_y`; at least one of the two
    /// floors must be set. Returns the amounts of X and Y that move from the
    /// pool to the caller.
    pub fn withdraw(&mut self, amount: u64, min_x: u64, min_y: u64) -> (r: Result<(u64, u64), AmmError>)
        ensures
            r == withdraw_outcome(old(self).config, old(self).balances, amount, min_x, min_y),
            final(self).config == old(self).config,
            r matches Ok((x, y)) ==> final(self).balances == withdraw_balances(old(self).balances, amount, x, y),
            r is Err ==> final(self).balances == old(self).balances,
            old(self).balances.wf() ==> final(self).balances.wf(),
    {
        if self.config.locked {
            return Err(AmmError::PoolLocked);
        }
        if amount == 0 || (min_x == 0 && min_y == 0) {
            return Err(AmmError::InvalidAmount);
        }
        let b = self.balances;
        let (x, y) = match quote_withdraw(b.reserve_x, b.reserve_y, b.lp_supply, amount) {
            Ok(q) => q,
            Err(_) => return Err(AmmError::CurveError),
        };
        if x < min_x || y < min_y {
            return Err(AmmError::SlippageExceeded);
        }
        proof {
            lemma_withdraw_keeps_wf(b, amount);
        }
        self.balances = PoolBalances {
            reserve_x: b.reserve_x - x,
            reserve_y: b.reserve_y - y,
            lp_supply: b.lp_supply - amount,
        };
        Ok((x, y))
    }
}

/// What a swap reads and writes.
#[derive(Debug, Clone, Copy, PartialEq, Eq)]
pub struct Swap {
    pub config: Config,
    pub balances: PoolBalances,
}

impl Swap {
    /// Trades `amount` of X (when `is_x`) or of Y for the other asset at the
    /// constant-product price after the fee. The output must be at least `min`.
    /// Returns the amount that moves from the caller to the pool and the
    /// amount that moves back.
    pub fn swap(&mut self, is_x: bool, amount: u64, min: u64) -> (r: Result<(u64, u64), AmmError>)
        ensures
            r == swap_outcome(old(self).config, old(self).balances, is_x, amount, min),
            final(self).config == old(self).config,
            r matches Ok((a, out)) ==> final(self).balances == swap_balances(old(self).balances, is_x, a, out),
            r is Err ==> final(self).balances == old(self).balances,
            old(self).balances.wf() ==> final(self).balances.wf(),
    {
        if self.config.locked {
            return Err(AmmError::PoolLocked);
        }
        if amount == 0 {
            return Err(AmmError::InvalidAmount);
        }
        if self.config.fee > BPS_DENOMINATOR {
            return Err(AmmError::CurveError);
        }
        let b = self.balances;
        let (reserve_in, reserve_out) = if is_x {
            (b.reserve_x, b.reserve_y)
        } else {
            (b.reserve_y, b.reserve_x)
        };
        let (net, out) = match quote_swap(reserve_in, reserve_out, self.config.fee, amount) {
            Ok(q) => q,
            Err(_) => return Err(AmmError::CurveError),
        };
        if net == 0 || out == 0 {
            return Err(AmmError::InvalidAmount);
        }
        if out < min {
            return Err(AmmError::SlippageExceeded);
        }
        let new_in = match reserve_in.checked_add(amount) {
            Some(v) => v,
            None => return Err(AmmError::CurveError),
        };
        let new_out = reserve_out - out;
        self.balances = if is_x {
            PoolBalances { reserve_x: new_in, reserve_y: new_out, lp_supply: b.lp_supply }
        } else {
            PoolBalances { reserve_x: new_out, reserve_y: new_in, lp_supply: b.lp_supply }
        };
        Ok((amount, out))
    }
}

proof fn lemma_withdraw_keeps_wf(b: PoolBalances, amount: u64)
    requires
        withdraw_quote(b.reserve_x, b.reserve_y, b.lp_supply, amount) is Ok,
    ensures
        ({
            let (x, y) = withdraw_quote(b.reserve_x, b.reserve_y, b.lp_supply, amount)->Ok_0;
            &&& x <= b.reserve_x
            &&& y <= b.reserve_y
            &&& b.wf() ==> withdraw_balances(b, amount, x, y).wf()
        }),
{
    lemma_share_bounds(amount as int, b.reserve_x as int, b.lp_supply as int);
    lemma_share_bounds(amount as int, b.reserve_y as int, b.lp_supply as int);
}

/// Creating a pool and then adding liquidity to it sets the reserves to the
/// offered amounts and the LP supply to the requested amount, exactly.
pub proof fn lemma_first_deposit_sets_reserves(
    seed: u64,
    fee: u16,
    authority: Option<Pubkey>,
    mint_x: Pubkey,
    mint_y: Pubkey,
    bumps: InitializeBumps,
    lp_amount: u64,
    max_x: u64,
    max_y: u64,
)
    requires
        fee <= BPS_DENOMINATOR,
        lp_amount > 0,
        max_x > 0,
        max_y > 0,
    ensures
        deposit_outcome(created_config(seed, fee, authority, mint_x, mint_y, bumps), empty_balances(), lp_amount, max_x, max_y)
            == Ok::<(u64, u64), AmmError>((max_x, max_y)),
        deposit_balances(empty_balances(), lp_amount, max_x, max_y)
            == (PoolBalances { reserve_x: max_x, reserve_y: max_y, lp_supply: lp_amount }),
{
}

/// Depositing for `amount` LP tokens and at once burning the same `amount`
/// never pays out more of either asset than was paid in.
pub proof fn lemma_deposit_withdraw_round_trip(
    config: Config,
    b: PoolBalances,
    amount: u64,
    max_x: u64,
    max_y: u64,
    min_x: u64,
    min_y: u64,
)
    requires
        deposit_outcome(config, b, amount, max_x, max_y) is Ok,
    ensures
        ({
            let (x, y) = deposit_outcome(config, b, amount, max_x, max_y)->Ok_0;
            let after = deposit_balances(b, amount, x, y);
            let back = withdraw_quote(after.reserve_x, after.reserve_y, after.lp_supply, amount);
            &&& back is Ok
            &&& back->Ok_0.0 <= x
            &&& back->Ok_0.1 <= y
            &&& withdraw_outcome(config, after, amount, min_x, min_y) matches Ok((x2, y2)) ==> x2 <= x && y2 <= y
        }),
{
    let (x, y) = deposit_outcome(config, b, amount, max_x, max_y)->Ok_0;
    if !b.is_empty() {
        lemma_share_bounds(amount as int, b.reserve_x as int, b.lp_supply as int);
        lemma_share_bounds(amount as int, b.reserve_y as int, b.lp_supply as int);
    }
    assert(amount * b.reserve_x <= x * b.lp_supply);
    assert(amount * b.reserve_y <= y * b.lp_supply);
    lemma_share_after_deposit(amount, b.reserve_x, b.lp_supply, x);
    lemma_share_after_deposit(amount, b.reserve_y, b.lp_supply, y);
}

proof fn lemma_share_after_deposit(lp: u64, reserve: u64, supply: u64, paid: u64)
    requires
        lp > 0,
        lp * reserve <= paid * supply,
    ensures
        (lp * (reserve + paid)) / (supply + lp) <= paid,
{
    assert((lp * (reserve + paid)) / (supply + lp) <= paid) by (nonlinear_arith)
        requires
            lp > 0,
            supply >= 0,
            paid >= 0,
            lp * reserve <= paid * supply,
    ;
}

/// A swap never lowers the product of the reserves: the fee stays in the pool.
pub proof fn lemma_swap_never_lowers_product(config: Config, b: PoolBalances, is_x: bool, amount_in: u64, min_out: u64)
    requires
        swap_outcome(config, b, is_x, amount_in, min_out) is Ok,
    ensures
        ({
            let (a, out) = swap_outcome(config, b, is_x, amount_in, min_out)->Ok_0;
            let after = swap_balances(b, is_x, a, out);
            after.reserve_x * after.reserve_y >= b.reserve_x * b.reserve_y
        }),
{
    let (reserve_in, reserve_out) = swap_reserves(b, is_x);
    lemma_swap_product_grows(reserve_in, reserve_out, config.fee, amount_in);
    let out = swap_outcome(config, b, is_x, amount_in, min_out)->Ok_0.1;
    let after = swap_balances(b, is_x, amount_in, out);
    if !is_x {
        assert(after.reserve_x * after.reserve_y == after.reserve_y * after.reserve_x) by (nonlinear_arith);
        assert(b.reserve_x * b.reserve_y == b.reserve_y * b.reserve_x) by (nonlinear_arith);
    }
}

/// Asking for one unit more than a swap would pay out makes the same swap
/// fail with `SlippageExceeded`, while asking for exactly that output succeeds.
pub proof fn lemma_swap_slippage_enforced(config: Config, b: PoolBalances, is_x: bool, amount_in: u64, min_out: u64)
    requires
        swap_outcome(config, b, is_x, amount_in, min_out) is Ok,
    ensures
        ({
            let out = swap_outcome(config, b, is_x, amount_in, min_out)->Ok_0.1;
            &&& out < u64::MAX
            &&& swap_outcome(config, b, is_x, amount_in, (out + 1) as u64) == Err::<(u64, u64), AmmError>(AmmError::SlippageExceeded)
            &&& swap_outcome(config, b, is_x, amount_in, out) == swap_outcome(config, b, is_x, amount_in, min_out)
        }),
{
    let (reserve_in, reserve_out) = swap_reserves(b, is_x);
    lemma_swap_product_grows(reserve_in, reserve_out, config.fee, amount_in);
}

/// Adding liquidity, removing liquidity and swapping each reject a zero
/// principal amount with `InvalidAmount` on an unlocked pool.
pub proof fn lemma_zero_amount_rejected(config: Config, b: PoolBalances, is_x: bool, bound_x: u64, bound_y: u64)
    requires
        !config.locked,
    ensures
        deposit_outcome(config, b, 0, bound_x, bound_y) == Err::<(u64, u64), AmmError>(AmmError::InvalidAmount),
        withdraw_outcome(config, b, 0, bound_x, bound_y) == Err::<(u64, u64), AmmError>(AmmError::InvalidAmount),
        swap_outcome(config, b, is_x, 0, bound_x) == Err::<(u64, u64), AmmError>(AmmError::InvalidAmount),
{
}

} // verus!
