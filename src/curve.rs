use vstd::prelude::*;

verus! {

/// Basis points in one whole (100%).
pub const BPS_DENOMINATOR: u16 = 10000;

/// Why a quote could not be produced.
#[derive(Debug, Clone, Copy, PartialEq, Eq, Structural)]
pub enum CurveError {
    /// A reserve or the LP supply is zero where the quote needs it positive.
    ZeroBalance,
    /// The requested amount is zero.
    ZeroAmount,
    /// More LP tokens would be burned than are outstanding.
    InsufficientSupply,
    /// A quoted amount does not fit in 64 bits.
    Overflow,
}

/// `a / b` rounded towards positive infinity.
pub open spec fn ceil_div(a: int, b: int) -> int {
    (a + b - 1) / b
}

/// What a depositor owes of one asset for `lp` LP tokens: the pro-rata share
/// of `reserve`, rounded up in the pool's favour.
pub open spec fn deposit_share(lp: int, reserve: int, supply: int) -> int {
    ceil_div(lp * reserve, supply)
}

/// What a withdrawer receives of one asset for burning `lp` LP tokens: the
/// pro-rata share of `reserve`, rounded down in the pool's favour.
pub open spec fn withdraw_share(lp: int, reserve: int, supply: int) -> int {
    (lp * reserve) / supply
}

/// The part of `amount_in` that trades once the fee is taken, truncated.
pub open spec fn net_of_fee(amount_in: int, fee_bps: int) -> int {
    amount_in * (10000 - fee_bps) / 10000
}

/// The largest output that keeps
/// `reserve_in * reserve_out <= (reserve_in + net_in) * (reserve_out - out)`.
pub open spec fn swap_output(reserve_in: int, reserve_out: int, net_in: int) -> int {
    (reserve_out * net_in) / (reserve_in + net_in)
}

/// The result of `quote_deposit` on the given inputs.
pub open spec fn deposit_quote(reserve_x: u64, reserve_y: u64, lp_supply: u64, lp_amount: u64) -> Result<(u64, u64), CurveError> {
    if lp_amount == 0 {
        Err(CurveError::ZeroAmount)
    } else if lp_supply == 0 || reserve_x == 0 || reserve_y == 0 {
        Err(CurveError::ZeroBalance)
    } else if deposit_share(lp_amount as int, reserve_x as int, lp_supply as int) > u64::MAX
        || deposit_share(lp_amount as int, reserve_y as int, lp_supply as int) > u64::MAX {
        Err(CurveError::Overflow)
    } else {
        Ok((
            deposit_share(lp_amount as int, reserve_x as int, lp_supply as int) as u64,
            deposit_share(lp_amount as int, reserve_y as int, lp_supply as int) as u64,
        ))
    }
}

/// The result of `quote_withdraw` on the given inputs.
pub open spec fn withdraw_quote(reserve_x: u64, reserve_y: u64, lp_supply: u64, lp_amount: u64) -> Result<(u64, u64), CurveError> {
    if lp_amount == 0 {
        Err(CurveError::ZeroAmount)
    } else if lp_supply == 0 {
        Err(CurveError::ZeroBalance)
    } else if lp_amount > lp_supply {
        Err(CurveError::InsufficientSupply)
    } else {
        Ok((
            withdraw_share(lp_amount as int, reserve_x as int, lp_supply as int) as u64,
            withdraw_share(lp_amount as int, reserve_y as int, lp_supply as int) as u64,
        ))
    }
}

/// The result of `quote_swap` on the given inputs.
pub open spec fn swap_quote(reserve_in: u64, reserve_out: u64, fee_bps: u16, amount_in: u64) -> Result<(u64, u64), CurveError> {
    let net = net_of_fee(amount_in as int, fee_bps as int);
    if amount_in == 0 {
        Err(CurveError::ZeroAmount)
    } else if reserve_in == 0 || reserve_out == 0 {
        Err(CurveError::ZeroBalance)
    } else {
        Ok((net as u64, swap_output(reserve_in as int, reserve_out as int, net) as u64))
    }
}

/// Bounds on the rounded pro-rata shares against the exact one.
pub proof fn lemma_share_bounds(lp: int, reserve: int, supply: int)
    requires
        0 <= lp,
        0 <= reserve,
        0 < supply,
    ensures
        withdraw_share(lp, reserve, supply) * supply <= lp * reserve,
        lp * reserve <= deposit_share(lp, reserve, supply) * supply,
        deposit_share(lp, reserve, supply) * supply < lp * reserve + supply,
        0 <= withdraw_share(lp, reserve, supply),
        lp <= supply ==> withdraw_share(lp, reserve, supply) <= reserve,
        lp < supply && reserve > 0 ==> withdraw_share(lp, reserve, supply) < reserve,
        lp == supply ==> withdraw_share(lp, reserve, supply) == reserve,
        lp > 0 && reserve > 0 ==> deposit_share(lp, reserve, supply) >= 1,
{
    let p = lp * reserve;
    let w = p / supply;
    let c = (p + supply - 1) / supply;
    assert(p >= 0) by (nonlinear_arith)
        requires
            p == lp * reserve,
            0 <= lp,
            0 <= reserve,
    ;
    assert(w * supply <= p && p < w * supply + supply) by (nonlinear_arith)
        requires
            w == p / supply,
            0 < supply,
            0 <= p,
    ;
    assert(c * supply <= p + supply - 1 && p + supply - 1 < c * supply + supply) by (nonlinear_arith)
        requires
            c == (p + supply - 1) / supply,
            0 < supply,
            0 <= p,
    ;
    assert(0 <= w) by (nonlinear_arith)
        requires
            w * supply <= p,
            p < w * supply + supply,
            0 < supply,
            0 <= p,
    ;
    if lp <= supply {
        assert(p <= supply * reserve) by (nonlinear_arith)
            requires
                p == lp * reserve,
                lp <= supply,
                0 <= reserve,
        ;
        assert(w <= reserve) by (nonlinear_arith)
            requires
                w * supply <= p,
                p <= supply * reserve,
                0 < supply,
        ;
    }
    if lp < supply && reserve > 0 {
        assert(p < supply * reserve) by (nonlinear_arith)
            requires
                p == lp * reserve,
                lp < supply,
                0 < reserve,
        ;
        assert(w < reserve) by (nonlinear_arith)
            requires
                w * supply <= p,
                p < supply * reserve,
                0 < supply,
        ;
    }
    if lp == supply {
        assert(w == reserve) by (nonlinear_arith)
            requires
                w * supply <= p,
                p < w * supply + supply,
                p == supply * reserve,
                0 < supply,
        ;
    }
    if lp > 0 && reserve > 0 {
        assert(p >= 1) by (nonlinear_arith)
            requires
                p == lp * reserve,
                0 < lp,
                0 < reserve,
        ;
        assert(c >= 1) by (nonlinear_arith)
            requires
                c * supply + supply > p + supply - 1,
                p >= 1,
                0 < supply,
        ;
    }
}

proof fn lemma_swap_bounds(reserve_in: int, reserve_out: int, net_in: int)
    requires
        0 < reserve_in,
        0 <= reserve_out,
        0 <= net_in,
    ensures
        0 <= swap_output(reserve_in, reserve_out, net_in),
        reserve_out > 0 ==> swap_output(reserve_in, reserve_out, net_in) < reserve_out,
        reserve_in * reserve_out <= (reserve_in + net_in) * (reserve_out - swap_output(reserve_in, reserve_out, net_in)),
{
    let d = reserve_in + net_in;
    let p = reserve_out * net_in;
    let o = p / d;
    assert(reserve_out > 0 ==> p < reserve_out * d) by (nonlinear_arith)
        requires
            p == reserve_out * net_in,
            d == reserve_in + net_in,
            0 < reserve_in,
            0 <= reserve_out,
            0 <= net_in,
    ;
    assert(p >= 0) by (nonlinear_arith)
        requires
            p == reserve_out * net_in,
            0 <= reserve_out,
            0 <= net_in,
    ;
    assert(o * d <= p && p < o * d + d) by (nonlinear_arith)
        requires
            o == p / d,
            0 < d,
            0 <= p,
    ;
    assert(0 <= o) by (nonlinear_arith)
        requires
            p < o * d + d,
            0 < d,
            0 <= p,
    ;
    if reserve_out > 0 {
        assert(o < reserve_out) by (nonlinear_arith)
            requires
                o * d <= p,
                p < reserve_out * d,
                0 < d,
        ;
    }
    assert(reserve_in * reserve_out <= d * (reserve_out - o)) by (nonlinear_arith)
        requires
            o * d <= reserve_out * net_in,
            d == reserve_in + net_in,
    ;
}

/// Amounts of X and Y owed for minting `lp_amount` LP tokens into a non-empty
/// pool: each is the depositor's pro-rata share, rounded up.
pub fn quote_deposit(reserve_x: u64, reserve_y: u64, lp_supply: u64, lp_amount: u64) -> (r: Result<(u64, u64), CurveError>)
    ensures
        r == deposit_quote(reserve_x, reserve_y, lp_supply, lp_amount),
{
    if lp_amount == 0 {
        return Err(CurveError::ZeroAmount);
    }
    if lp_supply == 0 || reserve_x == 0 || reserve_y == 0 {
        return Err(CurveError::ZeroBalance);
    }
    let x = match ceil_share(lp_amount, reserve_x, lp_supply) {
        Some(x) => x,
        None => return Err(CurveError::Overflow),
    };
    let y = match ceil_share(lp_amount, reserve_y, lp_supply) {
        Some(y) => y,
        None => return Err(CurveError::Overflow),
    };
    Ok((x, y))
}

/// `ceil(lp * reserve / supply)` when it fits in 64 bits.
fn ceil_share(lp: u64, reserve: u64, supply: u64) -> (r: Option<u64>)
    requires
        supply > 0,
    ensures
        match r {
            Some(v) => v as int == deposit_share(lp as int, reserve as int, supply as int),
            None => deposit_share(lp as int, reserve as int, supply as int) > u64::MAX,
        },
{
    let p: u128 = wide_mul(lp, reserve);
    let q: u128 = (p + (supply as u128 - 1)) / (supply as u128);
    if q > u64::MAX as u128 {
        None
    } else {
        Some(q as u64)
    }
}

/// The full 128-bit product of two 64-bit values.
fn wide_mul(a: u64, b: u64) -> (r: u128)
    ensures
        r as int == a as int * b as int,
        r as int <= 0xffff_ffff_ffff_fffe_0000_0000_0000_0001,
{
    assert(a as int * b as int <= 0xffff_ffff_ffff_fffe_0000_0000_0000_0001) by (nonlinear_arith)
        requires
            a as int <= 0xffff_ffff_ffff_ffff,
            b as int <= 0xffff_ffff_ffff_ffff,
            0 <= a as int,
            0 <= b as int,
    ;
    (a as u128) * (b as u128)
}

/// Amounts of X and Y paid out for burning `lp_amount` LP tokens: each is the
/// withdrawer's pro-rata share, rounded down.
pub fn quote_withdraw(reserve_x: u64, reserve_y: u64, lp_supply: u64, lp_amount: u64) -> (r: Result<(u64, u64), CurveError>)
    ensures
        r == withdraw_quote(reserve_x, reserve_y, lp_supply, lp_amount),
        r matches Ok((x, y)) ==> x <= reserve_x && y <= reserve_y,
{
    if lp_amount == 0 {
        return Err(CurveError::ZeroAmount);
    }
    if lp_supply == 0 {
        return Err(CurveError::ZeroBalance);
    }
    if lp_amount > lp_supply {
        return Err(CurveError::InsufficientSupply);
    }
    proof {
        lemma_share_bounds(lp_amount as int, reserve_x as int, lp_supply as int);
        lemma_share_bounds(lp_amount as int, reserve_y as int, lp_supply as int);
    }
    let x = (wide_mul(lp_amount, reserve_x) / (lp_supply as u128)) as u64;
    let y = (wide_mul(lp_amount, reserve_y) / (lp_supply as u128)) as u64;
    Ok((x, y))
}

/// Trade `amount_in` of one asset against a pool holding `reserve_in` of it and
/// `reserve_out` of the other. Returns the input left once the fee is taken
/// and the output, the largest that keeps the constant product; the output is
/// always below `reserve_out`, so a trade never drains the pool.
pub fn quote_swap(reserve_in: u64, reserve_out: u64, fee_bps: u16, amount_in: u64) -> (r: Result<(u64, u64), CurveError>)
    requires
        fee_bps <= BPS_DENOMINATOR,
    ensures
        r == swap_quote(reserve_in, reserve_out, fee_bps, amount_in),
        r matches Ok((net, out)) ==> net <= amount_in && out < reserve_out,
{
    if amount_in == 0 {
        return Err(CurveError::ZeroAmount);
    }
    if reserve_in == 0 || reserve_out == 0 {
        return Err(CurveError::ZeroBalance);
    }
    let keep: u64 = (BPS_DENOMINATOR - fee_bps) as u64;
    let net_wide: u128 = wide_mul(amount_in, keep) / (BPS_DENOMINATOR as u128);
    assert(net_wide <= amount_in) by (nonlinear_arith)
        requires
            net_wide == (amount_in as int * keep as int) / 10000,
            keep <= 10000,
    ;
    let net: u64 = net_wide as u64;
    proof {
        lemma_swap_bounds(reserve_in as int, reserve_out as int, net as int);
    }
    let out: u64 = (wide_mul(reserve_out, net) / (reserve_in as u128 + net as u128)) as u64;
    Ok((net, out))
}

/// Depositing rounds up and withdrawing rounds down: for any pool, each amount
/// that `quote_deposit` asks for `lp` LP tokens is at least the exact share
/// `lp * reserve / lp_supply`, and each amount that `quote_withdraw` pays out
/// for them is at most that share.
pub proof fn lemma_rounding_favours_pool(reserve_x: u64, reserve_y: u64, lp_supply: u64, lp: u64)
    ensures
        deposit_quote(reserve_x, reserve_y, lp_supply, lp) matches Ok((x, y)) ==> x * lp_supply >= lp * reserve_x
            && y * lp_supply >= lp * reserve_y,
        withdraw_quote(reserve_x, reserve_y, lp_supply, lp) matches Ok((x, y)) ==> x * lp_supply <= lp * reserve_x
            && y * lp_supply <= lp * reserve_y,
{
    if lp_supply > 0 {
        lemma_share_bounds(lp as int, reserve_x as int, lp_supply as int);
        lemma_share_bounds(lp as int, reserve_y as int, lp_supply as int);
    }
}

/// The constant product never falls through a swap: the input reserve takes
/// the whole `amount_in`, fee included, and the output reserve gives up the
/// quoted output.
pub proof fn lemma_swap_product_grows(reserve_in: u64, reserve_out: u64, fee_bps: u16, amount_in: u64)
    requires
        fee_bps <= BPS_DENOMINATOR,
        swap_quote(reserve_in, reserve_out, fee_bps, amount_in) is Ok,
    ensures
        ({
            let (net, out) = swap_quote(reserve_in, reserve_out, fee_bps, amount_in)->Ok_0;
            (reserve_in + amount_in) * (reserve_out - out) >= reserve_in * reserve_out
                && out < reserve_out && net <= amount_in
        }),
{
    let net = net_of_fee(amount_in as int, fee_bps as int);
    assert(0 <= net <= amount_in) by (nonlinear_arith)
        requires
            net == amount_in * (10000 - fee_bps) / 10000,
            fee_bps <= 10000,
            0 <= amount_in,
    ;
    lemma_swap_bounds(reserve_in as int, reserve_out as int, net);
    let o = swap_output(reserve_in as int, reserve_out as int, net);
    assert((reserve_in + amount_in) * (reserve_out - o) >= (reserve_in + net) * (reserve_out - o)) by (nonlinear_arith)
        requires
            net <= amount_in,
            o < reserve_out,
    ;
}

} // verus!
