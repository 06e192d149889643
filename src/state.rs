use vstd::prelude::*;

use crate::curve::BPS_DENOMINATOR;
use crate::errors::AmmError;

verus! {

/// A ledger address.
pub type Pubkey = [u8; 32];

/// The durable configuration of one pool.
#[derive(Debug, Clone, Copy, PartialEq, Eq)]
pub struct Config {
    /// Tells apart pools over the same pair of assets.
    pub seed: u64,
    /// Who may lock or unlock the pool, if anyone.
    pub authority: Option<Pubkey>,
    pub mint_x: Pubkey,
    pub mint_y: Pubkey,
    /// Trading fee in basis points.
    pub fee: u16,
    /// While set, every mutating operation is rejected.
    pub locked: bool,
    pub config_bump: u8,
    pub lp_bump: u8,
}

impl Config {
    /// A fee in range.
    pub open spec fn wf(&self) -> bool {
        self.fee <= BPS_DENOMINATOR
    }
}

/// Address-derivation markers of the accounts that pool creation allocates.
#[derive(Debug, Clone, Copy, PartialEq, Eq)]
pub struct InitializeBumps {
    pub config: u8,
    pub mint_lp: u8,
}

/// The configuration that pool creation writes for the given arguments.
pub open spec fn created_config(
    seed: u64,
    fee: u16,
    authority: Option<Pubkey>,
    mint_x: Pubkey,
    mint_y: Pubkey,
    bumps: InitializeBumps,
) -> Config {
    Config {
        seed,
        authority,
        mint_x,
        mint_y,
        fee,
        locked: false,
        config_bump: bumps.config,
        lp_bump: bumps.mint_lp,
    }
}

/// What pool creation reads and writes: the two assets and the configuration
/// record that it fills.
#[derive(Debug, Clone, Copy, PartialEq, Eq)]
pub struct Initialize {
    pub mint_x: Pubkey,
    pub mint_y: Pubkey,
    pub config: Config,
}

impl Initialize {
    /// Writes the pool's configuration: unlocked, with the given fee, seed and
    /// authority. Rejects a fee above 10000 basis points.
    pub fn init(&mut self, seed: u64, fee: u16, authority: Option<Pubkey>, bumps: InitializeBumps) -> (r: Result<(), AmmError>)
        ensures
            final(self).mint_x == old(self).mint_x,
            final(self).mint_y == old(self).mint_y,
            fee > BPS_DENOMINATOR ==> r == Err::<(), AmmError>(AmmError::InvalidFee) && final(self).config == old(self).config,
            r is Ok ==> final(self).config.wf(),
            fee <= BPS_DENOMINATOR ==> r is Ok && final(self).config == created_config(
                seed,
                fee,
                authority,
                old(self).mint_x,
                old(self).mint_y,
                bumps,
            ),
    {
        if fee > BPS_DENOMINATOR {
            return Err(AmmError::InvalidFee);
        }
        self.config = Config {
            seed,
            authority,
            mint_x: self.mint_x,
            mint_y: self.mint_y,
            fee,
            locked: false,
            config_bump: bumps.config,
            lp_bump: bumps.mint_lp,
        };
        Ok(())
    }
}

} // verus!
