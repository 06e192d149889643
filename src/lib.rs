//! The accounting core of a two-asset constant-product market maker: the
//! curve that quotes deposits, withdrawals and swaps, and the pool operations
//! that validate a request, quote it and update the pool's balances.
use vstd::prelude::*;

pub mod curve;
pub mod errors;
pub mod pool;
pub mod state;

verus! {

} // verus!
