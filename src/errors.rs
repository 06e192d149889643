use vstd::prelude::*;

verus! {

/// Why a pool operation was rejected. A rejected operation changes nothing.
#[derive(Debug, Clone, Copy, PartialEq, Eq, Structural)]
pub enum AmmError {
    /// The pool is locked against all mutating operations.
    PoolLocked,
    /// A supplied or computed amount is zero or otherwise degenerate.
    InvalidAmount,
    /// The computed amounts fall outside the caller's bounds.
    SlippageExceeded,
    /// The curve could not quote: a zero reserve or supply, or an overflow.
    CurveError,
    /// The fee is above 10000 basis points.
    InvalidFee,
}

} // verus!
