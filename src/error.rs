use vstd::prelude::*;

verus! {

/// Every way an operation of the pool can be refused.
#[derive(Clone, Copy, Debug, PartialEq, Eq, Structural)]
pub enum Errors {
    /// The deposit does not keep the ratio of the reserves.
    IncorrectLiquidityRatio,
    /// The caller holds no share tokens to redeem.
    NoLiquidityPoolTokens,
    /// A submitted reserve account is not one that the pool records.
    IncorrectPoolTokenAccount,
    /// The submitted share mint is not the one that the pool records.
    IncorrectLPTokenAccount,
    /// One of the reserves is empty, so nothing can be priced.
    NoLiquidityInPool,
    /// The two assets of a pool must differ.
    IdenticalAssets,
    /// A pool for this pair of assets already exists.
    PoolAlreadyExists,
    /// The operation is not allowed in the pool's current stage.
    InvalidPoolState,
    /// A reserve account holds another asset than the pool records.
    IncorrectReserveMint,
    /// A reserve account is not controlled by the pool's authority.
    IncorrectReserveAuthority,
    /// No bump seed puts the derived address off the curve.
    NoViableBump,
    /// The caller's share balance exceeds the recorded share supply.
    ShareSupplyMismatch,
    /// A balance or an intermediate product does not fit its integer type.
    ArithmeticOverflow,
}

} // verus!
