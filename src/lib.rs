//! Accounting and pricing engine of a constant-product market maker.
//!
//! The operations take the accounts a caller submits, check them against
//! the pool record, compute deposits, redemptions and swaps with integer
//! arithmetic, and return the ordered list of token-ledger calls that carry
//! the operation out. The caller runs those calls in one atomic unit of
//! work; an operation that fails issues none.

pub mod address;
pub mod error;
pub mod ledger;
pub mod liquidity;
pub mod pool;
pub mod swap;
pub mod theorems;

pub use address::{Address, address_before, derive_program_address, pool_authority_seeds, reserve_authority_seeds, same_address, share_mint_seeds};
pub use error::Errors;
pub use ledger::{Authority, LedgerCall, Mint, TokenAccount};
pub use liquidity::{
    AddLiquidity, BOOTSTRAP_SHARES, deposit_accounts_apart, withdraw_accounts_apart, RemoveLiquidity, add_liquidity, check_deposit, check_withdrawal, deposit_shares,
    plan_add_liquidity, plan_remove_liquidity, pool_bump, ratio_matches, redeemed_amount, remove_liquidity,
};
pub use pool::{InitializePool, InitializePoolReserves, Pool, PoolEntry, PoolStage, Registry, initialize_pool, initialize_pool_reserves};
pub use swap::{FEE_DENOMINATOR, FEE_NUMERATOR, Swap, check_swap, swap_accounts_apart, plan_swap, swap, swap_output};
