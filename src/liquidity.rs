use vstd::prelude::*;
use crate::address::{Address, same_address, pool_authority_seeds, derive_program_address, program_address_of, pool_seed_seq};
use crate::error::Errors;
use crate::ledger::{Authority, LedgerCall, Mint, TokenAccount};
use crate::pool::{Pool, PoolStage};

verus! {

/// Shares issued for the first deposit into an empty pool: one whole share
/// at nine decimals.
pub const BOOTSTRAP_SHARES: u64 = 1000000000;

/// The accounts of a deposit.
#[derive(Clone, Copy, Debug)]
pub struct AddLiquidity {
    pub pool: Pool,
    pub token_lp_mint: Mint,
    pub token_a_reserves: TokenAccount,
    pub token_b_reserves: TokenAccount,
    pub user: Address,
    pub user_token_a: Address,
    pub user_token_b: Address,
    pub user_token_lp: Address,
}

/// The accounts of a redemption.
#[derive(Clone, Copy, Debug)]
pub struct RemoveLiquidity {
    pub pool: Pool,
    pub token_a_reserves: TokenAccount,
    pub token_b_reserves: TokenAccount,
    pub token_lp_mint: Mint,
    pub user: Address,
    pub user_token_lp: TokenAccount,
    pub user_token_a: Address,
    pub user_token_b: Address,
}

/// The product of two 64-bit values fits in 128 bits.
pub proof fn lemma_product_fits(x: u64, y: u64)
    ensures
        (x as int) * (y as int) <= u128::MAX,
{
    assert((x as int) * (y as int) <= (u64::MAX as int) * (u64::MAX as int)) by (nonlinear_arith)
        requires 0 <= x <= u64::MAX, 0 <= y <= u64::MAX;
}

/// A deposit of `(a, b)` keeps the ratio of reserves `(ra, rb)`; into a pool
/// with no B the two amounts must be equal.
pub open spec fn ratio_ok(a: int, b: int, ra: int, rb: int) -> bool {
    if rb == 0 {
        a == b
    } else {
        a * rb == b * ra
    }
}

/// Shares owed for depositing `(a, b)` into reserves `(ra, rb)` with `supply`
/// shares outstanding: the bootstrap amount into an empty pool, else the
/// deposit's part of the combined reserves, rounded down.
pub open spec fn shares_for_deposit(a: int, b: int, ra: int, rb: int, supply: int) -> int {
    if ra + rb == 0 {
        BOOTSTRAP_SHARES as int
    } else {
        (a + b) * supply / (ra + rb)
    }
}

/// A deposit whose balances or share arithmetic leave their integer types.
pub open spec fn deposit_overflows(a: int, b: int, ra: int, rb: int, supply: int) -> bool {
    ||| ra + a > u64::MAX
    ||| rb + b > u64::MAX
    ||| (ra + rb != 0 && (a + b) * supply > u128::MAX)
    ||| supply + shares_for_deposit(a, b, ra, rb, supply) > u64::MAX
}

/// Checks the ratio of a deposit against the reserves, exactly.
pub fn ratio_matches(a: u64, b: u64, ra: u64, rb: u64) -> (r: bool)
    ensures
        r == ratio_ok(a as int, b as int, ra as int, rb as int),
{
    if rb == 0 {
        a == b
    } else {
        proof {
            lemma_product_fits(a, rb);
            lemma_product_fits(b, ra);
        }
        let lhs: u128 = (a as u128) * (rb as u128);
        let rhs: u128 = (b as u128) * (ra as u128);
        lhs == rhs
    }
}

/// Shares to issue for a deposit, or `None` where the arithmetic overflows.
pub fn deposit_shares(a: u64, b: u64, ra: u64, rb: u64, supply: u64) -> (r: Option<u64>)
    ensures
        match r {
            Some(s) => !deposit_overflows(a as int, b as int, ra as int, rb as int, supply as int)
                && s == shares_for_deposit(a as int, b as int, ra as int, rb as int, supply as int),
            None => deposit_overflows(a as int, b as int, ra as int, rb as int, supply as int),
        },
{
    if a > u64::MAX - ra || b > u64::MAX - rb {
        return None;
    }
    let total: u128 = (ra as u128) + (rb as u128);
    let shares: u128;
    if total == 0 {
        shares = BOOTSTRAP_SHARES as u128;
    } else {
        let deposit: u128 = (a as u128) + (b as u128);
        match deposit.checked_mul(supply as u128) {
            None => {
                return None;
            },
            Some(p) => {
                shares = p / total;
            },
        }
    }
    if shares > (u64::MAX - supply) as u128 {
        return None;
    }
    Some(shares as u64)
}

/// The part of `reserve` owed for burning `burn` of `supply` shares, rounded
/// down.
pub open spec fn redeemed(reserve: int, burn: int, supply: int) -> int {
    reserve * burn / supply
}

/// Computes the part of a reserve owed for burned shares, multiplying before
/// dividing.
pub fn redeemed_amount(reserve: u64, burn: u64, supply: u64) -> (r: u64)
    requires
        0 < burn <= supply,
    ensures
        r == redeemed(reserve as int, burn as int, supply as int),
        r <= reserve,
{
    proof {
        lemma_product_fits(reserve, burn);
    }
    let p: u128 = (reserve as u128) * (burn as u128);
    let q: u128 = p / (supply as u128);
    proof {
        let (rv, bu, su) = (reserve as int, burn as int, supply as int);
        assert(rv * bu <= rv * su) by (nonlinear_arith)
            requires 0 <= rv, bu <= su;
        assert(rv * su / su == rv) by (nonlinear_arith)
            requires su > 0;
        vstd::arithmetic::div_mod::lemma_div_is_ordered(rv * bu, rv * su, su);
    }
    q as u64
}

/// The user's accounts of a deposit are not the pool's reserves, and the two
/// reserves differ.
pub open spec fn deposit_accounts_distinct(ctx: AddLiquidity) -> bool {
    let (ra, rb) = (ctx.token_a_reserves.key@, ctx.token_b_reserves.key@);
    &&& ra != rb
    &&& ctx.user_token_a@ != ra && ctx.user_token_a@ != rb
    &&& ctx.user_token_b@ != ra && ctx.user_token_b@ != rb
    &&& ctx.user_token_lp@ != ra && ctx.user_token_lp@ != rb
}

/// Whether the user's accounts of a deposit stay apart from the reserves,
/// and the two reserves from each other.
pub fn deposit_accounts_apart(ctx: &AddLiquidity) -> (r: bool)
    ensures
        r == deposit_accounts_distinct(*ctx),
{
    let (ra, rb) = (&ctx.token_a_reserves.key, &ctx.token_b_reserves.key);
    !same_address(ra, rb)
        && !same_address(&ctx.user_token_a, ra) && !same_address(&ctx.user_token_a, rb)
        && !same_address(&ctx.user_token_b, ra) && !same_address(&ctx.user_token_b, rb)
        && !same_address(&ctx.user_token_lp, ra) && !same_address(&ctx.user_token_lp, rb)
}

/// The first failure of a deposit, or the shares it issues.
pub open spec fn deposit_outcome(ctx: AddLiquidity, a: u64, b: u64) -> Result<u64, Errors> {
    let (ra, rb, supply) = (ctx.token_a_reserves.amount as int, ctx.token_b_reserves.amount as int,
        ctx.token_lp_mint.supply as int);
    if ctx.pool.stage != PoolStage::ReservesInitialized
        || ctx.token_a_reserves.key@ != ctx.pool.token_a_reserves@
        || ctx.token_b_reserves.key@ != ctx.pool.token_b_reserves@
        || !deposit_accounts_distinct(ctx) {
        Err(Errors::IncorrectPoolTokenAccount)
    } else if ctx.token_lp_mint.key@ != ctx.pool.token_lp_mint@ {
        Err(Errors::IncorrectLPTokenAccount)
    } else if !ratio_ok(a as int, b as int, ra, rb) {
        Err(Errors::IncorrectLiquidityRatio)
    } else if deposit_overflows(a as int, b as int, ra, rb, supply) {
        Err(Errors::ArithmeticOverflow)
    } else {
        Ok(shares_for_deposit(a as int, b as int, ra, rb, supply) as u64)
    }
}

/// The ledger calls of a deposit: both amounts into the reserves, then the
/// shares minted to the user under the pool's authority.
pub open spec fn deposit_calls(ctx: AddLiquidity, a: u64, b: u64, shares: u64, bump: u8) -> Seq<LedgerCall> {
    seq![
        LedgerCall::Transfer { from: ctx.user_token_a, to: ctx.token_a_reserves.key, amount: a, authority: Authority::User },
        LedgerCall::Transfer { from: ctx.user_token_b, to: ctx.token_b_reserves.key, amount: b, authority: Authority::User },
        LedgerCall::MintTo { mint: ctx.token_lp_mint.key, to: ctx.user_token_lp, amount: shares, authority: Authority::Pool { bump } },
    ]
}

/// The whole result of a deposit, given the bump seed of the pool's authority.
pub open spec fn deposit_result(ctx: AddLiquidity, a: u64, b: u64, bump: u8) -> Result<Seq<LedgerCall>, Errors> {
    match deposit_outcome(ctx, a, b) {
        Ok(shares) => Ok(deposit_calls(ctx, a, b, shares, bump)),
        Err(e) => Err(e),
    }
}

/// What a list of ledger calls, or an error, holds.
pub open spec fn calls_view(r: Result<Vec<LedgerCall>, Errors>) -> Result<Seq<LedgerCall>, Errors> {
    match r {
        Ok(v) => Ok(v@),
        Err(e) => Err(e),
    }
}

/// Validates a deposit and computes the shares it issues.
pub fn check_deposit(ctx: &AddLiquidity, amount_a: u64, amount_b: u64) -> (r: Result<u64, Errors>)
    ensures
        r == deposit_outcome(*ctx, amount_a, amount_b),
{
    if ctx.pool.stage != PoolStage::ReservesInitialized
        || !same_address(&ctx.token_a_reserves.key, &ctx.pool.token_a_reserves)
        || !same_address(&ctx.token_b_reserves.key, &ctx.pool.token_b_reserves)
        || !deposit_accounts_apart(ctx) {
        return Err(Errors::IncorrectPoolTokenAccount);
    }
    if !same_address(&ctx.token_lp_mint.key, &ctx.pool.token_lp_mint) {
        return Err(Errors::IncorrectLPTokenAccount);
    }
    let ra = ctx.token_a_reserves.amount;
    let rb = ctx.token_b_reserves.amount;
    if !ratio_matches(amount_a, amount_b, ra, rb) {
        return Err(Errors::IncorrectLiquidityRatio);
    }
    match deposit_shares(amount_a, amount_b, ra, rb, ctx.token_lp_mint.supply) {
        Some(shares) => Ok(shares),
        None => Err(Errors::ArithmeticOverflow),
    }
}

/// The ledger calls of a deposit, given the bump seed of the pool's authority.
pub fn plan_add_liquidity(ctx: &AddLiquidity, amount_a: u64, amount_b: u64, pool_bump: u8) -> (r: Result<Vec<LedgerCall>, Errors>)
    ensures
        calls_view(r) == deposit_result(*ctx, amount_a, amount_b, pool_bump),
{
    match check_deposit(ctx, amount_a, amount_b) {
        Err(e) => Err(e),
        Ok(shares) => {
            let mut calls: Vec<LedgerCall> = Vec::new();
            calls.push(LedgerCall::Transfer {
                from: ctx.user_token_a,
                to: ctx.token_a_reserves.key,
                amount: amount_a,
                authority: Authority::User,
            });
            calls.push(LedgerCall::Transfer {
                from: ctx.user_token_b,
                to: ctx.token_b_reserves.key,
                amount: amount_b,
                authority: Authority::User,
            });
            calls.push(LedgerCall::MintTo {
                mint: ctx.token_lp_mint.key,
                to: ctx.user_token_lp,
                amount: shares,
                authority: Authority::Pool { bump: pool_bump },
            });
            proof {
                assert(calls@ =~= deposit_calls(*ctx, amount_a, amount_b, shares, pool_bump));
            }
            Ok(calls)
        },
    }
}

/// The bump seed of a pool's authority, where one exists.
pub open spec fn pool_bump_of(pool: Pool, program_id: Seq<u8>) -> Option<u8> {
    match program_address_of(pool_seed_seq(pool.token_a_mint@, pool.token_b_mint@), program_id) {
        Some((_, bump)) => Some(bump),
        None => None,
    }
}

/// Finds the bump seed that completes the seeds of a pool's authority.
pub fn pool_bump(pool: &Pool, program_id: &Address) -> (r: Result<u8, Errors>)
    ensures
        match pool_bump_of(*pool, program_id@) {
            Some(bump) => r == Ok::<u8, Errors>(bump),
            None => r == Err::<u8, Errors>(Errors::NoViableBump),
        },
{
    let seeds = pool_authority_seeds(&pool.token_a_mint, &pool.token_b_mint);
    match derive_program_address(&seeds, program_id) {
        Ok((_, bump)) => Ok(bump),
        Err(e) => Err(e),
    }
}

/// Deposits `amount_a` and `amount_b` into the pool for newly minted shares.
/// The deposit is validated first; the pool's authority, which signs the
/// mint, is derived after.
pub fn add_liquidity(program_id: &Address, ctx: &AddLiquidity, amount_a: u64, amount_b: u64) -> (r: Result<Vec<LedgerCall>, Errors>)
    ensures
        match deposit_outcome(*ctx, amount_a, amount_b) {
            Err(e) => r == Err::<Vec<LedgerCall>, Errors>(e),
            Ok(_) => match pool_bump_of(ctx.pool, program_id@) {
                Some(bump) => calls_view(r) == deposit_result(*ctx, amount_a, amount_b, bump),
                None => r == Err::<Vec<LedgerCall>, Errors>(Errors::NoViableBump),
            },
        },
{
    if let Err(e) = check_deposit(ctx, amount_a, amount_b) {
        return Err(e);
    }
    let bump = match pool_bump(&ctx.pool, program_id) {
        Ok(bump) => bump,
        Err(e) => {
            return Err(e);
        },
    };
    plan_add_liquidity(ctx, amount_a, amount_b, bump)
}


/// The accounts of a redemption are distinct from each other where it
/// matters: the user's accounts are not the pool's reserves, which differ.
pub open spec fn withdraw_accounts_distinct(ctx: RemoveLiquidity) -> bool {
    let (ra, rb) = (ctx.token_a_reserves.key@, ctx.token_b_reserves.key@);
    &&& ra != rb
    &&& ctx.user_token_a@ != ra && ctx.user_token_a@ != rb
    &&& ctx.user_token_b@ != ra && ctx.user_token_b@ != rb
    &&& ctx.user_token_lp.key@ != ra && ctx.user_token_lp.key@ != rb
}

/// Whether the user's accounts of a redemption stay apart from the
/// reserves, and the two reserves from each other.
pub fn withdraw_accounts_apart(ctx: &RemoveLiquidity) -> (r: bool)
    ensures
        r == withdraw_accounts_distinct(*ctx),
{
    let (ra, rb) = (&ctx.token_a_reserves.key, &ctx.token_b_reserves.key);
    !same_address(ra, rb)
        && !same_address(&ctx.user_token_a, ra) && !same_address(&ctx.user_token_a, rb)
        && !same_address(&ctx.user_token_b, ra) && !same_address(&ctx.user_token_b, rb)
        && !same_address(&ctx.user_token_lp.key, ra) && !same_address(&ctx.user_token_lp.key, rb)
}

/// The first failure of a redemption, or the shares burned and the two
/// amounts owed.
pub open spec fn withdraw_outcome(ctx: RemoveLiquidity) -> Result<(u64, u64, u64), Errors> {
    let burn = ctx.user_token_lp.amount;
    let supply = ctx.token_lp_mint.supply;
    if ctx.user_token_lp.mint@ != ctx.pool.token_lp_mint@ {
        Err(Errors::IncorrectLPTokenAccount)
    } else if burn == 0 {
        Err(Errors::NoLiquidityPoolTokens)
    } else if ctx.pool.stage != PoolStage::ReservesInitialized
        || ctx.token_a_reserves.key@ != ctx.pool.token_a_reserves@
        || ctx.token_b_reserves.key@ != ctx.pool.token_b_reserves@
        || !withdraw_accounts_distinct(ctx) {
        Err(Errors::IncorrectPoolTokenAccount)
    } else if ctx.token_lp_mint.key@ != ctx.pool.token_lp_mint@ {
        Err(Errors::IncorrectLPTokenAccount)
    } else if burn > supply {
        Err(Errors::ShareSupplyMismatch)
    } else {
        Ok((
            burn,
            redeemed(ctx.token_a_reserves.amount as int, burn as int, supply as int) as u64,
            redeemed(ctx.token_b_reserves.amount as int, burn as int, supply as int) as u64,
        ))
    }
}

/// The ledger calls of a redemption: the user's shares burned, then both
/// amounts paid out of the reserves under the pool's authority.
pub open spec fn withdraw_calls(ctx: RemoveLiquidity, burn: u64, owed_a: u64, owed_b: u64, bump: u8) -> Seq<LedgerCall> {
    seq![
        LedgerCall::Burn { mint: ctx.token_lp_mint.key, from: ctx.user_token_lp.key, amount: burn, authority: Authority::User },
        LedgerCall::Transfer { from: ctx.token_a_reserves.key, to: ctx.user_token_a, amount: owed_a, authority: Authority::Pool { bump } },
        LedgerCall::Transfer { from: ctx.token_b_reserves.key, to: ctx.user_token_b, amount: owed_b, authority: Authority::Pool { bump } },
    ]
}

/// The whole result of a redemption, given the bump seed of the pool's
/// authority.
pub open spec fn withdraw_result(ctx: RemoveLiquidity, bump: u8) -> Result<Seq<LedgerCall>, Errors> {
    match withdraw_outcome(ctx) {
        Ok((burn, owed_a, owed_b)) => Ok(withdraw_calls(ctx, burn, owed_a, owed_b, bump)),
        Err(e) => Err(e),
    }
}

/// Validates a redemption and computes the shares burned and amounts owed.
pub fn check_withdrawal(ctx: &RemoveLiquidity) -> (r: Result<(u64, u64, u64), Errors>)
    ensures
        r == withdraw_outcome(*ctx),
{
    let burn = ctx.user_token_lp.amount;
    let supply = ctx.token_lp_mint.supply;
    if !same_address(&ctx.user_token_lp.mint, &ctx.pool.token_lp_mint) {
        return Err(Errors::IncorrectLPTokenAccount);
    }
    if burn == 0 {
        return Err(Errors::NoLiquidityPoolTokens);
    }
    if ctx.pool.stage != PoolStage::ReservesInitialized
        || !same_address(&ctx.token_a_reserves.key, &ctx.pool.token_a_reserves)
        || !same_address(&ctx.token_b_reserves.key, &ctx.pool.token_b_reserves)
        || !withdraw_accounts_apart(ctx) {
        return Err(Errors::IncorrectPoolTokenAccount);
    }
    if !same_address(&ctx.token_lp_mint.key, &ctx.pool.token_lp_mint) {
        return Err(Errors::IncorrectLPTokenAccount);
    }
    if burn > supply {
        return Err(Errors::ShareSupplyMismatch);
    }
    let owed_a = redeemed_amount(ctx.token_a_reserves.amount, burn, supply);
    let owed_b = redeemed_amount(ctx.token_b_reserves.amount, burn, supply);
    Ok((burn, owed_a, owed_b))
}

/// The ledger calls of a redemption, given the bump seed of the pool's
/// authority.
pub fn plan_remove_liquidity(ctx: &RemoveLiquidity, pool_bump: u8) -> (r: Result<Vec<LedgerCall>, Errors>)
    ensures
        calls_view(r) == withdraw_result(*ctx, pool_bump),
{
    match check_withdrawal(ctx) {
        Err(e) => Err(e),
        Ok((burn, owed_a, owed_b)) => {
            let mut calls: Vec<LedgerCall> = Vec::new();
            calls.push(LedgerCall::Burn {
                mint: ctx.token_lp_mint.key,
                from: ctx.user_token_lp.key,
                amount: burn,
                authority: Authority::User,
            });
            calls.push(LedgerCall::Transfer {
                from: ctx.token_a_reserves.key,
                to: ctx.user_token_a,
                amount: owed_a,
                authority: Authority::Pool { bump: pool_bump },
            });
            calls.push(LedgerCall::Transfer {
                from: ctx.token_b_reserves.key,
                to: ctx.user_token_b,
                amount: owed_b,
                authority: Authority::Pool { bump: pool_bump },
            });
            proof {
                assert(calls@ =~= withdraw_calls(*ctx, burn, owed_a, owed_b, pool_bump));
            }
            Ok(calls)
        },
    }
}

/// Redeems the caller's whole share balance for its part of both reserves.
/// The redemption is validated first; the pool's authority, which signs the
/// payouts, is derived after.
pub fn remove_liquidity(program_id: &Address, ctx: &RemoveLiquidity) -> (r: Result<Vec<LedgerCall>, Errors>)
    ensures
        match withdraw_outcome(*ctx) {
            Err(e) => r == Err::<Vec<LedgerCall>, Errors>(e),
            Ok(_) => match pool_bump_of(ctx.pool, program_id@) {
                Some(bump) => calls_view(r) == withdraw_result(*ctx, bump),
                None => r == Err::<Vec<LedgerCall>, Errors>(Errors::NoViableBump),
            },
        },
{
    if let Err(e) = check_withdrawal(ctx) {
        return Err(e);
    }
    let bump = match pool_bump(&ctx.pool, program_id) {
        Ok(bump) => bump,
        Err(e) => {
            return Err(e);
        },
    };
    plan_remove_liquidity(ctx, bump)
}

} // verus!
