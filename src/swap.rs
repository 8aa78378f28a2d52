use vstd::prelude::*;
use crate::address::{Address, same_address};
use crate::error::Errors;
use crate::ledger::{Authority, LedgerCall, TokenAccount};
use crate::liquidity::{calls_view, lemma_product_fits, pool_bump, pool_bump_of};
use crate::pool::{Pool, PoolStage};

verus! {

/// Numerator of the swap fee, 0.3%.
pub const FEE_NUMERATOR: u64 = 3;

/// Denominator of the swap fee.
pub const FEE_DENOMINATOR: u64 = 1000;

/// The accounts of a swap.
#[derive(Clone, Copy, Debug)]
pub struct Swap {
    pub pool: Pool,
    pub token_in_reserves: TokenAccount,
    pub token_out_reserves: TokenAccount,
    pub user: Address,
    pub user_token_in: Address,
    pub user_token_out: Address,
}

/// The part of an input that is priced: the input less the fee, rounded down.
pub open spec fn effective_amount_in(amount_in: int) -> int {
    amount_in * (FEE_DENOMINATOR - FEE_NUMERATOR) / (FEE_DENOMINATOR as int)
}

/// The output of a swap under the constant-product rule: what the output
/// reserve holds beyond `in_bal * out_bal / (in_bal + effective_in)`, that
/// quotient rounded down.
pub open spec fn swap_amount_out(amount_in: int, in_bal: int, out_bal: int) -> int {
    out_bal - (in_bal * out_bal) / (in_bal + effective_amount_in(amount_in))
}

/// Prices a swap of `amount_in` against reserves `in_bal` and `out_bal`.
pub fn swap_output(amount_in: u64, in_bal: u64, out_bal: u64) -> (r: u64)
    requires
        in_bal > 0,
    ensures
        r == swap_amount_out(amount_in as int, in_bal as int, out_bal as int),
        r <= out_bal,
{
    proof {
        lemma_product_fits(in_bal, out_bal);
        lemma_product_fits(amount_in, (FEE_DENOMINATOR - FEE_NUMERATOR) as u64);
    }
    let product: u128 = (in_bal as u128) * (out_bal as u128);
    let effective: u128 = (amount_in as u128) * ((FEE_DENOMINATOR - FEE_NUMERATOR) as u128)
        / (FEE_DENOMINATOR as u128);
    proof {
        assert(effective <= amount_in) by (nonlinear_arith)
            requires effective == (amount_in as int) * 997 / 1000, amount_in >= 0;
    }
    let denom: u128 = (in_bal as u128) + effective;
    let kept: u128 = product / denom;
    proof {
        let (i, o, d) = (in_bal as int, out_bal as int, denom as int);
        assert(i * o <= d * o) by (nonlinear_arith)
            requires 0 < i <= d, 0 <= o;
        assert(d * o / d == o) by (nonlinear_arith)
            requires d > 0;
        vstd::arithmetic::div_mod::lemma_div_is_ordered(i * o, d * o, d);
        assert(i * o / d == kept);
    }
    out_bal - kept as u64
}

/// The user's accounts of a swap are not the pool's reserves, which differ.
pub open spec fn swap_accounts_distinct(ctx: Swap) -> bool {
    let (ri, ro) = (ctx.token_in_reserves.key@, ctx.token_out_reserves.key@);
    &&& ri != ro
    &&& ctx.user_token_in@ != ri && ctx.user_token_in@ != ro
    &&& ctx.user_token_out@ != ri && ctx.user_token_out@ != ro
}

/// Whether the user's accounts of a swap stay apart from the reserves, and
/// the two reserves from each other.
pub fn swap_accounts_apart(ctx: &Swap) -> (r: bool)
    ensures
        r == swap_accounts_distinct(*ctx),
{
    let (ri, ro) = (&ctx.token_in_reserves.key, &ctx.token_out_reserves.key);
    !same_address(ri, ro)
        && !same_address(&ctx.user_token_in, ri) && !same_address(&ctx.user_token_in, ro)
        && !same_address(&ctx.user_token_out, ri) && !same_address(&ctx.user_token_out, ro)
}

/// The first failure of a swap, or its output.
pub open spec fn swap_outcome(ctx: Swap, amount_in: u64) -> Result<u64, Errors> {
    let (in_bal, out_bal) = (ctx.token_in_reserves.amount, ctx.token_out_reserves.amount);
    let (kin, kout) = (ctx.token_in_reserves.key@, ctx.token_out_reserves.key@);
    if in_bal == 0 || out_bal == 0 {
        Err(Errors::NoLiquidityInPool)
    } else if ctx.pool.stage != PoolStage::ReservesInitialized || !((kin == ctx.pool.token_a_reserves@ && kout == ctx.pool.token_b_reserves@)
        || (kin == ctx.pool.token_b_reserves@ && kout == ctx.pool.token_a_reserves@))
        || !swap_accounts_distinct(ctx) {
        Err(Errors::IncorrectPoolTokenAccount)
    } else if in_bal + amount_in > u64::MAX {
        Err(Errors::ArithmeticOverflow)
    } else {
        Ok(swap_amount_out(amount_in as int, in_bal as int, out_bal as int) as u64)
    }
}

/// The ledger calls of a swap: the input into its reserve, then the output
/// paid out of the other under the pool's authority.
pub open spec fn swap_calls(ctx: Swap, amount_in: u64, amount_out: u64, bump: u8) -> Seq<LedgerCall> {
    seq![
        LedgerCall::Transfer { from: ctx.user_token_in, to: ctx.token_in_reserves.key, amount: amount_in, authority: Authority::User },
        LedgerCall::Transfer { from: ctx.token_out_reserves.key, to: ctx.user_token_out, amount: amount_out, authority: Authority::Pool { bump } },
    ]
}

/// The whole result of a swap, given the bump seed of the pool's authority.
pub open spec fn swap_result(ctx: Swap, amount_in: u64, bump: u8) -> Result<Seq<LedgerCall>, Errors> {
    match swap_outcome(ctx, amount_in) {
        Ok(out) => Ok(swap_calls(ctx, amount_in, out, bump)),
        Err(e) => Err(e),
    }
}

/// Validates a swap and prices it.
pub fn check_swap(ctx: &Swap, amount_in: u64) -> (r: Result<u64, Errors>)
    ensures
        r == swap_outcome(*ctx, amount_in),
{
    let in_bal = ctx.token_in_reserves.amount;
    let out_bal = ctx.token_out_reserves.amount;
    if in_bal == 0 || out_bal == 0 {
        return Err(Errors::NoLiquidityInPool);
    }
    let kin = &ctx.token_in_reserves.key;
    let kout = &ctx.token_out_reserves.key;
    let a_to_b = same_address(kin, &ctx.pool.token_a_reserves) && same_address(kout, &ctx.pool.token_b_reserves);
    let b_to_a = same_address(kin, &ctx.pool.token_b_reserves) && same_address(kout, &ctx.pool.token_a_reserves);
    if ctx.pool.stage != PoolStage::ReservesInitialized || !(a_to_b || b_to_a) || !swap_accounts_apart(ctx) {
        return Err(Errors::IncorrectPoolTokenAccount);
    }
    if amount_in > u64::MAX - in_bal {
        return Err(Errors::ArithmeticOverflow);
    }
    Ok(swap_output(amount_in, in_bal, out_bal))
}

/// The ledger calls of a swap, given the bump seed of the pool's authority.
pub fn plan_swap(ctx: &Swap, amount_in: u64, pool_bump: u8) -> (r: Result<Vec<LedgerCall>, Errors>)
    ensures
        calls_view(r) == swap_result(*ctx, amount_in, pool_bump),
{
    match check_swap(ctx, amount_in) {
        Err(e) => Err(e),
        Ok(amount_out) => {
            let mut calls: Vec<LedgerCall> = Vec::new();
            calls.push(LedgerCall::Transfer {
                from: ctx.user_token_in,
                to: ctx.token_in_reserves.key,
                amount: amount_in,
                authority: Authority::User,
            });
            calls.push(LedgerCall::Transfer {
                from: ctx.token_out_reserves.key,
                to: ctx.user_token_out,
                amount: amount_out,
                authority: Authority::Pool { bump: pool_bump },
            });
            proof {
                assert(calls@ =~= swap_calls(*ctx, amount_in, amount_out, pool_bump));
            }
            Ok(calls)
        },
    }
}

/// Swaps `amount_in` of one asset for the other at the constant-product
/// price less the fee. The swap is validated first; the pool's authority,
/// which signs the payout, is derived after.
pub fn swap(program_id: &Address, ctx: &Swap, amount_in: u64) -> (r: Result<Vec<LedgerCall>, Errors>)
    ensures
        match swap_outcome(*ctx, amount_in) {
            Err(e) => r == Err::<Vec<LedgerCall>, Errors>(e),
            Ok(_) => match pool_bump_of(ctx.pool, program_id@) {
                Some(bump) => calls_view(r) == swap_result(*ctx, amount_in, bump),
                None => r == Err::<Vec<LedgerCall>, Errors>(Errors::NoViableBump),
            },
        },
{
    if let Err(e) = check_swap(ctx, amount_in) {
        return Err(e);
    }
    let bump = match pool_bump(&ctx.pool, program_id) {
        Ok(bump) => bump,
        Err(e) => {
            return Err(e);
        },
    };
    plan_swap(ctx, amount_in, bump)
}

} // verus!
