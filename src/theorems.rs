use vstd::prelude::*;
use crate::error::Errors;
use crate::ledger::{
    LedgerCall, balance_change, balances_after, lemma_balance_change_three,
    lemma_balance_change_two, lemma_total_update, supply_change, total,
};
use crate::liquidity::{
    AddLiquidity, deposit_accounts_distinct, withdraw_accounts_distinct, BOOTSTRAP_SHARES, RemoveLiquidity, deposit_outcome, deposit_result, withdraw_outcome,
    withdraw_result,
};
use crate::pool::PoolStage;
use crate::swap::{Swap, swap_accounts_distinct, effective_amount_in, swap_outcome, swap_result};

verus! {

/// The submitted reserves and share mint of a deposit are the pool's own,
/// the user's accounts are apart from them, and the pool trades.
pub open spec fn deposit_accounts_match(ctx: AddLiquidity) -> bool {
    &&& ctx.pool.stage == PoolStage::ReservesInitialized
    &&& ctx.token_a_reserves.key@ == ctx.pool.token_a_reserves@
    &&& ctx.token_b_reserves.key@ == ctx.pool.token_b_reserves@
    &&& ctx.token_lp_mint.key@ == ctx.pool.token_lp_mint@
    &&& deposit_accounts_distinct(ctx)
}

/// A deposit that succeeds raises reserve A by exactly `a` and reserve B by
/// exactly `b`.
pub proof fn lemma_deposit_raises_reserves(ctx: AddLiquidity, a: u64, b: u64, bump: u8)
    requires
        deposit_outcome(ctx, a, b) is Ok,
    ensures
        deposit_result(ctx, a, b, bump) matches Ok(calls) && {
            &&& balance_change(calls, ctx.token_a_reserves.key@) == a
            &&& balance_change(calls, ctx.token_b_reserves.key@) == b
        },
{
    assert(deposit_accounts_distinct(ctx));
    let calls = deposit_result(ctx, a, b, bump)->Ok_0;
    lemma_balance_change_three(calls[0], calls[1], calls[2], ctx.token_a_reserves.key@);
    lemma_balance_change_three(calls[0], calls[1], calls[2], ctx.token_b_reserves.key@);
    assert(calls =~= seq![calls[0], calls[1], calls[2]]);
}

/// Into an empty pool, with no shares out, the first deposit succeeds if and
/// only if both amounts are equal, and then issues the bootstrap shares.
pub proof fn lemma_bootstrap_deposit(ctx: AddLiquidity, a: u64, b: u64)
    requires
        deposit_accounts_match(ctx),
        ctx.token_a_reserves.amount == 0,
        ctx.token_b_reserves.amount == 0,
        ctx.token_lp_mint.supply == 0,
    ensures
        (deposit_outcome(ctx, a, b) is Ok) == (a == b),
        a == b ==> deposit_outcome(ctx, a, b) == Ok::<u64, Errors>(BOOTSTRAP_SHARES),
        a != b ==> deposit_outcome(ctx, a, b) == Err::<u64, Errors>(Errors::IncorrectLiquidityRatio),
{
}

/// Where the holders' share balances sum to the share supply, a deposit that
/// succeeds keeps them summing to the supply after it.
pub proof fn lemma_deposit_conserves_shares(
    ctx: AddLiquidity,
    a: u64,
    b: u64,
    bump: u8,
    holders: Seq<Seq<u8>>,
    balances: Seq<int>,
)
    requires
        deposit_outcome(ctx, a, b) is Ok,
        holders.no_duplicates(),
        holders.len() == balances.len(),
        holders.contains(ctx.user_token_lp@),
        !holders.contains(ctx.user_token_a@),
        !holders.contains(ctx.user_token_b@),
        !holders.contains(ctx.token_a_reserves.key@),
        !holders.contains(ctx.token_b_reserves.key@),
        total(balances) == ctx.token_lp_mint.supply,
    ensures
        deposit_result(ctx, a, b, bump) matches Ok(calls) && total(balances_after(holders, balances, calls))
            == ctx.token_lp_mint.supply + supply_change(calls, ctx.token_lp_mint.key@),
{
    assert(deposit_accounts_distinct(ctx));
    let calls = deposit_result(ctx, a, b, bump)->Ok_0;
    let shares = deposit_outcome(ctx, a, b)->Ok_0;
    assert(calls =~= seq![calls[0], calls[1], calls[2]]);
    let u = holders.index_of(ctx.user_token_lp@);
    lemma_balance_change_three(calls[0], calls[1], calls[2], ctx.token_lp_mint.key@);
    let after = balances_after(holders, balances, calls);
    assert forall|k: int| 0 <= k < holders.len() && k != u implies balance_change(calls, holders[k]) == 0 by {
        lemma_balance_change_three(calls[0], calls[1], calls[2], holders[k]);
    }
    lemma_balance_change_three(calls[0], calls[1], calls[2], holders[u]);
    assert(after =~= balances.update(u, balances[u] + shares));
    lemma_total_update(balances, u, balances[u] + shares);
}

/// Where the holders' share balances sum to the share supply, a redemption
/// that succeeds keeps them summing to the supply after it.
pub proof fn lemma_withdraw_conserves_shares(
    ctx: RemoveLiquidity,
    bump: u8,
    holders: Seq<Seq<u8>>,
    balances: Seq<int>,
)
    requires
        withdraw_outcome(ctx) is Ok,
        holders.no_duplicates(),
        holders.len() == balances.len(),
        holders.contains(ctx.user_token_lp.key@),
        balances[holders.index_of(ctx.user_token_lp.key@)] == ctx.user_token_lp.amount,
        !holders.contains(ctx.user_token_a@),
        !holders.contains(ctx.user_token_b@),
        !holders.contains(ctx.token_a_reserves.key@),
        !holders.contains(ctx.token_b_reserves.key@),
        total(balances) == ctx.token_lp_mint.supply,
    ensures
        withdraw_result(ctx, bump) matches Ok(calls) && total(balances_after(holders, balances, calls))
            == ctx.token_lp_mint.supply + supply_change(calls, ctx.token_lp_mint.key@),
{
    assert(withdraw_accounts_distinct(ctx));
    let calls = withdraw_result(ctx, bump)->Ok_0;
    assert(calls =~= seq![calls[0], calls[1], calls[2]]);
    let u = holders.index_of(ctx.user_token_lp.key@);
    lemma_balance_change_three(calls[0], calls[1], calls[2], ctx.token_lp_mint.key@);
    let after = balances_after(holders, balances, calls);
    assert forall|k: int| 0 <= k < holders.len() && k != u implies balance_change(calls, holders[k]) == 0 by {
        lemma_balance_change_three(calls[0], calls[1], calls[2], holders[k]);
    }
    lemma_balance_change_three(calls[0], calls[1], calls[2], holders[u]);
    assert(after =~= balances.update(u, 0));
    lemma_total_update(balances, u, 0);
}

/// A provider who deposits `(a, a)` alone into an empty pool and at once
/// redeems every share received gets back exactly `(a, a)`. (An unequal
/// first deposit is refused, so there is nothing to redeem.)
pub proof fn lemma_round_trip(dep: AddLiquidity, a: u64, b: u64, wd: RemoveLiquidity)
    requires
        deposit_accounts_match(dep),
        dep.token_a_reserves.amount == 0,
        dep.token_b_reserves.amount == 0,
        dep.token_lp_mint.supply == 0,
        a == b,
        wd.pool == dep.pool,
        wd.token_a_reserves == (crate::ledger::TokenAccount { amount: a, ..dep.token_a_reserves }),
        wd.token_b_reserves == (crate::ledger::TokenAccount { amount: b, ..dep.token_b_reserves }),
        wd.token_lp_mint == (crate::ledger::Mint { supply: BOOTSTRAP_SHARES, ..dep.token_lp_mint }),
        wd.user_token_lp.amount == BOOTSTRAP_SHARES,
        wd.user_token_lp.mint@ == dep.pool.token_lp_mint@,
        withdraw_accounts_distinct(wd),
    ensures
        deposit_outcome(dep, a, b) == Ok::<u64, Errors>(BOOTSTRAP_SHARES),
        withdraw_outcome(wd) == Ok::<(u64, u64, u64), Errors>((BOOTSTRAP_SHARES, a, b)),
{
    let s = BOOTSTRAP_SHARES as int;
    assert((a as int) * s / s == a) by (nonlinear_arith)
        requires s > 0;
    assert((b as int) * s / s == b) by (nonlinear_arith)
        requires s > 0;
}

/// A swap's rounding loss is covered by its fee: the remainder of the
/// pricing division is at most the fee times the output reserve kept.
pub open spec fn fee_covers_rounding(amount_in: int, in_bal: int, out_bal: int) -> bool {
    let d = in_bal + effective_amount_in(amount_in);
    (in_bal * out_bal) % d <= (amount_in - effective_amount_in(amount_in)) * ((in_bal * out_bal) / d)
}

/// A swap that succeeds never shrinks the product of the two reserves, on
/// every input where the fee covers the rounding of the output; and only
/// there: elsewhere the rounded-down pricing quotient makes the product fall.
pub proof fn lemma_swap_keeps_product(ctx: Swap, amount_in: u64, bump: u8)
    requires
        swap_outcome(ctx, amount_in) is Ok,
    ensures
        swap_result(ctx, amount_in, bump) matches Ok(calls) && {
            let in_before = ctx.token_in_reserves.amount as int;
            let out_before = ctx.token_out_reserves.amount as int;
            let in_after = in_before + balance_change(calls, ctx.token_in_reserves.key@);
            let out_after = out_before + balance_change(calls, ctx.token_out_reserves.key@);
            (in_after * out_after >= in_before * out_before)
                == fee_covers_rounding(amount_in as int, in_before, out_before)
        },
{
    assert(swap_accounts_distinct(ctx));
    let calls = swap_result(ctx, amount_in, bump)->Ok_0;
    assert(calls =~= seq![calls[0], calls[1]]);
    lemma_balance_change_two(calls[0], calls[1], ctx.token_in_reserves.key@);
    lemma_balance_change_two(calls[0], calls[1], ctx.token_out_reserves.key@);
    let i = ctx.token_in_reserves.amount as int;
    let o = ctx.token_out_reserves.amount as int;
    let a = amount_in as int;
    let e = effective_amount_in(a);
    assert(0 <= e <= a) by (nonlinear_arith)
        requires e == a * 997 / 1000, a >= 0;
    let d = i + e;
    let q = (i * o) / d;
    let r = (i * o) % d;
    vstd::arithmetic::div_mod::lemma_fundamental_div_mod(i * o, d);
    assert(i * o == d * q + r);
    assert(i * o <= d * o) by (nonlinear_arith)
        requires 0 < i <= d, 0 <= o;
    assert(d * o / d == o) by (nonlinear_arith)
        requires d > 0;
    vstd::arithmetic::div_mod::lemma_div_is_ordered(i * o, d * o, d);
    assert(0 <= q <= o);
    assert(calls[1] == (LedgerCall::Transfer {
        from: ctx.token_out_reserves.key,
        to: ctx.user_token_out,
        amount: (o - q) as u64,
        authority: crate::ledger::Authority::Pool { bump },
    }));
    assert(balance_change(calls, ctx.token_in_reserves.key@) == a);
    assert(balance_change(calls, ctx.token_out_reserves.key@) == -(o - q));
    assert((i + a) * q == d * q + (a - e) * q) by (nonlinear_arith)
        requires d == i + e;
}

/// A swap against an empty reserve fails with the no-liquidity error and
/// issues no ledger call, so both reserves stay as they are.
pub proof fn lemma_empty_reserve_refuses_swap(ctx: Swap, amount_in: u64, bump: u8)
    requires
        ctx.token_in_reserves.amount == 0 || ctx.token_out_reserves.amount == 0,
    ensures
        swap_outcome(ctx, amount_in) == Err::<u64, Errors>(Errors::NoLiquidityInPool),
        swap_result(ctx, amount_in, bump) == Err::<Seq<LedgerCall>, Errors>(Errors::NoLiquidityInPool),
{
}

/// A deposit naming a reserve that the pool does not record (a pool whose
/// reserves are not yet recorded records none) is refused with the account
/// error, before any ledger call.
pub proof fn lemma_deposit_refuses_foreign_reserve(ctx: AddLiquidity, a: u64, b: u64, bump: u8)
    requires
        ctx.pool.stage != PoolStage::ReservesInitialized
            || ctx.token_a_reserves.key@ != ctx.pool.token_a_reserves@
            || ctx.token_b_reserves.key@ != ctx.pool.token_b_reserves@,
    ensures
        deposit_result(ctx, a, b, bump) == Err::<Seq<LedgerCall>, Errors>(Errors::IncorrectPoolTokenAccount),
{
}

/// A redemption of a non-zero balance of the pool's shares naming a reserve
/// that the pool does not record (a pool whose reserves are not yet recorded
/// records none) is refused with the account error, before any ledger call.
pub proof fn lemma_withdraw_refuses_foreign_reserve(ctx: RemoveLiquidity, bump: u8)
    requires
        ctx.user_token_lp.mint@ == ctx.pool.token_lp_mint@,
        ctx.user_token_lp.amount > 0,
        ctx.pool.stage != PoolStage::ReservesInitialized
            || ctx.token_a_reserves.key@ != ctx.pool.token_a_reserves@
            || ctx.token_b_reserves.key@ != ctx.pool.token_b_reserves@,
    ensures
        withdraw_result(ctx, bump) == Err::<Seq<LedgerCall>, Errors>(Errors::IncorrectPoolTokenAccount),
{
}

/// A swap against non-empty reserves, where the two submitted reserves are
/// not the pool's recorded pair in either order (a pool whose reserves are
/// not yet recorded records none), is refused with the account error,
/// before any ledger call.
pub proof fn lemma_swap_refuses_foreign_reserve(ctx: Swap, amount_in: u64, bump: u8)
    requires
        ctx.token_in_reserves.amount > 0,
        ctx.token_out_reserves.amount > 0,
        ctx.pool.stage != PoolStage::ReservesInitialized || !((ctx.token_in_reserves.key@ == ctx.pool.token_a_reserves@
            && ctx.token_out_reserves.key@ == ctx.pool.token_b_reserves@)
            || (ctx.token_in_reserves.key@ == ctx.pool.token_b_reserves@
            && ctx.token_out_reserves.key@ == ctx.pool.token_a_reserves@)),
    ensures
        swap_result(ctx, amount_in, bump) == Err::<Seq<LedgerCall>, Errors>(Errors::IncorrectPoolTokenAccount),
{
}

} // verus!
