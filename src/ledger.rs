use vstd::prelude::*;
use crate::address::Address;

verus! {

/// What the pool reads of a token account.
#[derive(Clone, Copy, Debug)]
pub struct TokenAccount {
    pub key: Address,
    pub mint: Address,
    pub owner: Address,
    pub amount: u64,
}

/// What the pool reads of a token mint.
#[derive(Clone, Copy, Debug)]
pub struct Mint {
    pub key: Address,
    pub supply: u64,
}

/// Who signs a ledger call: the calling user, or the pool's derived
/// authority with the bump seed that completes its seeds.
#[derive(Clone, Copy, Debug)]
pub enum Authority {
    User,
    Pool { bump: u8 },
}

/// One call into the token ledger.
#[derive(Clone, Copy, Debug)]
pub enum LedgerCall {
    Transfer { from: Address, to: Address, amount: u64, authority: Authority },
    MintTo { mint: Address, to: Address, amount: u64, authority: Authority },
    Burn { mint: Address, from: Address, amount: u64, authority: Authority },
}

/// How much one call changes the token balance of `account`.
pub open spec fn call_balance_change(call: LedgerCall, account: Seq<u8>) -> int {
    match call {
        LedgerCall::Transfer { from, to, amount, .. } =>
            (if to@ == account { amount as int } else { 0 }) - (if from@ == account { amount as int } else { 0 }),
        LedgerCall::MintTo { to, amount, .. } => if to@ == account { amount as int } else { 0 },
        LedgerCall::Burn { from, amount, .. } => if from@ == account { -(amount as int) } else { 0 },
    }
}

/// How much a list of calls changes the token balance of `account`.
pub open spec fn balance_change(calls: Seq<LedgerCall>, account: Seq<u8>) -> int
    decreases calls.len(),
{
    if calls.len() == 0 {
        0
    } else {
        balance_change(calls.drop_last(), account) + call_balance_change(calls.last(), account)
    }
}

/// How much one call changes the supply of `mint`.
pub open spec fn call_supply_change(call: LedgerCall, mint: Seq<u8>) -> int {
    match call {
        LedgerCall::MintTo { mint: m, amount, .. } => if m@ == mint { amount as int } else { 0 },
        LedgerCall::Burn { mint: m, amount, .. } => if m@ == mint { -(amount as int) } else { 0 },
        LedgerCall::Transfer { .. } => 0,
    }
}

/// How much a list of calls changes the supply of `mint`.
pub open spec fn supply_change(calls: Seq<LedgerCall>, mint: Seq<u8>) -> int
    decreases calls.len(),
{
    if calls.len() == 0 {
        0
    } else {
        supply_change(calls.drop_last(), mint) + call_supply_change(calls.last(), mint)
    }
}


/// The balance change of three calls is the sum of theirs.
pub proof fn lemma_balance_change_three(c0: LedgerCall, c1: LedgerCall, c2: LedgerCall, account: Seq<u8>)
    ensures
        balance_change(seq![c0, c1, c2], account) == call_balance_change(c0, account)
            + call_balance_change(c1, account) + call_balance_change(c2, account),
        supply_change(seq![c0, c1, c2], account) == call_supply_change(c0, account)
            + call_supply_change(c1, account) + call_supply_change(c2, account),
{
    lemma_balance_change_two(c0, c1, account);
    let s = seq![c0, c1, c2];
    assert(s.drop_last() =~= seq![c0, c1]);
    assert(s.last() == c2);
    assert(balance_change(s, account) == balance_change(seq![c0, c1], account) + call_balance_change(c2, account));
    assert(supply_change(s, account) == supply_change(seq![c0, c1], account) + call_supply_change(c2, account));
}

/// The balance change of two calls is the sum of theirs.
pub proof fn lemma_balance_change_two(c0: LedgerCall, c1: LedgerCall, account: Seq<u8>)
    ensures
        balance_change(seq![c0, c1], account) == call_balance_change(c0, account) + call_balance_change(c1, account),
        supply_change(seq![c0, c1], account) == call_supply_change(c0, account) + call_supply_change(c1, account),
{
    let s1 = seq![c0];
    let s2 = seq![c0, c1];
    assert(s1.drop_last() =~= Seq::<LedgerCall>::empty());
    assert(balance_change(Seq::<LedgerCall>::empty(), account) == 0);
    assert(supply_change(Seq::<LedgerCall>::empty(), account) == 0);
    assert(s1.last() == c0);
    assert(balance_change(s1, account) == call_balance_change(c0, account));
    assert(supply_change(s1, account) == call_supply_change(c0, account));
    assert(s2.drop_last() =~= s1);
    assert(s2.last() == c1);
    assert(balance_change(s2, account) == balance_change(s1, account) + call_balance_change(c1, account));
    assert(supply_change(s2, account) == supply_change(s1, account) + call_supply_change(c1, account));
}

/// The sum of a list of balances.
pub open spec fn total(s: Seq<int>) -> int
    decreases s.len(),
{
    if s.len() == 0 {
        0
    } else {
        total(s.drop_last()) + s.last()
    }
}

/// Replacing one balance changes the sum by the difference.
pub proof fn lemma_total_update(s: Seq<int>, u: int, v: int)
    requires
        0 <= u < s.len(),
    ensures
        total(s.update(u, v)) == total(s) - s[u] + v,
    decreases s.len(),
{
    if u == s.len() - 1 {
        assert(s.update(u, v).drop_last() =~= s.drop_last());
    } else {
        lemma_total_update(s.drop_last(), u, v);
        assert(s.update(u, v).drop_last() =~= s.drop_last().update(u, v));
    }
}

/// The balances of `holders` once `calls` have been carried out.
pub open spec fn balances_after(holders: Seq<Seq<u8>>, balances: Seq<int>, calls: Seq<LedgerCall>) -> Seq<int> {
    Seq::new(balances.len(), |k: int| balances[k] + balance_change(calls, holders[k]))
}

} // verus!
