use vstd::prelude::*;
use crate::address::{Address, derive_program_address, pool_authority_seeds, pool_seed_seq, program_address_of, same_address};
use crate::error::Errors;
use crate::ledger::TokenAccount;

verus! {

/// How far a pool has been set up.
#[derive(Clone, Copy, Debug, PartialEq, Eq, Structural)]
pub enum PoolStage {
    /// Assets and share mint are recorded; the reserves are not yet.
    BaseInitialized,
    /// Reserves are recorded too: the pool trades.
    ReservesInitialized,
}

/// The record of one pool.
#[derive(Clone, Copy, Debug)]
pub struct Pool {
    pub token_a_mint: Address,
    pub token_b_mint: Address,
    pub token_a_reserves: Address,
    pub token_b_reserves: Address,
    pub token_lp_mint: Address,
    pub stage: PoolStage,
}


/// The accounts that create a pool.
#[derive(Clone, Copy, Debug)]
pub struct InitializePool {
    pub token_a_mint: Address,
    pub token_b_mint: Address,
    pub token_lp_mint: Address,
    pub user: Address,
}

/// The accounts that record a pool's reserves.
#[derive(Clone, Copy, Debug)]
pub struct InitializePoolReserves {
    pub token_a_reserves: TokenAccount,
    pub token_b_reserves: TokenAccount,
    pub user: Address,
}

/// A pool with the address derived for it.
#[derive(Clone, Copy, Debug)]
pub struct PoolEntry {
    pub key: Address,
    pub pool: Pool,
}

/// The pools that exist, at most one per unordered pair of assets.
pub struct Registry {
    pub entries: Vec<PoolEntry>,
}

/// The pool trades the unordered pair `{a, b}`.
pub open spec fn trades_pair(pool: Pool, a: Seq<u8>, b: Seq<u8>) -> bool {
    (pool.token_a_mint@ == a && pool.token_b_mint@ == b) || (pool.token_a_mint@ == b && pool.token_b_mint@ == a)
}

/// An entry already holds the address `key` or the pair `{a, b}`.
pub open spec fn pair_taken(entries: Seq<PoolEntry>, a: Seq<u8>, b: Seq<u8>, key: Seq<u8>) -> bool {
    exists|i: int| 0 <= i < entries.len() && (entries[i].key@ == key || trades_pair(entries[i].pool, a, b))
}

impl Registry {
    /// Addresses are distinct, pairs are distinct, and each pool trades two
    /// different assets.
    pub open spec fn wf(&self) -> bool {
        &&& forall|i: int| 0 <= i < self.entries@.len()
            ==> self.entries@[i].pool.token_a_mint@ != self.entries@[i].pool.token_b_mint@
        &&& forall|i: int, j: int|
            #![trigger self.entries@[i], self.entries@[j]]
            0 <= i < j < self.entries@.len() ==> {
            &&& self.entries@[i].key@ != self.entries@[j].key@
            &&& !trades_pair(self.entries@[i].pool, self.entries@[j].pool.token_a_mint@,
                self.entries@[j].pool.token_b_mint@)
        }
    }

    /// A registry with no pools.
    pub fn new() -> (r: Registry)
        ensures
            r.wf(),
            r.entries@.len() == 0,
    {
        Registry { entries: Vec::new() }
    }

    /// Whether an entry holds the address `key` or the pair `{a, b}`.
    pub fn is_taken(&self, a: &Address, b: &Address, key: &Address) -> (r: bool)
        ensures
            r == pair_taken(self.entries@, a@, b@, key@),
    {
        let mut i: usize = 0;
        while i < self.entries.len()
            invariant
                0 <= i <= self.entries@.len(),
                forall|j: int| 0 <= j < i ==> !(self.entries@[j].key@ == key@
                    || trades_pair(self.entries@[j].pool, a@, b@)),
            decreases self.entries@.len() - i,
        {
            let e = &self.entries[i];
            if same_address(&e.key, key)
                || (same_address(&e.pool.token_a_mint, a) && same_address(&e.pool.token_b_mint, b))
                || (same_address(&e.pool.token_a_mint, b) && same_address(&e.pool.token_b_mint, a)) {
                return true;
            }
            i = i + 1;
        }
        false
    }
}

/// The bare record of a new pool: its assets and share mint. The reserves
/// are not yet recorded, and their fields are not read until they are.
pub open spec fn is_new_pool(pool: Pool, ctx: InitializePool) -> bool {
    &&& pool.token_a_mint == ctx.token_a_mint
    &&& pool.token_b_mint == ctx.token_b_mint
    &&& pool.token_lp_mint == ctx.token_lp_mint
    &&& pool.stage == PoolStage::BaseInitialized
}

/// Creates the pool of `ctx`'s two assets at its derived address and returns
/// that address. A second pool for the same unordered pair, or at the same
/// address, is refused.
pub fn initialize_pool(registry: &mut Registry, program_id: &Address, ctx: &InitializePool) -> (r: Result<Address, Errors>)
    requires
        old(registry).wf(),
    ensures
        final(registry).wf(),
        ctx.token_a_mint@ == ctx.token_b_mint@ ==> r == Err::<Address, Errors>(Errors::IdenticalAssets),
        ctx.token_a_mint@ != ctx.token_b_mint@ ==> match program_address_of(
            pool_seed_seq(ctx.token_a_mint@, ctx.token_b_mint@), program_id@) {
            None => r == Err::<Address, Errors>(Errors::NoViableBump),
            Some((key, _)) => if pair_taken(old(registry).entries@, ctx.token_a_mint@, ctx.token_b_mint@, key) {
                r == Err::<Address, Errors>(Errors::PoolAlreadyExists)
            } else {
                &&& r matches Ok(k) && k@ == key
                &&& final(registry).entries@.len() == old(registry).entries@.len() + 1
                &&& final(registry).entries@.drop_last() == old(registry).entries@
                &&& final(registry).entries@.last().key@ == key
                &&& is_new_pool(final(registry).entries@.last().pool, *ctx)
            },
        },
        r is Err ==> final(registry).entries@ == old(registry).entries@,
{
    if same_address(&ctx.token_a_mint, &ctx.token_b_mint) {
        return Err(Errors::IdenticalAssets);
    }
    let seeds = pool_authority_seeds(&ctx.token_a_mint, &ctx.token_b_mint);
    let key = match derive_program_address(&seeds, program_id) {
        Ok((key, _)) => key,
        Err(e) => {
            return Err(e);
        },
    };
    if registry.is_taken(&ctx.token_a_mint, &ctx.token_b_mint, &key) {
        return Err(Errors::PoolAlreadyExists);
    }
    let pool = Pool {
        token_a_mint: ctx.token_a_mint,
        token_b_mint: ctx.token_b_mint,
        token_a_reserves: Address { bytes: [0u8; 32] },
        token_b_reserves: Address { bytes: [0u8; 32] },
        token_lp_mint: ctx.token_lp_mint,
        stage: PoolStage::BaseInitialized,
    };
    let ghost before = registry.entries@;
    registry.entries.push(PoolEntry { key, pool });
    proof {
        let entry = PoolEntry { key, pool };
        assert(before == old(registry).entries@);
        assert(registry.entries@ == before.push(entry));
        assert(registry.entries@.drop_last() =~= before);
        assert forall|i: int, j: int| 0 <= i < j < registry.entries@.len() implies {
            &&& registry.entries@[i].key@ != registry.entries@[j].key@
            &&& !trades_pair(registry.entries@[i].pool, registry.entries@[j].pool.token_a_mint@,
                registry.entries@[j].pool.token_b_mint@)
        } by {
            assert(registry.entries@[i] == before[i]);
            if j == before.len() {
                assert(registry.entries@[j] == entry);
                assert(!(0 <= i < before.len() && (before[i].key@ == key@
                    || trades_pair(before[i].pool, ctx.token_a_mint@, ctx.token_b_mint@))));
            } else {
                assert(registry.entries@[j] == before[j]);
                assert(before[i].key@ != before[j].key@);
                assert(!trades_pair(before[i].pool, before[j].pool.token_a_mint@, before[j].pool.token_b_mint@));
            }
        }
        assert forall|i: int| 0 <= i < registry.entries@.len() implies
            registry.entries@[i].pool.token_a_mint@ != registry.entries@[i].pool.token_b_mint@ by {
            if i < before.len() {
                assert(registry.entries@[i] == before[i]);
            }
        }
    }
    Ok(key)
}

/// Records the two reserve accounts of a pool that has its base record,
/// once each holds its asset and is controlled by `authority`, the pool's
/// derived authority.
pub open spec fn reserves_outcome(ctx: InitializePoolReserves, authority: Seq<u8>) -> Result<(), Errors> {
    if ctx.token_a_reserves.owner@ != authority || ctx.token_b_reserves.owner@ != authority {
        Err(Errors::IncorrectReserveAuthority)
    } else {
        Ok(())
    }
}

/// The checks of reserve initialization that come before the pool's
/// authority is derived.
pub open spec fn reserves_precheck(pool: Pool, ctx: InitializePoolReserves) -> Result<(), Errors> {
    if pool.stage != PoolStage::BaseInitialized {
        Err(Errors::InvalidPoolState)
    } else if ctx.token_a_reserves.mint@ != pool.token_a_mint@ || ctx.token_b_reserves.mint@ != pool.token_b_mint@ {
        Err(Errors::IncorrectReserveMint)
    } else {
        Ok(())
    }
}

/// Records the reserve accounts of `pool` and makes it operational. Each
/// reserve must hold the pool's asset and be controlled by the pool's
/// authority, derived from `"pool"` and the two assets under `program_id`.
pub fn initialize_pool_reserves(program_id: &Address, pool: &mut Pool, ctx: &InitializePoolReserves) -> (r: Result<(), Errors>)
    ensures
        match reserves_precheck(*old(pool), *ctx) {
            Err(e) => r == Err::<(), Errors>(e),
            Ok(_) => match program_address_of(pool_seed_seq(old(pool).token_a_mint@, old(pool).token_b_mint@), program_id@) {
                None => r == Err::<(), Errors>(Errors::NoViableBump),
                Some((authority, _)) => r == reserves_outcome(*ctx, authority),
            },
        },
        r is Err ==> *final(pool) == *old(pool),
        r is Ok ==> *final(pool) == (Pool {
            token_a_reserves: ctx.token_a_reserves.key,
            token_b_reserves: ctx.token_b_reserves.key,
            stage: PoolStage::ReservesInitialized,
            ..*old(pool)
        }),
{
    if pool.stage != PoolStage::BaseInitialized {
        return Err(Errors::InvalidPoolState);
    }
    if !same_address(&ctx.token_a_reserves.mint, &pool.token_a_mint)
        || !same_address(&ctx.token_b_reserves.mint, &pool.token_b_mint) {
        return Err(Errors::IncorrectReserveMint);
    }
    let seeds = pool_authority_seeds(&pool.token_a_mint, &pool.token_b_mint);
    let authority = match derive_program_address(&seeds, program_id) {
        Ok((key, _)) => key,
        Err(e) => {
            return Err(e);
        },
    };
    if !same_address(&ctx.token_a_reserves.owner, &authority)
        || !same_address(&ctx.token_b_reserves.owner, &authority) {
        return Err(Errors::IncorrectReserveAuthority);
    }
    pool.token_a_reserves = ctx.token_a_reserves.key;
    pool.token_b_reserves = ctx.token_b_reserves.key;
    pool.stage = PoolStage::ReservesInitialized;
    Ok(())
}

} // verus!
