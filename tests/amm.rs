use amm::{
    AddLiquidity, Address, address_before, Authority, Errors, InitializePool, InitializePoolReserves, LedgerCall, Mint, Pool,
    PoolStage, Registry, RemoveLiquidity, Swap, TokenAccount, BOOTSTRAP_SHARES, add_liquidity, check_deposit,
    check_swap, check_withdrawal, deposit_shares, derive_program_address, initialize_pool,
    initialize_pool_reserves, plan_add_liquidity, plan_remove_liquidity, plan_swap, pool_authority_seeds,
    pool_bump, ratio_matches, reserve_authority_seeds, share_mint_seeds, redeemed_amount, remove_liquidity, same_address, swap, swap_output,
};

fn addr(n: u8) -> Address {
    Address { bytes: [n; 32] }
}

const PROGRAM: u8 = 200;
const MINT_A: u8 = 1;
const MINT_B: u8 = 2;
const MINT_LP: u8 = 3;
const RES_A: u8 = 10;
const RES_B: u8 = 11;
const POOL_KEY: u8 = 20;
const USER: u8 = 30;
const USER_A: u8 = 31;
const USER_B: u8 = 32;
const USER_LP: u8 = 33;

fn operational_pool() -> Pool {
    Pool {
        token_a_mint: addr(MINT_A),
        token_b_mint: addr(MINT_B),
        token_a_reserves: addr(RES_A),
        token_b_reserves: addr(RES_B),
        token_lp_mint: addr(MINT_LP),
        stage: PoolStage::ReservesInitialized,
    }
}

fn reserve(key: u8, mint: u8, amount: u64) -> TokenAccount {
    TokenAccount { key: addr(key), mint: addr(mint), owner: addr(POOL_KEY), amount }
}

fn deposit_ctx(ra: u64, rb: u64, supply: u64) -> AddLiquidity {
    AddLiquidity {
        pool: operational_pool(),
        token_lp_mint: Mint { key: addr(MINT_LP), supply },
        token_a_reserves: reserve(RES_A, MINT_A, ra),
        token_b_reserves: reserve(RES_B, MINT_B, rb),
        user: addr(USER),
        user_token_a: addr(USER_A),
        user_token_b: addr(USER_B),
        user_token_lp: addr(USER_LP),
    }
}

fn withdraw_ctx(ra: u64, rb: u64, supply: u64, held: u64) -> RemoveLiquidity {
    RemoveLiquidity {
        pool: operational_pool(),
        token_a_reserves: reserve(RES_A, MINT_A, ra),
        token_b_reserves: reserve(RES_B, MINT_B, rb),
        token_lp_mint: Mint { key: addr(MINT_LP), supply },
        user: addr(USER),
        user_token_lp: TokenAccount { key: addr(USER_LP), mint: addr(MINT_LP), owner: addr(USER), amount: held },
        user_token_a: addr(USER_A),
        user_token_b: addr(USER_B),
    }
}

fn swap_ctx(in_bal: u64, out_bal: u64) -> Swap {
    Swap {
        pool: operational_pool(),
        token_in_reserves: reserve(RES_A, MINT_A, in_bal),
        token_out_reserves: reserve(RES_B, MINT_B, out_bal),
        user: addr(USER),
        user_token_in: addr(USER_A),
        user_token_out: addr(USER_B),
    }
}

fn transfer_amount(call: &LedgerCall) -> u64 {
    match call {
        LedgerCall::Transfer { amount, .. } => *amount,
        _ => panic!("expected a transfer"),
    }
}

fn mint_amount(call: &LedgerCall) -> u64 {
    match call {
        LedgerCall::MintTo { amount, .. } => *amount,
        _ => panic!("expected a mint"),
    }
}

#[test]
fn swap_scenario_thousand_reserves() {
    assert_eq!(swap_output(100, 1000, 1000), 91);
    assert_eq!(check_swap(&swap_ctx(1000, 1000), 100), Ok(91));
    let calls = plan_swap(&swap_ctx(1000, 1000), 100, 254).unwrap();
    assert_eq!(calls.len(), 2);
    assert_eq!(transfer_amount(&calls[0]), 100);
    assert_eq!(transfer_amount(&calls[1]), 91);
}

#[test]
fn swap_fee_rounds_effective_input_down() {
    // 997 of 1000 is priced: an input of 1 prices as nothing.
    assert_eq!(swap_output(1, 1000, 1000), 0);
    assert_eq!(swap_output(1000, 1000, 1000), 1000 - 1000000 / 1997);
}

#[test]
fn swap_product_grows_on_ordinary_trade() {
    let (i, o, a) = (1000u64, 1000u64, 2000u64);
    let out = swap_output(a, i, o);
    assert_eq!(out, 666);
    assert_eq!(((i + a) as u128) * ((o - out) as u128), 1_002_000);
}

#[test]
fn swap_product_can_fall_when_rounding_exceeds_fee() {
    // One unit of a scarce asset for ten of a plentiful one.
    let (i, o, a) = (1000u64, 2u64, 10u64);
    let out = swap_output(a, i, o);
    assert_eq!(out, 1);
    assert!(((i + a) as u128) * ((o - out) as u128) < (i as u128) * (o as u128));
    // The same holds of the thousand-unit scenario: 1100 * 909 < 1000 * 1000.
    let out = swap_output(100, 1000, 1000);
    assert_eq!((1100u128) * ((1000 - out) as u128), 999_900);
}

#[test]
fn swap_against_empty_reserve_fails() {
    assert_eq!(check_swap(&swap_ctx(0, 1000), 10), Err(Errors::NoLiquidityInPool));
    assert_eq!(check_swap(&swap_ctx(1000, 0), 10), Err(Errors::NoLiquidityInPool));
    assert!(plan_swap(&swap_ctx(0, 0), 10, 1).is_err());
}

#[test]
fn swap_reverse_direction_accepted() {
    let mut ctx = swap_ctx(500, 2000);
    ctx.token_in_reserves = reserve(RES_B, MINT_B, 500);
    ctx.token_out_reserves = reserve(RES_A, MINT_A, 2000);
    assert_eq!(check_swap(&ctx, 100), Ok(swap_output(100, 500, 2000)));
}

#[test]
fn swap_with_foreign_reserve_fails() {
    let mut ctx = swap_ctx(1000, 1000);
    ctx.token_out_reserves = reserve(99, MINT_B, 1000);
    assert_eq!(plan_swap(&ctx, 100, 1).unwrap_err(), Errors::IncorrectPoolTokenAccount);
    let mut same = swap_ctx(1000, 1000);
    same.token_out_reserves = reserve(RES_A, MINT_A, 1000);
    assert_eq!(check_swap(&same, 100), Err(Errors::IncorrectPoolTokenAccount));
}

#[test]
fn swap_input_overflow_fails() {
    assert_eq!(check_swap(&swap_ctx(u64::MAX, 10), 1), Err(Errors::ArithmeticOverflow));
}

#[test]
fn swap_in_unready_pool_fails() {
    let mut ctx = swap_ctx(1000, 1000);
    ctx.pool.stage = PoolStage::BaseInitialized;
    assert_eq!(check_swap(&ctx, 10), Err(Errors::IncorrectPoolTokenAccount));
}

#[test]
fn ratio_check_is_exact() {
    assert!(ratio_matches(5, 5, 0, 0));
    assert!(!ratio_matches(5, 6, 0, 0));
    assert!(ratio_matches(100, 200, 1000, 2000));
    // Truncating division would take 3/2 == 1 == 1000/999; cross-multiplying does not.
    assert!(!ratio_matches(3, 2, 1000, 999));
    assert!(ratio_matches(0, 0, 1000, 999));
}

#[test]
fn bootstrap_deposit_issues_one_share() {
    assert_eq!(BOOTSTRAP_SHARES, 1_000_000_000);
    assert_eq!(check_deposit(&deposit_ctx(0, 0, 0), 500, 500), Ok(BOOTSTRAP_SHARES));
    assert_eq!(check_deposit(&deposit_ctx(0, 0, 0), 500, 499), Err(Errors::IncorrectLiquidityRatio));
}

#[test]
fn proportional_deposit_issues_its_share() {
    // (100 + 200) * 3000 / (1000 + 2000)
    assert_eq!(deposit_shares(100, 200, 1000, 2000, 3000), Some(300));
    // Rounded down: (1 + 1) * 10 / 3
    assert_eq!(deposit_shares(1, 1, 2, 1, 10), Some(6));
    assert_eq!(check_deposit(&deposit_ctx(1000, 2000, 3000), 100, 200), Ok(300));
}

#[test]
fn deposit_raises_reserves_by_amounts() {
    let ctx = deposit_ctx(1000, 2000, 3000);
    let calls = plan_add_liquidity(&ctx, 100, 200, 7).unwrap();
    assert_eq!(calls.len(), 3);
    match calls[0] {
        LedgerCall::Transfer { from, to, amount, authority: Authority::User } => {
            assert!(same_address(&from, &addr(USER_A)));
            assert!(same_address(&to, &addr(RES_A)));
            assert_eq!(amount, 100);
        }
        _ => panic!("expected the transfer of A"),
    }
    match calls[1] {
        LedgerCall::Transfer { from, to, amount, authority: Authority::User } => {
            assert!(same_address(&from, &addr(USER_B)));
            assert!(same_address(&to, &addr(RES_B)));
            assert_eq!(amount, 200);
        }
        _ => panic!("expected the transfer of B"),
    }
    match calls[2] {
        LedgerCall::MintTo { mint, to, amount, authority: Authority::Pool { bump } } => {
            assert!(same_address(&mint, &addr(MINT_LP)));
            assert!(same_address(&to, &addr(USER_LP)));
            assert_eq!(amount, 300);
            assert_eq!(bump, 7);
        }
        _ => panic!("expected the share mint"),
    }
}

#[test]
fn deposit_with_foreign_reserve_fails() {
    let mut ctx = deposit_ctx(1000, 1000, 1000);
    ctx.token_b_reserves = reserve(99, MINT_B, 1000);
    assert_eq!(plan_add_liquidity(&ctx, 10, 10, 1).unwrap_err(), Errors::IncorrectPoolTokenAccount);
}

#[test]
fn deposit_with_foreign_share_mint_fails() {
    let mut ctx = deposit_ctx(1000, 1000, 1000);
    ctx.token_lp_mint = Mint { key: addr(98), supply: 1000 };
    assert_eq!(check_deposit(&ctx, 10, 10), Err(Errors::IncorrectLPTokenAccount));
}

#[test]
fn deposit_out_of_ratio_fails() {
    assert_eq!(check_deposit(&deposit_ctx(1000, 2000, 3000), 100, 100), Err(Errors::IncorrectLiquidityRatio));
}

#[test]
fn deposit_overflow_fails() {
    assert_eq!(check_deposit(&deposit_ctx(u64::MAX, u64::MAX, 1), 1, 1), Err(Errors::ArithmeticOverflow));
    assert_eq!(deposit_shares(1, 1, u64::MAX - 1, u64::MAX - 1, 1), Some(0));
    assert_eq!(deposit_shares(0, 0, 0, 0, u64::MAX), None);
}

#[test]
fn deposit_in_unready_pool_fails() {
    let mut ctx = deposit_ctx(0, 0, 0);
    ctx.pool.stage = PoolStage::BaseInitialized;
    assert_eq!(check_deposit(&ctx, 1, 1), Err(Errors::IncorrectPoolTokenAccount));
}

#[test]
fn redemption_multiplies_before_dividing() {
    assert_eq!(redeemed_amount(1000, 250, 1000), 250);
    assert_eq!(redeemed_amount(10, 1, 3), 3);
    assert_eq!(redeemed_amount(u64::MAX, u64::MAX, u64::MAX), u64::MAX);
    assert_eq!(check_withdrawal(&withdraw_ctx(1000, 3000, 4000, 1000)), Ok((1000, 250, 750)));
}

#[test]
fn redemption_round_trip_returns_deposit() {
    let a = 123_456u64;
    let shares = check_deposit(&deposit_ctx(0, 0, 0), a, a).unwrap();
    let calls = plan_remove_liquidity(&withdraw_ctx(a, a, shares, shares), 9).unwrap();
    assert_eq!(calls.len(), 3);
    match calls[0] {
        LedgerCall::Burn { amount, authority: Authority::User, .. } => assert_eq!(amount, shares),
        _ => panic!("expected the burn"),
    }
    assert_eq!(transfer_amount(&calls[1]), a);
    assert_eq!(transfer_amount(&calls[2]), a);
}

#[test]
fn share_supply_conserved_over_deposits_and_redemptions() {
    // Two providers: the first bootstraps, the second doubles the pool.
    let first = check_deposit(&deposit_ctx(0, 0, 0), 1000, 1000).unwrap();
    let supply = first;
    let second = check_deposit(&deposit_ctx(1000, 1000, supply), 1000, 1000).unwrap();
    let supply = supply + second;
    assert_eq!(first + second, supply);
    let calls = plan_remove_liquidity(&withdraw_ctx(2000, 2000, supply, first), 1).unwrap();
    let burned = match calls[0] {
        LedgerCall::Burn { amount, .. } => amount,
        _ => panic!("expected the burn"),
    };
    assert_eq!(supply - burned, second);
    assert_eq!(transfer_amount(&calls[1]), 1000);
}

#[test]
fn redemption_without_shares_fails() {
    assert_eq!(check_withdrawal(&withdraw_ctx(1000, 1000, 1000, 0)), Err(Errors::NoLiquidityPoolTokens));
}

#[test]
fn redemption_with_foreign_accounts_fails() {
    let mut ctx = withdraw_ctx(1000, 1000, 1000, 10);
    ctx.token_a_reserves = reserve(99, MINT_A, 1000);
    assert_eq!(plan_remove_liquidity(&ctx, 1).unwrap_err(), Errors::IncorrectPoolTokenAccount);
    let mut ctx = withdraw_ctx(1000, 1000, 1000, 10);
    ctx.token_lp_mint = Mint { key: addr(98), supply: 1000 };
    assert_eq!(check_withdrawal(&ctx), Err(Errors::IncorrectLPTokenAccount));
}

#[test]
fn redemption_in_unready_pool_fails() {
    let mut ctx = withdraw_ctx(1000, 1000, 1000, 10);
    ctx.pool.stage = PoolStage::BaseInitialized;
    ctx.pool.token_a_reserves = addr(0);
    ctx.pool.token_b_reserves = addr(0);
    assert_eq!(check_withdrawal(&ctx), Err(Errors::IncorrectPoolTokenAccount));
}

#[test]
fn redemption_of_foreign_token_fails() {
    let mut ctx = withdraw_ctx(1000, 1000, 1000, 10);
    ctx.user_token_lp.mint = addr(MINT_A);
    assert_eq!(check_withdrawal(&ctx), Err(Errors::IncorrectLPTokenAccount));
    ctx.user_token_lp.amount = 0;
    assert_eq!(check_withdrawal(&ctx), Err(Errors::IncorrectLPTokenAccount));
}

#[test]
fn redemption_beyond_supply_fails() {
    assert_eq!(check_withdrawal(&withdraw_ctx(1000, 1000, 10, 11)), Err(Errors::ShareSupplyMismatch));
}

#[test]
fn derivation_matches_anchor_lang() {
    let program = addr(PROGRAM);
    let seeds = pool_authority_seeds(&addr(MINT_A), &addr(MINT_B));
    assert_eq!(seeds.len(), 3);
    assert_eq!(seeds[0], b"pool".to_vec());
    let (key, bump) = derive_program_address(&seeds, &program).unwrap();
    let expected = anchor_lang::prelude::Pubkey::find_program_address(
        &[b"pool", &[MINT_A; 32], &[MINT_B; 32]],
        &anchor_lang::prelude::Pubkey::new_from_array([PROGRAM; 32]),
    );
    assert_eq!(key.bytes, expected.0.to_bytes());
    assert_eq!(bump, expected.1);
    assert!(!same_address(&key, &program));
    assert_eq!(pool_bump(&operational_pool(), &program), Ok(bump));
}

#[test]
fn derivation_of_oversized_seed_fails() {
    let seeds = vec![vec![7u8; 33]];
    assert_eq!(derive_program_address(&seeds, &addr(PROGRAM)).unwrap_err(), Errors::NoViableBump);
}

#[test]
fn operations_sign_with_derived_bump() {
    let program = addr(PROGRAM);
    let bump = pool_bump(&operational_pool(), &program).unwrap();
    let calls = add_liquidity(&program, &deposit_ctx(0, 0, 0), 50, 50).unwrap();
    assert_eq!(mint_amount(&calls[2]), BOOTSTRAP_SHARES);
    match calls[2] {
        LedgerCall::MintTo { authority: Authority::Pool { bump: b }, .. } => assert_eq!(b, bump),
        _ => panic!("expected the share mint"),
    }
    let calls = remove_liquidity(&program, &withdraw_ctx(50, 50, BOOTSTRAP_SHARES, BOOTSTRAP_SHARES)).unwrap();
    assert_eq!(transfer_amount(&calls[1]), 50);
    let calls = swap(&program, &swap_ctx(1000, 1000), 100).unwrap();
    assert_eq!(transfer_amount(&calls[1]), 91);
    assert_eq!(swap(&program, &swap_ctx(0, 1000), 100).unwrap_err(), Errors::NoLiquidityInPool);
}

#[test]
fn pool_creation_is_unique_per_pair() {
    let program = addr(PROGRAM);
    let mut registry = Registry::new();
    let ctx = InitializePool { token_a_mint: addr(MINT_A), token_b_mint: addr(MINT_B), token_lp_mint: addr(MINT_LP), user: addr(USER) };
    let key = initialize_pool(&mut registry, &program, &ctx).unwrap();
    assert_eq!(registry.entries.len(), 1);
    assert!(same_address(&registry.entries[0].key, &key));
    assert_eq!(registry.entries[0].pool.stage, PoolStage::BaseInitialized);
    assert_eq!(initialize_pool(&mut registry, &program, &ctx), Err(Errors::PoolAlreadyExists));
    let swapped = InitializePool { token_a_mint: addr(MINT_B), token_b_mint: addr(MINT_A), ..ctx };
    let (swapped_key, _) = derive_program_address(&pool_authority_seeds(&addr(MINT_B), &addr(MINT_A)), &program).unwrap();
    assert_eq!(swapped_key, key);
    assert_eq!(pool_authority_seeds(&addr(MINT_B), &addr(MINT_A)), pool_authority_seeds(&addr(MINT_A), &addr(MINT_B)));
    assert_eq!(initialize_pool(&mut registry, &program, &swapped), Err(Errors::PoolAlreadyExists));
    assert_eq!(registry.entries.len(), 1);
    let other = InitializePool { token_b_mint: addr(4), ..ctx };
    assert!(initialize_pool(&mut registry, &program, &other).is_ok());
    assert_eq!(registry.entries.len(), 2);
}

#[test]
fn pool_of_one_asset_is_refused() {
    let mut registry = Registry::new();
    let ctx = InitializePool { token_a_mint: addr(MINT_A), token_b_mint: addr(MINT_A), token_lp_mint: addr(MINT_LP), user: addr(USER) };
    assert_eq!(initialize_pool(&mut registry, &addr(PROGRAM), &ctx), Err(Errors::IdenticalAssets));
}

#[test]
fn reserves_initialization_checks_mint_and_authority() {
    let program = addr(PROGRAM);
    let (authority, _) = derive_program_address(&pool_authority_seeds(&addr(MINT_A), &addr(MINT_B)), &program).unwrap();
    let held = |key: u8, mint: u8| TokenAccount { key: addr(key), mint: addr(mint), owner: authority, amount: 0 };
    let mut pool = operational_pool();
    pool.stage = PoolStage::BaseInitialized;
    let good = InitializePoolReserves {
        token_a_reserves: held(RES_A, MINT_A),
        token_b_reserves: held(RES_B, MINT_B),
        user: addr(USER),
    };
    let wrong_mint = InitializePoolReserves { token_b_reserves: held(RES_B, MINT_A), ..good };
    assert_eq!(initialize_pool_reserves(&program, &mut pool, &wrong_mint), Err(Errors::IncorrectReserveMint));
    // An account controlled by some other key, even the one a caller names.
    let wrong_owner = InitializePoolReserves { token_a_reserves: reserve(RES_A, MINT_A, 0), ..good };
    assert_eq!(initialize_pool_reserves(&program, &mut pool, &wrong_owner), Err(Errors::IncorrectReserveAuthority));
    assert_eq!(pool.stage, PoolStage::BaseInitialized);
    assert_eq!(initialize_pool_reserves(&program, &mut pool, &good), Ok(()));
    assert_eq!(pool.stage, PoolStage::ReservesInitialized);
    assert!(same_address(&pool.token_a_reserves, &addr(RES_A)));
    assert!(same_address(&pool.token_b_reserves, &addr(RES_B)));
    assert_eq!(initialize_pool_reserves(&program, &mut pool, &good), Err(Errors::InvalidPoolState));
}

#[test]
fn pool_seeds_put_assets_in_byte_order() {
    assert!(address_before(&addr(1), &addr(2)));
    assert!(!address_before(&addr(2), &addr(1)));
    assert!(!address_before(&addr(2), &addr(2)));
    let mut late = [5u8; 32];
    late[31] = 6;
    assert!(address_before(&addr(5), &Address { bytes: late }));
    let seeds = pool_authority_seeds(&addr(9), &addr(4));
    assert_eq!(seeds, vec![b"pool".to_vec(), vec![4u8; 32], vec![9u8; 32]]);
}

#[test]
fn reserve_and_share_mint_addresses_match_anchor_lang() {
    let program = addr(PROGRAM);
    let anchor_program = anchor_lang::prelude::Pubkey::new_from_array([PROGRAM; 32]);
    let seeds = reserve_authority_seeds(&addr(MINT_A), &addr(POOL_KEY));
    assert_eq!(seeds[0], b"reserves".to_vec());
    let (key, bump) = derive_program_address(&seeds, &program).unwrap();
    let expected = anchor_lang::prelude::Pubkey::find_program_address(
        &[b"reserves", &[MINT_A; 32], &[POOL_KEY; 32]],
        &anchor_program,
    );
    assert_eq!(key.bytes, expected.0.to_bytes());
    assert_eq!(bump, expected.1);
    let seeds = share_mint_seeds(&addr(POOL_KEY));
    assert_eq!(seeds, vec![b"mint".to_vec(), vec![POOL_KEY; 32]]);
    let (key, _) = derive_program_address(&seeds, &program).unwrap();
    let expected = anchor_lang::prelude::Pubkey::find_program_address(&[b"mint", &[POOL_KEY; 32]], &anchor_program);
    assert_eq!(key.bytes, expected.0.to_bytes());
}

#[test]
fn user_account_naming_a_reserve_is_refused() {
    let mut ctx = deposit_ctx(1000, 1000, 1000);
    ctx.user_token_a = addr(RES_A);
    assert_eq!(check_deposit(&ctx, 10, 10), Err(Errors::IncorrectPoolTokenAccount));
    let mut ctx = withdraw_ctx(1000, 1000, 1000, 10);
    ctx.user_token_b = addr(RES_A);
    assert_eq!(check_withdrawal(&ctx), Err(Errors::IncorrectPoolTokenAccount));
    let mut ctx = swap_ctx(1000, 1000);
    ctx.user_token_out = addr(RES_B);
    assert_eq!(check_swap(&ctx, 10), Err(Errors::IncorrectPoolTokenAccount));
}
