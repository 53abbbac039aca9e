use stellar_defi_hub::staking::{
    add_to_reward_pool, distribute_rewards, get_claimable_rewards, update_staking_pool,
    update_staking_position, ClaimOutcome, SwapPlan,
};
use stellar_defi_hub::{Address, HubError, StakingPool, StellarDeFiHub, UserPosition};

fn hub() -> StellarDeFiHub {
    let mut hub = StellarDeFiHub::new();
    hub.initialize(Address::new("ADMIN"), 0).unwrap();
    hub
}

fn pool(total: u128, last: u64) -> StakingPool {
    StakingPool {
        total_staked: total,
        reward_rate: 1000,
        last_update_time: last,
        reward_per_token_stored: 0,
        total_rewards_distributed: 0,
    }
}

#[test]
fn fresh_pool_has_the_default_rate() {
    assert_eq!(StellarDeFiHub::get_staking_pool(None, 42), pool(0, 42));
    let stored = StakingPool {
        total_staked: 5,
        reward_rate: 7,
        last_update_time: 1,
        reward_per_token_stored: 2,
        total_rewards_distributed: 3,
    };
    assert_eq!(StellarDeFiHub::get_staking_pool(Some(stored), 42), stored);
}

#[test]
fn fresh_position_is_empty() {
    let position = StellarDeFiHub::get_user_position(None, 42);
    assert_eq!(position.supplied_assets.len(), 0);
    assert_eq!(position.borrowed_assets.len(), 0);
    assert_eq!(position.staked_lp_tokens.len(), 0);
    assert_eq!(position.rewards_earned, 0);
    assert_eq!(position.last_reward_update, 42);
    let mut stored = UserPosition::new(7);
    stored.rewards_earned = 9;
    let loaded = StellarDeFiHub::get_user_position(Some(stored), 42);
    assert_eq!(loaded.rewards_earned, 9);
    assert_eq!(loaded.last_reward_update, 7);
    assert_eq!(get_claimable_rewards(&loaded), 9);
}

#[test]
fn staked_amount_earns_the_base_rate_per_day() {
    let hub = hub();
    let token = Address::new("bUSDC");
    let mut position = UserPosition::new(100);
    let mut stake_pool = pool(0, 100);
    hub.stake_btokens(&mut position, &mut stake_pool, &token, 5_000_000, 100).unwrap();
    assert_eq!(hub.update_user_rewards(&mut position, &token, 100 + 43_200), Ok(()));
    assert_eq!(position.rewards_earned, 2_500);
    assert_eq!(position.last_reward_update, 43_300);
    assert_eq!(hub.update_user_rewards(&mut position, &token, 43_300), Ok(()));
    assert_eq!(position.rewards_earned, 2_500);
}

#[test]
fn settlement_uses_the_stored_rate() {
    let mut hub = hub();
    hub.update_reward_rate(&Address::new("ADMIN"), 2_000).unwrap();
    let token = Address::new("bUSDC");
    let mut position = UserPosition::new(0);
    update_staking_position(&mut position, &token, 2_500_000_000, true).unwrap();
    hub.update_user_rewards(&mut position, &token, 3_600).unwrap();
    assert_eq!(position.rewards_earned, 208_333);
    let bare = StellarDeFiHub::new();
    let mut other = UserPosition::new(0);
    update_staking_position(&mut other, &token, 2_500_000_000, true).unwrap();
    bare.update_user_rewards(&mut other, &token, 3_600).unwrap();
    assert_eq!(other.rewards_earned, 104_166);
}

#[test]
fn settlement_without_stake_only_moves_the_clock() {
    let hub = hub();
    let mut position = UserPosition::new(10);
    hub.update_user_rewards(&mut position, &Address::new("bUSDC"), 500_000).unwrap();
    assert_eq!(position.rewards_earned, 0);
    assert_eq!(position.last_reward_update, 500_000);
}

#[test]
fn settlement_before_the_last_one_fails_and_changes_nothing() {
    let hub = hub();
    let token = Address::new("bUSDC");
    let mut position = UserPosition::new(1_000);
    let mut stake_pool = pool(0, 1_000);
    assert_eq!(hub.update_user_rewards(&mut position, &token, 999), Err(HubError::Arithmetic));
    assert_eq!(position.last_reward_update, 1_000);
    assert_eq!(
        hub.stake_btokens(&mut position, &mut stake_pool, &token, 5, 999),
        Err(HubError::Arithmetic)
    );
    assert_eq!(position.staked_lp_tokens.len(), 0);
    assert_eq!(stake_pool, pool(0, 1_000));
}

#[test]
fn pool_accumulates_rate_times_elapsed_over_total() {
    let mut stake_pool = pool(300, 0);
    assert_eq!(update_staking_pool(&mut stake_pool, 200, true, 86_400), Ok(()));
    assert_eq!(stake_pool.reward_per_token_stored, 288_000);
    assert_eq!(stake_pool.total_staked, 500);
    assert_eq!(stake_pool.last_update_time, 86_400);
    assert_eq!(stake_pool.reward_rate, 1000);
    assert_eq!(update_staking_pool(&mut stake_pool, 1_000, true, 86_450), Ok(()));
    assert_eq!(stake_pool.reward_per_token_stored, 288_100);
    assert_eq!(stake_pool.total_staked, 1_500);
}

#[test]
fn empty_pool_does_not_accumulate() {
    let mut stake_pool = pool(0, 500);
    assert_eq!(update_staking_pool(&mut stake_pool, 10, true, 100), Ok(()));
    assert_eq!(stake_pool.reward_per_token_stored, 0);
    assert_eq!(stake_pool.total_staked, 10);
    assert_eq!(stake_pool.last_update_time, 100);
    assert_eq!(update_staking_pool(&mut stake_pool, 10, true, 99), Err(HubError::Arithmetic));
    assert_eq!(stake_pool.last_update_time, 100);
}

#[test]
fn pool_total_never_falls_below_zero() {
    let mut stake_pool = pool(300, 0);
    assert_eq!(update_staking_pool(&mut stake_pool, 301, false, 0), Ok(()));
    assert_eq!(stake_pool.total_staked, 0);
    let mut full = pool(u128::MAX, 0);
    assert_eq!(update_staking_pool(&mut full, 1, true, 0), Err(HubError::Arithmetic));
    assert_eq!(full, pool(u128::MAX, 0));
}

#[test]
fn stake_then_unstake_at_once_changes_nothing() {
    let hub = hub();
    let token = Address::new("bUSDC");
    let mut position = UserPosition::new(50);
    let mut stake_pool = pool(700, 50);
    stake_pool.reward_per_token_stored = 11;
    let mut reserve: u128 = 1_000;
    update_staking_position(&mut position, &token, 40, true).unwrap();
    hub.stake_btokens(&mut position, &mut stake_pool, &token, 5_000_000, 50).unwrap();
    assert_eq!(stake_pool.total_staked, 5_000_700);
    assert_eq!(position.staked_lp_tokens.get(&token), Some(5_000_040));
    let outcome = hub
        .unstake_and_claim(&mut position, &mut stake_pool, &mut reserve, &token, 5_000_000, 50)
        .unwrap();
    assert_eq!(outcome, ClaimOutcome { rewards: 0, paid: 0 });
    assert_eq!(stake_pool.total_staked, 700);
    assert_eq!(stake_pool.reward_per_token_stored, 11);
    assert_eq!(position.staked_lp_tokens.get(&token), Some(40));
    assert_eq!(position.rewards_earned, 0);
    assert_eq!(reserve, 1_000);
}

#[test]
fn unstake_pays_rewards_from_the_reserve() {
    let hub = hub();
    let token = Address::new("bUSDC");
    let mut position = UserPosition::new(100);
    let mut stake_pool = pool(0, 100);
    let mut reserve: u128 = 10_000;
    hub.stake_btokens(&mut position, &mut stake_pool, &token, 5_000_000, 100).unwrap();
    let outcome = hub
        .unstake_and_claim(&mut position, &mut stake_pool, &mut reserve, &token, 2_000_000, 43_300)
        .unwrap();
    assert_eq!(outcome, ClaimOutcome { rewards: 2_500, paid: 2_500 });
    assert_eq!(reserve, 7_500);
    assert_eq!(position.rewards_earned, 0);
    assert_eq!(position.last_reward_update, 43_300);
    assert_eq!(position.staked_lp_tokens.get(&token), Some(3_000_000));
    assert_eq!(stake_pool.total_staked, 3_000_000);
    assert_eq!(stake_pool.reward_per_token_stored, 8);
}

#[test]
fn unstake_of_more_than_staked_empties_the_entry() {
    let hub = hub();
    let token = Address::new("bUSDC");
    let mut position = UserPosition::new(100);
    let mut stake_pool = pool(0, 100);
    let mut reserve: u128 = 0;
    hub.stake_btokens(&mut position, &mut stake_pool, &token, 10, 100).unwrap();
    let outcome =
        hub.unstake_and_claim(&mut position, &mut stake_pool, &mut reserve, &token, 11, 100).unwrap();
    assert_eq!(outcome, ClaimOutcome { rewards: 0, paid: 0 });
    assert_eq!(position.staked_lp_tokens.get(&token), None);
    assert_eq!(position.staked_lp_tokens.len(), 0);
    assert_eq!(stake_pool.total_staked, 0);
}

#[test]
fn claim_against_a_short_reserve_debits_the_whole_claim() {
    let mut position = UserPosition::new(0);
    position.rewards_earned = 800;
    let mut reserve: u128 = 500;
    let paid = distribute_rewards(&mut position, &mut reserve, 800);
    assert_eq!(paid, 500);
    assert_eq!(reserve, 0);
    assert_eq!(position.rewards_earned, 0);
}

#[test]
fn claim_through_unstake_against_a_short_reserve() {
    let hub = hub();
    let token = Address::new("bUSDC");
    let mut position = UserPosition::new(0);
    position.rewards_earned = 800;
    let mut stake_pool = pool(0, 0);
    let mut reserve: u128 = 500;
    let outcome =
        hub.unstake_and_claim(&mut position, &mut stake_pool, &mut reserve, &token, 0, 0).unwrap();
    assert_eq!(outcome, ClaimOutcome { rewards: 800, paid: 500 });
    assert_eq!(reserve, 0);
    assert_eq!(position.rewards_earned, 0);
}

#[test]
fn claim_against_an_empty_reserve_still_debits_the_claim() {
    let mut position = UserPosition::new(0);
    position.rewards_earned = 800;
    let mut reserve: u128 = 0;
    assert_eq!(distribute_rewards(&mut position, &mut reserve, 800), 0);
    assert_eq!(reserve, 0);
    assert_eq!(position.rewards_earned, 0);
    position.rewards_earned = 800;
    assert_eq!(distribute_rewards(&mut position, &mut reserve, 300), 0);
    assert_eq!(position.rewards_earned, 500);
    assert_eq!(distribute_rewards(&mut position, &mut reserve, 0), 0);
    assert_eq!(position.rewards_earned, 500);
}

#[test]
fn unstake_against_an_empty_reserve_leaves_no_rewards() {
    let hub = hub();
    let token = Address::new("bUSDC");
    let mut position = UserPosition::new(0);
    position.rewards_earned = 800;
    let mut stake_pool = pool(0, 0);
    let mut reserve: u128 = 0;
    let outcome =
        hub.unstake_and_claim(&mut position, &mut stake_pool, &mut reserve, &token, 0, 0).unwrap();
    assert_eq!(outcome, ClaimOutcome { rewards: 800, paid: 0 });
    assert_eq!(reserve, 0);
    assert_eq!(position.rewards_earned, 0);
}

#[test]
fn claim_of_more_than_was_earned_leaves_zero() {
    let mut position = UserPosition::new(0);
    position.rewards_earned = 100;
    let mut reserve: u128 = 1_000;
    assert_eq!(distribute_rewards(&mut position, &mut reserve, 250), 250);
    assert_eq!(reserve, 750);
    assert_eq!(position.rewards_earned, 0);
}

#[test]
fn partial_claim_leaves_the_rest() {
    let mut position = UserPosition::new(0);
    position.rewards_earned = 800;
    let mut reserve: u128 = 1_000;
    assert_eq!(distribute_rewards(&mut position, &mut reserve, 300), 300);
    assert_eq!(reserve, 700);
    assert_eq!(position.rewards_earned, 500);
    assert_eq!(distribute_rewards(&mut position, &mut reserve, 900), 700);
    assert_eq!(reserve, 0);
    assert_eq!(position.rewards_earned, 0);
}

#[test]
fn reserve_grows_by_the_fee() {
    assert_eq!(add_to_reward_pool(0, 5_000), Ok(5_000));
    assert_eq!(add_to_reward_pool(7, 5_000), Ok(5_007));
    assert_eq!(add_to_reward_pool(u128::MAX, 1), Err(HubError::Arithmetic));
}

#[test]
fn swap_withholds_fifty_basis_points() {
    let hub = hub();
    let usdc = Address::new("GBBD47IF6LWK7P7MDEVSCWR7DPUWV3NY3DTQEVFL4NAT4AQH3ZLLFLA5");
    let xlm = Address::new("native");
    let mut reserve: u128 = 7;
    assert_eq!(
        hub.swap_tokens(&mut reserve, &usdc, &xlm, 1_000_000, 100, 100),
        Ok(SwapPlan { fee_amount: 5_000, swap_amount: 995_000, router_deadline: 400 })
    );
    assert_eq!(reserve, 5_007);
    assert_eq!(
        hub.swap_tokens(&mut reserve, &usdc, &xlm, 199, 100, 200),
        Ok(SwapPlan { fee_amount: 0, swap_amount: 199, router_deadline: 400 })
    );
    assert_eq!(reserve, 5_007);
}

#[test]
fn swap_is_refused_on_bad_input() {
    let hub = hub();
    let usdc = Address::new("GBBD47IF6LWK7P7MDEVSCWR7DPUWV3NY3DTQEVFL4NAT4AQH3ZLLFLA5");
    let xlm = Address::new("native");
    let nobody = Address::new("nobody");
    let mut reserve: u128 = 7;
    assert_eq!(hub.swap_tokens(&mut reserve, &nobody, &xlm, 10, 100, 200), Err(HubError::AssetNotSupported));
    assert_eq!(hub.swap_tokens(&mut reserve, &usdc, &nobody, 10, 100, 200), Err(HubError::AssetNotSupported));
    assert_eq!(hub.swap_tokens(&mut reserve, &usdc, &xlm, 10, 201, 200), Err(HubError::DeadlineExpired));
    assert_eq!(hub.swap_tokens(&mut reserve, &usdc, &xlm, 10, u64::MAX, u64::MAX), Err(HubError::Arithmetic));
    assert_eq!(reserve, 7);
    let mut full: u128 = u128::MAX - 4_999;
    assert_eq!(hub.swap_tokens(&mut full, &usdc, &xlm, 1_000_000, 100, 200), Err(HubError::Arithmetic));
    assert_eq!(full, u128::MAX - 4_999);
}

#[test]
fn staked_balance_moves_with_stake_and_unstake() {
    let token = Address::new("bUSDC");
    let other = Address::new("bXLM");
    let mut position = UserPosition::new(0);
    update_staking_position(&mut position, &token, 10, true).unwrap();
    update_staking_position(&mut position, &other, 3, true).unwrap();
    update_staking_position(&mut position, &token, 5, true).unwrap();
    assert_eq!(position.staked_lp_tokens.get(&token), Some(15));
    update_staking_position(&mut position, &token, 4, false).unwrap();
    assert_eq!(position.staked_lp_tokens.get(&token), Some(11));
    assert_eq!(position.staked_lp_tokens.get(&other), Some(3));
    update_staking_position(&mut position, &token, 11, false).unwrap();
    assert_eq!(position.staked_lp_tokens.get(&token), None);
    assert_eq!(position.staked_lp_tokens.len(), 1);
    update_staking_position(&mut position, &other, u128::MAX - 3, true).unwrap();
    assert_eq!(update_staking_position(&mut position, &other, 1, true), Err(HubError::Arithmetic));
    assert_eq!(position.staked_lp_tokens.get(&other), Some(u128::MAX));
}

#[test]
fn accumulator_and_settlement_time_never_go_back() {
    let hub = hub();
    let token = Address::new("bUSDC");
    let mut stake_pool = pool(10, 0);
    let mut position = UserPosition::new(0);
    let mut last_stored = 0;
    let mut last_update = 0;
    for now in [0u64, 5, 5, 90_000, 90_001] {
        update_staking_pool(&mut stake_pool, 1, now % 2 == 0, now).unwrap();
        hub.update_user_rewards(&mut position, &token, now).unwrap();
        assert!(stake_pool.reward_per_token_stored >= last_stored);
        assert!(position.last_reward_update >= last_update);
        last_stored = stake_pool.reward_per_token_stored;
        last_update = position.last_reward_update;
    }
    assert_eq!(last_update, 90_001);
}

#[test]
fn fee_of_the_greatest_amount_needs_no_room() {
    let hub = hub();
    let usdc = Address::new("GBBD47IF6LWK7P7MDEVSCWR7DPUWV3NY3DTQEVFL4NAT4AQH3ZLLFLA5");
    let xlm = Address::new("native");
    let mut reserve: u128 = 7;
    assert_eq!(
        hub.swap_tokens(&mut reserve, &usdc, &xlm, u128::MAX, 100, 200),
        Ok(SwapPlan {
            fee_amount: u128::MAX / 200,
            swap_amount: u128::MAX - u128::MAX / 200,
            router_deadline: 400
        })
    );
    assert_eq!(reserve, 7 + u128::MAX / 200);
    assert_eq!(
        hub.swap_tokens(&mut reserve, &usdc, &xlm, 10_000, 100, 200),
        Ok(SwapPlan { fee_amount: 50, swap_amount: 9_950, router_deadline: 400 })
    );
}
