//! Staking: the per-pool accumulator, the settlement of a user's rewards, the
//! reward reserve that fees feed and claims draw on, and the fee of a swap.

use vstd::prelude::*;
use crate::balances::{amount_of, lemma_put, lemma_without, put, without};
use crate::registry::DEFAULT_REWARD_RATE;
use crate::types::{Address, HubError, StakingPool, StellarDeFiHub, UserPosition};

verus! {

pub const SECONDS_PER_DAY: u64 = 86400;

/// The staked amount to which the base rate refers.
pub const RATE_UNIT: u128 = 1_000_000;

/// The protocol fee on a swap, in basis points.
pub const PROTOCOL_FEE: u128 = 50;

/// How long after a swap is planned the exchange may still carry it out.
pub const ROUTER_GRACE: u64 = 300;

/// What a swap withholds and what it hands to the exchange.
#[derive(Clone, Copy, Debug, PartialEq, Eq, Structural)]
pub struct SwapPlan {
    pub fee_amount: u128,
    pub swap_amount: u128,
    pub router_deadline: u64,
}

/// What a claim settled and what the reserve could pay of it.
#[derive(Clone, Copy, Debug, PartialEq, Eq, Structural)]
pub struct ClaimOutcome {
    pub rewards: u128,
    pub paid: u128,
}

/// The rewards of a user after settling at `now`: while something is staked
/// and time has passed, the staked amount earns the base rate per million
/// staked and per day.
pub open spec fn settled_rewards(rewards: u128, staked: u128, rate: u128, last: u64, now: u64) -> Result<
    u128,
    HubError,
> {
    if now < last {
        Err(HubError::Arithmetic)
    } else if staked > 0 && now > last {
        let daily = staked * rate / (RATE_UNIT as int);
        let earned = daily * (now - last) / (SECONDS_PER_DAY as int);
        if staked * rate > u128::MAX || daily * (now - last) > u128::MAX || rewards + earned > u128::MAX {
            Err(HubError::Arithmetic)
        } else {
            Ok((rewards + earned) as u128)
        }
    } else {
        Ok(rewards)
    }
}

/// The pool after a stake or an unstake of `amount` at `now`: the accumulator
/// grows by rate times elapsed seconds over the total staked, where anything
/// is staked; then the total moves, never below zero.
pub open spec fn pool_step(pool: StakingPool, amount: u128, is_stake: bool, now: u64) -> Result<
    StakingPool,
    HubError,
> {
    let elapsed = now - pool.last_update_time;
    let grown = if pool.total_staked > 0 {
        pool.reward_per_token_stored + pool.reward_rate * elapsed / (pool.total_staked as int)
    } else {
        pool.reward_per_token_stored as int
    };
    let total = if is_stake {
        pool.total_staked + amount
    } else if pool.total_staked >= amount {
        pool.total_staked - amount
    } else {
        0
    };
    if pool.total_staked > 0 && (elapsed < 0 || pool.reward_rate * elapsed > u128::MAX) {
        Err(HubError::Arithmetic)
    } else if grown > u128::MAX || total > u128::MAX {
        Err(HubError::Arithmetic)
    } else {
        Ok(
            StakingPool {
                total_staked: total as u128,
                reward_rate: pool.reward_rate,
                last_update_time: now,
                reward_per_token_stored: grown as u128,
                total_rewards_distributed: pool.total_rewards_distributed,
            },
        )
    }
}

/// The staked balances after a stake or an unstake of `amount` under `key`.
/// An unstake takes at most what is there, and an entry that falls to zero
/// leaves the table.
pub open spec fn staked_after(staked: Seq<(Seq<char>, u128)>, key: Seq<char>, amount: u128, is_stake: bool) -> Result<
    Seq<(Seq<char>, u128)>,
    HubError,
> {
    let current = amount_of(staked, key);
    if is_stake {
        if current + amount > u128::MAX {
            Err(HubError::Arithmetic)
        } else {
            Ok(put(staked, key, (current + amount) as u128))
        }
    } else if current <= amount {
        Ok(without(staked, key))
    } else {
        Ok(put(staked, key, (current - amount) as u128))
    }
}

/// What a claim of `amount` is paid from a reserve.
pub open spec fn payout(amount: u128, reserve: u128) -> u128 {
    if amount <= reserve {
        amount
    } else {
        reserve
    }
}

/// The rewards left to a user after a claim of `amount`: the whole claim is
/// taken off, down to zero, whatever the reserve could pay of it.
pub open spec fn rewards_after_claim(rewards: u128, amount: u128) -> u128 {
    if rewards >= amount {
        (rewards - amount) as u128
    } else {
        0
    }
}

/// The fee and the rest of a swap of `amount_in` planned at `now`: the fee
/// is 50 basis points of the amount, rounded down.
pub open spec fn swap_plan(amount_in: u128, now: u64) -> Result<SwapPlan, HubError> {
    if now + ROUTER_GRACE > u64::MAX {
        Err(HubError::Arithmetic)
    } else {
        Ok(
            SwapPlan {
                fee_amount: (amount_in * PROTOCOL_FEE / (10000 as int)) as u128,
                swap_amount: (amount_in - amount_in * PROTOCOL_FEE / (10000 as int)) as u128,
                router_deadline: (now + ROUTER_GRACE) as u64,
            },
        )
    }
}

/// The rewards that a user can claim.
pub fn get_claimable_rewards(position: &UserPosition) -> (r: u128)
    ensures
        r == position.rewards_earned,
{
    position.rewards_earned
}

/// A reward reserve with `amount` added.
pub fn add_to_reward_pool(reserve: u128, amount: u128) -> (r: Result<u128, HubError>)
    ensures
        r == if reserve + amount > u128::MAX {
            Err::<u128, HubError>(HubError::Arithmetic)
        } else {
            Ok((reserve + amount) as u128)
        },
{
    match reserve.checked_add(amount) {
        Some(sum) => Ok(sum),
        None => Err(HubError::Arithmetic),
    }
}

fn settle(rewards: u128, staked: u128, rate: u128, last: u64, now: u64) -> (r: Result<u128, HubError>)
    ensures
        r == settled_rewards(rewards, staked, rate, last, now),
{
    if now < last {
        return Err(HubError::Arithmetic);
    }
    let elapsed = now - last;
    if staked > 0 && elapsed > 0 {
        let product = match staked.checked_mul(rate) {
            Some(p) => p,
            None => { return Err(HubError::Arithmetic); },
        };
        let daily = product / RATE_UNIT;
        let scaled = match daily.checked_mul(elapsed as u128) {
            Some(s) => s,
            None => { return Err(HubError::Arithmetic); },
        };
        let earned = scaled / (SECONDS_PER_DAY as u128);
        match rewards.checked_add(earned) {
            Some(sum) => Ok(sum),
            None => Err(HubError::Arithmetic),
        }
    } else {
        Ok(rewards)
    }
}

fn next_pool(pool: &StakingPool, amount: u128, is_stake: bool, now: u64) -> (r: Result<StakingPool, HubError>)
    ensures
        r == pool_step(*pool, amount, is_stake, now),
{
    let mut stored = pool.reward_per_token_stored;
    if pool.total_staked > 0 {
        if now < pool.last_update_time {
            return Err(HubError::Arithmetic);
        }
        let elapsed = now - pool.last_update_time;
        let product = match pool.reward_rate.checked_mul(elapsed as u128) {
            Some(p) => p,
            None => { return Err(HubError::Arithmetic); },
        };
        stored = match stored.checked_add(product / pool.total_staked) {
            Some(s) => s,
            None => { return Err(HubError::Arithmetic); },
        };
    }
    let total = if is_stake {
        match pool.total_staked.checked_add(amount) {
            Some(t) => t,
            None => { return Err(HubError::Arithmetic); },
        }
    } else {
        pool.total_staked.saturating_sub(amount)
    };
    Ok(
        StakingPool {
            total_staked: total,
            reward_rate: pool.reward_rate,
            last_update_time: now,
            reward_per_token_stored: stored,
            total_rewards_distributed: pool.total_rewards_distributed,
        },
    )
}

/// Advances a pool over a stake or an unstake of `amount` at `now`. A step
/// that fails leaves the pool as it was.
pub fn update_staking_pool(pool: &mut StakingPool, amount: u128, is_stake: bool, now: u64) -> (r: Result<
    (),
    HubError,
>)
    ensures
        match pool_step(*old(pool), amount, is_stake, now) {
            Ok(p) => r == Ok::<(), HubError>(()) && *final(pool) == p,
            Err(e) => r == Err::<(), HubError>(e) && *final(pool) == *old(pool),
        },
        final(pool).reward_per_token_stored >= old(pool).reward_per_token_stored,
        final(pool).reward_rate == old(pool).reward_rate,
        final(pool).total_rewards_distributed == old(pool).total_rewards_distributed,
{
    proof {
        lemma_pool_step_grows(*pool, amount, is_stake, now);
    }
    match next_pool(pool, amount, is_stake, now) {
        Ok(p) => {
            *pool = p;
            Ok(())
        },
        Err(e) => Err(e),
    }
}

/// Moves the staked balance of `btoken` by `amount`.
pub fn update_staking_position(position: &mut UserPosition, btoken: &Address, amount: u128, is_stake: bool) -> (r:
    Result<(), HubError>)
    requires
        old(position).wf(),
    ensures
        final(position).wf(),
        final(position).supplied_assets == old(position).supplied_assets,
        final(position).borrowed_assets == old(position).borrowed_assets,
        final(position).rewards_earned == old(position).rewards_earned,
        final(position).last_reward_update == old(position).last_reward_update,
        match staked_after(old(position).staked_lp_tokens@, btoken@, amount, is_stake) {
            Ok(s) => r == Ok::<(), HubError>(()) && final(position).staked_lp_tokens@ == s,
            Err(e) => r == Err::<(), HubError>(e) && *final(position) == *old(position),
        },
{
    let current = match position.staked_lp_tokens.get(btoken) {
        Some(a) => a,
        None => 0,
    };
    if is_stake {
        match current.checked_add(amount) {
            Some(sum) => {
                position.staked_lp_tokens.set(btoken, sum);
                Ok(())
            },
            None => Err(HubError::Arithmetic),
        }
    } else {
        let left = current.saturating_sub(amount);
        if left == 0 {
            position.staked_lp_tokens.remove(btoken);
        } else {
            position.staked_lp_tokens.set(btoken, left);
        }
        Ok(())
    }
}

/// Pays a claim of `amount` out of the reserve as far as the reserve goes, and
/// returns what was paid: the lesser of the claim and the reserve. The reserve
/// falls by what was paid; the user's rewards fall by the whole claim, down to
/// zero, also where the reserve paid less or nothing.
pub fn distribute_rewards(position: &mut UserPosition, reserve: &mut u128, amount: u128) -> (paid: u128)
    ensures
        paid == payout(amount, *old(reserve)),
        paid <= amount,
        paid <= *old(reserve),
        *final(reserve) == *old(reserve) - paid,
        final(position).rewards_earned == if old(position).rewards_earned >= amount {
            (old(position).rewards_earned - amount) as u128
        } else {
            0
        },
        final(position).rewards_earned == rewards_after_claim(old(position).rewards_earned, amount),
        final(position).supplied_assets == old(position).supplied_assets,
        final(position).borrowed_assets == old(position).borrowed_assets,
        final(position).staked_lp_tokens == old(position).staked_lp_tokens,
        final(position).last_reward_update == old(position).last_reward_update,
{
    let available = *reserve;
    let paid = if amount <= available { amount } else { available };
    *reserve = available - paid;
    position.rewards_earned = position.rewards_earned.saturating_sub(amount);
    paid
}

impl StellarDeFiHub {
    /// The stored pool, or the pool of a token staked for the first time at `now`.
    pub fn get_staking_pool(stored: Option<StakingPool>, now: u64) -> (r: StakingPool)
        ensures
            r == match stored {
                Some(p) => p,
                None => StakingPool {
                    total_staked: 0,
                    reward_rate: DEFAULT_REWARD_RATE,
                    last_update_time: now,
                    reward_per_token_stored: 0,
                    total_rewards_distributed: 0,
                },
            },
    {
        match stored {
            Some(p) => p,
            None => StakingPool {
                total_staked: 0,
                reward_rate: DEFAULT_REWARD_RATE,
                last_update_time: now,
                reward_per_token_stored: 0,
                total_rewards_distributed: 0,
            },
        }
    }

    /// The stored position, or the position of a user seen for the first time at
    /// `now`.
    pub fn get_user_position(stored: Option<UserPosition>, now: u64) -> (r: UserPosition)
        ensures
            stored is Some ==> r == stored->0,
            stored is None ==> {
                &&& r.wf()
                &&& r.supplied_assets@.len() == 0
                &&& r.borrowed_assets@.len() == 0
                &&& r.staked_lp_tokens@.len() == 0
                &&& r.rewards_earned == 0
                &&& r.last_reward_update == now
            },
    {
        match stored {
            Some(p) => p,
            None => UserPosition::new(now),
        }
    }

    /// Settles the rewards that the staked balance of `btoken` earned since
    /// the last settlement, and moves the settlement time to `now`. A
    /// settlement that fails leaves the position as it was.
    pub fn update_user_rewards(&self, position: &mut UserPosition, btoken: &Address, now: u64) -> (r: Result<
        (),
        HubError,
    >)
        requires
            old(position).wf(),
        ensures
            final(position).wf(),
            final(position).supplied_assets == old(position).supplied_assets,
            final(position).borrowed_assets == old(position).borrowed_assets,
            final(position).staked_lp_tokens == old(position).staked_lp_tokens,
            final(position).last_reward_update >= old(position).last_reward_update,
            final(position).rewards_earned >= old(position).rewards_earned,
            match settled_rewards(
                old(position).rewards_earned,
                amount_of(old(position).staked_lp_tokens@, btoken@),
                self.base_rate(),
                old(position).last_reward_update,
                now,
            ) {
                Ok(x) => r == Ok::<(), HubError>(()) && final(position).rewards_earned == x && final(position).last_reward_update == now,
                Err(e) => r == Err::<(), HubError>(e) && *final(position) == *old(position),
            },
    {
        let staked = match position.staked_lp_tokens.get(btoken) {
            Some(a) => a,
            None => 0,
        };
        let rate = match self.reward_rate {
            Some(x) => x,
            None => DEFAULT_REWARD_RATE,
        };
        proof {
            lemma_settlement_grows(position.rewards_earned, staked, rate, position.last_reward_update, now);
        }
        match settle(position.rewards_earned, staked, rate, position.last_reward_update, now) {
            Ok(x) => {
                position.rewards_earned = x;
                position.last_reward_update = now;
                Ok(())
            },
            Err(e) => Err(e),
        }
    }

    /// Stakes `amount` of `btoken`: settles the user's rewards, raises the
    /// staked balance and advances the pool. Where any of the three fails,
    /// position and pool stay as they were.
    pub fn stake_btokens(
        &self,
        position: &mut UserPosition,
        pool: &mut StakingPool,
        btoken: &Address,
        amount: u128,
        now: u64,
    ) -> (r: Result<(), HubError>)
        requires
            old(position).wf(),
        ensures
            final(position).wf(),
            final(position).supplied_assets == old(position).supplied_assets,
            final(position).borrowed_assets == old(position).borrowed_assets,
            match (
                settled_rewards(
                    old(position).rewards_earned,
                    amount_of(old(position).staked_lp_tokens@, btoken@),
                    self.base_rate(),
                    old(position).last_reward_update,
                    now,
                ),
                staked_after(old(position).staked_lp_tokens@, btoken@, amount, true),
                pool_step(*old(pool), amount, true, now),
            ) {
                (Ok(x), Ok(s), Ok(p)) => {
                    &&& r == Ok::<(), HubError>(())
                    &&& final(position).rewards_earned == x
                    &&& final(position).last_reward_update == now
                    &&& final(position).staked_lp_tokens@ == s
                    &&& *final(pool) == p
                },
                _ => r == Err::<(), HubError>(HubError::Arithmetic) && *final(position) == *old(position)
                    && *final(pool) == *old(pool),
            },
    {
        let staked = match position.staked_lp_tokens.get(btoken) {
            Some(a) => a,
            None => 0,
        };
        let rate = match self.reward_rate {
            Some(x) => x,
            None => DEFAULT_REWARD_RATE,
        };
        let rewards = match settle(position.rewards_earned, staked, rate, position.last_reward_update, now) {
            Ok(x) => x,
            Err(_) => { return Err(HubError::Arithmetic); },
        };
        if staked.checked_add(amount).is_none() {
            return Err(HubError::Arithmetic);
        }
        let advanced = match next_pool(pool, amount, true, now) {
            Ok(p) => p,
            Err(_) => { return Err(HubError::Arithmetic); },
        };
        position.rewards_earned = rewards;
        position.last_reward_update = now;
        match update_staking_position(position, btoken, amount, true) {
            Ok(()) => {
                *pool = advanced;
                Ok(())
            },
            Err(e) => Err(e),
        }
    }

    /// Unstakes `amount` of `btoken` and claims every settled reward: settles
    /// the user's rewards, lowers the staked balance, advances the pool, and
    /// pays the rewards out of the reserve as far as it goes. The whole of the
    /// settled rewards is taken off the user, so that none are left. Where a
    /// step fails, position, pool and reserve stay as they were.
    pub fn unstake_and_claim(
        &self,
        position: &mut UserPosition,
        pool: &mut StakingPool,
        reserve: &mut u128,
        btoken: &Address,
        amount: u128,
        now: u64,
    ) -> (r: Result<ClaimOutcome, HubError>)
        requires
            old(position).wf(),
        ensures
            final(position).wf(),
            final(position).supplied_assets == old(position).supplied_assets,
            final(position).borrowed_assets == old(position).borrowed_assets,
            match (
                settled_rewards(
                    old(position).rewards_earned,
                    amount_of(old(position).staked_lp_tokens@, btoken@),
                    self.base_rate(),
                    old(position).last_reward_update,
                    now,
                ),
                staked_after(old(position).staked_lp_tokens@, btoken@, amount, false),
                pool_step(*old(pool), amount, false, now),
            ) {
                (Ok(x), Ok(s), Ok(p)) => {
                    &&& r == Ok::<ClaimOutcome, HubError>(
                        ClaimOutcome { rewards: x, paid: payout(x, *old(reserve)) },
                    )
                    &&& final(position).rewards_earned == 0
                    &&& final(position).last_reward_update == now
                    &&& final(position).staked_lp_tokens@ == s
                    &&& *final(pool) == p
                    &&& *final(reserve) == *old(reserve) - payout(x, *old(reserve))
                },
                _ => r == Err::<ClaimOutcome, HubError>(HubError::Arithmetic) && *final(position) == *old(position) && *final(pool) == *old(pool) && *final(reserve) == *old(reserve),
            },
    {
        let staked = match position.staked_lp_tokens.get(btoken) {
            Some(a) => a,
            None => 0,
        };
        let rate = match self.reward_rate {
            Some(x) => x,
            None => DEFAULT_REWARD_RATE,
        };
        let rewards = match settle(position.rewards_earned, staked, rate, position.last_reward_update, now) {
            Ok(x) => x,
            Err(_) => { return Err(HubError::Arithmetic); },
        };
        let advanced = match next_pool(pool, amount, false, now) {
            Ok(p) => p,
            Err(_) => { return Err(HubError::Arithmetic); },
        };
        position.rewards_earned = rewards;
        position.last_reward_update = now;
        match update_staking_position(position, btoken, amount, false) {
            Ok(()) => {
                *pool = advanced;
                let paid = distribute_rewards(position, reserve, rewards);
                Ok(ClaimOutcome { rewards, paid })
            },
            Err(e) => Err(e),
        }
    }

    /// Plans a swap and credits its fee: both tokens have to be registered
    /// and the deadline not passed; the fee is 50 basis points of the amount
    /// paid in and goes to the reward reserve of the token paid in; the rest
    /// goes to the exchange. A swap that is refused leaves the reserve as it
    /// was.
    pub fn swap_tokens(
        &self,
        reserve: &mut u128,
        token_a: &Address,
        token_b: &Address,
        amount_in: u128,
        now: u64,
        deadline: u64,
    ) -> (r: Result<SwapPlan, HubError>)
        ensures
            r == if self.config_of(token_a@) is None || self.config_of(token_b@) is None {
                Err::<SwapPlan, HubError>(HubError::AssetNotSupported)
            } else if now > deadline {
                Err(HubError::DeadlineExpired)
            } else if swap_plan(amount_in, now) is Ok && *old(reserve) + swap_plan(amount_in, now)->Ok_0.fee_amount
                > u128::MAX {
                Err(HubError::Arithmetic)
            } else {
                swap_plan(amount_in, now)
            },
            r is Ok ==> *final(reserve) == *old(reserve) + r->Ok_0.fee_amount,
            r is Err ==> *final(reserve) == *old(reserve),
    {
        if !self.is_asset_supported(token_a) || !self.is_asset_supported(token_b) {
            return Err(HubError::AssetNotSupported);
        }
        if now > deadline {
            return Err(HubError::DeadlineExpired);
        }
        // Fifty parts in ten thousand are one part in two hundred: this form
        // cannot overflow.
        let fee_amount = amount_in / 200;
        assert(amount_in * PROTOCOL_FEE / (10000 as int) == amount_in as int / 200);
        let router_deadline = match now.checked_add(ROUTER_GRACE) {
            Some(d) => d,
            None => { return Err(HubError::Arithmetic); },
        };
        match add_to_reward_pool(*reserve, fee_amount) {
            Ok(credited) => {
                *reserve = credited;
                Ok(SwapPlan { fee_amount, swap_amount: amount_in - fee_amount, router_deadline })
            },
            Err(e) => Err(e),
        }
    }
}

/// A step never lowers the accumulator of a pool.
pub proof fn lemma_pool_step_grows(pool: StakingPool, amount: u128, is_stake: bool, now: u64)
    ensures
        pool_step(pool, amount, is_stake, now) is Ok ==> pool_step(
            pool,
            amount,
            is_stake,
            now,
        )->Ok_0.reward_per_token_stored >= pool.reward_per_token_stored,
{
    let elapsed = now - pool.last_update_time;
    if pool.total_staked > 0 && elapsed >= 0 {
        assert(pool.reward_rate * elapsed / (pool.total_staked as int) >= 0) by (nonlinear_arith)
            requires
                pool.reward_rate >= 0,
                elapsed >= 0,
                pool.total_staked > 0,
        ;
    }
}

/// A settlement never lowers the rewards of a user, and never moves the
/// settlement time back.
pub proof fn lemma_settlement_grows(rewards: u128, staked: u128, rate: u128, last: u64, now: u64)
    ensures
        settled_rewards(rewards, staked, rate, last, now) is Ok ==> now >= last && settled_rewards(
            rewards,
            staked,
            rate,
            last,
            now,
        )->Ok_0 >= rewards,
{
    if now > last && staked > 0 {
        let daily = staked * rate / (RATE_UNIT as int);
        assert(daily >= 0) by (nonlinear_arith)
            requires
                daily == staked * rate / (RATE_UNIT as int),
                staked >= 0,
                rate >= 0,
        ;
        assert(daily * (now - last) / (SECONDS_PER_DAY as int) >= 0) by (nonlinear_arith)
            requires
                daily >= 0,
                now - last >= 0,
        ;
    }
}

/// Staking an amount and unstaking it again at the same instant leaves the
/// total staked, the pool's accumulator after the stake and the user's staked
/// balance as they were, and settles no reward in between.
pub proof fn lemma_stake_then_unstake(
    pool: StakingPool,
    staked: Seq<(Seq<char>, u128)>,
    rewards: u128,
    rate: u128,
    key: Seq<char>,
    amount: u128,
    now: u64,
)
    requires
        crate::balances::distinct_keys(staked),
        pool_step(pool, amount, true, now) is Ok,
        staked_after(staked, key, amount, true) is Ok,
    ensures
        pool_step(pool_step(pool, amount, true, now)->Ok_0, amount, false, now) is Ok,
        pool_step(pool_step(pool, amount, true, now)->Ok_0, amount, false, now)->Ok_0.total_staked
            == pool.total_staked,
        pool_step(pool_step(pool, amount, true, now)->Ok_0, amount, false, now)->Ok_0.reward_per_token_stored
            == pool_step(pool, amount, true, now)->Ok_0.reward_per_token_stored,
        settled_rewards(rewards, amount_of(staked_after(staked, key, amount, true)->Ok_0, key), rate, now, now)
            == Ok::<u128, HubError>(rewards),
        staked_after(staked_after(staked, key, amount, true)->Ok_0, key, amount, false) is Ok,
        amount_of(staked_after(staked_after(staked, key, amount, true)->Ok_0, key, amount, false)->Ok_0, key)
            == amount_of(staked, key),
{
    let after = pool_step(pool, amount, true, now)->Ok_0;
    assert(after.last_update_time == now);
    assert(after.total_staked == pool.total_staked + amount);
    if after.total_staked > 0 {
        assert(after.reward_rate * 0 / (after.total_staked as int) == 0) by (nonlinear_arith)
            requires
                after.total_staked > 0,
        ;
    }
    let current = amount_of(staked, key);
    let s1 = staked_after(staked, key, amount, true)->Ok_0;
    lemma_put(staked, key, (current + amount) as u128, key);
    assert(amount_of(s1, key) == current + amount);
    if current + amount <= amount {
        lemma_without(s1, key, key);
    } else {
        lemma_put(s1, key, current, key);
    }
}

} // verus!
