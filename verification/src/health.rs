//! The health factor of a position, and the condition a borrow has to meet.

use vstd::prelude::*;
use crate::balances::{amount_of, distinct_keys, lemma_put, lemma_put_all, lookup, put, Balances};
use crate::pricing::PriceFeeds;
use crate::registry::{lemma_find_config, pow10, ten_to};
use crate::types::{Address, HubError, StellarDeFiHub, UserPosition};

verus! {

/// The scale of a health factor: 1_000_000 stands for a ratio of one.
pub const HEALTH_SCALE: u128 = 1_000_000;

/// The least health factor with which a borrow is let through.
pub const MIN_HEALTH_FACTOR: u128 = 1_200_000;

/// The divisor of a basis-point factor.
pub const BASIS_POINTS: u128 = 10000;

/// The health factor of a position without debt.
pub const NO_DEBT: u128 = u128::MAX;

/// What the outside world answered about one asset.
#[derive(Debug)]
pub struct AssetFeed {
    pub asset: Address,
    pub feeds: PriceFeeds,
}

/// The answers of a source that gave nothing.
pub open spec fn no_feeds() -> PriceFeeds {
    PriceFeeds { oracle: None, dex_forward: None, dex_reverse: None, admin: None }
}

/// The answers recorded for `key` in a snapshot, walked from `from`: those of
/// the first record under that key, and none where there is no record.
pub open spec fn feeds_of(market: Seq<AssetFeed>, key: Seq<char>, from: int) -> PriceFeeds
    decreases market.len() - from,
{
    if from < 0 || from >= market.len() {
        no_feeds()
    } else if market[from].asset@ == key {
        market[from].feeds
    } else {
        feeds_of(market, key, from + 1)
    }
}

/// The answers recorded for `asset` in a snapshot.
pub fn feeds_for(market: &Vec<AssetFeed>, asset: &Address) -> (r: PriceFeeds)
    ensures
        r == feeds_of(market@, asset@, 0),
{
    let mut i: usize = 0;
    while i < market.len()
        invariant
            i <= market@.len(),
            feeds_of(market@, asset@, 0) == feeds_of(market@, asset@, i as int),
        decreases market@.len() - i,
    {
        if market[i].asset.same(asset) {
            return market[i].feeds;
        }
        i += 1;
    }
    PriceFeeds { oracle: None, dex_forward: None, dex_reverse: None, admin: None }
}

impl StellarDeFiHub {
    /// What an amount of one asset counts for. Without a price it counts for
    /// nothing. As collateral, an eligible asset counts for amount times price
    /// times collateral factor over precision times 10000, an ineligible one
    /// for nothing; as debt, for amount times price over precision.
    pub open spec fn entry_value(
        &self,
        market: Seq<AssetFeed>,
        now: u64,
        key: Seq<char>,
        amount: u128,
        as_collateral: bool,
    ) -> Result<u128, HubError> {
        match self.price_of(key, now, feeds_of(market, key, 0)) {
            Err(e) => Err(e),
            Ok(None) => Ok(0),
            Ok(Some(price)) => if as_collateral {
                match self.config_of(key) {
                    None => Err(HubError::AssetNotSupported),
                    Some(c) => if !c.is_collateral {
                        Ok(0)
                    } else if amount * price > u128::MAX || amount * price * c.collateral_factor > u128::MAX {
                        Err(HubError::Arithmetic)
                    } else {
                        Ok(
                            (amount * price * c.collateral_factor / ((pow10(c.decimals as nat) * BASIS_POINTS)
                                as int)) as u128,
                        )
                    },
                }
            } else if amount * price > u128::MAX {
                Err(HubError::Arithmetic)
            } else {
                match self.config_of(key) {
                    None => Err(HubError::AssetNotSupported),
                    Some(c) => Ok((amount * price / (pow10(c.decimals as nat) as int)) as u128),
                }
            },
        }
    }

    /// The sum of what the first `n` entries of a balance table count for,
    /// taken entry by entry; the first failure ends it.
    pub open spec fn total_value(
        &self,
        market: Seq<AssetFeed>,
        now: u64,
        entries: Seq<(Seq<char>, u128)>,
        n: int,
        as_collateral: bool,
    ) -> Result<u128, HubError>
        decreases n,
    {
        if n <= 0 {
            Ok(0)
        } else {
            match self.total_value(market, now, entries, n - 1, as_collateral) {
                Err(e) => Err(e),
                Ok(acc) => match self.entry_value(
                    market,
                    now,
                    entries[n - 1].0,
                    entries[n - 1].1,
                    as_collateral,
                ) {
                    Err(e) => Err(e),
                    Ok(v) => if acc + v > u128::MAX {
                        Err(HubError::Arithmetic)
                    } else {
                        Ok((acc + v) as u128)
                    },
                },
            }
        }
    }

    /// The debt side of a position: its borrowed assets and, where given, one
    /// more borrow that is only being considered.
    pub open spec fn debt_value(
        &self,
        market: Seq<AssetFeed>,
        now: u64,
        borrowed: Seq<(Seq<char>, u128)>,
        additional: Option<(Seq<char>, u128)>,
    ) -> Result<u128, HubError> {
        match self.total_value(market, now, borrowed, borrowed.len() as int, false) {
            Err(e) => Err(e),
            Ok(debt) => match additional {
                None => Ok(debt),
                Some(b) => match self.entry_value(market, now, b.0, b.1, false) {
                    Err(e) => Err(e),
                    Ok(v) => if debt + v > u128::MAX {
                        Err(HubError::Arithmetic)
                    } else {
                        Ok((debt + v) as u128)
                    },
                },
            },
        }
    }

    /// The health factor: the greatest number where the debt side counts for
    /// nothing, whatever the collateral; else collateral over debt, scaled by
    /// 1_000_000. The debt side is valued first, so that a position without
    /// debt never fails on its collateral.
    pub open spec fn health(
        &self,
        market: Seq<AssetFeed>,
        now: u64,
        supplied: Seq<(Seq<char>, u128)>,
        borrowed: Seq<(Seq<char>, u128)>,
        additional: Option<(Seq<char>, u128)>,
    ) -> Result<u128, HubError> {
        match self.debt_value(market, now, borrowed, additional) {
            Err(e) => Err(e),
            Ok(debt) => if debt == 0 {
                Ok(NO_DEBT)
            } else {
                match self.total_value(market, now, supplied, supplied.len() as int, true) {
                    Err(e) => Err(e),
                    Ok(collateral) => if collateral * HEALTH_SCALE > u128::MAX {
                        Err(HubError::Arithmetic)
                    } else {
                        Ok((collateral * HEALTH_SCALE / (debt as int)) as u128)
                    },
                }
            },
        }
    }

    /// Whether a borrow is let through, and with which health factor.
    pub open spec fn borrow_gate(
        &self,
        market: Seq<AssetFeed>,
        now: u64,
        supplied: Seq<(Seq<char>, u128)>,
        borrowed: Seq<(Seq<char>, u128)>,
        key: Seq<char>,
        amount: u128,
    ) -> Result<u128, HubError> {
        if self.config_of(key) is None {
            Err(HubError::AssetNotSupported)
        } else {
            match self.health(market, now, supplied, borrowed, Some((key, amount))) {
                Err(e) => Err(e),
                Ok(h) => if h < MIN_HEALTH_FACTOR {
                    Err(HubError::InsufficientCollateral)
                } else if amount_of(borrowed, key) + amount > u128::MAX {
                    Err(HubError::Arithmetic)
                } else {
                    Ok(h)
                },
            }
        }
    }

    /// What `amount` of `asset` counts for, as collateral or as debt.
    pub fn value_of(&self, market: &Vec<AssetFeed>, now: u64, asset: &Address, amount: u128, as_collateral: bool) -> (r:
        Result<u128, HubError>)
        requires
            self.wf(),
        ensures
            r == self.entry_value(market@, now, asset@, amount, as_collateral),
    {
        proof {
            lemma_find_config(self.assets@, asset@, 0);
        }
        let feeds = feeds_for(market, asset);
        let price = match self.get_asset_price_safe(asset, now, &feeds) {
            Err(e) => { return Err(e); },
            Ok(None) => { return Ok(0); },
            Ok(Some(p)) => p,
        };
        if as_collateral {
            let config = match self.get_asset_config(asset) {
                Ok(c) => c,
                Err(e) => { return Err(e); },
            };
            if !config.is_collateral {
                return Ok(0);
            }
            let worth = match amount.checked_mul(price) {
                Some(w) => w,
                None => { return Err(HubError::Arithmetic); },
            };
            let weighted = match worth.checked_mul(config.collateral_factor) {
                Some(w) => w,
                None => { return Err(HubError::Arithmetic); },
            };
            let precision = ten_to(config.decimals);
            Ok(weighted / (precision * BASIS_POINTS))
        } else {
            let worth = match amount.checked_mul(price) {
                Some(w) => w,
                None => { return Err(HubError::Arithmetic); },
            };
            match self.get_asset_config(asset) {
                Ok(config) => Ok(worth / ten_to(config.decimals)),
                Err(e) => Err(e),
            }
        }
    }

    /// The sum of what the entries of a balance table count for.
    pub fn sum_values(&self, market: &Vec<AssetFeed>, now: u64, table: &Balances, as_collateral: bool) -> (r: Result<
        u128,
        HubError,
    >)
        requires
            self.wf(),
        ensures
            r == self.total_value(market@, now, table@, table@.len() as int, as_collateral),
    {
        let mut total: u128 = 0;
        let mut i: usize = 0;
        while i < table.len()
            invariant
                self.wf(),
                i <= table@.len(),
                self.total_value(market@, now, table@, i as int, as_collateral) == Ok::<u128, HubError>(total),
            decreases table@.len() - i,
        {
            let value = match self.value_of(market, now, table.asset_at(i), table.amount_at(i), as_collateral) {
                Ok(v) => v,
                Err(e) => {
                    proof {
                        self.lemma_total_fails(market@, now, table@, i + 1, table@.len() as int, as_collateral);
                    }
                    return Err(e);
                },
            };
            total = match total.checked_add(value) {
                Some(t) => t,
                None => {
                    proof {
                        self.lemma_total_fails(market@, now, table@, i + 1, table@.len() as int, as_collateral);
                    }
                    return Err(HubError::Arithmetic);
                },
            };
            i += 1;
        }
        Ok(total)
    }

    /// Once the sum over a front part of the table has failed, the sum over
    /// every longer part fails in the same way.
    pub proof fn lemma_total_fails(
        &self,
        market: Seq<AssetFeed>,
        now: u64,
        entries: Seq<(Seq<char>, u128)>,
        n: int,
        m: int,
        as_collateral: bool,
    )
        requires
            0 <= n <= m,
            self.total_value(market, now, entries, n, as_collateral) is Err,
        ensures
            self.total_value(market, now, entries, m, as_collateral) == self.total_value(
                market,
                now,
                entries,
                n,
                as_collateral,
            ),
        decreases m - n,
    {
        if n < m {
            self.lemma_total_fails(market, now, entries, n, m - 1, as_collateral);
        }
    }

    /// The health factor of a position, with one more borrow counted in where
    /// one is given.
    pub fn calculate_health_factor_internal(
        &self,
        position: &UserPosition,
        market: &Vec<AssetFeed>,
        now: u64,
        additional_borrow: Option<(&Address, u128)>,
    ) -> (r: Result<u128, HubError>)
        requires
            self.wf(),
        ensures
            r == self.health(
                market@,
                now,
                position.supplied_assets@,
                position.borrowed_assets@,
                match additional_borrow {
                    Some(b) => Some((b.0@, b.1)),
                    None => None,
                },
            ),
    {
        let mut debt = match self.sum_values(market, now, &position.borrowed_assets, false) {
            Ok(d) => d,
            Err(e) => { return Err(e); },
        };
        if let Some((asset, amount)) = additional_borrow {
            let extra = match self.value_of(market, now, asset, amount, false) {
                Ok(v) => v,
                Err(e) => { return Err(e); },
            };
            debt = match debt.checked_add(extra) {
                Some(d) => d,
                None => { return Err(HubError::Arithmetic); },
            };
        }
        if debt == 0 {
            return Ok(NO_DEBT);
        }
        let collateral = match self.sum_values(market, now, &position.supplied_assets, true) {
            Ok(c) => c,
            Err(e) => { return Err(e); },
        };
        match collateral.checked_mul(HEALTH_SCALE) {
            Some(c) => Ok(c / debt),
            None => Err(HubError::Arithmetic),
        }
    }

    /// The health factor of a position, as callers outside ask for it.
    pub fn calculate_health_factor(
        &self,
        position: &UserPosition,
        market: &Vec<AssetFeed>,
        now: u64,
        additional_borrow: Option<(&Address, u128)>,
    ) -> (r: Result<u128, HubError>)
        requires
            self.wf(),
        ensures
            r == self.health(
                market@,
                now,
                position.supplied_assets@,
                position.borrowed_assets@,
                match additional_borrow {
                    Some(b) => Some((b.0@, b.1)),
                    None => None,
                },
            ),
    {
        self.calculate_health_factor_internal(position, market, now, additional_borrow)
    }

    /// Lets a borrow through where the asset is registered and the health
    /// factor with the borrow counted in stays at 1_200_000 or more, and then
    /// adds the amount to the borrowed balance. A borrow that is not let
    /// through leaves the position as it was.
    pub fn borrow_from_blend(
        &self,
        position: &mut UserPosition,
        market: &Vec<AssetFeed>,
        now: u64,
        asset: &Address,
        amount: u128,
    ) -> (r: Result<u128, HubError>)
        requires
            self.wf(),
            old(position).wf(),
        ensures
            final(position).wf(),
            match self.borrow_gate(
                market@,
                now,
                old(position).supplied_assets@,
                old(position).borrowed_assets@,
                asset@,
                amount,
            ) {
                Err(e) => r == Err::<u128, HubError>(e) && *final(position) == *old(position),
                Ok(h) => {
                    &&& r == Ok::<u128, HubError>(h)
                    &&& final(position).borrowed_assets@ == put(
                        old(position).borrowed_assets@,
                        asset@,
                        (amount_of(old(position).borrowed_assets@, asset@) + amount) as u128,
                    )
                    &&& final(position).supplied_assets == old(position).supplied_assets
                    &&& final(position).staked_lp_tokens == old(position).staked_lp_tokens
                    &&& final(position).rewards_earned == old(position).rewards_earned
                    &&& final(position).last_reward_update == old(position).last_reward_update
                },
            },
            r is Ok ==> amount_of(final(position).borrowed_assets@, asset@) == amount_of(old(position).borrowed_assets@, asset@)
                + amount,
            r is Ok ==> forall|other: Seq<char>|
                other != asset@ ==> #[trigger] lookup(final(position).borrowed_assets@, other) == lookup(
                    old(position).borrowed_assets@,
                    other,
                ),
    {
        if !self.is_asset_supported(asset) {
            return Err(HubError::AssetNotSupported);
        }
        let health = match self.calculate_health_factor(position, market, now, Some((asset, amount))) {
            Ok(h) => h,
            Err(e) => { return Err(e); },
        };
        if health < MIN_HEALTH_FACTOR {
            return Err(HubError::InsufficientCollateral);
        }
        match Self::update_user_borrow_position(position, asset, amount) {
            Ok(()) => Ok(health),
            Err(e) => Err(e),
        }
    }

    /// Adds `amount` to the borrowed balance of `asset`.
    pub fn update_user_borrow_position(position: &mut UserPosition, asset: &Address, amount: u128) -> (r: Result<
        (),
        HubError,
    >)
        requires
            old(position).wf(),
        ensures
            final(position).wf(),
            final(position).supplied_assets == old(position).supplied_assets,
            final(position).staked_lp_tokens == old(position).staked_lp_tokens,
            final(position).rewards_earned == old(position).rewards_earned,
            final(position).last_reward_update == old(position).last_reward_update,
            amount_of(old(position).borrowed_assets@, asset@) + amount > u128::MAX ==> r == Err::<(), HubError>(
                HubError::Arithmetic,
            ) && *final(position) == *old(position),
            amount_of(old(position).borrowed_assets@, asset@) + amount <= u128::MAX ==> r == Ok::<(), HubError>(()) && final(position).borrowed_assets@ == put(
                old(position).borrowed_assets@,
                asset@,
                (amount_of(old(position).borrowed_assets@, asset@) + amount) as u128,
            ),
            r is Ok ==> amount_of(final(position).borrowed_assets@, asset@) == amount_of(old(position).borrowed_assets@, asset@)
                + amount,
            r is Ok ==> forall|other: Seq<char>|
                other != asset@ ==> #[trigger] lookup(final(position).borrowed_assets@, other) == lookup(
                    old(position).borrowed_assets@,
                    other,
                ),
    {
        let current = match position.borrowed_assets.get(asset) {
            Some(a) => a,
            None => 0,
        };
        match current.checked_add(amount) {
            Some(sum) => {
                proof {
                    lemma_put_all(position.borrowed_assets@, asset@, sum);
                }
                position.borrowed_assets.set(asset, sum);
                Ok(())
            },
            None => Err(HubError::Arithmetic),
        }
    }

    /// Adds `amount` to the supplied balance of `asset`.
    pub fn update_user_supply_position(position: &mut UserPosition, asset: &Address, amount: u128) -> (r: Result<
        (),
        HubError,
    >)
        requires
            old(position).wf(),
        ensures
            final(position).wf(),
            final(position).borrowed_assets == old(position).borrowed_assets,
            final(position).staked_lp_tokens == old(position).staked_lp_tokens,
            final(position).rewards_earned == old(position).rewards_earned,
            final(position).last_reward_update == old(position).last_reward_update,
            amount_of(old(position).supplied_assets@, asset@) + amount > u128::MAX ==> r == Err::<(), HubError>(
                HubError::Arithmetic,
            ) && *final(position) == *old(position),
            amount_of(old(position).supplied_assets@, asset@) + amount <= u128::MAX ==> r == Ok::<(), HubError>(()) && final(position).supplied_assets@ == put(
                old(position).supplied_assets@,
                asset@,
                (amount_of(old(position).supplied_assets@, asset@) + amount) as u128,
            ),
            r is Ok ==> amount_of(final(position).supplied_assets@, asset@) == amount_of(old(position).supplied_assets@, asset@)
                + amount,
            r is Ok ==> forall|other: Seq<char>|
                other != asset@ ==> #[trigger] lookup(final(position).supplied_assets@, other) == lookup(
                    old(position).supplied_assets@,
                    other,
                ),
    {
        let current = match position.supplied_assets.get(asset) {
            Some(a) => a,
            None => 0,
        };
        match current.checked_add(amount) {
            Some(sum) => {
                proof {
                    lemma_put_all(position.supplied_assets@, asset@, sum);
                }
                position.supplied_assets.set(asset, sum);
                Ok(())
            },
            None => Err(HubError::Arithmetic),
        }
    }

    /// Records a supply of a registered asset in the position.
    pub fn supply_to_blend(&self, position: &mut UserPosition, asset: &Address, amount: u128) -> (r: Result<
        (),
        HubError,
    >)
        requires
            old(position).wf(),
        ensures
            final(position).wf(),
            final(position).borrowed_assets == old(position).borrowed_assets,
            final(position).staked_lp_tokens == old(position).staked_lp_tokens,
            final(position).rewards_earned == old(position).rewards_earned,
            final(position).last_reward_update == old(position).last_reward_update,
            r == if self.config_of(asset@) is None {
                Err::<(), HubError>(HubError::AssetNotSupported)
            } else if amount_of(old(position).supplied_assets@, asset@) + amount > u128::MAX {
                Err(HubError::Arithmetic)
            } else {
                Ok(())
            },
            r is Err ==> *final(position) == *old(position),
            r is Ok ==> final(position).supplied_assets@ == put(
                old(position).supplied_assets@,
                asset@,
                (amount_of(old(position).supplied_assets@, asset@) + amount) as u128,
            ),
            r is Ok ==> amount_of(final(position).supplied_assets@, asset@) == amount_of(old(position).supplied_assets@, asset@)
                + amount,
            r is Ok ==> forall|other: Seq<char>|
                other != asset@ ==> #[trigger] lookup(final(position).supplied_assets@, other) == lookup(
                    old(position).supplied_assets@,
                    other,
                ),
    {
        if !self.is_asset_supported(asset) {
            return Err(HubError::AssetNotSupported);
        }
        Self::update_user_supply_position(position, asset, amount)
    }
}

/// A position whose debt side counts for nothing has the greatest health
/// factor, whatever it has supplied: much, nothing, or more than the machine
/// integers can value.
pub proof fn lemma_no_debt(
    hub: StellarDeFiHub,
    market: Seq<AssetFeed>,
    now: u64,
    supplied: Seq<(Seq<char>, u128)>,
    borrowed: Seq<(Seq<char>, u128)>,
    additional: Option<(Seq<char>, u128)>,
)
    requires
        hub.debt_value(market, now, borrowed, additional) == Ok::<u128, HubError>(0),
    ensures
        hub.health(market, now, supplied, borrowed, additional) == Ok::<u128, HubError>(NO_DEBT),
{
}

/// A position that has borrowed nothing, with no further borrow considered,
/// has a debt side that counts for nothing.
pub proof fn lemma_nothing_borrowed(hub: StellarDeFiHub, market: Seq<AssetFeed>, now: u64, supplied: Seq<
    (Seq<char>, u128),
>)
    ensures
        hub.debt_value(market, now, Seq::<(Seq<char>, u128)>::empty(), None) == Ok::<u128, HubError>(0),
        hub.health(market, now, supplied, Seq::<(Seq<char>, u128)>::empty(), None) == Ok::<u128, HubError>(
            NO_DEBT,
        ),
{
}

/// A borrow of a registered asset under which the health factor stays at
/// 1_200_000 or more is let through with that health factor, where the new
/// borrowed balance fits the machine integers. The position it leaves holds
/// the old borrowed balance of the asset plus the amount, and every other
/// borrowed balance as it was.
pub proof fn lemma_borrow_let_through(
    hub: StellarDeFiHub,
    market: Seq<AssetFeed>,
    now: u64,
    supplied: Seq<(Seq<char>, u128)>,
    borrowed: Seq<(Seq<char>, u128)>,
    key: Seq<char>,
    amount: u128,
    other: Seq<char>,
)
    requires
        distinct_keys(borrowed),
        hub.config_of(key) is Some,
        hub.health(market, now, supplied, borrowed, Some((key, amount))) is Ok,
        hub.health(market, now, supplied, borrowed, Some((key, amount)))->Ok_0 >= MIN_HEALTH_FACTOR,
        amount_of(borrowed, key) + amount <= u128::MAX,
    ensures
        hub.borrow_gate(market, now, supplied, borrowed, key, amount) == hub.health(
            market,
            now,
            supplied,
            borrowed,
            Some((key, amount)),
        ),
        amount_of(put(borrowed, key, (amount_of(borrowed, key) + amount) as u128), key) == amount_of(borrowed, key)
            + amount,
        other != key ==> lookup(put(borrowed, key, (amount_of(borrowed, key) + amount) as u128), other) == lookup(
            borrowed,
            other,
        ),
{
    lemma_put(borrowed, key, (amount_of(borrowed, key) + amount) as u128, other);
}

/// A borrow under which the health factor would fall below 1_200_000 is
/// turned down for want of collateral.
pub proof fn lemma_borrow_needs_collateral(
    hub: StellarDeFiHub,
    market: Seq<AssetFeed>,
    now: u64,
    supplied: Seq<(Seq<char>, u128)>,
    borrowed: Seq<(Seq<char>, u128)>,
    key: Seq<char>,
    amount: u128,
)
    requires
        hub.config_of(key) is Some,
        hub.health(market, now, supplied, borrowed, Some((key, amount))) is Ok,
        hub.health(market, now, supplied, borrowed, Some((key, amount)))->Ok_0 < MIN_HEALTH_FACTOR,
    ensures
        hub.borrow_gate(market, now, supplied, borrowed, key, amount) == Err::<u128, HubError>(
            HubError::InsufficientCollateral,
        ),
{
}

} // verus!
