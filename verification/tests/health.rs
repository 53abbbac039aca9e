use stellar_defi_hub::health::{feeds_for, AssetFeed};
use stellar_defi_hub::pricing::{EmergencyPrice, PriceFeeds};
use stellar_defi_hub::{Address, AssetConfig, DexPriceInfo, HubError, StellarDeFiHub, UserPosition};

const USDC: &str = "GBBD47IF6LWK7P7MDEVSCWR7DPUWV3NY3DTQEVFL4NAT4AQH3ZLLFLA5";

fn config(address: &str, symbol: &str, decimals: u32, factor: u128) -> AssetConfig {
    AssetConfig {
        address: Address::new(address),
        symbol: symbol.to_string(),
        decimals,
        collateral_factor: factor,
        is_collateral: factor > 0,
        dia_symbol: symbol.to_string(),
    }
}

fn two_asset_hub() -> StellarDeFiHub {
    let mut hub = StellarDeFiHub::new();
    hub.register_assets(vec![config(USDC, "USDC", 6, 8500), config("native", "XLM", 7, 7000)]).unwrap();
    hub
}

fn silent() -> PriceFeeds {
    PriceFeeds { oracle: None, dex_forward: None, dex_reverse: None, admin: None }
}

#[test]
fn position_without_debt_has_the_greatest_health() {
    let hub = two_asset_hub();
    let mut position = UserPosition::new(0);
    let market: Vec<AssetFeed> = Vec::new();
    assert_eq!(hub.calculate_health_factor(&position, &market, 10, None), Ok(u128::MAX));
    hub.supply_to_blend(&mut position, &Address::new(USDC), 1_000_000_000).unwrap();
    assert_eq!(hub.calculate_health_factor(&position, &market, 10, None), Ok(u128::MAX));
    assert_eq!(hub.calculate_health_factor_internal(&position, &market, 10, None), Ok(u128::MAX));
}

#[test]
fn collateral_and_debt_are_valued_by_price() {
    let hub = two_asset_hub();
    let market: Vec<AssetFeed> = Vec::new();
    let usdc = Address::new(USDC);
    let xlm = Address::new("native");
    assert_eq!(hub.value_of(&market, 10, &usdc, 1_000_000_000, true), Ok(850_000_000));
    assert_eq!(hub.value_of(&market, 10, &usdc, 1_000_000_000, false), Ok(1_000_000_000));
    assert_eq!(hub.value_of(&market, 10, &xlm, 5_000_000_000, false), Ok(600_000_000));
    assert_eq!(hub.value_of(&market, 10, &xlm, 5_000_000_000, true), Ok(420_000_000));
}

#[test]
fn health_is_collateral_over_debt() {
    let hub = two_asset_hub();
    let mut position = UserPosition::new(0);
    let market: Vec<AssetFeed> = Vec::new();
    let xlm = Address::new("native");
    hub.supply_to_blend(&mut position, &Address::new(USDC), 1_000_000_000).unwrap();
    assert_eq!(
        hub.calculate_health_factor(&position, &market, 10, Some((&xlm, 5_000_000_000))),
        Ok(1_416_666)
    );
    assert_eq!(
        hub.calculate_health_factor(&position, &market, 10, Some((&xlm, 10_000_000_000))),
        Ok(708_333)
    );
}

#[test]
fn borrow_within_the_bound_succeeds_and_is_recorded() {
    let hub = two_asset_hub();
    let mut position = UserPosition::new(0);
    let market: Vec<AssetFeed> = Vec::new();
    let xlm = Address::new("native");
    hub.supply_to_blend(&mut position, &Address::new(USDC), 1_000_000_000).unwrap();
    assert_eq!(position.supplied_assets.get(&Address::new(USDC)), Some(1_000_000_000));
    assert_eq!(hub.borrow_from_blend(&mut position, &market, 10, &xlm, 5_902_777_783), Ok(1_200_000));
    assert_eq!(position.borrowed_assets.get(&xlm), Some(5_902_777_783));
    assert_eq!(position.borrowed_assets.len(), 1);
    assert_eq!(position.supplied_assets.get(&Address::new(USDC)), Some(1_000_000_000));
}

#[test]
fn borrow_beyond_the_bound_is_rejected_and_changes_nothing() {
    let hub = two_asset_hub();
    let mut position = UserPosition::new(0);
    let market: Vec<AssetFeed> = Vec::new();
    let xlm = Address::new("native");
    hub.supply_to_blend(&mut position, &Address::new(USDC), 1_000_000_000).unwrap();
    assert_eq!(
        hub.borrow_from_blend(&mut position, &market, 10, &xlm, 5_902_777_784),
        Err(HubError::InsufficientCollateral)
    );
    assert_eq!(position.borrowed_assets.len(), 0);
    assert_eq!(position.borrowed_assets.get(&xlm), None);
    assert_eq!(position.supplied_assets.len(), 1);
    assert_eq!(position.rewards_earned, 0);
    assert_eq!(position.last_reward_update, 0);
}

#[test]
fn earlier_debt_counts_against_a_new_borrow() {
    let hub = two_asset_hub();
    let mut position = UserPosition::new(0);
    let market: Vec<AssetFeed> = Vec::new();
    let xlm = Address::new("native");
    hub.supply_to_blend(&mut position, &Address::new(USDC), 1_000_000_000).unwrap();
    assert_eq!(hub.borrow_from_blend(&mut position, &market, 10, &xlm, 5_000_000_000), Ok(1_416_666));
    assert_eq!(
        hub.borrow_from_blend(&mut position, &market, 10, &xlm, 5_000_000_000),
        Err(HubError::InsufficientCollateral)
    );
    assert_eq!(position.borrowed_assets.get(&xlm), Some(5_000_000_000));
    assert!(hub.borrow_from_blend(&mut position, &market, 10, &xlm, 100_000_000).is_ok());
    assert_eq!(position.borrowed_assets.get(&xlm), Some(5_100_000_000));
}

#[test]
fn borrow_of_an_unregistered_asset_is_rejected() {
    let hub = two_asset_hub();
    let mut position = UserPosition::new(0);
    let market: Vec<AssetFeed> = Vec::new();
    assert_eq!(
        hub.borrow_from_blend(&mut position, &market, 10, &Address::new("nobody"), 1),
        Err(HubError::AssetNotSupported)
    );
    assert_eq!(
        hub.supply_to_blend(&mut position, &Address::new("nobody"), 1),
        Err(HubError::AssetNotSupported)
    );
    assert_eq!(position.supplied_assets.len(), 0);
}

#[test]
fn asset_without_a_price_counts_for_nothing() {
    let mut hub = StellarDeFiHub::new();
    hub.register_assets(vec![config("D", "DOGE", 6, 8000), config("native", "XLM", 7, 7000)]).unwrap();
    let mut position = UserPosition::new(0);
    let market: Vec<AssetFeed> = Vec::new();
    hub.supply_to_blend(&mut position, &Address::new("D"), 1_000_000).unwrap();
    assert_eq!(hub.value_of(&market, 10, &Address::new("D"), 1_000_000, true), Ok(0));
    assert_eq!(
        hub.calculate_health_factor(&position, &market, 10, Some((&Address::new("native"), 10_000_000))),
        Ok(0)
    );
    assert_eq!(hub.borrow_from_blend(&mut position, &market, 10, &Address::new("D"), 5), Ok(u128::MAX));
    assert_eq!(position.borrowed_assets.get(&Address::new("D")), Some(5));
}

#[test]
fn priced_asset_without_configuration_fails_the_calculation() {
    let hub = two_asset_hub();
    let stranger = Address::new("stranger");
    let quote = DexPriceInfo { price: 1_000, liquidity: 20_000_000_000, last_trade_time: 0 };
    let market = vec![AssetFeed {
        asset: stranger.clone(),
        feeds: PriceFeeds { oracle: None, dex_forward: Some(quote), dex_reverse: None, admin: None },
    }];
    assert_eq!(hub.value_of(&market, 10, &stranger, 5, true), Err(HubError::AssetNotSupported));
    assert_eq!(hub.value_of(&market, 10, &stranger, 5, false), Err(HubError::AssetNotSupported));
    let empty: Vec<AssetFeed> = Vec::new();
    assert_eq!(hub.value_of(&empty, 10, &stranger, 5, true), Ok(0));
}

#[test]
fn value_that_does_not_fit_is_an_error() {
    let hub = two_asset_hub();
    let market: Vec<AssetFeed> = Vec::new();
    let xlm = Address::new("native");
    assert_eq!(hub.value_of(&market, 10, &xlm, u128::MAX, false), Err(HubError::Arithmetic));
    assert_eq!(hub.value_of(&market, 10, &xlm, u128::MAX / 1_200_000, true), Err(HubError::Arithmetic));
    let mut position = UserPosition::new(0);
    hub.supply_to_blend(&mut position, &xlm, u128::MAX).unwrap();
    assert_eq!(hub.supply_to_blend(&mut position, &xlm, 1), Err(HubError::Arithmetic));
    assert_eq!(hub.calculate_health_factor(&position, &market, 10, None), Ok(u128::MAX));
    assert_eq!(
        hub.calculate_health_factor(&position, &market, 10, Some((&xlm, 100))),
        Err(HubError::Arithmetic)
    );
}

#[test]
fn position_without_debt_never_fails_on_its_collateral() {
    let hub = two_asset_hub();
    let stranger = Address::new("stranger");
    let quote = DexPriceInfo { price: 1_000, liquidity: 20_000_000_000, last_trade_time: 0 };
    let market = vec![AssetFeed {
        asset: stranger.clone(),
        feeds: PriceFeeds { oracle: None, dex_forward: Some(quote), dex_reverse: None, admin: None },
    }];
    let mut position = UserPosition::new(0);
    position.supplied_assets.set(&stranger, 5);
    assert_eq!(hub.calculate_health_factor(&position, &market, 10, None), Ok(u128::MAX));
    let xlm = Address::new("native");
    assert_eq!(hub.calculate_health_factor(&position, &market, 10, Some((&xlm, 1))), Ok(u128::MAX));
    assert_eq!(
        hub.calculate_health_factor(&position, &market, 10, Some((&xlm, 100))),
        Err(HubError::AssetNotSupported)
    );
}

#[test]
fn borrow_leaves_every_other_balance_alone() {
    let hub = two_asset_hub();
    let market: Vec<AssetFeed> = Vec::new();
    let usdc = Address::new(USDC);
    let xlm = Address::new("native");
    let token = Address::new("bUSDC");
    let mut position = UserPosition::new(3);
    position.rewards_earned = 9;
    position.staked_lp_tokens.set(&token, 4);
    hub.supply_to_blend(&mut position, &usdc, 1_000_000_000).unwrap();
    hub.borrow_from_blend(&mut position, &market, 10, &usdc, 100_000_000).unwrap();
    hub.borrow_from_blend(&mut position, &market, 10, &xlm, 1_000_000_000).unwrap();
    hub.borrow_from_blend(&mut position, &market, 10, &xlm, 500).unwrap();
    assert_eq!(position.borrowed_assets.get(&xlm), Some(1_000_000_500));
    assert_eq!(position.borrowed_assets.get(&usdc), Some(100_000_000));
    assert_eq!(position.borrowed_assets.len(), 2);
    assert_eq!(position.supplied_assets.get(&usdc), Some(1_000_000_000));
    assert_eq!(position.supplied_assets.len(), 1);
    assert_eq!(position.staked_lp_tokens.get(&token), Some(4));
    assert_eq!(position.rewards_earned, 9);
    assert_eq!(position.last_reward_update, 3);
    assert_eq!(
        hub.borrow_from_blend(&mut position, &market, 10, &xlm, 100_000_000_000),
        Err(HubError::InsufficientCollateral)
    );
    assert_eq!(position.borrowed_assets.get(&xlm), Some(1_000_000_500));
}

#[test]
fn snapshot_is_read_by_asset() {
    let fed = PriceFeeds {
        oracle: None,
        dex_forward: None,
        dex_reverse: None,
        admin: Some(EmergencyPrice { price: 9, set_time: 3 }),
    };
    let market = vec![
        AssetFeed { asset: Address::new("A"), feeds: fed },
        AssetFeed { asset: Address::new("A"), feeds: silent() },
    ];
    assert_eq!(feeds_for(&market, &Address::new("A")), fed);
    assert_eq!(feeds_for(&market, &Address::new("B")), silent());
}

#[test]
fn emergency_price_moves_the_health_factor() {
    let hub = two_asset_hub();
    let mut position = UserPosition::new(0);
    let xlm = Address::new("native");
    hub.supply_to_blend(&mut position, &Address::new(USDC), 1_000_000_000).unwrap();
    let market = vec![AssetFeed {
        asset: xlm.clone(),
        feeds: PriceFeeds {
            oracle: None,
            dex_forward: None,
            dex_reverse: None,
            admin: Some(EmergencyPrice { price: 2_400_000, set_time: 5 }),
        },
    }];
    assert_eq!(
        hub.calculate_health_factor(&position, &market, 10, Some((&xlm, 5_000_000_000))),
        Ok(708_333)
    );
}

#[test]
fn asset_that_is_no_collateral_counts_for_nothing_when_supplied() {
    let mut hub = StellarDeFiHub::new();
    hub.register_assets(vec![config("native", "XLM", 7, 0)]).unwrap();
    let market: Vec<AssetFeed> = Vec::new();
    let xlm = Address::new("native");
    assert_eq!(hub.value_of(&market, 10, &xlm, 5_000_000_000, true), Ok(0));
    assert_eq!(hub.value_of(&market, 10, &xlm, 5_000_000_000, false), Ok(600_000_000));
    let mut position = UserPosition::new(0);
    hub.supply_to_blend(&mut position, &xlm, 5_000_000_000).unwrap();
    assert_eq!(
        hub.borrow_from_blend(&mut position, &market, 10, &xlm, 1),
        Ok(u128::MAX)
    );
    assert_eq!(
        hub.borrow_from_blend(&mut position, &market, 10, &xlm, 100),
        Err(HubError::InsufficientCollateral)
    );
}
