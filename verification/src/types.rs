//! The records of the hub: addresses, asset configurations, positions, pools,
//! price observations and the errors an operation can end in.

use vstd::prelude::*;
use crate::balances::Balances;

verus! {

/// An account or contract identifier, held as its textual key.
#[derive(Debug)]
pub struct Address {
    pub key: String,
}

impl View for Address {
    type V = Seq<char>;

    open spec fn view(&self) -> Seq<char> {
        self.key@
    }
}

impl Clone for Address {
    fn clone(&self) -> (r: Self)
        ensures
            r == *self,
    {
        Address { key: self.key.clone() }
    }
}

impl Address {
    pub fn new(key: &str) -> (r: Address)
        ensures
            r@ == key@,
    {
        Address { key: String::from_str(key) }
    }

    /// Whether two addresses carry the same key.
    pub fn same(&self, other: &Address) -> (r: bool)
        ensures
            r == (self@ == other@),
    {
        self.key == other.key
    }
}

/// A lending pool resolved for one asset.
#[derive(Debug)]
pub struct BlendPool {
    pub pool_id: Address,
    pub underlying_asset: Address,
    pub reserve_asset: Address,
}

/// What one user has supplied, borrowed and staked, with the rewards settled so far.
#[derive(Debug)]
pub struct UserPosition {
    pub supplied_assets: Balances,
    pub borrowed_assets: Balances,
    pub staked_lp_tokens: Balances,
    pub rewards_earned: u128,
    pub last_reward_update: u64,
}

impl UserPosition {
    /// Every balance table keeps one entry per asset.
    pub open spec fn wf(&self) -> bool {
        &&& self.supplied_assets.wf()
        &&& self.borrowed_assets.wf()
        &&& self.staked_lp_tokens.wf()
    }

    /// The record of a user seen for the first time at `now`.
    pub fn new(now: u64) -> (r: UserPosition)
        ensures
            r.wf(),
            r.supplied_assets@ == Seq::<(Seq<char>, u128)>::empty(),
            r.borrowed_assets@ == Seq::<(Seq<char>, u128)>::empty(),
            r.staked_lp_tokens@ == Seq::<(Seq<char>, u128)>::empty(),
            r.rewards_earned == 0,
            r.last_reward_update == now,
    {
        UserPosition {
            supplied_assets: Balances::new(),
            borrowed_assets: Balances::new(),
            staked_lp_tokens: Balances::new(),
            rewards_earned: 0,
            last_reward_update: now,
        }
    }
}

/// The accumulator of one staked-token type.
#[derive(Clone, Copy, Debug, PartialEq, Eq, Structural)]
pub struct StakingPool {
    pub total_staked: u128,
    pub reward_rate: u128,
    pub last_update_time: u64,
    pub reward_per_token_stored: u128,
    pub total_rewards_distributed: u128,
}

/// The registered configuration of one asset.
#[derive(Debug)]
pub struct AssetConfig {
    pub address: Address,
    pub symbol: String,
    pub decimals: u32,
    pub collateral_factor: u128,
    pub is_collateral: bool,
    pub dia_symbol: String,
}

impl Clone for AssetConfig {
    fn clone(&self) -> (r: Self)
        ensures
            r == *self,
    {
        AssetConfig {
            address: self.address.clone(),
            symbol: self.symbol.clone(),
            decimals: self.decimals,
            collateral_factor: self.collateral_factor,
            is_collateral: self.is_collateral,
            dia_symbol: self.dia_symbol.clone(),
        }
    }
}

#[derive(Clone, Copy, Debug, PartialEq, Eq, Structural)]
pub enum HubError {
    OracleFailure,
    InsufficientLiquidity,
    InvalidAsset,
    PriceStale,
    PoolNotFound,
    InsufficientCollateral,
    AssetNotSupported,
    SwapFailed,
    /// The caller is not the stored administrator.
    Unauthorized,
    /// The deadline of the request lies in the past.
    DeadlineExpired,
    /// The hub was initialized before, or not yet.
    Initialization,
    /// An arithmetic step has no result: a value does not fit the machine
    /// integers, a divisor is zero, or a stored timestamp lies after the
    /// current time.
    Arithmetic,
}

impl HubError {
    /// The numeric code under which the error is reported.
    pub fn code(&self) -> (r: u32)
        ensures
            r == match *self {
                HubError::OracleFailure => 1u32,
                HubError::InsufficientLiquidity => 2u32,
                HubError::InvalidAsset => 3u32,
                HubError::PriceStale => 4u32,
                HubError::PoolNotFound => 5u32,
                HubError::InsufficientCollateral => 6u32,
                HubError::AssetNotSupported => 7u32,
                HubError::SwapFailed => 8u32,
                HubError::Unauthorized => 9u32,
                HubError::DeadlineExpired => 10u32,
                HubError::Initialization => 11u32,
                HubError::Arithmetic => 12u32,
            },
    {
        match self {
            HubError::OracleFailure => 1,
            HubError::InsufficientLiquidity => 2,
            HubError::InvalidAsset => 3,
            HubError::PriceStale => 4,
            HubError::PoolNotFound => 5,
            HubError::InsufficientCollateral => 6,
            HubError::AssetNotSupported => 7,
            HubError::SwapFailed => 8,
            HubError::Unauthorized => 9,
            HubError::DeadlineExpired => 10,
            HubError::Initialization => 11,
            HubError::Arithmetic => 12,
        }
    }
}

/// Where the oracle lives and how its observations are read.
#[derive(Debug)]
pub struct DIAOracleConfig {
    pub oracle_address: Address,
    pub max_price_age: u64,
    pub price_precision: u128,
}

/// One observation as the oracle reports it, in eight decimals.
#[derive(Clone, Copy, Debug, PartialEq, Eq, Structural)]
pub struct DIAPriceData {
    pub price: u128,
    pub timestamp: u64,
    pub round_id: u64,
}

/// The kind of source a candidate price came from.
#[derive(Clone, Copy, Debug, PartialEq, Eq, Structural)]
pub enum SourceKind {
    Oracle,
    Dex,
    Admin,
    Mock,
}

impl SourceKind {
    /// The name under which the kind is reported.
    pub fn label(&self) -> (r: &'static str)
        ensures
            r@ == match *self {
                SourceKind::Oracle => "oracle"@,
                SourceKind::Dex => "dex"@,
                SourceKind::Admin => "admin"@,
                SourceKind::Mock => "mock"@,
            },
    {
        match self {
            SourceKind::Oracle => "oracle",
            SourceKind::Dex => "dex",
            SourceKind::Admin => "admin",
            SourceKind::Mock => "mock",
        }
    }
}

/// One candidate price with the trust placed in it.
#[derive(Clone, Copy, Debug, PartialEq, Eq, Structural)]
pub struct PriceSource {
    pub source_type: SourceKind,
    pub price: u128,
    pub timestamp: u64,
    pub confidence: u32,
}

/// The answer of the exchange to one simulated trade.
#[derive(Clone, Copy, Debug, PartialEq, Eq, Structural)]
pub struct DexPriceInfo {
    pub price: u128,
    pub liquidity: u128,
    pub last_trade_time: u64,
}

/// The singleton configuration of the hub.
#[derive(Debug)]
pub struct StellarDeFiHub {
    pub admin: Option<Address>,
    pub oracle: Option<DIAOracleConfig>,
    pub reward_rate: Option<u128>,
    pub reward_start: u64,
    pub assets: Vec<AssetConfig>,
    pub initialized: bool,
}

} // verus!
