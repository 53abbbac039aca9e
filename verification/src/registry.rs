//! The asset registry and the singleton configuration of the hub: the
//! built-in table, lookup by address, and the administrator's settings.

use vstd::prelude::*;
use crate::types::{Address, AssetConfig, DIAOracleConfig, HubError, StellarDeFiHub};

verus! {

/// How many slots of the registry a lookup walks.
pub const REGISTRY_SLOTS: usize = 10;

/// How many rows the built-in asset table has.
pub const DEFAULT_ASSET_ROWS: usize = 21;

/// The greatest decimal precision an asset may declare.
pub const MAX_DECIMALS: u32 = 18;

/// The greatest collateral factor, in basis points.
pub const MAX_COLLATERAL_FACTOR: u128 = 10000;

pub const DEFAULT_REWARD_RATE: u128 = 1000;

pub const MAX_PRICE_AGE: u64 = 3600;

pub const ORACLE_PRECISION: u128 = 100_000_000;

/// Ten to the power `d`.
pub open spec fn pow10(d: nat) -> nat
    decreases d,
{
    if d == 0 {
        1
    } else {
        10 * pow10((d - 1) as nat)
    }
}

pub proof fn lemma_pow10_grows(a: nat, b: nat)
    requires
        a <= b,
    ensures
        1 <= pow10(a) <= pow10(b),
    decreases b,
{
    if b == 0 {
    } else if a == b {
        lemma_pow10_grows((a - 1) as nat, (a - 1) as nat);
    } else {
        lemma_pow10_grows(a, (b - 1) as nat);
    }
}

pub proof fn lemma_pow10_at_most(d: nat)
    requires
        d <= 18,
    ensures
        1 <= pow10(d) <= 1_000_000_000_000_000_000,
{
    lemma_pow10_grows(d, 18);
    reveal_with_fuel(pow10, 19);
    assert(pow10(18) == 1_000_000_000_000_000_000);
}

/// Ten to the power `d`, for a precision that an asset may declare.
pub fn ten_to(d: u32) -> (r: u128)
    requires
        d <= MAX_DECIMALS,
    ensures
        r == pow10(d as nat),
        1 <= r <= 1_000_000_000_000_000_000,
{
    let mut r: u128 = 1;
    let mut i: u32 = 0;
    while i < d
        invariant
            i <= d <= 18,
            r == pow10(i as nat),
        decreases d - i,
    {
        proof {
            lemma_pow10_at_most((i + 1) as nat);
        }
        r = r * 10;
        i += 1;
    }
    proof {
        lemma_pow10_at_most(d as nat);
    }
    r
}

/// The configuration that a walk over the first slots, starting at `from`,
/// finds first under `key`.
pub open spec fn find_config(assets: Seq<AssetConfig>, key: Seq<char>, from: int) -> Option<AssetConfig>
    decreases assets.len() - from,
{
    if from < 0 || from >= assets.len() || from >= REGISTRY_SLOTS {
        None
    } else if assets[from].address@ == key {
        Some(assets[from])
    } else {
        find_config(assets, key, from + 1)
    }
}

/// A configuration whose numbers lie in their ranges.
pub open spec fn valid_config(c: AssetConfig) -> bool {
    c.decimals <= MAX_DECIMALS && c.collateral_factor <= MAX_COLLATERAL_FACTOR
}

pub proof fn lemma_find_config(assets: Seq<AssetConfig>, key: Seq<char>, from: int)
    requires
        forall|i: int| 0 <= i < assets.len() ==> valid_config(#[trigger] assets[i]),
        0 <= from,
    ensures
        match find_config(assets, key, from) {
            Some(c) => valid_config(c) && c.address@ == key,
            None => true,
        },
    decreases assets.len() - from,
{
    if from >= assets.len() || from >= REGISTRY_SLOTS {
    } else if assets[from].address@ == key {
    } else {
        lemma_find_config(assets, key, from + 1);
    }
}

/// Address, symbol, decimals and collateral factor of the first ten rows of
/// the built-in table.
pub open spec fn base_row(i: int) -> (Seq<char>, Seq<char>, u32, u128) {
    if i == 0 {
        ("GBBD47IF6LWK7P7MDEVSCWR7DPUWV3NY3DTQEVFL4NAT4AQH3ZLLFLA5"@, "USDC"@, 6u32, 8500u128)
    } else if i == 1 {
        ("GCKFBEIYTKP5RDBKDC7QNURHCZGB2HMCQSZXEBT4OATXKBMUWQE5H7J4"@, "USDT"@, 6u32, 8500u128)
    } else if i == 2 {
        ("native"@, "XLM"@, 7u32, 7000u128)
    } else if i == 3 {
        ("GDXTJEK4JZNSTNQAWA53RZNS2MDXYD2SMT6Q7JH2CU2B6Y2DRX6XM3UB"@, "BTC"@, 8u32, 7500u128)
    } else if i == 4 {
        ("GBETHKBLNBSBXVLTKWLB6L3X3RTMAKKI64JUNNQO5EUXYYTYO3O3G2YH"@, "ETH"@, 18u32, 7500u128)
    } else if i == 5 {
        ("GBNZILSTVQZ4R7IKQDGHYGY2QXL5QOFJYQMXPKWRRM5PAV7Y4M67AQUA"@, "AQUA"@, 7u32, 6000u128)
    } else if i == 6 {
        ("GDM4RQUQQUVSKQA7S6EM7XBZP3FCGH4Q7CL6TABQ7B2BEJ5ERARM2M5M"@, "VELO"@, 7u32, 6000u128)
    } else if i == 7 {
        ("GDSTRSHXHGJ7ZIVRBXEYE5Q74XUVCUSEKEBR7UCHEUUEK72N7I7KJ6JH"@, "SHX"@, 6u32, 6500u128)
    } else if i == 8 {
        ("GASBLVHS5FOABSDNW5SPPH3QRJYXY5JHA2AOA2QHH2FJLZBRXSG4SWXT"@, "WXT"@, 6u32, 6000u128)
    } else {
        ("GBNLJIYH34UWO5YZFA3A3HD3N76R6DOI33N4JONUOHEEYZYCAYTEJ5AK"@, "RIO"@, 7u32, 6000u128)
    }
}

/// Row `i` of the built-in table. Rows ten to nineteen repeat the first ten,
/// the two stable coins under a second issuer; the last row is BLND.
pub open spec fn default_row(i: int) -> (Seq<char>, Seq<char>, u32, u128) {
    if i == 10 {
        ("GA5ZSE9EQLFZB5E34TRTFWNW5T76W2KQZ7ZYPZB2O2C3Y5QTKH7C5OL6"@, "USDC"@, 6u32, 8500u128)
    } else if i == 11 {
        ("GAP5LETOVHK3YHGGQ5DLVZ5P7FSVJYZAPVZCFAWAW7A4M23TLH6Y2D2I"@, "USDT"@, 6u32, 8500u128)
    } else if i == 20 {
        ("GDJEHTBE6ZHUXSWFI642DCGLUOECLHPF3KSXHPXTSTJ7E3JF6MQ5EZYY"@, "BLND"@, 7u32, 6500u128)
    } else if i >= 12 {
        base_row(i - 10)
    } else {
        base_row(i)
    }
}

/// The configuration that a row of the table stands for.
pub open spec fn is_row(c: AssetConfig, row: (Seq<char>, Seq<char>, u32, u128)) -> bool {
    &&& c.address@ == row.0
    &&& c.symbol@ == row.1
    &&& c.decimals == row.2
    &&& c.collateral_factor == row.3
    &&& c.is_collateral == (row.3 > 0)
    &&& c.dia_symbol@ == row.1
}

/// The address of the reference stable asset.
pub open spec fn reference_key() -> Seq<char> {
    "GBBD47IF6LWK7P7MDEVSCWR7DPUWV3NY3DTQEVFL4NAT4AQH3ZLLFLA5"@
}

/// The address of the oracle contract.
pub open spec fn oracle_key() -> Seq<char> {
    "CAEDPEZDRCEJCF73ASC5JGNKCIJDV2QJQSW6DJ6B74MYALBNKCJ5IFP4"@
}

pub fn reference_asset() -> (r: Address)
    ensures
        r@ == reference_key(),
{
    Address::new("GBBD47IF6LWK7P7MDEVSCWR7DPUWV3NY3DTQEVFL4NAT4AQH3ZLLFLA5")
}

fn make_asset(address: &str, symbol: &str, decimals: u32, collateral_factor: u128) -> (r: AssetConfig)
    ensures
        is_row(r, (address@, symbol@, decimals, collateral_factor)),
{
    AssetConfig {
        address: Address::new(address),
        symbol: String::from_str(symbol),
        decimals,
        collateral_factor,
        is_collateral: collateral_factor > 0,
        dia_symbol: String::from_str(symbol),
    }
}

fn base_asset(i: usize) -> (r: AssetConfig)
    ensures
        is_row(r, base_row(i as int)),
{
    if i == 0 {
        make_asset("GBBD47IF6LWK7P7MDEVSCWR7DPUWV3NY3DTQEVFL4NAT4AQH3ZLLFLA5", "USDC", 6, 8500)
    } else if i == 1 {
        make_asset("GCKFBEIYTKP5RDBKDC7QNURHCZGB2HMCQSZXEBT4OATXKBMUWQE5H7J4", "USDT", 6, 8500)
    } else if i == 2 {
        make_asset("native", "XLM", 7, 7000)
    } else if i == 3 {
        make_asset("GDXTJEK4JZNSTNQAWA53RZNS2MDXYD2SMT6Q7JH2CU2B6Y2DRX6XM3UB", "BTC", 8, 7500)
    } else if i == 4 {
        make_asset("GBETHKBLNBSBXVLTKWLB6L3X3RTMAKKI64JUNNQO5EUXYYTYO3O3G2YH", "ETH", 18, 7500)
    } else if i == 5 {
        make_asset("GBNZILSTVQZ4R7IKQDGHYGY2QXL5QOFJYQMXPKWRRM5PAV7Y4M67AQUA", "AQUA", 7, 6000)
    } else if i == 6 {
        make_asset("GDM4RQUQQUVSKQA7S6EM7XBZP3FCGH4Q7CL6TABQ7B2BEJ5ERARM2M5M", "VELO", 7, 6000)
    } else if i == 7 {
        make_asset("GDSTRSHXHGJ7ZIVRBXEYE5Q74XUVCUSEKEBR7UCHEUUEK72N7I7KJ6JH", "SHX", 6, 6500)
    } else if i == 8 {
        make_asset("GASBLVHS5FOABSDNW5SPPH3QRJYXY5JHA2AOA2QHH2FJLZBRXSG4SWXT", "WXT", 6, 6000)
    } else {
        make_asset("GBNLJIYH34UWO5YZFA3A3HD3N76R6DOI33N4JONUOHEEYZYCAYTEJ5AK", "RIO", 7, 6000)
    }
}

fn default_asset(i: usize) -> (r: AssetConfig)
    ensures
        is_row(r, default_row(i as int)),
        valid_config(r),
{
    if i == 10 {
        make_asset("GA5ZSE9EQLFZB5E34TRTFWNW5T76W2KQZ7ZYPZB2O2C3Y5QTKH7C5OL6", "USDC", 6, 8500)
    } else if i == 11 {
        make_asset("GAP5LETOVHK3YHGGQ5DLVZ5P7FSVJYZAPVZCFAWAW7A4M23TLH6Y2D2I", "USDT", 6, 8500)
    } else if i == 20 {
        make_asset("GDJEHTBE6ZHUXSWFI642DCGLUOECLHPF3KSXHPXTSTJ7E3JF6MQ5EZYY", "BLND", 7, 6500)
    } else if i >= 12 {
        base_asset(i - 10)
    } else {
        base_asset(i)
    }
}

impl StellarDeFiHub {
    /// Every registered configuration has its numbers in their ranges.
    pub open spec fn wf(&self) -> bool {
        forall|i: int| 0 <= i < self.assets@.len() ==> valid_config(#[trigger] self.assets@[i])
    }

    /// The configuration registered for `key`, if a lookup finds one.
    pub open spec fn config_of(&self, key: Seq<char>) -> Option<AssetConfig> {
        find_config(self.assets@, key, 0)
    }

    /// The rate at which staked amounts earn, the default where none is stored.
    pub open spec fn base_rate(&self) -> u128 {
        match self.reward_rate {
            Some(r) => r,
            None => DEFAULT_REWARD_RATE,
        }
    }

    /// A hub that has not been initialized: no administrator, no assets.
    pub fn new() -> (r: StellarDeFiHub)
        ensures
            r.wf(),
            !r.initialized,
            r.admin is None,
            r.oracle is None,
            r.reward_rate is None,
            r.reward_start == 0,
            r.assets@.len() == 0,
    {
        StellarDeFiHub {
            admin: None,
            oracle: None,
            reward_rate: None,
            reward_start: 0,
            assets: Vec::new(),
            initialized: false,
        }
    }

    /// The built-in asset table, row by row.
    pub fn initialize_assets() -> (r: Vec<AssetConfig>)
        ensures
            r@.len() == DEFAULT_ASSET_ROWS,
            forall|i: int| 0 <= i < r@.len() ==> is_row(#[trigger] r@[i], default_row(i)),
            forall|i: int| 0 <= i < r@.len() ==> valid_config(#[trigger] r@[i]),
    {
        let mut assets: Vec<AssetConfig> = Vec::new();
        let mut i: usize = 0;
        while i < DEFAULT_ASSET_ROWS
            invariant
                i <= DEFAULT_ASSET_ROWS,
                assets@.len() == i,
                forall|k: int| 0 <= k < i ==> is_row(#[trigger] assets@[k], default_row(k)),
                forall|k: int| 0 <= k < i ==> valid_config(#[trigger] assets@[k]),
            decreases DEFAULT_ASSET_ROWS - i,
        {
            assets.push(default_asset(i));
            i += 1;
        }
        assets
    }

    /// Sets the hub up, once: stores the administrator, the oracle
    /// configuration, the built-in asset table and the default reward rate.
    pub fn initialize(&mut self, admin: Address, now: u64) -> (r: Result<(), HubError>)
        ensures
            old(self).initialized ==> r == Err::<(), HubError>(HubError::Initialization) && *final(self)
                == *old(self),
            !old(self).initialized ==> {
                &&& r is Ok
                &&& final(self).wf()
                &&& final(self).initialized
                &&& final(self).admin == Some(admin)
                &&& final(self).reward_rate == Some(DEFAULT_REWARD_RATE)
                &&& final(self).reward_start == now
                &&& final(self).oracle is Some
                &&& final(self).oracle->0.oracle_address@ == oracle_key()
                &&& final(self).oracle->0.max_price_age == MAX_PRICE_AGE
                &&& final(self).oracle->0.price_precision == ORACLE_PRECISION
                &&& final(self).assets@.len() == DEFAULT_ASSET_ROWS
                &&& forall|i: int|
                    0 <= i < DEFAULT_ASSET_ROWS ==> is_row(
                        #[trigger] final(self).assets@[i],
                        default_row(i),
                    )
            },
    {
        if self.initialized {
            return Err(HubError::Initialization);
        }
        self.admin = Some(admin);
        self.oracle = Some(
            DIAOracleConfig {
                oracle_address: Address::new("CAEDPEZDRCEJCF73ASC5JGNKCIJDV2QJQSW6DJ6B74MYALBNKCJ5IFP4"),
                max_price_age: MAX_PRICE_AGE,
                price_precision: ORACLE_PRECISION,
            },
        );
        self.assets = Self::initialize_assets();
        self.initialize_rewards(now);
        self.initialized = true;
        Ok(())
    }

    /// Starts reward tracking at `now` with the default rate.
    pub fn initialize_rewards(&mut self, now: u64)
        ensures
            final(self).reward_rate == Some(DEFAULT_REWARD_RATE),
            final(self).reward_start == now,
            final(self).admin == old(self).admin,
            final(self).oracle == old(self).oracle,
            final(self).assets == old(self).assets,
            final(self).initialized == old(self).initialized,
    {
        self.reward_rate = Some(DEFAULT_REWARD_RATE);
        self.reward_start = now;
    }

    /// Registers the caller's own configurations in place of the built-in
    /// table, before the hub is initialized. Fails with `Initialization` on an
    /// initialized hub, and with `InvalidAsset` where a configuration declares
    /// more than eighteen decimals or a collateral factor above 10000; a
    /// registration that fails changes nothing.
    pub fn register_assets(&mut self, assets: Vec<AssetConfig>) -> (r: Result<(), HubError>)
        requires
            old(self).wf(),
        ensures
            final(self).wf(),
            r == if old(self).initialized {
                Err::<(), HubError>(HubError::Initialization)
            } else if !(forall|i: int| 0 <= i < assets@.len() ==> valid_config(#[trigger] assets@[i])) {
                Err(HubError::InvalidAsset)
            } else {
                Ok(())
            },
            r is Ok ==> final(self).assets == assets,
            r is Err ==> *final(self) == *old(self),
            final(self).admin == old(self).admin,
            final(self).oracle == old(self).oracle,
            final(self).reward_rate == old(self).reward_rate,
            final(self).reward_start == old(self).reward_start,
            final(self).initialized == old(self).initialized,
    {
        if self.initialized {
            return Err(HubError::Initialization);
        }
        let mut i: usize = 0;
        while i < assets.len()
            invariant
                *self == *old(self),
                !self.initialized,
                self.wf(),
                i <= assets@.len(),
                forall|k: int| 0 <= k < i ==> valid_config(#[trigger] assets@[k]),
            decreases assets@.len() - i,
        {
            if assets[i].decimals > MAX_DECIMALS || assets[i].collateral_factor > MAX_COLLATERAL_FACTOR {
                assert(!valid_config(assets@[i as int]));
                return Err(HubError::InvalidAsset);
            }
            i += 1;
        }
        self.assets = assets;
        Ok(())
    }

    /// Whether every registered configuration has its numbers in their ranges.
    pub fn has_valid_registry(&self) -> (r: bool)
        ensures
            r == self.wf(),
    {
        let mut i: usize = 0;
        while i < self.assets.len()
            invariant
                i <= self.assets@.len(),
                forall|k: int| 0 <= k < i ==> valid_config(#[trigger] self.assets@[k]),
            decreases self.assets@.len() - i,
        {
            if self.assets[i].decimals > MAX_DECIMALS || self.assets[i].collateral_factor
                > MAX_COLLATERAL_FACTOR {
                assert(!valid_config(self.assets@[i as int]));
                return false;
            }
            i += 1;
        }
        true
    }

    /// The configuration registered for `asset`.
    pub fn get_asset_config(&self, asset: &Address) -> (r: Result<AssetConfig, HubError>)
        ensures
            match self.config_of(asset@) {
                Some(c) => r == Ok::<AssetConfig, HubError>(c),
                None => r == Err::<AssetConfig, HubError>(HubError::AssetNotSupported),
            },
    {
        let mut i: usize = 0;
        while i < self.assets.len() && i < REGISTRY_SLOTS
            invariant
                i <= self.assets@.len(),
                i <= REGISTRY_SLOTS,
                find_config(self.assets@, asset@, 0) == find_config(self.assets@, asset@, i as int),
            decreases self.assets@.len() - i,
        {
            if self.assets[i].address.same(asset) {
                return Ok(self.assets[i].clone());
            }
            i += 1;
        }
        Err(HubError::AssetNotSupported)
    }

    /// Whether a lookup finds `asset`.
    pub fn is_asset_supported(&self, asset: &Address) -> (r: bool)
        ensures
            r == self.config_of(asset@).is_some(),
    {
        self.get_asset_config(asset).is_ok()
    }

    /// One whole unit of `asset` in its smallest units: ten to its decimals.
    pub fn get_price_precision(&self, asset: &Address) -> (r: Result<u128, HubError>)
        requires
            self.wf(),
        ensures
            match self.config_of(asset@) {
                Some(c) => r == Ok::<u128, HubError>(pow10(c.decimals as nat) as u128),
                None => r == Err::<u128, HubError>(HubError::AssetNotSupported),
            },
    {
        proof {
            lemma_find_config(self.assets@, asset@, 0);
        }
        match self.get_asset_config(asset) {
            Ok(c) => Ok(ten_to(c.decimals)),
            Err(e) => Err(e),
        }
    }

    /// The price of one whole unit of the reference asset in its own units.
    pub fn get_asset_base_price(&self, asset: &Address) -> (r: Result<u128, HubError>)
        requires
            self.wf(),
        ensures
            match self.config_of(asset@) {
                Some(c) => r == Ok::<u128, HubError>(pow10(c.decimals as nat) as u128),
                None => r == Err::<u128, HubError>(HubError::AssetNotSupported),
            },
    {
        self.get_price_precision(asset)
    }

    /// The configurations that a lookup can find, in slot order.
    pub fn get_supported_assets(&self) -> (r: Vec<AssetConfig>)
        ensures
            r@.len() == (if self.assets@.len() < REGISTRY_SLOTS { self.assets@.len() } else { REGISTRY_SLOTS as nat }),
            forall|i: int| 0 <= i < r@.len() ==> #[trigger] r@[i] == self.assets@[i],
    {
        let mut out: Vec<AssetConfig> = Vec::new();
        let mut i: usize = 0;
        while i < self.assets.len() && i < REGISTRY_SLOTS
            invariant
                i <= self.assets@.len(),
                i <= REGISTRY_SLOTS,
                out@.len() == i,
                forall|k: int| 0 <= k < i ==> #[trigger] out@[k] == self.assets@[k],
            decreases self.assets@.len() - i,
        {
            out.push(self.assets[i].clone());
            i += 1;
        }
        out
    }

    /// Stores a new reward rate at the administrator's request.
    pub fn update_reward_rate(&mut self, admin: &Address, new_rate: u128) -> (r: Result<(), HubError>)
        ensures
            final(self).admin == old(self).admin,
            final(self).oracle == old(self).oracle,
            final(self).assets == old(self).assets,
            final(self).reward_start == old(self).reward_start,
            final(self).initialized == old(self).initialized,
            old(self).is_admin(admin@) ==> r is Ok && final(self).reward_rate == Some(new_rate),
            !old(self).is_admin(admin@) ==> r == Err::<(), HubError>(HubError::Unauthorized)
                && final(self).reward_rate == old(self).reward_rate,
    {
        if !self.check_admin(admin) {
            return Err(HubError::Unauthorized);
        }
        self.reward_rate = Some(new_rate);
        Ok(())
    }

    /// Whether `key` is the stored administrator.
    pub open spec fn is_admin(&self, key: Seq<char>) -> bool {
        self.admin is Some && self.admin->0@ == key
    }

    pub fn check_admin(&self, who: &Address) -> (r: bool)
        ensures
            r == self.is_admin(who@),
    {
        match &self.admin {
            Some(a) => a.same(who),
            None => false,
        }
    }
}

} // verus!
