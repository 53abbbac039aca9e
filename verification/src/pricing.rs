//! The price aggregator: up to four candidate prices per asset, each with a
//! confidence, reconciled into one authoritative price.

use vstd::prelude::*;
use crate::registry::{
    lemma_find_config, lemma_pow10_at_most, lemma_pow10_grows, pow10, reference_asset, reference_key, ten_to,
};
use crate::types::{Address, DIAPriceData, DexPriceInfo, HubError, PriceSource, SourceKind, StellarDeFiHub};

verus! {

/// The decimals in which the oracle and the fallback table quote.
pub const QUOTE_DECIMALS: u32 = 8;

pub const ORACLE_CONFIDENCE: u32 = 90;

pub const DEX_CONFIDENCE: u32 = 85;

pub const ADMIN_CONFIDENCE: u32 = 70;

pub const MOCK_CONFIDENCE: u32 = 50;

/// A source of this confidence or more is taken alone.
pub const TRUSTED_CONFIDENCE: u32 = 90;

/// The greatest divergence, in percent of the greater price, up to which two
/// sources are averaged.
pub const MAX_DIVERGENCE: u128 = 5;

/// The liquidity that a quote has to exceed.
pub const MIN_LIQUIDITY: u128 = 10_000_000_000;

/// The notional amount of a simulated trade.
pub const TEST_AMOUNT: u128 = 1_000_000;

/// How long an emergency price stays valid, in seconds.
pub const EMERGENCY_PRICE_MAX_AGE: u64 = 86400;

/// A price set by the administrator, with the time at which it was set.
#[derive(Clone, Copy, Debug, PartialEq, Eq, Structural)]
pub struct EmergencyPrice {
    pub price: u128,
    pub set_time: u64,
}

/// What the outside world answered about one asset: the oracle's observation,
/// the exchange's quotes for a trade into and out of the reference asset, and
/// the stored emergency price. Each is absent where its source gave nothing.
#[derive(Clone, Copy, Debug, PartialEq, Eq, Structural)]
pub struct PriceFeeds {
    pub oracle: Option<DIAPriceData>,
    pub dex_forward: Option<DexPriceInfo>,
    pub dex_reverse: Option<DexPriceInfo>,
    pub admin: Option<EmergencyPrice>,
}

/// An eight-decimal quote in the decimals of the asset, as a number.
pub open spec fn scaled(price: u128, decimals: u32) -> int {
    if decimals < QUOTE_DECIMALS {
        price as int / pow10((QUOTE_DECIMALS - decimals) as nat) as int
    } else {
        price * pow10((decimals - QUOTE_DECIMALS) as nat)
    }
}

/// An eight-decimal quote in the decimals of the asset, where that fits.
pub open spec fn normalized(price: u128, decimals: u32) -> Result<u128, HubError> {
    if scaled(price, decimals) > u128::MAX {
        Err(HubError::Arithmetic)
    } else {
        Ok(scaled(price, decimals) as u128)
    }
}

/// The fallback quote of a symbol, in eight decimals.
pub open spec fn mock_quote(symbol: Seq<char>) -> Option<u128> {
    if symbol == "USDC"@ {
        Some(100_000_000u128)
    } else if symbol == "USDT"@ {
        Some(100_000_000u128)
    } else if symbol == "XLM"@ {
        Some(12_000_000u128)
    } else if symbol == "BTC"@ {
        Some(4_300_000_000_000u128)
    } else if symbol == "ETH"@ {
        Some(260_000_000_000u128)
    } else if symbol == "AQUA"@ {
        Some(5_000_000u128)
    } else if symbol == "VELO"@ {
        Some(8_000_000u128)
    } else if symbol == "SHX"@ {
        Some(15_000_000u128)
    } else if symbol == "WXT"@ {
        Some(3_000_000u128)
    } else if symbol == "RIO"@ {
        Some(25_000_000u128)
    } else if symbol == "BLND"@ {
        Some(45_000_000u128)
    } else {
        None
    }
}

/// What an emergency price is worth at `now`: its price while it is no older
/// than a day, and nothing where none is stored, where it is older, or where
/// it is dated after `now`.
pub open spec fn admin_price(cached: Option<EmergencyPrice>, now: u64) -> Option<u128> {
    match cached {
        None => None,
        Some(e) => if e.set_time <= now && now - e.set_time <= EMERGENCY_PRICE_MAX_AGE {
            Some(e.price)
        } else {
            None
        },
    }
}

/// A quote that can be used: enough liquidity and a price above zero.
pub open spec fn usable_quote(q: Option<DexPriceInfo>) -> bool {
    q is Some && q->0.liquidity > MIN_LIQUIDITY && q->0.price > 0
}

/// The candidate that one source contributes, if it has a price.
pub open spec fn candidate(kind: SourceKind, price: Option<u128>, now: u64, confidence: u32) -> Seq<
    PriceSource,
> {
    match price {
        Some(p) => seq![PriceSource { source_type: kind, price: p, timestamp: now, confidence }],
        None => Seq::empty(),
    }
}

/// The sequence with the items at `i` and `j` exchanged.
pub open spec fn exchanged(s: Seq<PriceSource>, i: int, j: int) -> Seq<PriceSource> {
    s.update(i, s[j]).update(j, s[i])
}

/// One pass of the ranking: slot `i` is compared with each later slot from
/// `j` on, and takes the later item whenever that has strictly more confidence.
pub open spec fn sift(s: Seq<PriceSource>, i: int, j: int) -> Seq<PriceSource>
    decreases s.len() - j,
{
    if i < 0 || j <= i || j >= s.len() {
        s
    } else if s[i].confidence < s[j].confidence {
        sift(exchanged(s, i, j), i, j + 1)
    } else {
        sift(s, i, j + 1)
    }
}

/// The candidates with the two of most confidence in the first two places.
pub open spec fn ranked(s: Seq<PriceSource>) -> Seq<PriceSource> {
    sift(sift(s, 0, 1), 1, 2)
}

/// Whether two prices diverge by more than five percent of the greater one:
/// a hundred times their gap exceeds five times the greater price.
pub open spec fn diverges(a: u128, b: u128) -> bool {
    if a > b {
        (a - b) * 100 > MAX_DIVERGENCE * a
    } else {
        (b - a) * 100 > MAX_DIVERGENCE * b
    }
}

/// The sum of two prices, each weighted with its confidence.
pub open spec fn weighted_sum(best: PriceSource, second: PriceSource) -> int {
    best.price * best.confidence + second.price * second.confidence
}

/// The one price that the two candidates of most confidence give: that of
/// the first where it is trusted outright or the two diverge by more than five
/// percent, else the average of the two, each weighted with its confidence.
/// The average has no result where both confidences are zero or the weighted
/// sum does not fit the machine integers.
pub open spec fn blend(best: PriceSource, second: PriceSource) -> Result<u128, HubError> {
    let total = best.confidence + second.confidence;
    if best.confidence >= TRUSTED_CONFIDENCE {
        Ok(best.price)
    } else if diverges(best.price, second.price) {
        Ok(best.price)
    } else if total == 0 || weighted_sum(best, second) > u128::MAX {
        Err(HubError::Arithmetic)
    } else {
        Ok((weighted_sum(best, second) / total) as u128)
    }
}

/// The authoritative price that a set of candidates gives.
pub open spec fn best_price(s: Seq<PriceSource>) -> Result<Option<u128>, HubError> {
    if s.len() == 0 {
        Ok(None)
    } else if s.len() == 1 {
        Ok(Some(s[0].price))
    } else {
        match blend(ranked(s)[0], ranked(s)[1]) {
            Ok(p) => Ok(Some(p)),
            Err(e) => Err(e),
        }
    }
}

/// Brings an eight-decimal quote to `decimals` decimals.
pub fn normalize(price: u128, decimals: u32) -> (r: Result<u128, HubError>)
    requires
        decimals <= 18,
    ensures
        r == normalized(price, decimals),
{
    if decimals < QUOTE_DECIMALS {
        let d = ten_to(QUOTE_DECIMALS - decimals);
        Ok(price / d)
    } else {
        let m = ten_to(decimals - QUOTE_DECIMALS);
        match price.checked_mul(m) {
            Some(p) => Ok(p),
            None => Err(HubError::Arithmetic),
        }
    }
}

fn is_symbol(s: &String, name: &str) -> (r: bool)
    ensures
        r == (s@ == name@),
{
    let t = String::from_str(name);
    *s == t
}

fn mock_quote_of(symbol: &String) -> (r: Option<u128>)
    ensures
        r == mock_quote(symbol@),
{
    if is_symbol(symbol, "USDC") {
        Some(100_000_000)
    } else if is_symbol(symbol, "USDT") {
        Some(100_000_000)
    } else if is_symbol(symbol, "XLM") {
        Some(12_000_000)
    } else if is_symbol(symbol, "BTC") {
        Some(4_300_000_000_000)
    } else if is_symbol(symbol, "ETH") {
        Some(260_000_000_000)
    } else if is_symbol(symbol, "AQUA") {
        Some(5_000_000)
    } else if is_symbol(symbol, "VELO") {
        Some(8_000_000)
    } else if is_symbol(symbol, "SHX") {
        Some(15_000_000)
    } else if is_symbol(symbol, "WXT") {
        Some(3_000_000)
    } else if is_symbol(symbol, "RIO") {
        Some(25_000_000)
    } else if is_symbol(symbol, "BLND") {
        Some(45_000_000)
    } else {
        None
    }
}

/// A fallback quote stays far below the machine limit in any precision that
/// an asset may declare.
pub proof fn lemma_mock_quote_fits(symbol: Seq<char>, decimals: u32)
    requires
        decimals <= 18,
        mock_quote(symbol) is Some,
    ensures
        0 <= scaled(mock_quote(symbol)->0, decimals) <= 43_000_000_000_000_000_000_000,
{
    let p = mock_quote(symbol)->0;
    assert(p <= 4_300_000_000_000);
    if decimals < QUOTE_DECIMALS {
        let d = pow10((QUOTE_DECIMALS - decimals) as nat);
        lemma_pow10_at_most((QUOTE_DECIMALS - decimals) as nat);
        assert(0 <= p as int / d as int <= p) by (nonlinear_arith)
            requires
                d >= 1,
                p >= 0,
        ;
    } else {
        let m = pow10((decimals - QUOTE_DECIMALS) as nat);
        lemma_pow10_grows((decimals - QUOTE_DECIMALS) as nat, 10);
        reveal_with_fuel(pow10, 11);
        assert(pow10(10) == 10_000_000_000);
        assert(0 <= p * m <= 4_300_000_000_000 * 10_000_000_000) by (nonlinear_arith)
            requires
                0 <= p <= 4_300_000_000_000,
                0 <= m <= 10_000_000_000,
        ;
    }
}

/// Turns the exchange's answer to a simulated trade into a quote.
pub fn simulate_dex_swap(quote: Option<(u128, u128)>, now: u64) -> (r: Option<DexPriceInfo>)
    ensures
        r == match quote {
            Some(q) => Some(DexPriceInfo { price: q.0, liquidity: q.1, last_trade_time: now }),
            None => None,
        },
{
    match quote {
        Some((amount_out, liquidity)) => Some(
            DexPriceInfo { price: amount_out, liquidity, last_trade_time: now },
        ),
        None => None,
    }
}

/// The emergency price, while it is not older than a day. A price dated
/// after `now` counts as absent.
pub fn get_admin_price(cached: Option<EmergencyPrice>, now: u64) -> (r: Option<u128>)
    ensures
        r == admin_price(cached, now),
{
    match cached {
        None => None,
        Some(e) => {
            if e.set_time <= now && now - e.set_time <= EMERGENCY_PRICE_MAX_AGE {
                Some(e.price)
            } else {
                None
            }
        },
    }
}

fn sift_from(v: &mut Vec<PriceSource>, i: usize)
    requires
        i < old(v)@.len(),
    ensures
        final(v)@ == sift(old(v)@, i as int, i + 1),
{
    let n = v.len();
    let mut j: usize = i + 1;
    while j < n
        invariant
            i < j <= n,
            v@.len() == n,
            sift(v@, i as int, j as int) == sift(old(v)@, i as int, i + 1),
        decreases n - j,
    {
        let a = v[i];
        let b = v[j];
        if a.confidence < b.confidence {
            let ghost before = v@;
            v.set(i, b);
            v.set(j, a);
            assert(v@ =~= exchanged(before, i as int, j as int));
        }
        j += 1;
    }
}

/// Reconciles the two candidates of most confidence: the first alone where it
/// is trusted outright or the two diverge by more than five percent, their
/// confidence-weighted average otherwise.
pub fn blend_prices(best: &PriceSource, second: &PriceSource) -> (r: Result<u128, HubError>)
    ensures
        r == blend(*best, *second),
{
    if best.confidence >= TRUSTED_CONFIDENCE {
        return Ok(best.price);
    }
    let hi = if best.price > second.price { best.price } else { second.price };
    let lo = if best.price > second.price { second.price } else { best.price };
    // A hundred gaps exceed five times `hi` exactly where one gap exceeds the
    // twentieth part of `hi`, rounded down: this form cannot overflow.
    if hi - lo > hi / 20 {
        return Ok(best.price);
    }
    let total: u128 = best.confidence as u128 + second.confidence as u128;
    if total == 0 {
        return Err(HubError::Arithmetic);
    }
    proof {
        assert(best.price * best.confidence >= 0 && second.price * second.confidence >= 0) by (nonlinear_arith)
            requires
                best.price >= 0,
                best.confidence >= 0,
                second.price >= 0,
                second.confidence >= 0,
        ;
    }
    let a = match best.price.checked_mul(best.confidence as u128) {
        Some(a) => a,
        None => { return Err(HubError::Arithmetic); },
    };
    let b = match second.price.checked_mul(second.confidence as u128) {
        Some(b) => b,
        None => { return Err(HubError::Arithmetic); },
    };
    match a.checked_add(b) {
        Some(sum) => Ok(sum / total),
        None => Err(HubError::Arithmetic),
    }
}

/// The authoritative price of a set of candidates: none for no candidate, the
/// candidate's own for one, and for more the reconciliation of the two of most
/// confidence.
pub fn select_best_price(sources: &Vec<PriceSource>) -> (r: Result<Option<u128>, HubError>)
    ensures
        r == best_price(sources@),
{
    if sources.len() == 0 {
        return Ok(None);
    }
    if sources.len() == 1 {
        return Ok(Some(sources[0].price));
    }
    let mut sorted: Vec<PriceSource> = Vec::new();
    let mut k: usize = 0;
    while k < sources.len()
        invariant
            k <= sources@.len(),
            sorted@ == sources@.subrange(0, k as int),
        decreases sources@.len() - k,
    {
        sorted.push(sources[k]);
        assert(sorted@ =~= sources@.subrange(0, k + 1));
        k += 1;
    }
    assert(sorted@ =~= sources@);
    proof {
        lemma_sift_len(sources@, 0, 1);
        lemma_sift_len(sift(sources@, 0, 1), 1, 2);
    }
    sift_from(&mut sorted, 0);
    sift_from(&mut sorted, 1);
    let best = sorted[0];
    let second = sorted[1];
    match blend_prices(&best, &second) {
        Ok(p) => Ok(Some(p)),
        Err(e) => Err(e),
    }
}

/// A pass keeps the length.
pub proof fn lemma_sift_len(s: Seq<PriceSource>, i: int, j: int)
    ensures
        sift(s, i, j).len() == s.len(),
    decreases s.len() - j,
{
    if i < 0 || j <= i || j >= s.len() {
    } else if s[i].confidence < s[j].confidence {
        lemma_sift_len(exchanged(s, i, j), i, j + 1);
    } else {
        lemma_sift_len(s, i, j + 1);
    }
}

impl StellarDeFiHub {
    /// What the oracle's observation is worth: nothing without an oracle
    /// configuration, a registered asset and an observation no older than the
    /// configured age; else the observation in the asset's decimals. An
    /// observation dated after `now`, or one that does not fit the machine
    /// integers in the asset's decimals, is a failing source and counts as
    /// absent.
    pub open spec fn oracle_price(&self, key: Seq<char>, now: u64, observation: Option<DIAPriceData>) -> Option<
        u128,
    > {
        if self.oracle is None || self.config_of(key) is None || observation is None {
            None
        } else if now < observation->0.timestamp || now - observation->0.timestamp
            > self.oracle->0.max_price_age {
            None
        } else {
            match normalized(observation->0.price, self.config_of(key)->0.decimals) {
                Ok(p) => Some(p),
                Err(_) => None,
            }
        }
    }

    /// What the exchange's quotes are worth: one whole unit for the reference
    /// asset itself, where it is registered; else the forward quote where it
    /// is usable, else the inverse of the reverse quote where that is usable.
    pub open spec fn dex_price(
        &self,
        key: Seq<char>,
        forward: Option<DexPriceInfo>,
        reverse: Option<DexPriceInfo>,
    ) -> Option<u128> {
        if key == reference_key() {
            match self.config_of(key) {
                Some(c) => Some(pow10(c.decimals as nat) as u128),
                None => None,
            }
        } else if usable_quote(forward) {
            Some(forward->0.price)
        } else if usable_quote(reverse) {
            Some((TEST_AMOUNT * TEST_AMOUNT / (reverse->0.price as int)) as u128)
        } else {
            None
        }
    }

    /// The fallback price of a registered asset whose symbol the table knows,
    /// in the asset's decimals.
    pub open spec fn mock_price(&self, key: Seq<char>) -> Option<u128> {
        match self.config_of(key) {
            Some(c) => match mock_quote(c.symbol@) {
                Some(p) => Some(scaled(p, c.decimals) as u128),
                None => None,
            },
            None => None,
        }
    }

    /// The candidates for an asset, in the order oracle, exchange,
    /// administrator, fallback: one for each source that has a price.
    pub open spec fn price_sources(&self, key: Seq<char>, now: u64, feeds: PriceFeeds) -> Seq<PriceSource> {
        candidate(SourceKind::Oracle, self.oracle_price(key, now, feeds.oracle), now, ORACLE_CONFIDENCE)
            + candidate(
            SourceKind::Dex,
            self.dex_price(key, feeds.dex_forward, feeds.dex_reverse),
            now,
            DEX_CONFIDENCE,
        ) + candidate(SourceKind::Admin, admin_price(feeds.admin, now), now, ADMIN_CONFIDENCE) + candidate(
            SourceKind::Mock,
            self.mock_price(key),
            now,
            MOCK_CONFIDENCE,
        )
    }

    /// The authoritative price of an asset, absent where no source has one.
    pub open spec fn price_of(&self, key: Seq<char>, now: u64, feeds: PriceFeeds) -> Result<
        Option<u128>,
        HubError,
    > {
        best_price(self.price_sources(key, now, feeds))
    }

    /// Reads the oracle's observation for `asset`. An observation that cannot
    /// be used counts as absent.
    pub fn try_dia_oracle(&self, asset: &Address, now: u64, observation: Option<DIAPriceData>) -> (r: Option<u128>)
        requires
            self.wf(),
        ensures
            r == self.oracle_price(asset@, now, observation),
    {
        proof {
            lemma_find_config(self.assets@, asset@, 0);
        }
        let max_age = match &self.oracle {
            Some(o) => o.max_price_age,
            None => { return None; },
        };
        let config = match self.get_asset_config(asset) {
            Ok(c) => c,
            Err(_) => { return None; },
        };
        let data = match observation {
            Some(d) => d,
            None => { return None; },
        };
        if now < data.timestamp || now - data.timestamp > max_age {
            return None;
        }
        match normalize(data.price, config.decimals) {
            Ok(p) => Some(p),
            Err(_) => None,
        }
    }

    /// Reads the exchange's quotes for `asset`.
    pub fn get_dex_price(&self, asset: &Address, forward: Option<DexPriceInfo>, reverse: Option<DexPriceInfo>) -> (r:
        Option<u128>)
        requires
            self.wf(),
        ensures
            r == self.dex_price(asset@, forward, reverse),
    {
        let reference = reference_asset();
        if asset.same(&reference) {
            return match self.get_asset_base_price(asset) {
                Ok(p) => Some(p),
                Err(_) => None,
            };
        }
        if let Some(info) = forward {
            if info.liquidity > MIN_LIQUIDITY && info.price > 0 {
                return Some(info.price);
            }
        }
        if let Some(info) = reverse {
            if info.liquidity > MIN_LIQUIDITY && info.price > 0 {
                return Some((TEST_AMOUNT * TEST_AMOUNT) / info.price);
            }
        }
        None
    }

    /// The fallback price of `asset`.
    pub fn get_mock_price(&self, asset: &Address) -> (r: Option<u128>)
        requires
            self.wf(),
        ensures
            r == self.mock_price(asset@),
    {
        proof {
            lemma_find_config(self.assets@, asset@, 0);
        }
        let config = match self.get_asset_config(asset) {
            Ok(c) => c,
            Err(_) => { return None; },
        };
        let quote = match mock_quote_of(&config.symbol) {
            Some(q) => q,
            None => { return None; },
        };
        proof {
            lemma_mock_quote_fits(config.symbol@, config.decimals);
        }
        match normalize(quote, config.decimals) {
            Ok(p) => Some(p),
            Err(_) => None,
        }
    }

    /// Collects the candidates for `asset` from whatever sources answered.
    pub fn get_price_sources(&self, asset: &Address, now: u64, feeds: &PriceFeeds) -> (r: Vec<PriceSource>)
        requires
            self.wf(),
        ensures
            r@ == self.price_sources(asset@, now, *feeds),
    {
        let mut sources: Vec<PriceSource> = Vec::new();
        let oracle = self.try_dia_oracle(asset, now, feeds.oracle);
        if let Some(p) = oracle {
            sources.push(
                PriceSource { source_type: SourceKind::Oracle, price: p, timestamp: now, confidence: ORACLE_CONFIDENCE },
            );
        }
        assert(sources@ =~= candidate(SourceKind::Oracle, oracle, now, ORACLE_CONFIDENCE));
        let dex = self.get_dex_price(asset, feeds.dex_forward, feeds.dex_reverse);
        let ghost s1 = sources@;
        if let Some(p) = dex {
            sources.push(
                PriceSource { source_type: SourceKind::Dex, price: p, timestamp: now, confidence: DEX_CONFIDENCE },
            );
        }
        assert(sources@ =~= s1 + candidate(SourceKind::Dex, dex, now, DEX_CONFIDENCE));
        let admin = get_admin_price(feeds.admin, now);
        let ghost s2 = sources@;
        if let Some(p) = admin {
            sources.push(
                PriceSource { source_type: SourceKind::Admin, price: p, timestamp: now, confidence: ADMIN_CONFIDENCE },
            );
        }
        assert(sources@ =~= s2 + candidate(SourceKind::Admin, admin, now, ADMIN_CONFIDENCE));
        let mock = self.get_mock_price(asset);
        let ghost s3 = sources@;
        if let Some(p) = mock {
            sources.push(
                PriceSource { source_type: SourceKind::Mock, price: p, timestamp: now, confidence: MOCK_CONFIDENCE },
            );
        }
        assert(sources@ =~= s3 + candidate(SourceKind::Mock, mock, now, MOCK_CONFIDENCE));
        sources
    }

    /// The authoritative price of `asset`, absent where no source has one. It
    /// fails only where the average of two sources does not fit the machine
    /// integers.
    pub fn get_asset_price_safe(&self, asset: &Address, now: u64, feeds: &PriceFeeds) -> (r: Result<
        Option<u128>,
        HubError,
    >)
        requires
            self.wf(),
        ensures
            r == self.price_of(asset@, now, *feeds),
    {
        let sources = self.get_price_sources(asset, now, feeds);
        select_best_price(&sources)
    }

    /// The authoritative price of `asset`; `OracleFailure` where no source
    /// has one.
    pub fn get_asset_price(&self, asset: &Address, now: u64, feeds: &PriceFeeds) -> (r: Result<u128, HubError>)
        requires
            self.wf(),
        ensures
            r == match self.price_of(asset@, now, *feeds) {
                Ok(Some(p)) => Ok::<u128, HubError>(p),
                Ok(None) => Err(HubError::OracleFailure),
                Err(e) => Err(e),
            },
    {
        match self.get_asset_price_safe(asset, now, feeds) {
            Ok(Some(p)) => Ok(p),
            Ok(None) => Err(HubError::OracleFailure),
            Err(e) => Err(e),
        }
    }

    /// The emergency price that the administrator sets for a registered asset
    /// at `now`, for the caller to store.
    pub fn set_emergency_price(&self, admin: &Address, asset: &Address, price: u128, now: u64) -> (r: Result<
        EmergencyPrice,
        HubError,
    >)
        ensures
            r == if !self.is_admin(admin@) {
                Err::<EmergencyPrice, HubError>(HubError::Unauthorized)
            } else if self.config_of(asset@) is None {
                Err(HubError::AssetNotSupported)
            } else {
                Ok(EmergencyPrice { price, set_time: now })
            },
    {
        if !self.check_admin(admin) {
            return Err(HubError::Unauthorized);
        }
        if !self.is_asset_supported(asset) {
            return Err(HubError::AssetNotSupported);
        }
        Ok(EmergencyPrice { price, set_time: now })
    }
}

/// A pass leaves the slots before `i` alone, keeps every bound on the
/// confidences from slot `i` on, holds the same items as before, and ends
/// with slot `i` holding at least the confidence of every later slot.
pub proof fn lemma_sift(s: Seq<PriceSource>, i: int, j: int, bound: u32)
    requires
        0 <= i < j <= s.len(),
        forall|k: int| i < k < j ==> s[i].confidence >= (#[trigger] s[k]).confidence,
    ensures
        sift(s, i, j).len() == s.len(),
        forall|k: int| 0 <= k < i ==> #[trigger] sift(s, i, j)[k] == s[k],
        forall|k: int| i < k < s.len() ==> sift(s, i, j)[i].confidence >= (#[trigger] sift(s, i, j)[k]).confidence,
        (forall|k: int| i <= k < s.len() ==> (#[trigger] s[k]).confidence <= bound) ==> (forall|k: int|
            i <= k < s.len() ==> (#[trigger] sift(s, i, j)[k]).confidence <= bound),
        forall|x: PriceSource| s.contains(x) <==> #[trigger] sift(s, i, j).contains(x),
    decreases s.len() - j,
{
    if j >= s.len() {
    } else if s[i].confidence < s[j].confidence {
        let t = exchanged(s, i, j);
        assert forall|k: int| i < k < j + 1 implies t[i].confidence >= (#[trigger] t[k]).confidence by {
            if k < j {
                assert(t[k] == s[k]);
            }
        }
        lemma_sift(t, i, j + 1, bound);
        assert forall|x: PriceSource| s.contains(x) <==> t.contains(x) by {
            if s.contains(x) {
                let m = choose|m: int| 0 <= m < s.len() && s[m] == x;
                let m2 = if m == i { j } else if m == j { i } else { m };
                assert(t[m2] == x);
            }
            if t.contains(x) {
                let m = choose|m: int| 0 <= m < t.len() && t[m] == x;
                let m2 = if m == i { j } else if m == j { i } else { m };
                assert(s[m2] == x);
            }
        }
        if forall|k: int| i <= k < s.len() ==> (#[trigger] s[k]).confidence <= bound {
            assert forall|k: int| i <= k < t.len() implies (#[trigger] t[k]).confidence <= bound by {
                if k == i {
                    assert(s[j].confidence <= bound);
                } else if k == j {
                    assert(s[i].confidence <= bound);
                } else {
                    assert(t[k] == s[k]);
                }
            }
        }
    } else {
        lemma_sift(s, i, j + 1, bound);
    }
}

/// The ranking holds the same items as the candidates it was given, its first
/// item has the most confidence of all, and its second the most of the rest.
pub proof fn lemma_ranked(s: Seq<PriceSource>)
    requires
        s.len() >= 2,
    ensures
        ranked(s).len() == s.len(),
        forall|x: PriceSource| s.contains(x) <==> #[trigger] ranked(s).contains(x),
        forall|k: int| 0 <= k < s.len() ==> ranked(s)[0].confidence >= (#[trigger] ranked(s)[k]).confidence,
        forall|k: int| 1 <= k < s.len() ==> ranked(s)[1].confidence >= (#[trigger] ranked(s)[k]).confidence,
{
    let t = sift(s, 0, 1);
    lemma_sift(s, 0, 1, 0);
    lemma_sift(t, 1, 2, t[0].confidence);
    assert forall|x: PriceSource| s.contains(x) <==> #[trigger] ranked(s).contains(x) by {
        assert(s.contains(x) <==> t.contains(x));
        assert(t.contains(x) <==> sift(t, 1, 2).contains(x));
    }
}

/// A pass changes nothing where slot `i` already holds at least the
/// confidence of every slot from `j` on.
pub proof fn lemma_sift_keeps_top(s: Seq<PriceSource>, i: int, j: int)
    requires
        0 <= i < j,
        forall|k: int| j <= k < s.len() ==> s[i].confidence >= (#[trigger] s[k]).confidence,
    ensures
        sift(s, i, j) == s,
    decreases s.len() - j,
{
    if j < s.len() {
        assert(s[i].confidence >= s[j].confidence);
        lemma_sift_keeps_top(s, i, j + 1);
    }
}

/// A first candidate that is trusted outright, and has at least the
/// confidence of every other, decides the price alone.
pub proof fn lemma_trusted_source(s: Seq<PriceSource>)
    requires
        s.len() >= 1,
        s[0].confidence >= TRUSTED_CONFIDENCE,
        forall|k: int| 0 <= k < s.len() ==> s[0].confidence >= (#[trigger] s[k]).confidence,
    ensures
        best_price(s) == Ok::<Option<u128>, HubError>(Some(s[0].price)),
{
    if s.len() >= 2 {
        lemma_sift_keeps_top(s, 0, 1);
        lemma_sift(s, 1, 2, 0);
        assert(ranked(s)[0] == s[0]);
    }
}

/// Where the oracle has a price for an asset, that price is the price of the
/// asset, whatever the other sources say.
pub proof fn lemma_oracle_decides(hub: StellarDeFiHub, key: Seq<char>, now: u64, feeds: PriceFeeds)
    requires
        hub.oracle_price(key, now, feeds.oracle) is Some,
    ensures
        hub.price_of(key, now, feeds) == Ok::<Option<u128>, HubError>(
            Some(hub.oracle_price(key, now, feeds.oracle)->0),
        ),
{
    let a = candidate(SourceKind::Oracle, hub.oracle_price(key, now, feeds.oracle), now, ORACLE_CONFIDENCE);
    let b = candidate(
        SourceKind::Dex,
        hub.dex_price(key, feeds.dex_forward, feeds.dex_reverse),
        now,
        DEX_CONFIDENCE,
    );
    let c = candidate(SourceKind::Admin, admin_price(feeds.admin, now), now, ADMIN_CONFIDENCE);
    let d = candidate(SourceKind::Mock, hub.mock_price(key), now, MOCK_CONFIDENCE);
    let s = hub.price_sources(key, now, feeds);
    assert(s == a + b + c + d);
    assert(a.len() == 1 && a[0].confidence == ORACLE_CONFIDENCE);
    assert(forall|k: int| 0 <= k < b.len() ==> (#[trigger] b[k]).confidence == DEX_CONFIDENCE);
    assert(forall|k: int| 0 <= k < c.len() ==> (#[trigger] c[k]).confidence == ADMIN_CONFIDENCE);
    assert(forall|k: int| 0 <= k < d.len() ==> (#[trigger] d[k]).confidence == MOCK_CONFIDENCE);
    assert(s[0] == a[0]);
    assert forall|k: int| 0 <= k < s.len() implies s[0].confidence >= (#[trigger] s[k]).confidence by {
        if k < 1 {
        } else if k < 1 + b.len() {
            assert(s[k] == b[k - 1]);
        } else if k < 1 + b.len() + c.len() {
            assert(s[k] == c[k - 1 - b.len()]);
        } else {
            assert(s[k] == d[k - 1 - b.len() - c.len()]);
        }
    }
    lemma_trusted_source(s);
}

/// With only the fallback table answering for a registered asset, the price
/// is the table's quote in the asset's decimals, exactly.
pub proof fn lemma_mock_only(hub: StellarDeFiHub, key: Seq<char>, now: u64, feeds: PriceFeeds)
    requires
        hub.wf(),
        hub.oracle_price(key, now, feeds.oracle) is None,
        hub.dex_price(key, feeds.dex_forward, feeds.dex_reverse) is None,
        admin_price(feeds.admin, now) is None,
        hub.config_of(key) is Some,
        mock_quote(hub.config_of(key)->0.symbol@) is Some,
    ensures
        scaled(mock_quote(hub.config_of(key)->0.symbol@)->0, hub.config_of(key)->0.decimals) <= u128::MAX,
        hub.price_of(key, now, feeds) == Ok::<Option<u128>, HubError>(
            Some(scaled(mock_quote(hub.config_of(key)->0.symbol@)->0, hub.config_of(key)->0.decimals) as u128),
        ),
{
    let c = hub.config_of(key)->0;
    lemma_find_config(hub.assets@, key, 0);
    lemma_mock_quote_fits(c.symbol@, c.decimals);
    let sources = hub.price_sources(key, now, feeds);
    let only = PriceSource {
        source_type: SourceKind::Mock,
        price: scaled(mock_quote(c.symbol@)->0, c.decimals) as u128,
        timestamp: now,
        confidence: MOCK_CONFIDENCE,
    };
    assert(sources =~= seq![only]);
}

/// Where neither of the two candidates of most confidence is trusted
/// outright and their prices diverge by more than five percent, the price is
/// that of the first of them, unchanged, and never an average.
pub proof fn lemma_divergent_sources(s: Seq<PriceSource>)
    requires
        s.len() >= 2,
        ranked(s)[0].confidence < TRUSTED_CONFIDENCE,
        ranked(s)[1].confidence < TRUSTED_CONFIDENCE,
        diverges(ranked(s)[0].price, ranked(s)[1].price),
    ensures
        best_price(s) == Ok::<Option<u128>, HubError>(Some(ranked(s)[0].price)),
{
}

/// Where neither of the two candidates of most confidence is trusted
/// outright and their prices diverge by five percent or less, the price is
/// the sum of the two prices, each weighted with its confidence, over the sum
/// of the two confidences, rounded down. The weighted sum has to fit the
/// machine integers, and the two confidences must not both be zero.
pub proof fn lemma_close_sources_average(s: Seq<PriceSource>)
    requires
        s.len() >= 2,
        ranked(s)[0].confidence < TRUSTED_CONFIDENCE,
        ranked(s)[1].confidence < TRUSTED_CONFIDENCE,
        !diverges(ranked(s)[0].price, ranked(s)[1].price),
        ranked(s)[0].confidence + ranked(s)[1].confidence > 0,
        weighted_sum(ranked(s)[0], ranked(s)[1]) <= u128::MAX,
    ensures
        best_price(s) == Ok::<Option<u128>, HubError>(
            Some(
                ((ranked(s)[0].price * ranked(s)[0].confidence + ranked(s)[1].price * ranked(s)[1].confidence) / (
                ranked(s)[0].confidence + ranked(s)[1].confidence)) as u128,
            ),
        ),
{
    let best = ranked(s)[0];
    let second = ranked(s)[1];
    assert(best.price * best.confidence >= 0 && second.price * second.confidence >= 0) by (nonlinear_arith)
        requires
            best.price >= 0,
            best.confidence >= 0,
            second.price >= 0,
            second.confidence >= 0,
    ;
}

/// Two sets of candidates with the same two candidates of most confidence
/// have the same price: no candidate below the first two has any influence.
pub proof fn lemma_top_two_decide(s: Seq<PriceSource>, t: Seq<PriceSource>)
    requires
        s.len() >= 2,
        t.len() >= 2,
        ranked(s)[0] == ranked(t)[0],
        ranked(s)[1] == ranked(t)[1],
    ensures
        best_price(s) == best_price(t),
{
}

/// The confidence-weighted average of two prices lies between them, ends
/// included. It lies strictly between them exactly where the lower price has
/// a confidence above zero and the gap, weighted with the confidence of the
/// higher price, reaches the sum of the two confidences.
pub proof fn lemma_close_sources(s: Seq<PriceSource>)
    requires
        s.len() >= 2,
        ranked(s)[0].confidence < TRUSTED_CONFIDENCE,
        ranked(s)[1].confidence < TRUSTED_CONFIDENCE,
        !diverges(ranked(s)[0].price, ranked(s)[1].price),
        blend(ranked(s)[0], ranked(s)[1]) is Ok,
    ensures
        best_price(s) is Ok,
        best_price(s)->Ok_0 is Some,
        ({
            let best = ranked(s)[0];
            let second = ranked(s)[1];
            let p = best_price(s)->Ok_0->0;
            let hi = if best.price > second.price { best } else { second };
            let lo = if best.price > second.price { second } else { best };
            &&& lo.price <= p <= hi.price
            &&& (lo.price < p < hi.price) <==> (lo.confidence > 0 && (hi.price - lo.price) * hi.confidence
                >= lo.confidence + hi.confidence)
        }),
{
    let best = ranked(s)[0];
    let second = ranked(s)[1];
    let hi = if best.price > second.price { best } else { second };
    let lo = if best.price > second.price { second } else { best };
    let total = (best.confidence + second.confidence) as int;
    let gap = (hi.price - lo.price) as int;
    let extra = gap * hi.confidence;
    assert(total > 0);
    assert(weighted_sum(best, second) == lo.price * total + extra) by (nonlinear_arith)
        requires
            weighted_sum(best, second) == lo.price * lo.confidence + hi.price * hi.confidence,
            total == lo.confidence + hi.confidence,
            gap == hi.price - lo.price,
            extra == gap * hi.confidence,
    ;
    assert(extra >= 0) by (nonlinear_arith)
        requires
            extra == gap * hi.confidence,
            gap >= 0,
            hi.confidence >= 0,
    ;
    vstd::arithmetic::div_mod::lemma_hoist_over_denominator(extra, lo.price as int, total as nat);
    assert(lo.price * total == total * lo.price) by (nonlinear_arith);
    assert(weighted_sum(best, second) / total == lo.price + extra / total);
    lemma_share(gap, hi.confidence as int, lo.confidence as int);
}

/// The share `gap * part / (part + rest)` of a gap: at most the gap; below the
/// gap exactly where the gap and the rest are above zero; at least one exactly
/// where `gap * part` reaches `part + rest`.
pub proof fn lemma_share(gap: int, part: int, rest: int)
    requires
        gap >= 0,
        part >= 0,
        rest >= 0,
        part + rest > 0,
    ensures
        0 <= gap * part / (part + rest) <= gap,
        gap * part / (part + rest) < gap <==> (gap > 0 && rest > 0),
        gap * part / (part + rest) >= 1 <==> gap * part >= part + rest,
{
    let t = part + rest;
    let x = gap * part;
    let q = x / t;
    vstd::arithmetic::div_mod::lemma_fundamental_div_mod(x, t);
    vstd::arithmetic::div_mod::lemma_mod_bound(x, t);
    assert(x == t * q + x % t);
    assert(0 <= x % t < t);
    assert(x >= 0) by (nonlinear_arith)
        requires
            x == gap * part,
            gap >= 0,
            part >= 0,
    ;
    assert(x + gap * rest == gap * t) by (nonlinear_arith)
        requires
            x == gap * part,
            t == part + rest,
    ;
    assert(gap * rest >= 0) by (nonlinear_arith)
        requires
            gap >= 0,
            rest >= 0,
    ;
    assert(q >= 0) by (nonlinear_arith)
        requires
            x == t * q + x % t,
            0 <= x % t < t,
            x >= 0,
            t > 0,
    ;
    assert(q <= gap) by (nonlinear_arith)
        requires
            x == t * q + x % t,
            0 <= x % t < t,
            x <= gap * t,
            t > 0,
    ;
    if gap > 0 && rest > 0 {
        assert(gap * rest >= t - part) by (nonlinear_arith)
            requires
                gap >= 1,
                rest >= 1,
                t == part + rest,
        ;
        assert(gap * rest >= 1) by (nonlinear_arith)
            requires
                gap >= 1,
                rest >= 1,
        ;
        assert(q < gap) by (nonlinear_arith)
            requires
                x == t * q + x % t,
                0 <= x % t < t,
                x + gap * rest == gap * t,
                gap * rest >= 1,
                t > 0,
                q <= gap,
        ;
    } else {
        assert(gap * rest == 0) by (nonlinear_arith)
            requires
                gap >= 0,
                rest >= 0,
                !(gap > 0 && rest > 0),
        ;
        assert(q == gap) by (nonlinear_arith)
            requires
                x == t * q + x % t,
                0 <= x % t < t,
                x == gap * t,
                t > 0,
        ;
    }
    if x >= t {
        assert(q >= 1) by (nonlinear_arith)
            requires
                x == t * q + x % t,
                0 <= x % t < t,
                x >= t,
                t > 0,
        ;
    } else {
        assert(q < 1) by (nonlinear_arith)
            requires
                x == t * q + x % t,
                0 <= x % t < t,
                x < t,
                t > 0,
                q >= 0,
        ;
    }
}

} // verus!
