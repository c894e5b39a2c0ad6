//! How much of a market's pool is taken up by open interest.

use crate::data_store::{DataStore, Key, Store};
use crate::failure::Failure;
use crate::market_utils;
use crate::math;
use crate::types;
use crate::types::{Address, MarketProps, PriceBoard, PriceProps};
use vstd::prelude::*;

verus! {

/// One hundred per cent in basis points.
pub const BPS_DIVISOR: u128 = 10_000;

/// The utilisation of a market.
#[derive(Clone, Copy, Debug, PartialEq, Eq, Structural)]
pub struct MarketUtilisation {
    pub pool_value_usd: u128,
    pub long_open_interest_usd: u128,
    pub short_open_interest_usd: u128,
    pub long_utilisation_bps: u32,
    pub short_utilisation_bps: u32,
    pub combined_utilisation_bps: u32,
    pub is_at_long_oi_cap: bool,
    pub is_at_short_oi_cap: bool,
}

/// The reader.
pub struct MarketUtilReader;

/// Open interest over pool value in basis points, with the fraction dropped; the
/// largest number for an empty pool.
pub open spec fn utilisation(open_interest_usd: u128, pool_value_usd: u128) -> u32 {
    if pool_value_usd == 0 {
        u32::MAX
    } else {
        let bps = math::saturated(open_interest_usd * BPS_DIVISOR) / pool_value_usd;
        if bps > u32::MAX {
            u32::MAX
        } else {
            bps as u32
        }
    }
}

/// Open interest over pool value in basis points.
pub fn utilisation_bps(open_interest_usd: u128, pool_value_usd: u128) -> (r: u32)
    ensures
        r == utilisation(open_interest_usd, pool_value_usd),
{
    if pool_value_usd == 0 {
        return u32::MAX;
    }
    let bps: u128 = math::saturating_mul(open_interest_usd, BPS_DIVISOR) / pool_value_usd;
    if bps > u32::MAX as u128 {
        u32::MAX
    } else {
        bps as u32
    }
}

/// The open interest of a side is at its cap or above it.
pub open spec fn at_cap(s: Store, m: MarketProps, is_long: bool) -> bool {
    market_utils::oi_cap(s, m, is_long) != 0 && market_utils::open_interest(s, m, is_long)
        >= market_utils::oi_cap(s, m, is_long)
}

/// The utilisation of a market whose pool has a value.
pub open spec fn utilisation_with(s: Store, m: MarketProps, pool_value: int) -> Result<
    MarketUtilisation,
    Failure,
> {
    let long_oi = market_utils::open_interest(s, m, true);
    let short_oi = market_utils::open_interest(s, m, false);
    let pool = math::at_least_zero(pool_value) as u128;
    if !math::fits_unsigned(long_oi) || !math::fits_unsigned(short_oi) {
        Err(Failure::Overflow)
    } else {
        Ok(
            MarketUtilisation {
                pool_value_usd: pool,
                long_open_interest_usd: long_oi as u128,
                short_open_interest_usd: short_oi as u128,
                long_utilisation_bps: utilisation(long_oi as u128, pool),
                short_utilisation_bps: utilisation(short_oi as u128, pool),
                combined_utilisation_bps: utilisation(math::saturated(long_oi + short_oi), pool),
                is_at_long_oi_cap: at_cap(s, m, true),
                is_at_short_oi_cap: at_cap(s, m, false),
            },
        )
    }
}

/// What `get_market_utilisation` returns.
pub open spec fn market_utilisation(
    s: Store,
    board: Map<Address, PriceProps>,
    market: Address,
) -> Result<MarketUtilisation, Failure> {
    match market_utils::registered_market(s, market) {
        Err(e) => Err(e),
        Ok(m) => match types::mid_price_of(board, m.long_token) {
            Err(e) => Err(e),
            Ok(long_price) => match types::mid_price_of(board, m.short_token) {
                Err(e) => Err(e),
                Ok(short_price) => match types::mid_price_of(board, m.index_token) {
                    Err(e) => Err(e),
                    Ok(index_price) => match market_utils::pool_value_result(
                        s,
                        m,
                        long_price as int,
                        short_price as int,
                        index_price as int,
                    ) {
                        Err(e) => Err(e),
                        Ok(info) => utilisation_with(s, m, info.pool_value as int),
                    },
                },
            },
        },
    }
}

impl MarketUtilReader {
    /// The utilisation of a market at current prices.
    pub fn get_market_utilisation(ds: &DataStore, prices: &PriceBoard, market: Address) -> (r: Result<
        MarketUtilisation,
        Failure,
    >)
        ensures
            r == market_utilisation(ds@, prices@, market),
    {
        let m = market_utils::load_market_props(ds, &market)?;
        let long_price: i128 = prices.get_mid_price(&m.long_token)?;
        let short_price: i128 = prices.get_mid_price(&m.short_token)?;
        let index_price: i128 = prices.get_mid_price(&m.index_token)?;
        let info = market_utils::get_pool_value(
            ds,
            &m,
            long_price,
            short_price,
            index_price,
            false,
        )?;
        let pool_value_usd: u128 = if info.pool_value <= 0 {
            0
        } else {
            info.pool_value as u128
        };
        let long_oi: u128 = market_utils::get_open_interest_for_side(ds, &m, true)?;
        let short_oi: u128 = market_utils::get_open_interest_for_side(ds, &m, false)?;
        let combined: u128 = long_oi.saturating_add(short_oi);
        let long_cap: u128 = ds.get_u128(&Key::MaxOpenInterest { market, is_long: true });
        let short_cap: u128 = ds.get_u128(&Key::MaxOpenInterest { market, is_long: false });
        Ok(
            MarketUtilisation {
                pool_value_usd,
                long_open_interest_usd: long_oi,
                short_open_interest_usd: short_oi,
                long_utilisation_bps: utilisation_bps(long_oi, pool_value_usd),
                short_utilisation_bps: utilisation_bps(short_oi, pool_value_usd),
                combined_utilisation_bps: utilisation_bps(combined, pool_value_usd),
                is_at_long_oi_cap: long_cap != 0 && long_oi >= long_cap,
                is_at_short_oi_cap: short_cap != 0 && short_oi >= short_cap,
            },
        )
    }
}

// ---------------------------------------------------------------------------
// Laws
// ---------------------------------------------------------------------------

/// More open interest never means less utilisation.
pub proof fn utilisation_follows_open_interest(lower: u128, higher: u128, pool_value_usd: u128)
    requires
        lower <= higher,
    ensures
        utilisation(lower, pool_value_usd) <= utilisation(higher, pool_value_usd),
{
    if pool_value_usd > 0 {
        vstd::arithmetic::div_mod::lemma_div_is_ordered(
            math::saturated(lower * BPS_DIVISOR) as int,
            math::saturated(higher * BPS_DIVISOR) as int,
            pool_value_usd as int,
        );
    }
}

/// A deeper pool never means more utilisation.
pub proof fn utilisation_eases_with_depth(open_interest_usd: u128, shallower: u128, deeper: u128)
    requires
        shallower <= deeper,
    ensures
        utilisation(open_interest_usd, deeper) <= utilisation(open_interest_usd, shallower),
{
    if shallower > 0 {
        vstd::arithmetic::div_mod::lemma_div_is_ordered_by_denominator(
            math::saturated(open_interest_usd * BPS_DIVISOR) as int,
            shallower as int,
            deeper as int,
        );
    }
}

/// A side that is above its cap is at its cap.
pub proof fn above_the_cap_is_at_the_cap(s: Store, m: MarketProps, is_long: bool)
    ensures
        market_utils::above_oi_cap(s, m, is_long) ==> at_cap(s, m, is_long),
{
}

} // verus!
