//! Pool, open-interest and borrowing accounting of a market.

use crate::data_store::{DataStore, Key, Store};
use crate::failure::Failure;
use crate::math;
use crate::math::{FLOAT_PRECISION, TOKEN_PRECISION};
use crate::types::{Address, MarketProps, PoolValueInfo};
use vstd::prelude::*;

verus! {

// ---------------------------------------------------------------------------
// Market registry
// ---------------------------------------------------------------------------

/// The market registered under a pool-share token.
pub open spec fn market_at(s: Store, market_token: Address) -> Option<MarketProps> {
    match (
        s.address_at(Key::MarketIndexToken { market: market_token }),
        s.address_at(Key::MarketLongToken { market: market_token }),
        s.address_at(Key::MarketShortToken { market: market_token }),
    ) {
        (Some(index_token), Some(long_token), Some(short_token)) => Some(
            MarketProps { market_token, index_token, long_token, short_token },
        ),
        _ => None,
    }
}

/// The market registered under a pool-share token, or a rejection.
pub open spec fn registered_market(s: Store, market_token: Address) -> Result<MarketProps, Failure> {
    match market_at(s, market_token) {
        Some(m) => Ok(m),
        None => Err(Failure::MarketNotFound),
    }
}

/// Loads the market registered under a pool-share token.
pub fn load_market(ds: &DataStore, market_token: &Address) -> (r: Option<MarketProps>)
    ensures
        r == market_at(ds@, *market_token),
{
    let market = *market_token;
    match (
        ds.get_address(&Key::MarketIndexToken { market }),
        ds.get_address(&Key::MarketLongToken { market }),
        ds.get_address(&Key::MarketShortToken { market }),
    ) {
        (Some(index_token), Some(long_token), Some(short_token)) => Some(
            MarketProps { market_token: market, index_token, long_token, short_token },
        ),
        _ => None,
    }
}

/// Loads the market registered under a pool-share token; rejects an unknown
/// one.
pub fn load_market_props(ds: &DataStore, market_token: &Address) -> (r: Result<
    MarketProps,
    Failure,
>)
    ensures
        r == registered_market(ds@, *market_token),
{
    match load_market(ds, market_token) {
        Some(m) => Ok(m),
        None => Err(Failure::MarketNotFound),
    }
}

// ---------------------------------------------------------------------------
// Pool amounts
// ---------------------------------------------------------------------------

/// The key of a pool amount.
pub open spec fn pool_key(market: MarketProps, token: Address) -> Key {
    Key::PoolAmount { market: market.market_token, token }
}

/// Adds a signed amount to the pool of a token.
pub fn apply_delta_to_pool_amount(
    ds: &mut DataStore,
    market: &MarketProps,
    token: &Address,
    delta: i128,
) -> (r: Result<u128, Failure>)
    ensures
        if old(ds)@.can_shift(pool_key(*market, *token), delta as int) {
            &&& r == Ok::<u128, Failure>(
                (old(ds)@.u128_at(pool_key(*market, *token)) + delta) as u128,
            )
            &&& final(ds)@ == old(ds)@.shifted(pool_key(*market, *token), delta as int)
        } else {
            &&& r == Err::<u128, Failure>(Failure::Overflow)
            &&& final(ds)@ == old(ds)@
        },
{
    ds.apply_delta_to_u128(Key::PoolAmount { market: market.market_token, token: *token }, delta)
}

// ---------------------------------------------------------------------------
// Open interest
// ---------------------------------------------------------------------------

/// The key of the open interest of a side, held in one collateral token.
pub open spec fn oi_key(market: MarketProps, token: Address, is_long: bool) -> Key {
    Key::OpenInterest { market: market.market_token, token, is_long }
}

/// The key of the open interest of a side in index tokens.
pub open spec fn oi_tokens_key(market: MarketProps, token: Address, is_long: bool) -> Key {
    Key::OpenInterestInTokens { market: market.market_token, token, is_long }
}

/// The open interest of a side in dollars, over the market's collateral tokens:
/// two of them, or one that serves as both.
pub open spec fn open_interest(s: Store, market: MarketProps, is_long: bool) -> int {
    let first = s.u128_at(oi_key(market, market.long_token, is_long)) as int;
    if market.long_token == market.short_token {
        first
    } else {
        first + s.u128_at(oi_key(market, market.short_token, is_long))
    }
}

/// The open interest of a side in index tokens, over the market's collateral
/// tokens.
pub open spec fn open_interest_in_tokens(s: Store, market: MarketProps, is_long: bool) -> int {
    let first = s.u128_at(oi_tokens_key(market, market.long_token, is_long)) as int;
    if market.long_token == market.short_token {
        first
    } else {
        first + s.u128_at(oi_tokens_key(market, market.short_token, is_long))
    }
}

/// The open interest of a side in dollars.
pub fn get_open_interest_for_side(ds: &DataStore, market: &MarketProps, is_long: bool) -> (r:
    Result<u128, Failure>)
    ensures
        r == math::fit_unsigned(open_interest(ds@, *market, is_long)),
{
    let a: u128 = ds.get_u128(
        &Key::OpenInterest { market: market.market_token, token: market.long_token, is_long },
    );
    if market.long_token == market.short_token {
        return Ok(a);
    }
    let b: u128 = ds.get_u128(
        &Key::OpenInterest { market: market.market_token, token: market.short_token, is_long },
    );
    match a.checked_add(b) {
        Some(x) => Ok(x),
        None => Err(Failure::Overflow),
    }
}

/// The open interest of a side in index tokens.
pub fn get_open_interest_in_tokens_for_side(
    ds: &DataStore,
    market: &MarketProps,
    is_long: bool,
) -> (r: Result<u128, Failure>)
    ensures
        r == math::fit_unsigned(open_interest_in_tokens(ds@, *market, is_long)),
{
    let a: u128 = ds.get_u128(
        &Key::OpenInterestInTokens {
            market: market.market_token,
            token: market.long_token,
            is_long,
        },
    );
    if market.long_token == market.short_token {
        return Ok(a);
    }
    let b: u128 = ds.get_u128(
        &Key::OpenInterestInTokens {
            market: market.market_token,
            token: market.short_token,
            is_long,
        },
    );
    match a.checked_add(b) {
        Some(x) => Ok(x),
        None => Err(Failure::Overflow),
    }
}

/// Adds a signed amount to the open interest of a side.
pub fn apply_delta_to_open_interest(
    ds: &mut DataStore,
    market: &MarketProps,
    collateral_token: &Address,
    is_long: bool,
    delta: i128,
) -> (r: Result<u128, Failure>)
    ensures
        ({
            let key = oi_key(*market, *collateral_token, is_long);
            if old(ds)@.can_shift(key, delta as int) {
                &&& r == Ok::<u128, Failure>((old(ds)@.u128_at(key) + delta) as u128)
                &&& final(ds)@ == old(ds)@.shifted(key, delta as int)
            } else {
                &&& r == Err::<u128, Failure>(Failure::Overflow)
                &&& final(ds)@ == old(ds)@
            }
        }),
{
    ds.apply_delta_to_u128(
        Key::OpenInterest { market: market.market_token, token: *collateral_token, is_long },
        delta,
    )
}

/// Adds a signed amount to the open interest of a side in index tokens.
pub fn apply_delta_to_open_interest_in_tokens(
    ds: &mut DataStore,
    market: &MarketProps,
    collateral_token: &Address,
    is_long: bool,
    delta: i128,
) -> (r: Result<u128, Failure>)
    ensures
        ({
            let key = oi_tokens_key(*market, *collateral_token, is_long);
            if old(ds)@.can_shift(key, delta as int) {
                &&& r == Ok::<u128, Failure>((old(ds)@.u128_at(key) + delta) as u128)
                &&& final(ds)@ == old(ds)@.shifted(key, delta as int)
            } else {
                &&& r == Err::<u128, Failure>(Failure::Overflow)
                &&& final(ds)@ == old(ds)@
            }
        }),
{
    ds.apply_delta_to_u128(
        Key::OpenInterestInTokens {
            market: market.market_token,
            token: *collateral_token,
            is_long,
        },
        delta,
    )
}

/// The cap on the open interest of a side; zero means that there is none.
pub open spec fn oi_cap(s: Store, market: MarketProps, is_long: bool) -> u128 {
    s.u128_at(Key::MaxOpenInterest { market: market.market_token, is_long })
}

/// The open interest of a side is above its cap.
pub open spec fn above_oi_cap(s: Store, market: MarketProps, is_long: bool) -> bool {
    oi_cap(s, market, is_long) > 0 && open_interest(s, market, is_long) > oi_cap(
        s,
        market,
        is_long,
    )
}

/// Whether the open interest of a side stays within its cap.  A side exactly
/// at its cap does; a cap of zero caps nothing.
pub fn validate_open_interest(ds: &DataStore, market: &MarketProps, is_long: bool) -> (r: Result<
    bool,
    Failure,
>)
    ensures
        r == if math::fits_unsigned(open_interest(ds@, *market, is_long)) {
            Ok::<bool, Failure>(!above_oi_cap(ds@, *market, is_long))
        } else {
            Err(Failure::Overflow)
        },
{
    let oi: u128 = get_open_interest_for_side(ds, market, is_long)?;
    let cap: u128 = ds.get_u128(&Key::MaxOpenInterest { market: market.market_token, is_long });
    Ok(!(cap > 0 && oi > cap))
}

// ---------------------------------------------------------------------------
// Profit and pool value
// ---------------------------------------------------------------------------

/// What a token amount is worth, in dollars.
pub open spec fn token_usd(amount: int, price: int) -> int {
    math::trunc_div(amount * price, TOKEN_PRECISION as int)
}

/// What all traders of a side would gain by closing at a price.
pub open spec fn side_pnl(s: Store, market: MarketProps, index_price: int, is_long: bool) -> int {
    let value = token_usd(
        math::signed(open_interest_in_tokens(s, market, is_long) as u128) as int,
        index_price,
    );
    let size = math::signed(open_interest(s, market, is_long) as u128) as int;
    if is_long {
        value - size
    } else {
        size - value
    }
}

/// Every step of `side_pnl` fits its machine type.
pub open spec fn side_pnl_fits(
    s: Store,
    market: MarketProps,
    index_price: int,
    is_long: bool,
) -> bool {
    &&& math::fits_unsigned(open_interest(s, market, is_long))
    &&& math::fits_unsigned(open_interest_in_tokens(s, market, is_long))
    &&& math::fits(
        token_usd(
            math::signed(open_interest_in_tokens(s, market, is_long) as u128) as int,
            index_price,
        ),
    )
    &&& math::fits(side_pnl(s, market, index_price, is_long))
}

/// The unrealised profit of all traders of a side.  The price is the oracle's
/// primary price whichever way `_maximize` points.
pub fn get_pnl(
    ds: &DataStore,
    market: &MarketProps,
    index_price: i128,
    is_long: bool,
    _maximize: bool,
) -> (r: Result<i128, Failure>)
    ensures
        r == if side_pnl_fits(ds@, *market, index_price as int, is_long) {
            Ok::<i128, Failure>(side_pnl(ds@, *market, index_price as int, is_long) as i128)
        } else {
            Err(Failure::Overflow)
        },
        r is Ok ==> math::fits(side_pnl(ds@, *market, index_price as int, is_long)),
{
    let tokens: u128 = get_open_interest_in_tokens_for_side(ds, market, is_long)?;
    let oi: u128 = get_open_interest_for_side(ds, market, is_long)?;
    let value: i128 = math::mul_div_wide(math::to_signed(tokens), index_price, TOKEN_PRECISION)?;
    let size: i128 = math::to_signed(oi);
    if is_long {
        math::minus(value, size)
    } else {
        math::minus(size, value)
    }
}

/// What a pool holds of a token, in dollars.
pub open spec fn pool_usd(s: Store, market: MarketProps, token: Address, price: int) -> int {
    token_usd(math::signed(s.u128_at(pool_key(market, token))) as int, price)
}

/// What the position impact pool holds, in dollars.
pub open spec fn impact_pool_usd(s: Store, market: MarketProps, index_price: int) -> int {
    token_usd(
        math::signed(
            s.u128_at(Key::PositionImpactPoolAmount { market: market.market_token }),
        ) as int,
        index_price,
    )
}

/// What a pool is worth to its share holders: both token pools and the impact
/// pool, less what all traders would gain by closing.
pub open spec fn pool_value(
    s: Store,
    market: MarketProps,
    long_price: int,
    short_price: int,
    index_price: int,
) -> int {
    pool_usd(s, market, market.long_token, long_price) + pool_usd(
        s,
        market,
        market.short_token,
        short_price,
    ) + impact_pool_usd(s, market, index_price) - (side_pnl(s, market, index_price, true)
        + side_pnl(s, market, index_price, false))
}

/// Every step of `pool_value` fits its machine type.
pub open spec fn pool_value_fits(
    s: Store,
    market: MarketProps,
    long_price: int,
    short_price: int,
    index_price: int,
) -> bool {
    let long_usd = pool_usd(s, market, market.long_token, long_price);
    let short_usd = pool_usd(s, market, market.short_token, short_price);
    let impact_usd = impact_pool_usd(s, market, index_price);
    &&& math::fits(long_usd)
    &&& math::fits(short_usd)
    &&& math::fits(impact_usd)
    &&& side_pnl_fits(s, market, index_price, true)
    &&& side_pnl_fits(s, market, index_price, false)
    &&& math::fits(side_pnl(s, market, index_price, true) + side_pnl(s, market, index_price, false))
    &&& math::fits(long_usd + short_usd)
    &&& math::fits(long_usd + short_usd + impact_usd)
    &&& math::fits(pool_value(s, market, long_price, short_price, index_price))
}

/// The breakdown that `get_pool_value` gives.
pub open spec fn pool_value_info(
    s: Store,
    market: MarketProps,
    long_price: int,
    short_price: int,
    index_price: int,
) -> PoolValueInfo {
    PoolValueInfo {
        pool_value: pool_value(s, market, long_price, short_price, index_price) as i128,
        long_token_usd: pool_usd(s, market, market.long_token, long_price) as i128,
        short_token_usd: pool_usd(s, market, market.short_token, short_price) as i128,
        impact_pool_usd: impact_pool_usd(s, market, index_price) as i128,
        long_pnl: side_pnl(s, market, index_price, true) as i128,
        short_pnl: side_pnl(s, market, index_price, false) as i128,
        net_pnl: (side_pnl(s, market, index_price, true) + side_pnl(
            s,
            market,
            index_price,
            false,
        )) as i128,
        total_borrowing_fees: 0,
    }
}

/// What `get_pool_value` returns.
pub open spec fn pool_value_result(
    s: Store,
    market: MarketProps,
    long_price: int,
    short_price: int,
    index_price: int,
) -> Result<PoolValueInfo, Failure> {
    if pool_value_fits(s, market, long_price, short_price, index_price) {
        Ok(pool_value_info(s, market, long_price, short_price, index_price))
    } else {
        Err(Failure::Overflow)
    }
}

/// What a pool is worth, piece by piece.  The prices are the oracle's primary
/// prices whichever way `maximize` points.
pub fn get_pool_value(
    ds: &DataStore,
    market: &MarketProps,
    long_price: i128,
    short_price: i128,
    index_price: i128,
    maximize: bool,
) -> (r: Result<PoolValueInfo, Failure>)
    ensures
        r == pool_value_result(
            ds@,
            *market,
            long_price as int,
            short_price as int,
            index_price as int,
        ),
{
    let token = market.market_token;
    let long_amount: i128 = math::to_signed(
        ds.get_u128(&Key::PoolAmount { market: token, token: market.long_token }),
    );
    let short_amount: i128 = math::to_signed(
        ds.get_u128(&Key::PoolAmount { market: token, token: market.short_token }),
    );
    let impact_amount: i128 = math::to_signed(
        ds.get_u128(&Key::PositionImpactPoolAmount { market: token }),
    );
    let long_token_usd: i128 = math::mul_div_wide(long_amount, long_price, TOKEN_PRECISION)?;
    let short_token_usd: i128 = math::mul_div_wide(short_amount, short_price, TOKEN_PRECISION)?;
    let impact_pool_usd: i128 = math::mul_div_wide(impact_amount, index_price, TOKEN_PRECISION)?;
    let long_pnl: i128 = get_pnl(ds, market, index_price, true, maximize)?;
    let short_pnl: i128 = get_pnl(ds, market, index_price, false, maximize)?;
    let net_pnl: i128 = math::plus(long_pnl, short_pnl)?;
    let tokens_usd: i128 = math::plus(long_token_usd, short_token_usd)?;
    let backing: i128 = math::plus(tokens_usd, impact_pool_usd)?;
    let pool_value: i128 = math::minus(backing, net_pnl)?;
    Ok(
        PoolValueInfo {
            pool_value,
            long_token_usd,
            short_token_usd,
            impact_pool_usd,
            long_pnl,
            short_pnl,
            net_pnl,
            total_borrowing_fees: 0,
        },
    )
}

/// What `get_market_token_price` returns.
pub open spec fn market_token_price(
    s: Store,
    market: MarketProps,
    long_price: int,
    short_price: int,
    index_price: int,
    supply: int,
) -> Result<i128, Failure> {
    if supply <= 0 {
        Ok(FLOAT_PRECISION)
    } else {
        match pool_value_result(s, market, long_price, short_price, index_price) {
            Ok(info) => math::mul_div_result(
                info.pool_value as int,
                TOKEN_PRECISION as int,
                supply,
            ),
            Err(e) => Err(e),
        }
    }
}

/// The price of one pool share: the pool's value over the supply of shares, and
/// one dollar while there are none.
pub fn get_market_token_price(
    ds: &DataStore,
    market: &MarketProps,
    long_price: i128,
    short_price: i128,
    index_price: i128,
    supply: i128,
    maximize: bool,
) -> (r: Result<i128, Failure>)
    ensures
        r == market_token_price(
            ds@,
            *market,
            long_price as int,
            short_price as int,
            index_price as int,
            supply as int,
        ),
{
    if supply <= 0 {
        return Ok(FLOAT_PRECISION);
    }
    let info = get_pool_value(ds, market, long_price, short_price, index_price, maximize)?;
    math::mul_div_wide(info.pool_value, TOKEN_PRECISION, supply)
}

// ---------------------------------------------------------------------------
// Accrual
// ---------------------------------------------------------------------------

/// What the funding amounts per size have grown by since they were last brought
/// up to date, for each collateral token and each side, and the rate at which
/// funding is paid from now on.
#[derive(Clone, Copy, Debug, PartialEq, Eq, Structural)]
pub struct FundingGrowth {
    pub factor_per_second: i128,
    pub long_token_longs: i128,
    pub long_token_shorts: i128,
    pub short_token_longs: i128,
    pub short_token_shorts: i128,
}

/// What a market has accrued since it was last brought up to date.
#[derive(Clone, Copy, Debug, PartialEq, Eq, Structural)]
pub struct MarketAccrual {
    pub funding: FundingGrowth,
    pub borrowing: i128,
}

/// The key of a funding amount per size.
pub open spec fn funding_key(market: MarketProps, token: Address, is_long: bool) -> Key {
    Key::FundingAmountPerSize { market: market.market_token, token, is_long }
}

/// The key of the rate at which funding is paid.
pub open spec fn funding_factor_key(market: MarketProps) -> Key {
    Key::SavedFundingFactorPerSecond { market: market.market_token }
}

/// What `update_funding_state` makes of the store.
pub open spec fn funding_updated(s: Store, market: MarketProps, g: FundingGrowth) -> Result<
    Store,
    Failure,
> {
    let k1 = funding_key(market, market.long_token, true);
    let k2 = funding_key(market, market.long_token, false);
    let k3 = funding_key(market, market.short_token, true);
    let k4 = funding_key(market, market.short_token, false);
    let s1 = s.moved(k1, g.long_token_longs as int);
    let s2 = s1.moved(k2, g.long_token_shorts as int);
    let s3 = s2.moved(k3, g.short_token_longs as int);
    if s.can_move(k1, g.long_token_longs as int) && s1.can_move(k2, g.long_token_shorts as int)
        && s2.can_move(k3, g.short_token_longs as int) && s3.can_move(
        k4,
        g.short_token_shorts as int,
    ) {
        Ok(
            s3.moved(k4, g.short_token_shorts as int).with_i128(
                funding_factor_key(market),
                g.factor_per_second,
            ),
        )
    } else {
        Err(Failure::Overflow)
    }
}

/// Adds what funding has grown by to the amounts per size, and saves the rate at
/// which it is paid.
fn update_funding_state(ds: &mut DataStore, market: &MarketProps, growth: &FundingGrowth) -> (r:
    Result<(), Failure>)
    ensures
        match funding_updated(old(ds)@, *market, *growth) {
            Ok(s) => r == Ok::<(), Failure>(()) && final(ds)@ == s,
            Err(e) => r == Err::<(), Failure>(e),
        },
{
    let market_token = market.market_token;
    ds.apply_delta_to_i128(
        Key::FundingAmountPerSize {
            market: market_token,
            token: market.long_token,
            is_long: true,
        },
        growth.long_token_longs,
    )?;
    ds.apply_delta_to_i128(
        Key::FundingAmountPerSize {
            market: market_token,
            token: market.long_token,
            is_long: false,
        },
        growth.long_token_shorts,
    )?;
    ds.apply_delta_to_i128(
        Key::FundingAmountPerSize {
            market: market_token,
            token: market.short_token,
            is_long: true,
        },
        growth.short_token_longs,
    )?;
    ds.apply_delta_to_i128(
        Key::FundingAmountPerSize {
            market: market_token,
            token: market.short_token,
            is_long: false,
        },
        growth.short_token_shorts,
    )?;
    ds.put_i128(
        Key::SavedFundingFactorPerSecond { market: market_token },
        growth.factor_per_second,
    );
    Ok(())
}

/// The key of the accumulated borrowing factor of a side.
pub open spec fn cumulative_key(market: MarketProps, is_long: bool) -> Key {
    Key::CumulativeBorrowingFactor { market: market.market_token, is_long }
}

/// The key of the time at which that factor was last brought up to date.
pub open spec fn cumulative_updated_key(market: MarketProps, is_long: bool) -> Key {
    Key::CumulativeBorrowingFactorUpdatedAt { market: market.market_token, is_long }
}

/// The borrowing factor of a side is not yet brought up to `now`.
pub open spec fn borrowing_is_due(s: Store, market: MarketProps, is_long: bool, now: u64) -> bool {
    s.u128_at(cumulative_updated_key(market, is_long)) % 0x1_0000_0000_0000_0000u128 < now
}

/// What the borrowing factor of a side grows by: nothing without open interest,
/// and never less than nothing.
pub open spec fn borrowing_growth(s: Store, market: MarketProps, is_long: bool, growth: int) -> int {
    if open_interest(s, market, is_long) == 0 {
        0
    } else {
        math::at_least_zero(growth)
    }
}

/// What `update_cumulative_borrowing_factor` makes of the store.
pub open spec fn borrowing_updated(
    s: Store,
    market: MarketProps,
    is_long: bool,
    now: u64,
    growth: int,
) -> Result<Store, Failure> {
    let grown = borrowing_growth(s, market, is_long, growth);
    if !borrowing_is_due(s, market, is_long, now) {
        Ok(s)
    } else if s.can_shift(cumulative_key(market, is_long), grown) {
        Ok(
            s.shifted(cumulative_key(market, is_long), grown).with_u128(
                cumulative_updated_key(market, is_long),
                now as u128,
            ),
        )
    } else {
        Err(Failure::Overflow)
    }
}

/// Adds what the borrowing factor of a side has grown by, once for each moment.
fn update_cumulative_borrowing_factor(
    ds: &mut DataStore,
    market: &MarketProps,
    is_long: bool,
    current_time: u64,
    growth: i128,
) -> (r: Result<(), Failure>)
    ensures
        match borrowing_updated(old(ds)@, *market, is_long, current_time, growth as int) {
            Ok(s) => r == Ok::<(), Failure>(()) && final(ds)@ == s,
            Err(e) => r == Err::<(), Failure>(e),
        },
{
    let updated_key = Key::CumulativeBorrowingFactorUpdatedAt {
        market: market.market_token,
        is_long,
    };
    let last: u64 = math::low_u64(ds.get_u128(&updated_key));
    if current_time <= last {
        return Ok(());
    }
    let in_long: u128 = ds.get_u128(
        &Key::OpenInterest { market: market.market_token, token: market.long_token, is_long },
    );
    let in_short: u128 = ds.get_u128(
        &Key::OpenInterest { market: market.market_token, token: market.short_token, is_long },
    );
    let grown: i128 = if growth < 0 || (in_long == 0 && in_short == 0) {
        0
    } else {
        growth
    };
    ds.apply_delta_to_u128(
        Key::CumulativeBorrowingFactor { market: market.market_token, is_long },
        grown,
    )?;
    ds.put_u128(updated_key, current_time as u128);
    Ok(())
}

/// What `accrue` makes of the store.
pub open spec fn accrued(
    s: Store,
    market: MarketProps,
    is_long: bool,
    now: u64,
    accrual: MarketAccrual,
) -> Result<Store, Failure> {
    match funding_updated(s, market, accrual.funding) {
        Ok(t) => borrowing_updated(t, market, is_long, now, accrual.borrowing as int),
        Err(e) => Err(e),
    }
}

/// Brings the funding and borrowing state of a market side up to date.
pub(crate) fn accrue(
    ds: &mut DataStore,
    market: &MarketProps,
    is_long: bool,
    current_time: u64,
    accrual: &MarketAccrual,
) -> (r: Result<(), Failure>)
    ensures
        match accrued(old(ds)@, *market, is_long, current_time, *accrual) {
            Ok(s) => r == Ok::<(), Failure>(()) && final(ds)@ == s,
            Err(e) => r == Err::<(), Failure>(e),
        },
{
    update_funding_state(ds, market, &accrual.funding)?;
    update_cumulative_borrowing_factor(ds, market, is_long, current_time, accrual.borrowing)
}

// ---------------------------------------------------------------------------
// Laws
// ---------------------------------------------------------------------------

/// A cap of zero caps nothing, and a side exactly at its cap is not above it.
pub proof fn caps_bind_only_above_them(s: Store, market: MarketProps, is_long: bool)
    ensures
        oi_cap(s, market, is_long) == 0 ==> !above_oi_cap(s, market, is_long),
        open_interest(s, market, is_long) == oi_cap(s, market, is_long) ==> !above_oi_cap(
            s,
            market,
            is_long,
        ),
        oi_cap(s, market, is_long) > 0 && open_interest(s, market, is_long) == oi_cap(
            s,
            market,
            is_long,
        ) + 1 ==> above_oi_cap(s, market, is_long),
{
}

/// The accumulated borrowing factor never falls, and without open interest it
/// stands still.
pub proof fn borrowing_factor_never_falls(
    s: Store,
    market: MarketProps,
    is_long: bool,
    now: u64,
    accrual: MarketAccrual,
)
    ensures
        accrued(s, market, is_long, now, accrual) matches Ok(t) ==> {
            let before = s.u128_at(cumulative_key(market, is_long));
            let after = t.u128_at(cumulative_key(market, is_long));
            &&& before <= after
            &&& open_interest(s, market, is_long) == 0 ==> before == after
        },
{
}

/// Bringing the borrowing factor up to date a second time at the same moment
/// changes nothing.
pub proof fn borrowing_update_is_idempotent(
    s: Store,
    market: MarketProps,
    is_long: bool,
    now: u64,
    growth: int,
    again: int,
)
    ensures
        borrowing_updated(s, market, is_long, now, growth) matches Ok(t) ==> borrowing_updated(
            t,
            market,
            is_long,
            now,
            again,
        ) == Ok::<Store, Failure>(t),
{
}

/// What traders gain, share holders lose: with the tokens unchanged, the value
/// of the pool and the profit of the traders add up to the same backing.
pub proof fn pool_value_and_trader_profit_balance(
    s: Store,
    market: MarketProps,
    long_price: int,
    short_price: int,
    index_price: int,
)
    ensures
        pool_value(s, market, long_price, short_price, index_price) + side_pnl(
            s,
            market,
            index_price,
            true,
        ) + side_pnl(s, market, index_price, false) == pool_usd(
            s,
            market,
            market.long_token,
            long_price,
        ) + pool_usd(s, market, market.short_token, short_price) + impact_pool_usd(
            s,
            market,
            index_price,
        ),
{
}

/// A rising index price never lowers the profit of the longs and never raises
/// that of the shorts.
pub proof fn profit_follows_the_index_price(
    s: Store,
    market: MarketProps,
    lower: int,
    higher: int,
)
    requires
        0 <= lower <= higher,
        0 <= open_interest_in_tokens(s, market, true) <= i128::MAX,
        0 <= open_interest_in_tokens(s, market, false) <= i128::MAX,
    ensures
        side_pnl(s, market, lower, true) <= side_pnl(s, market, higher, true),
        side_pnl(s, market, higher, false) <= side_pnl(s, market, lower, false),
{
    let longs = open_interest_in_tokens(s, market, true);
    let shorts = open_interest_in_tokens(s, market, false);
    assert(0 <= longs * lower <= longs * higher && 0 <= shorts * lower <= shorts * higher)
        by (nonlinear_arith)
        requires
            0 <= lower <= higher,
            0 <= longs,
            0 <= shorts,
    ;
    math::trunc_div_is_monotone(longs * lower, longs * higher, TOKEN_PRECISION as int);
    math::trunc_div_is_monotone(shorts * lower, shorts * higher, TOKEN_PRECISION as int);
}

} // verus!
