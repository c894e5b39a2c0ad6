//! Profit, fees, validation and the liquidation test of a single position.

use crate::data_store::{DataStore, Key, Store};
use crate::failure::Failure;
use crate::market_utils;
use crate::math;
use crate::math::{FLOAT_PRECISION, TOKEN_PRECISION};
use crate::types::{
    Address, MarketProps, PositionFees, PositionKey, PositionProps, PriceProps,
};
use vstd::prelude::*;

verus! {

/// Why a position is not acceptable.
#[derive(Clone, Copy, Debug, PartialEq, Eq, Structural)]
pub enum PositionError {
    BelowMinCollateral,
    ExceedsMaxLeverage,
    ExceedsMaxOI,
}

// ---------------------------------------------------------------------------
// Profit
// ---------------------------------------------------------------------------

/// What the trader would gain by closing the whole position at a price.
pub open spec fn total_pnl(p: PositionProps, price: int) -> int {
    let value = market_utils::token_usd(p.size_in_tokens as int, price);
    if p.is_long {
        value - p.size_in_usd
    } else {
        p.size_in_usd - value
    }
}

/// What the trader would gain by closing a slice of the position at a price.
pub open spec fn slice_pnl(p: PositionProps, price: int, size_delta_usd: int) -> int {
    if p.size_in_usd == 0 || p.size_in_tokens == 0 {
        0
    } else {
        math::trunc_div(total_pnl(p, price) * size_delta_usd, p.size_in_usd as int)
    }
}

/// Every step of `slice_pnl` fits its machine type.
pub open spec fn slice_pnl_fits(p: PositionProps, price: int, size_delta_usd: int) -> bool {
    p.size_in_usd == 0 || p.size_in_tokens == 0 || {
        &&& math::fits(market_utils::token_usd(p.size_in_tokens as int, price))
        &&& math::fits(total_pnl(p, price))
        &&& math::fits(slice_pnl(p, price, size_delta_usd))
    }
}

/// What `get_position_pnl_usd` returns.
pub open spec fn position_pnl(p: PositionProps, price: PriceProps, size_delta_usd: int) -> Result<
    (i128, i128),
    Failure,
> {
    let chosen = price.for_pnl(p.is_long, true) as int;
    if slice_pnl_fits(p, chosen, size_delta_usd) {
        Ok(
            (
                slice_pnl(p, chosen, size_delta_usd) as i128,
                slice_pnl(p, chosen, size_delta_usd) as i128,
            ),
        )
    } else {
        Err(Failure::Overflow)
    }
}

/// The unrealised profit of a slice of a position in dollars, at the price that
/// favours the trader; capped and uncapped, which are the same.
pub fn get_position_pnl_usd(
    position: &PositionProps,
    index_token_price: &PriceProps,
    size_delta_usd: i128,
) -> (r: Result<(i128, i128), Failure>)
    ensures
        r == position_pnl(*position, *index_token_price, size_delta_usd as int),
{
    if position.size_in_usd == 0 || position.size_in_tokens == 0 {
        return Ok((0, 0));
    }
    let price: i128 = index_token_price.pick_price_for_pnl(position.is_long, true);
    let value: i128 = math::mul_div_wide(position.size_in_tokens, price, TOKEN_PRECISION)?;
    let total: i128 = if position.is_long {
        math::minus(value, position.size_in_usd)?
    } else {
        math::minus(position.size_in_usd, value)?
    };
    let pnl: i128 = math::mul_div_wide(total, size_delta_usd, position.size_in_usd)?;
    Ok((pnl, pnl))
}

// ---------------------------------------------------------------------------
// Fees
// ---------------------------------------------------------------------------

/// The tokens of a slice of a position, with the fraction dropped.
pub open spec fn slice_tokens(p: PositionProps, size_delta_usd: int) -> int {
    if p.size_in_usd > 0 {
        math::trunc_div(size_delta_usd * p.size_in_tokens, p.size_in_usd as int)
    } else {
        0
    }
}

/// The tokens on which the borrowing fee is due: the whole position when it
/// grows, the slice that closes when it shrinks.
pub open spec fn charged_tokens(p: PositionProps, size_delta_usd: int, is_increase: bool) -> int {
    if is_increase {
        p.size_in_tokens as int
    } else {
        slice_tokens(p, size_delta_usd)
    }
}

/// The borrowing factor that a side has accumulated, as a signed number.
pub open spec fn cumulative_factor(s: Store, market: MarketProps, is_long: bool) -> int {
    math::signed(s.u128_at(market_utils::cumulative_key(market, is_long))) as int
}

/// The borrowing fee, rounded up: what the factor has grown by since the
/// position last paid, times the tokens charged.
pub open spec fn borrowing_fee(
    s: Store,
    market: MarketProps,
    p: PositionProps,
    size_delta_usd: int,
    is_increase: bool,
) -> int {
    math::ceil_div(
        math::at_least_zero(cumulative_factor(s, market, p.is_long) - p.borrowing_factor)
            * charged_tokens(p, size_delta_usd, is_increase),
        FLOAT_PRECISION as int,
    )
}

/// What the funding amount per size has grown by since the position last paid.
pub open spec fn funding_owed_per_size(s: Store, market: MarketProps, p: PositionProps) -> int {
    s.i128_at(market_utils::funding_key(market, p.collateral_token, p.is_long))
        - p.funding_fee_amount_per_size
}

/// The funding fee in dollars, rounded up.
pub open spec fn funding_fee_usd(s: Store, market: MarketProps, p: PositionProps) -> int {
    math::ceil_div(funding_owed_per_size(s, market, p) * p.size_in_usd, FLOAT_PRECISION as int)
}

/// Dollars in tokens at a price, rounded up; nothing where there is no price.
pub open spec fn usd_in_tokens_up(usd: int, price: int) -> int {
    if price > 0 {
        math::ceil_div(usd * TOKEN_PRECISION, price)
    } else {
        0
    }
}

/// The funding fee in collateral tokens: nothing unless the position owes.
pub open spec fn funding_fee(s: Store, market: MarketProps, p: PositionProps, price: int) -> int {
    if funding_owed_per_size(s, market, p) > 0 {
        usd_in_tokens_up(funding_fee_usd(s, market, p), price)
    } else {
        0
    }
}

/// The fee for opening or closing, in dollars, rounded up.
pub open spec fn position_fee_usd(
    s: Store,
    market: MarketProps,
    size_delta_usd: int,
    for_positive_impact: bool,
) -> int {
    math::ceil_div(
        size_delta_usd * math::signed(
            s.u128_at(
                Key::PositionFeeFactor { market: market.market_token, for_positive_impact },
            ),
        ),
        FLOAT_PRECISION as int,
    )
}

/// The fees that `get_position_fees` gives, as mathematical numbers.
pub struct Fees {
    pub borrowing: int,
    pub funding: int,
    pub position: int,
}

impl Fees {
    /// All three together.
    pub open spec fn total(self) -> int {
        self.borrowing + self.funding + self.position
    }

    /// The fees as machine numbers.
    pub open spec fn amounts(self) -> PositionFees {
        PositionFees {
            borrowing_fee_amount: self.borrowing as i128,
            funding_fee_amount: self.funding as i128,
            position_fee_amount: self.position as i128,
            total_cost_amount: self.total() as i128,
        }
    }
}

/// The fees of a position for a change of its size.
pub open spec fn fees(
    s: Store,
    market: MarketProps,
    p: PositionProps,
    price: int,
    size_delta_usd: int,
    for_positive_impact: bool,
    is_increase: bool,
) -> Fees {
    Fees {
        borrowing: borrowing_fee(s, market, p, size_delta_usd, is_increase),
        funding: funding_fee(s, market, p, price),
        position: usd_in_tokens_up(
            position_fee_usd(s, market, size_delta_usd, for_positive_impact),
            price,
        ),
    }
}

/// Every step of `fees` fits its machine type.
pub open spec fn fees_fit(
    s: Store,
    market: MarketProps,
    p: PositionProps,
    price: int,
    size_delta_usd: int,
    for_positive_impact: bool,
    is_increase: bool,
) -> bool {
    let f = fees(s, market, p, price, size_delta_usd, for_positive_impact, is_increase);
    &&& math::fits(cumulative_factor(s, market, p.is_long) - p.borrowing_factor)
    &&& math::fits(charged_tokens(p, size_delta_usd, is_increase))
    &&& math::fits(f.borrowing)
    &&& math::fits(funding_owed_per_size(s, market, p))
    &&& funding_owed_per_size(s, market, p) > 0 ==> math::fits(funding_fee_usd(s, market, p))
    &&& math::fits(f.funding)
    &&& math::fits(position_fee_usd(s, market, size_delta_usd, for_positive_impact))
    &&& math::fits(f.position)
    &&& math::fits(f.borrowing + f.funding)
    &&& math::fits(f.total())
}

/// What `get_position_fees` returns.
pub open spec fn position_fees(
    s: Store,
    market: MarketProps,
    p: PositionProps,
    price: int,
    size_delta_usd: int,
    for_positive_impact: bool,
    is_increase: bool,
) -> Result<PositionFees, Failure> {
    if fees_fit(s, market, p, price, size_delta_usd, for_positive_impact, is_increase) {
        Ok(
            fees(
                s,
                market,
                p,
                price,
                size_delta_usd,
                for_positive_impact,
                is_increase,
            ).amounts(),
        )
    } else {
        Err(Failure::Overflow)
    }
}

/// Dollars in tokens at a price, rounded up.
fn to_tokens_up(usd: i128, price: i128) -> (r: Result<i128, Failure>)
    ensures
        r == math::fit(usd_in_tokens_up(usd as int, price as int)),
{
    if price > 0 {
        math::mul_div_wide_up(usd, TOKEN_PRECISION, price)
    } else {
        Ok(0)
    }
}

/// The tokens of a slice of a position.
pub(crate) fn get_slice_tokens(p: &PositionProps, size_delta_usd: i128) -> (r: Result<
    i128,
    Failure,
>)
    ensures
        r == math::fit(slice_tokens(*p, size_delta_usd as int)),
{
    if p.size_in_usd > 0 {
        math::mul_div_wide(size_delta_usd, p.size_in_tokens, p.size_in_usd)
    } else {
        Ok(0)
    }
}

/// All fees that a position owes for a change of its size, in collateral
/// tokens.  Every fee is rounded up, so that the pool never collects less than
/// the exact amount.
pub fn get_position_fees(
    ds: &DataStore,
    market: &MarketProps,
    position: &PositionProps,
    collateral_token_price: i128,
    size_delta_usd: i128,
    for_positive_impact: bool,
    is_increase: bool,
) -> (r: Result<PositionFees, Failure>)
    ensures
        r == position_fees(
            ds@,
            *market,
            *position,
            collateral_token_price as int,
            size_delta_usd as int,
            for_positive_impact,
            is_increase,
        ),
{
    // Borrowing
    let cumulative: i128 = math::to_signed(
        ds.get_u128(
            &Key::CumulativeBorrowingFactor {
                market: market.market_token,
                is_long: position.is_long,
            },
        ),
    );
    let grown: i128 = math::minus(cumulative, position.borrowing_factor)?;
    let borrow_delta: i128 = if grown < 0 {
        0
    } else {
        grown
    };
    let tokens: i128 = if is_increase {
        position.size_in_tokens
    } else {
        get_slice_tokens(position, size_delta_usd)?
    };
    let borrowing_fee_amount: i128 = math::mul_div_wide_up(borrow_delta, tokens, FLOAT_PRECISION)?;

    // Funding
    let latest: i128 = ds.get_i128(
        &Key::FundingAmountPerSize {
            market: market.market_token,
            token: position.collateral_token,
            is_long: position.is_long,
        },
    );
    let funding_delta: i128 = math::minus(latest, position.funding_fee_amount_per_size)?;
    let funding_fee_amount: i128 = if funding_delta > 0 {
        let usd: i128 = math::mul_div_wide_up(funding_delta, position.size_in_usd, FLOAT_PRECISION)?;
        to_tokens_up(usd, collateral_token_price)?
    } else {
        0
    };

    // Opening or closing
    let factor: i128 = math::to_signed(
        ds.get_u128(
            &Key::PositionFeeFactor { market: market.market_token, for_positive_impact },
        ),
    );
    let usd: i128 = math::mul_div_wide_up(size_delta_usd, factor, FLOAT_PRECISION)?;
    let position_fee_amount: i128 = to_tokens_up(usd, collateral_token_price)?;

    let subtotal: i128 = math::plus(borrowing_fee_amount, funding_fee_amount)?;
    let total_cost_amount: i128 = math::plus(subtotal, position_fee_amount)?;
    Ok(
        PositionFees {
            borrowing_fee_amount,
            funding_fee_amount,
            position_fee_amount,
            total_cost_amount,
        },
    )
}

// ---------------------------------------------------------------------------
// Funding settlement
// ---------------------------------------------------------------------------

/// The key under which a position's funding in one token can be claimed.
pub open spec fn claim_key(market: MarketProps, token: Address, p: PositionProps) -> Key {
    Key::ClaimableFundingAmount { market: market.market_token, token, account: p.account }
}

/// What a position is owed of a token: the fall of the amount per size since it
/// was last settled, times its size, with the fraction dropped.
pub open spec fn funding_owed(
    s: Store,
    market: MarketProps,
    p: PositionProps,
    token: Address,
    tracker: int,
) -> int {
    let per_size = tracker - s.i128_at(market_utils::funding_key(market, token, p.is_long));
    if per_size > 0 {
        math::at_least_zero(math::trunc_div(per_size * p.size_in_usd, FLOAT_PRECISION as int))
    } else {
        0
    }
}

/// What crediting the funding of one token makes of the store.
pub open spec fn funding_credited(
    s: Store,
    market: MarketProps,
    p: PositionProps,
    token: Address,
    tracker: int,
) -> Result<Store, Failure> {
    let per_size = tracker - s.i128_at(market_utils::funding_key(market, token, p.is_long));
    let owed = funding_owed(s, market, p, token, tracker);
    if !math::fits(per_size) || (per_size > 0 && !math::fits(
        math::trunc_div(per_size * p.size_in_usd, FLOAT_PRECISION as int),
    )) {
        Err(Failure::Overflow)
    } else if owed == 0 {
        Ok(s)
    } else if s.can_shift(claim_key(market, token, p), owed) {
        Ok(s.shifted(claim_key(market, token, p), owed))
    } else {
        Err(Failure::Overflow)
    }
}

/// The position with its funding trackers brought up to date.
pub open spec fn trackers_reset(s: Store, market: MarketProps, p: PositionProps) -> PositionProps {
    PositionProps {
        long_claim_fnd_per_size: s.i128_at(
            market_utils::funding_key(market, market.long_token, p.is_long),
        ),
        short_claim_fnd_per_size: s.i128_at(
            market_utils::funding_key(market, market.short_token, p.is_long),
        ),
        funding_fee_amount_per_size: s.i128_at(
            market_utils::funding_key(market, p.collateral_token, p.is_long),
        ),
        ..p
    }
}

/// What `settle_funding_fees` makes of the store.
pub open spec fn funding_settled(s: Store, market: MarketProps, p: PositionProps) -> Result<
    Store,
    Failure,
> {
    match funding_credited(s, market, p, market.long_token, p.long_claim_fnd_per_size as int) {
        Ok(t) => funding_credited(
            t,
            market,
            p,
            market.short_token,
            p.short_claim_fnd_per_size as int,
        ),
        Err(e) => Err(e),
    }
}

/// Credits what a position is owed of one token.
fn credit_funding(
    ds: &mut DataStore,
    market: &MarketProps,
    position: &PositionProps,
    token: &Address,
    tracker: i128,
) -> (r: Result<(), Failure>)
    ensures
        match funding_credited(old(ds)@, *market, *position, *token, tracker as int) {
            Ok(s) => r == Ok::<(), Failure>(()) && final(ds)@ == s,
            Err(e) => r == Err::<(), Failure>(e) && final(ds)@ == old(ds)@,
        },
{
    let latest: i128 = ds.get_i128(
        &Key::FundingAmountPerSize {
            market: market.market_token,
            token: *token,
            is_long: position.is_long,
        },
    );
    let per_size: i128 = math::minus(tracker, latest)?;
    if per_size > 0 {
        let amount: i128 = math::mul_div_wide(per_size, position.size_in_usd, FLOAT_PRECISION)?;
        if amount > 0 {
            ds.apply_delta_to_u128(
                Key::ClaimableFundingAmount {
                    market: market.market_token,
                    token: *token,
                    account: position.account,
                },
                amount,
            )?;
        }
    }
    Ok(())
}

/// Credits the funding that a position is owed in either token and brings its
/// trackers up to date, so that the next settlement starts clean.  Where the
/// settlement is rejected, the position is as it was; a partial credit in the
/// store is for the caller to discard.
pub(crate) fn settle_funding(
    ds: &mut DataStore,
    market: &MarketProps,
    position: &mut PositionProps,
) -> (r: Result<(), Failure>)
    ensures
        match funding_settled(old(ds)@, *market, *old(position)) {
            Ok(s) => {
                &&& r == Ok::<(), Failure>(())
                &&& final(ds)@ == s
                &&& *final(position) == trackers_reset(s, *market, *old(position))
            },
            Err(e) => r == Err::<(), Failure>(e) && *final(position) == *old(position),
        },
{
    credit_funding(ds, market, position, &market.long_token, position.long_claim_fnd_per_size)?;
    credit_funding(ds, market, position, &market.short_token, position.short_claim_fnd_per_size)?;
    let market_token = market.market_token;
    let is_long = position.is_long;
    position.long_claim_fnd_per_size = ds.get_i128(
        &Key::FundingAmountPerSize { market: market_token, token: market.long_token, is_long },
    );
    position.short_claim_fnd_per_size = ds.get_i128(
        &Key::FundingAmountPerSize { market: market_token, token: market.short_token, is_long },
    );
    position.funding_fee_amount_per_size = ds.get_i128(
        &Key::FundingAmountPerSize {
            market: market_token,
            token: position.collateral_token,
            is_long,
        },
    );
    Ok(())
}

/// Credits the funding that a position is owed in either token and brings its
/// trackers up to date, so that the next settlement starts clean.
pub fn settle_funding_fees(
    ds: &mut DataStore,
    market: &MarketProps,
    position: &mut PositionProps,
) -> (r: Result<(), Failure>)
    ensures
        match funding_settled(old(ds)@, *market, *old(position)) {
            Ok(s) => {
                &&& r == Ok::<(), Failure>(())
                &&& final(ds)@ == s
                &&& *final(position) == trackers_reset(s, *market, *old(position))
            },
            Err(e) => {
                &&& r == Err::<(), Failure>(e)
                &&& final(ds)@ == old(ds)@
                &&& *final(position) == *old(position)
            },
        },
{
    let mut work = ds.duplicate();
    settle_funding(&mut work, market, position)?;
    *ds = work;
    Ok(())
}

// ---------------------------------------------------------------------------
// Validation
// ---------------------------------------------------------------------------

/// The configured fraction of its size that a position must hold as
/// collateral.
pub open spec fn min_collateral_factor(s: Store, market: MarketProps) -> int {
    math::signed(s.u128_at(Key::MinCollateralFactor { market: market.market_token })) as int
}

/// The configured highest leverage, in hundredths: 5000 is fiftyfold, and zero
/// caps nothing.
pub open spec fn max_leverage(s: Store, market: MarketProps) -> u128 {
    s.u128_at(Key::MaxLeverage { market: market.market_token })
}

/// The collateral that a position must hold, in dollars.
pub open spec fn required_collateral(s: Store, market: MarketProps, p: PositionProps) -> int {
    math::trunc_div(p.size_in_usd * min_collateral_factor(s, market), FLOAT_PRECISION as int)
}

/// The leverage of a position in hundredths: a hundredfold of its size over its
/// collateral, both in dollars.
pub open spec fn leverage_bps(size_in_usd: i128, collateral_usd: int) -> int {
    math::saturated(math::unsigned(size_in_usd) * 100) as int / collateral_usd
}

/// The leverage of a position in hundredths.
pub(crate) fn get_leverage_bps(size_in_usd: i128, collateral_usd: i128) -> (r: u128)
    requires
        collateral_usd > 0,
    ensures
        r == leverage_bps(size_in_usd, collateral_usd as int),
{
    math::saturating_mul(math::to_unsigned(size_in_usd), 100) / (collateral_usd as u128)
}

/// What `validate_position` returns: the first of the three limits that the
/// position breaks.
pub open spec fn validation(s: Store, p: PositionProps, market: MarketProps, price: int) -> Result<
    (),
    Failure,
> {
    let collateral_usd = market_utils::token_usd(p.collateral_amount as int, price);
    let required = required_collateral(s, market, p);
    let bounded = max_leverage(s, market) > 0 && collateral_usd > 0;
    if !math::fits(collateral_usd) {
        Err(Failure::Overflow)
    } else if min_collateral_factor(s, market) > 0 && !math::fits(required) {
        Err(Failure::Overflow)
    } else if min_collateral_factor(s, market) > 0 && collateral_usd < required {
        Err(Failure::Position(PositionError::BelowMinCollateral))
    } else if bounded && leverage_bps(p.size_in_usd, collateral_usd) > max_leverage(s, market) {
        Err(Failure::Position(PositionError::ExceedsMaxLeverage))
    } else if !math::fits_unsigned(market_utils::open_interest(s, market, p.is_long)) {
        Err(Failure::Overflow)
    } else if market_utils::above_oi_cap(s, market, p.is_long) {
        Err(Failure::Position(PositionError::ExceedsMaxOI))
    } else {
        Ok(())
    }
}

/// Checks that a position meets the collateral, leverage and open-interest
/// limits of its market.
pub fn validate_position(
    ds: &DataStore,
    position: &PositionProps,
    market: &MarketProps,
    collateral_token_price: i128,
) -> (r: Result<(), Failure>)
    ensures
        r == validation(ds@, *position, *market, collateral_token_price as int),
{
    let collateral_usd: i128 = math::mul_div_wide(
        position.collateral_amount,
        collateral_token_price,
        TOKEN_PRECISION,
    )?;
    let factor: i128 = math::to_signed(
        ds.get_u128(&Key::MinCollateralFactor { market: market.market_token }),
    );
    if factor > 0 {
        let required: i128 = math::mul_div_wide(position.size_in_usd, factor, FLOAT_PRECISION)?;
        if collateral_usd < required {
            return Err(Failure::Position(PositionError::BelowMinCollateral));
        }
    }
    let highest: u128 = ds.get_u128(&Key::MaxLeverage { market: market.market_token });
    if highest > 0 && collateral_usd > 0 {
        if get_leverage_bps(position.size_in_usd, collateral_usd) > highest {
            return Err(Failure::Position(PositionError::ExceedsMaxLeverage));
        }
    }
    if market_utils::validate_open_interest(ds, market, position.is_long)? {
        Ok(())
    } else {
        Err(Failure::Position(PositionError::ExceedsMaxOI))
    }
}

// ---------------------------------------------------------------------------
// Liquidation
// ---------------------------------------------------------------------------

/// What would be left of a position's collateral, in dollars, if it were closed
/// at the price that disfavours the trader.
pub open spec fn remaining_collateral_usd(
    s: Store,
    p: PositionProps,
    market: MarketProps,
    price: int,
    index_price: PriceProps,
) -> int {
    market_utils::token_usd(p.collateral_amount as int, price) - market_utils::token_usd(
        fees(s, market, p, price, p.size_in_usd as int, false, false).total(),
        price,
    ) + slice_pnl(p, index_price.for_pnl(p.is_long, false) as int, p.size_in_usd as int)
}

/// Every step of the liquidation test fits its machine type.
pub open spec fn liquidation_test_fits(
    s: Store,
    p: PositionProps,
    market: MarketProps,
    price: int,
    index_price: PriceProps,
) -> bool {
    let collateral_usd = market_utils::token_usd(p.collateral_amount as int, price);
    let fees_usd = market_utils::token_usd(
        fees(s, market, p, price, p.size_in_usd as int, false, false).total(),
        price,
    );
    &&& fees_fit(s, market, p, price, p.size_in_usd as int, false, false)
    &&& slice_pnl_fits(p, index_price.for_pnl(p.is_long, false) as int, p.size_in_usd as int)
    &&& math::fits(collateral_usd)
    &&& math::fits(fees_usd)
    &&& math::fits(collateral_usd - fees_usd)
    &&& math::fits(remaining_collateral_usd(s, p, market, price, index_price))
    &&& min_collateral_factor(s, market) != 0 ==> math::fits(required_collateral(s, market, p))
}

/// The position has less left than the market asks of it; without a configured
/// fraction, less than nothing.
pub open spec fn below_maintenance(
    s: Store,
    p: PositionProps,
    market: MarketProps,
    price: int,
    index_price: PriceProps,
) -> bool {
    remaining_collateral_usd(s, p, market, price, index_price) < if min_collateral_factor(s, market)
        == 0 {
        0
    } else {
        required_collateral(s, market, p)
    }
}

/// What `is_liquidatable` returns.
pub open spec fn liquidation_test(
    s: Store,
    p: PositionProps,
    market: MarketProps,
    price: int,
    index_price: PriceProps,
) -> Result<bool, Failure> {
    if p.size_in_usd == 0 {
        Ok(false)
    } else if liquidation_test_fits(s, p, market, price, index_price) {
        Ok(below_maintenance(s, p, market, price, index_price))
    } else {
        Err(Failure::Overflow)
    }
}

/// Whether a position can be liquidated at the given prices.
pub fn is_liquidatable(
    ds: &DataStore,
    position: &PositionProps,
    market: &MarketProps,
    collateral_token_price: i128,
    index_token_price: &PriceProps,
) -> (r: Result<bool, Failure>)
    ensures
        r == liquidation_test(
            ds@,
            *position,
            *market,
            collateral_token_price as int,
            *index_token_price,
        ),
{
    if position.size_in_usd == 0 {
        return Ok(false);
    }
    let fees = get_position_fees(
        ds,
        market,
        position,
        collateral_token_price,
        position.size_in_usd,
        false,
        false,
    )?;
    let worst: i128 = index_token_price.pick_price_for_pnl(position.is_long, false);
    let (pnl_usd, _) = get_position_pnl_usd(
        position,
        &PriceProps { min: worst, max: worst },
        position.size_in_usd,
    )?;
    let collateral_usd: i128 = math::mul_div_wide(
        position.collateral_amount,
        collateral_token_price,
        TOKEN_PRECISION,
    )?;
    let fees_usd: i128 = math::mul_div_wide(
        fees.total_cost_amount,
        collateral_token_price,
        TOKEN_PRECISION,
    )?;
    let net: i128 = math::minus(collateral_usd, fees_usd)?;
    let remaining: i128 = math::plus(net, pnl_usd)?;
    let factor: i128 = math::to_signed(
        ds.get_u128(&Key::MinCollateralFactor { market: market.market_token }),
    );
    if factor == 0 {
        return Ok(remaining < 0);
    }
    let required: i128 = math::mul_div_wide(position.size_in_usd, factor, FLOAT_PRECISION)?;
    Ok(remaining < required)
}

// ---------------------------------------------------------------------------
// Key
// ---------------------------------------------------------------------------

/// The name of a position.
pub fn get_position_key(
    account: &Address,
    market_token: &Address,
    collateral_token: &Address,
    is_long: bool,
) -> (r: PositionKey)
    ensures
        r == (PositionKey {
            account: *account,
            market: *market_token,
            collateral_token: *collateral_token,
            is_long,
        }),
{
    PositionKey {
        account: *account,
        market: *market_token,
        collateral_token: *collateral_token,
        is_long,
    }
}

// ---------------------------------------------------------------------------
// Laws
// ---------------------------------------------------------------------------

/// Funding is never credited twice: settling again right after a settlement
/// changes nothing.
pub proof fn settling_twice_credits_once(s: Store, market: MarketProps, p: PositionProps)
    ensures
        funding_settled(s, market, p) matches Ok(t) ==> {
            let q = trackers_reset(t, market, p);
            &&& funding_settled(t, market, q) == Ok::<Store, Failure>(t)
            &&& trackers_reset(t, market, q) == q
        },
{
}

/// After a settlement the position owes no funding fee until funding grows
/// again.
pub proof fn settled_position_owes_no_funding(
    s: Store,
    market: MarketProps,
    p: PositionProps,
    price: int,
)
    ensures
        funding_settled(s, market, p) matches Ok(t) ==> funding_fee(
            t,
            market,
            trackers_reset(t, market, p),
            price,
        ) == 0,
{
}

/// A position whose snapshot equals the accumulated factor owes no borrowing
/// fee, however large the change of its size.
pub proof fn fresh_snapshot_owes_no_borrowing_fee(
    s: Store,
    market: MarketProps,
    p: PositionProps,
    size_delta_usd: int,
    is_increase: bool,
)
    requires
        p.borrowing_factor == cumulative_factor(s, market, p.is_long),
    ensures
        borrowing_fee(s, market, p, size_delta_usd, is_increase) == 0,
{
    math::zero_divided(FLOAT_PRECISION as int);
    let tokens = charged_tokens(p, size_delta_usd, is_increase);
    assert(0 * tokens == 0) by (nonlinear_arith);
}

/// The pool never collects less than the exact borrowing fee, and less than one
/// token unit more.
pub proof fn borrowing_fee_covers_the_exact_amount(
    s: Store,
    market: MarketProps,
    p: PositionProps,
    size_delta_usd: int,
    is_increase: bool,
)
    requires
        0 <= charged_tokens(p, size_delta_usd, is_increase),
    ensures
        ({
            let exact = math::at_least_zero(
                cumulative_factor(s, market, p.is_long) - p.borrowing_factor,
            ) * charged_tokens(p, size_delta_usd, is_increase);
            let fee = borrowing_fee(s, market, p, size_delta_usd, is_increase);
            0 <= fee && exact <= fee * FLOAT_PRECISION < exact + FLOAT_PRECISION
        }),
{
    let delta = math::at_least_zero(cumulative_factor(s, market, p.is_long) - p.borrowing_factor);
    let tokens = charged_tokens(p, size_delta_usd, is_increase);
    assert(0 <= delta * tokens) by (nonlinear_arith)
        requires
            0 <= delta,
            0 <= tokens,
    ;
    math::ceil_div_is_ceiling(delta * tokens, FLOAT_PRECISION as int);
}

/// A long and a short of the same size gain exactly what the other loses.
pub proof fn long_and_short_profit_cancel(p: PositionProps, q: PositionProps, price: int)
    requires
        p.is_long,
        q == (PositionProps { is_long: false, ..p }),
    ensures
        total_pnl(p, price) + total_pnl(q, price) == 0,
{
}

/// Closing a position in full realises its whole profit or loss.
pub proof fn full_close_realises_the_total(p: PositionProps, price: int)
    requires
        p.size_in_usd > 0,
        p.size_in_tokens != 0,
    ensures
        slice_pnl(p, price, p.size_in_usd as int) == total_pnl(p, price),
{
    math::exact_division(total_pnl(p, price), p.size_in_usd as int);
}

/// A position that passes validation holds the required collateral, stays
/// within the leverage limit and within the open-interest cap of its side.
pub proof fn valid_position_meets_every_limit(
    s: Store,
    p: PositionProps,
    market: MarketProps,
    price: int,
)
    requires
        validation(s, p, market, price) is Ok,
    ensures
        ({
            let collateral_usd = market_utils::token_usd(p.collateral_amount as int, price);
            &&& min_collateral_factor(s, market) > 0 ==> collateral_usd >= required_collateral(
                s,
                market,
                p,
            )
            &&& max_leverage(s, market) > 0 && collateral_usd > 0 ==> leverage_bps(
                p.size_in_usd,
                collateral_usd,
            ) <= max_leverage(s, market)
            &&& market_utils::oi_cap(s, market, p.is_long) > 0 ==> market_utils::open_interest(
                s,
                market,
                p.is_long,
            ) <= market_utils::oi_cap(s, market, p.is_long)
        }),
{
}

} // verus!
