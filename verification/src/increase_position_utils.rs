//! Opening a position and adding to one.

use crate::actions::{Action, Event};
use crate::data_store::{DataStore, Key, Member, Store};
use crate::failure::Failure;
use crate::impact_pools;
use crate::market_utils;
use crate::market_utils::MarketAccrual;
use crate::math;
use crate::math::TOKEN_PRECISION;
use crate::position_utils;
use crate::table::Table;
use crate::types::{
    Address, MarketProps, PositionFees, PositionKey, PositionProps, PositionStorageKey, PriceProps,
};
use vstd::prelude::*;

verus! {

/// Why a position cannot grow.
#[derive(Clone, Copy, Debug, PartialEq, Eq, Structural)]
pub enum IncreasePositionError {
    PriceTooHigh,
    PriceTooLow,
    InsufficientCollateral,
}

/// What to add to which position.
#[derive(Clone, Copy, Debug, PartialEq, Eq, Structural)]
pub struct IncreasePositionParams {
    /// The owner of the position.
    pub account: Address,
    pub receiver: Address,
    pub market: MarketProps,
    pub collateral_token: Address,
    pub size_delta_usd: i128,
    /// The tokens that came in with the order.
    pub collateral_amount: i128,
    /// The worst price that the trader accepts; zero accepts any.
    pub acceptable_price: i128,
    pub is_long: bool,
    pub index_token_price: PriceProps,
    pub collateral_price: i128,
    pub current_time: u64,
}

/// What the pricing module gives for a change of a position, and what its
/// market has accrued.
#[derive(Clone, Copy, Debug, PartialEq, Eq, Structural)]
pub struct PositionQuote {
    pub accrual: MarketAccrual,
    pub impact_usd: i128,
    pub execution_price: i128,
}

/// The name of the position that is meant.
pub open spec fn increase_key(p: IncreasePositionParams) -> PositionKey {
    PositionKey {
        account: p.account,
        market: p.market.market_token,
        collateral_token: p.collateral_token,
        is_long: p.is_long,
    }
}

/// The position before anything was added to it.
pub open spec fn empty_position(p: IncreasePositionParams) -> PositionProps {
    PositionProps {
        account: p.account,
        market: p.market.market_token,
        collateral_token: p.collateral_token,
        size_in_usd: 0,
        size_in_tokens: 0,
        collateral_amount: 0,
        pending_impact_amount: 0,
        borrowing_factor: 0,
        funding_fee_amount_per_size: 0,
        long_claim_fnd_per_size: 0,
        short_claim_fnd_per_size: 0,
        increased_at_time: 0,
        decreased_at_time: 0,
        is_long: p.is_long,
    }
}

/// The stored position, or an empty one.
pub open spec fn position_to_increase(
    positions: Map<PositionStorageKey, PositionProps>,
    p: IncreasePositionParams,
) -> PositionProps {
    let key = PositionStorageKey::Position(increase_key(p));
    if positions.dom().contains(key) {
        positions[key]
    } else {
        empty_position(p)
    }
}

/// The price is worse than the trader accepts.
pub open spec fn increase_price_check(p: IncreasePositionParams, execution_price: int) -> Result<
    (),
    Failure,
> {
    if p.acceptable_price != 0 && p.is_long && execution_price > p.acceptable_price {
        Err(Failure::Increase(IncreasePositionError::PriceTooHigh))
    } else if p.acceptable_price != 0 && !p.is_long && execution_price < p.acceptable_price {
        Err(Failure::Increase(IncreasePositionError::PriceTooLow))
    } else {
        Ok(())
    }
}

/// The index tokens that the added size buys.
pub open spec fn bought_tokens(size_delta_usd: int, execution_price: int) -> int {
    if execution_price > 0 {
        math::trunc_div(size_delta_usd * TOKEN_PRECISION, execution_price)
    } else {
        0
    }
}

/// The grown position: collateral in, fees out, size up, snapshots taken.
pub open spec fn grown_position(
    s: Store,
    before: PositionProps,
    p: IncreasePositionParams,
    tokens: int,
    cost: int,
) -> PositionProps {
    PositionProps {
        collateral_amount: (before.collateral_amount + (p.collateral_amount - cost)) as i128,
        size_in_usd: (before.size_in_usd + p.size_delta_usd) as i128,
        size_in_tokens: (before.size_in_tokens + tokens) as i128,
        increased_at_time: p.current_time,
        borrowing_factor: math::signed(
            s.u128_at(market_utils::cumulative_key(p.market, p.is_long)),
        ),
        funding_fee_amount_per_size: s.i128_at(
            market_utils::funding_key(p.market, p.collateral_token, p.is_long),
        ),
        ..before
    }
}

/// The key of the collateral that a side holds.
pub open spec fn collateral_sum_key(market: MarketProps, token: Address, is_long: bool) -> Key {
    Key::CollateralSum { market: market.market_token, token, is_long }
}

/// What booking an increase makes of the store: more open interest, more
/// collateral, and the fees in the pool.
pub open spec fn increase_booked(s: Store, p: IncreasePositionParams, tokens: int, cost: int) -> Result<
    Store,
    Failure,
> {
    let s1 = s.shifted(
        market_utils::oi_key(p.market, p.collateral_token, p.is_long),
        p.size_delta_usd as int,
    );
    let s2 = s1.shifted(
        market_utils::oi_tokens_key(p.market, p.collateral_token, p.is_long),
        tokens,
    );
    let s3 = s2.shifted(
        collateral_sum_key(p.market, p.collateral_token, p.is_long),
        p.collateral_amount as int,
    );
    let s4 = s3.shifted(market_utils::pool_key(p.market, p.collateral_token), cost);
    if s.can_shift(
        market_utils::oi_key(p.market, p.collateral_token, p.is_long),
        p.size_delta_usd as int,
    ) && s1.can_shift(
        market_utils::oi_tokens_key(p.market, p.collateral_token, p.is_long),
        tokens,
    ) && s2.can_shift(
        collateral_sum_key(p.market, p.collateral_token, p.is_long),
        p.collateral_amount as int,
    ) && s3.can_shift(market_utils::pool_key(p.market, p.collateral_token), cost) {
        Ok(s4)
    } else {
        Err(Failure::Overflow)
    }
}

/// What comes of an increase: the position and the store, before the position
/// lists are touched.
pub struct Growth {
    pub position: PositionProps,
    pub store: Store,
}

/// What an increase makes of a position whose market is up to date and whose
/// funding is settled.
pub open spec fn growth(
    s: Store,
    before: PositionProps,
    p: IncreasePositionParams,
    q: PositionQuote,
) -> Result<Growth, Failure> {
    let tokens = bought_tokens(p.size_delta_usd as int, q.execution_price as int);
    match position_utils::position_fees(
        s,
        p.market,
        before,
        p.collateral_price as int,
        p.size_delta_usd as int,
        q.impact_usd >= 0,
        true,
    ) {
        Err(e) => Err(e),
        Ok(fees) => {
            let cost = fees.total_cost_amount as int;
            let collateral = before.collateral_amount + (p.collateral_amount - cost);
            if !math::fits(tokens) || !math::fits(p.collateral_amount - cost) || !math::fits(
                collateral,
            ) {
                Err(Failure::Overflow)
            } else if collateral < 0 {
                Err(Failure::Increase(IncreasePositionError::InsufficientCollateral))
            } else if !math::fits(before.size_in_usd + p.size_delta_usd) || !math::fits(
                before.size_in_tokens + tokens,
            ) {
                Err(Failure::Overflow)
            } else {
                let after = grown_position(s, before, p, tokens, cost);
                match increase_booked(s, p, tokens, cost) {
                    Err(e) => Err(e),
                    Ok(t) => match position_utils::validation(
                        t,
                        after,
                        p.market,
                        p.collateral_price as int,
                    ) {
                        Err(e) => Err(e),
                        Ok(_) => Ok(Growth { position: after, store: t }),
                    },
                }
            }
        },
    }
}

/// What an increase makes of a position at the price that the pricing module
/// quotes: its impact is booked, and the trader must accept the price.
pub open spec fn priced_growth(
    s: Store,
    before: PositionProps,
    p: IncreasePositionParams,
    q: PositionQuote,
) -> Result<Growth, Failure> {
    match impact_pools::impact_booked(
        s,
        impact_pools::position_impact_key(p.market),
        q.impact_usd as int,
        p.index_token_price.mid(),
    ) {
        Err(e) => Err(e),
        Ok(t) => match increase_price_check(p, q.execution_price as int) {
            Err(e) => Err(e),
            Ok(_) => growth(t, before, p, q),
        },
    }
}

/// What `increase_position` does.
pub struct Increase {
    pub position: PositionProps,
    pub store: Store,
    pub positions: Map<PositionStorageKey, PositionProps>,
    pub actions: Seq<Action>,
}

/// The store with a new position on its lists.
pub open spec fn position_enlisted(s: Store, key: PositionKey) -> Store {
    s.enlisted(Member::PositionList(key)).enlisted(Member::AccountPositionList(key.account, key))
}

/// What `increase_position` returns and does, or why it is rejected.
pub open spec fn increase(
    s: Store,
    positions: Map<PositionStorageKey, PositionProps>,
    p: IncreasePositionParams,
    q: PositionQuote,
) -> Result<Increase, Failure> {
    let key = increase_key(p);
    let stored = PositionStorageKey::Position(key);
    let before = position_to_increase(positions, p);
    if !math::fits(p.index_token_price.min + p.index_token_price.max) {
        Err(Failure::Overflow)
    } else {
        match market_utils::accrued(s, p.market, p.is_long, p.current_time, q.accrual) {
            Err(e) => Err(e),
            Ok(s1) => match position_utils::funding_settled(s1, p.market, before) {
                Err(e) => Err(e),
                Ok(s2) => match priced_growth(
                    s2,
                    position_utils::trackers_reset(s2, p.market, before),
                    p,
                    q,
                ) {
                    Err(e) => Err(e),
                    Ok(g) => Ok(
                        Increase {
                            position: g.position,
                            store: if positions.dom().contains(stored) {
                                g.store
                            } else {
                                position_enlisted(g.store, key)
                            },
                            positions: positions.insert(stored, g.position),
                            actions: seq![
                                Action::Publish(
                                    Event::PositionIncrease {
                                        position: key,
                                        account: p.account,
                                        size_delta_usd: p.size_delta_usd,
                                        execution_price: q.execution_price,
                                    },
                                ),
                            ],
                        },
                    ),
                },
            },
        }
    }
}

/// Books an increase in the store.
fn book_increase(
    ds: &mut DataStore,
    p: &IncreasePositionParams,
    tokens: i128,
    cost: i128,
) -> (r: Result<(), Failure>)
    ensures
        match increase_booked(old(ds)@, *p, tokens as int, cost as int) {
            Ok(s) => r == Ok::<(), Failure>(()) && final(ds)@ == s,
            Err(e) => r == Err::<(), Failure>(e),
        },
{
    market_utils::apply_delta_to_open_interest(
        ds,
        &p.market,
        &p.collateral_token,
        p.is_long,
        p.size_delta_usd,
    )?;
    market_utils::apply_delta_to_open_interest_in_tokens(
        ds,
        &p.market,
        &p.collateral_token,
        p.is_long,
        tokens,
    )?;
    ds.apply_delta_to_u128(
        Key::CollateralSum {
            market: p.market.market_token,
            token: p.collateral_token,
            is_long: p.is_long,
        },
        p.collateral_amount,
    )?;
    market_utils::apply_delta_to_pool_amount(ds, &p.market, &p.collateral_token, cost)?;
    Ok(())
}

/// Grows a position whose market is up to date and whose funding is settled.
fn grow(
    ds: &mut DataStore,
    before: &PositionProps,
    p: &IncreasePositionParams,
    q: &PositionQuote,
) -> (r: Result<PositionProps, Failure>)
    ensures
        match growth(old(ds)@, *before, *p, *q) {
            Ok(g) => r == Ok::<PositionProps, Failure>(g.position) && final(ds)@ == g.store,
            Err(e) => r == Err::<PositionProps, Failure>(e),
        },
{
    let fees: PositionFees = position_utils::get_position_fees(
        ds,
        &p.market,
        before,
        p.collateral_price,
        p.size_delta_usd,
        q.impact_usd >= 0,
        true,
    )?;
    let tokens: i128 = if q.execution_price > 0 {
        math::mul_div_wide(p.size_delta_usd, TOKEN_PRECISION, q.execution_price)?
    } else {
        0
    };
    let net: i128 = math::minus(p.collateral_amount, fees.total_cost_amount)?;
    let collateral_amount: i128 = math::plus(before.collateral_amount, net)?;
    if collateral_amount < 0 {
        return Err(Failure::Increase(IncreasePositionError::InsufficientCollateral));
    }
    let size_in_usd: i128 = math::plus(before.size_in_usd, p.size_delta_usd)?;
    let size_in_tokens: i128 = math::plus(before.size_in_tokens, tokens)?;
    let after = PositionProps {
        collateral_amount,
        size_in_usd,
        size_in_tokens,
        increased_at_time: p.current_time,
        borrowing_factor: math::to_signed(
            ds.get_u128(
                &Key::CumulativeBorrowingFactor {
                    market: p.market.market_token,
                    is_long: p.is_long,
                },
            ),
        ),
        funding_fee_amount_per_size: ds.get_i128(
            &Key::FundingAmountPerSize {
                market: p.market.market_token,
                token: p.collateral_token,
                is_long: p.is_long,
            },
        ),
        ..*before
    };
    book_increase(ds, p, tokens, fees.total_cost_amount)?;
    position_utils::validate_position(ds, &after, &p.market, p.collateral_price)?;
    Ok(after)
}

/// Opens or grows a position in a store that the caller discards where the
/// increase is rejected.
pub(crate) fn increase_in(
    ds: &mut DataStore,
    positions: &mut Table<PositionStorageKey, PositionProps>,
    out: &mut Vec<Action>,
    p: &IncreasePositionParams,
    q: &PositionQuote,
) -> (r: Result<PositionProps, Failure>)
    ensures
        match increase(old(ds)@, old(positions)@, *p, *q) {
            Ok(i) => {
                &&& r == Ok::<PositionProps, Failure>(i.position)
                &&& final(ds)@ == i.store
                &&& final(positions)@ == i.positions
                &&& final(out)@ == old(out)@ + i.actions
            },
            Err(e) => {
                &&& r == Err::<PositionProps, Failure>(e)
                &&& final(positions)@ == old(positions)@
                &&& final(out)@ == old(out)@
            },
        },
{
    let key = position_utils::get_position_key(
        &p.account,
        &p.market.market_token,
        &p.collateral_token,
        p.is_long,
    );
    let stored = PositionStorageKey::Position(key);
    let mut is_new = true;
    let mut position = PositionProps {
        account: p.account,
        market: p.market.market_token,
        collateral_token: p.collateral_token,
        size_in_usd: 0,
        size_in_tokens: 0,
        collateral_amount: 0,
        pending_impact_amount: 0,
        borrowing_factor: 0,
        funding_fee_amount_per_size: 0,
        long_claim_fnd_per_size: 0,
        short_claim_fnd_per_size: 0,
        increased_at_time: 0,
        decreased_at_time: 0,
        is_long: p.is_long,
    };
    if let Some(found) = positions.get(&stored) {
        is_new = false;
        position = *found;
    }
    let index_price: i128 = p.index_token_price.mid_price()?;
    market_utils::accrue(ds, &p.market, p.is_long, p.current_time, &q.accrual)?;
    position_utils::settle_funding(ds, &p.market, &mut position)?;
    impact_pools::apply_position_impact_value(ds, &p.market, q.impact_usd, index_price)?;
    if p.acceptable_price != 0 {
        if p.is_long && q.execution_price > p.acceptable_price {
            return Err(Failure::Increase(IncreasePositionError::PriceTooHigh));
        }
        if !p.is_long && q.execution_price < p.acceptable_price {
            return Err(Failure::Increase(IncreasePositionError::PriceTooLow));
        }
    }
    let after = grow(ds, &position, p, q)?;
    positions.set(stored, after);
    if is_new {
        ds.add_to_set(Member::PositionList(key));
        ds.add_to_set(Member::AccountPositionList(p.account, key));
    }
    out.push(
        Action::Publish(
            Event::PositionIncrease {
                position: key,
                account: p.account,
                size_delta_usd: p.size_delta_usd,
                execution_price: q.execution_price,
            },
        ),
    );
    Ok(after)
}

/// Opens a position or adds to an existing one.  `q` is what the pricing module
/// gives for this increase, and what the market has accrued.
pub fn increase_position(
    ds: &mut DataStore,
    positions: &mut Table<PositionStorageKey, PositionProps>,
    out: &mut Vec<Action>,
    p: &IncreasePositionParams,
    q: &PositionQuote,
) -> (r: Result<PositionProps, Failure>)
    ensures
        match increase(old(ds)@, old(positions)@, *p, *q) {
            Ok(i) => {
                &&& r == Ok::<PositionProps, Failure>(i.position)
                &&& final(ds)@ == i.store
                &&& final(positions)@ == i.positions
                &&& final(out)@ == old(out)@ + i.actions
            },
            Err(e) => {
                &&& r == Err::<PositionProps, Failure>(e)
                &&& final(ds)@ == old(ds)@
                &&& final(positions)@ == old(positions)@
                &&& final(out)@ == old(out)@
            },
        },
{
    let mut work = ds.duplicate();
    let position = increase_in(&mut work, positions, out, p, q)?;
    *ds = work;
    Ok(position)
}

// ---------------------------------------------------------------------------
// Laws
// ---------------------------------------------------------------------------

/// No keeper can fill at a price that the trader rejected.
pub proof fn increase_respects_the_acceptable_price(
    s: Store,
    positions: Map<PositionStorageKey, PositionProps>,
    p: IncreasePositionParams,
    q: PositionQuote,
)
    requires
        increase(s, positions, p, q) is Ok,
        p.acceptable_price != 0,
    ensures
        p.is_long ==> q.execution_price <= p.acceptable_price,
        !p.is_long ==> q.execution_price >= p.acceptable_price,
{
}

/// After an increase the open interest of the side is within its cap.
pub proof fn increase_respects_the_open_interest_cap(
    s: Store,
    positions: Map<PositionStorageKey, PositionProps>,
    p: IncreasePositionParams,
    q: PositionQuote,
)
    requires
        position_to_increase(positions, p).is_long == p.is_long,
    ensures
        increase(s, positions, p, q) matches Ok(i) ==> !market_utils::above_oi_cap(
            i.store,
            p.market,
            p.is_long,
        ),
{
}

/// An increase raises the open interest of its side by exactly the added size.
pub proof fn increase_raises_open_interest(
    s: Store,
    positions: Map<PositionStorageKey, PositionProps>,
    p: IncreasePositionParams,
    q: PositionQuote,
)
    requires
        p.collateral_token == p.market.long_token || p.collateral_token == p.market.short_token,
    ensures
        increase(s, positions, p, q) matches Ok(i) ==> market_utils::open_interest(
            i.store,
            p.market,
            p.is_long,
        ) == market_utils::open_interest(s, p.market, p.is_long) + p.size_delta_usd,
{
}

/// After an increase the position is stored and listed, its borrowing snapshot
/// is fresh and its funding is settled.
pub proof fn increase_leaves_a_fresh_position(
    s: Store,
    positions: Map<PositionStorageKey, PositionProps>,
    p: IncreasePositionParams,
    q: PositionQuote,
)
    requires
        ({
            let held = position_to_increase(positions, p);
            held.is_long == p.is_long && held.collateral_token == p.collateral_token
        }),
        positions.dom().contains(PositionStorageKey::Position(increase_key(p))) ==> s.lists(
            Member::PositionList(increase_key(p)),
        ),
    ensures
        increase(s, positions, p, q) matches Ok(i) ==> {
            &&& i.positions.dom().contains(PositionStorageKey::Position(increase_key(p)))
            &&& i.positions[PositionStorageKey::Position(increase_key(p))] == i.position
            &&& i.store.lists(Member::PositionList(increase_key(p)))
            &&& i.position.borrowing_factor == position_utils::cumulative_factor(
                i.store,
                p.market,
                p.is_long,
            )
            &&& position_utils::funding_owed_per_size(i.store, p.market, i.position) == 0
            &&& i.position.collateral_amount >= 0
        },
{
}

/// Whatever is added to, no other position changes.
pub proof fn increase_touches_no_other_position(
    s: Store,
    positions: Map<PositionStorageKey, PositionProps>,
    p: IncreasePositionParams,
    q: PositionQuote,
    other: PositionStorageKey,
)
    requires
        other != PositionStorageKey::Position(increase_key(p)),
    ensures
        increase(s, positions, p, q) matches Ok(i) ==> {
            &&& i.positions.dom().contains(other) == positions.dom().contains(other)
            &&& i.positions.dom().contains(other) ==> i.positions[other] == positions[other]
        },
{
}

/// The collateral of a grown position is what it held, plus what came in, less
/// the fees, and the pool gains exactly those fees.
pub proof fn increase_conserves_collateral(
    s: Store,
    before: PositionProps,
    p: IncreasePositionParams,
    q: PositionQuote,
)
    ensures
        growth(s, before, p, q) matches Ok(g) ==> {
            let pool = market_utils::pool_key(p.market, p.collateral_token);
            g.position.collateral_amount + (g.store.u128_at(pool) - s.u128_at(pool))
                == before.collateral_amount + p.collateral_amount
        },
{
}

/// An increase books exactly its price impact in the market's impact pool: a
/// charge grows the pool, a rebate is paid out of it and never below zero.
pub proof fn increase_books_its_impact(
    s: Store,
    positions: Map<PositionStorageKey, PositionProps>,
    p: IncreasePositionParams,
    q: PositionQuote,
)
    ensures
        increase(s, positions, p, q) matches Ok(i) ==> {
            let key = impact_pools::position_impact_key(p.market);
            let price = p.index_token_price.mid();
            let before = s.u128_at(key);
            let after = i.store.u128_at(key);
            &&& price > 0 && q.impact_usd != 0 ==> after == impact_pools::pool_after(
                before as int,
                q.impact_usd as int,
                price,
            )
            &&& price > 0 && q.impact_usd < 0 ==> after > before
            &&& q.impact_usd >= 0 ==> after <= before
            &&& q.impact_usd == 0 || price <= 0 ==> after == before
        },
{
    let key = impact_pools::position_impact_key(p.market);
    let price = p.index_token_price.mid();
    if price > 0 {
        if q.impact_usd < 0 {
            impact_pools::charges_grow_the_pool(s, key, q.impact_usd as int, price);
        } else {
            impact_pools::rebates_are_capped_at_the_pool(s, key, q.impact_usd as int, price);
        }
    }
}

} // verus!
