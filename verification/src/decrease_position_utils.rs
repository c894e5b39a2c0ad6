//! Closing a position, in full or in part.

use crate::actions::{Action, Event};
use crate::data_store::{DataStore, Key, Member, Store};
use crate::failure::Failure;
use crate::impact_pools;
use crate::increase_position_utils;
use crate::increase_position_utils::{IncreasePositionParams, PositionQuote};
use crate::market_utils;
use crate::math;
use crate::math::{FLOAT_PRECISION, TOKEN_PRECISION};
use crate::position_utils;
use crate::table::Table;
use crate::types::{
    Address, DecreasePositionResult, MarketProps, PositionFees, PositionKey, PositionProps,
    PositionStorageKey, PriceProps,
};
use vstd::prelude::*;

verus! {

/// Why a position cannot shrink.
#[derive(Clone, Copy, Debug, PartialEq, Eq, Structural)]
pub enum DecreasePositionError {
    PriceTooLow,
    PriceTooHigh,
}

/// What to close of which position.
#[derive(Clone, Copy, Debug, PartialEq, Eq, Structural)]
pub struct DecreasePositionParams {
    /// The owner of the position.
    pub account: Address,
    /// Who is paid out.
    pub receiver: Address,
    pub market: MarketProps,
    pub collateral_token: Address,
    /// The size of the slice to close; more than the position means all of it.
    pub size_delta_usd: i128,
    /// The worst price that the trader accepts; zero accepts any.
    pub acceptable_price: i128,
    pub is_long: bool,
    pub index_token_price: PriceProps,
    pub collateral_price: i128,
    pub current_time: u64,
}

/// The name of the position that is meant.
pub open spec fn decrease_key(p: DecreasePositionParams) -> PositionKey {
    PositionKey {
        account: p.account,
        market: p.market.market_token,
        collateral_token: p.collateral_token,
        is_long: p.is_long,
    }
}

/// The slice that closes: never more than the position.
pub open spec fn closed_size(position: PositionProps, size_delta_usd: i128) -> i128 {
    if size_delta_usd < position.size_in_usd {
        size_delta_usd
    } else {
        position.size_in_usd
    }
}

/// The price is worse than the trader accepts.
pub open spec fn decrease_price_check(p: DecreasePositionParams, execution_price: int) -> Result<
    (),
    Failure,
> {
    if p.acceptable_price != 0 && p.is_long && execution_price < p.acceptable_price {
        Err(Failure::Decrease(DecreasePositionError::PriceTooLow))
    } else if p.acceptable_price != 0 && !p.is_long && execution_price > p.acceptable_price {
        Err(Failure::Decrease(DecreasePositionError::PriceTooHigh))
    } else {
        Ok(())
    }
}

/// The realised profit or loss of a slice in collateral tokens.
pub open spec fn pnl_in_tokens(pnl_usd: int, price: int) -> int {
    if price > 0 {
        math::trunc_div(pnl_usd * TOKEN_PRECISION, price)
    } else {
        0
    }
}

/// The collateral that leaves with a slice.
pub open spec fn slice_collateral(p: PositionProps, size: int) -> int {
    if p.size_in_usd > 0 {
        math::trunc_div(p.collateral_amount * size, p.size_in_usd as int)
    } else {
        p.collateral_amount as int
    }
}

/// The amounts that move when a slice closes.
pub struct Slice {
    /// Size in dollars.
    pub size: int,
    /// Size in index tokens.
    pub tokens: int,
    /// Realised profit in collateral tokens.
    pub pnl_tokens: int,
    /// Fees in collateral tokens.
    pub cost: int,
    /// Collateral that leaves the position.
    pub collateral: int,
}

impl Slice {
    /// What the receiver is paid: the collateral with the profit, less the fees,
    /// and never less than nothing.
    pub open spec fn output(self) -> int {
        math::at_least_zero(self.collateral + self.pnl_tokens - self.cost)
    }
}

/// What closing a slice makes of the store: the pool pays the profit or takes
/// the loss, keeps the fees, and the open interest falls.  The collateral sum
/// falls by what is paid out, though never below zero: a profit is paid out of
/// the pool.
pub open spec fn decrease_booked(s: Store, p: DecreasePositionParams, x: Slice) -> Result<
    Store,
    Failure,
> {
    let pool = market_utils::pool_key(p.market, p.collateral_token);
    let oi = market_utils::oi_key(p.market, p.collateral_token, p.is_long);
    let oi_tokens = market_utils::oi_tokens_key(p.market, p.collateral_token, p.is_long);
    let sum = increase_position_utils::collateral_sum_key(
        p.market,
        p.collateral_token,
        p.is_long,
    );
    let s1 = if x.pnl_tokens == 0 {
        s
    } else {
        s.shifted(pool, -x.pnl_tokens)
    };
    let s2 = s1.shifted(pool, x.cost);
    let s3 = s2.shifted(oi, -x.size);
    let s4 = s3.shifted(oi_tokens, -x.tokens);
    if (x.pnl_tokens == 0 || s.can_shift(pool, -x.pnl_tokens)) && s1.can_shift(pool, x.cost)
        && s2.can_shift(oi, -x.size) && s3.can_shift(oi_tokens, -x.tokens) {
        Ok(s4.with_u128(sum, math::at_least_zero(s4.u128_at(sum) - x.output()) as u128))
    } else {
        Err(Failure::Overflow)
    }
}

/// Every amount of a slice, and what is left of the position, fits its machine
/// type.
pub open spec fn slice_fits(before: PositionProps, x: Slice) -> bool {
    &&& math::fits(x.tokens)
    &&& math::fits(x.pnl_tokens)
    &&& math::fits(-x.pnl_tokens)
    &&& math::fits(x.collateral)
    &&& math::fits(x.collateral + x.pnl_tokens)
    &&& math::fits(x.collateral + x.pnl_tokens - x.cost)
    &&& math::fits(before.size_in_usd - x.size)
    &&& math::fits(before.size_in_tokens - x.tokens)
    &&& math::fits(before.collateral_amount - x.collateral)
    &&& math::fits(-x.size)
    &&& math::fits(-x.tokens)
}

/// What is left of the position: less size and collateral, snapshots taken.
pub open spec fn shrunk_position(
    s: Store,
    before: PositionProps,
    p: DecreasePositionParams,
    x: Slice,
) -> PositionProps {
    PositionProps {
        size_in_usd: (before.size_in_usd - x.size) as i128,
        size_in_tokens: (before.size_in_tokens - x.tokens) as i128,
        collateral_amount: (before.collateral_amount - x.collateral) as i128,
        decreased_at_time: p.current_time,
        borrowing_factor: math::signed(
            s.u128_at(market_utils::cumulative_key(p.market, p.is_long)),
        ),
        funding_fee_amount_per_size: s.i128_at(
            market_utils::funding_key(p.market, p.collateral_token, p.is_long),
        ),
        ..before
    }
}

/// What comes of closing a slice, before the position lists are touched.
pub struct Shrinkage {
    pub position: PositionProps,
    pub store: Store,
    pub pnl_usd: i128,
    pub slice: Slice,
}

/// The amounts of a slice, given what its profit and its fees come to.
pub open spec fn slice_of(
    before: PositionProps,
    p: DecreasePositionParams,
    size: int,
    pnl_usd: int,
    cost: int,
) -> Slice {
    Slice {
        size,
        tokens: position_utils::slice_tokens(before, size),
        pnl_tokens: pnl_in_tokens(pnl_usd, p.collateral_price as int),
        cost,
        collateral: slice_collateral(before, size),
    }
}

/// What closing a slice makes of a position whose market is up to date and
/// whose funding is settled.
pub open spec fn shrinkage(
    s: Store,
    before: PositionProps,
    p: DecreasePositionParams,
    q: PositionQuote,
    size: i128,
) -> Result<Shrinkage, Failure> {
    match (
        position_utils::position_pnl(before, p.index_token_price, size as int),
        position_utils::position_fees(
            s,
            p.market,
            before,
            p.collateral_price as int,
            size as int,
            q.impact_usd >= 0,
            false,
        ),
    ) {
        (Ok((pnl_usd, _)), Ok(fees)) => {
            let x = slice_of(
                before,
                p,
                size as int,
                pnl_usd as int,
                fees.total_cost_amount as int,
            );
            let after = shrunk_position(s, before, p, x);
            match decrease_booked(s, p, x) {
                Ok(t) => if !slice_fits(before, x) {
                    Err(Failure::Overflow)
                } else {
                    match if after.size_in_usd == 0 {
                        Ok(())
                    } else {
                        position_utils::validation(t, after, p.market, p.collateral_price as int)
                    } {
                        Ok(_) => Ok(Shrinkage { position: after, store: t, pnl_usd, slice: x }),
                        Err(e) => Err(e),
                    }
                },
                Err(e) => Err(e),
            }
        },
        _ => Err(Failure::Overflow),
    }
}

/// What closing a slice comes to at the price that the pricing module quotes: its
/// impact is booked, and the trader must accept the price.
pub open spec fn priced_shrinkage(
    s: Store,
    before: PositionProps,
    p: DecreasePositionParams,
    q: PositionQuote,
    size: i128,
) -> Result<Shrinkage, Failure> {
    match impact_pools::impact_booked(
        s,
        impact_pools::position_impact_key(p.market),
        q.impact_usd as int,
        p.index_token_price.mid(),
    ) {
        Err(e) => Err(e),
        Ok(t) => match decrease_price_check(p, q.execution_price as int) {
            Err(e) => Err(e),
            Ok(_) => shrinkage(t, before, p, q, size),
        },
    }
}

/// What closing a position or a slice of it does, payments and events aside.
pub struct Close {
    pub result: DecreasePositionResult,
    pub size: i128,
    pub store: Store,
    pub positions: Map<PositionStorageKey, PositionProps>,
}

/// The store with a closed position off its lists.
pub open spec fn position_delisted(s: Store, key: PositionKey) -> Store {
    s.delisted(Member::PositionList(key)).delisted(Member::AccountPositionList(key.account, key))
}

/// What closing a position or a slice of it comes to, or why it is rejected.
pub open spec fn close(
    s: Store,
    positions: Map<PositionStorageKey, PositionProps>,
    p: DecreasePositionParams,
    q: PositionQuote,
) -> Result<Close, Failure> {
    let key = decrease_key(p);
    let stored = PositionStorageKey::Position(key);
    let before = positions[stored];
    let size = closed_size(before, p.size_delta_usd);
    if !positions.dom().contains(stored) {
        Err(Failure::PositionNotFound)
    } else if !math::fits(p.index_token_price.min + p.index_token_price.max) {
        Err(Failure::Overflow)
    } else {
        match market_utils::accrued(s, p.market, p.is_long, p.current_time, q.accrual) {
            Err(e) => Err(e),
            Ok(s1) => match position_utils::funding_settled(s1, p.market, before) {
                Err(e) => Err(e),
                Ok(s2) => match priced_shrinkage(
                    s2,
                    position_utils::trackers_reset(s2, p.market, before),
                    p,
                    q,
                    size,
                ) {
                    Err(e) => Err(e),
                    Ok(x) => Ok(
                        Close {
                            result: DecreasePositionResult {
                                execution_price: q.execution_price,
                                pnl_usd: x.pnl_usd,
                                output_amount: x.slice.output() as i128,
                                secondary_output_amount: 0,
                                remaining_collateral: x.position.collateral_amount,
                                is_fully_closed: x.position.size_in_usd == 0,
                            },
                            size,
                            store: if x.position.size_in_usd == 0 {
                                position_delisted(x.store, key)
                            } else {
                                x.store
                            },
                            positions: if x.position.size_in_usd == 0 {
                                positions.remove(stored)
                            } else {
                                positions.insert(stored, x.position)
                            },
                        },
                    ),
                },
            },
        }
    }
}

/// The event of a decrease.
pub open spec fn decrease_event(
    p: DecreasePositionParams,
    result: DecreasePositionResult,
    size: i128,
) -> Action {
    Action::Publish(
        Event::PositionDecrease {
            position: decrease_key(p),
            account: p.account,
            size_delta_usd: size,
            execution_price: result.execution_price,
            pnl_usd: result.pnl_usd,
        },
    )
}

/// What a decrease asks of the world outside: pay the output where there is any,
/// publish the event.
pub open spec fn decrease_actions(p: DecreasePositionParams, c: Close) -> Seq<Action> {
    if c.result.output_amount > 0 {
        seq![
            Action::WithdrawFromPool {
                market: p.market.market_token,
                token: p.collateral_token,
                receiver: p.receiver,
                amount: c.result.output_amount,
            },
            decrease_event(p, c.result, c.size),
        ]
    } else {
        seq![decrease_event(p, c.result, c.size)]
    }
}

/// Books a closed slice in the store.
fn book_decrease(
    ds: &mut DataStore,
    p: &DecreasePositionParams,
    size: i128,
    tokens: i128,
    pnl_tokens: i128,
    cost: i128,
    output: i128,
    collateral: Ghost<int>,
) -> (r: Result<(), Failure>)
    requires
        math::fits(-size),
        math::fits(-tokens),
        math::fits(-pnl_tokens),
        output == math::at_least_zero(collateral@ + pnl_tokens - cost),
    ensures
        match decrease_booked(
            old(ds)@,
            *p,
            (Slice {
                size: size as int,
                tokens: tokens as int,
                pnl_tokens: pnl_tokens as int,
                cost: cost as int,
                collateral: collateral@,
            }),
        ) {
            Ok(s) => r == Ok::<(), Failure>(()) && final(ds)@ == s,
            Err(e) => r == Err::<(), Failure>(e),
        },
{
    if pnl_tokens != 0 {
        market_utils::apply_delta_to_pool_amount(ds, &p.market, &p.collateral_token, -pnl_tokens)?;
    }
    market_utils::apply_delta_to_pool_amount(ds, &p.market, &p.collateral_token, cost)?;
    market_utils::apply_delta_to_open_interest(
        ds,
        &p.market,
        &p.collateral_token,
        p.is_long,
        -size,
    )?;
    market_utils::apply_delta_to_open_interest_in_tokens(
        ds,
        &p.market,
        &p.collateral_token,
        p.is_long,
        -tokens,
    )?;
    let sum_key = Key::CollateralSum {
        market: p.market.market_token,
        token: p.collateral_token,
        is_long: p.is_long,
    };
    let held: u128 = ds.get_u128(&sum_key);
    let paid: u128 = output as u128;
    ds.put_u128(
        sum_key,
        if paid < held {
            held - paid
        } else {
            0
        },
    );
    Ok(())
}

/// What `shrink` hands back.
struct Shrunk {
    position: PositionProps,
    pnl_usd: i128,
    output: i128,
}

/// The negation, or an overflow.
fn negated(x: i128) -> (r: Result<i128, Failure>)
    ensures
        r == math::fit(-x),
{
    math::minus(0, x)
}

/// Closes a slice of a position whose market is up to date and whose funding is
/// settled.
fn shrink(
    ds: &mut DataStore,
    before: &PositionProps,
    p: &DecreasePositionParams,
    q: &PositionQuote,
    size: i128,
) -> (r: Result<Shrunk, Failure>)
    ensures
        match shrinkage(old(ds)@, *before, *p, *q, size) {
            Ok(x) => r is Ok && r->Ok_0.position == x.position && r->Ok_0.pnl_usd == x.pnl_usd
                && r->Ok_0.output == x.slice.output() && final(ds)@ == x.store,
            Err(e) => r is Err && r->Err_0 == e,
        },
{
    let (pnl_usd, _) = position_utils::get_position_pnl_usd(before, &p.index_token_price, size)?;
    let fees: PositionFees = position_utils::get_position_fees(
        ds,
        &p.market,
        before,
        p.collateral_price,
        size,
        q.impact_usd >= 0,
        false,
    )?;
    let cost: i128 = fees.total_cost_amount;
    let tokens: i128 = position_utils::get_slice_tokens(before, size)?;
    let pnl_tokens: i128 = if p.collateral_price > 0 {
        math::mul_div_wide(pnl_usd, TOKEN_PRECISION, p.collateral_price)?
    } else {
        0
    };
    let collateral: i128 = if before.size_in_usd > 0 {
        math::mul_div_wide(before.collateral_amount, size, before.size_in_usd)?
    } else {
        before.collateral_amount
    };
    let gross: i128 = math::plus(collateral, pnl_tokens)?;
    let raw_output: i128 = math::minus(gross, cost)?;
    let output: i128 = if raw_output < 0 {
        0
    } else {
        raw_output
    };
    let size_in_usd: i128 = math::minus(before.size_in_usd, size)?;
    let size_in_tokens: i128 = math::minus(before.size_in_tokens, tokens)?;
    let collateral_amount: i128 = math::minus(before.collateral_amount, collateral)?;
    negated(pnl_tokens)?;
    negated(size)?;
    negated(tokens)?;
    let after = PositionProps {
        size_in_usd,
        size_in_tokens,
        collateral_amount,
        decreased_at_time: p.current_time,
        borrowing_factor: math::to_signed(
            ds.get_u128(
                &Key::CumulativeBorrowingFactor {
                    market: p.market.market_token,
                    is_long: p.is_long,
                },
            ),
        ),
        funding_fee_amount_per_size: ds.get_i128(
            &Key::FundingAmountPerSize {
                market: p.market.market_token,
                token: p.collateral_token,
                is_long: p.is_long,
            },
        ),
        ..*before
    };
    book_decrease(ds, p, size, tokens, pnl_tokens, cost, output, Ghost(collateral as int))?;
    if after.size_in_usd != 0 {
        position_utils::validate_position(ds, &after, &p.market, p.collateral_price)?;
    }
    Ok(Shrunk { position: after, pnl_usd, output })
}

/// What `close_in` hands back: the result and the size that closed.
pub(crate) struct Closed {
    pub(crate) result: DecreasePositionResult,
    pub(crate) size: i128,
}

/// Closes a position or a slice of it in a store that the caller discards where
/// the decrease is rejected; payments and events are left to the caller.
pub(crate) fn close_in(
    ds: &mut DataStore,
    positions: &mut Table<PositionStorageKey, PositionProps>,
    p: &DecreasePositionParams,
    q: &PositionQuote,
) -> (r: Result<Closed, Failure>)
    ensures
        match close(old(ds)@, old(positions)@, *p, *q) {
            Ok(c) => {
                &&& r is Ok
                &&& r->Ok_0.result == c.result
                &&& r->Ok_0.size == c.size
                &&& final(ds)@ == c.store
                &&& final(positions)@ == c.positions
            },
            Err(e) => {
                &&& r is Err
                &&& r->Err_0 == e
                &&& final(positions)@ == old(positions)@
            },
        },
{
    let key = position_utils::get_position_key(
        &p.account,
        &p.market.market_token,
        &p.collateral_token,
        p.is_long,
    );
    let stored = PositionStorageKey::Position(key);
    let mut position = match positions.get(&stored) {
        Some(found) => *found,
        None => {
            return Err(Failure::PositionNotFound);
        },
    };
    let size: i128 = if p.size_delta_usd < position.size_in_usd {
        p.size_delta_usd
    } else {
        position.size_in_usd
    };
    let index_price: i128 = p.index_token_price.mid_price()?;
    market_utils::accrue(ds, &p.market, p.is_long, p.current_time, &q.accrual)?;
    position_utils::settle_funding(ds, &p.market, &mut position)?;
    impact_pools::apply_position_impact_value(ds, &p.market, q.impact_usd, index_price)?;
    if p.acceptable_price != 0 {
        if p.is_long && q.execution_price < p.acceptable_price {
            return Err(Failure::Decrease(DecreasePositionError::PriceTooLow));
        }
        if !p.is_long && q.execution_price > p.acceptable_price {
            return Err(Failure::Decrease(DecreasePositionError::PriceTooHigh));
        }
    }
    let shrunk = shrink(ds, &position, p, q, size)?;
    let is_fully_closed = shrunk.position.size_in_usd == 0;
    if is_fully_closed {
        positions.remove(&stored);
        ds.remove_from_set(Member::PositionList(key));
        ds.remove_from_set(Member::AccountPositionList(p.account, key));
    } else {
        positions.set(stored, shrunk.position);
    }
    Ok(
        Closed {
            result: DecreasePositionResult {
                execution_price: q.execution_price,
                pnl_usd: shrunk.pnl_usd,
                output_amount: shrunk.output,
                secondary_output_amount: 0,
                remaining_collateral: shrunk.position.collateral_amount,
                is_fully_closed,
            },
            size,
        },
    )
}

/// Publishes the event of a decrease.
pub(crate) fn push_decrease_event(
    out: &mut Vec<Action>,
    p: &DecreasePositionParams,
    closed: &Closed,
)
    ensures
        final(out)@ == old(out)@.push(decrease_event(*p, closed.result, closed.size)),
{
    let key = position_utils::get_position_key(
        &p.account,
        &p.market.market_token,
        &p.collateral_token,
        p.is_long,
    );
    out.push(
        Action::Publish(
            Event::PositionDecrease {
                position: key,
                account: p.account,
                size_delta_usd: closed.size,
                execution_price: closed.result.execution_price,
                pnl_usd: closed.result.pnl_usd,
            },
        ),
    );
}

/// Closes a position or a slice of it, in a store that the caller discards where
/// the decrease is rejected.
pub(crate) fn decrease_in(
    ds: &mut DataStore,
    positions: &mut Table<PositionStorageKey, PositionProps>,
    out: &mut Vec<Action>,
    p: &DecreasePositionParams,
    q: &PositionQuote,
) -> (r: Result<DecreasePositionResult, Failure>)
    ensures
        match close(old(ds)@, old(positions)@, *p, *q) {
            Ok(c) => {
                &&& r == Ok::<DecreasePositionResult, Failure>(c.result)
                &&& final(ds)@ == c.store
                &&& final(positions)@ == c.positions
                &&& final(out)@ == old(out)@ + decrease_actions(*p, c)
            },
            Err(e) => {
                &&& r == Err::<DecreasePositionResult, Failure>(e)
                &&& final(positions)@ == old(positions)@
                &&& final(out)@ == old(out)@
            },
        },
{
    let ghost planned = close(ds@, positions@, *p, *q);
    let closed = close_in(ds, positions, p, q)?;
    if closed.result.output_amount > 0 {
        out.push(
            Action::WithdrawFromPool {
                market: p.market.market_token,
                token: p.collateral_token,
                receiver: p.receiver,
                amount: closed.result.output_amount,
            },
        );
    }
    push_decrease_event(out, p, &closed);
    assert(out@ =~= old(out)@ + decrease_actions(*p, planned->Ok_0));
    Ok(closed.result)
}

/// Closes a position or a slice of it and pays the receiver.  `q` is what the
/// pricing module gives for this decrease, and what the market has accrued.
pub fn decrease_position(
    ds: &mut DataStore,
    positions: &mut Table<PositionStorageKey, PositionProps>,
    out: &mut Vec<Action>,
    p: &DecreasePositionParams,
    q: &PositionQuote,
) -> (r: Result<DecreasePositionResult, Failure>)
    ensures
        match close(old(ds)@, old(positions)@, *p, *q) {
            Ok(c) => {
                &&& r == Ok::<DecreasePositionResult, Failure>(c.result)
                &&& final(ds)@ == c.store
                &&& final(positions)@ == c.positions
                &&& final(out)@ == old(out)@ + decrease_actions(*p, c)
            },
            Err(e) => {
                &&& r == Err::<DecreasePositionResult, Failure>(e)
                &&& final(ds)@ == old(ds)@
                &&& final(positions)@ == old(positions)@
                &&& final(out)@ == old(out)@
            },
        },
{
    let mut work = ds.duplicate();
    let result = decrease_in(&mut work, positions, out, p, q)?;
    *ds = work;
    Ok(result)
}

// ---------------------------------------------------------------------------
// Laws
// ---------------------------------------------------------------------------

/// No keeper can close at a price that the trader rejected.
pub proof fn decrease_respects_the_acceptable_price(
    s: Store,
    positions: Map<PositionStorageKey, PositionProps>,
    p: DecreasePositionParams,
    q: PositionQuote,
)
    requires
        close(s, positions, p, q) is Ok,
        p.acceptable_price != 0,
    ensures
        p.is_long ==> q.execution_price >= p.acceptable_price,
        !p.is_long ==> q.execution_price <= p.acceptable_price,
{
}

/// A decrease either removes the position or leaves it with a smaller size, a
/// fresh borrowing snapshot and settled funding, so that what was accrued is
/// never charged again.
pub proof fn decrease_leaves_a_fresh_position(
    s: Store,
    positions: Map<PositionStorageKey, PositionProps>,
    p: DecreasePositionParams,
    q: PositionQuote,
    next_size: int,
    price: int,
)
    requires
        ({
            let held = positions[PositionStorageKey::Position(decrease_key(p))];
            held.is_long == p.is_long && held.collateral_token == p.collateral_token
        }),
    ensures
        close(s, positions, p, q) matches Ok(c) ==> {
            let stored = PositionStorageKey::Position(decrease_key(p));
            let after = c.positions[stored];
            if c.result.is_fully_closed {
                &&& !c.positions.dom().contains(stored)
                &&& !c.store.lists(Member::PositionList(decrease_key(p)))
                &&& !c.store.lists(Member::AccountPositionList(p.account, decrease_key(p)))
            } else {
                &&& c.positions.dom().contains(stored)
                &&& after.size_in_usd == positions[stored].size_in_usd - c.size
                &&& after.borrowing_factor == position_utils::cumulative_factor(
                    c.store,
                    p.market,
                    p.is_long,
                )
                &&& position_utils::borrowing_fee(c.store, p.market, after, next_size, false) == 0
                &&& position_utils::funding_fee(c.store, p.market, after, price) == 0
            }
        },
{
    if let Ok(c) = close(s, positions, p, q) {
        let after = c.positions[PositionStorageKey::Position(decrease_key(p))];
        if !c.result.is_fully_closed {
            position_utils::fresh_snapshot_owes_no_borrowing_fee(
                c.store,
                p.market,
                after,
                next_size,
                false,
            );
        }
    }
}

/// Asking to close at least the whole position closes it, and the position is
/// paid out in full: its collateral and its whole profit or loss, less the
/// fees.
pub proof fn closing_everything_empties_the_position(
    s: Store,
    positions: Map<PositionStorageKey, PositionProps>,
    p: DecreasePositionParams,
    q: PositionQuote,
)
    requires
        ({
            let held = positions[PositionStorageKey::Position(decrease_key(p))];
            held.size_in_usd <= p.size_delta_usd
        }),
    ensures
        close(s, positions, p, q) matches Ok(c) ==> {
            let held = positions[PositionStorageKey::Position(decrease_key(p))];
            &&& c.result.is_fully_closed
            &&& c.size == held.size_in_usd
            &&& held.size_in_usd > 0 ==> c.result.remaining_collateral == 0
        },
{
    if let Ok(c) = close(s, positions, p, q) {
        let held = positions[PositionStorageKey::Position(decrease_key(p))];
        if held.size_in_usd > 0 {
            math::exact_division(held.collateral_amount as int, held.size_in_usd as int);
        }
    }
}

/// Whatever is closed, no other position changes.
pub proof fn decrease_touches_no_other_position(
    s: Store,
    positions: Map<PositionStorageKey, PositionProps>,
    p: DecreasePositionParams,
    q: PositionQuote,
    other: PositionStorageKey,
)
    requires
        other != PositionStorageKey::Position(decrease_key(p)),
    ensures
        close(s, positions, p, q) matches Ok(c) ==> {
            &&& c.positions.dom().contains(other) == positions.dom().contains(other)
            &&& c.positions.dom().contains(other) ==> c.positions[other] == positions[other]
        },
{
}

/// What a close pays never exceeds the collateral that leaves the position plus
/// the realised profit.
pub proof fn output_is_bounded_by_collateral_and_profit(
    s: Store,
    before: PositionProps,
    p: DecreasePositionParams,
    q: PositionQuote,
    size: i128,
)
    ensures
        shrinkage(s, before, p, q, size) matches Ok(x) ==> {
            &&& 0 <= x.slice.output()
            &&& 0 <= x.slice.cost ==> x.slice.output() <= math::at_least_zero(
                x.slice.collateral + x.slice.pnl_tokens,
            )
        },
{
}

/// A decrease lowers the open interest of its side by exactly the size that
/// closed.
pub proof fn decrease_lowers_open_interest(
    s: Store,
    positions: Map<PositionStorageKey, PositionProps>,
    p: DecreasePositionParams,
    q: PositionQuote,
)
    requires
        p.collateral_token == p.market.long_token || p.collateral_token == p.market.short_token,
    ensures
        close(s, positions, p, q) matches Ok(c) ==> market_utils::open_interest(
            c.store,
            p.market,
            p.is_long,
        ) == market_utils::open_interest(s, p.market, p.is_long) - c.size,
{
}

/// A decrease books exactly its price impact in the market's impact pool: a
/// charge grows the pool, a rebate is paid out of it and never below zero.
pub proof fn decrease_books_its_impact(
    s: Store,
    positions: Map<PositionStorageKey, PositionProps>,
    p: DecreasePositionParams,
    q: PositionQuote,
)
    ensures
        close(s, positions, p, q) matches Ok(c) ==> {
            let key = impact_pools::position_impact_key(p.market);
            let price = p.index_token_price.mid();
            let before = s.u128_at(key);
            let after = c.store.u128_at(key);
            &&& price > 0 && q.impact_usd != 0 ==> after == impact_pools::pool_after(
                before as int,
                q.impact_usd as int,
                price,
            )
            &&& price > 0 && q.impact_usd < 0 ==> after > before
            &&& q.impact_usd >= 0 ==> after <= before
            &&& q.impact_usd == 0 || price <= 0 ==> after == before
        },
{
    let key = impact_pools::position_impact_key(p.market);
    let price = p.index_token_price.mid();
    if price > 0 {
        if q.impact_usd < 0 {
            impact_pools::charges_grow_the_pool(s, key, q.impact_usd as int, price);
        } else {
            impact_pools::rebates_are_capped_at_the_pool(s, key, q.impact_usd as int, price);
        }
    }
}

/// Nothing accrues and no price impact arises.
pub open spec fn is_quiet(q: PositionQuote) -> bool {
    &&& q.impact_usd == 0
    &&& q.accrual.borrowing == 0
    &&& q.accrual.funding.long_token_longs == 0
    &&& q.accrual.funding.long_token_shorts == 0
    &&& q.accrual.funding.short_token_longs == 0
    &&& q.accrual.funding.short_token_shorts == 0
}

/// Bringing a market up to date where nothing has accrued changes no amount.
proof fn lemma_quiet_accrual(
    s: Store,
    market: MarketProps,
    is_long: bool,
    now: u64,
    q: PositionQuote,
)
    requires
        is_quiet(q),
    ensures
        market_utils::accrued(s, market, is_long, now, q.accrual) matches Ok(t) && {
            &&& forall|key: Key|
                key != market_utils::cumulative_updated_key(market, is_long)
                    ==> #[trigger] t.u128_at(key) == s.u128_at(key)
            &&& forall|key: Key|
                key != market_utils::funding_factor_key(market) ==> #[trigger] t.i128_at(key)
                    == s.i128_at(key)
            &&& t.members == s.members
            &&& t.positions == s.positions
        },
{
}

/// What an undisturbed increase of a fresh position leaves: a position with all
/// the collateral, and a store with more open interest and collateral.
proof fn lemma_quiet_opening(
    s: Store,
    positions: Map<PositionStorageKey, PositionProps>,
    p: IncreasePositionParams,
    q: PositionQuote,
)
    requires
        is_quiet(q),
        q.execution_price > 0,
        s.u128_at(
            Key::PositionFeeFactor { market: p.market.market_token, for_positive_impact: true },
        ) == 0,
        !positions.dom().contains(
            PositionStorageKey::Position(increase_position_utils::increase_key(p)),
        ),
    ensures
        increase_position_utils::increase(s, positions, p, q) matches Ok(i) ==> {
            let tokens = math::trunc_div(
                p.size_delta_usd * TOKEN_PRECISION,
                q.execution_price as int,
            );
            let oi = market_utils::oi_key(p.market, p.collateral_token, p.is_long);
            let oi_tokens = market_utils::oi_tokens_key(p.market, p.collateral_token, p.is_long);
            let sum = increase_position_utils::collateral_sum_key(
                p.market,
                p.collateral_token,
                p.is_long,
            );
            let pool = market_utils::pool_key(p.market, p.collateral_token);
            &&& i.positions == positions.insert(
                PositionStorageKey::Position(increase_position_utils::increase_key(p)),
                i.position,
            )
            &&& i.position.account == p.account
            &&& i.position.is_long == p.is_long
            &&& i.position.collateral_token == p.collateral_token
            &&& i.position.size_in_usd == p.size_delta_usd
            &&& i.position.size_in_tokens == tokens
            &&& i.position.collateral_amount == p.collateral_amount
            &&& p.collateral_amount >= 0
            &&& i.store.u128_at(oi) == s.u128_at(oi) + p.size_delta_usd
            &&& i.store.u128_at(oi_tokens) == s.u128_at(oi_tokens) + tokens
            &&& i.store.u128_at(sum) == s.u128_at(sum) + p.collateral_amount
            &&& i.store.u128_at(pool) == s.u128_at(pool)
            &&& i.store.u128_at(
                Key::PositionFeeFactor {
                    market: p.market.market_token,
                    for_positive_impact: true,
                },
            ) == 0
            &&& i.position.borrowing_factor == position_utils::cumulative_factor(
                i.store,
                p.market,
                p.is_long,
            )
            &&& i.position == position_utils::trackers_reset(i.store, p.market, i.position)
            &&& math::fits(p.index_token_price.min + p.index_token_price.max)
        },
{
    let before = increase_position_utils::position_to_increase(positions, p);
    lemma_quiet_accrual(s, p.market, p.is_long, p.current_time, q);
    if let Ok(i) = increase_position_utils::increase(s, positions, p, q) {
        let s1 = market_utils::accrued(s, p.market, p.is_long, p.current_time, q.accrual)->Ok_0;
        let s2 = position_utils::funding_settled(s1, p.market, before)->Ok_0;
        let held = position_utils::trackers_reset(s2, p.market, before);
        lemma_no_fees(s2, p.market, held, p.collateral_price as int, p.size_delta_usd as int, true);
    }
}

/// A position whose snapshots are fresh owes nothing where the market asks for
/// no fee.
proof fn lemma_no_fees(
    s: Store,
    market: MarketProps,
    held: PositionProps,
    price: int,
    size: int,
    is_increase: bool,
)
    requires
        s.u128_at(
            Key::PositionFeeFactor { market: market.market_token, for_positive_impact: true },
        ) == 0,
        held == position_utils::trackers_reset(s, market, held),
        held.borrowing_factor == position_utils::cumulative_factor(s, market, held.is_long)
            || held.size_in_tokens == 0 && is_increase,
    ensures
        ({
            let f = position_utils::fees(s, market, held, price, size, true, is_increase);
            &&& f.borrowing == 0
            &&& f.funding == 0
            &&& f.position == 0
            &&& position_utils::position_fee_usd(s, market, size, true) == 0
        }),
{
    let grown = math::at_least_zero(
        position_utils::cumulative_factor(s, market, held.is_long) - held.borrowing_factor,
    );
    let tokens = position_utils::charged_tokens(held, size, is_increase);
    assert(grown * tokens == 0 && size * 0 == 0) by (nonlinear_arith)
        requires
            grown == 0 || tokens == 0,
    ;
    math::zero_divided(FLOAT_PRECISION as int);
    if price > 0 {
        math::zero_divided(price);
    }
}

/// Closing a whole position that is worth its size and owes nothing pays its
/// collateral, and takes it out of open interest and collateral sum.
proof fn lemma_quiet_shrinkage(
    s: Store,
    held: PositionProps,
    d: DecreasePositionParams,
    r: PositionQuote,
    price: int,
)
    requires
        is_quiet(r),
        held.size_in_usd > 0,
        held.size_in_tokens >= 0,
        held.collateral_amount >= 0,
        price > 0,
        held.size_in_tokens * price == held.size_in_usd * TOKEN_PRECISION,
        d.index_token_price.min == price,
        d.index_token_price.max == price,
        s.u128_at(
            Key::PositionFeeFactor { market: d.market.market_token, for_positive_impact: true },
        ) == 0,
        held == position_utils::trackers_reset(s, d.market, held),
        held.borrowing_factor == position_utils::cumulative_factor(s, d.market, held.is_long),
        s.u128_at(market_utils::oi_key(d.market, d.collateral_token, d.is_long))
            >= held.size_in_usd,
        s.u128_at(market_utils::oi_tokens_key(d.market, d.collateral_token, d.is_long))
            >= held.size_in_tokens,
    ensures
        shrinkage(s, held, d, r, held.size_in_usd) matches Ok(x) && {
            let oi = market_utils::oi_key(d.market, d.collateral_token, d.is_long);
            let oi_tokens = market_utils::oi_tokens_key(d.market, d.collateral_token, d.is_long);
            let sum = increase_position_utils::collateral_sum_key(
                d.market,
                d.collateral_token,
                d.is_long,
            );
            let pool = market_utils::pool_key(d.market, d.collateral_token);
            &&& x.position.size_in_usd == 0
            &&& x.position.collateral_amount == 0
            &&& x.pnl_usd == 0
            &&& x.slice.output() == held.collateral_amount
            &&& x.store.u128_at(oi) == s.u128_at(oi) - held.size_in_usd
            &&& x.store.u128_at(oi_tokens) == s.u128_at(oi_tokens) - held.size_in_tokens
            &&& x.store.u128_at(sum) == math::at_least_zero(
                s.u128_at(sum) - held.collateral_amount,
            )
            &&& x.store.u128_at(pool) == s.u128_at(pool)
        },
{
    let size = held.size_in_usd as int;
    let tokens = held.size_in_tokens as int;
    let collateral = held.collateral_amount as int;
    // There is no profit and no loss.
    math::exact_division(size, TOKEN_PRECISION as int);
    assert(market_utils::token_usd(tokens, price) == size);
    assert(position_utils::total_pnl(held, price) == 0);
    assert(0 * size == 0 && 0 * (TOKEN_PRECISION as int) == 0) by (nonlinear_arith);
    math::zero_divided(size);
    assert(position_utils::slice_pnl(held, price, size) == 0);
    assert(position_utils::position_pnl(held, d.index_token_price, size) == Ok::<
        (i128, i128),
        Failure,
    >((0i128, 0i128)));
    // Nothing is charged.
    assert(size * tokens == tokens * size) by (nonlinear_arith);
    math::exact_division(tokens, size);
    assert(position_utils::slice_tokens(held, size) == tokens);
    lemma_no_fees(s, d.market, held, d.collateral_price as int, size, false);
    let fees = position_utils::position_fees(
        s,
        d.market,
        held,
        d.collateral_price as int,
        size,
        true,
        false,
    );
    assert(fees is Ok && fees->Ok_0.total_cost_amount == 0);
    // All of the collateral leaves.
    math::exact_division(collateral, size);
    if d.collateral_price > 0 {
        math::zero_divided(d.collateral_price as int);
    }
    let x = slice_of(held, d, size, 0, 0);
    assert(x.tokens == tokens && x.collateral == collateral && x.pnl_tokens == 0);
    assert(slice_fits(held, x));
    assert(decrease_booked(s, d, x) is Ok);
}

/// Opening a position and closing it at the same price, without fees, funding or
/// price impact, gives the collateral back: there is no profit or loss, nothing
/// stays of the position, and open interest, collateral sum and pool are what
/// they were.  The price must buy the size in whole units of the index token;
/// what the collateral is worth, and when the position is closed, is open.
pub proof fn closing_undoes_opening(
    s: Store,
    positions: Map<PositionStorageKey, PositionProps>,
    p: IncreasePositionParams,
    q: PositionQuote,
    d: DecreasePositionParams,
    r: PositionQuote,
)
    requires
        !positions.dom().contains(
            PositionStorageKey::Position(increase_position_utils::increase_key(p)),
        ),
        p.size_delta_usd > 0,
        p.index_token_price.min == p.index_token_price.max,
        q.execution_price == p.index_token_price.max,
        q.execution_price > 0,
        (p.size_delta_usd * TOKEN_PRECISION) % q.execution_price as int == 0,
        is_quiet(q),
        is_quiet(r),
        s.u128_at(
            Key::PositionFeeFactor { market: p.market.market_token, for_positive_impact: true },
        ) == 0,
        decrease_key(d) == increase_position_utils::increase_key(p),
        d.market == p.market,
        d.size_delta_usd >= p.size_delta_usd,
        d.index_token_price == p.index_token_price,
        decrease_price_check(d, r.execution_price as int) is Ok,
    ensures
        increase_position_utils::increase(s, positions, p, q) matches Ok(i) ==> {
            let oi = market_utils::oi_key(p.market, p.collateral_token, p.is_long);
            let oi_tokens = market_utils::oi_tokens_key(p.market, p.collateral_token, p.is_long);
            let sum = increase_position_utils::collateral_sum_key(
                p.market,
                p.collateral_token,
                p.is_long,
            );
            let pool = market_utils::pool_key(p.market, p.collateral_token);
            close(i.store, i.positions, d, r) matches Ok(c) && {
                &&& c.result.output_amount == p.collateral_amount
                &&& c.result.pnl_usd == 0
                &&& c.result.is_fully_closed
                &&& c.result.remaining_collateral == 0
                &&& c.size == p.size_delta_usd
                &&& c.positions == positions
                &&& c.store.u128_at(oi) == s.u128_at(oi)
                &&& c.store.u128_at(oi_tokens) == s.u128_at(oi_tokens)
                &&& c.store.u128_at(sum) == s.u128_at(sum)
                &&& c.store.u128_at(pool) == s.u128_at(pool)
            }
        },
{
    lemma_quiet_opening(s, positions, p, q);
    if let Ok(i) = increase_position_utils::increase(s, positions, p, q) {
        let stored = PositionStorageKey::Position(decrease_key(d));
        let held = i.position;
        let size = p.size_delta_usd;
        let price = q.execution_price as int;
        let tokens = held.size_in_tokens as int;
        lemma_quiet_accrual(i.store, d.market, d.is_long, d.current_time, r);
        let s1 = market_utils::accrued(
            i.store,
            d.market,
            d.is_long,
            d.current_time,
            r.accrual,
        )->Ok_0;
        assert(position_utils::funding_settled(s1, d.market, held) == Ok::<Store, Failure>(s1));
        assert(position_utils::trackers_reset(s1, d.market, held) == held);
        // The tokens are worth exactly the size.
        let usd = size * TOKEN_PRECISION;
        assert(usd > 0) by (nonlinear_arith)
            requires
                usd == size * TOKEN_PRECISION,
                size > 0,
                TOKEN_PRECISION > 0,
        ;
        math::trunc_div_is_floor(usd, price);
        vstd::arithmetic::div_mod::lemma_fundamental_div_mod(usd, price);
        assert(tokens * price == usd) by (nonlinear_arith)
            requires
                tokens == usd / price,
                usd == price * (usd / price) + usd % price,
                usd % price == 0,
        ;
        lemma_quiet_shrinkage(s1, held, d, r, price);
        assert(priced_shrinkage(s1, held, d, r, size) == shrinkage(s1, held, d, r, size));
        assert(i.positions[stored] == held);
        assert(closed_size(held, d.size_delta_usd) == size);
        assert(i.positions.remove(stored) =~= positions);
    }
}

} // verus!
