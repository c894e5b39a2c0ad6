//! When success is owed: what is enough for a change to go through.

use crate::data_store::{Key, Store};
use crate::decrease_position_utils;
use crate::decrease_position_utils::DecreasePositionParams;
use crate::failure::Failure;
use crate::impact_pools;
use crate::increase_position_utils;
use crate::increase_position_utils::{IncreasePositionParams, PositionQuote};
use crate::ledger::Ledger;
use crate::market_laws::{
    impact_pool_after, interest, interest_in_tokens, markets_are_three_tokens, middle,
    middle_price_is_the_middle,
};
use crate::market_utils;
use crate::market_utils::MarketAccrual;
use crate::math;
use crate::order_handler;
use crate::order_handler::{ExecutionQuote, OrderBook};
use crate::order_laws::{grows, is_due, trades, volume_is_counted_for_thirty_days, with_volume};
use crate::position_laws::{
    charge, gain, one_dollar, one_token, stored_under, towards_zero, up, worst_price,
};
use crate::position_utils;
use crate::role_store::{Grant, Role};
use crate::swap_utils;
use crate::swap_utils::SwapQuote;
use crate::types::{
    Address, MarketProps, OrderKey, OrderStorageKey, PositionKey, PositionProps,
    PositionStorageKey, PriceProps,
};
use vstd::prelude::*;

verus! {

/// The number is one that a signed word holds.
pub open spec fn in_range(x: int) -> bool {
    i128::MIN <= x <= i128::MAX
}

/// An impact can be booked where its tokens are in range and the pool can hold
/// what it comes to.
pub proof fn impact_in_range_is_booked(s: Store, key: Key, impact_usd: int, price: int)
    requires
        price > 0 && impact_usd < 0 ==> in_range(up((-impact_usd) * one_token(), price)),
        price > 0 && impact_usd > 0 ==> in_range(impact_usd * one_token() / price),
        impact_pool_after(s.u128_at(key) as int, impact_usd, price) <= u128::MAX,
    ensures
        impact_pools::impact_booked(s, key, impact_usd, price) is Ok,
{
    if price > 0 {
        if impact_usd < 0 {
            math::ceil_div_is_least_above((-impact_usd) * one_token(), price);
            math::ceil_div_is_ceiling((-impact_usd) * one_token(), price);
        } else {
            math::trunc_div_is_floor(impact_usd * one_token(), price);
        }
    }
}

/// A hop goes through where its market trades the token, both tokens have middle
/// prices, the quote is not negative, its pool holds the quoted output, the other
/// pool has room for the input, and the impact can be booked.
pub proof fn hops_go_through(
    s: Store,
    board: Map<Address, PriceProps>,
    m: MarketProps,
    token_in: Address,
    amount_in: i128,
    receiver: Address,
    q: SwapQuote,
)
    requires
        m.long_token != m.short_token,
        token_in == m.long_token || token_in == m.short_token,
        board.dom().contains(m.long_token) && in_range(
            board[m.long_token].min + board[m.long_token].max,
        ),
        board.dom().contains(m.short_token) && in_range(
            board[m.short_token].min + board[m.short_token].max,
        ),
        amount_in >= 0,
        q.amount_out >= 0,
        ({
            let token_out = if token_in == m.long_token {
                m.short_token
            } else {
                m.long_token
            };
            let k = m.market_token;
            &&& s.u128_at(Key::PoolAmount { market: k, token: token_out }) >= q.amount_out
            &&& s.u128_at(Key::PoolAmount { market: k, token: token_in }) + amount_in <= u128::MAX
            &&& impact_pools::impact_booked(
                s,
                Key::SwapImpactPoolAmount { market: k, token: token_out },
                q.impact_usd as int,
                middle(board[token_out]),
            ) is Ok
        }),
    ensures
        swap_utils::hop(s, board, m, token_in, amount_in, receiver, q) is Ok,
{
    middle_price_is_the_middle(board, m.long_token);
    middle_price_is_the_middle(board, m.short_token);
    assert(board[m.long_token].mid() == middle(board[m.long_token]));
    assert(board[m.short_token].mid() == middle(board[m.short_token]));
}

/// Bringing a market up to date goes through where every sum is in range.
pub proof fn accrual_in_range_goes_through(
    s: Store,
    m: MarketProps,
    is_long: bool,
    now: u64,
    a: MarketAccrual,
)
    requires
        m.long_token != m.short_token,
        ({
            let k = m.market_token;
            let f = |token: Address, side: bool|
                s.i128_at(Key::FundingAmountPerSize { market: k, token, is_long: side }) as int;
            &&& in_range(f(m.long_token, true) + a.funding.long_token_longs)
            &&& in_range(f(m.long_token, false) + a.funding.long_token_shorts)
            &&& in_range(f(m.short_token, true) + a.funding.short_token_longs)
            &&& in_range(f(m.short_token, false) + a.funding.short_token_shorts)
            &&& s.u128_at(Key::CumulativeBorrowingFactor { market: k, is_long }) + a.borrowing
                <= u128::MAX
        }),
    ensures
        market_utils::accrued(s, m, is_long, now, a) is Ok,
{
}

/// A settlement goes through where what the amounts per size have fallen by, and
/// what is due for it, are in range, and the account can claim so much.
pub proof fn settlement_in_range_goes_through(s: Store, market: MarketProps, p: PositionProps)
    requires
        market.long_token != market.short_token,
        p.size_in_usd >= 0,
        ({
            let k = market.market_token;
            let long = p.long_claim_fnd_per_size - s.i128_at(
                Key::FundingAmountPerSize {
                    market: k,
                    token: market.long_token,
                    is_long: p.is_long,
                },
            );
            let short = p.short_claim_fnd_per_size - s.i128_at(
                Key::FundingAmountPerSize {
                    market: k,
                    token: market.short_token,
                    is_long: p.is_long,
                },
            );
            &&& in_range(long) && in_range(short)
            &&& in_range(long * p.size_in_usd / one_dollar())
            &&& in_range(short * p.size_in_usd / one_dollar())
            &&& s.u128_at(
                Key::ClaimableFundingAmount {
                    market: k,
                    token: market.long_token,
                    account: p.account,
                },
            ) <= i128::MAX
            &&& s.u128_at(
                Key::ClaimableFundingAmount {
                    market: k,
                    token: market.short_token,
                    account: p.account,
                },
            ) <= i128::MAX
        }),
    ensures
        position_utils::funding_settled(s, market, p) is Ok,
{
    let k = market.market_token;
    let long = p.long_claim_fnd_per_size - s.i128_at(
        Key::FundingAmountPerSize { market: k, token: market.long_token, is_long: p.is_long },
    );
    let short = p.short_claim_fnd_per_size - s.i128_at(
        Key::FundingAmountPerSize { market: k, token: market.short_token, is_long: p.is_long },
    );
    assert(long > 0 ==> long * p.size_in_usd >= 0) by (nonlinear_arith)
        requires
            p.size_in_usd >= 0,
    ;
    assert(short > 0 ==> short * p.size_in_usd >= 0) by (nonlinear_arith)
        requires
            p.size_in_usd >= 0,
    ;
    if long > 0 {
        math::trunc_div_is_floor(long * p.size_in_usd, one_dollar());
    }
    if short > 0 {
        math::trunc_div_is_floor(short * p.size_in_usd, one_dollar());
    }
}

/// The profit of a position can be told where the worth of its tokens, its gain
/// and the part of the slice are in range.
pub proof fn profit_in_range_is_told(p: PositionProps, price: PriceProps, size: int)
    requires
        p.size_in_usd > 0,
        p.size_in_tokens > 0,
        price.min >= 0,
        price.max >= 0,
        ({
            let chosen = if p.is_long {
                price.max as int
            } else {
                price.min as int
            };
            &&& in_range(p.size_in_tokens * chosen / one_token())
            &&& in_range(gain(p, chosen))
            &&& in_range(towards_zero(gain(p, chosen) * size, p.size_in_usd as int))
        }),
    ensures
        position_utils::position_pnl(p, price, size) is Ok,
{
    let chosen = if p.is_long {
        price.max as int
    } else {
        price.min as int
    };
    assert(p.size_in_tokens * chosen >= 0) by (nonlinear_arith)
        requires
            p.size_in_tokens > 0,
            chosen >= 0,
    ;
    math::trunc_div_is_floor(p.size_in_tokens * chosen, one_token());
    math::trunc_div_is_odd(gain(p, chosen) * size, p.size_in_usd as int);
}

/// The fees of a position can be told where each step towards them is in range.
pub proof fn fees_in_range_are_told(
    s: Store,
    market: MarketProps,
    p: PositionProps,
    price: int,
    size: int,
    for_positive_impact: bool,
    is_increase: bool,
)
    requires
        price > 0,
        0 <= size <= p.size_in_usd || (is_increase && size >= 0),
        p.size_in_usd >= 0,
        p.size_in_tokens >= 0,
        ({
            let m = market.market_token;
            let factor = s.u128_at(Key::PositionFeeFactor { market: m, for_positive_impact });
            let accumulated = s.u128_at(
                Key::CumulativeBorrowingFactor { market: m, is_long: p.is_long },
            );
            let grown = accumulated - p.borrowing_factor;
            let risen = if grown < 0 {
                0
            } else {
                grown
            };
            let owed = s.i128_at(
                Key::FundingAmountPerSize {
                    market: m,
                    token: p.collateral_token,
                    is_long: p.is_long,
                },
            ) - p.funding_fee_amount_per_size;
            let funding = if owed < 0 {
                0
            } else {
                owed
            };
            &&& factor <= i128::MAX && accumulated <= i128::MAX
            &&& in_range(grown) && in_range(owed)
            &&& up(size * factor, one_dollar()) <= i128::MAX
            &&& up(funding * p.size_in_usd, one_dollar()) <= i128::MAX
            &&& charge(size, factor as int, price) + charge(
                funding,
                p.size_in_usd as int,
                price,
            ) + up(risen * p.size_in_tokens, one_dollar()) <= i128::MAX
        }),
    ensures
        position_utils::position_fees(
            s,
            market,
            p,
            price,
            size,
            for_positive_impact,
            is_increase,
        ) is Ok,
{
    let m = market.market_token;
    let factor = s.u128_at(Key::PositionFeeFactor { market: m, for_positive_impact }) as int;
    let accumulated = s.u128_at(
        Key::CumulativeBorrowingFactor { market: m, is_long: p.is_long },
    ) as int;
    let grown = accumulated - p.borrowing_factor;
    let risen = if grown < 0 {
        0
    } else {
        grown
    };
    let owed = s.i128_at(
        Key::FundingAmountPerSize { market: m, token: p.collateral_token, is_long: p.is_long },
    ) - p.funding_fee_amount_per_size;
    let funding = if owed < 0 {
        0
    } else {
        owed
    };
    let held = p.size_in_tokens as int;
    let full = p.size_in_usd as int;
    let tokens = position_utils::charged_tokens(p, size, is_increase);
    assert(size * factor >= 0 && funding * full >= 0 && risen * held >= 0 && size * held >= 0)
        by (nonlinear_arith)
        requires
            size >= 0,
            factor >= 0,
            funding >= 0,
            full >= 0,
            risen >= 0,
            held >= 0,
    ;
    math::ceil_div_is_least_above(size * factor, one_dollar());
    math::ceil_div_is_ceiling(size * factor, one_dollar());
    let a = up(size * factor, one_dollar());
    math::ceil_div_is_least_above(a * one_token(), price);
    math::ceil_div_is_ceiling(a * one_token(), price);
    math::ceil_div_is_least_above(funding * full, one_dollar());
    math::ceil_div_is_ceiling(funding * full, one_dollar());
    let b = up(funding * full, one_dollar());
    math::ceil_div_is_least_above(b * one_token(), price);
    math::ceil_div_is_ceiling(b * one_token(), price);
    math::ceil_div_is_least_above(risen * held, one_dollar());
    math::ceil_div_is_ceiling(risen * held, one_dollar());
    if !is_increase {
        if full > 0 {
            math::trunc_div_is_floor(size * held, full);
            assert(tokens <= held) by (nonlinear_arith)
                requires
                    tokens * full <= size * held,
                    size <= full,
                    held >= 0,
                    full > 0,
            ;
        }
    }
    assert(0 <= tokens <= held);
    assert(0 <= risen * tokens <= risen * held) by (nonlinear_arith)
        requires
            0 <= tokens <= held,
            0 <= risen,
    ;
    math::ceil_div_is_least_above(risen * tokens, one_dollar());
    math::ceil_div_is_ceiling(risen * tokens, one_dollar());
    vstd::arithmetic::div_mod::lemma_div_is_ordered(
        risen * tokens + one_dollar() - 1,
        risen * held + one_dollar() - 1,
        one_dollar(),
    );
}

/// The value of a pool can be told where each piece of it and every sum is in
/// range.
pub proof fn value_in_range_is_told(
    s: Store,
    m: MarketProps,
    long_price: int,
    short_price: int,
    index_price: int,
)
    requires
        m.long_token != m.short_token,
        long_price >= 0,
        short_price >= 0,
        index_price >= 0,
        ({
            let k = m.market_token;
            let a = s.u128_at(Key::PoolAmount { market: k, token: m.long_token });
            let b = s.u128_at(Key::PoolAmount { market: k, token: m.short_token });
            let c = s.u128_at(Key::PositionImpactPoolAmount { market: k });
            let bound = i128::MAX / 8;
            &&& a <= i128::MAX && b <= i128::MAX && c <= i128::MAX
            &&& a * long_price / one_token() <= bound
            &&& b * short_price / one_token() <= bound
            &&& c * index_price / one_token() <= bound
            &&& interest(s, m, true) <= bound && interest(s, m, false) <= bound
            &&& interest_in_tokens(s, m, true) <= i128::MAX
            &&& interest_in_tokens(s, m, false) <= i128::MAX
            &&& interest_in_tokens(s, m, true) * index_price / one_token() <= bound
            &&& interest_in_tokens(s, m, false) * index_price / one_token() <= bound
        }),
    ensures
        market_utils::pool_value_result(s, m, long_price, short_price, index_price) is Ok,
{
    let k = m.market_token;
    let a = s.u128_at(Key::PoolAmount { market: k, token: m.long_token }) as int;
    let b = s.u128_at(Key::PoolAmount { market: k, token: m.short_token }) as int;
    let c = s.u128_at(Key::PositionImpactPoolAmount { market: k }) as int;
    let x = interest_in_tokens(s, m, true);
    let y = interest_in_tokens(s, m, false);
    assert(a * long_price >= 0 && b * short_price >= 0 && c * index_price >= 0 && x * index_price
        >= 0 && y * index_price >= 0) by (nonlinear_arith)
        requires
            a >= 0,
            b >= 0,
            c >= 0,
            x >= 0,
            y >= 0,
            long_price >= 0,
            short_price >= 0,
            index_price >= 0,
    ;
    math::trunc_div_is_floor(a * long_price, one_token());
    math::trunc_div_is_floor(b * short_price, one_token());
    math::trunc_div_is_floor(c * index_price, one_token());
    math::trunc_div_is_floor(x * index_price, one_token());
    math::trunc_div_is_floor(y * index_price, one_token());
}

/// The liquidation test can be made where the fees and the profit can be told and
/// each sum is in range.
pub proof fn liquidation_test_in_range_is_made(
    s: Store,
    p: PositionProps,
    market: MarketProps,
    price: int,
    index_price: PriceProps,
)
    requires
        p.size_in_usd > 0,
        price > 0,
        p.collateral_amount >= 0,
        s.u128_at(Key::MinCollateralFactor { market: market.market_token }) <= i128::MAX,
        p.size_in_usd * s.u128_at(Key::MinCollateralFactor { market: market.market_token })
            / one_dollar() <= i128::MAX,
        p.collateral_amount * price / one_token() <= i128::MAX / 4,
        position_utils::position_fees(
            s,
            market,
            p,
            price,
            p.size_in_usd as int,
            false,
            false,
        ) matches Ok(f) && 0 <= f.total_cost_amount && f.total_cost_amount * price / one_token()
            <= i128::MAX / 4,
        position_utils::position_pnl(
            p,
            worst_price(p, index_price),
            p.size_in_usd as int,
        ) matches Ok((pnl, _)) && -i128::MAX / 4 <= pnl <= i128::MAX / 4,
    ensures
        position_utils::liquidation_test(s, p, market, price, index_price) is Ok,
{
    let factor = s.u128_at(Key::MinCollateralFactor { market: market.market_token }) as int;
    let fees = position_utils::position_fees(
        s,
        market,
        p,
        price,
        p.size_in_usd as int,
        false,
        false,
    )->Ok_0.total_cost_amount as int;
    assert(p.collateral_amount * price >= 0 && fees * price >= 0 && p.size_in_usd * factor >= 0)
        by (nonlinear_arith)
        requires
            p.collateral_amount >= 0,
            price > 0,
            fees >= 0,
            p.size_in_usd > 0,
            factor >= 0,
    ;
    math::trunc_div_is_floor(p.collateral_amount * price, one_token());
    math::trunc_div_is_floor(fees * price, one_token());
    math::trunc_div_is_floor(p.size_in_usd * factor, one_dollar());
}

/// A position passes where its collateral in dollars, the part of its size that
/// is asked for and the interest of its side are in range and it is within every
/// limit.
pub proof fn positions_within_the_limits_pass(
    s: Store,
    p: PositionProps,
    market: MarketProps,
    price: int,
)
    requires
        price > 0,
        p.collateral_amount >= 0,
        0 <= p.size_in_usd <= i128::MAX / 100,
        market.long_token != market.short_token,
        ({
            let m = market.market_token;
            let collateral_usd = p.collateral_amount * price / one_token();
            let part = s.u128_at(Key::MinCollateralFactor { market: m });
            let leverage = s.u128_at(Key::MaxLeverage { market: m });
            let cap = s.u128_at(Key::MaxOpenInterest { market: m, is_long: p.is_long });
            &&& part <= i128::MAX
            &&& collateral_usd <= i128::MAX
            &&& p.size_in_usd * part / one_dollar() <= collateral_usd
            &&& leverage == 0 || collateral_usd == 0 || p.size_in_usd * 100 / collateral_usd
                <= leverage
            &&& interest(s, market, p.is_long) <= u128::MAX
            &&& cap == 0 || interest(s, market, p.is_long) <= cap
        }),
    ensures
        position_utils::validation(s, p, market, price) == Ok::<(), Failure>(()),
{
    let part = s.u128_at(Key::MinCollateralFactor { market: market.market_token }) as int;
    assert(p.collateral_amount * price >= 0 && p.size_in_usd * part >= 0) by (nonlinear_arith)
        requires
            p.collateral_amount >= 0,
            price > 0,
            p.size_in_usd >= 0,
            part >= 0,
    ;
    math::trunc_div_is_floor(p.collateral_amount * price, one_token());
    math::trunc_div_is_floor(p.size_in_usd * part, one_dollar());
}

/// The price is one that the trader accepts.
pub open spec fn accepts_increase(p: IncreasePositionParams, price: int) -> bool {
    p.acceptable_price == 0 || if p.is_long {
        price <= p.acceptable_price
    } else {
        price >= p.acceptable_price
    }
}

/// The price is one that the trader accepts.
pub open spec fn accepts_decrease(p: DecreasePositionParams, price: int) -> bool {
    p.acceptable_price == 0 || if p.is_long {
        price >= p.acceptable_price
    } else {
        price <= p.acceptable_price
    }
}

/// A position without size grows from fresh snapshots where nothing is charged,
/// the market sets no limits, and every amount is in range.
proof fn lemma_first_growth(s: Store, held: PositionProps, p: IncreasePositionParams, q: PositionQuote)
    requires
        q.impact_usd == 0,
        p.market.long_token != p.market.short_token,
        p.collateral_token == p.market.long_token || p.collateral_token == p.market.short_token,
        held.size_in_usd == 0,
        held.size_in_tokens == 0,
        held.collateral_amount == 0,
        held.borrowing_factor == 0,
        held.is_long == p.is_long,
        held == position_utils::trackers_reset(s, p.market, held),
        q.execution_price > 0,
        0 <= p.size_delta_usd <= i128::MAX / 100,
        p.size_delta_usd * one_token() / q.execution_price as int <= i128::MAX,
        p.collateral_amount >= 0,
        p.collateral_price > 0,
        p.collateral_amount * p.collateral_price / one_token() <= i128::MAX,
        ({
            let m = p.market.market_token;
            let token = p.collateral_token;
            let is_long = p.is_long;
            let bound = u128::MAX / 4;
            &&& s.u128_at(Key::PositionFeeFactor { market: m, for_positive_impact: true }) == 0
            &&& s.u128_at(Key::MinCollateralFactor { market: m }) == 0
            &&& s.u128_at(Key::MaxLeverage { market: m }) == 0
            &&& s.u128_at(Key::MaxOpenInterest { market: m, is_long }) == 0
            &&& s.u128_at(Key::CumulativeBorrowingFactor { market: m, is_long }) <= i128::MAX
            &&& s.u128_at(Key::OpenInterest { market: m, token: p.market.long_token, is_long })
                <= bound
            &&& s.u128_at(Key::OpenInterest { market: m, token: p.market.short_token, is_long })
                <= bound
            &&& s.u128_at(Key::OpenInterestInTokens { market: m, token, is_long }) <= bound
            &&& s.u128_at(Key::CollateralSum { market: m, token, is_long }) <= bound
        }),
    ensures
        increase_position_utils::growth(s, held, p, q) is Ok,
{
    let m = p.market.market_token;
    let acc = s.u128_at(Key::CumulativeBorrowingFactor { market: m, is_long: p.is_long }) as int;
    assert(acc * 0 == 0 && p.size_delta_usd * 0 == 0) by (nonlinear_arith);
    math::zero_divided(one_dollar());
    math::zero_divided(p.collateral_price as int);
    assert(position_utils::position_fees(
        s,
        p.market,
        held,
        p.collateral_price as int,
        p.size_delta_usd as int,
        true,
        true,
    ) matches Ok(f) && f.total_cost_amount == 0);
    math::trunc_div_is_floor(p.size_delta_usd * one_token(), q.execution_price as int);
    let tokens = increase_position_utils::bought_tokens(
        p.size_delta_usd as int,
        q.execution_price as int,
    );
    let booked = increase_position_utils::increase_booked(s, p, tokens, 0);
    assert(booked is Ok);
    let after = increase_position_utils::grown_position(s, held, p, tokens, 0);
    let usd = p.collateral_amount * p.collateral_price;
    assert(usd >= 0) by (nonlinear_arith)
        requires
            usd == p.collateral_amount * p.collateral_price,
            p.collateral_amount >= 0,
            p.collateral_price > 0,
    ;
    math::trunc_div_is_floor(usd, one_token());
    positions_within_the_limits_pass(booked->Ok_0, after, p.market, p.collateral_price as int);
}

/// A position can be opened at a price that the trader accepts where nothing
/// accrues or is charged, the market sets no limits, and every amount is in range.
pub proof fn openings_go_through(
    s: Store,
    positions: Map<PositionStorageKey, PositionProps>,
    p: IncreasePositionParams,
    q: PositionQuote,
)
    requires
        decrease_position_utils::is_quiet(q),
        p.market.long_token != p.market.short_token,
        p.collateral_token == p.market.long_token || p.collateral_token == p.market.short_token,
        !positions.dom().contains(
            stored_under(p.account, p.market.market_token, p.collateral_token, p.is_long),
        ),
        accepts_increase(p, q.execution_price as int),
        q.execution_price > 0,
        0 <= p.size_delta_usd <= i128::MAX / 100,
        p.size_delta_usd * one_token() / q.execution_price as int <= i128::MAX,
        p.collateral_amount >= 0,
        p.collateral_price > 0,
        p.collateral_amount * p.collateral_price / one_token() <= i128::MAX,
        in_range(p.index_token_price.min + p.index_token_price.max),
        ({
            let m = p.market.market_token;
            let token = p.collateral_token;
            let is_long = p.is_long;
            let bound = u128::MAX / 4;
            &&& s.u128_at(Key::PositionFeeFactor { market: m, for_positive_impact: true }) == 0
            &&& s.u128_at(Key::MinCollateralFactor { market: m }) == 0
            &&& s.u128_at(Key::MaxLeverage { market: m }) == 0
            &&& s.u128_at(Key::MaxOpenInterest { market: m, is_long }) == 0
            &&& s.u128_at(Key::CumulativeBorrowingFactor { market: m, is_long }) <= i128::MAX
            &&& s.u128_at(Key::OpenInterest { market: m, token: p.market.long_token, is_long })
                <= bound
            &&& s.u128_at(Key::OpenInterest { market: m, token: p.market.short_token, is_long })
                <= bound
            &&& s.u128_at(Key::OpenInterestInTokens { market: m, token, is_long }) <= bound
            &&& s.u128_at(Key::CollateralSum { market: m, token, is_long }) <= bound
            &&& s.i128_at(
                Key::FundingAmountPerSize { market: m, token: p.market.long_token, is_long },
            ) > i128::MIN
            &&& s.i128_at(
                Key::FundingAmountPerSize { market: m, token: p.market.short_token, is_long },
            ) > i128::MIN
        }),
    ensures
        increase_position_utils::increase(s, positions, p, q) is Ok,
{
    let m = p.market.market_token;
    let before = increase_position_utils::position_to_increase(positions, p);
    accrual_in_range_goes_through(s, p.market, p.is_long, p.current_time, q.accrual);
    let s1 = market_utils::accrued(s, p.market, p.is_long, p.current_time, q.accrual)->Ok_0;
    assert(before.size_in_usd == 0 && before.size_in_tokens == 0);
    math::zero_divided(one_dollar());
    let long = 0 - s1.i128_at(
        Key::FundingAmountPerSize { market: m, token: p.market.long_token, is_long: p.is_long },
    );
    let short = 0 - s1.i128_at(
        Key::FundingAmountPerSize { market: m, token: p.market.short_token, is_long: p.is_long },
    );
    assert(long * 0 == 0 && short * 0 == 0) by (nonlinear_arith);
    assert(position_utils::funding_settled(s1, p.market, before) == Ok::<Store, Failure>(s1));
    let held = position_utils::trackers_reset(s1, p.market, before);
    lemma_first_growth(s1, held, p, q);
    assert(increase_position_utils::priced_growth(s1, held, p, q)
        == increase_position_utils::growth(s1, held, p, q));
}

/// A position can be closed in full at a price that the trader accepts, with
/// profit or loss, where nothing accrues or is charged, its snapshots are fresh,
/// the pool holds the profit, the interest holds the position, and every amount is
/// in range.
pub proof fn closings_go_through(
    s: Store,
    positions: Map<PositionStorageKey, PositionProps>,
    p: DecreasePositionParams,
    q: PositionQuote,
)
    requires
        decrease_position_utils::is_quiet(q),
        positions.dom().contains(
            stored_under(p.account, p.market.market_token, p.collateral_token, p.is_long),
        ),
        accepts_decrease(p, q.execution_price as int),
        p.collateral_price > 0,
        p.index_token_price.min >= 0,
        p.index_token_price.max >= 0,
        in_range(p.index_token_price.min + p.index_token_price.max),
        ({
            let m = p.market.market_token;
            let token = p.collateral_token;
            let is_long = p.is_long;
            let held = positions[stored_under(p.account, m, token, is_long)];
            let price = if is_long {
                p.index_token_price.max as int
            } else {
                p.index_token_price.min as int
            };
            let profit = towards_zero(
                gain(held, price) * one_token(),
                p.collateral_price as int,
            );
            let bound = i128::MAX / 4;
            &&& 0 < held.size_in_usd <= p.size_delta_usd
            &&& held.size_in_tokens > 0
            &&& 0 <= held.collateral_amount <= bound
            &&& held.is_long == is_long && held.collateral_token == token
            &&& in_range(held.size_in_tokens * price / one_token())
            &&& in_range(gain(held, price))
            &&& -bound <= profit <= bound
            &&& profit <= s.u128_at(Key::PoolAmount { market: m, token }) <= bound
            &&& s.u128_at(Key::OpenInterest { market: m, token, is_long }) >= held.size_in_usd
            &&& s.u128_at(Key::OpenInterestInTokens { market: m, token, is_long })
                >= held.size_in_tokens
            &&& s.u128_at(Key::PositionFeeFactor { market: m, for_positive_impact: true }) == 0
            &&& held.borrowing_factor == math::signed(
                s.u128_at(Key::CumulativeBorrowingFactor { market: m, is_long }),
            )
            &&& held.long_claim_fnd_per_size == s.i128_at(
                Key::FundingAmountPerSize { market: m, token: p.market.long_token, is_long },
            )
            &&& held.short_claim_fnd_per_size == s.i128_at(
                Key::FundingAmountPerSize { market: m, token: p.market.short_token, is_long },
            )
        }),
    ensures
        decrease_position_utils::close(s, positions, p, q) is Ok,
{
    let m = p.market.market_token;
    let stored = stored_under(p.account, m, p.collateral_token, p.is_long);
    let before = positions[stored];
    let size = before.size_in_usd as int;
    let tokens = before.size_in_tokens as int;
    let price = if p.is_long {
        p.index_token_price.max as int
    } else {
        p.index_token_price.min as int
    };
    let s1 = market_utils::accrued(s, p.market, p.is_long, p.current_time, q.accrual);
    assert(s1 is Ok);
    let t = s1->Ok_0;
    assert(position_utils::funding_settled(t, p.market, before) == Ok::<Store, Failure>(t));
    let held = position_utils::trackers_reset(t, p.market, before);
    let total = gain(before, price);
    math::exact_division(total, size);
    assert(towards_zero(total * size, size) == total) by {
        math::trunc_div_is_odd(total * size, size);
    }
    profit_in_range_is_told(held, p.index_token_price, size);
    crate::position_laws::profit_is_worth_less_cost(held, p.index_token_price, size);
    assert(position_utils::position_pnl(held, p.index_token_price, size) matches Ok((x, _)) && x
        == total);
    math::exact_division(tokens, size);
    assert(size * tokens == tokens * size) by (nonlinear_arith);
    assert(0 * tokens == 0 && size * 0 == 0) by (nonlinear_arith);
    math::zero_divided(one_dollar());
    math::zero_divided(p.collateral_price as int);
    assert(position_utils::position_fees(
        t,
        p.market,
        held,
        p.collateral_price as int,
        size,
        true,
        false,
    ) matches Ok(f) && f.total_cost_amount == 0);
    math::exact_division(before.collateral_amount as int, size);
    math::trunc_div_is_odd(total * one_token(), p.collateral_price as int);
    let x = decrease_position_utils::slice_of(held, p, size, total, 0);
    assert(decrease_position_utils::slice_fits(held, x));
    assert(decrease_position_utils::decrease_booked(t, p, x) is Ok);
    assert(decrease_position_utils::shrinkage(t, held, p, q, before.size_in_usd) is Ok);
    assert(decrease_position_utils::closed_size(before, p.size_delta_usd) == size);
}

/// An order that is due, of a handler that is set up, by a keeper who signed, is
/// executed where what it asks for goes through: a swap that yields the least
/// output, a close, or an increase whose average price is in range.
pub proof fn due_orders_are_executed(
    b: OrderBook,
    s: Store,
    roles: Set<Grant>,
    board: Map<Address, PriceProps>,
    ledger: Ledger,
    keeper: Address,
    key: OrderKey,
    q: ExecutionQuote,
)
    requires
        ledger.signers@.contains(keeper),
        roles.contains(Grant { account: keeper, role: Role::OrderKeeper }),
        b.config is Some,
        b.orders.dom().contains(OrderStorageKey::Order(key)),
        !b.frozen.dom().contains(OrderStorageKey::OrderFrozen(key)),
        ({
            let order = b.orders[OrderStorageKey::Order(key)];
            let token = order.initial_collateral_token;
            let m = market_utils::market_at(s, order.market);
            &&& s.u128_at(
                Key::TraderVolumeWindowStart { account: order.account, market: order.market },
            ) <= u32::MAX
            &&& m is Some && board.dom().contains(m->0.index_token)
            &&& board.dom().contains(token) && in_range(board[token].min + board[token].max)
            &&& is_due(order, board[m->0.index_token])
        }),
    ensures
        ({
            let order = b.orders[OrderStorageKey::Order(key)];
            let token = order.initial_collateral_token;
            let m = market_utils::market_at(s, order.market)->0;
            let size = order.size_delta_usd as int;
            let t = with_volume(s, order.account, order.market, ledger.sequence, size);
            let done = order_handler::execution(b, s, roles, board, ledger, keeper, key, q);
            let swapped = swap_utils::path_swap(
                t,
                board,
                order.swap_path@,
                q.swaps@,
                order.receiver,
                token,
                order.collateral_delta_amount,
            );
            let closed = decrease_position_utils::close(
                t,
                b.positions,
                DecreasePositionParams {
                    account: order.account,
                    receiver: order.receiver,
                    market: m,
                    collateral_token: token,
                    size_delta_usd: order.size_delta_usd,
                    acceptable_price: order.acceptable_price,
                    is_long: order.is_long,
                    index_token_price: board[m.index_token],
                    collateral_price: middle(board[token]) as i128,
                    current_time: ledger.timestamp,
                },
                q.position,
            );
            &&& trades(order.order_type) && order.swap_path@.len() > 0 && swapped is Ok
                && swapped->Ok_0.amount_out >= order.min_output_amount ==> done is Ok
            &&& !trades(order.order_type) && !grows(order.order_type) && closed is Ok ==> done
                is Ok
        }),
{
    let order = b.orders[OrderStorageKey::Order(key)];
    let token = order.initial_collateral_token;
    volume_is_counted_for_thirty_days(
        s,
        order.account,
        order.market,
        ledger.sequence,
        order.size_delta_usd as int,
    );
    middle_price_is_the_middle(board, token);
    markets_are_three_tokens(s, order.market);
    assert(board[token].mid() == middle(board[token]));
}

/// An order to grow that is due is executed where the increase it asks for goes
/// through for a fresh position whose average price is in range.
pub proof fn due_openings_are_executed(
    b: OrderBook,
    s: Store,
    roles: Set<Grant>,
    board: Map<Address, PriceProps>,
    ledger: Ledger,
    keeper: Address,
    key: OrderKey,
    q: ExecutionQuote,
)
    requires
        ledger.signers@.contains(keeper),
        roles.contains(Grant { account: keeper, role: Role::OrderKeeper }),
        b.config is Some,
        b.orders.dom().contains(OrderStorageKey::Order(key)),
        !b.frozen.dom().contains(OrderStorageKey::OrderFrozen(key)),
        ({
            let order = b.orders[OrderStorageKey::Order(key)];
            let token = order.initial_collateral_token;
            let m = market_utils::market_at(s, order.market);
            let size = order.size_delta_usd as int;
            let t = with_volume(s, order.account, order.market, ledger.sequence, size);
            let grown = increase_position_utils::increase(
                t,
                b.positions,
                IncreasePositionParams {
                    account: order.account,
                    receiver: order.receiver,
                    market: m->0,
                    collateral_token: token,
                    size_delta_usd: order.size_delta_usd,
                    collateral_amount: order.collateral_delta_amount,
                    acceptable_price: order.acceptable_price,
                    is_long: order.is_long,
                    index_token_price: board[m->0.index_token],
                    collateral_price: middle(board[token]) as i128,
                    current_time: ledger.timestamp,
                },
                q.position,
            );
            let after = grown->Ok_0.position;
            &&& grows(order.order_type)
            &&& s.u128_at(
                Key::TraderVolumeWindowStart { account: order.account, market: order.market },
            ) <= u32::MAX
            &&& order_handler::tier_fee(s, order.account, order.market, ledger.sequence, size) == 0
            &&& m is Some && board.dom().contains(m->0.index_token)
            &&& board.dom().contains(token) && in_range(board[token].min + board[token].max)
            &&& is_due(order, board[m->0.index_token])
            &&& !b.positions.dom().contains(
                stored_under(order.account, order.market, token, order.is_long),
            )
            &&& grown is Ok
            &&& after.size_in_usd >= 0
            &&& after.size_in_tokens > 0 ==> after.size_in_usd * one_token()
                / after.size_in_tokens as int <= i128::MAX
        }),
    ensures
        order_handler::execution(b, s, roles, board, ledger, keeper, key, q) is Ok,
{
    let order = b.orders[OrderStorageKey::Order(key)];
    let token = order.initial_collateral_token;
    let size = order.size_delta_usd as int;
    volume_is_counted_for_thirty_days(s, order.account, order.market, ledger.sequence, size);
    middle_price_is_the_middle(board, token);
    markets_are_three_tokens(s, order.market);
    assert(board[token].mid() == middle(board[token]));
    let m = market_utils::market_at(s, order.market)->0;
    let t = with_volume(s, order.account, order.market, ledger.sequence, size);
    let p = order_handler::increase_params(
        order,
        m,
        board[m.index_token],
        middle(board[token]) as i128,
        ledger.timestamp,
    );
    let i = increase_position_utils::increase(t, b.positions, p, q.position)->Ok_0;
    if i.position.size_in_tokens > 0 {
        math::trunc_div_is_floor(
            i.position.size_in_usd * one_token(),
            i.position.size_in_tokens as int,
        );
    }
    assert(position_utils::validation(
        i.store,
        i.position,
        m,
        middle(board[token]),
    ) is Ok);
}

/// A position that fails the liquidation test is liquidated by a liquidation
/// keeper who signed, where its close goes through and what it comes to can be
/// split.
pub proof fn failing_positions_are_liquidated(
    b: OrderBook,
    s: Store,
    roles: Set<Grant>,
    board: Map<Address, PriceProps>,
    ledger: Ledger,
    keeper: Address,
    position: PositionKey,
    fund: Option<Address>,
    q: PositionQuote,
    config: Option<crate::liquidation_handler::Config>,
)
    requires
        ledger.signers@.contains(keeper),
        roles.contains(Grant { account: keeper, role: Role::LiquidationKeeper }),
        b.config is Some,
        b.positions.dom().contains(PositionStorageKey::Position(position)),
        ({
            let held = b.positions[PositionStorageKey::Position(position)];
            let token = position.collateral_token;
            let m = market_utils::market_at(s, position.market);
            let price = middle(board[token]) as i128;
            let closed = decrease_position_utils::close(
                s,
                b.positions,
                DecreasePositionParams {
                    account: position.account,
                    receiver: position.account,
                    market: m->0,
                    collateral_token: token,
                    size_delta_usd: held.size_in_usd,
                    acceptable_price: 0,
                    is_long: position.is_long,
                    index_token_price: board[m->0.index_token],
                    collateral_price: price,
                    current_time: ledger.timestamp,
                },
                q,
            );
            &&& m is Some && board.dom().contains(m->0.index_token)
            &&& board.dom().contains(token) && in_range(board[token].min + board[token].max)
            &&& position_utils::liquidation_test(
                s,
                held,
                m->0,
                price as int,
                board[m->0.index_token],
            ) == Ok::<bool, Failure>(true)
            &&& closed is Ok
            &&& order_handler::collateral_split(
                closed->Ok_0.store,
                position.market,
                closed->Ok_0.result.output_amount as int,
                price as int,
                fund is Some,
            ) is Ok
        }),
    ensures
        order_handler::liquidation(b, s, roles, board, ledger, keeper, position, fund, q) is Ok,
        config is Some ==> crate::liquidation_handler::handled_liquidation(
            config,
            b,
            s,
            roles,
            board,
            ledger,
            keeper,
            position,
            fund,
            q,
        ) is Ok,
{
    let token = position.collateral_token;
    middle_price_is_the_middle(board, token);
    markets_are_three_tokens(s, position.market);
    assert(board[token].mid() == middle(board[token]));
}

/// What is left of a liquidated position can always be split without a fund, and
/// with one where the factors are at most one and the amounts in range.
pub proof fn collateral_can_be_split(
    s: Store,
    market: Address,
    gross: int,
    price: int,
    has_fund: bool,
)
    requires
        0 <= gross <= i128::MAX,
        has_fund ==> {
            let most = s.u128_at(Key::MaxLiquidationFee { market });
            &&& s.u128_at(Key::LiquidationFeeFactor { market }) <= one_dollar()
            &&& s.u128_at(Key::LiquidationKeeperFeeFactor { market }) <= one_dollar()
            &&& most <= i128::MAX
            &&& most > 0 && price > 0 ==> most * one_token() / price <= i128::MAX
        },
    ensures
        order_handler::collateral_split(s, market, gross, price, has_fund) is Ok,
{
    if has_fund {
        let rate = s.u128_at(Key::LiquidationFeeFactor { market }) as int;
        let most = s.u128_at(Key::MaxLiquidationFee { market }) as int;
        let keep = s.u128_at(Key::LiquidationKeeperFeeFactor { market }) as int;
        assert(0 <= gross * rate <= gross * one_dollar()) by (nonlinear_arith)
            requires
                gross >= 0,
                0 <= rate <= one_dollar(),
        ;
        math::trunc_div_is_floor(gross * rate, one_dollar());
        math::exact_division(gross, one_dollar());
        math::trunc_div_is_monotone(gross * rate, gross * one_dollar(), one_dollar());
        if most > 0 && price > 0 {
            math::trunc_div_is_floor(most * one_token(), price);
        }
        let fee = order_handler::liquidation_fee(s, market, gross, price);
        assert(0 <= fee <= gross);
        assert(0 <= fee * keep <= fee * one_dollar()) by (nonlinear_arith)
            requires
                fee >= 0,
                0 <= keep <= one_dollar(),
        ;
        math::trunc_div_is_floor(fee * keep, one_dollar());
        math::exact_division(fee, one_dollar());
        math::trunc_div_is_monotone(fee * keep, fee * one_dollar(), one_dollar());
    }
}

/// A slice in profit is closed by an auto-deleveraging keeper who signed while
/// that is required, where the close goes through.
pub proof fn required_deleveraging_goes_through(
    config: Option<crate::adl_handler::Config>,
    b: OrderBook,
    s: Store,
    roles: Set<Grant>,
    board: Map<Address, PriceProps>,
    ledger: Ledger,
    keeper: Address,
    position: PositionKey,
    size_delta_usd: i128,
    q: PositionQuote,
)
    requires
        ledger.signers@.contains(keeper),
        roles.contains(Grant { account: keeper, role: Role::AdlKeeper }),
        b.config is Some,
        config is Some,
        size_delta_usd > 0,
        b.positions.dom().contains(PositionStorageKey::Position(position)),
        crate::adl_handler::adl_required(
            config,
            s,
            board,
            position.market,
            position.is_long,
        ) == Ok::<bool, Failure>(true),
        ({
            let held = b.positions[PositionStorageKey::Position(position)];
            let token = position.collateral_token;
            let m = market_utils::market_at(s, position.market);
            &&& m is Some
            &&& board.dom().contains(token) && in_range(board[token].min + board[token].max)
            &&& position_utils::position_pnl(
                held,
                board[m->0.index_token],
                size_delta_usd as int,
            ) matches Ok((pnl, _)) && pnl > 0
            &&& decrease_position_utils::close(
                s,
                b.positions,
                DecreasePositionParams {
                    account: position.account,
                    receiver: position.account,
                    market: m->0,
                    collateral_token: token,
                    size_delta_usd,
                    acceptable_price: 0,
                    is_long: position.is_long,
                    index_token_price: board[m->0.index_token],
                    collateral_price: middle(board[token]) as i128,
                    current_time: ledger.timestamp,
                },
                q,
            ) is Ok
        }),
    ensures
        order_handler::deleveraging(
            b,
            s,
            roles,
            board,
            ledger,
            keeper,
            position,
            size_delta_usd,
            q,
        ) is Ok,
        crate::adl_handler::handled_adl(
            config,
            b,
            s,
            roles,
            board,
            ledger,
            keeper,
            position,
            size_delta_usd,
            q,
        ) is Ok,
{
    let token = position.collateral_token;
    middle_price_is_the_middle(board, token);
    markets_are_three_tokens(s, position.market);
    assert(board[token].mid() == middle(board[token]));
}

} // verus!
