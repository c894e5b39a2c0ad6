//! What opening, closing, settling and liquidating positions comes to, in plain
//! arithmetic over what goes in and what comes out.

use crate::actions::{Action, Event};
use crate::data_store::{Key, Member, Store};
use crate::decrease_position_utils;
use crate::decrease_position_utils::DecreasePositionParams;
use crate::failure::Failure;
use crate::impact_pools;
use crate::increase_position_utils;
use crate::increase_position_utils::{IncreasePositionParams, PositionQuote};
use crate::market_utils;
use crate::math;
use crate::position_utils;
use crate::types::{
    Address, MarketProps, PositionKey, PositionProps, PositionStorageKey, PriceProps,
};
use vstd::prelude::*;

verus! {

/// A whole token in its smallest units.
pub open spec fn one_token() -> int {
    10_000_000
}

/// A dollar in its smallest units; a factor of one as well.
pub open spec fn one_dollar() -> int {
    1_000_000_000_000_000_000_000_000_000_000
}

/// A quotient rounded up, of a number that is not negative.
pub open spec fn up(a: int, d: int) -> int {
    (a + d - 1) / d
}

/// A quotient with the fraction dropped, whatever the sign of the number.
pub open spec fn towards_zero(a: int, d: int) -> int {
    if a < 0 {
        -((-a) / d)
    } else {
        a / d
    }
}

proof fn lemma_up(a: int, d: int)
    requires
        a >= 0,
        d > 0,
    ensures
        math::ceil_div(a, d) == up(a, d),
        0 <= up(a, d),
{
    math::ceil_div_is_least_above(a, d);
    math::ceil_div_is_ceiling(a, d);
}

proof fn lemma_towards_zero(a: int, d: int)
    requires
        d > 0,
    ensures
        math::trunc_div(a, d) == towards_zero(a, d),
        a >= 0 ==> 0 <= towards_zero(a, d),
        a <= 0 ==> towards_zero(a, d) <= 0,
{
    math::trunc_div_is_odd(a, d);
    if a >= 0 {
        math::trunc_div_is_floor(a, d);
    } else {
        math::trunc_div_is_floor(-a, d);
    }
}

proof fn lemma_product(a: int, b: int)
    requires
        a >= 0,
        b >= 0,
    ensures
        a * b >= 0,
{
    assert(a * b >= 0) by (nonlinear_arith)
        requires
            a >= 0,
            b >= 0,
    ;
}

// ---------------------------------------------------------------------------
// Fees
// ---------------------------------------------------------------------------

/// The fee for a change of size, in tokens: the size times the factor, first
/// rounded up to a unit of a dollar and then to a unit of the token.
pub open spec fn charge(size: int, factor: int, price: int) -> int {
    up(up(size * factor, one_dollar()) * one_token(), price)
}

/// The three fees of a position.  The fee for the change is the change at the
/// factor of its impact.  The borrowing fee is what the accumulated factor has
/// risen by since the snapshot, on the tokens of the whole position when it grows
/// and on those of the closing slice when it shrinks.  The funding fee is what the
/// amount per size has risen by, on the whole size.  Each is rounded up, and they
/// add up.
pub proof fn fees_follow_the_factors(
    s: Store,
    market: MarketProps,
    p: PositionProps,
    price: int,
    size: int,
    for_positive_impact: bool,
    is_increase: bool,
)
    requires
        price > 0,
        size >= 0,
        p.size_in_usd >= 0,
        p.size_in_tokens >= 0,
    ensures
        position_utils::position_fees(
            s,
            market,
            p,
            price,
            size,
            for_positive_impact,
            is_increase,
        ) matches Ok(f) ==> {
            let m = market.market_token;
            let factor = s.u128_at(Key::PositionFeeFactor { market: m, for_positive_impact });
            let accumulated = s.u128_at(
                Key::CumulativeBorrowingFactor { market: m, is_long: p.is_long },
            );
            let funding = s.i128_at(
                Key::FundingAmountPerSize {
                    market: m,
                    token: p.collateral_token,
                    is_long: p.is_long,
                },
            );
            let tokens = if is_increase {
                p.size_in_tokens as int
            } else if p.size_in_usd == 0 {
                0
            } else {
                size * p.size_in_tokens / p.size_in_usd as int
            };
            &&& factor <= i128::MAX ==> f.position_fee_amount == charge(size, factor as int, price)
            &&& accumulated <= i128::MAX && accumulated >= p.borrowing_factor
                ==> f.borrowing_fee_amount == up(
                (accumulated - p.borrowing_factor) * tokens,
                one_dollar(),
            )
            &&& accumulated <= i128::MAX && accumulated <= p.borrowing_factor
                ==> f.borrowing_fee_amount == 0
            &&& f.funding_fee_amount == if funding > p.funding_fee_amount_per_size {
                charge(funding - p.funding_fee_amount_per_size, p.size_in_usd as int, price)
            } else {
                0
            }
            &&& f.total_cost_amount == f.borrowing_fee_amount + f.funding_fee_amount
                + f.position_fee_amount
        },
{
    let m = market.market_token;
    let factor = s.u128_at(Key::PositionFeeFactor { market: m, for_positive_impact }) as int;
    let accumulated = s.u128_at(
        Key::CumulativeBorrowingFactor { market: m, is_long: p.is_long },
    ) as int;
    let funding = s.i128_at(
        Key::FundingAmountPerSize { market: m, token: p.collateral_token, is_long: p.is_long },
    ) as int;
    if factor <= i128::MAX {
        lemma_product(size, factor);
        lemma_up(size * factor, one_dollar());
        let usd = up(size * factor, one_dollar());
        lemma_product(usd, one_token());
        lemma_up(usd * one_token(), price);
    }
    let tokens = if is_increase {
        p.size_in_tokens as int
    } else if p.size_in_usd == 0 {
        0
    } else {
        size * p.size_in_tokens / p.size_in_usd as int
    };
    lemma_product(size, p.size_in_tokens as int);
    if p.size_in_usd > 0 {
        lemma_towards_zero(size * p.size_in_tokens, p.size_in_usd as int);
    }
    assert(position_utils::charged_tokens(p, size, is_increase) == tokens);
    assert(tokens >= 0);
    if accumulated <= i128::MAX {
        let grown = if accumulated > p.borrowing_factor {
            accumulated - p.borrowing_factor
        } else {
            0
        };
        lemma_product(grown, tokens);
        lemma_up(grown * tokens, one_dollar());
        if grown == 0 {
            assert(0 * tokens == 0) by (nonlinear_arith);
            math::zero_divided(one_dollar());
        }
    }
    let owed = funding - p.funding_fee_amount_per_size;
    if owed > 0 {
        lemma_product(owed, p.size_in_usd as int);
        lemma_up(owed * p.size_in_usd, one_dollar());
        let usd = up(owed * p.size_in_usd, one_dollar());
        lemma_product(usd, one_token());
        lemma_up(usd * one_token(), price);
    }
}

/// Without a price nothing can be charged in tokens.
pub proof fn no_price_no_fee_in_tokens(
    s: Store,
    market: MarketProps,
    p: PositionProps,
    price: int,
    size: int,
    for_positive_impact: bool,
    is_increase: bool,
)
    requires
        price <= 0,
    ensures
        position_utils::position_fees(
            s,
            market,
            p,
            price,
            size,
            for_positive_impact,
            is_increase,
        ) matches Ok(f) ==> f.position_fee_amount == 0 && f.funding_fee_amount == 0
            && f.total_cost_amount == f.borrowing_fee_amount,
{
}

// ---------------------------------------------------------------------------
// Profit
// ---------------------------------------------------------------------------

/// What the tokens of a position are worth at a price, less what they were bought
/// for; the other way round for a short.
pub open spec fn gain(p: PositionProps, price: int) -> int {
    let worth = p.size_in_tokens * price / one_token();
    if p.is_long {
        worth - p.size_in_usd
    } else {
        p.size_in_usd - worth
    }
}

/// The profit of a slice is its part of the gain of the whole position, at the
/// higher price for a long and at the lower one for a short.
pub proof fn profit_is_worth_less_cost(p: PositionProps, price: PriceProps, size: int)
    requires
        p.size_in_usd > 0,
        p.size_in_tokens > 0,
        price.min >= 0,
        price.max >= 0,
    ensures
        position_utils::position_pnl(p, price, size) matches Ok((pnl, uncapped)) ==> {
            &&& pnl == towards_zero(
                gain(
                    p,
                    if p.is_long {
                        price.max as int
                    } else {
                        price.min as int
                    },
                ) * size,
                p.size_in_usd as int,
            )
            &&& uncapped == pnl
        },
{
    let chosen = if p.is_long {
        price.max as int
    } else {
        price.min as int
    };
    lemma_product(p.size_in_tokens as int, chosen);
    lemma_towards_zero(p.size_in_tokens * chosen, one_token());
    lemma_towards_zero(gain(p, chosen) * size, p.size_in_usd as int);
}

/// A position without size or tokens has no profit.
pub proof fn nothing_held_nothing_gained(p: PositionProps, price: PriceProps, size: int)
    requires
        p.size_in_usd == 0 || p.size_in_tokens == 0,
    ensures
        position_utils::position_pnl(p, price, size) == Ok::<(i128, i128), Failure>((0i128, 0i128)),
{
}

// ---------------------------------------------------------------------------
// Funding
// ---------------------------------------------------------------------------

/// What a position has to get of a token: what the amount per size has fallen by
/// since the tracker was set, on the whole size.
pub open spec fn funding_due(size: int, tracker: int, latest: int) -> int {
    if tracker > latest && size > 0 {
        (tracker - latest) * size / one_dollar()
    } else {
        0
    }
}

/// A settlement raises what the account can claim of each token of the market by
/// exactly what it has to get of it, sets the trackers to the latest amounts and
/// changes nothing else.
pub proof fn settlement_credits_both_tokens(s: Store, market: MarketProps, p: PositionProps)
    requires
        market.long_token != market.short_token,
    ensures
        position_utils::funding_settled(s, market, p) matches Ok(t) ==> {
            let m = market.market_token;
            let long = market.long_token;
            let short = market.short_token;
            let latest_long = s.i128_at(
                Key::FundingAmountPerSize { market: m, token: long, is_long: p.is_long },
            );
            let latest_short = s.i128_at(
                Key::FundingAmountPerSize { market: m, token: short, is_long: p.is_long },
            );
            let claim_long = Key::ClaimableFundingAmount {
                market: m,
                token: long,
                account: p.account,
            };
            let claim_short = Key::ClaimableFundingAmount {
                market: m,
                token: short,
                account: p.account,
            };
            let settled = position_utils::trackers_reset(t, market, p);
            &&& t.u128_at(claim_long) == s.u128_at(claim_long) + funding_due(
                p.size_in_usd as int,
                p.long_claim_fnd_per_size as int,
                latest_long as int,
            )
            &&& t.u128_at(claim_short) == s.u128_at(claim_short) + funding_due(
                p.size_in_usd as int,
                p.short_claim_fnd_per_size as int,
                latest_short as int,
            )
            &&& forall|key: Key|
                key != claim_long && key != claim_short ==> #[trigger] t.u128_at(key)
                    == s.u128_at(key)
            &&& t == (Store { words: t.words, ..s })
            &&& settled.long_claim_fnd_per_size == latest_long
            &&& settled.short_claim_fnd_per_size == latest_short
            &&& settled.funding_fee_amount_per_size == s.i128_at(
                Key::FundingAmountPerSize {
                    market: m,
                    token: p.collateral_token,
                    is_long: p.is_long,
                },
            )
            &&& settled == (PositionProps {
                long_claim_fnd_per_size: settled.long_claim_fnd_per_size,
                short_claim_fnd_per_size: settled.short_claim_fnd_per_size,
                funding_fee_amount_per_size: settled.funding_fee_amount_per_size,
                ..p
            })
        },
{
    let m = market.market_token;
    let latest_long = s.i128_at(
        Key::FundingAmountPerSize { market: m, token: market.long_token, is_long: p.is_long },
    );
    let latest_short = s.i128_at(
        Key::FundingAmountPerSize { market: m, token: market.short_token, is_long: p.is_long },
    );
    lemma_funding_due(p.size_in_usd as int, p.long_claim_fnd_per_size - latest_long);
    lemma_funding_due(p.size_in_usd as int, p.short_claim_fnd_per_size - latest_short);
}

/// In a market of one token both trackers claim in that token.
pub proof fn settlement_credits_one_token_twice(s: Store, market: MarketProps, p: PositionProps)
    requires
        market.long_token == market.short_token,
    ensures
        position_utils::funding_settled(s, market, p) matches Ok(t) ==> {
            let latest = s.i128_at(
                Key::FundingAmountPerSize {
                    market: market.market_token,
                    token: market.long_token,
                    is_long: p.is_long,
                },
            ) as int;
            let claim = Key::ClaimableFundingAmount {
                market: market.market_token,
                token: market.long_token,
                account: p.account,
            };
            t.u128_at(claim) == s.u128_at(claim) + funding_due(
                p.size_in_usd as int,
                p.long_claim_fnd_per_size as int,
                latest,
            ) + funding_due(p.size_in_usd as int, p.short_claim_fnd_per_size as int, latest)
        },
{
    let latest = s.i128_at(
        Key::FundingAmountPerSize {
            market: market.market_token,
            token: market.long_token,
            is_long: p.is_long,
        },
    );
    lemma_funding_due(p.size_in_usd as int, p.long_claim_fnd_per_size - latest);
    lemma_funding_due(p.size_in_usd as int, p.short_claim_fnd_per_size - latest);
}

proof fn lemma_funding_due(size: int, fallen: int)
    requires
        fallen <= 0x1_0000_0000_0000_0000 * 0x1_0000_0000_0000_0000,
    ensures
        fallen > 0 && size > 0 ==> math::trunc_div(fallen * size, one_dollar()) == fallen * size
            / one_dollar(),
        fallen > 0 && size > 0 ==> fallen * size / one_dollar() >= 0,
        fallen > 0 && size <= 0 ==> math::trunc_div(fallen * size, one_dollar()) <= 0,
{
    if fallen > 0 {
        if size > 0 {
            lemma_product(fallen, size);
            lemma_towards_zero(fallen * size, one_dollar());
        } else {
            assert(fallen * size <= 0) by (nonlinear_arith)
                requires
                    fallen > 0,
                    size <= 0,
            ;
            lemma_towards_zero(fallen * size, one_dollar());
        }
    }
}

// ---------------------------------------------------------------------------
// Growing
// ---------------------------------------------------------------------------

/// The name under which a position is stored.
pub open spec fn stored_under(
    account: Address,
    market: Address,
    collateral_token: Address,
    is_long: bool,
) -> PositionStorageKey {
    PositionStorageKey::Position(PositionKey { account, market, collateral_token, is_long })
}

/// What an increase makes of the position: the size grows by what was asked for,
/// the tokens by what that buys at the execution price, and the collateral by what
/// came in, less the fees.  The fee for the change goes by the factor for negative
/// impact where the impact is below zero, and by the other one otherwise; the
/// borrowing fee goes by what the accumulated factor has risen to.  The pool gains
/// exactly the fees.
pub proof fn increase_adds_what_came_in_less_the_fees(
    s: Store,
    positions: Map<PositionStorageKey, PositionProps>,
    p: IncreasePositionParams,
    q: PositionQuote,
)
    requires
        p.collateral_price > 0,
        p.size_delta_usd >= 0,
    ensures
        increase_position_utils::increase(s, positions, p, q) matches Ok(i) ==> {
            let m = p.market.market_token;
            let stored = stored_under(p.account, m, p.collateral_token, p.is_long);
            let is_new = !positions.dom().contains(stored);
            let held = positions[stored];
            let size = if is_new { 0 } else { held.size_in_usd as int };
            let tokens = if is_new { 0 } else { held.size_in_tokens as int };
            let collateral = if is_new { 0 } else { held.collateral_amount as int };
            let factor = s.u128_at(
                Key::PositionFeeFactor { market: m, for_positive_impact: !(q.impact_usd < 0) },
            );
            let accumulated = i.store.u128_at(
                Key::CumulativeBorrowingFactor { market: m, is_long: p.is_long },
            );
            let pool = Key::PoolAmount { market: m, token: p.collateral_token };
            let fees = collateral + p.collateral_amount - i.position.collateral_amount;
            &&& i.position.size_in_usd == size + p.size_delta_usd
            &&& i.position.size_in_tokens == tokens + if q.execution_price > 0 {
                p.size_delta_usd * one_token() / q.execution_price as int
            } else {
                0
            }
            &&& i.store.u128_at(pool) - s.u128_at(pool) == fees
            &&& is_new && factor <= i128::MAX ==> fees == charge(
                p.size_delta_usd as int,
                factor as int,
                p.collateral_price as int,
            )
            &&& !is_new && factor <= i128::MAX && accumulated <= i128::MAX && held.is_long
                == p.is_long && held.collateral_token == p.collateral_token && tokens >= 0 && size
                >= 0 && accumulated >= held.borrowing_factor ==> fees == charge(
                p.size_delta_usd as int,
                factor as int,
                p.collateral_price as int,
            ) + up((accumulated - held.borrowing_factor) * tokens, one_dollar())
        },
{
    let m = p.market.market_token;
    let before = increase_position_utils::position_to_increase(positions, p);
    if let Ok(i) = increase_position_utils::increase(s, positions, p, q) {
        let s1 = market_utils::accrued(s, p.market, p.is_long, p.current_time, q.accrual)->Ok_0;
        let s2 = position_utils::funding_settled(s1, p.market, before)->Ok_0;
        let held = position_utils::trackers_reset(s2, p.market, before);
        let s3 = impact_pools::impact_booked(
            s2,
            impact_pools::position_impact_key(p.market),
            q.impact_usd as int,
            p.index_token_price.mid(),
        )->Ok_0;
        let positive = q.impact_usd >= 0;
        if held.size_in_usd >= 0 && held.size_in_tokens >= 0 {
            fees_follow_the_factors(
                s3,
                p.market,
                held,
                p.collateral_price as int,
                p.size_delta_usd as int,
                positive,
                true,
            );
        }
        lemma_product(p.size_delta_usd as int, one_token());
        if q.execution_price > 0 {
            lemma_towards_zero(p.size_delta_usd * one_token(), q.execution_price as int);
        }
        assert(s3.u128_at(Key::PositionFeeFactor { market: m, for_positive_impact: positive })
            == s.u128_at(Key::PositionFeeFactor { market: m, for_positive_impact: positive }));
        let pool = Key::PoolAmount { market: m, token: p.collateral_token };
        assert(s3.u128_at(pool) == s.u128_at(pool));
        let grown = increase_position_utils::growth(s3, held, p, q);
        assert(grown is Ok);
        let cumulative = Key::CumulativeBorrowingFactor { market: m, is_long: p.is_long };
        assert(i.store.u128_at(cumulative) == s3.u128_at(cumulative));
        if !positions.dom().contains(
            stored_under(p.account, m, p.collateral_token, p.is_long),
        ) {
            assert(0 * one_token() == 0);
            math::zero_divided(one_dollar());
            let accumulated = math::signed(s3.u128_at(cumulative)) as int;
            let risen = if accumulated > 0 { accumulated } else { 0 };
            assert(risen * 0 == 0) by (nonlinear_arith);
        }
    }
}

/// What an increase books beside the position: open interest in dollars and in
/// tokens grows by what the position grows by, the collateral sum by what came in.
/// The position is stored under its name with fresh snapshots, it is on both lists
/// where it is new, and no other position changes.
pub proof fn increase_books_what_was_added(
    s: Store,
    positions: Map<PositionStorageKey, PositionProps>,
    p: IncreasePositionParams,
    q: PositionQuote,
)
    ensures
        increase_position_utils::increase(s, positions, p, q) matches Ok(i) ==> {
            let m = p.market.market_token;
            let token = p.collateral_token;
            let is_long = p.is_long;
            let stored = stored_under(p.account, m, token, is_long);
            let key = PositionKey { account: p.account, market: m, collateral_token: token, is_long };
            let is_new = !positions.dom().contains(stored);
            let held = positions[stored];
            let size = if is_new { 0 } else { held.size_in_usd as int };
            let tokens = if is_new { 0 } else { held.size_in_tokens as int };
            let oi = Key::OpenInterest { market: m, token, is_long };
            let oi_tokens = Key::OpenInterestInTokens { market: m, token, is_long };
            let sum = Key::CollateralSum { market: m, token, is_long };
            &&& i.store.u128_at(oi) - s.u128_at(oi) == i.position.size_in_usd - size
            &&& i.store.u128_at(oi_tokens) - s.u128_at(oi_tokens) == i.position.size_in_tokens
                - tokens
            &&& i.store.u128_at(sum) - s.u128_at(sum) == p.collateral_amount
            &&& i.positions == positions.insert(stored, i.position)
            &&& i.position.increased_at_time == p.current_time
            &&& i.position.borrowing_factor == math::signed(
                i.store.u128_at(Key::CumulativeBorrowingFactor { market: m, is_long }),
            )
            &&& i.position.funding_fee_amount_per_size == i.store.i128_at(
                Key::FundingAmountPerSize { market: m, token, is_long },
            )
            &&& is_new ==> {
                &&& i.store.lists(Member::PositionList(key))
                &&& i.store.lists(Member::AccountPositionList(p.account, key))
                &&& i.position.account == p.account
                &&& i.position.market == m
                &&& i.position.collateral_token == token
                &&& i.position.is_long == is_long
                &&& i.position.decreased_at_time == 0
            }
            &&& !is_new ==> {
                &&& i.store.members == s.members
                &&& i.position.account == held.account
                &&& i.position.market == held.market
                &&& i.position.collateral_token == held.collateral_token
                &&& i.position.is_long == held.is_long
                &&& i.position.decreased_at_time == held.decreased_at_time
            }
        },
{
}

/// An increase is refused for its price only where the trader set a limit and the
/// price is beyond it: above for a long, below for a short.
pub proof fn increase_is_refused_only_beyond_the_limit(
    s: Store,
    positions: Map<PositionStorageKey, PositionProps>,
    p: IncreasePositionParams,
    q: PositionQuote,
)
    ensures
        ({
            let beyond = p.acceptable_price != 0 && if p.is_long {
                q.execution_price > p.acceptable_price
            } else {
                q.execution_price < p.acceptable_price
            };
            match increase_position_utils::increase(s, positions, p, q) {
                Ok(_) => !beyond,
                Err(Failure::Increase(
                    increase_position_utils::IncreasePositionError::PriceTooHigh,
                )) => beyond && p.is_long,
                Err(Failure::Increase(
                    increase_position_utils::IncreasePositionError::PriceTooLow,
                )) => beyond && !p.is_long,
                Err(Failure::Increase(_))
                | Err(Failure::Position(_)) => !beyond,
                Err(_) => true,
            }
        }),
{
}

// ---------------------------------------------------------------------------
// Shrinking
// ---------------------------------------------------------------------------

/// A close conserves the collateral: what leaves the position is paid out or
/// stays in the pool.  A profit is paid out of the pool and a loss goes into it,
/// and where the loss and the fees are more than the slice holds, nothing is paid
/// out.
pub proof fn closes_conserve_collateral(
    s: Store,
    positions: Map<PositionStorageKey, PositionProps>,
    p: DecreasePositionParams,
    q: PositionQuote,
)
    ensures
        decrease_position_utils::close(s, positions, p, q) matches Ok(c) ==> {
            let m = p.market.market_token;
            let held = positions[stored_under(p.account, m, p.collateral_token, p.is_long)];
            let pool = Key::PoolAmount { market: m, token: p.collateral_token };
            let left = held.collateral_amount - c.result.remaining_collateral;
            let gained = c.store.u128_at(pool) - s.u128_at(pool);
            &&& c.result.output_amount >= 0
            &&& c.result.output_amount > 0 ==> left == c.result.output_amount + gained
            &&& c.result.output_amount == 0 ==> left <= gained
        },
{
    if let Ok(c) = decrease_position_utils::close(s, positions, p, q) {
        lemma_close_unfolds(s, positions, p, q);
    }
}

/// The steps of a close, one after the other.
proof fn lemma_close_unfolds(
    s: Store,
    positions: Map<PositionStorageKey, PositionProps>,
    p: DecreasePositionParams,
    q: PositionQuote,
)
    requires
        decrease_position_utils::close(s, positions, p, q) is Ok,
    ensures
        ({
            let c = decrease_position_utils::close(s, positions, p, q)->Ok_0;
            let m = p.market.market_token;
            let before = positions[stored_under(p.account, m, p.collateral_token, p.is_long)];
            let size = decrease_position_utils::closed_size(before, p.size_delta_usd);
            let s1 = market_utils::accrued(
                s,
                p.market,
                p.is_long,
                p.current_time,
                q.accrual,
            )->Ok_0;
            let s2 = position_utils::funding_settled(s1, p.market, before)->Ok_0;
            let held = position_utils::trackers_reset(s2, p.market, before);
            let s3 = impact_pools::impact_booked(
                s2,
                impact_pools::position_impact_key(p.market),
                q.impact_usd as int,
                p.index_token_price.mid(),
            )->Ok_0;
            let shrunk = decrease_position_utils::shrinkage(s3, held, p, q, size);
            let x = shrunk->Ok_0.slice;
            let pool = Key::PoolAmount { market: m, token: p.collateral_token };
            let oi = Key::OpenInterest { market: m, token: p.collateral_token, is_long: p.is_long };
            let oi_tokens = Key::OpenInterestInTokens {
                market: m,
                token: p.collateral_token,
                is_long: p.is_long,
            };
            let sum = Key::CollateralSum {
                market: m,
                token: p.collateral_token,
                is_long: p.is_long,
            };
            let cumulative = Key::CumulativeBorrowingFactor { market: m, is_long: p.is_long };
            &&& positions.dom().contains(
                stored_under(p.account, m, p.collateral_token, p.is_long),
            )
            &&& shrunk is Ok
            &&& c.size == size
            &&& c.result.pnl_usd == shrunk->Ok_0.pnl_usd
            &&& c.result.output_amount == math::at_least_zero(
                x.collateral + x.pnl_tokens - x.cost,
            )
            &&& c.result.remaining_collateral == before.collateral_amount - x.collateral
            &&& c.result.is_fully_closed == (before.size_in_usd == size)
            &&& c.store.u128_at(pool) == s.u128_at(pool) - x.pnl_tokens + x.cost
            &&& c.store.u128_at(oi) == s.u128_at(oi) - size
            &&& c.store.u128_at(oi_tokens) == s.u128_at(oi_tokens) - x.tokens
            &&& c.store.u128_at(sum) == math::at_least_zero(
                s.u128_at(sum) - c.result.output_amount,
            )
            &&& c.store.u128_at(cumulative) == s3.u128_at(cumulative)
            &&& forall|for_positive_impact: bool|
                #[trigger] s3.u128_at(
                    Key::PositionFeeFactor { market: m, for_positive_impact },
                ) == s.u128_at(Key::PositionFeeFactor { market: m, for_positive_impact })
            &&& !c.result.is_fully_closed ==> c.positions[stored_under(
                p.account,
                m,
                p.collateral_token,
                p.is_long,
            )].size_in_tokens == before.size_in_tokens - x.tokens
        }),
{
}

/// What a close comes to.  The slice is what was asked for, at most the whole
/// position.  Its profit is its part of the gain of the position.  Its part of the
/// collateral leaves, and with the profit, less the fees, it is paid out, though
/// never less than nothing.  The pool pays the profit, takes the loss and keeps
/// the fees; the fee for the change goes by the factor of the sign of the impact,
/// the borrowing fee is due on the tokens of the slice.
pub proof fn close_pays_the_slice(
    s: Store,
    positions: Map<PositionStorageKey, PositionProps>,
    p: DecreasePositionParams,
    q: PositionQuote,
)
    requires
        p.collateral_price > 0,
        p.size_delta_usd >= 0,
        p.index_token_price.min >= 0,
        p.index_token_price.max >= 0,
        ({
            let held = positions[stored_under(
                p.account,
                p.market.market_token,
                p.collateral_token,
                p.is_long,
            )];
            &&& held.size_in_usd > 0
            &&& held.size_in_tokens > 0
            &&& held.collateral_amount >= 0
            &&& held.is_long == p.is_long
            &&& held.collateral_token == p.collateral_token
        }),
    ensures
        decrease_position_utils::close(s, positions, p, q) matches Ok(c) ==> {
            let m = p.market.market_token;
            let held = positions[stored_under(p.account, m, p.collateral_token, p.is_long)];
            let size = held.size_in_usd as int;
            let slice = if p.size_delta_usd < size {
                p.size_delta_usd as int
            } else {
                size
            };
            let price = if p.is_long {
                p.index_token_price.max as int
            } else {
                p.index_token_price.min as int
            };
            let profit = towards_zero(c.result.pnl_usd * one_token(), p.collateral_price as int);
            let pool = Key::PoolAmount { market: m, token: p.collateral_token };
            let fees = c.store.u128_at(pool) - s.u128_at(pool) + profit;
            let left = held.collateral_amount * slice / size;
            let paid = left + profit - fees;
            let tokens = slice * held.size_in_tokens / size;
            let factor = s.u128_at(
                Key::PositionFeeFactor { market: m, for_positive_impact: !(q.impact_usd < 0) },
            );
            let accumulated = c.store.u128_at(
                Key::CumulativeBorrowingFactor { market: m, is_long: p.is_long },
            );
            &&& c.size == slice
            &&& c.result.pnl_usd == towards_zero(gain(held, price) * slice, size)
            &&& c.result.remaining_collateral == held.collateral_amount - left
            &&& c.result.output_amount == if paid > 0 { paid } else { 0 }
            &&& c.result.execution_price == q.execution_price
            &&& c.result.secondary_output_amount == 0
            &&& c.result.is_fully_closed == (slice == size)
            &&& factor <= i128::MAX && accumulated <= i128::MAX && accumulated
                >= held.borrowing_factor ==> fees == charge(
                slice,
                factor as int,
                p.collateral_price as int,
            ) + up((accumulated - held.borrowing_factor) * tokens, one_dollar())
        },
{
    if let Ok(c) = decrease_position_utils::close(s, positions, p, q) {
        lemma_close_unfolds(s, positions, p, q);
        let m = p.market.market_token;
        let before = positions[stored_under(p.account, m, p.collateral_token, p.is_long)];
        let size = c.size;
        let s1 = market_utils::accrued(s, p.market, p.is_long, p.current_time, q.accrual)->Ok_0;
        let s2 = position_utils::funding_settled(s1, p.market, before)->Ok_0;
        let held = position_utils::trackers_reset(s2, p.market, before);
        let s3 = impact_pools::impact_booked(
            s2,
            impact_pools::position_impact_key(p.market),
            q.impact_usd as int,
            p.index_token_price.mid(),
        )->Ok_0;
        profit_is_worth_less_cost(held, p.index_token_price, size as int);
        fees_follow_the_factors(
            s3,
            p.market,
            held,
            p.collateral_price as int,
            size as int,
            q.impact_usd >= 0,
            false,
        );
        lemma_towards_zero(c.result.pnl_usd * one_token(), p.collateral_price as int);
        lemma_product(held.collateral_amount as int, size as int);
        lemma_towards_zero(held.collateral_amount * size, held.size_in_usd as int);
        let factor = Key::PositionFeeFactor { market: m, for_positive_impact: q.impact_usd >= 0 };
        assert(s3.u128_at(factor) == s.u128_at(factor));
        assert(held.funding_fee_amount_per_size == s3.i128_at(
            Key::FundingAmountPerSize {
                market: m,
                token: held.collateral_token,
                is_long: held.is_long,
            },
        ));
    }
}

/// What a close books beside the payment: open interest in dollars falls by the
/// slice, and in tokens by the tokens of the slice; the collateral sum falls by
/// what is paid out, at most to zero.  What is left of the position is stored with
/// fresh snapshots; a position that is closed in full is gone and on no list.
pub proof fn close_books_what_was_taken(
    s: Store,
    positions: Map<PositionStorageKey, PositionProps>,
    p: DecreasePositionParams,
    q: PositionQuote,
)
    requires
        p.size_delta_usd >= 0,
        ({
            let held = positions[stored_under(
                p.account,
                p.market.market_token,
                p.collateral_token,
                p.is_long,
            )];
            &&& held.size_in_usd > 0
            &&& held.size_in_tokens >= 0
        }),
    ensures
        decrease_position_utils::close(s, positions, p, q) matches Ok(c) ==> {
            let m = p.market.market_token;
            let token = p.collateral_token;
            let is_long = p.is_long;
            let stored = stored_under(p.account, m, token, is_long);
            let key = PositionKey { account: p.account, market: m, collateral_token: token, is_long };
            let held = positions[stored];
            let rest = c.positions[stored];
            let oi = Key::OpenInterest { market: m, token, is_long };
            let oi_tokens = Key::OpenInterestInTokens { market: m, token, is_long };
            let sum = Key::CollateralSum { market: m, token, is_long };
            let slice = if p.size_delta_usd < held.size_in_usd {
                p.size_delta_usd as int
            } else {
                held.size_in_usd as int
            };
            let tokens = slice * held.size_in_tokens / held.size_in_usd as int;
            &&& positions.dom().contains(stored)
            &&& s.u128_at(oi) - c.store.u128_at(oi) == slice
            &&& s.u128_at(oi_tokens) - c.store.u128_at(oi_tokens) == tokens
            &&& c.store.u128_at(sum) == if s.u128_at(sum) > c.result.output_amount {
                s.u128_at(sum) - c.result.output_amount
            } else {
                0
            }
            &&& slice == held.size_in_usd ==> {
                &&& c.positions == positions.remove(stored)
                &&& !c.store.lists(Member::PositionList(key))
                &&& !c.store.lists(Member::AccountPositionList(p.account, key))
            }
            &&& slice < held.size_in_usd ==> {
                &&& c.positions == positions.insert(stored, rest)
                &&& c.store.members == s.members
                &&& rest.size_in_usd == held.size_in_usd - slice
                &&& rest.size_in_tokens == held.size_in_tokens - tokens
                &&& rest.collateral_amount == c.result.remaining_collateral
                &&& rest.decreased_at_time == p.current_time
                &&& rest.increased_at_time == held.increased_at_time
                &&& rest.borrowing_factor == math::signed(
                    c.store.u128_at(Key::CumulativeBorrowingFactor { market: m, is_long }),
                )
                &&& rest.funding_fee_amount_per_size == c.store.i128_at(
                    Key::FundingAmountPerSize { market: m, token, is_long },
                )
                &&& rest.account == held.account
                &&& rest.market == held.market
                &&& rest.collateral_token == held.collateral_token
                &&& rest.is_long == held.is_long
            }
        },
{
    if let Ok(c) = decrease_position_utils::close(s, positions, p, q) {
        lemma_close_unfolds(s, positions, p, q);
        let m = p.market.market_token;
        let held = positions[stored_under(p.account, m, p.collateral_token, p.is_long)];
        lemma_product(c.size as int, held.size_in_tokens as int);
        lemma_towards_zero(c.size * held.size_in_tokens, held.size_in_usd as int);
    }
}

/// A close is refused for its price only where the trader set a limit and the
/// price is beyond it: below for a long, above for a short.
pub proof fn close_is_refused_only_beyond_the_limit(
    s: Store,
    positions: Map<PositionStorageKey, PositionProps>,
    p: DecreasePositionParams,
    q: PositionQuote,
)
    ensures
        ({
            let beyond = p.acceptable_price != 0 && if p.is_long {
                q.execution_price < p.acceptable_price
            } else {
                q.execution_price > p.acceptable_price
            };
            let stored = stored_under(
                p.account,
                p.market.market_token,
                p.collateral_token,
                p.is_long,
            );
            match decrease_position_utils::close(s, positions, p, q) {
                Ok(_) => !beyond && positions.dom().contains(stored),
                Err(Failure::Decrease(
                    decrease_position_utils::DecreasePositionError::PriceTooLow,
                )) => beyond && p.is_long,
                Err(Failure::Decrease(
                    decrease_position_utils::DecreasePositionError::PriceTooHigh,
                )) => beyond && !p.is_long,
                Err(Failure::PositionNotFound) => !positions.dom().contains(stored),
                Err(Failure::Position(_)) => !beyond,
                Err(_) => true,
            }
        }),
{
}

// ---------------------------------------------------------------------------
// Liquidation
// ---------------------------------------------------------------------------

/// The price that disfavours the trader.
pub open spec fn worst_price(p: PositionProps, price: PriceProps) -> PriceProps {
    let worst = if p.is_long {
        price.min
    } else {
        price.max
    };
    PriceProps { min: worst, max: worst }
}

/// What the liquidation test says of what the fees and the profit are found to
/// be: the collateral less the fees plus the profit at the worst price, in
/// dollars, is less than the configured part of the size; without one, less than
/// nothing.
pub proof fn liquidation_weighs_collateral_fees_and_profit(
    s: Store,
    p: PositionProps,
    market: MarketProps,
    price: int,
    index_price: PriceProps,
)
    requires
        price > 0,
        p.size_in_usd > 0,
        p.collateral_amount >= 0,
    ensures
        position_utils::liquidation_test(s, p, market, price, index_price) matches Ok(due) ==> {
            let fees = position_utils::position_fees(
                s,
                market,
                p,
                price,
                p.size_in_usd as int,
                false,
                false,
            );
            let profit = position_utils::position_pnl(
                p,
                worst_price(p, index_price),
                p.size_in_usd as int,
            );
            let factor = s.u128_at(Key::MinCollateralFactor { market: market.market_token });
            fees matches Ok(f) && profit matches Ok((pnl, _)) && (factor <= i128::MAX ==> due == (
            p.collateral_amount * price / one_token() - towards_zero(
                f.total_cost_amount * price,
                one_token(),
            ) + pnl < p.size_in_usd * factor / one_dollar()))
        },
{
    lemma_product(p.collateral_amount as int, price);
    lemma_towards_zero(p.collateral_amount * price, one_token());
    let f = position_utils::fees(s, market, p, price, p.size_in_usd as int, false, false);
    lemma_towards_zero(f.total() * price, one_token());
    let factor = s.u128_at(Key::MinCollateralFactor { market: market.market_token });
    lemma_product(p.size_in_usd as int, factor as int);
    lemma_towards_zero(p.size_in_usd * factor, one_dollar());
    if factor == 0 {
        assert(p.size_in_usd * 0 == 0);
    }
}

proof fn lemma_up_grows(a: int, b: int, d: int)
    requires
        0 <= a <= b,
        d > 0,
    ensures
        0 <= up(a, d) <= up(b, d),
{
    lemma_up(a, d);
    lemma_up(b, d);
    vstd::arithmetic::div_mod::lemma_div_is_ordered(a + d - 1, b + d - 1, d);
}

proof fn lemma_product_grows(a: int, b: int, k: int)
    requires
        0 <= a <= b,
        0 <= k,
    ensures
        0 <= a * k <= b * k,
        0 <= k * a <= k * b,
{
    assert(0 <= a * k <= b * k && 0 <= k * a <= k * b) by (nonlinear_arith)
        requires
            0 <= a <= b,
            0 <= k,
    ;
}

proof fn lemma_charge_grows(size: int, a: int, b: int, price: int)
    requires
        0 <= a <= b,
        0 <= size,
        price > 0,
    ensures
        0 <= charge(size, a, price) <= charge(size, b, price),
        0 <= charge(a, size, price) <= charge(b, size, price),
{
    lemma_product_grows(a, b, size);
    lemma_up_grows(size * a, size * b, one_dollar());
    lemma_up_grows(a * size, b * size, one_dollar());
    lemma_product_grows(up(size * a, one_dollar()), up(size * b, one_dollar()), one_token());
    lemma_product_grows(up(a * size, one_dollar()), up(b * size, one_dollar()), one_token());
    lemma_up_grows(
        up(size * a, one_dollar()) * one_token(),
        up(size * b, one_dollar()) * one_token(),
        price,
    );
    lemma_up_grows(
        up(a * size, one_dollar()) * one_token(),
        up(b * size, one_dollar()) * one_token(),
        price,
    );
}

/// Fees only ever hurt: where the borrowing factor, the funding owed or the fee
/// factor of a market is higher and all else is the same, a position that could
/// be liquidated still can.
pub proof fn fees_bring_liquidation_nearer(
    s: Store,
    t: Store,
    p: PositionProps,
    market: MarketProps,
    price: int,
    index_price: PriceProps,
)
    requires
        price > 0,
        p.size_in_usd > 0,
        p.size_in_tokens >= 0,
        p.collateral_amount >= 0,
        ({
            let m = market.market_token;
            let required = Key::MinCollateralFactor { market: m };
            let accumulated = Key::CumulativeBorrowingFactor { market: m, is_long: p.is_long };
            let funding = Key::FundingAmountPerSize {
                market: m,
                token: p.collateral_token,
                is_long: p.is_long,
            };
            let factor = Key::PositionFeeFactor { market: m, for_positive_impact: false };
            &&& s.u128_at(required) == t.u128_at(required) <= i128::MAX
            &&& s.u128_at(accumulated) <= t.u128_at(accumulated) <= i128::MAX
            &&& s.i128_at(funding) <= t.i128_at(funding)
            &&& s.u128_at(factor) <= t.u128_at(factor) <= i128::MAX
        }),
        position_utils::liquidation_test(s, p, market, price, index_price) == Ok::<bool, Failure>(
            true,
        ),
    ensures
        position_utils::liquidation_test(t, p, market, price, index_price) matches Ok(due) ==> due,
{
    let m = market.market_token;
    let size = p.size_in_usd as int;
    let low = position_utils::position_fees(s, market, p, price, size, false, false);
    let high = position_utils::position_fees(t, market, p, price, size, false, false);
    if position_utils::liquidation_test(t, p, market, price, index_price) is Ok {
        liquidation_weighs_collateral_fees_and_profit(s, p, market, price, index_price);
        liquidation_weighs_collateral_fees_and_profit(t, p, market, price, index_price);
        fees_follow_the_factors(s, market, p, price, size, false, false);
        fees_follow_the_factors(t, market, p, price, size, false, false);
        let f = Key::PositionFeeFactor { market: m, for_positive_impact: false };
        lemma_charge_grows(size, s.u128_at(f) as int, t.u128_at(f) as int, price);
        let k = Key::CumulativeBorrowingFactor { market: m, is_long: p.is_long };
        let a = s.u128_at(k) - p.borrowing_factor;
        let b = t.u128_at(k) - p.borrowing_factor;
        let tokens = size * p.size_in_tokens / size;
        lemma_product(size, p.size_in_tokens as int);
        lemma_towards_zero(size * p.size_in_tokens, size);
        let lower = if a < 0 { 0 } else { a };
        let higher = if b < 0 { 0 } else { b };
        lemma_product_grows(lower, higher, tokens);
        lemma_up_grows(lower * tokens, higher * tokens, one_dollar());
        assert(0 * tokens == 0) by (nonlinear_arith);
        let n = Key::FundingAmountPerSize {
            market: m,
            token: p.collateral_token,
            is_long: p.is_long,
        };
        let u = s.i128_at(n) - p.funding_fee_amount_per_size;
        let v = t.i128_at(n) - p.funding_fee_amount_per_size;
        let less = if u < 0 { 0 } else { u };
        let more = if v < 0 { 0 } else { v };
        lemma_charge_grows(size, less, more, price);
        let x = low->Ok_0.total_cost_amount as int;
        let y = high->Ok_0.total_cost_amount as int;
        assert(low->Ok_0.funding_fee_amount <= high->Ok_0.funding_fee_amount);
        assert(low->Ok_0.borrowing_fee_amount <= high->Ok_0.borrowing_fee_amount);
        assert(0 <= x <= y);
        lemma_product_grows(x, y, price);
        vstd::arithmetic::div_mod::lemma_div_is_ordered(x * price, y * price, one_token());
    }
}

/// A position that has nothing to gain and owes more than it holds can be
/// liquidated, whatever the market asks for.  The price is at least one unit of a
/// dollar for a unit of the token.
pub proof fn owing_more_than_held_is_liquidatable(
    s: Store,
    p: PositionProps,
    market: MarketProps,
    price: int,
    index_price: PriceProps,
)
    requires
        price >= one_token(),
        p.size_in_usd > 0,
        p.collateral_amount >= 0,
        s.u128_at(Key::MinCollateralFactor { market: market.market_token }) <= i128::MAX,
        position_utils::position_pnl(
            p,
            worst_price(p, index_price),
            p.size_in_usd as int,
        ) matches Ok((pnl, _)) && pnl <= 0,
        position_utils::position_fees(
            s,
            market,
            p,
            price,
            p.size_in_usd as int,
            false,
            false,
        ) matches Ok(f) && f.total_cost_amount > p.collateral_amount,
    ensures
        position_utils::liquidation_test(s, p, market, price, index_price) matches Ok(due) ==> due,
{
    if position_utils::liquidation_test(s, p, market, price, index_price) is Ok {
        liquidation_weighs_collateral_fees_and_profit(s, p, market, price, index_price);
        let fees = position_utils::position_fees(
            s,
            market,
            p,
            price,
            p.size_in_usd as int,
            false,
            false,
        )->Ok_0.total_cost_amount as int;
        let held = p.collateral_amount as int;
        lemma_product(held, price);
        assert(fees * price >= held * price + one_token()) by (nonlinear_arith)
            requires
                fees >= held + 1,
                price >= one_token(),
        ;
        vstd::arithmetic::div_mod::lemma_fundamental_div_mod(held * price, one_token());
        vstd::arithmetic::div_mod::lemma_fundamental_div_mod(fees * price, one_token());
        let factor = s.u128_at(Key::MinCollateralFactor { market: market.market_token });
        lemma_product(p.size_in_usd as int, factor as int);
        lemma_towards_zero(p.size_in_usd * factor, one_dollar());
    }
}

/// More collateral never makes a position easier to liquidate.
pub proof fn collateral_puts_liquidation_off(
    s: Store,
    p: PositionProps,
    more: i128,
    market: MarketProps,
    price: int,
    index_price: PriceProps,
)
    requires
        price > 0,
        p.size_in_usd > 0,
        0 <= p.collateral_amount <= more,
        s.u128_at(Key::MinCollateralFactor { market: market.market_token }) <= i128::MAX,
        position_utils::liquidation_test(s, p, market, price, index_price) == Ok::<bool, Failure>(
            false,
        ),
    ensures
        position_utils::liquidation_test(
            s,
            PositionProps { collateral_amount: more, ..p },
            market,
            price,
            index_price,
        ) matches Ok(due) ==> !due,
{
    let richer = PositionProps { collateral_amount: more, ..p };
    let size = p.size_in_usd as int;
    if position_utils::liquidation_test(s, richer, market, price, index_price) is Ok {
        liquidation_weighs_collateral_fees_and_profit(s, p, market, price, index_price);
        liquidation_weighs_collateral_fees_and_profit(s, richer, market, price, index_price);
        lemma_product_grows(p.collateral_amount as int, more as int, price);
        vstd::arithmetic::div_mod::lemma_div_is_ordered(
            p.collateral_amount * price,
            more * price,
            one_token(),
        );
        assert(position_utils::position_fees(s, market, richer, price, size, false, false)
            == position_utils::position_fees(s, market, p, price, size, false, false));
        assert(position_utils::position_pnl(richer, worst_price(richer, index_price), size)
            == position_utils::position_pnl(p, worst_price(p, index_price), size));
    }
}

// ---------------------------------------------------------------------------
// Limits
// ---------------------------------------------------------------------------

/// A position passes where its collateral in dollars is at least the configured
/// part of its size, a hundredfold of its size is no more than the configured
/// leverage allows for that collateral, and the open interest of its side is no
/// more than its cap; and it is refused for the first of these that it breaks.
pub proof fn positions_pass_within_every_limit(
    s: Store,
    p: PositionProps,
    market: MarketProps,
    price: int,
)
    requires
        price > 0,
        p.collateral_amount >= 0,
        0 <= p.size_in_usd <= i128::MAX / 100,
        market.long_token != market.short_token,
        s.u128_at(Key::MinCollateralFactor { market: market.market_token }) <= i128::MAX,
    ensures
        ({
            let m = market.market_token;
            let collateral_usd = p.collateral_amount * price / one_token();
            let part = s.u128_at(Key::MinCollateralFactor { market: m });
            let leverage = s.u128_at(Key::MaxLeverage { market: m });
            let cap = s.u128_at(Key::MaxOpenInterest { market: m, is_long: p.is_long });
            let interest = s.u128_at(
                Key::OpenInterest { market: m, token: market.long_token, is_long: p.is_long },
            ) + s.u128_at(
                Key::OpenInterest { market: m, token: market.short_token, is_long: p.is_long },
            );
            let poor = part > 0 && collateral_usd < p.size_in_usd * part / one_dollar();
            let stretched = leverage > 0 && collateral_usd > 0 && p.size_in_usd * 100
                / collateral_usd > leverage;
            let crowded = cap > 0 && interest > cap;
            match position_utils::validation(s, p, market, price) {
                Ok(_) => !poor && !stretched && !crowded,
                Err(Failure::Position(position_utils::PositionError::BelowMinCollateral)) => poor,
                Err(Failure::Position(position_utils::PositionError::ExceedsMaxLeverage)) => !poor
                    && stretched,
                Err(Failure::Position(position_utils::PositionError::ExceedsMaxOI)) => !poor
                    && !stretched && crowded,
                Err(e) => e == Failure::Overflow,
            }
        }),
{
    lemma_product(p.collateral_amount as int, price);
    lemma_towards_zero(p.collateral_amount * price, one_token());
    let part = s.u128_at(Key::MinCollateralFactor { market: market.market_token });
    lemma_product(p.size_in_usd as int, part as int);
    lemma_towards_zero(p.size_in_usd * part, one_dollar());
}

/// A grown position is within every limit of its market: it holds the configured
/// part of its size, a hundredfold of its size over its collateral is no more than
/// the configured leverage, and the open interest of its side is within its cap.
/// What is left after a partial close is, too.
pub proof fn changed_positions_are_within_every_limit(
    s: Store,
    positions: Map<PositionStorageKey, PositionProps>,
    p: IncreasePositionParams,
    d: DecreasePositionParams,
    q: PositionQuote,
)
    requires
        p.collateral_price > 0,
        d.collateral_price > 0,
    ensures
        increase_position_utils::increase(s, positions, p, q) matches Ok(i)
            ==> position_utils::validation(
            i.store,
            i.position,
            p.market,
            p.collateral_price as int,
        ) is Ok,
        decrease_position_utils::close(s, positions, d, q) matches Ok(c)
            ==> !c.result.is_fully_closed ==> position_utils::validation(
            c.store,
            c.positions[stored_under(
                d.account,
                d.market.market_token,
                d.collateral_token,
                d.is_long,
            )],
            d.market,
            d.collateral_price as int,
        ) is Ok,
{
}

/// What a change of a position asks of the world outside: an increase only
/// announces itself; a close pays its receiver what it comes to out of the
/// market's pool, where that is anything, and announces itself.
pub proof fn changes_are_paid_and_announced(
    s: Store,
    positions: Map<PositionStorageKey, PositionProps>,
    p: IncreasePositionParams,
    d: DecreasePositionParams,
    q: PositionQuote,
)
    ensures
        increase_position_utils::increase(s, positions, p, q) matches Ok(i) ==> i.actions == seq![
            Action::Publish(
                Event::PositionIncrease {
                    position: PositionKey {
                        account: p.account,
                        market: p.market.market_token,
                        collateral_token: p.collateral_token,
                        is_long: p.is_long,
                    },
                    account: p.account,
                    size_delta_usd: p.size_delta_usd,
                    execution_price: q.execution_price,
                },
            ),
        ],
        decrease_position_utils::close(s, positions, d, q) matches Ok(c) ==> {
            let announced = Action::Publish(
                Event::PositionDecrease {
                    position: PositionKey {
                        account: d.account,
                        market: d.market.market_token,
                        collateral_token: d.collateral_token,
                        is_long: d.is_long,
                    },
                    account: d.account,
                    size_delta_usd: c.size,
                    execution_price: q.execution_price,
                    pnl_usd: c.result.pnl_usd,
                },
            );
            decrease_position_utils::decrease_actions(d, c) == if c.result.output_amount > 0 {
                seq![
                    Action::WithdrawFromPool {
                        market: d.market.market_token,
                        token: d.collateral_token,
                        receiver: d.receiver,
                        amount: c.result.output_amount,
                    },
                    announced,
                ]
            } else {
                seq![announced]
            }
        },
{
}

/// The steps of an increase, one after the other.
proof fn lemma_increase_unfolds(
    s: Store,
    positions: Map<PositionStorageKey, PositionProps>,
    p: IncreasePositionParams,
    q: PositionQuote,
)
    requires
        increase_position_utils::increase(s, positions, p, q) is Ok,
    ensures
        ({
            let i = increase_position_utils::increase(s, positions, p, q)->Ok_0;
            let m = p.market.market_token;
            let before = increase_position_utils::position_to_increase(positions, p);
            let s1 = market_utils::accrued(
                s,
                p.market,
                p.is_long,
                p.current_time,
                q.accrual,
            );
            let s2 = position_utils::funding_settled(s1->Ok_0, p.market, before);
            let token = p.collateral_token;
            let is_long = p.is_long;
            let reset = position_utils::trackers_reset(s2->Ok_0, p.market, before);
            &&& s1 is Ok && s2 is Ok
            &&& i.store.ints == s2->Ok_0.ints
            &&& i.position.long_claim_fnd_per_size == reset.long_claim_fnd_per_size
            &&& i.position.short_claim_fnd_per_size == reset.short_claim_fnd_per_size
            &&& forall|key: Key|
                key != (Key::PositionImpactPoolAmount { market: m }) && key != (Key::OpenInterest {
                    market: m,
                    token,
                    is_long,
                }) && key != (Key::OpenInterestInTokens { market: m, token, is_long }) && key
                    != (Key::CollateralSum { market: m, token, is_long }) && key
                    != (Key::PoolAmount { market: m, token }) ==> #[trigger] i.store.u128_at(key)
                    == s2->Ok_0.u128_at(key)
            &&& i.store.flags == s.flags && i.store.addresses == s.addresses && i.store.markets
                == s.markets && i.store.nonce == s.nonce
        }),
{
}

/// The steps of a close that come before the slice is booked.
proof fn lemma_close_settles(
    s: Store,
    positions: Map<PositionStorageKey, PositionProps>,
    p: DecreasePositionParams,
    q: PositionQuote,
)
    requires
        decrease_position_utils::close(s, positions, p, q) is Ok,
    ensures
        ({
            let c = decrease_position_utils::close(s, positions, p, q)->Ok_0;
            let m = p.market.market_token;
            let token = p.collateral_token;
            let is_long = p.is_long;
            let stored = stored_under(p.account, m, token, is_long);
            let before = positions[stored];
            let s1 = market_utils::accrued(
                s,
                p.market,
                p.is_long,
                p.current_time,
                q.accrual,
            );
            let s2 = position_utils::funding_settled(s1->Ok_0, p.market, before);
            let reset = position_utils::trackers_reset(s2->Ok_0, p.market, before);
            &&& s1 is Ok && s2 is Ok
            &&& c.store.ints == s2->Ok_0.ints
            &&& !c.result.is_fully_closed ==> c.positions[stored].long_claim_fnd_per_size
                == reset.long_claim_fnd_per_size
            &&& !c.result.is_fully_closed ==> c.positions[stored].short_claim_fnd_per_size
                == reset.short_claim_fnd_per_size
            &&& forall|key: Key|
                key != (Key::PositionImpactPoolAmount { market: m }) && key != (Key::OpenInterest {
                    market: m,
                    token,
                    is_long,
                }) && key != (Key::OpenInterestInTokens { market: m, token, is_long }) && key
                    != (Key::CollateralSum { market: m, token, is_long }) && key
                    != (Key::PoolAmount { market: m, token }) ==> #[trigger] c.store.u128_at(key)
                    == s2->Ok_0.u128_at(key)
            &&& c.store.flags == s.flags && c.store.addresses == s.addresses && c.store.markets
                == s.markets && c.store.nonce == s.nonce
        }),
{
}

/// The key is one of those that a change of a position in a market may write.
pub open spec fn may_be_written(
    key: Key,
    market: MarketProps,
    token: Address,
    account: Address,
    is_long: bool,
) -> bool {
    let m = market.market_token;
    ||| key == (Key::PositionImpactPoolAmount { market: m })
    ||| key == (Key::OpenInterest { market: m, token, is_long })
    ||| key == (Key::OpenInterestInTokens { market: m, token, is_long })
    ||| key == (Key::CollateralSum { market: m, token, is_long })
    ||| key == (Key::PoolAmount { market: m, token })
    ||| key == (Key::CumulativeBorrowingFactor { market: m, is_long })
    ||| key == (Key::CumulativeBorrowingFactorUpdatedAt { market: m, is_long })
    ||| key == (Key::ClaimableFundingAmount { market: m, token: market.long_token, account })
    ||| key == (Key::ClaimableFundingAmount { market: m, token: market.short_token, account })
}

/// Whatever grows a position brings the market up to date first and settles the
/// funding of the position: the amounts per size and the borrowing factor grow by
/// what has accrued, the account can claim what the position has to get of each
/// token, and the trackers are at the latest amounts.  Nothing is written that has
/// nothing to do with the position or its market.
pub proof fn increases_accrue_and_settle(
    s: Store,
    positions: Map<PositionStorageKey, PositionProps>,
    p: IncreasePositionParams,
    q: PositionQuote,
)
    requires
        p.market.long_token != p.market.short_token,
        s.u128_at(
            Key::CumulativeBorrowingFactorUpdatedAt {
                market: p.market.market_token,
                is_long: p.is_long,
            },
        ) <= u64::MAX,
        ({
            let stored = stored_under(
                p.account,
                p.market.market_token,
                p.collateral_token,
                p.is_long,
            );
            positions.dom().contains(stored) ==> positions[stored].account == p.account
                && positions[stored].is_long == p.is_long
        }),
    ensures
        increase_position_utils::increase(s, positions, p, q) matches Ok(i) ==> {
            let m = p.market.market_token;
            let is_long = p.is_long;
            let stored = stored_under(p.account, m, p.collateral_token, is_long);
            let held = positions[stored];
            let size = if positions.dom().contains(stored) { held.size_in_usd as int } else { 0 };
            let up_to_date = market_utils::accrued(s, p.market, is_long, p.current_time, q.accrual);
            let long = i.store.i128_at(
                Key::FundingAmountPerSize { market: m, token: p.market.long_token, is_long },
            );
            let short = i.store.i128_at(
                Key::FundingAmountPerSize { market: m, token: p.market.short_token, is_long },
            );
            let factor = Key::CumulativeBorrowingFactor { market: m, is_long };
            let claim_long = Key::ClaimableFundingAmount {
                market: m,
                token: p.market.long_token,
                account: p.account,
            };
            let claim_short = Key::ClaimableFundingAmount {
                market: m,
                token: p.market.short_token,
                account: p.account,
            };
            &&& up_to_date is Ok
            &&& i.store.ints == up_to_date->Ok_0.ints
            &&& i.store.u128_at(factor) == up_to_date->Ok_0.u128_at(factor)
            &&& i.position.long_claim_fnd_per_size == long
            &&& i.position.short_claim_fnd_per_size == short
            &&& i.store.u128_at(claim_long) == s.u128_at(claim_long) + funding_due(
                size,
                held.long_claim_fnd_per_size as int,
                long as int,
            )
            &&& i.store.u128_at(claim_short) == s.u128_at(claim_short) + funding_due(
                size,
                held.short_claim_fnd_per_size as int,
                short as int,
            )
            &&& forall|key: Key|
                !may_be_written(key, p.market, p.collateral_token, p.account, is_long)
                    ==> #[trigger] i.store.u128_at(key) == s.u128_at(key)
            &&& i.store.flags == s.flags && i.store.addresses == s.addresses && i.store.markets
                == s.markets && i.store.nonce == s.nonce
        },
{
    if let Ok(i) = increase_position_utils::increase(s, positions, p, q) {
        lemma_increase_unfolds(s, positions, p, q);
        let before = increase_position_utils::position_to_increase(positions, p);
        crate::market_laws::accrual_adds_the_growth(
            s,
            p.market,
            p.is_long,
            p.current_time,
            q.accrual,
        );
        let s1 = market_utils::accrued(s, p.market, p.is_long, p.current_time, q.accrual)->Ok_0;
        settlement_credits_both_tokens(s1, p.market, before);
    }
}

/// Whatever shrinks a position does the same.
pub proof fn closes_accrue_and_settle(
    s: Store,
    positions: Map<PositionStorageKey, PositionProps>,
    p: DecreasePositionParams,
    q: PositionQuote,
)
    requires
        p.market.long_token != p.market.short_token,
        s.u128_at(
            Key::CumulativeBorrowingFactorUpdatedAt {
                market: p.market.market_token,
                is_long: p.is_long,
            },
        ) <= u64::MAX,
        ({
            let held = positions[stored_under(
                p.account,
                p.market.market_token,
                p.collateral_token,
                p.is_long,
            )];
            held.account == p.account && held.is_long == p.is_long
        }),
    ensures
        decrease_position_utils::close(s, positions, p, q) matches Ok(c) ==> {
            let m = p.market.market_token;
            let is_long = p.is_long;
            let stored = stored_under(p.account, m, p.collateral_token, is_long);
            let held = positions[stored];
            let up_to_date = market_utils::accrued(s, p.market, is_long, p.current_time, q.accrual);
            let long = c.store.i128_at(
                Key::FundingAmountPerSize { market: m, token: p.market.long_token, is_long },
            );
            let short = c.store.i128_at(
                Key::FundingAmountPerSize { market: m, token: p.market.short_token, is_long },
            );
            let factor = Key::CumulativeBorrowingFactor { market: m, is_long };
            let claim_long = Key::ClaimableFundingAmount {
                market: m,
                token: p.market.long_token,
                account: p.account,
            };
            let claim_short = Key::ClaimableFundingAmount {
                market: m,
                token: p.market.short_token,
                account: p.account,
            };
            &&& up_to_date is Ok
            &&& c.store.ints == up_to_date->Ok_0.ints
            &&& c.store.u128_at(factor) == up_to_date->Ok_0.u128_at(factor)
            &&& !c.result.is_fully_closed ==> c.positions[stored].long_claim_fnd_per_size == long
            &&& !c.result.is_fully_closed ==> c.positions[stored].short_claim_fnd_per_size == short
            &&& c.store.u128_at(claim_long) == s.u128_at(claim_long) + funding_due(
                held.size_in_usd as int,
                held.long_claim_fnd_per_size as int,
                long as int,
            )
            &&& c.store.u128_at(claim_short) == s.u128_at(claim_short) + funding_due(
                held.size_in_usd as int,
                held.short_claim_fnd_per_size as int,
                short as int,
            )
            &&& forall|key: Key|
                !may_be_written(key, p.market, p.collateral_token, p.account, is_long)
                    ==> #[trigger] c.store.u128_at(key) == s.u128_at(key)
            &&& c.store.flags == s.flags && c.store.addresses == s.addresses && c.store.markets
                == s.markets && c.store.nonce == s.nonce
        },
{
    if let Ok(c) = decrease_position_utils::close(s, positions, p, q) {
        lemma_close_settles(s, positions, p, q);
        let before = positions[stored_under(
            p.account,
            p.market.market_token,
            p.collateral_token,
            p.is_long,
        )];
        crate::market_laws::accrual_adds_the_growth(
            s,
            p.market,
            p.is_long,
            p.current_time,
            q.accrual,
        );
        let s1 = market_utils::accrued(s, p.market, p.is_long, p.current_time, q.accrual)->Ok_0;
        settlement_credits_both_tokens(s1, p.market, before);
    }
}

} // verus!
