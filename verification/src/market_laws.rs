//! What a market's pools, interest, accrual and swaps come to, in plain
//! arithmetic over what goes in and what comes out.

use crate::actions::Action;
use crate::data_store::{Key, Store};
use crate::decrease_position_utils;
use crate::decrease_position_utils::DecreasePositionParams;
use crate::failure::Failure;
use crate::impact_pools;
use crate::increase_position_utils;
use crate::increase_position_utils::{IncreasePositionParams, PositionQuote};
use crate::market_utils;
use crate::market_utils::MarketAccrual;
use crate::math;
use crate::position_laws::{one_dollar, one_token, up};
use crate::swap_utils;
use crate::swap_utils::SwapQuote;
use crate::types;
use crate::types::{Address, MarketProps, PositionProps, PositionStorageKey, PriceProps};
use vstd::prelude::*;

verus! {

proof fn lemma_worth(amount: int, price: int)
    requires
        amount >= 0,
        price >= 0,
    ensures
        math::trunc_div(amount * price, one_token()) == amount * price / one_token(),
        amount * price / one_token() >= 0,
{
    assert(amount * price >= 0) by (nonlinear_arith)
        requires
            amount >= 0,
            price >= 0,
    ;
    math::trunc_div_is_floor(amount * price, one_token());
}

// ---------------------------------------------------------------------------
// Pool value
// ---------------------------------------------------------------------------

/// Every amount of a market that counts for its value is at most what a signed
/// word holds.
pub open spec fn amounts_are_moderate(s: Store, m: MarketProps) -> bool {
    let k = m.market_token;
    &&& s.u128_at(Key::PoolAmount { market: k, token: m.long_token }) <= i128::MAX
    &&& s.u128_at(Key::PoolAmount { market: k, token: m.short_token }) <= i128::MAX
    &&& s.u128_at(Key::PositionImpactPoolAmount { market: k }) <= i128::MAX
    &&& forall|is_long: bool|
        #![trigger interest(s, m, is_long)]
        interest(s, m, is_long) <= i128::MAX && interest_in_tokens(s, m, is_long) <= i128::MAX
}

/// The open interest of a side in dollars: what both collateral tokens hold.
pub open spec fn interest(s: Store, m: MarketProps, is_long: bool) -> int {
    let k = m.market_token;
    s.u128_at(Key::OpenInterest { market: k, token: m.long_token, is_long }) + s.u128_at(
        Key::OpenInterest { market: k, token: m.short_token, is_long },
    )
}

/// The open interest of a side in index tokens: what both collateral tokens hold.
pub open spec fn interest_in_tokens(s: Store, m: MarketProps, is_long: bool) -> int {
    let k = m.market_token;
    s.u128_at(Key::OpenInterestInTokens { market: k, token: m.long_token, is_long }) + s.u128_at(
        Key::OpenInterestInTokens { market: k, token: m.short_token, is_long },
    )
}

/// What a pool is worth, piece by piece: each token pool at the price of its
/// token, the impact pool at the price of the index token, less what the longs
/// and the shorts have gained: the tokens of their interest at the index price
/// against its dollars.
pub proof fn pool_value_adds_up(
    s: Store,
    m: MarketProps,
    long_price: int,
    short_price: int,
    index_price: int,
)
    requires
        m.long_token != m.short_token,
        long_price >= 0,
        short_price >= 0,
        index_price >= 0,
        amounts_are_moderate(s, m),
    ensures
        market_utils::pool_value_result(
            s,
            m,
            long_price,
            short_price,
            index_price,
        ) matches Ok(info) ==> {
            let k = m.market_token;
            &&& info.long_token_usd == s.u128_at(
                Key::PoolAmount { market: k, token: m.long_token },
            ) * long_price / one_token()
            &&& info.short_token_usd == s.u128_at(
                Key::PoolAmount { market: k, token: m.short_token },
            ) * short_price / one_token()
            &&& info.impact_pool_usd == s.u128_at(Key::PositionImpactPoolAmount { market: k })
                * index_price / one_token()
            &&& info.long_pnl == interest_in_tokens(s, m, true) * index_price / one_token()
                - interest(s, m, true)
            &&& info.short_pnl == interest(s, m, false) - interest_in_tokens(s, m, false)
                * index_price / one_token()
            &&& info.net_pnl == info.long_pnl + info.short_pnl
            &&& info.pool_value == info.long_token_usd + info.short_token_usd
                + info.impact_pool_usd - info.net_pnl
            &&& info.total_borrowing_fees == 0
        },
{
    let k = m.market_token;
    lemma_worth(
        s.u128_at(Key::PoolAmount { market: k, token: m.long_token }) as int,
        long_price,
    );
    lemma_worth(
        s.u128_at(Key::PoolAmount { market: k, token: m.short_token }) as int,
        short_price,
    );
    lemma_worth(s.u128_at(Key::PositionImpactPoolAmount { market: k }) as int, index_price);
    lemma_worth(interest_in_tokens(s, m, true), index_price);
    lemma_worth(interest_in_tokens(s, m, false), index_price);
    assert(interest(s, m, true) <= i128::MAX && interest(s, m, false) <= i128::MAX);
}

proof fn lemma_one_more_token(amount: int, price: int)
    requires
        amount >= 0,
        price >= 0,
    ensures
        (amount + one_token()) * price / one_token() == amount * price / one_token() + price,
{
    assert((amount + one_token()) * price == amount * price + one_token() * price)
        by (nonlinear_arith);
    vstd::arithmetic::div_mod::lemma_hoist_over_denominator(
        amount * price,
        price,
        one_token() as nat,
    );
}

/// One whole token more in the impact pool raises the value of the pool by
/// exactly the index price; one more in a token pool raises it by the price of
/// that token.
pub proof fn a_token_more_is_worth_its_price(
    s: Store,
    m: MarketProps,
    long_price: int,
    short_price: int,
    index_price: int,
    impact: u128,
    long_amount: u128,
    short_amount: u128,
)
    requires
        m.long_token != m.short_token,
        long_price >= 0,
        short_price >= 0,
        index_price >= 0,
        amounts_are_moderate(s, m),
        impact == s.u128_at(Key::PositionImpactPoolAmount { market: m.market_token })
            + one_token(),
        long_amount == s.u128_at(
            Key::PoolAmount { market: m.market_token, token: m.long_token },
        ) + one_token(),
        short_amount == s.u128_at(
            Key::PoolAmount { market: m.market_token, token: m.short_token },
        ) + one_token(),
        impact <= i128::MAX,
        long_amount <= i128::MAX,
        short_amount <= i128::MAX,
    ensures
        ({
            let k = m.market_token;
            let before = market_utils::pool_value_result(s, m, long_price, short_price, index_price);
            let t = s.with_u128(Key::PositionImpactPoolAmount { market: k }, impact);
            let u = s.with_u128(Key::PoolAmount { market: k, token: m.long_token }, long_amount);
            let v = s.with_u128(Key::PoolAmount { market: k, token: m.short_token }, short_amount);
            before matches Ok(was) ==> {
                &&& market_utils::pool_value_result(
                    t,
                    m,
                    long_price,
                    short_price,
                    index_price,
                ) matches Ok(now) ==> now.pool_value == was.pool_value + index_price
                &&& market_utils::pool_value_result(
                    u,
                    m,
                    long_price,
                    short_price,
                    index_price,
                ) matches Ok(now) ==> now.pool_value == was.pool_value + long_price
                &&& market_utils::pool_value_result(
                    v,
                    m,
                    long_price,
                    short_price,
                    index_price,
                ) matches Ok(now) ==> now.pool_value == was.pool_value + short_price
            }
        }),
{
    let k = m.market_token;
    let t = s.with_u128(Key::PositionImpactPoolAmount { market: k }, impact);
    let u = s.with_u128(Key::PoolAmount { market: k, token: m.long_token }, long_amount);
    let v = s.with_u128(Key::PoolAmount { market: k, token: m.short_token }, short_amount);
    assert forall|is_long: bool| #![trigger interest(s, m, is_long)] {
        &&& interest(t, m, is_long) == interest(s, m, is_long)
        &&& interest(u, m, is_long) == interest(s, m, is_long)
        &&& interest(v, m, is_long) == interest(s, m, is_long)
        &&& interest_in_tokens(t, m, is_long) == interest_in_tokens(s, m, is_long)
        &&& interest_in_tokens(u, m, is_long) == interest_in_tokens(s, m, is_long)
        &&& interest_in_tokens(v, m, is_long) == interest_in_tokens(s, m, is_long)
    } by {}
    assert forall|is_long: bool| #![trigger interest(t, m, is_long)] {
        interest(t, m, is_long) <= i128::MAX && interest_in_tokens(t, m, is_long) <= i128::MAX
    } by {
        assert(interest(s, m, is_long) <= i128::MAX);
    }
    assert forall|is_long: bool| #![trigger interest(u, m, is_long)] {
        interest(u, m, is_long) <= i128::MAX && interest_in_tokens(u, m, is_long) <= i128::MAX
    } by {
        assert(interest(s, m, is_long) <= i128::MAX);
    }
    assert forall|is_long: bool| #![trigger interest(v, m, is_long)] {
        interest(v, m, is_long) <= i128::MAX && interest_in_tokens(v, m, is_long) <= i128::MAX
    } by {
        assert(interest(s, m, is_long) <= i128::MAX);
    }
    pool_value_adds_up(s, m, long_price, short_price, index_price);
    pool_value_adds_up(t, m, long_price, short_price, index_price);
    pool_value_adds_up(u, m, long_price, short_price, index_price);
    pool_value_adds_up(v, m, long_price, short_price, index_price);
    lemma_one_more_token(
        s.u128_at(Key::PositionImpactPoolAmount { market: k }) as int,
        index_price,
    );
    lemma_one_more_token(
        s.u128_at(Key::PoolAmount { market: k, token: m.long_token }) as int,
        long_price,
    );
    lemma_one_more_token(
        s.u128_at(Key::PoolAmount { market: k, token: m.short_token }) as int,
        short_price,
    );
    assert(interest(s, m, true) == interest(t, m, true));
    assert(interest(s, m, false) == interest(t, m, false));
}

/// The price of a pool share times the supply is the value of the pool, up to the
/// rounding of one unit; without shares it is a dollar.
pub proof fn shares_are_worth_the_pool(
    s: Store,
    m: MarketProps,
    long_price: int,
    short_price: int,
    index_price: int,
    supply: int,
)
    ensures
        market_utils::market_token_price(
            s,
            m,
            long_price,
            short_price,
            index_price,
            supply,
        ) matches Ok(price) ==> {
            &&& supply <= 0 ==> price == one_dollar()
            &&& supply > 0 ==> (market_utils::pool_value_result(
                s,
                m,
                long_price,
                short_price,
                index_price,
            ) matches Ok(info) && (info.pool_value >= 0 ==> price * supply <= info.pool_value
                * one_token() < (price + 1) * supply))
        },
{
    if supply > 0 {
        if let Ok(info) = market_utils::pool_value_result(
            s,
            m,
            long_price,
            short_price,
            index_price,
        ) {
            if info.pool_value >= 0 {
                math::trunc_div_is_floor(info.pool_value * one_token(), supply);
            }
        }
    }
}

/// The profit of a side by itself: the tokens of its interest at the index price
/// against its dollars, the other way round for the shorts.
pub proof fn side_profit_is_worth_less_cost(
    s: Store,
    m: MarketProps,
    index_price: int,
    is_long: bool,
)
    requires
        m.long_token != m.short_token,
        index_price >= 0,
        interest(s, m, is_long) <= i128::MAX,
        interest_in_tokens(s, m, is_long) <= i128::MAX,
    ensures
        ({
            let worth = interest_in_tokens(s, m, is_long) * index_price / one_token();
            market_utils::side_pnl(s, m, index_price, is_long) == if is_long {
                worth - interest(s, m, is_long)
            } else {
                interest(s, m, is_long) - worth
            }
        }),
{
    lemma_worth(interest_in_tokens(s, m, is_long), index_price);
}

/// The open interest of a side is what its collateral tokens hold, each counted
/// once; a side is above its cap where it has one and holds more.
pub proof fn interest_counts_each_token_once(s: Store, m: MarketProps, is_long: bool)
    ensures
        ({
            let k = m.market_token;
            let in_long = s.u128_at(Key::OpenInterest { market: k, token: m.long_token, is_long });
            let tokens_in_long = s.u128_at(
                Key::OpenInterestInTokens { market: k, token: m.long_token, is_long },
            );
            let total = market_utils::open_interest(s, m, is_long);
            let cap = s.u128_at(Key::MaxOpenInterest { market: k, is_long });
            &&& m.long_token == m.short_token ==> total == in_long
            &&& m.long_token == m.short_token ==> market_utils::open_interest_in_tokens(
                s,
                m,
                is_long,
            ) == tokens_in_long
            &&& m.long_token != m.short_token ==> total == interest(s, m, is_long)
            &&& m.long_token != m.short_token ==> market_utils::open_interest_in_tokens(
                s,
                m,
                is_long,
            ) == interest_in_tokens(s, m, is_long)
            &&& market_utils::above_oi_cap(s, m, is_long) == (cap != 0 && total > cap)
        }),
{
}

// ---------------------------------------------------------------------------
// Accrual
// ---------------------------------------------------------------------------

/// Bringing a market up to date adds the growth of funding to the amount per size
/// of its token and its side, saves the rate, and adds the growth of borrowing to
/// the factor of the side, once for each moment and only where there is interest.
/// It changes nothing else.
pub proof fn accrual_adds_the_growth(
    s: Store,
    m: MarketProps,
    is_long: bool,
    now: u64,
    a: MarketAccrual,
)
    requires
        m.long_token != m.short_token,
        s.u128_at(
            Key::CumulativeBorrowingFactorUpdatedAt { market: m.market_token, is_long },
        ) <= u64::MAX,
    ensures
        market_utils::accrued(s, m, is_long, now, a) matches Ok(t) ==> {
            let k = m.market_token;
            let long = m.long_token;
            let short = m.short_token;
            let ll = Key::FundingAmountPerSize { market: k, token: long, is_long: true };
            let ls = Key::FundingAmountPerSize { market: k, token: long, is_long: false };
            let sl = Key::FundingAmountPerSize { market: k, token: short, is_long: true };
            let ss = Key::FundingAmountPerSize { market: k, token: short, is_long: false };
            let rate = Key::SavedFundingFactorPerSecond { market: k };
            let factor = Key::CumulativeBorrowingFactor { market: k, is_long };
            let moment = Key::CumulativeBorrowingFactorUpdatedAt { market: k, is_long };
            let due = s.u128_at(moment) < now;
            &&& t.i128_at(ll) == s.i128_at(ll) + a.funding.long_token_longs
            &&& t.i128_at(ls) == s.i128_at(ls) + a.funding.long_token_shorts
            &&& t.i128_at(sl) == s.i128_at(sl) + a.funding.short_token_longs
            &&& t.i128_at(ss) == s.i128_at(ss) + a.funding.short_token_shorts
            &&& t.i128_at(rate) == a.funding.factor_per_second
            &&& t.u128_at(factor) == s.u128_at(factor) + if due && interest(s, m, is_long) > 0
                && a.borrowing > 0 {
                a.borrowing as int
            } else {
                0
            }
            &&& t.u128_at(moment) == if due {
                now as u128
            } else {
                s.u128_at(moment)
            }
            &&& forall|key: Key|
                key != factor && key != moment ==> #[trigger] t.u128_at(key) == s.u128_at(key)
            &&& forall|key: Key|
                key != ll && key != ls && key != sl && key != ss && key != rate
                    ==> #[trigger] t.i128_at(key) == s.i128_at(key)
            &&& t == (Store { words: t.words, ints: t.ints, ..s })
        },
{
}

// ---------------------------------------------------------------------------
// Price impact
// ---------------------------------------------------------------------------

/// What an impact pool holds after an impact at a price: a negative impact is
/// charged into it in tokens, rounded up; a positive one is paid out of it in
/// tokens, rounded down, as far as it reaches.
pub open spec fn impact_pool_after(pool: int, impact_usd: int, price: int) -> int {
    if price <= 0 {
        pool
    } else if impact_usd < 0 {
        pool + up((-impact_usd) * one_token(), price)
    } else if impact_usd * one_token() / price < pool {
        pool - impact_usd * one_token() / price
    } else if impact_usd == 0 {
        pool
    } else {
        0
    }
}

/// Booking an impact leaves its pool with what the impact makes of it, and
/// everything else as it was.
pub proof fn impact_is_booked_exactly(s: Store, key: Key, impact_usd: int, price: int)
    ensures
        impact_pools::impact_booked(s, key, impact_usd, price) matches Ok(t) ==> {
            &&& t.u128_at(key) == impact_pool_after(s.u128_at(key) as int, impact_usd, price)
            &&& forall|other: Key| other != key ==> #[trigger] t.u128_at(other) == s.u128_at(other)
            &&& t == (Store { words: t.words, ..s })
        },
{
    if price > 0 {
        if impact_usd < 0 {
            let owed = (-impact_usd) * one_token();
            math::ceil_div_is_least_above(owed, price);
        } else {
            math::trunc_div_is_floor(impact_usd * one_token(), price);
        }
    }
}

/// The middle of a price band, with the fraction dropped.
pub open spec fn middle(price: PriceProps) -> int {
    let sum = price.min + price.max;
    if sum < 0 {
        -((-sum) / 2)
    } else {
        sum / 2
    }
}

/// The middle price of a token is the middle of its band.
pub proof fn middle_price_is_the_middle(board: Map<Address, PriceProps>, token: Address)
    ensures
        match types::mid_price_of(board, token) {
            Ok(price) => board.dom().contains(token) && price == middle(board[token]),
            Err(Failure::PriceUnavailable) => !board.dom().contains(token),
            Err(e) => e == Failure::Overflow && board.dom().contains(token),
        },
        forall|p: PriceProps| #[trigger] p.mid() == middle(p),
{
    assert forall|p: PriceProps| #[trigger] p.mid() == middle(p) by {
        math::trunc_div_is_odd(p.min + p.max, 2);
    }
    if board.dom().contains(token) {
        let p = board[token];
        assert(p.mid() == middle(p));
    }
}

/// Whether it grows or shrinks, a position's change books its impact in the
/// market's impact pool, at the middle of the index price.
pub proof fn position_changes_book_their_impact(
    s: Store,
    positions: Map<PositionStorageKey, PositionProps>,
    p: IncreasePositionParams,
    d: DecreasePositionParams,
    q: PositionQuote,
)
    ensures
        increase_position_utils::increase(s, positions, p, q) matches Ok(i) ==> {
            let key = Key::PositionImpactPoolAmount { market: p.market.market_token };
            i.store.u128_at(key) == impact_pool_after(
                s.u128_at(key) as int,
                q.impact_usd as int,
                middle(p.index_token_price),
            )
        },
        decrease_position_utils::close(s, positions, d, q) matches Ok(c) ==> {
            let key = Key::PositionImpactPoolAmount { market: d.market.market_token };
            c.store.u128_at(key) == impact_pool_after(
                s.u128_at(key) as int,
                q.impact_usd as int,
                middle(d.index_token_price),
            )
        },
{
    middle_price_is_the_middle(Map::empty(), p.account);
    assert(p.index_token_price.mid() == middle(p.index_token_price));
    assert(d.index_token_price.mid() == middle(d.index_token_price));
    if let Ok(i) = increase_position_utils::increase(s, positions, p, q) {
        let before = increase_position_utils::position_to_increase(positions, p);
        let s1 = market_utils::accrued(s, p.market, p.is_long, p.current_time, q.accrual)->Ok_0;
        let s2 = crate::position_utils::funding_settled(s1, p.market, before)->Ok_0;
        let key = impact_pools::position_impact_key(p.market);
        assert(s2.u128_at(key) == s.u128_at(key));
        impact_is_booked_exactly(s2, key, q.impact_usd as int, p.index_token_price.mid());
    }
    if let Ok(c) = decrease_position_utils::close(s, positions, d, q) {
        let before = positions[PositionStorageKey::Position(
            decrease_position_utils::decrease_key(d),
        )];
        let s1 = market_utils::accrued(s, d.market, d.is_long, d.current_time, q.accrual)->Ok_0;
        let s2 = crate::position_utils::funding_settled(s1, d.market, before)->Ok_0;
        let key = impact_pools::position_impact_key(d.market);
        assert(s2.u128_at(key) == s.u128_at(key));
        impact_is_booked_exactly(s2, key, q.impact_usd as int, d.index_token_price.mid());
    }
}

// ---------------------------------------------------------------------------
// Swaps
// ---------------------------------------------------------------------------

/// A hop takes one token of its market in and gives the other out: what goes in
/// joins its pool, what was quoted leaves the other pool and is paid to the
/// receiver, and the impact is booked in the impact pool of the token that comes
/// out, at its middle price.  A quote of nothing changes nothing.
pub proof fn hop_trades_one_token_for_the_other(
    s: Store,
    board: Map<Address, PriceProps>,
    m: MarketProps,
    token_in: Address,
    amount_in: i128,
    receiver: Address,
    q: SwapQuote,
)
    requires
        m.long_token != m.short_token,
    ensures
        match swap_utils::hop(s, board, m, token_in, amount_in, receiver, q) {
            Ok(x) => {
                let k = m.market_token;
                let pool_in = Key::PoolAmount { market: k, token: token_in };
                let pool_out = Key::PoolAmount { market: k, token: x.token_out };
                let impact = Key::SwapImpactPoolAmount { market: k, token: x.token_out };
                &&& (token_in == m.long_token && x.token_out == m.short_token) || (token_in
                    == m.short_token && x.token_out == m.long_token)
                &&& board.dom().contains(token_in) && board.dom().contains(x.token_out)
                &&& x.amount_out == q.amount_out >= 0
                &&& q.amount_out == 0 ==> x.store == s && x.actions.len() == 0
                &&& q.amount_out > 0 ==> {
                    &&& x.store.u128_at(pool_in) == s.u128_at(pool_in) + amount_in
                    &&& x.store.u128_at(pool_out) == s.u128_at(pool_out) - q.amount_out
                    &&& x.store.u128_at(impact) == impact_pool_after(
                        s.u128_at(impact) as int,
                        q.impact_usd as int,
                        middle(board[x.token_out]),
                    )
                    &&& forall|key: Key|
                        key != pool_in && key != pool_out && key != impact
                            ==> #[trigger] x.store.u128_at(key) == s.u128_at(key)
                    &&& x.store == (Store { words: x.store.words, ..s })
                    &&& x.actions == seq![
                        Action::WithdrawFromPool {
                            market: k,
                            token: x.token_out,
                            receiver,
                            amount: q.amount_out,
                        },
                    ]
                }
            },
            Err(Failure::Swap(swap_utils::SwapError::InvalidTokenIn)) => token_in != m.long_token
                && token_in != m.short_token,
            Err(Failure::Swap(swap_utils::SwapError::NegativeOutput)) => q.amount_out < 0,
            Err(_) => token_in == m.long_token || token_in == m.short_token,
        },
{
    middle_price_is_the_middle(board, token_in);
    middle_price_is_the_middle(board, m.long_token);
    middle_price_is_the_middle(board, m.short_token);
    if let Ok(x) = swap_utils::hop(s, board, m, token_in, amount_in, receiver, q) {
        let key = Key::SwapImpactPoolAmount { market: m.market_token, token: x.token_out };
        impact_is_booked_exactly(
            s,
            key,
            q.impact_usd as int,
            types::mid_price_of(board, x.token_out)->Ok_0 as int,
        );
    }
}

/// A path is refused where it is longer than the store allows, five markets where
/// the store says nothing, or leads through a market twice; and only there.
pub proof fn paths_are_refused_for_length_and_repetition(s: Store, path: Seq<Address>)
    ensures
        ({
            let set = s.u128_at(Key::MaxSwapPathLength);
            let longest = if set == 0 {
                5
            } else {
                set as int
            };
            let repeats = exists|i: int, j: int| 0 <= i < j < path.len() && path[i] == path[j];
            match swap_utils::path_check(s, path) {
                Ok(_) => path.len() <= longest && !repeats,
                Err(Failure::Swap(swap_utils::SwapError::PathTooLong)) => path.len() > longest,
                Err(Failure::Swap(swap_utils::SwapError::DuplicateMarket)) => path.len() <= longest
                    && repeats,
                Err(_) => false,
            }
        }),
{
    if !path.no_duplicates() {
        let (i, j) = choose|i: int, j: int|
            0 <= i < path.len() && 0 <= j < path.len() && i != j && path[i] == path[j];
        if i < j {
            assert(path[i] == path[j]);
        } else {
            assert(path[j] == path[i]);
        }
    }
}

/// A swap along one market is a hop in it that pays the receiver.
pub proof fn path_of_one_market_is_a_hop(
    s: Store,
    board: Map<Address, PriceProps>,
    market: Address,
    q: SwapQuote,
    receiver: Address,
    token_in: Address,
    amount_in: i128,
)
    ensures
        swap_utils::path_swap(
            s,
            board,
            seq![market],
            seq![q],
            receiver,
            token_in,
            amount_in,
        ) matches Ok(x) ==> {
            let m = market_utils::market_at(s, market);
            &&& m is Some
            &&& swap_utils::hop(s, board, m->0, token_in, amount_in, receiver, q) == Ok::<
                swap_utils::Swap,
                Failure,
            >(x)
        },
{
    let path = seq![market];
    let quotes = seq![q];
    reveal_with_fuel(swap_utils::path_from, 3);
    if let Ok(x) = swap_utils::path_swap(s, board, path, quotes, receiver, token_in, amount_in) {
        let m = market_utils::market_at(s, market)->0;
        let y = swap_utils::hop(s, board, m, token_in, amount_in, receiver, q)->Ok_0;
        assert(y.actions + Seq::<Action>::empty() =~= y.actions);
    }
}

/// A swap along two markets is a hop in the first that pays the second market,
/// and then a hop in the second, with what came out of the first, that pays the
/// receiver.
pub proof fn path_of_two_markets_is_two_hops(
    s: Store,
    board: Map<Address, PriceProps>,
    first: Address,
    second: Address,
    q: SwapQuote,
    r: SwapQuote,
    receiver: Address,
    token_in: Address,
    amount_in: i128,
)
    ensures
        swap_utils::path_swap(
            s,
            board,
            seq![first, second],
            seq![q, r],
            receiver,
            token_in,
            amount_in,
        ) matches Ok(x) ==> {
            let m = market_utils::market_at(s, first);
            let h = swap_utils::hop(s, board, m->0, token_in, amount_in, second, q);
            let n = market_utils::market_at(h->Ok_0.store, second);
            let g = swap_utils::hop(
                h->Ok_0.store,
                board,
                n->0,
                h->Ok_0.token_out,
                h->Ok_0.amount_out,
                receiver,
                r,
            );
            &&& m is Some && n is Some
            &&& h is Ok && g is Ok
            &&& x.token_out == g->Ok_0.token_out
            &&& x.amount_out == g->Ok_0.amount_out
            &&& x.store == g->Ok_0.store
            &&& x.actions == h->Ok_0.actions + g->Ok_0.actions
        },
{
    reveal_with_fuel(swap_utils::path_from, 4);
    let path = seq![first, second];
    let quotes = seq![q, r];
    if let Ok(x) = swap_utils::path_swap(s, board, path, quotes, receiver, token_in, amount_in) {
        let m = market_utils::market_at(s, first)->0;
        let h = swap_utils::hop(s, board, m, token_in, amount_in, second, q)->Ok_0;
        let n = market_utils::market_at(h.store, second)->0;
        let g = swap_utils::hop(h.store, board, n, h.token_out, h.amount_out, receiver, r)->Ok_0;
        assert(g.actions + Seq::<Action>::empty() =~= g.actions);
        assert(x.actions =~= h.actions + g.actions);
    }
}

/// A market is what is registered under its three keys, and it takes all three.
pub proof fn markets_are_three_tokens(s: Store, market: Address)
    ensures
        ({
            let index = s.address_at(Key::MarketIndexToken { market });
            let long = s.address_at(Key::MarketLongToken { market });
            let short = s.address_at(Key::MarketShortToken { market });
            match market_utils::market_at(s, market) {
                Some(m) => m.market_token == market && index == Some(m.index_token) && long == Some(
                    m.long_token,
                ) && short == Some(m.short_token),
                None => index is None || long is None || short is None,
            }
        }),
{
}

/// A swap along one market goes through where the hop in it does.
pub proof fn paths_of_one_market_go_through(
    s: Store,
    board: Map<Address, PriceProps>,
    market: Address,
    q: SwapQuote,
    receiver: Address,
    token_in: Address,
    amount_in: i128,
)
    requires
        market_utils::market_at(s, market) matches Some(m) && swap_utils::hop(
            s,
            board,
            m,
            token_in,
            amount_in,
            receiver,
            q,
        ) is Ok,
    ensures
        swap_utils::path_swap(
            s,
            board,
            seq![market],
            seq![q],
            receiver,
            token_in,
            amount_in,
        ) is Ok,
{
    reveal_with_fuel(swap_utils::path_from, 3);
    paths_are_refused_for_length_and_repetition(s, seq![market]);
}

} // verus!
