//! Read-only views of markets, positions and swaps.

use crate::actions::Action;
use crate::data_store::{DataStore, Key, Member, Store};
use crate::failure::Failure;
use crate::market_utils;
use crate::math;
use crate::math::TOKEN_PRECISION;
use crate::order_handler;
use crate::order_handler::{Conditions, OrderBook, OrderHandler};
use crate::position_utils;
use crate::swap_utils;
use crate::swap_utils::{Swap, SwapError, SwapQuote};
use crate::types;
use crate::types::{
    Address, AdlCandidate, FundingInfo, MarketProps, PoolValueInfo, PositionFees, PositionInfo,
    PositionKey, PositionProps, PriceBoard, PriceProps, SwapEstimate,
};
use vstd::prelude::*;

verus! {

/// The reader.
pub struct Reader;

/// The number of positions that are looked at before the reader asks whether it
/// has found enough.
pub const BATCH: usize = 100;

// ---------------------------------------------------------------------------
// Markets
// ---------------------------------------------------------------------------

/// What `get_market_pool_value_info` returns.
pub open spec fn pool_value_now(
    s: Store,
    board: Map<Address, PriceProps>,
    market: Address,
) -> Result<PoolValueInfo, Failure> {
    match market_utils::registered_market(s, market) {
        Err(e) => Err(e),
        Ok(m) => match types::mid_price_of(board, m.long_token) {
            Err(e) => Err(e),
            Ok(long_price) => match types::mid_price_of(board, m.short_token) {
                Err(e) => Err(e),
                Ok(short_price) => match types::mid_price_of(board, m.index_token) {
                    Err(e) => Err(e),
                    Ok(index_price) => market_utils::pool_value_result(
                        s,
                        m,
                        long_price as int,
                        short_price as int,
                        index_price as int,
                    ),
                },
            },
        },
    }
}

/// What `get_open_interest` returns.
pub open spec fn open_interests(s: Store, market: Address) -> Result<(i128, i128), Failure> {
    match market_utils::registered_market(s, market) {
        Err(e) => Err(e),
        Ok(m) => if math::fits_unsigned(market_utils::open_interest(s, m, true))
            && math::fits_unsigned(market_utils::open_interest(s, m, false)) {
            Ok(
                (
                    math::signed(market_utils::open_interest(s, m, true) as u128),
                    math::signed(market_utils::open_interest(s, m, false) as u128),
                ),
            )
        } else {
            Err(Failure::Overflow)
        },
    }
}

/// What `get_funding_info` returns.
pub open spec fn funding_now(s: Store, market: Address) -> Result<FundingInfo, Failure> {
    match market_utils::registered_market(s, market) {
        Err(e) => Err(e),
        Ok(m) => Ok(
            FundingInfo {
                funding_factor_per_second: s.i128_at(Key::SavedFundingFactorPerSecond { market }),
                long_funding_amount_per_size: s.i128_at(
                    market_utils::funding_key(m, m.long_token, true),
                ),
                short_funding_amount_per_size: s.i128_at(
                    market_utils::funding_key(m, m.short_token, false),
                ),
            },
        ),
    }
}

// ---------------------------------------------------------------------------
// Positions
// ---------------------------------------------------------------------------

/// The fees of a position in dollars: borrowing, funding and closing, and all of
/// them together.
pub struct FeesUsd {
    pub borrowing: int,
    pub funding: int,
    pub position: int,
}

impl FeesUsd {
    /// All three together.
    pub open spec fn total(self) -> int {
        self.borrowing + self.funding + self.position
    }

    /// Every step of the sum fits its machine type.
    pub open spec fn fit(self) -> bool {
        &&& math::fits(self.borrowing)
        &&& math::fits(self.funding)
        &&& math::fits(self.position)
        &&& math::fits(self.borrowing + self.funding)
        &&& math::fits(self.total())
    }
}

/// The fees of a position in dollars at a price.
pub open spec fn fees_usd(fees: PositionFees, price: int) -> FeesUsd {
    FeesUsd {
        borrowing: market_utils::token_usd(fees.borrowing_fee_amount as int, price),
        funding: market_utils::token_usd(fees.funding_fee_amount as int, price),
        position: market_utils::token_usd(fees.position_fee_amount as int, price),
    }
}

/// The dollars that the price of a position's tokens must come to for its
/// collateral to be used up.
pub open spec fn break_even_usd(p: PositionProps, collateral_usd: int, fees: int) -> int {
    if p.is_long {
        p.size_in_usd - collateral_usd + fees
    } else {
        p.size_in_usd + collateral_usd - fees
    }
}

/// Every step of `break_even_usd` fits its machine type.
pub open spec fn break_even_fits(p: PositionProps, collateral_usd: int, fees: int) -> bool {
    &&& math::fits(
        if p.is_long {
            p.size_in_usd - collateral_usd
        } else {
            p.size_in_usd + collateral_usd
        },
    )
    &&& math::fits(break_even_usd(p, collateral_usd, fees))
}

/// The price at which a position's collateral would be used up; zero where there
/// is none.
pub open spec fn liquidation_price(p: PositionProps, collateral_usd: int, fees: int) -> int {
    if p.size_in_tokens > 0 && break_even_usd(p, collateral_usd, fees) > 0 {
        math::trunc_div(
            break_even_usd(p, collateral_usd, fees) * TOKEN_PRECISION,
            p.size_in_tokens as int,
        )
    } else {
        0
    }
}

/// A position with what it is worth, given its profit and its fees.
pub open spec fn info_of(
    p: PositionProps,
    price: int,
    pnl: (i128, i128),
    fees: PositionFees,
) -> Result<PositionInfo, Failure> {
    let f = fees_usd(fees, price);
    let collateral_usd = market_utils::token_usd(p.collateral_amount as int, price);
    let at = liquidation_price(p, collateral_usd, f.total());
    if f.fit() && math::fits(collateral_usd) && (p.size_in_tokens > 0 ==> break_even_fits(
        p,
        collateral_usd,
        f.total(),
    )) && math::fits(at) {
        Ok(
            PositionInfo {
                position: p,
                pnl_usd: pnl.0,
                uncapped_pnl_usd: pnl.1,
                borrowing_fee_usd: f.borrowing as i128,
                funding_fee_usd: f.funding as i128,
                position_fee_usd: f.position as i128,
                liquidation_price: at as i128,
            },
        )
    } else {
        Err(Failure::Overflow)
    }
}

/// What a held position is worth under given conditions.
pub open spec fn position_info_under(s: Store, held: PositionProps, c: Conditions) -> Result<
    PositionInfo,
    Failure,
> {
    match position_utils::position_pnl(held, c.index_price, held.size_in_usd as int) {
        Err(e) => Err(e),
        Ok(pnl) => match position_utils::position_fees(
            s,
            c.market,
            held,
            c.collateral_price as int,
            held.size_in_usd as int,
            false,
            false,
        ) {
            Err(e) => Err(e),
            Ok(fees) => info_of(held, c.collateral_price as int, pnl, fees),
        },
    }
}

/// What `get_position_info` returns.
pub open spec fn position_info(
    b: OrderBook,
    s: Store,
    board: Map<Address, PriceProps>,
    position: PositionKey,
) -> Result<Option<PositionInfo>, Failure> {
    match order_handler::position_at(b.positions, position) {
        None => Ok(None),
        Some(held) => match order_handler::conditions(
            s,
            board,
            held.market,
            held.collateral_token,
        ) {
            Err(e) => Err(e),
            Ok(c) => match position_info_under(s, held, c) {
                Err(e) => Err(e),
                Ok(info) => Ok(Some(info)),
            },
        },
    }
}

/// What `is_position_liquidatable` returns.
pub open spec fn liquidatable_now(
    b: OrderBook,
    s: Store,
    board: Map<Address, PriceProps>,
    position: PositionKey,
) -> Result<bool, Failure> {
    match order_handler::position_at(b.positions, position) {
        None => Ok(false),
        Some(held) => match order_handler::conditions(
            s,
            board,
            held.market,
            held.collateral_token,
        ) {
            Err(e) => Err(e),
            Ok(c) => position_utils::liquidation_test(
                s,
                held,
                c.market,
                c.collateral_price as int,
                c.index_price,
            ),
        },
    }
}

/// Computes what a position is worth, given its profit and its fees.
fn make_info(
    p: &PositionProps,
    price: i128,
    pnl_usd: i128,
    uncapped_pnl_usd: i128,
    fees: &PositionFees,
) -> (r: Result<PositionInfo, Failure>)
    ensures
        r == info_of(*p, price as int, (pnl_usd, uncapped_pnl_usd), *fees),
{
    let borrowing_fee_usd: i128 = math::mul_div_wide(
        fees.borrowing_fee_amount,
        price,
        TOKEN_PRECISION,
    )?;
    let funding_fee_usd: i128 = math::mul_div_wide(
        fees.funding_fee_amount,
        price,
        TOKEN_PRECISION,
    )?;
    let position_fee_usd: i128 = math::mul_div_wide(
        fees.position_fee_amount,
        price,
        TOKEN_PRECISION,
    )?;
    let collateral_usd: i128 = math::mul_div_wide(p.collateral_amount, price, TOKEN_PRECISION)?;
    let subtotal: i128 = math::plus(borrowing_fee_usd, funding_fee_usd)?;
    let total: i128 = math::plus(subtotal, position_fee_usd)?;
    let liquidation_price: i128 = if p.size_in_tokens > 0 {
        let numerator: i128 = if p.is_long {
            let net: i128 = math::minus(p.size_in_usd, collateral_usd)?;
            math::plus(net, total)?
        } else {
            let gross: i128 = math::plus(p.size_in_usd, collateral_usd)?;
            math::minus(gross, total)?
        };
        if numerator > 0 {
            math::mul_div_wide(numerator, TOKEN_PRECISION, p.size_in_tokens)?
        } else {
            0
        }
    } else {
        0
    };
    Ok(
        PositionInfo {
            position: *p,
            pnl_usd,
            uncapped_pnl_usd,
            borrowing_fee_usd,
            funding_fee_usd,
            position_fee_usd,
            liquidation_price,
        },
    )
}

// ---------------------------------------------------------------------------
// Candidates for auto-deleveraging
// ---------------------------------------------------------------------------

/// The profit of a position over its size, in basis points; past 32 bits the
/// largest number that fits.
pub open spec fn profit_ratio(pnl_usd: int, size_in_usd: int) -> u32 {
    let ratio = math::trunc_div(pnl_usd * 10_000, size_in_usd);
    if ratio > u32::MAX {
        u32::MAX
    } else {
        ratio as u32
    }
}

/// The candidate that a position is, if it is one: of the market side, and in
/// profit.
pub open spec fn candidate_of(
    key: PositionKey,
    held: PositionProps,
    index_price: PriceProps,
    market: Address,
    is_long: bool,
) -> Result<Option<AdlCandidate>, Failure> {
    if held.market != market || held.is_long != is_long {
        Ok(None)
    } else {
        match position_utils::position_pnl(held, index_price, held.size_in_usd as int) {
            Err(e) => Err(e),
            Ok((pnl_usd, _)) => if pnl_usd <= 0 {
                Ok(None)
            } else if held.size_in_usd <= 0 {
                Ok(
                    Some(
                        AdlCandidate {
                            key,
                            owner: held.account,
                            size_usd: 0,
                            unrealised_pnl_usd: pnl_usd as u128,
                            pnl_to_size_ratio_bps: 0,
                        },
                    ),
                )
            } else {
                Ok(
                    Some(
                        AdlCandidate {
                            key,
                            owner: held.account,
                            size_usd: held.size_in_usd as u128,
                            unrealised_pnl_usd: pnl_usd as u128,
                            pnl_to_size_ratio_bps: profit_ratio(
                                pnl_usd as int,
                                held.size_in_usd as int,
                            ),
                        },
                    ),
                )
            },
        }
    }
}

/// The candidates among the positions from place `i` on, after those already
/// found; at the start of each batch the search ends once there are enough.
pub open spec fn gathered(
    b: OrderBook,
    keys: Seq<PositionKey>,
    index_price: PriceProps,
    market: Address,
    is_long: bool,
    limit: u32,
    i: int,
    found: Seq<AdlCandidate>,
) -> Result<Seq<AdlCandidate>, Failure>
    decreases keys.len() - i,
{
    if i >= keys.len() || (i % (BATCH as int) == 0 && found.len() >= limit) {
        Ok(found)
    } else {
        match order_handler::position_at(b.positions, keys[i]) {
            None => gathered(b, keys, index_price, market, is_long, limit, i + 1, found),
            Some(held) => match candidate_of(keys[i], held, index_price, market, is_long) {
                Err(e) => Err(e),
                Ok(None) => gathered(
                    b,
                    keys,
                    index_price,
                    market,
                    is_long,
                    limit,
                    i + 1,
                    found,
                ),
                Ok(Some(c)) => gathered(
                    b,
                    keys,
                    index_price,
                    market,
                    is_long,
                    limit,
                    i + 1,
                    found.push(c),
                ),
            },
        }
    }
}

/// The place of a candidate among ranked ones: behind the last that is at least
/// as profitable.
pub open spec fn rank(ranked: Seq<AdlCandidate>, c: AdlCandidate) -> int
    decreases ranked.len(),
{
    if ranked.len() == 0 || ranked.last().pnl_to_size_ratio_bps >= c.pnl_to_size_ratio_bps {
        ranked.len() as int
    } else {
        rank(ranked.drop_last(), c)
    }
}

/// The candidates from the most to the least profitable; equally profitable ones
/// keep their order.
pub open spec fn ranked(found: Seq<AdlCandidate>) -> Seq<AdlCandidate>
    decreases found.len(),
{
    if found.len() == 0 {
        found
    } else {
        let before = ranked(found.drop_last());
        before.insert(rank(before, found.last()), found.last())
    }
}

/// What `get_adl_eligible_positions` returns: the best of the candidates on the
/// position list.
pub open spec fn eligible(
    b: OrderBook,
    s: Store,
    board: Map<Address, PriceProps>,
    market: Address,
    is_long: bool,
    limit: u32,
) -> Result<Seq<AdlCandidate>, Failure> {
    match market_utils::registered_market(s, market) {
        Err(e) => Err(e),
        Ok(m) => match types::price_of(board, m.index_token) {
            Err(e) => Err(e),
            Ok(index_price) => match gathered(
                b,
                s.positions,
                index_price,
                market,
                is_long,
                limit,
                0,
                Seq::empty(),
            ) {
                Err(e) => Err(e),
                Ok(found) => Ok(
                    ranked(found).take(
                        if found.len() > limit {
                            limit as int
                        } else {
                            found.len() as int
                        },
                    ),
                ),
            },
        },
    }
}

/// The candidate that a position is, if it is one.
fn make_candidate(
    key: &PositionKey,
    held: &PositionProps,
    index_price: &PriceProps,
    market: &Address,
    is_long: bool,
) -> (r: Result<Option<AdlCandidate>, Failure>)
    ensures
        r == candidate_of(*key, *held, *index_price, *market, is_long),
{
    if held.market != *market || held.is_long != is_long {
        return Ok(None);
    }
    let (pnl_usd, _) = position_utils::get_position_pnl_usd(held, index_price, held.size_in_usd)?;
    if pnl_usd <= 0 {
        return Ok(None);
    }
    let mut size_usd: u128 = 0;
    let mut pnl_to_size_ratio_bps: u32 = 0;
    if held.size_in_usd > 0 {
        proof {
            math::trunc_div_is_floor(pnl_usd * 10_000, held.size_in_usd as int);
        }
        size_usd = held.size_in_usd as u128;
        pnl_to_size_ratio_bps =
        match math::mul_div_wide(pnl_usd, 10_000, held.size_in_usd) {
            Ok(ratio) => if ratio < 0xFFFF_FFFF {
                ratio as u32
            } else {
                u32::MAX
            },
            Err(_) => u32::MAX,
        };
    }
    Ok(
        Some(
            AdlCandidate {
                key: *key,
                owner: held.account,
                size_usd,
                unrealised_pnl_usd: pnl_usd as u128,
                pnl_to_size_ratio_bps,
            },
        ),
    )
}

proof fn lemma_rank_bounds(ranked: Seq<AdlCandidate>, c: AdlCandidate)
    ensures
        0 <= rank(ranked, c) <= ranked.len(),
    decreases ranked.len(),
{
    if ranked.len() > 0 {
        lemma_rank_bounds(ranked.drop_last(), c);
    }
}

/// Puts a candidate in its place among ranked ones.
fn insert_ranked(list: &mut Vec<AdlCandidate>, c: AdlCandidate)
    ensures
        final(list)@ == old(list)@.insert(rank(old(list)@, c), c),
{
    let mut place: usize = list.len();
    proof {
        assert(list@.take(place as int) =~= list@);
    }
    while place > 0 && list[place - 1].pnl_to_size_ratio_bps < c.pnl_to_size_ratio_bps
        invariant
            place <= list.len(),
            rank(list@, c) == rank(list@.take(place as int), c),
        decreases place,
    {
        proof {
            assert(list@.take(place as int).drop_last() =~= list@.take(place - 1));
        }
        place = place - 1;
    }
    proof {
        let head = list@.take(place as int);
        if place > 0 {
            assert(head.last() == list@[place - 1]);
        }
        assert(rank(head, c) == place);
    }
    list.insert(place, c);
}

proof fn lemma_ranked_length(found: Seq<AdlCandidate>)
    ensures
        ranked(found).len() == found.len(),
    decreases found.len(),
{
    if found.len() > 0 {
        let before = ranked(found.drop_last());
        lemma_ranked_length(found.drop_last());
        lemma_rank_bounds(before, found.last());
    }
}

// ---------------------------------------------------------------------------
// Swap estimates
// ---------------------------------------------------------------------------

/// Where an estimate along a path has got to.
pub struct Estimate {
    pub token: Address,
    pub amount: i128,
    /// The price impact of the hops so far.
    pub impact_usd: i128,
    /// The hop at which it stands would be rejected.
    pub reverts: bool,
}

/// Whether every token of a market has a price: the index token, the long token
/// and the short token.
pub open spec fn prices_known(board: Map<Address, PriceProps>, m: MarketProps) -> Result<
    (),
    Failure,
> {
    match types::mid_price_of(board, m.index_token) {
        Err(f) => Err(f),
        Ok(_) => match types::mid_price_of(board, m.long_token) {
            Err(f) => Err(f),
            Ok(_) => match types::mid_price_of(board, m.short_token) {
                Err(f) => Err(f),
                Ok(_) => Ok(()),
            },
        },
    }
}

/// Passes when every token of a market has a price.
fn require_prices(prices: &PriceBoard, m: &MarketProps) -> (r: Result<(), Failure>)
    ensures
        r == prices_known(prices@, *m),
{
    prices.get_mid_price(&m.index_token)?;
    prices.get_mid_price(&m.long_token)?;
    prices.get_mid_price(&m.short_token)?;
    Ok(())
}

/// What the hop at place `i` of a path would do in a store.
pub open spec fn tried_hop(
    s: Store,
    board: Map<Address, PriceProps>,
    m: MarketProps,
    path: Seq<Address>,
    quotes: Seq<SwapQuote>,
    i: int,
    e: Estimate,
) -> Result<Swap, Failure> {
    if i < quotes.len() {
        swap_utils::hop(s, board, m, e.token, e.amount, path[i], quotes[i])
    } else {
        Err(Failure::Swap(SwapError::MissingQuote))
    }
}

/// The price impact up to and with the hop at place `i`, which counts where the
/// hop was quoted and its market trades the token.
pub open spec fn impact_with(
    m: MarketProps,
    quotes: Seq<SwapQuote>,
    i: int,
    e: Estimate,
) -> i128 {
    if i < quotes.len() && swap_utils::other_token(m, e.token) is Some {
        math::clamped(e.impact_usd + quotes[i].impact_usd)
    } else {
        e.impact_usd
    }
}

/// The estimate of the rest of a path, from hop `i` on: what each hop would do,
/// in the store that the hops before it leave.  It ends at the first hop that
/// would be rejected.  A market that is not registered or not priced cannot be
/// estimated.
pub open spec fn estimated_from(
    s: Store,
    board: Map<Address, PriceProps>,
    path: Seq<Address>,
    quotes: Seq<SwapQuote>,
    i: int,
    e: Estimate,
) -> Result<Estimate, Failure>
    decreases path.len() - i,
{
    if i >= path.len() {
        Ok(e)
    } else {
        match market_utils::registered_market(s, path[i]) {
            Err(f) => Err(f),
            Ok(m) => match tried_hop(s, board, m, path, quotes, i, e) {
                Err(_) => match prices_known(board, m) {
                    Err(f) => Err(f),
                    Ok(_) => Ok(
                        Estimate {
                            impact_usd: impact_with(m, quotes, i, e),
                            reverts: true,
                            ..e
                        },
                    ),
                },
                Ok(x) => estimated_from(
                    x.store,
                    board,
                    path,
                    quotes,
                    i + 1,
                    Estimate {
                        token: x.token_out,
                        amount: x.amount_out,
                        impact_usd: impact_with(m, quotes, i, e),
                        reverts: false,
                    },
                ),
            },
        }
    }
}

/// The price of an estimate: what goes in over what comes out.
pub open spec fn estimated_price(amount_in: int, amount_out: int) -> u128 {
    if amount_out > 0 {
        math::clamped(math::trunc_div(amount_in * TOKEN_PRECISION, amount_out)) as u128
    } else {
        0
    }
}

/// What `estimate_swap_output` returns for an amount that no swap can take in.
pub open spec fn vast_estimate(
    s: Store,
    board: Map<Address, PriceProps>,
    token_in: Address,
    amount_in: u128,
    market: Address,
) -> Result<SwapEstimate, Failure> {
    match market_utils::registered_market(s, market) {
        Err(f) => Err(f),
        Ok(m) => match prices_known(board, m) {
            Err(f) => Err(f),
            Ok(_) => Ok(
                SwapEstimate {
                    token_out: token_in,
                    amount_out: amount_in,
                    price_impact_usd: 0,
                    execution_price: TOKEN_PRECISION as u128,
                    reverts_if_executed: true,
                },
            ),
        },
    }
}

/// What `estimate_swap_output` returns.
pub open spec fn swap_estimate(
    s: Store,
    board: Map<Address, PriceProps>,
    token_in: Address,
    amount_in: u128,
    path: Seq<Address>,
    quotes: Seq<SwapQuote>,
) -> Result<SwapEstimate, Failure> {
    let start = Estimate {
        token: token_in,
        amount: amount_in as i128,
        impact_usd: 0,
        reverts: false,
    };
    if path.len() == 0 {
        Ok(
            SwapEstimate {
                token_out: token_in,
                amount_out: amount_in,
                price_impact_usd: 0,
                execution_price: 0,
                reverts_if_executed: true,
            },
        )
    } else if amount_in > i128::MAX {
        vast_estimate(s, board, token_in, amount_in, path[0])
    } else {
        match estimated_from(s, board, path, quotes, 0, start) {
            Err(f) => Err(f),
            Ok(e) => Ok(
                SwapEstimate {
                    token_out: e.token,
                    amount_out: math::unsigned(e.amount),
                    price_impact_usd: e.impact_usd,
                    execution_price: estimated_price(amount_in as int, e.amount as int),
                    reverts_if_executed: e.reverts || swap_utils::path_check(s, path) is Err,
                },
            ),
        }
    }
}

/// An estimate gives what a swap gives, or says that the swap would be rejected.
pub open spec fn mirrors(
    estimate: Result<SwapEstimate, Failure>,
    executed: Result<Swap, Failure>,
) -> bool {
    match executed {
        Ok(x) => estimate matches Ok(e) && e.token_out == x.token_out && e.amount_out
            == x.amount_out && !e.reverts_if_executed,
        Err(_) => estimate matches Ok(e) ==> e.reverts_if_executed,
    }
}

/// An estimate and an execution from the same place of a path come to the same:
/// the same token and amount, or a rejection.
proof fn lemma_estimate_follows_execution(
    s: Store,
    board: Map<Address, PriceProps>,
    path: Seq<Address>,
    quotes: Seq<SwapQuote>,
    receiver: Address,
    i: int,
    e: Estimate,
)
    requires
        0 <= i,
        0 <= e.amount,
        !e.reverts,
    ensures
        ({
            let end = estimated_from(s, board, path, quotes, i, e);
            &&& end matches Ok(last) ==> 0 <= last.amount
            &&& match swap_utils::path_from(
                s,
                board,
                path,
                quotes,
                receiver,
                i,
                e.token,
                e.amount,
            ) {
                Ok(x) => end matches Ok(last) && last.token == x.token_out && last.amount
                    == x.amount_out && !last.reverts,
                Err(_) => end matches Ok(last) ==> last.reverts,
            }
        }),
    decreases path.len() - i,
{
    if i < path.len() {
        if let Ok(m) = market_utils::registered_market(s, path[i]) {
            if i < quotes.len() {
                let paid_to = swap_utils::hop_receiver(path, i, receiver);
                let executed = swap_utils::hop(
                    s,
                    board,
                    m,
                    e.token,
                    e.amount,
                    paid_to,
                    quotes[i],
                );
                if let Ok(x) = tried_hop(s, board, m, path, quotes, i, e) {
                    assert(executed is Ok);
                    assert(executed->Ok_0.store == x.store);
                    let next = Estimate {
                        token: x.token_out,
                        amount: x.amount_out,
                        impact_usd: impact_with(m, quotes, i, e),
                        reverts: false,
                    };
                    lemma_estimate_follows_execution(
                        x.store,
                        board,
                        path,
                        quotes,
                        receiver,
                        i + 1,
                        next,
                    );
                }
            }
        }
    }
}

/// The price of an estimate.
fn estimate_price(amount_in: i128, amount_out: i128) -> (r: u128)
    requires
        0 <= amount_in,
    ensures
        r == estimated_price(amount_in as int, amount_out as int),
{
    if amount_out <= 0 {
        return 0;
    }
    proof {
        assert(amount_in * TOKEN_PRECISION >= 0) by (nonlinear_arith)
            requires
                0 <= amount_in,
                TOKEN_PRECISION > 0,
        ;
        math::trunc_div_is_floor(amount_in * TOKEN_PRECISION, amount_out as int);
    }
    match math::mul_div_wide(amount_in, TOKEN_PRECISION, amount_out) {
        Ok(price) => price as u128,
        Err(_) => i128::MAX as u128,
    }
}

/// What a swap along a path would come to.
fn estimate(
    ds: &DataStore,
    prices: &PriceBoard,
    token_in: Address,
    amount_in: u128,
    swap_path: &Vec<Address>,
    quotes: &Vec<SwapQuote>,
) -> (r: Result<SwapEstimate, Failure>)
    ensures
        r == swap_estimate(ds@, prices@, token_in, amount_in, swap_path@, quotes@),
{
    if swap_path.len() == 0 {
        return Ok(
            SwapEstimate {
                token_out: token_in,
                amount_out: amount_in,
                price_impact_usd: 0,
                execution_price: 0,
                reverts_if_executed: true,
            },
        );
    }
    if amount_in > i128::MAX as u128 {
        let m = market_utils::load_market_props(ds, &swap_path[0])?;
        require_prices(prices, &m)?;
        return Ok(
            SwapEstimate {
                token_out: token_in,
                amount_out: amount_in,
                price_impact_usd: 0,
                execution_price: TOKEN_PRECISION as u128,
                reverts_if_executed: true,
            },
        );
    }
    let refused = swap_utils::validate_swap_path(ds, swap_path).is_err();
    let mut token = token_in;
    let mut amount: i128 = amount_in as i128;
    let mut impact_usd: i128 = 0;
    let mut reverts = false;
    let mut work = ds.duplicate();
    let mut unused: Vec<Action> = Vec::new();
    let ghost whole = estimated_from(
        ds@,
        prices@,
        swap_path@,
        quotes@,
        0,
        Estimate { token, amount, impact_usd, reverts },
    );
    let mut i: usize = 0;
    while !reverts && i < swap_path.len()
        invariant
            i <= swap_path.len(),
            0 < swap_path.len(),
            amount_in <= i128::MAX,
            whole == estimated_from(
                ds@,
                prices@,
                swap_path@,
                quotes@,
                0,
                (Estimate {
                    token: token_in,
                    amount: amount_in as i128,
                    impact_usd: 0,
                    reverts: false,
                }),
            ),
            !reverts ==> whole == estimated_from(
                work@,
                prices@,
                swap_path@,
                quotes@,
                i as int,
                (Estimate { token, amount, impact_usd, reverts: false }),
            ),
            reverts ==> whole == Ok::<Estimate, Failure>(
                Estimate { token, amount, impact_usd, reverts: true },
            ),
        decreases
                swap_path.len() - i + if reverts {
                    0int
                } else {
                    1int
                },
    {
        let m = market_utils::load_market_props(&work, &swap_path[i])?;
        let tried = if i < quotes.len() {
            swap_utils::hop_in(
                &mut work,
                &mut unused,
                prices,
                &m,
                &token,
                amount,
                &swap_path[i],
                &quotes[i],
            )
        } else {
            Err(Failure::Swap(SwapError::MissingQuote))
        };
        let trades = token == m.long_token || token == m.short_token;
        let total: i128 = if trades && i < quotes.len() {
            math::clamped_sum(impact_usd, quotes[i].impact_usd)
        } else {
            impact_usd
        };
        match tried {
            Err(_) => {
                require_prices(prices, &m)?;
                reverts = true;
            },
            Ok((token_out, amount_out)) => {
                token = token_out;
                amount = amount_out;
                i = i + 1;
            },
        }
        impact_usd = total;
    }
    Ok(
        SwapEstimate {
            token_out: token,
            amount_out: math::to_unsigned(amount),
            price_impact_usd: impact_usd,
            execution_price: estimate_price(amount_in as i128, amount),
            reverts_if_executed: reverts || refused,
        },
    )
}

impl Reader {
    /// The market under a pool-share token.
    pub fn get_market(ds: &DataStore, market_token: Address) -> (r: Result<MarketProps, Failure>)
        ensures
            r == market_utils::registered_market(ds@, market_token),
    {
        market_utils::load_market_props(ds, &market_token)
    }

    /// What a market's pool is worth at current prices, piece by piece.
    pub fn get_market_pool_value_info(
        ds: &DataStore,
        prices: &PriceBoard,
        market_token: Address,
        maximize: bool,
    ) -> (r: Result<PoolValueInfo, Failure>)
        ensures
            r == pool_value_now(ds@, prices@, market_token),
    {
        let m = Self::get_market(ds, market_token)?;
        let long_price: i128 = prices.get_mid_price(&m.long_token)?;
        let short_price: i128 = prices.get_mid_price(&m.short_token)?;
        let index_price: i128 = prices.get_mid_price(&m.index_token)?;
        market_utils::get_pool_value(ds, &m, long_price, short_price, index_price, maximize)
    }

    /// The open interest of the long and the short side of a market.
    pub fn get_open_interest(ds: &DataStore, market_token: Address) -> (r: Result<
        (i128, i128),
        Failure,
    >)
        ensures
            r == open_interests(ds@, market_token),
    {
        let m = Self::get_market(ds, market_token)?;
        let long_oi: u128 = market_utils::get_open_interest_for_side(ds, &m, true)?;
        let short_oi: u128 = market_utils::get_open_interest_for_side(ds, &m, false)?;
        Ok((math::to_signed(long_oi), math::to_signed(short_oi)))
    }

    /// The funding state of a market: the longs in the long token, the shorts in
    /// the short token.
    pub fn get_funding_info(ds: &DataStore, market_token: Address) -> (r: Result<
        FundingInfo,
        Failure,
    >)
        ensures
            r == funding_now(ds@, market_token),
    {
        let m = Self::get_market(ds, market_token)?;
        let market = market_token;
        Ok(
            FundingInfo {
                funding_factor_per_second: ds.get_i128(
                    &Key::SavedFundingFactorPerSecond { market },
                ),
                long_funding_amount_per_size: ds.get_i128(
                    &Key::FundingAmountPerSize { market, token: m.long_token, is_long: true },
                ),
                short_funding_amount_per_size: ds.get_i128(
                    &Key::FundingAmountPerSize { market, token: m.short_token, is_long: false },
                ),
            },
        )
    }

    /// A position with its profit, its fees and the price at which its collateral
    /// would be used up.
    pub fn get_position_info(
        ds: &DataStore,
        prices: &PriceBoard,
        handler: &OrderHandler,
        position: PositionKey,
    ) -> (r: Result<Option<PositionInfo>, Failure>)
        ensures
            r == position_info(handler@, ds@, prices@, position),
    {
        let held = match handler.get_position(&position) {
            Some(held) => held,
            None => {
                return Ok(None);
            },
        };
        let (market, index_price, collateral_price) = order_handler::load_conditions(
            ds,
            prices,
            &held.market,
            &held.collateral_token,
        )?;
        let (pnl_usd, uncapped_pnl_usd) = position_utils::get_position_pnl_usd(
            &held,
            &index_price,
            held.size_in_usd,
        )?;
        let fees: PositionFees = position_utils::get_position_fees(
            ds,
            &market,
            &held,
            collateral_price,
            held.size_in_usd,
            false,
            false,
        )?;
        let info = make_info(&held, collateral_price, pnl_usd, uncapped_pnl_usd, &fees)?;
        Ok(Some(info))
    }

    /// Whether a position can be liquidated at current prices.
    pub fn is_position_liquidatable(
        ds: &DataStore,
        prices: &PriceBoard,
        handler: &OrderHandler,
        position: PositionKey,
    ) -> (r: Result<bool, Failure>)
        ensures
            r == liquidatable_now(handler@, ds@, prices@, position),
    {
        let held = match handler.get_position(&position) {
            Some(held) => held,
            None => {
                return Ok(false);
            },
        };
        let (market, index_price, collateral_price) = order_handler::load_conditions(
            ds,
            prices,
            &held.market,
            &held.collateral_token,
        )?;
        position_utils::is_liquidatable(ds, &held, &market, collateral_price, &index_price)
    }

    /// The profitable positions of a market side, from the most to the least
    /// profitable for their size, at most `limit` of them.
    pub fn get_adl_eligible_positions(
        ds: &DataStore,
        prices: &PriceBoard,
        handler: &OrderHandler,
        market: Address,
        is_long: bool,
        limit: u32,
    ) -> (r: Result<Vec<AdlCandidate>, Failure>)
        ensures
            match eligible(handler@, ds@, prices@, market, is_long, limit) {
                Ok(list) => r is Ok && r->Ok_0@ == list,
                Err(e) => r is Err && r->Err_0 == e,
            },
    {
        let m = Self::get_market(ds, market)?;
        let index_price = prices.get_primary_price(&m.index_token)?;
        let mut list: Vec<AdlCandidate> = Vec::new();
        let ghost mut found = Seq::<AdlCandidate>::empty();
        let ghost whole = gathered(
            handler@,
            ds@.positions,
            index_price,
            market,
            is_long,
            limit,
            0,
            Seq::empty(),
        );
        let count: usize = ds.position_count();
        let mut i: usize = 0;
        while i < count
            invariant
                i <= count,
                count == ds@.positions.len(),
                whole == gathered(
                    handler@,
                    ds@.positions,
                    index_price,
                    market,
                    is_long,
                    limit,
                    i as int,
                    found,
                ),
                list@ == ranked(found),
                market_utils::registered_market(ds@, market) == Ok::<MarketProps, Failure>(m),
                types::price_of(prices@, m.index_token) == Ok::<PriceProps, Failure>(index_price),
                whole == gathered(
                    handler@,
                    ds@.positions,
                    index_price,
                    market,
                    is_long,
                    limit,
                    0,
                    Seq::empty(),
                ),
            ensures
                whole == Ok::<Seq<AdlCandidate>, Failure>(found),
            decreases count - i,
        {
            proof {
                lemma_ranked_length(found);
            }
            if i % BATCH == 0 && list.len() as u64 >= limit as u64 {
                break;
            }
            let key = ds.position_at(i);
            if let Some(held) = handler.get_position(&key) {
                let made = make_candidate(&key, &held, &index_price, &market, is_long)?;
                if let Some(c) = made {
                    insert_ranked(&mut list, c);
                    proof {
                        let more = found.push(c);
                        assert(more.drop_last() =~= found);
                        found = more;
                    }
                }
            }
            i = i + 1;
        }
        let mut result: Vec<AdlCandidate> = Vec::new();
        proof {
            lemma_ranked_length(found);
        }
        let mut k: usize = 0;
        while k < list.len() && (k as u64) < limit as u64
            invariant
                k <= list.len(),
                k <= limit,
                result@ == list@.take(k as int),
            decreases list.len() - k,
        {
            result.push(list[k]);
            k = k + 1;
        }
        Ok(result)
    }

    /// What a swap along a path would come to, without making it.  `quotes` holds
    /// what the pricing module gives for each hop; with the same quotes the swap
    /// itself comes to the same, and is rejected exactly where the estimate says
    /// so or cannot be made.
    pub fn estimate_swap_output(
        ds: &DataStore,
        prices: &PriceBoard,
        token_in: Address,
        amount_in: u128,
        swap_path: &Vec<Address>,
        quotes: &Vec<SwapQuote>,
    ) -> (r: Result<SwapEstimate, Failure>)
        ensures
            r == swap_estimate(ds@, prices@, token_in, amount_in, swap_path@, quotes@),
            swap_path@.len() > 0 && amount_in <= i128::MAX ==> forall|receiver: Address|
                mirrors(
                    r,
                    #[trigger] swap_utils::path_swap(
                        ds@,
                        prices@,
                        swap_path@,
                        quotes@,
                        receiver,
                        token_in,
                        amount_in as i128,
                    ),
                ),
    {
        proof {
            if swap_path@.len() > 0 && amount_in <= i128::MAX {
                assert forall|receiver: Address|
                    mirrors(
                        swap_estimate(ds@, prices@, token_in, amount_in, swap_path@, quotes@),
                        #[trigger] swap_utils::path_swap(
                            ds@,
                            prices@,
                            swap_path@,
                            quotes@,
                            receiver,
                            token_in,
                            amount_in as i128,
                        ),
                    ) by {
                    estimates_mirror_execution(
                        ds@,
                        prices@,
                        token_in,
                        amount_in,
                        swap_path@,
                        quotes@,
                        receiver,
                    );
                }
            }
        }
        estimate(ds, prices, token_in, amount_in, swap_path, quotes)
    }
}

// ---------------------------------------------------------------------------
// Laws
// ---------------------------------------------------------------------------

/// The candidates are in order: none is less profitable than a later one.
pub open spec fn descending(list: Seq<AdlCandidate>) -> bool {
    forall|i: int, j: int|
        0 <= i <= j < list.len() ==> list[i].pnl_to_size_ratio_bps
            >= list[j].pnl_to_size_ratio_bps
}

/// The stored position under a key is this candidate.
pub open spec fn candidate_at(
    b: OrderBook,
    key: PositionKey,
    index_price: PriceProps,
    market: Address,
    is_long: bool,
    c: AdlCandidate,
) -> bool {
    order_handler::position_at(b.positions, key) matches Some(held) && candidate_of(
        key,
        held,
        index_price,
        market,
        is_long,
    ) == Ok::<Option<AdlCandidate>, Failure>(Some(c))
}

/// The candidate stands for a stored, profitable position of the market side.
pub open spec fn is_genuine(
    b: OrderBook,
    index_price: PriceProps,
    market: Address,
    is_long: bool,
    c: AdlCandidate,
) -> bool {
    candidate_at(b, c.key, index_price, market, is_long, c)
}

proof fn lemma_rank_divides(list: Seq<AdlCandidate>, c: AdlCandidate)
    requires
        descending(list),
    ensures
        0 <= rank(list, c) <= list.len(),
        forall|i: int|
            0 <= i < rank(list, c) ==> (#[trigger] list[i]).pnl_to_size_ratio_bps
                >= c.pnl_to_size_ratio_bps,
        forall|i: int|
            rank(list, c) <= i < list.len() ==> (#[trigger] list[i]).pnl_to_size_ratio_bps
                < c.pnl_to_size_ratio_bps,
    decreases list.len(),
{
    if list.len() > 0 {
        let shorter = list.drop_last();
        lemma_rank_divides(shorter, c);
        assert forall|i: int| 0 <= i < shorter.len() implies #[trigger] list[i] == shorter[i] by {}
    }
}

/// Ranking gives a list in order with exactly the same candidates.
pub proof fn ranking_sorts(found: Seq<AdlCandidate>)
    ensures
        descending(ranked(found)),
        ranked(found).to_multiset() == found.to_multiset(),
        ranked(found).len() == found.len(),
    decreases found.len(),
{
    broadcast use vstd::seq_lib::group_to_multiset_ensures;

    if found.len() > 0 {
        let before = ranked(found.drop_last());
        let c = found.last();
        ranking_sorts(found.drop_last());
        lemma_rank_divides(before, c);
        let place = rank(before, c);
        let after = before.insert(place, c);
        assert forall|i: int, j: int| 0 <= i <= j < after.len() implies
            after[i].pnl_to_size_ratio_bps >= after[j].pnl_to_size_ratio_bps by {
            let a = if i < place {
                i
            } else {
                i - 1
            };
            let d = if j < place {
                j
            } else {
                j - 1
            };
            if i != place {
                assert(after[i] == before[a]);
            }
            if j != place {
                assert(after[j] == before[d]);
            }
        }
        assert(found =~= found.drop_last().push(c));
        vstd::seq_lib::to_multiset_insert(before, place, c);
    }
}

proof fn lemma_gathered_are_genuine(
    b: OrderBook,
    keys: Seq<PositionKey>,
    index_price: PriceProps,
    market: Address,
    is_long: bool,
    limit: u32,
    i: int,
    found: Seq<AdlCandidate>,
)
    requires
        0 <= i,
        forall|k: int|
            0 <= k < found.len() ==> is_genuine(
                b,
                index_price,
                market,
                is_long,
                #[trigger] found[k],
            ),
    ensures
        gathered(b, keys, index_price, market, is_long, limit, i, found) matches Ok(all)
            ==> forall|k: int|
            0 <= k < all.len() ==> is_genuine(b, index_price, market, is_long, #[trigger] all[k]),
    decreases keys.len() - i,
{
    if i < keys.len() && !(i % (BATCH as int) == 0 && found.len() >= limit) {
        match order_handler::position_at(b.positions, keys[i]) {
            None => {
                lemma_gathered_are_genuine(
                    b,
                    keys,
                    index_price,
                    market,
                    is_long,
                    limit,
                    i + 1,
                    found,
                );
            },
            Some(held) => {
                match candidate_of(keys[i], held, index_price, market, is_long) {
                    Err(_) => {},
                    Ok(None) => {
                        lemma_gathered_are_genuine(
                            b,
                            keys,
                            index_price,
                            market,
                            is_long,
                            limit,
                            i + 1,
                            found,
                        );
                    },
                    Ok(Some(c)) => {
                        let more = found.push(c);
                        assert(is_genuine(b, index_price, market, is_long, c));
                        assert forall|k: int| 0 <= k < more.len() implies is_genuine(
                            b,
                            index_price,
                            market,
                            is_long,
                            #[trigger] more[k],
                        ) by {
                            if k < found.len() {
                                assert(more[k] == found[k]);
                            }
                        }
                        lemma_gathered_are_genuine(
                            b,
                            keys,
                            index_price,
                            market,
                            is_long,
                            limit,
                            i + 1,
                            more,
                        );
                    },
                }
            },
        }
    }
}

proof fn lemma_ranked_are_genuine(
    b: OrderBook,
    index_price: PriceProps,
    market: Address,
    is_long: bool,
    found: Seq<AdlCandidate>,
)
    requires
        forall|k: int|
            0 <= k < found.len() ==> is_genuine(
                b,
                index_price,
                market,
                is_long,
                #[trigger] found[k],
            ),
    ensures
        forall|k: int|
            0 <= k < ranked(found).len() ==> is_genuine(
                b,
                index_price,
                market,
                is_long,
                #[trigger] ranked(found)[k],
            ),
    decreases found.len(),
{
    if found.len() > 0 {
        let shorter = found.drop_last();
        let before = ranked(shorter);
        let c = found.last();
        assert forall|k: int| 0 <= k < shorter.len() implies is_genuine(
            b,
            index_price,
            market,
            is_long,
            #[trigger] shorter[k],
        ) by {
            assert(shorter[k] == found[k]);
        }
        lemma_ranked_are_genuine(b, index_price, market, is_long, shorter);
        lemma_rank_bounds(before, c);
        let place = rank(before, c);
        assert(is_genuine(b, index_price, market, is_long, found[found.len() - 1]));
        assert forall|k: int| 0 <= k < ranked(found).len() implies is_genuine(
            b,
            index_price,
            market,
            is_long,
            #[trigger] ranked(found)[k],
        ) by {
            if k < place {
                assert(ranked(found)[k] == before[k]);
            } else if k > place {
                assert(ranked(found)[k] == before[k - 1]);
            }
        }
    }
}

/// The eligible positions are at most as many as asked for, in order from the
/// most profitable down, and each is a stored position of the market side that is
/// in profit.
pub proof fn eligible_positions_are_genuine_and_ranked(
    b: OrderBook,
    s: Store,
    board: Map<Address, PriceProps>,
    market: Address,
    is_long: bool,
    limit: u32,
)
    ensures
        eligible(b, s, board, market, is_long, limit) matches Ok(list) ==> {
            let m = market_utils::market_at(s, market)->0;
            &&& list.len() <= limit
            &&& descending(list)
            &&& forall|k: int|
                0 <= k < list.len() ==> is_genuine(
                    b,
                    board[m.index_token],
                    market,
                    is_long,
                    #[trigger] list[k],
                ) && list[k].unrealised_pnl_usd > 0
        },
{
    if let Ok(list) = eligible(b, s, board, market, is_long, limit) {
        let m = market_utils::market_at(s, market)->0;
        let index_price = board[m.index_token];
        let none = Seq::<AdlCandidate>::empty();
        let keys = s.positions;
        let found = gathered(b, keys, index_price, market, is_long, limit, 0, none)->Ok_0;
        lemma_gathered_are_genuine(b, keys, index_price, market, is_long, limit, 0, none);
        lemma_ranked_are_genuine(b, index_price, market, is_long, found);
        ranking_sorts(found);
        assert forall|k: int| 0 <= k < list.len() implies is_genuine(
            b,
            index_price,
            market,
            is_long,
            #[trigger] list[k],
        ) && list[k].unrealised_pnl_usd > 0 by {
            assert(list[k] == ranked(found)[k]);
            assert(is_genuine(b, index_price, market, is_long, ranked(found)[k]));
        }
        assert forall|i: int, j: int| 0 <= i <= j < list.len() implies
            list[i].pnl_to_size_ratio_bps >= list[j].pnl_to_size_ratio_bps by {
            assert(list[i] == ranked(found)[i]);
            assert(list[j] == ranked(found)[j]);
        }
    }
}

proof fn lemma_gathering_passes_none_over(
    b: OrderBook,
    keys: Seq<PositionKey>,
    index_price: PriceProps,
    market: Address,
    is_long: bool,
    limit: u32,
    i: int,
    found: Seq<AdlCandidate>,
)
    requires
        0 <= i,
        found.len() <= i,
        keys.len() <= limit,
    ensures
        gathered(b, keys, index_price, market, is_long, limit, i, found) matches Ok(all) ==> {
            &&& forall|c: AdlCandidate| found.contains(c) ==> #[trigger] all.contains(c)
            &&& forall|k: int, c: AdlCandidate|
                i <= k < keys.len() && candidate_at(
                    b,
                    #[trigger] keys[k],
                    index_price,
                    market,
                    is_long,
                    c,
                ) ==> #[trigger] all.contains(c)
        },
    decreases keys.len() - i,
{
    if i < keys.len() {
        let next = match order_handler::position_at(b.positions, keys[i]) {
            None => found,
            Some(held) => match candidate_of(keys[i], held, index_price, market, is_long) {
                Ok(Some(c)) => found.push(c),
                _ => found,
            },
        };
        lemma_gathering_passes_none_over(
            b,
            keys,
            index_price,
            market,
            is_long,
            limit,
            i + 1,
            next,
        );
        assert forall|c: AdlCandidate| #[trigger] found.contains(c) implies next.contains(c) by {
            assert(next[found.index_of(c)] == c);
        }
        assert forall|c: AdlCandidate|
            candidate_at(b, keys[i], index_price, market, is_long, c) implies #[trigger]
        next.contains(c) by {
            assert(next.last() == c);
        }
    }
}

/// Where no more positions are listed than asked for, every listed position of
/// the market side that is in profit is among the eligible ones.
pub proof fn no_candidate_is_passed_over(
    b: OrderBook,
    s: Store,
    board: Map<Address, PriceProps>,
    market: Address,
    is_long: bool,
    limit: u32,
    key: PositionKey,
    c: AdlCandidate,
)
    requires
        s.positions_in_step(),
        s.positions.len() <= limit,
        s.lists(Member::PositionList(key)),
    ensures
        eligible(b, s, board, market, is_long, limit) matches Ok(list) ==> {
            let m = market_utils::market_at(s, market)->0;
            candidate_at(b, key, board[m.index_token], market, is_long, c) ==> list.contains(c)
        },
{
    if let Ok(list) = eligible(b, s, board, market, is_long, limit) {
        let m = market_utils::market_at(s, market)->0;
        let index_price = board[m.index_token];
        if candidate_at(b, key, index_price, market, is_long, c) {
            let none = Seq::<AdlCandidate>::empty();
            let keys = s.positions;
            let found = gathered(b, keys, index_price, market, is_long, limit, 0, none)->Ok_0;
            lemma_gathering_passes_none_over(b, keys, index_price, market, is_long, limit, 0, none);
            assert(keys.contains(key));
            assert(keys[keys.index_of(key)] == key);
            assert(found.contains(c));
            ranking_sorts(found);
            lemma_gathered_count(b, keys, index_price, market, is_long, limit, 0, none);
            assert(list =~= ranked(found));
            found.to_multiset_ensures();
            ranked(found).to_multiset_ensures();
            assert(found.to_multiset().count(c) > 0);
            assert(ranked(found).to_multiset().count(c) > 0);
        }
    }
}

proof fn lemma_gathered_count(
    b: OrderBook,
    keys: Seq<PositionKey>,
    index_price: PriceProps,
    market: Address,
    is_long: bool,
    limit: u32,
    i: int,
    found: Seq<AdlCandidate>,
)
    requires
        0 <= i,
        found.len() <= i,
        i <= keys.len(),
    ensures
        gathered(b, keys, index_price, market, is_long, limit, i, found) matches Ok(all)
            ==> all.len() <= keys.len(),
    decreases keys.len() - i,
{
    if i < keys.len() {
        let next = match order_handler::position_at(b.positions, keys[i]) {
            None => found,
            Some(held) => match candidate_of(keys[i], held, index_price, market, is_long) {
                Ok(Some(c)) => found.push(c),
                _ => found,
            },
        };
        lemma_gathered_count(b, keys, index_price, market, is_long, limit, i + 1, next);
    }
}

proof fn lemma_found_candidates_stay(
    b: OrderBook,
    keys: Seq<PositionKey>,
    index_price: PriceProps,
    market: Address,
    is_long: bool,
    limit: u32,
    i: int,
    found: Seq<AdlCandidate>,
    c: AdlCandidate,
)
    requires
        found.contains(c),
    ensures
        gathered(b, keys, index_price, market, is_long, limit, i, found) matches Ok(all)
            ==> all.contains(c),
    decreases keys.len() - i,
{
    if i < keys.len() && !(i % (BATCH as int) == 0 && found.len() >= limit) {
        let next = match order_handler::position_at(b.positions, keys[i]) {
            None => found,
            Some(held) => match candidate_of(keys[i], held, index_price, market, is_long) {
                Ok(Some(d)) => found.push(d),
                _ => found,
            },
        };
        assert(next[found.index_of(c)] == c);
        lemma_found_candidates_stay(
            b,
            keys,
            index_price,
            market,
            is_long,
            limit,
            i + 1,
            next,
            c,
        );
    }
}

proof fn lemma_first_batch_is_gathered(
    b: OrderBook,
    keys: Seq<PositionKey>,
    index_price: PriceProps,
    market: Address,
    is_long: bool,
    limit: u32,
    i: int,
    found: Seq<AdlCandidate>,
    place: int,
    c: AdlCandidate,
)
    requires
        0 <= i <= place < keys.len(),
        place < BATCH,
        limit > 0,
        i == 0 ==> found.len() == 0,
        candidate_at(b, keys[place], index_price, market, is_long, c),
    ensures
        gathered(b, keys, index_price, market, is_long, limit, i, found) matches Ok(all)
            ==> all.contains(c),
    decreases place - i,
{
    let next = match order_handler::position_at(b.positions, keys[i]) {
        None => found,
        Some(held) => match candidate_of(keys[i], held, index_price, market, is_long) {
            Ok(Some(d)) => found.push(d),
            _ => found,
        },
    };
    assert(0 < i ==> i % (BATCH as int) != 0);
    if i < place {
        lemma_first_batch_is_gathered(
            b,
            keys,
            index_price,
            market,
            is_long,
            limit,
            i + 1,
            next,
            place,
            c,
        );
    } else {
        assert(next.last() == c);
        assert(next.contains(c));
        lemma_found_candidates_stay(
            b,
            keys,
            index_price,
            market,
            is_long,
            limit,
            i + 1,
            next,
            c,
        );
    }
}

/// The most profitable come first: a candidate among the first hundred of the
/// position list, or on a list no longer than asked for, is left out only where the list
/// is full of candidates that are at least as profitable.
pub proof fn the_most_profitable_are_kept(
    b: OrderBook,
    s: Store,
    board: Map<Address, PriceProps>,
    market: Address,
    is_long: bool,
    limit: u32,
    place: int,
    c: AdlCandidate,
)
    requires
        0 <= place < s.positions.len(),
        place < 100 || s.positions.len() <= limit,
    ensures
        eligible(b, s, board, market, is_long, limit) matches Ok(list) ==> {
            let m = market_utils::market_at(s, market)->0;
            candidate_at(b, s.positions[place], board[m.index_token], market, is_long, c) ==> {
                ||| list.contains(c)
                ||| list.len() == limit && forall|k: int|
                    0 <= k < list.len() ==> (#[trigger] list[k]).pnl_to_size_ratio_bps
                        >= c.pnl_to_size_ratio_bps
            }
        },
{
    if let Ok(list) = eligible(b, s, board, market, is_long, limit) {
        let m = market_utils::market_at(s, market)->0;
        let index_price = board[m.index_token];
        let keys = s.positions;
        if limit > 0 && candidate_at(b, keys[place], index_price, market, is_long, c) {
            let none = Seq::<AdlCandidate>::empty();
            let found = gathered(b, keys, index_price, market, is_long, limit, 0, none)->Ok_0;
            if place < 100 {
                lemma_first_batch_is_gathered(
                    b,
                    keys,
                    index_price,
                    market,
                    is_long,
                    limit,
                    0,
                    none,
                    place,
                    c,
                );
            } else {
                lemma_gathering_passes_none_over(
                    b,
                    keys,
                    index_price,
                    market,
                    is_long,
                    limit,
                    0,
                    none,
                );
            }
            assert(found.contains(c));
            let order = ranked(found);
            ranking_sorts(found);
            found.to_multiset_ensures();
            order.to_multiset_ensures();
            assert(found.to_multiset().count(c) > 0);
            assert(order.to_multiset().count(c) > 0);
            assert(order.contains(c));
            let at = order.index_of(c);
            assert(order[at] == c);
            if at < list.len() {
                assert(list[at] == c);
            } else {
                assert forall|k: int| 0 <= k < list.len() implies (
                #[trigger] list[k]).pnl_to_size_ratio_bps >= c.pnl_to_size_ratio_bps by {
                    assert(list[k] == order[k]);
                }
            }
        }
    }
}

/// No two candidates stand for the same position.
pub open spec fn keys_distinct(list: Seq<AdlCandidate>) -> bool {
    forall|i: int, j: int|
        0 <= i < j < list.len() ==> (#[trigger] list[i]).key != (#[trigger] list[j]).key
}

proof fn lemma_gathered_keys_are_distinct(
    b: OrderBook,
    keys: Seq<PositionKey>,
    index_price: PriceProps,
    market: Address,
    is_long: bool,
    limit: u32,
    i: int,
    found: Seq<AdlCandidate>,
)
    requires
        keys.no_duplicates(),
        0 <= i <= keys.len(),
        keys_distinct(found),
        forall|k: int|
            0 <= k < found.len() ==> keys.take(i).contains((#[trigger] found[k]).key),
    ensures
        gathered(b, keys, index_price, market, is_long, limit, i, found) matches Ok(all)
            ==> keys_distinct(all),
    decreases keys.len() - i,
{
    if i < keys.len() && !(i % (BATCH as int) == 0 && found.len() >= limit) {
        let next = match order_handler::position_at(b.positions, keys[i]) {
            None => found,
            Some(held) => match candidate_of(keys[i], held, index_price, market, is_long) {
                Ok(Some(d)) => found.push(d),
                _ => found,
            },
        };
        let seen = keys.take(i);
        let more = keys.take(i + 1);
        assert forall|k: int| 0 <= k < next.len() implies more.contains(
            (#[trigger] next[k]).key,
        ) by {
            if k < found.len() {
                assert(next[k] == found[k]);
                assert(more[seen.index_of(found[k].key)] == found[k].key);
            } else {
                assert(more[i] == next[k].key);
            }
        }
        assert forall|x: int, y: int| 0 <= x < y < next.len() implies (
        #[trigger] next[x]).key != (#[trigger] next[y]).key by {
            assert(next[x] == found[x]);
            if y < found.len() {
                assert(next[y] == found[y]);
            } else {
                let k = seen.index_of(found[x].key);
                assert(keys[k] == found[x].key && k < i);
                assert(next[y].key == keys[i]);
            }
        }
        lemma_gathered_keys_are_distinct(
            b,
            keys,
            index_price,
            market,
            is_long,
            limit,
            i + 1,
            next,
        );
    }
}

proof fn lemma_ranked_keys_are_distinct(found: Seq<AdlCandidate>)
    requires
        keys_distinct(found),
    ensures
        keys_distinct(ranked(found)),
    decreases found.len(),
{
    if found.len() > 0 {
        let shorter = found.drop_last();
        let before = ranked(shorter);
        let c = found.last();
        assert(keys_distinct(shorter)) by {
            assert forall|x: int, y: int| 0 <= x < y < shorter.len() implies (
            #[trigger] shorter[x]).key != (#[trigger] shorter[y]).key by {
                assert(shorter[x] == found[x] && shorter[y] == found[y]);
            }
        }
        lemma_ranked_keys_are_distinct(shorter);
        ranking_sorts(shorter);
        shorter.to_multiset_ensures();
        before.to_multiset_ensures();
        assert forall|k: int| 0 <= k < before.len() implies (#[trigger] before[k]).key != c.key by {
            assert(before.contains(before[k]));
            assert(before.to_multiset().count(before[k]) > 0);
            assert(shorter.to_multiset().count(before[k]) > 0);
            assert(shorter.contains(before[k]));
            let x = shorter.index_of(before[k]);
            assert(found[x] == before[k]);
            assert(found[x].key != found[found.len() - 1].key);
        }
        lemma_rank_bounds(before, c);
        let place = rank(before, c);
        let after = before.insert(place, c);
        assert forall|x: int, y: int| 0 <= x < y < after.len() implies (
        #[trigger] after[x]).key != (#[trigger] after[y]).key by {
            let u = if x < place {
                x
            } else {
                x - 1
            };
            let v = if y < place {
                y
            } else {
                y - 1
            };
            if x != place {
                assert(after[x] == before[u]);
            }
            if y != place {
                assert(after[y] == before[v]);
            }
        }
    }
}

/// No position is eligible twice.
pub proof fn eligible_positions_are_distinct(
    b: OrderBook,
    s: Store,
    board: Map<Address, PriceProps>,
    market: Address,
    is_long: bool,
    limit: u32,
)
    requires
        s.positions_in_step(),
    ensures
        eligible(b, s, board, market, is_long, limit) matches Ok(list) ==> keys_distinct(list),
{
    if let Ok(list) = eligible(b, s, board, market, is_long, limit) {
        let m = market_utils::market_at(s, market)->0;
        let index_price = board[m.index_token];
        let none = Seq::<AdlCandidate>::empty();
        let keys = s.positions;
        let found = gathered(b, keys, index_price, market, is_long, limit, 0, none)->Ok_0;
        lemma_gathered_keys_are_distinct(b, keys, index_price, market, is_long, limit, 0, none);
        lemma_ranked_keys_are_distinct(found);
        lemma_ranked_length(found);
        assert forall|x: int, y: int| 0 <= x < y < list.len() implies (
        #[trigger] list[x]).key != (#[trigger] list[y]).key by {
            assert(list[x] == ranked(found)[x] && list[y] == ranked(found)[y]);
        }
    }
}

/// The reader and the liquidation handler agree on whether a position can be
/// liquidated, for a position that is stored under its own name.
pub proof fn reader_agrees_with_the_liquidation_handler(
    config: Option<crate::liquidation_handler::Config>,
    b: OrderBook,
    s: Store,
    board: Map<Address, PriceProps>,
    position: PositionKey,
)
    requires
        config is Some,
        order_handler::position_at(b.positions, position) matches Some(held) && held.market
            == position.market && held.collateral_token == position.collateral_token,
    ensures
        liquidatable_now(b, s, board, position) == crate::liquidation_handler::liquidatable(
            config,
            b,
            s,
            board,
            position,
        ),
{
}

/// An estimate mirrors the swap with the same quotes: where the swap goes through
/// it gives the token and the amount that come out, and where the swap is
/// rejected it says so, or finds a market that it cannot estimate.
pub proof fn estimates_mirror_execution(
    s: Store,
    board: Map<Address, PriceProps>,
    token_in: Address,
    amount_in: u128,
    path: Seq<Address>,
    quotes: Seq<SwapQuote>,
    receiver: Address,
)
    requires
        path.len() > 0,
        amount_in <= i128::MAX,
    ensures
        mirrors(
            swap_estimate(s, board, token_in, amount_in, path, quotes),
            swap_utils::path_swap(
                s,
                board,
                path,
                quotes,
                receiver,
                token_in,
                amount_in as i128,
            ),
        ),
{
    let start = Estimate {
        token: token_in,
        amount: amount_in as i128,
        impact_usd: 0,
        reverts: false,
    };
    lemma_estimate_follows_execution(s, board, path, quotes, receiver, 0, start);
}

/// An estimate is withheld only where a market of the path is not registered or
/// lacks a price.
proof fn lemma_withheld_estimates(
    s: Store,
    board: Map<Address, PriceProps>,
    path: Seq<Address>,
    quotes: Seq<SwapQuote>,
    i: int,
    e: Estimate,
)
    requires
        0 <= i,
    ensures
        estimated_from(s, board, path, quotes, i, e) matches Err(f) ==> exists|k: int|
            i <= k < path.len() && #[trigger] cannot_be_estimated(s, board, path[k], f),
    decreases path.len() - i,
{
    if i < path.len() {
        match market_utils::registered_market(s, path[i]) {
            Err(f) => {
                assert(cannot_be_estimated(s, board, path[i], f));
            },
            Ok(m) => match tried_hop(s, board, m, path, quotes, i, e) {
                Err(_) => {
                    if let Err(f) = prices_known(board, m) {
                        assert(cannot_be_estimated(s, board, path[i], f));
                    }
                },
                Ok(x) => {
                    let next = Estimate {
                        token: x.token_out,
                        amount: x.amount_out,
                        impact_usd: impact_with(m, quotes, i, e),
                        reverts: false,
                    };
                    lemma_withheld_estimates(x.store, board, path, quotes, i + 1, next);
                    if let Err(f) = estimated_from(x.store, board, path, quotes, i + 1, next) {
                        let k = choose|k: int|
                            i + 1 <= k < path.len() && #[trigger] cannot_be_estimated(
                                x.store,
                                board,
                                path[k],
                                f,
                            );
                        assert(market_utils::registered_market(x.store, path[k])
                            == market_utils::registered_market(s, path[k]));
                        assert(cannot_be_estimated(s, board, path[k], f));
                    }
                },
            },
        }
    }
}

/// A market is not registered, or one of its tokens has no price.
pub open spec fn cannot_be_estimated(
    s: Store,
    board: Map<Address, PriceProps>,
    market: Address,
    f: Failure,
) -> bool {
    match market_utils::registered_market(s, market) {
        Err(e) => f == e,
        Ok(m) => prices_known(board, m) == Err::<(), Failure>(f),
    }
}

/// An estimate is withheld only where a market of the path is not registered or
/// one of its tokens has no price.
pub proof fn estimates_are_withheld_for_want_of_facts(
    s: Store,
    board: Map<Address, PriceProps>,
    token_in: Address,
    amount_in: u128,
    path: Seq<Address>,
    quotes: Seq<SwapQuote>,
)
    ensures
        swap_estimate(s, board, token_in, amount_in, path, quotes) matches Err(f) ==> exists|k: int|
            0 <= k < path.len() && #[trigger] cannot_be_estimated(s, board, path[k], f),
{
    if path.len() > 0 {
        if amount_in > i128::MAX {
            if let Err(f) = vast_estimate(s, board, token_in, amount_in, path[0]) {
                assert(cannot_be_estimated(s, board, path[0], f));
            }
        } else {
            let start = Estimate {
                token: token_in,
                amount: amount_in as i128,
                impact_usd: 0,
                reverts: false,
            };
            lemma_withheld_estimates(s, board, path, quotes, 0, start);
        }
    }
}

} // verus!
