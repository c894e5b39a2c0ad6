//! The books of the exchange: the open interest of every market side is the sum
//! of its positions, and the lists hold exactly the positions and orders that are
//! stored.

use crate::data_store::{Key, Member, Store};
use crate::decrease_position_utils;
use crate::decrease_position_utils::DecreasePositionParams;
use crate::impact_pools;
use crate::increase_position_utils;
use crate::increase_position_utils::{IncreasePositionParams, PositionQuote};
use crate::ledger::Ledger;
use crate::market_utils;
use crate::market_utils::MarketAccrual;
use crate::math;
use crate::order_handler;
use crate::order_handler::{Conditions, Config, ExecutionQuote, OrderBook};
use crate::position_utils;
use crate::role_store::Grant;
use crate::swap_utils;
use crate::swap_utils::SwapQuote;
use crate::types::{
    Address, CreateOrderParams, MarketProps, OrderKey, OrderProps, OrderStorageKey, OrderType,
    PositionKey, PositionProps, PositionStorageKey, PriceProps,
};
use vstd::prelude::*;

verus! {

/// The side of a market in one collateral token.
pub struct Side {
    pub market: Address,
    pub token: Address,
    pub is_long: bool,
}

/// The side that a stored position is on.
pub open spec fn side_of(key: PositionStorageKey) -> Side {
    match key {
        PositionStorageKey::Position(k) => Side {
            market: k.market,
            token: k.collateral_token,
            is_long: k.is_long,
        },
    }
}

/// What a position adds to a side, in dollars or in index tokens.
pub open spec fn part_on(
    key: PositionStorageKey,
    p: PositionProps,
    side: Side,
    in_tokens: bool,
) -> int {
    if side_of(key) != side {
        0
    } else if in_tokens {
        p.size_in_tokens as int
    } else {
        p.size_in_usd as int
    }
}

/// What all positions of a side add up to, in dollars or in index tokens.
pub open spec fn total_on(
    positions: Map<PositionStorageKey, PositionProps>,
    side: Side,
    in_tokens: bool,
) -> int
    decreases positions.dom().len(),
    when positions.dom().finite()
{
    if positions.dom().len() == 0 {
        0
    } else {
        let key = positions.dom().choose();
        part_on(key, positions[key], side, in_tokens) + total_on(
            positions.remove(key),
            side,
            in_tokens,
        )
    }
}

/// The open interest that the store holds for a side is what its positions add
/// up to.
pub open spec fn interest_matches(
    s: Store,
    positions: Map<PositionStorageKey, PositionProps>,
    side: Side,
) -> bool {
    &&& s.u128_at(
        Key::OpenInterest { market: side.market, token: side.token, is_long: side.is_long },
    ) == total_on(positions, side, false)
    &&& s.u128_at(
        Key::OpenInterestInTokens { market: side.market, token: side.token, is_long: side.is_long },
    ) == total_on(positions, side, true)
}

/// A position is on both lists or, where there is none, on neither; it is stored
/// under its own key; and it has no index tokens without a size.
pub open spec fn listing_matches(
    s: Store,
    positions: Map<PositionStorageKey, PositionProps>,
    key: PositionKey,
) -> bool {
    let stored = PositionStorageKey::Position(key);
    let held = positions.dom().contains(stored);
    &&& s.lists(Member::PositionList(key)) == held
    &&& s.lists(Member::AccountPositionList(key.account, key)) == held
    &&& held ==> {
        &&& positions[stored].account == key.account
        &&& positions[stored].market == key.market
        &&& positions[stored].collateral_token == key.collateral_token
        &&& positions[stored].is_long == key.is_long
        &&& positions[stored].size_in_usd >= 0
        &&& positions[stored].size_in_usd == 0 ==> positions[stored].size_in_tokens == 0
    }
}

/// The books are in order.
pub open spec fn books_kept(s: Store, positions: Map<PositionStorageKey, PositionProps>) -> bool {
    &&& positions.dom().finite()
    &&& forall|side: Side| #[trigger] interest_matches(s, positions, side)
    &&& forall|key: PositionKey| #[trigger] listing_matches(s, positions, key)
}

/// Two stores agree on open interest and position lists.
pub open spec fn same_books(s: Store, t: Store) -> bool {
    &&& forall|market: Address, token: Address, is_long: bool|
        s.u128_at(Key::OpenInterest { market, token, is_long }) == #[trigger] t.u128_at(
            Key::OpenInterest { market, token, is_long },
        )
    &&& forall|market: Address, token: Address, is_long: bool|
        s.u128_at(Key::OpenInterestInTokens { market, token, is_long }) == #[trigger] t.u128_at(
            Key::OpenInterestInTokens { market, token, is_long },
        )
    &&& forall|key: PositionKey|
        s.lists(Member::PositionList(key)) == #[trigger] t.lists(Member::PositionList(key))
    &&& forall|account: Address, key: PositionKey|
        s.lists(Member::AccountPositionList(account, key)) == #[trigger] t.lists(
            Member::AccountPositionList(account, key),
        )
}

proof fn lemma_total_of_remove(
    positions: Map<PositionStorageKey, PositionProps>,
    key: PositionStorageKey,
    side: Side,
    in_tokens: bool,
)
    requires
        positions.dom().finite(),
        positions.dom().contains(key),
    ensures
        total_on(positions, side, in_tokens) == part_on(key, positions[key], side, in_tokens)
            + total_on(positions.remove(key), side, in_tokens),
    decreases positions.dom().len(),
{
    let first = positions.dom().choose();
    assert(positions.dom().contains(first));
    if first != key {
        let rest = positions.remove(first);
        lemma_total_of_remove(rest, key, side, in_tokens);
        lemma_total_of_remove(positions.remove(key), first, side, in_tokens);
        assert(rest.remove(key) =~= positions.remove(key).remove(first));
    }
}

proof fn lemma_total_of_insert(
    positions: Map<PositionStorageKey, PositionProps>,
    key: PositionStorageKey,
    p: PositionProps,
    side: Side,
    in_tokens: bool,
)
    requires
        positions.dom().finite(),
    ensures
        total_on(positions.insert(key, p), side, in_tokens) == total_on(
            positions,
            side,
            in_tokens,
        ) + part_on(key, p, side, in_tokens) - (if positions.dom().contains(key) {
            part_on(key, positions[key], side, in_tokens)
        } else {
            0
        }),
{
    let grown = positions.insert(key, p);
    lemma_total_of_remove(grown, key, side, in_tokens);
    if positions.dom().contains(key) {
        lemma_total_of_remove(positions, key, side, in_tokens);
        assert(grown.remove(key) =~= positions.remove(key));
    } else {
        assert(grown.remove(key) =~= positions);
    }
}

/// The books stay in order where neither they nor the positions change.
proof fn lemma_same_books(s: Store, t: Store, positions: Map<PositionStorageKey, PositionProps>)
    requires
        books_kept(s, positions),
        same_books(s, t),
    ensures
        books_kept(t, positions),
{
    assert forall|side: Side| #[trigger] interest_matches(t, positions, side) by {
        assert(interest_matches(s, positions, side));
    }
    assert forall|key: PositionKey| #[trigger] listing_matches(t, positions, key) by {
        assert(listing_matches(s, positions, key));
    }
}

/// Bringing a market up to date and settling a position leaves the books alone.
proof fn lemma_settling_keeps_the_books(
    s: Store,
    market: MarketProps,
    is_long: bool,
    now: u64,
    accrual: MarketAccrual,
    p: PositionProps,
)
    ensures
        market_utils::accrued(s, market, is_long, now, accrual) matches Ok(t) ==> {
            &&& same_books(s, t)
            &&& position_utils::funding_settled(t, market, p) matches Ok(u) ==> same_books(s, u)
        },
{
}

/// Without positions, interest and lists the books are in order.
pub proof fn empty_books_are_kept(s: Store)
    requires
        s.words == Map::<Key, u128>::empty(),
        s.members == Map::<Member, bool>::empty(),
    ensures
        books_kept(s, Map::empty()),
{
    let none = Map::<PositionStorageKey, PositionProps>::empty();
    assert forall|side: Side| #[trigger] interest_matches(s, none, side) by {}
    assert forall|key: PositionKey| #[trigger] listing_matches(s, none, key) by {}
}

/// An increase keeps the books in order: the interest grows by what the position
/// does, and a new position is listed.
pub proof fn increases_keep_the_books(
    s: Store,
    positions: Map<PositionStorageKey, PositionProps>,
    p: IncreasePositionParams,
    q: PositionQuote,
)
    requires
        books_kept(s, positions),
        p.size_delta_usd >= 0,
    ensures
        increase_position_utils::increase(s, positions, p, q) matches Ok(i) ==> books_kept(
            i.store,
            i.positions,
        ),
{
    let key = increase_position_utils::increase_key(p);
    let stored = PositionStorageKey::Position(key);
    let before = increase_position_utils::position_to_increase(positions, p);
    lemma_settling_keeps_the_books(s, p.market, p.is_long, p.current_time, q.accrual, before);
    if let Ok(i) = increase_position_utils::increase(s, positions, p, q) {
        assert(listing_matches(s, positions, key));
        assert forall|side: Side| #[trigger] interest_matches(i.store, i.positions, side) by {
            assert(interest_matches(s, positions, side));
            lemma_total_of_insert(positions, stored, i.position, side, false);
            lemma_total_of_insert(positions, stored, i.position, side, true);
        }
        if p.size_delta_usd == 0 && q.execution_price != 0 {
            math::zero_divided(q.execution_price as int);
        }
        assert forall|other: PositionKey| #[trigger]
            listing_matches(i.store, i.positions, other) by {
            assert(listing_matches(s, positions, other));
        }
    }
}

/// Booking a price impact leaves the books alone.
proof fn lemma_impact_keeps_the_books(s: Store, market: MarketProps, impact_usd: int, price: int)
    ensures
        impact_pools::impact_booked(
            s,
            impact_pools::position_impact_key(market),
            impact_usd,
            price,
        ) matches Ok(t) ==> same_books(s, t),
{
}

/// Closing a slice keeps the books in order, once the position is stored or
/// removed and taken off the lists.
proof fn lemma_shrinkage_keeps_the_books(
    s: Store,
    positions: Map<PositionStorageKey, PositionProps>,
    held: PositionProps,
    p: DecreasePositionParams,
    q: PositionQuote,
)
    requires
        books_kept(s, positions),
        p.size_delta_usd >= 0,
        ({
            let key = decrease_position_utils::decrease_key(p);
            let stored = PositionStorageKey::Position(key);
            let before = positions[stored];
            &&& positions.dom().contains(stored)
            &&& held.size_in_usd == before.size_in_usd
            &&& held.size_in_tokens == before.size_in_tokens
            &&& held.account == before.account
            &&& held.market == before.market
            &&& held.collateral_token == before.collateral_token
            &&& held.is_long == before.is_long
        }),
    ensures
        ({
            let key = decrease_position_utils::decrease_key(p);
            let stored = PositionStorageKey::Position(key);
            let size = decrease_position_utils::closed_size(positions[stored], p.size_delta_usd);
            decrease_position_utils::shrinkage(s, held, p, q, size) matches Ok(x) ==> if
            x.position.size_in_usd == 0 {
                books_kept(
                    decrease_position_utils::position_delisted(x.store, key),
                    positions.remove(stored),
                )
            } else {
                books_kept(x.store, positions.insert(stored, x.position))
            }
        }),
{
    let key = decrease_position_utils::decrease_key(p);
    let stored = PositionStorageKey::Position(key);
    let before = positions[stored];
    let size = decrease_position_utils::closed_size(before, p.size_delta_usd);
    if let Ok(x) = decrease_position_utils::shrinkage(s, held, p, q, size) {
        let closed = x.position.size_in_usd == 0;
        let store = if closed {
            decrease_position_utils::position_delisted(x.store, key)
        } else {
            x.store
        };
        let left = if closed {
            positions.remove(stored)
        } else {
            positions.insert(stored, x.position)
        };
        assert(listing_matches(s, positions, key));
        if before.size_in_usd > 0 && size == before.size_in_usd {
            math::exact_division(before.size_in_tokens as int, size as int);
            assert(size * before.size_in_tokens == before.size_in_tokens * size)
                by (nonlinear_arith);
        }
        assert forall|side: Side| #[trigger] interest_matches(store, left, side) by {
            assert(interest_matches(s, positions, side));
            if closed {
                lemma_total_of_remove(positions, stored, side, false);
                lemma_total_of_remove(positions, stored, side, true);
            } else {
                lemma_total_of_insert(positions, stored, x.position, side, false);
                lemma_total_of_insert(positions, stored, x.position, side, true);
            }
        }
        assert forall|other: PositionKey| #[trigger] listing_matches(store, left, other) by {
            assert(listing_matches(s, positions, other));
        }
    }
}

/// A decrease keeps the books in order: the interest falls by what the position
/// does, and a closed position is on no list.
pub proof fn decreases_keep_the_books(
    s: Store,
    positions: Map<PositionStorageKey, PositionProps>,
    p: DecreasePositionParams,
    q: PositionQuote,
)
    requires
        books_kept(s, positions),
        p.size_delta_usd >= 0,
    ensures
        decrease_position_utils::close(s, positions, p, q) matches Ok(c) ==> books_kept(
            c.store,
            c.positions,
        ),
{
    let before = positions[PositionStorageKey::Position(decrease_position_utils::decrease_key(p))];
    lemma_settling_keeps_the_books(s, p.market, p.is_long, p.current_time, q.accrual, before);
    if let Ok(c) = decrease_position_utils::close(s, positions, p, q) {
        let s1 = market_utils::accrued(s, p.market, p.is_long, p.current_time, q.accrual)->Ok_0;
        let s2 = position_utils::funding_settled(s1, p.market, before)->Ok_0;
        let price = p.index_token_price.mid();
        lemma_impact_keeps_the_books(s2, p.market, q.impact_usd as int, price);
        let s3 = impact_pools::impact_booked(
            s2,
            impact_pools::position_impact_key(p.market),
            q.impact_usd as int,
            price,
        )->Ok_0;
        lemma_same_books(s, s2, positions);
        lemma_same_books(s2, s3, positions);
        let held = position_utils::trackers_reset(s2, p.market, before);
        lemma_shrinkage_keeps_the_books(s3, positions, held, p, q);
    }
}

/// Swapping along a path leaves the books alone.
proof fn lemma_paths_keep_the_books(
    s: Store,
    board: Map<Address, PriceProps>,
    path: Seq<Address>,
    quotes: Seq<SwapQuote>,
    receiver: Address,
    i: int,
    token: Address,
    amount: i128,
)
    ensures
        swap_utils::path_from(s, board, path, quotes, receiver, i, token, amount) matches Ok(x)
            ==> same_books(s, x.store),
    decreases path.len() - i,
{
    if i < path.len() {
        if let Ok(m) = market_utils::registered_market(s, path[i]) {
            if i < quotes.len() {
                if let Ok(x) = swap_utils::hop(
                    s,
                    board,
                    m,
                    token,
                    amount,
                    swap_utils::hop_receiver(path, i, receiver),
                    quotes[i],
                ) {
                    lemma_paths_keep_the_books(
                        x.store,
                        board,
                        path,
                        quotes,
                        receiver,
                        i + 1,
                        x.token_out,
                        x.amount_out,
                    );
                }
            }
        }
    }
}

/// Carrying out an order keeps the books in order.
proof fn lemma_effects_keep_the_books(
    s: Store,
    positions: Map<PositionStorageKey, PositionProps>,
    board: Map<Address, PriceProps>,
    config: Config,
    order: OrderProps,
    c: Conditions,
    timestamp: u64,
    fee: u128,
    q: ExecutionQuote,
)
    requires
        books_kept(s, positions),
        order.size_delta_usd >= 0,
    ensures
        order_handler::order_effect(
            s,
            positions,
            board,
            config,
            order,
            c.market,
            c.index_price,
            c.collateral_price,
            timestamp,
            fee,
            q,
        ) matches Ok(x) ==> books_kept(x.store, x.positions),
{
    match order.order_type {
        OrderType::MarketSwap | OrderType::LimitSwap => {
            let path = order.swap_path@;
            let token = order.initial_collateral_token;
            let amount = order.collateral_delta_amount;
            lemma_paths_keep_the_books(
                s,
                board,
                path,
                q.swaps@,
                order.receiver,
                0,
                token,
                amount,
            );
            if let Ok(x) = swap_utils::path_swap(
                s,
                board,
                path,
                q.swaps@,
                order.receiver,
                token,
                amount,
            ) {
                lemma_same_books(s, x.store, positions);
            }
        },
        OrderType::MarketIncrease | OrderType::LimitIncrease | OrderType::StopIncrease => {
            let p = order_handler::increase_params(
                order,
                c.market,
                c.index_price,
                c.collateral_price,
                timestamp,
            );
            let own = order_handler::fees_overridden(s, order.market, fee);
            lemma_same_books(s, own, positions);
            increases_keep_the_books(own, positions, p, q.position);
            if let Ok(i) = increase_position_utils::increase(own, positions, p, q.position) {
                lemma_same_books(
                    i.store,
                    order_handler::fees_restored(s, i.store, order.market, fee),
                    i.positions,
                );
            }
        },
        _ => {
            let p = order_handler::decrease_params(
                order,
                c.market,
                c.index_price,
                c.collateral_price,
                timestamp,
            );
            decreases_keep_the_books(s, positions, p, q.position);
        },
    }
}

/// Executing an order keeps the books in order.
pub proof fn executions_keep_the_books(
    b: OrderBook,
    s: Store,
    roles: Set<Grant>,
    board: Map<Address, PriceProps>,
    ledger: Ledger,
    keeper: Address,
    key: OrderKey,
    q: ExecutionQuote,
)
    requires
        books_kept(s, b.positions),
        order_handler::has_order(b, key) ==> order_handler::order_at(b, key).size_delta_usd >= 0,
    ensures
        order_handler::execution(b, s, roles, board, ledger, keeper, key, q) matches Ok(x)
            ==> books_kept(x.store, x.book.positions),
{
    if let Ok(x) = order_handler::execution(b, s, roles, board, ledger, keeper, key, q) {
        let order = order_handler::order_at(b, key);
        let size = order.size_delta_usd as int;
        let counted = order_handler::volume_counted(
            s,
            order.account,
            order.market,
            ledger.sequence,
            size,
        );
        let config = b.config->0;
        let c = order_handler::conditions(
            s,
            board,
            order.market,
            order.initial_collateral_token,
        )->Ok_0;
        let fee = order_handler::tier_fee(s, order.account, order.market, ledger.sequence, size);
        lemma_same_books(s, counted, b.positions);
        lemma_effects_keep_the_books(
            counted,
            b.positions,
            board,
            config,
            order,
            c,
            ledger.timestamp,
            fee,
            q,
        );
        let e = order_handler::order_effect(
            counted,
            b.positions,
            board,
            config,
            order,
            c.market,
            c.index_price,
            c.collateral_price,
            ledger.timestamp,
            fee,
            q,
        )->Ok_0;
        lemma_same_books(e.store, x.store, e.positions);
    }
}

/// Liquidating and deleveraging a position keeps the books in order.
pub proof fn forced_closes_keep_the_books(
    b: OrderBook,
    s: Store,
    roles: Set<Grant>,
    board: Map<Address, PriceProps>,
    ledger: Ledger,
    keeper: Address,
    position: PositionKey,
    fund: Option<Address>,
    size_delta_usd: i128,
    q: PositionQuote,
)
    requires
        books_kept(s, b.positions),
        size_delta_usd >= 0,
    ensures
        order_handler::liquidation(b, s, roles, board, ledger, keeper, position, fund, q) matches Ok(
            x,
        ) ==> books_kept(x.store, x.book.positions),
        order_handler::deleveraging(
            b,
            s,
            roles,
            board,
            ledger,
            keeper,
            position,
            size_delta_usd,
            q,
        ) matches Ok(x) ==> books_kept(x.store, x.book.positions),
{
    let found = order_handler::conditions(s, board, position.market, position.collateral_token);
    if let Ok(c) = found {
        assert(listing_matches(s, b.positions, position));
        let size = b.positions[PositionStorageKey::Position(position)].size_in_usd;
        if b.positions.dom().contains(PositionStorageKey::Position(position)) {
            decreases_keep_the_books(
                s,
                b.positions,
                order_handler::forced_decrease(
                    c,
                    position.account,
                    position.collateral_token,
                    position.is_long,
                    size,
                    ledger.timestamp,
                ),
                q,
            );
        }
        decreases_keep_the_books(
            s,
            b.positions,
            order_handler::forced_decrease(
                c,
                position.account,
                position.collateral_token,
                position.is_long,
                size_delta_usd,
                ledger.timestamp,
            ),
            q,
        );
    }
}

/// Creating and cancelling orders leaves the books in order.
pub proof fn pending_orders_keep_the_books(
    b: OrderBook,
    s: Store,
    roles: Set<Grant>,
    ledger: Ledger,
    caller: Address,
    params: CreateOrderParams,
    received: i128,
    key: OrderKey,
)
    requires
        books_kept(s, b.positions),
    ensures
        order_handler::creation(b, s, ledger, caller, params, received) matches Ok(x)
            ==> books_kept(x.store, x.book.positions),
        order_handler::cancellation(b, s, roles, ledger, caller, key) matches Ok(x)
            ==> books_kept(x.store, x.book.positions),
{
    if let Ok(x) = order_handler::creation(b, s, ledger, caller, params, received) {
        lemma_same_books(s, x.store, b.positions);
    }
    if let Ok(x) = order_handler::cancellation(b, s, roles, ledger, caller, key) {
        lemma_same_books(s, x.store, b.positions);
    }
}

// ---------------------------------------------------------------------------
// Orders
// ---------------------------------------------------------------------------

/// An order is on the list of all orders and on the one of its owner, and on no
/// other; it was numbered by the store's counter; and only orders are frozen.
pub open spec fn order_matches(b: OrderBook, s: Store, key: OrderKey) -> bool {
    let held = order_handler::has_order(b, key);
    &&& s.lists(Member::OrderList(key)) == held
    &&& held ==> key.nonce <= s.nonce
    &&& b.frozen.dom().contains(OrderStorageKey::OrderFrozen(key)) ==> held
}

/// An account's list holds an order just where it is the account's.
pub open spec fn ownership_matches(
    b: OrderBook,
    s: Store,
    account: Address,
    key: OrderKey,
) -> bool {
    s.lists(Member::AccountOrderList(account, key)) == (order_handler::has_order(b, key)
        && order_handler::order_at(b, key).account == account)
}

/// The order lists are in order.
pub open spec fn orders_kept(b: OrderBook, s: Store) -> bool {
    &&& forall|key: OrderKey| #[trigger] order_matches(b, s, key)
    &&& forall|account: Address, key: OrderKey| #[trigger] ownership_matches(b, s, account, key)
}

/// Two stores agree on the order lists and the counter.
pub open spec fn same_orders(s: Store, t: Store) -> bool {
    &&& s.nonce == t.nonce
    &&& forall|key: OrderKey|
        s.lists(Member::OrderList(key)) == #[trigger] t.lists(Member::OrderList(key))
    &&& forall|account: Address, key: OrderKey|
        s.lists(Member::AccountOrderList(account, key)) == #[trigger] t.lists(
            Member::AccountOrderList(account, key),
        )
}

proof fn lemma_paths_keep_the_orders(
    s: Store,
    board: Map<Address, PriceProps>,
    path: Seq<Address>,
    quotes: Seq<SwapQuote>,
    receiver: Address,
    i: int,
    token: Address,
    amount: i128,
)
    ensures
        swap_utils::path_from(s, board, path, quotes, receiver, i, token, amount) matches Ok(x)
            ==> same_orders(s, x.store),
    decreases path.len() - i,
{
    if i < path.len() {
        if let Ok(m) = market_utils::registered_market(s, path[i]) {
            if i < quotes.len() {
                if let Ok(x) = swap_utils::hop(
                    s,
                    board,
                    m,
                    token,
                    amount,
                    swap_utils::hop_receiver(path, i, receiver),
                    quotes[i],
                ) {
                    lemma_paths_keep_the_orders(
                        x.store,
                        board,
                        path,
                        quotes,
                        receiver,
                        i + 1,
                        x.token_out,
                        x.amount_out,
                    );
                }
            }
        }
    }
}

proof fn lemma_increases_keep_the_orders(
    s: Store,
    positions: Map<PositionStorageKey, PositionProps>,
    p: IncreasePositionParams,
    q: PositionQuote,
)
    ensures
        increase_position_utils::increase(s, positions, p, q) matches Ok(i) ==> same_orders(
            s,
            i.store,
        ),
{
}

proof fn lemma_decreases_keep_the_orders(
    s: Store,
    positions: Map<PositionStorageKey, PositionProps>,
    p: DecreasePositionParams,
    q: PositionQuote,
)
    ensures
        decrease_position_utils::close(s, positions, p, q) matches Ok(c) ==> same_orders(
            s,
            c.store,
        ),
{
}

proof fn lemma_same_orders(
    b: OrderBook,
    s: Store,
    t: Store,
    positions: Map<PositionStorageKey, PositionProps>,
)
    requires
        orders_kept(b, s),
        same_orders(s, t),
    ensures
        orders_kept(OrderBook { positions, ..b }, t),
{
    let u = OrderBook { positions, ..b };
    assert forall|k: OrderKey| #[trigger] order_matches(u, t, k) by {
        assert(order_matches(b, s, k));
    }
    assert forall|a: Address, k: OrderKey| #[trigger] ownership_matches(u, t, a, k) by {
        assert(ownership_matches(b, s, a, k));
    }
}

#[verifier::rlimit(40)]
proof fn lemma_effects_keep_the_orders(
    s: Store,
    positions: Map<PositionStorageKey, PositionProps>,
    board: Map<Address, PriceProps>,
    config: Config,
    order: OrderProps,
    c: Conditions,
    timestamp: u64,
    fee: u128,
    q: ExecutionQuote,
)
    ensures
        order_handler::order_effect(
            s,
            positions,
            board,
            config,
            order,
            c.market,
            c.index_price,
            c.collateral_price,
            timestamp,
            fee,
            q,
        ) matches Ok(x) ==> same_orders(s, x.store),
{
    match order.order_type {
        OrderType::MarketSwap | OrderType::LimitSwap => {
            lemma_paths_keep_the_orders(
                s,
                board,
                order.swap_path@,
                q.swaps@,
                order.receiver,
                0,
                order.initial_collateral_token,
                order.collateral_delta_amount,
            );
        },
        OrderType::MarketIncrease | OrderType::LimitIncrease | OrderType::StopIncrease => {
            let grow = order_handler::increase_params(
                order,
                c.market,
                c.index_price,
                c.collateral_price,
                timestamp,
            );
            let own = order_handler::fees_overridden(s, order.market, fee);
            lemma_increases_keep_the_orders(own, positions, grow, q.position);
        },
        _ => {
            let shrink = order_handler::decrease_params(
                order,
                c.market,
                c.index_price,
                c.collateral_price,
                timestamp,
            );
            lemma_decreases_keep_the_orders(s, positions, shrink, q.position);
        },
    }
}

/// A handler without orders, on a store without lists, has its order lists in
/// order.
pub proof fn empty_order_lists_are_kept(b: OrderBook, s: Store)
    requires
        b.orders == Map::<OrderStorageKey, OrderProps>::empty(),
        b.frozen == Map::<OrderStorageKey, bool>::empty(),
        s.members == Map::<Member, bool>::empty(),
    ensures
        orders_kept(b, s),
{
}

/// Where the order lists are in order, every order was numbered by the store's
/// counter, and no frozen flag waits for an order that is still to come.
pub proof fn kept_orders_are_numbered(b: OrderBook, s: Store)
    requires
        orders_kept(b, s),
    ensures
        order_handler::numbered(b, s),
        forall|key: OrderKey|
            key.nonce > s.nonce ==> !#[trigger] b.frozen.dom().contains(
                OrderStorageKey::OrderFrozen(key),
            ),
{
    assert forall|key: OrderKey| #[trigger] order_handler::has_order(b, key) implies key.nonce
        <= s.nonce by {
        assert(order_matches(b, s, key));
    }
    assert forall|key: OrderKey| key.nonce > s.nonce implies !#[trigger] b.frozen.dom().contains(
        OrderStorageKey::OrderFrozen(key),
    ) by {
        assert(order_matches(b, s, key));
    }
}

/// Creating, cancelling, updating and freezing orders keeps the order lists in
/// order.
pub proof fn pending_orders_keep_the_order_lists(
    b: OrderBook,
    s: Store,
    roles: Set<Grant>,
    ledger: Ledger,
    caller: Address,
    params: CreateOrderParams,
    received: i128,
    key: OrderKey,
    size_delta_usd: i128,
    acceptable_price: i128,
    trigger_price: i128,
    min_output_amount: i128,
)
    requires
        orders_kept(b, s),
    ensures
        order_handler::creation(b, s, ledger, caller, params, received) matches Ok(x)
            ==> orders_kept(x.book, x.store),
        order_handler::cancellation(b, s, roles, ledger, caller, key) matches Ok(x)
            ==> orders_kept(x.book, x.store),
        order_handler::updated_book(
            b,
            ledger,
            caller,
            key,
            size_delta_usd,
            acceptable_price,
            trigger_price,
            min_output_amount,
        ) matches Ok(u) ==> orders_kept(u, s),
        order_handler::frozen_book(b, roles, ledger, caller, key) matches Ok(f) ==> orders_kept(
            f,
            s,
        ),
{
    if let Ok(x) = order_handler::creation(b, s, ledger, caller, params, received) {
        assert forall|k: OrderKey| #[trigger] order_matches(x.book, x.store, k) by {
            assert(order_matches(b, s, k));
        }
        assert forall|a: Address, k: OrderKey| #[trigger]
            ownership_matches(x.book, x.store, a, k) by {
            assert(ownership_matches(b, s, a, k));
            assert(order_matches(b, s, k));
        }
    }
    if let Ok(x) = order_handler::cancellation(b, s, roles, ledger, caller, key) {
        assert forall|k: OrderKey| #[trigger] order_matches(x.book, x.store, k) by {
            assert(order_matches(b, s, k));
        }
        assert forall|a: Address, k: OrderKey| #[trigger]
            ownership_matches(x.book, x.store, a, k) by {
            assert(ownership_matches(b, s, a, k));
        }
    }
    if let Ok(u) = order_handler::updated_book(
        b,
        ledger,
        caller,
        key,
        size_delta_usd,
        acceptable_price,
        trigger_price,
        min_output_amount,
    ) {
        assert forall|k: OrderKey| #[trigger] order_matches(u, s, k) by {
            assert(order_matches(b, s, k));
        }
        assert forall|a: Address, k: OrderKey| #[trigger] ownership_matches(u, s, a, k) by {
            assert(ownership_matches(b, s, a, k));
        }
    }
    if let Ok(f) = order_handler::frozen_book(b, roles, ledger, caller, key) {
        assert forall|k: OrderKey| #[trigger] order_matches(f, s, k) by {
            assert(order_matches(b, s, k));
        }
        assert forall|a: Address, k: OrderKey| #[trigger] ownership_matches(f, s, a, k) by {
            assert(ownership_matches(b, s, a, k));
        }
    }
}

/// Executing an order keeps the order lists in order.
pub proof fn executions_keep_the_order_lists(
    b: OrderBook,
    s: Store,
    roles: Set<Grant>,
    board: Map<Address, PriceProps>,
    ledger: Ledger,
    keeper: Address,
    key: OrderKey,
    q: ExecutionQuote,
)
    requires
        orders_kept(b, s),
    ensures
        order_handler::execution(b, s, roles, board, ledger, keeper, key, q) matches Ok(x)
            ==> orders_kept(x.book, x.store),
{
    if let Ok(x) = order_handler::execution(b, s, roles, board, ledger, keeper, key, q) {
        let order = order_handler::order_at(b, key);
        let size = order.size_delta_usd as int;
        let counted = order_handler::volume_counted(
            s,
            order.account,
            order.market,
            ledger.sequence,
            size,
        );
        let c = order_handler::conditions(
            s,
            board,
            order.market,
            order.initial_collateral_token,
        )->Ok_0;
        let fee = order_handler::tier_fee(s, order.account, order.market, ledger.sequence, size);
        lemma_effects_keep_the_orders(
            counted,
            b.positions,
            board,
            b.config->0,
            order,
            c,
            ledger.timestamp,
            fee,
            q,
        );
        let e = order_handler::order_effect(
            counted,
            b.positions,
            board,
            b.config->0,
            order,
            c.market,
            c.index_price,
            c.collateral_price,
            ledger.timestamp,
            fee,
            q,
        )->Ok_0;
        assert forall|k: OrderKey| #[trigger] order_matches(x.book, x.store, k) by {
            assert(order_matches(b, s, k));
            assert(e.store.lists(Member::OrderList(k)) == s.lists(Member::OrderList(k)));
        }
        assert forall|a: Address, k: OrderKey| #[trigger]
            ownership_matches(x.book, x.store, a, k) by {
            assert(ownership_matches(b, s, a, k));
            assert(e.store.lists(Member::AccountOrderList(a, k)) == s.lists(
                Member::AccountOrderList(a, k),
            ));
        }
    }
}

/// Liquidating and deleveraging positions keeps the order lists in order.
pub proof fn forced_closes_keep_the_order_lists(
    b: OrderBook,
    s: Store,
    roles: Set<Grant>,
    board: Map<Address, PriceProps>,
    ledger: Ledger,
    keeper: Address,
    position: PositionKey,
    fund: Option<Address>,
    size_delta_usd: i128,
    q: PositionQuote,
)
    requires
        orders_kept(b, s),
    ensures
        order_handler::liquidation(b, s, roles, board, ledger, keeper, position, fund, q) matches Ok(
            x,
        ) ==> orders_kept(x.book, x.store),
        order_handler::deleveraging(
            b,
            s,
            roles,
            board,
            ledger,
            keeper,
            position,
            size_delta_usd,
            q,
        ) matches Ok(x) ==> orders_kept(x.book, x.store),
{
    let found = order_handler::conditions(s, board, position.market, position.collateral_token);
    if let Ok(c) = found {
        let size = b.positions[PositionStorageKey::Position(position)].size_in_usd;
        let whole = order_handler::forced_decrease(
            c,
            position.account,
            position.collateral_token,
            position.is_long,
            size,
            ledger.timestamp,
        );
        let part = DecreasePositionParams { size_delta_usd, ..whole };
        lemma_decreases_keep_the_orders(s, b.positions, whole, q);
        lemma_decreases_keep_the_orders(s, b.positions, part, q);
        if let Ok(x) = decrease_position_utils::close(s, b.positions, whole, q) {
            lemma_same_orders(b, s, x.store, x.positions);
        }
        if let Ok(x) = decrease_position_utils::close(s, b.positions, part, q) {
            lemma_same_orders(b, s, x.store, x.positions);
        }
    }
}

} // verus!
