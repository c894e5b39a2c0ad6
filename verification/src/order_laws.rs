//! What happens to orders, and to positions by way of orders and keepers, in
//! plain terms of what was asked for and what comes of it.

use crate::actions::{Action, Event};
use crate::data_store::{Key, Member, Store};
use crate::decrease_position_utils;
use crate::decrease_position_utils::DecreasePositionParams;
use crate::failure::Failure;
use crate::increase_position_utils;
use crate::increase_position_utils::{IncreasePositionParams, PositionQuote};
use crate::ledger::Ledger;
use crate::market_laws::{markets_are_three_tokens, middle, middle_price_is_the_middle};
use crate::market_utils;
use crate::math;
use crate::order_handler;
use crate::order_handler::{Error, ExecutionQuote, OrderBook};
use crate::position_laws::{one_dollar, one_token};
use crate::position_utils;
use crate::role_store::{Grant, Role};
use crate::swap_utils;
use crate::types;
use crate::types::{
    Address, CreateOrderParams, OrderKey, OrderProps, OrderStorageKey, OrderType, PositionKey,
    PositionProps, PositionStorageKey, PriceProps,
};
use vstd::prelude::*;

verus! {

/// The orders that come with tokens of their own.
pub open spec fn comes_with_tokens(t: OrderType) -> bool {
    t == OrderType::MarketIncrease || t == OrderType::LimitIncrease || t == OrderType::StopIncrease
        || t == OrderType::MarketSwap || t == OrderType::LimitSwap
}

/// The orders that make a position grow.
pub open spec fn grows(t: OrderType) -> bool {
    t == OrderType::MarketIncrease || t == OrderType::LimitIncrease || t == OrderType::StopIncrease
}

/// The orders that trade one token for another.
pub open spec fn trades(t: OrderType) -> bool {
    t == OrderType::MarketSwap || t == OrderType::LimitSwap
}

// ---------------------------------------------------------------------------
// Creation
// ---------------------------------------------------------------------------

/// A created order is what was asked for, by the one who asked, with the tokens
/// that arrived for it where it comes with tokens.  It is numbered one past the
/// last, it is on both lists, and it is announced.  An order is refused for a fee
/// that is too small, a path that is too long or repeats itself, or for want of
/// tokens; and for nothing else that its owner could mend.
pub proof fn creation_stores_what_was_asked_for(
    b: OrderBook,
    s: Store,
    ledger: Ledger,
    caller: Address,
    params: CreateOrderParams,
    received: i128,
)
    ensures
        ({
            let least = s.u128_at(Key::MinExecutionFee);
            let set = s.u128_at(Key::MaxSwapPathLength);
            let longest = if set == 0 {
                5
            } else {
                set as int
            };
            let path = params.swap_path@;
            let cheap = params.execution_fee < least && least > 0;
            let long = path.len() > longest;
            let empty = comes_with_tokens(params.order_type) && received <= 0;
            match order_handler::creation(b, s, ledger, caller, params, received) {
                Ok(c) => {
                    let stored = OrderStorageKey::Order(c.key);
                    let order = c.book.orders[stored];
                    &&& ledger.signers@.contains(caller)
                    &&& b.config is Some
                    &&& !cheap && !long && path.no_duplicates() && !empty
                    &&& c.key.nonce == s.nonce + 1
                    &&& c.store.nonce == s.nonce + 1
                    &&& c.book.orders == b.orders.insert(stored, order)
                    &&& c.book == (OrderBook { orders: c.book.orders, ..b })
                    &&& order.account == caller
                    &&& order.receiver == params.receiver
                    &&& order.market == params.market
                    &&& order.initial_collateral_token == params.initial_collateral_token
                    &&& order.swap_path == params.swap_path
                    &&& order.size_delta_usd == params.size_delta_usd
                    &&& order.collateral_delta_amount == if comes_with_tokens(params.order_type) {
                        received
                    } else {
                        params.collateral_delta_amount
                    }
                    &&& order.trigger_price == params.trigger_price
                    &&& order.acceptable_price == params.acceptable_price
                    &&& order.execution_fee == params.execution_fee
                    &&& order.min_output_amount == params.min_output_amount
                    &&& order.order_type == params.order_type
                    &&& order.is_long == params.is_long
                    &&& order.updated_at_time == ledger.timestamp
                    &&& c.store.members == s.members.insert(Member::OrderList(c.key), true).insert(
                        Member::AccountOrderList(caller, c.key),
                        true,
                    )
                    &&& c.store.words == s.words && c.store.ints == s.ints && c.store.addresses
                        == s.addresses
                    &&& c.actions == seq![
                        Action::Publish(
                            Event::OrderCreated {
                                key: c.key,
                                account: caller,
                                market: params.market,
                            },
                        ),
                    ]
                },
                Err(Failure::MissingAuthorisation) => !ledger.signers@.contains(caller),
                Err(Failure::Order(Error::NotInitialized)) => b.config is None,
                Err(Failure::Order(Error::InsufficientExecutionFee)) => cheap,
                Err(Failure::Order(Error::SwapPathTooLong)) => !cheap && long,
                Err(Failure::Order(Error::DuplicateMarketInPath)) => !cheap && !long
                    && !path.no_duplicates(),
                Err(Failure::Order(Error::ZeroCollateral)) => !cheap && !long
                    && path.no_duplicates() && empty,
                Err(e) => e == Failure::Overflow && s.nonce == u64::MAX,
            }
        }),
{
}

// ---------------------------------------------------------------------------
// Cancelling, updating, freezing
// ---------------------------------------------------------------------------

/// A cancelled order is gone, with its frozen flag and its places on the lists,
/// and everything else stays.  Its owner gets back the tokens that came with it.
/// Its owner and the order keepers may cancel it, nobody else.
pub proof fn cancellation_refunds_the_owner(
    b: OrderBook,
    s: Store,
    roles: Set<Grant>,
    ledger: Ledger,
    caller: Address,
    key: OrderKey,
)
    ensures
        ({
            let stored = OrderStorageKey::Order(key);
            let order = b.orders[stored];
            let may = caller == order.account || roles.contains(
                Grant { account: caller, role: Role::OrderKeeper },
            );
            match order_handler::cancellation(b, s, roles, ledger, caller, key) {
                Ok(x) => {
                    let done = Action::Publish(
                        Event::OrderCancelled { key, account: order.account },
                    );
                    &&& ledger.signers@.contains(caller)
                    &&& b.orders.dom().contains(stored)
                    &&& may
                    &&& x.book.orders == b.orders.remove(stored)
                    &&& x.book.frozen == b.frozen.remove(OrderStorageKey::OrderFrozen(key))
                    &&& x.book == (OrderBook {
                        orders: x.book.orders,
                        frozen: x.book.frozen,
                        ..b
                    })
                    &&& x.store.members == s.members.remove(Member::OrderList(key)).remove(
                        Member::AccountOrderList(order.account, key),
                    )
                    &&& x.store == (Store { members: x.store.members, ..s })
                    &&& x.actions == if comes_with_tokens(order.order_type)
                        && order.collateral_delta_amount > 0 {
                        seq![
                            Action::VaultTransferOut {
                                vault: b.config->0.order_vault,
                                token: order.initial_collateral_token,
                                receiver: order.account,
                                amount: order.collateral_delta_amount,
                            },
                            done,
                        ]
                    } else {
                        seq![done]
                    }
                },
                Err(Failure::MissingAuthorisation) => !ledger.signers@.contains(caller),
                Err(Failure::Order(Error::NotInitialized)) => b.config is None,
                Err(Failure::Order(Error::OrderNotFound)) => !b.orders.dom().contains(stored),
                Err(e) => e == Failure::Order(Error::Unauthorized) && !may,
            }
        }),
{
}

/// An update puts what the owner asks for into the order, stamps it and thaws it;
/// nobody but the owner may.
pub proof fn update_sets_what_the_owner_asks_for(
    b: OrderBook,
    ledger: Ledger,
    caller: Address,
    key: OrderKey,
    size_delta_usd: i128,
    acceptable_price: i128,
    trigger_price: i128,
    min_output_amount: i128,
)
    ensures
        ({
            let stored = OrderStorageKey::Order(key);
            let order = b.orders[stored];
            match order_handler::updated_book(
                b,
                ledger,
                caller,
                key,
                size_delta_usd,
                acceptable_price,
                trigger_price,
                min_output_amount,
            ) {
                Ok(u) => {
                    let now = u.orders[stored];
                    &&& ledger.signers@.contains(caller)
                    &&& b.orders.dom().contains(stored)
                    &&& caller == order.account
                    &&& u.orders == b.orders.insert(stored, now)
                    &&& u.frozen == b.frozen.remove(OrderStorageKey::OrderFrozen(key))
                    &&& u == (OrderBook { orders: u.orders, frozen: u.frozen, ..b })
                    &&& now.size_delta_usd == size_delta_usd
                    &&& now.acceptable_price == acceptable_price
                    &&& now.trigger_price == trigger_price
                    &&& now.min_output_amount == min_output_amount
                    &&& now.updated_at_time == ledger.timestamp
                },
                Err(Failure::MissingAuthorisation) => !ledger.signers@.contains(caller),
                Err(Failure::Order(Error::OrderNotFound)) => !b.orders.dom().contains(stored),
                Err(e) => e == Failure::Order(Error::Unauthorized) && caller != order.account,
            }
        }),
{
}

/// An order keeper freezes an order that exists, and changes nothing else.
pub proof fn freezing_sets_the_flag(
    b: OrderBook,
    roles: Set<Grant>,
    ledger: Ledger,
    keeper: Address,
    key: OrderKey,
)
    ensures
        match order_handler::frozen_book(b, roles, ledger, keeper, key) {
            Ok(f) => {
                &&& ledger.signers@.contains(keeper)
                &&& roles.contains(Grant { account: keeper, role: Role::OrderKeeper })
                &&& b.orders.dom().contains(OrderStorageKey::Order(key))
                &&& f.frozen == b.frozen.insert(OrderStorageKey::OrderFrozen(key), true)
                &&& f == (OrderBook { frozen: f.frozen, ..b })
            },
            Err(Failure::MissingAuthorisation) => !ledger.signers@.contains(keeper),
            Err(Failure::Order(Error::NotInitialized)) => b.config is None,
            Err(Failure::Order(Error::Unauthorized)) => !roles.contains(
                Grant { account: keeper, role: Role::OrderKeeper },
            ),
            Err(e) => e == Failure::Order(Error::OrderNotFound) && !b.orders.dom().contains(
                OrderStorageKey::Order(key),
            ),
        },
{
}

// ---------------------------------------------------------------------------
// Volume and fee tiers
// ---------------------------------------------------------------------------

/// The store with the volume of an order counted: a window of more than thirty
/// days, at five seconds a ledger, starts over with the order.
pub open spec fn with_volume(
    s: Store,
    account: Address,
    market: Address,
    sequence: u32,
    size: int,
) -> Store {
    let start = Key::TraderVolumeWindowStart { account, market };
    let volume = Key::TraderVolume { account, market };
    let traded = if size > 0 {
        size
    } else {
        0
    };
    if sequence - s.u128_at(start) > 518_400 {
        s.with_u128(start, sequence as u128).with_u128(volume, 0).with_u128(
            volume,
            traded as u128,
        )
    } else if s.u128_at(volume) + traded > u128::MAX {
        s.with_u128(volume, u128::MAX)
    } else {
        s.with_u128(volume, (s.u128_at(volume) + traded) as u128)
    }
}

/// An order's volume is added to what its owner has traded in the market within
/// thirty days, and stands alone once they have passed.
pub proof fn volume_is_counted_for_thirty_days(
    s: Store,
    account: Address,
    market: Address,
    sequence: u32,
    size: int,
)
    requires
        s.u128_at(Key::TraderVolumeWindowStart { account, market }) <= u32::MAX,
        size <= i128::MAX,
    ensures
        order_handler::volume_counted(s, account, market, sequence, size) == with_volume(
            s,
            account,
            market,
            sequence,
            size,
        ),
{
    assert(order_handler::volume_counted(s, account, market, sequence, size) =~= with_volume(
        s,
        account,
        market,
        sequence,
        size,
    ));
}

/// The tier is among the first five, it and every one below it but the first has
/// a threshold, the volume is at least its own, and it sets a fee.
pub open spec fn earns(s: Store, market: Address, volume: u128, tier: u32) -> bool {
    &&& tier < 5
    &&& forall|t: u32|
        0 < t <= tier ==> #[trigger] s.u128_at(
            Key::FeeTierVolumeThreshold { market, tier: t },
        ) != 0
    &&& volume >= s.u128_at(Key::FeeTierVolumeThreshold { market, tier })
    &&& s.u128_at(Key::FeeTierPositionFeeFactor { market, tier }) > 0
}

proof fn lemma_best_fee(s: Store, market: Address, volume: u128, tier: u32, best: u128)
    requires
        tier <= 5,
        forall|t: u32|
            0 < t < tier ==> #[trigger] s.u128_at(
                Key::FeeTierVolumeThreshold { market, tier: t },
            ) != 0,
    ensures
        ({
            let fee = order_handler::best_fee(s, market, volume, tier, best);
            &&& fee == best || exists|t: u32|
                tier <= t && #[trigger] earns(s, market, volume, t) && fee == s.u128_at(
                    Key::FeeTierPositionFeeFactor { market, tier: t },
                )
            &&& best > 0 ==> 0 < fee <= best
            &&& forall|t: u32|
                tier <= t && #[trigger] earns(s, market, volume, t) ==> 0 < fee <= s.u128_at(
                    Key::FeeTierPositionFeeFactor { market, tier: t },
                )
        }),
    decreases 5 - tier,
{
    if tier < 5 && order_handler::tier_defined(s, market, tier) {
        let fee = s.u128_at(Key::FeeTierPositionFeeFactor { market, tier });
        let reached = order_handler::tier_reached(s, market, volume, tier);
        let next = if reached && (best == 0 || fee < best) {
            fee
        } else {
            best
        };
        lemma_best_fee(s, market, volume, (tier + 1) as u32, next);
        if reached {
            assert(earns(s, market, volume, tier));
        }
        let last = order_handler::best_fee(s, market, volume, tier, best);
        assert forall|t: u32| tier <= t && #[trigger] earns(s, market, volume, t) implies 0 < last
            <= s.u128_at(Key::FeeTierPositionFeeFactor { market, tier: t }) by {
            if t == tier {
                assert(reached);
            }
        }
    } else if tier < 5 {
        assert forall|t: u32| tier <= t implies !#[trigger] earns(s, market, volume, t) by {
            assert(s.u128_at(Key::FeeTierVolumeThreshold { market, tier }) == 0 && tier > 0);
        }
    }
}

/// A trader's own fee is the lowest of the tiers that their volume earns, with
/// the order counted; without such a tier there is none.
pub proof fn own_fee_is_the_lowest_earned(
    s: Store,
    account: Address,
    market: Address,
    sequence: u32,
    size: int,
)
    ensures
        ({
            let volume = order_handler::volume_counted(
                s,
                account,
                market,
                sequence,
                size,
            ).u128_at(Key::TraderVolume { account, market });
            let fee = order_handler::tier_fee(s, account, market, sequence, size);
            &&& fee == 0 || exists|t: u32| #[trigger]
                earns(s, market, volume, t) && fee == s.u128_at(
                    Key::FeeTierPositionFeeFactor { market, tier: t },
                )
            &&& forall|t: u32| #[trigger]
                earns(s, market, volume, t) ==> 0 < fee <= s.u128_at(
                    Key::FeeTierPositionFeeFactor { market, tier: t },
                )
        }),
{
    let counted = order_handler::volume_counted(s, account, market, sequence, size);
    let volume = counted.u128_at(Key::TraderVolume { account, market });
    lemma_best_fee(counted, market, volume, 0, 0);
    assert forall|t: u32| #[trigger] earns(s, market, volume, t) == earns(
        counted,
        market,
        volume,
        t,
    ) by {
        assert forall|k: u32| #[trigger] s.u128_at(
            Key::FeeTierVolumeThreshold { market, tier: k },
        ) == counted.u128_at(Key::FeeTierVolumeThreshold { market, tier: k }) by {}
        assert forall|k: u32| s.u128_at(
            Key::FeeTierVolumeThreshold { market, tier: k },
        ) == #[trigger] counted.u128_at(Key::FeeTierVolumeThreshold { market, tier: k }) by {}
    }
    let fee = order_handler::tier_fee(s, account, market, sequence, size);
    if fee != 0 {
        let t = choose|t: u32| #[trigger]
            earns(counted, market, volume, t) && fee == counted.u128_at(
                Key::FeeTierPositionFeeFactor { market, tier: t },
            );
        assert(earns(s, market, volume, t));
    }
    assert forall|t: u32| #[trigger] earns(s, market, volume, t) implies 0 < fee <= s.u128_at(
        Key::FeeTierPositionFeeFactor { market, tier: t },
    ) by {
        assert(earns(counted, market, volume, t));
    }
}

// ---------------------------------------------------------------------------
// Execution
// ---------------------------------------------------------------------------

/// The price has come to where an order wants it.  A limit order to grow waits
/// for the lower price to be no more than the trigger.  Taking profit, a long
/// waits for the higher price to be no less and a short for the lower price to be
/// no more; stopping a loss, the other way round.
pub open spec fn is_due(order: OrderProps, price: PriceProps) -> bool {
    &&& order.order_type == OrderType::LimitIncrease ==> price.min <= order.trigger_price
    &&& order.order_type == OrderType::LimitDecrease && order.is_long ==> price.max
        >= order.trigger_price
    &&& order.order_type == OrderType::LimitDecrease && !order.is_long ==> price.min
        <= order.trigger_price
    &&& order.order_type == OrderType::StopLossDecrease && order.is_long ==> price.min
        <= order.trigger_price
    &&& order.order_type == OrderType::StopLossDecrease && !order.is_long ==> price.max
        >= order.trigger_price
}

/// An order is executed by an order keeper who signed, on a handler that is set
/// up, where it exists, is not frozen and is due at the index price of its market.
/// It is then gone from the book and the lists, the keeper's activity is stamped,
/// and the execution is the last thing announced; a trader's volume is told to the
/// referral storage just before.  Each refusal comes where one of these fails.
pub proof fn execution_is_for_keepers_and_due_orders(
    b: OrderBook,
    s: Store,
    roles: Set<Grant>,
    board: Map<Address, PriceProps>,
    ledger: Ledger,
    keeper: Address,
    key: OrderKey,
    q: ExecutionQuote,
)
    ensures
        ({
            let stored = OrderStorageKey::Order(key);
            let flag = OrderStorageKey::OrderFrozen(key);
            let order = b.orders[stored];
            let frozen = b.frozen.dom().contains(flag) && b.frozen[flag];
            let index = s.address_at(Key::MarketIndexToken { market: order.market });
            match order_handler::execution(b, s, roles, board, ledger, keeper, key, q) {
                Ok(x) => {
                    let last = x.actions.len() - 1;
                    &&& ledger.signers@.contains(keeper)
                    &&& roles.contains(Grant { account: keeper, role: Role::OrderKeeper })
                    &&& b.config is Some
                    &&& b.orders.dom().contains(stored)
                    &&& !frozen
                    &&& index is Some && board.dom().contains(index->0)
                    &&& is_due(order, board[index->0])
                    &&& x.book.orders == b.orders.remove(stored)
                    &&& x.book.frozen == b.frozen.remove(flag)
                    &&& x.book == (OrderBook {
                        orders: x.book.orders,
                        frozen: x.book.frozen,
                        positions: x.book.positions,
                        ..b
                    })
                    &&& !x.store.lists(Member::OrderList(key))
                    &&& !x.store.lists(Member::AccountOrderList(order.account, key))
                    &&& x.store.u128_at(Key::LastKeeperActivity) == ledger.timestamp
                    &&& last >= 0
                    &&& x.actions[last] == Action::Publish(
                        Event::OrderExecuted { key, account: order.account },
                    )
                    &&& b.referral_storage is Some && order.size_delta_usd > 0 ==> last >= 1
                        && x.actions[last - 1] == (Action::IncrementReferrerVolume {
                        referral_storage: b.referral_storage->0,
                        trader: order.account,
                        volume_usd: order.size_delta_usd as u128,
                    })
                },
                Err(e) => {
                    let signed = ledger.signers@.contains(keeper);
                    let may = roles.contains(Grant { account: keeper, role: Role::OrderKeeper });
                    let known = b.orders.dom().contains(stored);
                    let m = market_utils::market_at(s, order.market);
                    let priced = board.dom().contains(index->0) && types::mid_price_of(
                        board,
                        order.initial_collateral_token,
                    ) is Ok;
                    &&& !signed ==> e == Failure::MissingAuthorisation
                    &&& signed && b.config is None ==> e == Failure::Order(Error::NotInitialized)
                    &&& signed && b.config is Some && !may ==> e == Failure::Order(
                        Error::Unauthorized,
                    )
                    &&& signed && b.config is Some && may && !known ==> e == Failure::Order(
                        Error::OrderNotFound,
                    )
                    &&& signed && b.config is Some && may && known && frozen ==> e
                        == Failure::Order(Error::OrderFrozen)
                    &&& signed && b.config is Some && may && known && !frozen && m is Some && priced
                        && !is_due(order, board[index->0]) ==> e == Failure::Order(
                        Error::UnsatisfiedTrigger,
                    )
                },
            }
        }),
{
    if let Ok(x) = order_handler::execution(b, s, roles, board, ledger, keeper, key, q) {
        let order = b.orders[OrderStorageKey::Order(key)];
        let closing = order_handler::closing_actions(b, order, key);
        let before = x.actions.len() - closing.len();
        assert(x.actions.last() == closing.last());
        if closing.len() == 2 {
            assert(x.actions[before as int] == closing[0]);
        }
    }
}

/// A swap order sends its tokens from the vault to the first market of its path,
/// and does what a swap along that path to its receiver does.  It must yield the
/// least output, and it leaves every position alone.
pub proof fn swap_orders_swap(
    b: OrderBook,
    s: Store,
    roles: Set<Grant>,
    board: Map<Address, PriceProps>,
    ledger: Ledger,
    keeper: Address,
    key: OrderKey,
    q: ExecutionQuote,
)
    requires
        trades(b.orders[OrderStorageKey::Order(key)].order_type),
        ({
            let order = b.orders[OrderStorageKey::Order(key)];
            s.u128_at(
                Key::TraderVolumeWindowStart { account: order.account, market: order.market },
            ) <= u32::MAX
        }),
    ensures
        order_handler::execution(b, s, roles, board, ledger, keeper, key, q) matches Ok(x) ==> {
            let order = b.orders[OrderStorageKey::Order(key)];
            let path = order.swap_path@;
            let t = with_volume(
                s,
                order.account,
                order.market,
                ledger.sequence,
                order.size_delta_usd as int,
            );
            let swapped = swap_utils::path_swap(
                t,
                board,
                path,
                q.swaps@,
                order.receiver,
                order.initial_collateral_token,
                order.collateral_delta_amount,
            );
            &&& path.len() > 0
            &&& swapped is Ok
            &&& swapped->Ok_0.amount_out >= order.min_output_amount
            &&& x.book.positions == b.positions
            &&& x.store.words == swapped->Ok_0.store.words.insert(
                Key::LastKeeperActivity,
                ledger.timestamp as u128,
            )
            &&& x.actions.len() > swapped->Ok_0.actions.len()
            &&& x.actions[0] == (Action::VaultTransferOut {
                vault: b.config->0.order_vault,
                token: order.initial_collateral_token,
                receiver: path[0],
                amount: order.collateral_delta_amount,
            })
            &&& forall|k: int|
                0 <= k < swapped->Ok_0.actions.len() ==> x.actions[k + 1]
                    == #[trigger] swapped->Ok_0.actions[k]
        },
{
    let order = b.orders[OrderStorageKey::Order(key)];
    volume_is_counted_for_thirty_days(
        s,
        order.account,
        order.market,
        ledger.sequence,
        order.size_delta_usd as int,
    );
}

/// An order to shrink does what a close does of the position that its owner holds
/// in its market and token, at the prices of the board, for its size and its
/// limit; the pool pays its receiver what the close comes to.
pub proof fn orders_to_shrink_close(
    b: OrderBook,
    s: Store,
    roles: Set<Grant>,
    board: Map<Address, PriceProps>,
    ledger: Ledger,
    keeper: Address,
    key: OrderKey,
    q: ExecutionQuote,
)
    requires
        !trades(b.orders[OrderStorageKey::Order(key)].order_type),
        !grows(b.orders[OrderStorageKey::Order(key)].order_type),
        ({
            let order = b.orders[OrderStorageKey::Order(key)];
            s.u128_at(
                Key::TraderVolumeWindowStart { account: order.account, market: order.market },
            ) <= u32::MAX
        }),
    ensures
        order_handler::execution(b, s, roles, board, ledger, keeper, key, q) matches Ok(x) ==> {
            let order = b.orders[OrderStorageKey::Order(key)];
            let m = market_utils::market_at(s, order.market);
            let t = with_volume(
                s,
                order.account,
                order.market,
                ledger.sequence,
                order.size_delta_usd as int,
            );
            let closed = decrease_position_utils::close(
                t,
                b.positions,
                DecreasePositionParams {
                    account: order.account,
                    receiver: order.receiver,
                    market: m->0,
                    collateral_token: order.initial_collateral_token,
                    size_delta_usd: order.size_delta_usd,
                    acceptable_price: order.acceptable_price,
                    is_long: order.is_long,
                    index_token_price: board[m->0.index_token],
                    collateral_price: middle(board[order.initial_collateral_token]) as i128,
                    current_time: ledger.timestamp,
                },
                q.position,
            );
            &&& m is Some
            &&& closed is Ok
            &&& x.book.positions == closed->Ok_0.positions
            &&& x.store.words == closed->Ok_0.store.words.insert(
                Key::LastKeeperActivity,
                ledger.timestamp as u128,
            )
            &&& x.store.ints == closed->Ok_0.store.ints
            &&& closed->Ok_0.result.output_amount > 0 ==> x.actions[0]
                == (Action::WithdrawFromPool {
                market: order.market,
                token: order.initial_collateral_token,
                receiver: order.receiver,
                amount: closed->Ok_0.result.output_amount,
            })
        },
{
    let order = b.orders[OrderStorageKey::Order(key)];
    volume_is_counted_for_thirty_days(
        s,
        order.account,
        order.market,
        ledger.sequence,
        order.size_delta_usd as int,
    );
    middle_price_is_the_middle(board, order.initial_collateral_token);
    markets_are_three_tokens(s, order.market);
}

/// An order to grow sends its tokens from the vault to its market and does what
/// an increase does of the position of its owner, at the prices of the board, for
/// its size, its tokens and its limit.  A trader whose volume earns a tier pays
/// the tier's fee, whatever the impact; everybody else pays the market's.
pub proof fn orders_to_grow_increase(
    b: OrderBook,
    s: Store,
    roles: Set<Grant>,
    board: Map<Address, PriceProps>,
    ledger: Ledger,
    keeper: Address,
    key: OrderKey,
    q: ExecutionQuote,
)
    requires
        grows(b.orders[OrderStorageKey::Order(key)].order_type),
        ({
            let order = b.orders[OrderStorageKey::Order(key)];
            s.u128_at(
                Key::TraderVolumeWindowStart { account: order.account, market: order.market },
            ) <= u32::MAX
        }),
    ensures
        order_handler::execution(b, s, roles, board, ledger, keeper, key, q) matches Ok(x) ==> {
            let order = b.orders[OrderStorageKey::Order(key)];
            let m = market_utils::market_at(s, order.market);
            let size = order.size_delta_usd as int;
            let t = with_volume(s, order.account, order.market, ledger.sequence, size);
            let own = order_handler::tier_fee(s, order.account, order.market, ledger.sequence, size);
            let plus = Key::PositionFeeFactor { market: order.market, for_positive_impact: true };
            let minus = Key::PositionFeeFactor { market: order.market, for_positive_impact: false };
            let u = if own > 0 {
                t.with_u128(plus, own).with_u128(minus, own)
            } else {
                t
            };
            let grown = increase_position_utils::increase(
                u,
                b.positions,
                IncreasePositionParams {
                    account: order.account,
                    receiver: order.receiver,
                    market: m->0,
                    collateral_token: order.initial_collateral_token,
                    size_delta_usd: order.size_delta_usd,
                    collateral_amount: order.collateral_delta_amount,
                    acceptable_price: order.acceptable_price,
                    is_long: order.is_long,
                    index_token_price: board[m->0.index_token],
                    collateral_price: middle(board[order.initial_collateral_token]) as i128,
                    current_time: ledger.timestamp,
                },
                q.position,
            );
            &&& m is Some
            &&& grown is Ok
            &&& x.book.positions == grown->Ok_0.positions
            &&& forall|k: Key|
                k != plus && k != minus && k != Key::LastKeeperActivity ==> #[trigger]
                x.store.u128_at(k) == grown->Ok_0.store.u128_at(k)
            &&& x.store.u128_at(plus) == s.u128_at(plus)
            &&& x.store.u128_at(minus) == s.u128_at(minus)
            &&& x.store.ints == grown->Ok_0.store.ints
            &&& x.actions[0] == (Action::VaultTransferOut {
                vault: b.config->0.order_vault,
                token: order.initial_collateral_token,
                receiver: order.market,
                amount: order.collateral_delta_amount,
            })
        },
{
    let order = b.orders[OrderStorageKey::Order(key)];
    let size = order.size_delta_usd as int;
    volume_is_counted_for_thirty_days(s, order.account, order.market, ledger.sequence, size);
    middle_price_is_the_middle(board, order.initial_collateral_token);
    markets_are_three_tokens(s, order.market);
    if order_handler::execution(b, s, roles, board, ledger, keeper, key, q) is Ok {
        order_handler::execution_keeps_the_fee_factors(
            b,
            s,
            roles,
            board,
            ledger,
            keeper,
            key,
            q,
            order.market,
            true,
        );
        order_handler::execution_keeps_the_fee_factors(
            b,
            s,
            roles,
            board,
            ledger,
            keeper,
            key,
            q,
            order.market,
            false,
        );
    }
}

// ---------------------------------------------------------------------------
// Liquidation and auto-deleveraging
// ---------------------------------------------------------------------------

/// The smallest of three amounts.
pub open spec fn least(a: int, b: int, c: int) -> int {
    if a <= b && a <= c {
        a
    } else if b <= c {
        b
    } else {
        c
    }
}

/// How a liquidated position's collateral is split.  With an insurance fund the
/// fee is the configured part of the collateral, at most the configured dollars
/// in tokens where a ceiling is set, and at most all of it; the keeper gets the
/// configured part of the fee, at most all of it, and the fund the rest of the
/// fee.  The owner gets what is left.  Without a fund there is no fee.
pub proof fn collateral_is_split_by_the_factors(
    s: Store,
    market: Address,
    gross: int,
    price: int,
    has_fund: bool,
)
    requires
        0 <= gross <= i128::MAX,
        s.u128_at(Key::LiquidationFeeFactor { market }) <= i128::MAX,
        s.u128_at(Key::MaxLiquidationFee { market }) <= i128::MAX,
        s.u128_at(Key::LiquidationKeeperFeeFactor { market }) <= i128::MAX,
    ensures
        order_handler::collateral_split(s, market, gross, price, has_fund) matches Ok(x) ==> {
            let part = gross * s.u128_at(Key::LiquidationFeeFactor { market }) / one_dollar();
            let most = s.u128_at(Key::MaxLiquidationFee { market });
            let ceiling = if most > 0 && price > 0 {
                most * one_token() / price
            } else {
                part
            };
            let fee = least(part, ceiling, gross);
            let share = fee * s.u128_at(Key::LiquidationKeeperFeeFactor { market })
                / one_dollar();
            &&& has_fund ==> x.keeper_fee == least(share, fee, fee)
            &&& has_fund ==> x.insurance_fee == fee - x.keeper_fee
            &&& has_fund ==> x.remainder == gross - fee
            &&& !has_fund ==> x.keeper_fee == 0 && x.insurance_fee == 0 && x.remainder == gross
        },
{
    let rate = s.u128_at(Key::LiquidationFeeFactor { market }) as int;
    let most = s.u128_at(Key::MaxLiquidationFee { market }) as int;
    let keep = s.u128_at(Key::LiquidationKeeperFeeFactor { market }) as int;
    assert(gross * rate >= 0) by (nonlinear_arith)
        requires
            gross >= 0,
            rate >= 0,
    ;
    math::trunc_div_is_floor(gross * rate, one_dollar());
    let part = gross * rate / one_dollar();
    if most > 0 && price > 0 {
        math::trunc_div_is_floor(most * one_token(), price);
    }
    let ceiling = if most > 0 && price > 0 {
        most * one_token() / price
    } else {
        part
    };
    let fee = least(part, ceiling, gross);
    assert(fee * keep >= 0) by (nonlinear_arith)
        requires
            fee >= 0,
            keep >= 0,
    ;
    math::trunc_div_is_floor(fee * keep, one_dollar());
    assert(order_handler::liquidation_fee(s, market, gross, price) == fee);
}

/// What a list of actions pays out of a market's pool of a token to a receiver.
pub open spec fn paid_to(
    actions: Seq<Action>,
    pool: Address,
    coin: Address,
    receiver: Address,
) -> int
    decreases actions.len(),
{
    if actions.len() == 0 {
        0
    } else {
        paid_to(actions.drop_last(), pool, coin, receiver) + match actions.last() {
            Action::WithdrawFromPool { market, token, receiver: to, amount } => if to == receiver
                && market == pool && token == coin {
                amount as int
            } else {
                0
            },
            _ => 0,
        }
    }
}

proof fn lemma_paid_to_chain(
    a: Seq<Action>,
    b: Seq<Action>,
    pool: Address,
    coin: Address,
    receiver: Address,
)
    ensures
        paid_to(a + b, pool, coin, receiver) == paid_to(a, pool, coin, receiver) + paid_to(
            b,
            pool,
            coin,
            receiver,
        ),
    decreases b.len(),
{
    if b.len() == 0 {
        assert(a + b =~= a);
    } else {
        assert((a + b).drop_last() =~= a + b.drop_last());
        assert((a + b).last() == b.last());
        lemma_paid_to_chain(a, b.drop_last(), pool, coin, receiver);
    }
}

proof fn lemma_paid_once(market: Address, token: Address, to: Address, amount: i128, receiver: Address)
    ensures
        paid_to(
            order_handler::pool_payment(market, token, to, amount),
            market,
            token,
            receiver,
        ) == if to
            == receiver && amount > 0 {
            amount as int
        } else {
            0
        },
{
    reveal_with_fuel(paid_to, 3);
    let payment = order_handler::pool_payment(market, token, to, amount);
    if amount > 0 {
        assert(payment.drop_last() =~= Seq::<Action>::empty());
    }
}

/// A liquidation is for liquidation keepers who signed, and for positions that
/// the liquidation test fails at the prices of the board.  It does what a close of
/// the whole position at any price does, and what the close comes to is split:
/// the keeper, the fund and the owner are paid their parts and nobody else is paid
/// anything.
pub proof fn liquidations_close_and_split(
    b: OrderBook,
    s: Store,
    roles: Set<Grant>,
    board: Map<Address, PriceProps>,
    ledger: Ledger,
    keeper: Address,
    position: PositionKey,
    fund: Option<Address>,
    q: PositionQuote,
    anyone: Address,
)
    ensures
        order_handler::liquidation(
            b,
            s,
            roles,
            board,
            ledger,
            keeper,
            position,
            fund,
            q,
        ) matches Ok(x) ==> {
            let stored = PositionStorageKey::Position(position);
            let held = b.positions[stored];
            let m = market_utils::market_at(s, position.market);
            let price = middle(board[position.collateral_token]) as i128;
            let closed = decrease_position_utils::close(
                s,
                b.positions,
                DecreasePositionParams {
                    account: position.account,
                    receiver: position.account,
                    market: m->0,
                    collateral_token: position.collateral_token,
                    size_delta_usd: held.size_in_usd,
                    acceptable_price: 0,
                    is_long: position.is_long,
                    index_token_price: board[m->0.index_token],
                    collateral_price: price,
                    current_time: ledger.timestamp,
                },
                q,
            );
            let split = order_handler::collateral_split(
                closed->Ok_0.store,
                position.market,
                closed->Ok_0.result.output_amount as int,
                price as int,
                fund is Some,
            );
            let parts = split->Ok_0;
            let to_keeper = if anyone == keeper && parts.keeper_fee > 0 {
                parts.keeper_fee as int
            } else {
                0
            };
            let to_fund = if fund == Some(anyone) && parts.insurance_fee > 0 {
                parts.insurance_fee as int
            } else {
                0
            };
            let to_owner = if anyone == position.account && parts.remainder > 0 {
                parts.remainder as int
            } else {
                0
            };
            &&& ledger.signers@.contains(keeper)
            &&& roles.contains(Grant { account: keeper, role: Role::LiquidationKeeper })
            &&& b.positions.dom().contains(stored)
            &&& m is Some
            &&& position_utils::liquidation_test(
                s,
                held,
                m->0,
                price as int,
                board[m->0.index_token],
            ) == Ok::<bool, Failure>(true)
            &&& closed is Ok && split is Ok
            &&& x.book == (OrderBook { positions: closed->Ok_0.positions, ..b })
            &&& x.store == closed->Ok_0.store
            &&& paid_to(x.actions, position.market, position.collateral_token, anyone) == to_keeper + to_fund + to_owner
            &&& x.actions.last() == Action::Publish(
                Event::PositionLiquidated(
                    order_handler::PositionLiquidatedEvent {
                        key: position,
                        account: position.account,
                        market: position.market,
                        execution_price: q.execution_price,
                        remaining_collateral: closed->Ok_0.result.remaining_collateral,
                    },
                ),
            )
        },
{
    middle_price_is_the_middle(board, position.collateral_token);
    markets_are_three_tokens(s, position.market);
    if let Ok(x) = order_handler::liquidation(
        b,
        s,
        roles,
        board,
        ledger,
        keeper,
        position,
        fund,
        q,
    ) {
        let c = order_handler::conditions(
            s,
            board,
            position.market,
            position.collateral_token,
        )->Ok_0;
        let p = order_handler::forced_decrease(
            c,
            position.account,
            position.collateral_token,
            position.is_long,
            b.positions[PositionStorageKey::Position(position)].size_in_usd,
            ledger.timestamp,
        );
        let closed = decrease_position_utils::close(s, b.positions, p, q)->Ok_0;
        let parts = order_handler::collateral_split(
            closed.store,
            position.market,
            closed.result.output_amount as int,
            c.collateral_price as int,
            fund is Some,
        )->Ok_0;
        let market = p.market.market_token;
        let token = p.collateral_token;
        let first = order_handler::pool_payment(market, token, keeper, parts.keeper_fee);
        let second = match fund {
            Some(f) => order_handler::pool_payment(market, token, f, parts.insurance_fee),
            None => Seq::empty(),
        };
        let third = order_handler::pool_payment(market, token, p.account, parts.remainder);
        lemma_paid_once(market, token, keeper, parts.keeper_fee, anyone);
        if let Some(f) = fund {
            lemma_paid_once(market, token, f, parts.insurance_fee, anyone);
        }
        lemma_paid_once(market, token, p.account, parts.remainder, anyone);
        lemma_paid_to_chain(first, second, market, token, anyone);
        lemma_paid_to_chain(first + second, third, market, token, anyone);
        let payments = first + second + third;
        let events = x.actions.subrange(payments.len() as int, x.actions.len() as int);
        assert(x.actions =~= payments + events);
        lemma_paid_to_chain(payments, events, market, token, anyone);
        assert(events.drop_last().drop_last() =~= Seq::<Action>::empty());
        reveal_with_fuel(paid_to, 4);
        assert(paid_to(events, market, token, anyone) == 0);
    }
}

/// Auto-deleveraging is for its keepers who signed.  It does what a close of the
/// asked size at any price does, and pays the owner what the close comes to.
pub proof fn deleveraging_closes_for_the_owner(
    b: OrderBook,
    s: Store,
    roles: Set<Grant>,
    board: Map<Address, PriceProps>,
    ledger: Ledger,
    keeper: Address,
    position: PositionKey,
    size_delta_usd: i128,
    q: PositionQuote,
)
    ensures
        order_handler::deleveraging(
            b,
            s,
            roles,
            board,
            ledger,
            keeper,
            position,
            size_delta_usd,
            q,
        ) matches Ok(x) ==> {
            let m = market_utils::market_at(s, position.market);
            let closed = decrease_position_utils::close(
                s,
                b.positions,
                DecreasePositionParams {
                    account: position.account,
                    receiver: position.account,
                    market: m->0,
                    collateral_token: position.collateral_token,
                    size_delta_usd,
                    acceptable_price: 0,
                    is_long: position.is_long,
                    index_token_price: board[m->0.index_token],
                    collateral_price: middle(board[position.collateral_token]) as i128,
                    current_time: ledger.timestamp,
                },
                q,
            );
            &&& ledger.signers@.contains(keeper)
            &&& roles.contains(Grant { account: keeper, role: Role::AdlKeeper })
            &&& m is Some
            &&& closed is Ok
            &&& x.book == (OrderBook { positions: closed->Ok_0.positions, ..b })
            &&& x.store == closed->Ok_0.store
            &&& closed->Ok_0.result.output_amount > 0 ==> x.actions[0]
                == (Action::WithdrawFromPool {
                market: position.market,
                token: position.collateral_token,
                receiver: position.account,
                amount: closed->Ok_0.result.output_amount,
            })
            &&& closed->Ok_0.result.output_amount == 0 ==> x.actions.len() == 2
            &&& x.actions.last() == Action::Publish(
                Event::AdlExecuted {
                    account: position.account,
                    market: position.market,
                    size_delta_usd,
                    pnl_usd: closed->Ok_0.result.pnl_usd,
                },
            )
        },
{
    middle_price_is_the_middle(board, position.collateral_token);
    markets_are_three_tokens(s, position.market);
}

/// Keepers are silent for too long where a timeout is set and more time than it
/// has passed since their last activity.
pub proof fn silence_is_measured_against_the_timeout(s: Store, now: u64)
    ensures
        order_handler::keeper_is_stale(s, now) == (s.u128_at(Key::KeeperHeartbeatTimeout) != 0
            && now > s.u128_at(Key::LastKeeperActivity) + s.u128_at(Key::KeeperHeartbeatTimeout)),
{
}

/// The average price at which a position was entered: its size over its tokens.
pub open spec fn average_price(p: PositionProps) -> int {
    if p.size_in_tokens > 0 {
        p.size_in_usd * one_token() / p.size_in_tokens as int
    } else {
        0
    }
}

/// An executed order to grow announces the position that it opened, or what it
/// added to one with a size, with the average price of entry.
pub proof fn growth_is_announced(
    order: OrderProps,
    key: PositionKey,
    positions: Map<PositionStorageKey, PositionProps>,
    after: PositionProps,
)
    requires
        after.size_in_usd >= 0,
    ensures
        order_handler::increase_event(
            order,
            key,
            order_handler::size_before(positions, key),
            after,
        ) matches Ok(event) ==> {
            let stored = PositionStorageKey::Position(key);
            let held = positions[stored];
            let known = positions.dom().contains(stored) && held.size_in_usd != 0;
            match event {
                Event::PositionOpened(e) => !known && e.key == key && e.account == order.account
                    && e.market == order.market && e.size_in_usd == after.size_in_usd
                    && e.collateral_amount == after.collateral_amount && e.is_long == order.is_long
                    && e.avg_entry_price == average_price(after),
                Event::PositionIncreased(e) => known && e.key == key && e.account == order.account
                    && e.market == order.market && e.delta_size_usd == after.size_in_usd
                    - held.size_in_usd && e.delta_collateral == after.collateral_amount
                    - held.collateral_amount && e.new_size_usd == after.size_in_usd
                    && e.avg_entry_price == average_price(after),
                _ => false,
            }
        },
{
    if after.size_in_tokens > 0 {
        math::trunc_div_is_floor(
            after.size_in_usd * one_token(),
            after.size_in_tokens as int,
        );
    }
}

/// An executed order to shrink announces the close of its position, or the slice
/// that it asked to close.
pub proof fn shrinkage_is_announced(
    order: OrderProps,
    key: PositionKey,
    result: types::DecreasePositionResult,
)
    ensures
        match order_handler::closing_event(order, key, result) {
            Event::PositionClosed(e) => result.is_fully_closed && e.key == key && e.account
                == order.account && e.market == order.market && e.pnl_usd == result.pnl_usd
                && e.execution_price == result.execution_price,
            Event::PositionDecreased(e) => !result.is_fully_closed && e.key == key && e.account
                == order.account && e.market == order.market && e.delta_size_usd
                == order.size_delta_usd && e.pnl_usd == result.pnl_usd && e.execution_price
                == result.execution_price,
            _ => false,
        },
{
}

} // verus!
