//! Creating, executing, cancelling, updating and freezing orders; liquidation
//! and auto-deleveraging of the positions that orders open.

use crate::actions::{Action, Event};
use crate::data_store::{DataStore, Key, Member, Store};
use crate::decrease_position_utils;
use crate::decrease_position_utils::{Closed, DecreasePositionParams};
use crate::failure::Failure;
use crate::increase_position_utils;
use crate::increase_position_utils::{IncreasePositionParams, PositionQuote};
use crate::insurance_fund_router;
use crate::insurance_fund_router::InsuranceFundRouter;
use crate::ledger::Ledger;
use crate::market_utils;
use crate::math;
use crate::math::{FLOAT_PRECISION, TOKEN_PRECISION};
use crate::position_utils;
use crate::role_store;
use crate::role_store::{Grant, Role, RoleStore};
use crate::swap_utils;
use crate::swap_utils::{SwapError, SwapQuote};
use crate::table::Table;
use crate::types;
use crate::types::{
    Address, CreateOrderParams, DecreasePositionResult, MarketProps, OrderKey, OrderProps,
    OrderStorageKey, OrderType, PositionKey, PositionProps, PositionStorageKey, PriceBoard,
    PriceProps,
};
use soroban_sdk::Env;
use vstd::prelude::*;

verus! {

/// Why the order handler rejects a call.
#[derive(Clone, Copy, Debug, PartialEq, Eq, Structural)]
pub enum Error {
    AlreadyInitialized,
    NotInitialized,
    Unauthorized,
    OrderNotFound,
    InvalidOrderType,
    UnsatisfiedTrigger,
    PriceTooHigh,
    PriceTooLow,
    OrderFrozen,
    MaxLeverageExceeded,
    ZeroCollateral,
    SwapPathTooLong,
    DuplicateMarketInPath,
    InsufficientExecutionFee,
}

// ---------------------------------------------------------------------------
// Events
// ---------------------------------------------------------------------------

/// A position was opened.
#[derive(Clone, Copy, Debug, PartialEq, Eq, Structural)]
pub struct PositionOpenedEvent {
    pub key: PositionKey,
    pub account: Address,
    pub market: Address,
    pub size_in_usd: i128,
    pub collateral_amount: i128,
    pub is_long: bool,
    pub avg_entry_price: i128,
}

/// A position was added to.
#[derive(Clone, Copy, Debug, PartialEq, Eq, Structural)]
pub struct PositionIncreasedEvent {
    pub key: PositionKey,
    pub account: Address,
    pub market: Address,
    pub delta_size_usd: i128,
    pub delta_collateral: i128,
    pub new_size_usd: i128,
    pub avg_entry_price: i128,
}

/// A slice of a position was closed.
#[derive(Clone, Copy, Debug, PartialEq, Eq, Structural)]
pub struct PositionDecreasedEvent {
    pub key: PositionKey,
    pub account: Address,
    pub market: Address,
    pub delta_size_usd: i128,
    pub pnl_usd: i128,
    pub execution_price: i128,
}

/// A position was closed.
#[derive(Clone, Copy, Debug, PartialEq, Eq, Structural)]
pub struct PositionClosedEvent {
    pub key: PositionKey,
    pub account: Address,
    pub market: Address,
    pub pnl_usd: i128,
    pub execution_price: i128,
}

/// A position was liquidated.
#[derive(Clone, Copy, Debug, PartialEq, Eq, Structural)]
pub struct PositionLiquidatedEvent {
    pub key: PositionKey,
    pub account: Address,
    pub market: Address,
    pub execution_price: i128,
    pub remaining_collateral: i128,
}

// ---------------------------------------------------------------------------
// State
// ---------------------------------------------------------------------------

/// The contracts that the order handler was set up with.
#[derive(Clone, Copy, Debug, PartialEq, Eq, Structural)]
pub struct Config {
    pub admin: Address,
    pub role_store: Address,
    pub data_store: Address,
    pub oracle: Address,
    pub order_vault: Address,
}

/// The state of the order handler, as mathematical values.
#[verifier::ext_equal]
pub struct OrderBook {
    pub config: Option<Config>,
    pub referral_storage: Option<Address>,
    pub orders: Map<OrderStorageKey, OrderProps>,
    pub frozen: Map<OrderStorageKey, bool>,
    pub positions: Map<PositionStorageKey, PositionProps>,
}

/// The order handler.
pub struct OrderHandler {
    config: Option<Config>,
    referral_storage: Option<Address>,
    orders: Table<OrderStorageKey, OrderProps>,
    frozen: Table<OrderStorageKey, bool>,
    positions: Table<PositionStorageKey, PositionProps>,
}

impl View for OrderHandler {
    type V = OrderBook;

    closed spec fn view(&self) -> OrderBook {
        OrderBook {
            config: self.config,
            referral_storage: self.referral_storage,
            orders: self.orders@,
            frozen: self.frozen@,
            positions: self.positions@,
        }
    }
}

/// An order is stored under a key.
pub open spec fn has_order(b: OrderBook, key: OrderKey) -> bool {
    b.orders.dom().contains(OrderStorageKey::Order(key))
}

/// The order under a key.
pub open spec fn order_at(b: OrderBook, key: OrderKey) -> OrderProps {
    b.orders[OrderStorageKey::Order(key)]
}

/// The order under a key is frozen.
pub open spec fn is_frozen(b: OrderBook, key: OrderKey) -> bool {
    b.frozen.dom().contains(OrderStorageKey::OrderFrozen(key))
        && b.frozen[OrderStorageKey::OrderFrozen(key)]
}

/// The position under a key.
pub open spec fn position_at(
    positions: Map<PositionStorageKey, PositionProps>,
    key: PositionKey,
) -> Option<PositionProps> {
    if positions.dom().contains(PositionStorageKey::Position(key)) {
        Some(positions[PositionStorageKey::Position(key)])
    } else {
        None
    }
}

/// The order book without an order.
pub open spec fn without_order(b: OrderBook, key: OrderKey) -> OrderBook {
    OrderBook {
        orders: b.orders.remove(OrderStorageKey::Order(key)),
        frozen: b.frozen.remove(OrderStorageKey::OrderFrozen(key)),
        ..b
    }
}

/// The store without an order on its lists.
pub open spec fn order_delisted(s: Store, key: OrderKey, account: Address) -> Store {
    s.delisted(Member::OrderList(key)).delisted(Member::AccountOrderList(account, key))
}

/// The store with an order on its lists.
pub open spec fn order_enlisted(s: Store, key: OrderKey, account: Address) -> Store {
    s.enlisted(Member::OrderList(key)).enlisted(Member::AccountOrderList(account, key))
}

/// The order brings its own tokens: it increases a position or swaps.
pub open spec fn brings_tokens(t: OrderType) -> bool {
    match t {
        OrderType::MarketIncrease | OrderType::LimitIncrease | OrderType::StopIncrease
        | OrderType::MarketSwap | OrderType::LimitSwap => true,
        _ => false,
    }
}

/// Whether an order brings its own tokens.
pub fn is_increase_or_swap(t: OrderType) -> (r: bool)
    ensures
        r == brings_tokens(t),
{
    match t {
        OrderType::MarketIncrease | OrderType::LimitIncrease | OrderType::StopIncrease
        | OrderType::MarketSwap | OrderType::LimitSwap => true,
        _ => false,
    }
}

// ---------------------------------------------------------------------------
// Creation
// ---------------------------------------------------------------------------

/// What an order is created with, or why it is not: its fee, its path and its
/// collateral are looked at in turn.
pub open spec fn creation_check(s: Store, params: CreateOrderParams, collateral: int) -> Result<
    (),
    Failure,
> {
    let min_fee = s.u128_at(Key::MinExecutionFee);
    if min_fee > 0 && params.execution_fee < min_fee {
        Err(Failure::Order(Error::InsufficientExecutionFee))
    } else if params.swap_path@.len() > swap_utils::max_path_length(s) {
        Err(Failure::Order(Error::SwapPathTooLong))
    } else if !params.swap_path@.no_duplicates() {
        Err(Failure::Order(Error::DuplicateMarketInPath))
    } else if brings_tokens(params.order_type) && collateral == 0 {
        Err(Failure::Order(Error::ZeroCollateral))
    } else {
        Ok(())
    }
}

/// The collateral of a new order: what arrived in the vault where the order
/// brings its own tokens, what the trader asks for otherwise.
pub open spec fn order_collateral(params: CreateOrderParams, received: i128) -> i128 {
    if brings_tokens(params.order_type) {
        if received < 0 {
            0
        } else {
            received
        }
    } else {
        params.collateral_delta_amount
    }
}

/// The order that `create_order` stores.
pub open spec fn new_order(
    caller: Address,
    params: CreateOrderParams,
    received: i128,
    timestamp: u64,
) -> OrderProps {
    OrderProps {
        account: caller,
        receiver: params.receiver,
        market: params.market,
        initial_collateral_token: params.initial_collateral_token,
        swap_path: params.swap_path,
        size_delta_usd: params.size_delta_usd,
        collateral_delta_amount: order_collateral(params, received),
        trigger_price: params.trigger_price,
        acceptable_price: params.acceptable_price,
        execution_fee: params.execution_fee,
        min_output_amount: params.min_output_amount,
        order_type: params.order_type,
        is_long: params.is_long,
        updated_at_time: timestamp,
    }
}

/// What `create_order` does.
pub struct Creation {
    pub key: OrderKey,
    pub book: OrderBook,
    pub store: Store,
    pub actions: Seq<Action>,
}

/// What `create_order` returns and does, or why it is rejected.
pub open spec fn creation(
    b: OrderBook,
    s: Store,
    ledger: Ledger,
    caller: Address,
    params: CreateOrderParams,
    received: i128,
) -> Result<Creation, Failure> {
    if !ledger.authorised(caller) {
        Err(Failure::MissingAuthorisation)
    } else if b.config is None {
        Err(Failure::Order(Error::NotInitialized))
    } else {
        match creation_check(s, params, order_collateral(params, received) as int) {
            Err(e) => Err(e),
            Ok(_) => if s.nonce == u64::MAX {
                Err(Failure::Overflow)
            } else {
                let key = OrderKey { nonce: (s.nonce + 1) as u64 };
                Ok(
                    Creation {
                        key,
                        book: OrderBook {
                            orders: b.orders.insert(
                                OrderStorageKey::Order(key),
                                new_order(caller, params, received, ledger.timestamp),
                            ),
                            ..b
                        },
                        store: order_enlisted(Store { nonce: key.nonce, ..s }, key, caller),
                        actions: seq![
                            Action::Publish(
                                Event::OrderCreated { key, account: caller, market: params.market },
                            ),
                        ],
                    },
                )
            },
        }
    }
}

// ---------------------------------------------------------------------------
// Fee tiers
// ---------------------------------------------------------------------------

/// Thirty days in ledgers of five seconds.
pub const WINDOW_LEDGERS: u32 = 518_400;

/// The number of fee tiers.
pub const FEE_TIERS: u32 = 5;

/// The key of a trader's volume in a market.
pub open spec fn volume_key(account: Address, market: Address) -> Key {
    Key::TraderVolume { account, market }
}

/// The key of the ledger in which a trader's volume window began.
pub open spec fn window_key(account: Address, market: Address) -> Key {
    Key::TraderVolumeWindowStart { account, market }
}

/// More than thirty days have passed since the window of a trader began.
pub open spec fn window_expired(s: Store, account: Address, market: Address, sequence: u32) -> bool {
    sequence - s.u128_at(window_key(account, market)) % 0x1_0000_0000u128 > WINDOW_LEDGERS
}

/// The store with an expired window begun anew.
pub open spec fn window_rolled(s: Store, account: Address, market: Address, sequence: u32) -> Store {
    if window_expired(s, account, market, sequence) {
        s.with_u128(window_key(account, market), sequence as u128).with_u128(
            volume_key(account, market),
            0,
        )
    } else {
        s
    }
}

/// The volume of a trader with an order added; it stops at the largest number.
pub open spec fn volume_with(
    s: Store,
    account: Address,
    market: Address,
    sequence: u32,
    size_delta_usd: int,
) -> u128 {
    math::saturated(
        window_rolled(s, account, market, sequence).u128_at(volume_key(account, market))
            + math::at_least_zero(size_delta_usd),
    )
}

/// The store after an order's volume was counted.
pub open spec fn volume_counted(
    s: Store,
    account: Address,
    market: Address,
    sequence: u32,
    size_delta_usd: int,
) -> Store {
    window_rolled(s, account, market, sequence).with_u128(
        volume_key(account, market),
        volume_with(s, account, market, sequence, size_delta_usd),
    )
}

/// The tier is configured: the first always is, a later one has a threshold.
pub open spec fn tier_defined(s: Store, market: Address, tier: u32) -> bool {
    tier == 0 || s.u128_at(Key::FeeTierVolumeThreshold { market, tier }) != 0
}

/// A volume reaches a tier that sets a fee.
pub open spec fn tier_reached(s: Store, market: Address, volume: u128, tier: u32) -> bool {
    volume >= s.u128_at(Key::FeeTierVolumeThreshold { market, tier }) && s.u128_at(
        Key::FeeTierPositionFeeFactor { market, tier },
    ) > 0
}

/// The lowest fee that a volume reaches among the tiers from `tier` on, where
/// `best` is the lowest so far; the scan ends at the first undefined tier, and
/// zero means that no tier sets a fee.
pub open spec fn best_fee(s: Store, market: Address, volume: u128, tier: u32, best: u128) -> u128
    decreases FEE_TIERS - tier,
{
    if tier >= FEE_TIERS || !tier_defined(s, market, tier) {
        best
    } else {
        let fee = s.u128_at(Key::FeeTierPositionFeeFactor { market, tier });
        let next = if tier_reached(s, market, volume, tier) && (best == 0 || fee < best) {
            fee
        } else {
            best
        };
        best_fee(s, market, volume, (tier + 1) as u32, next)
    }
}

/// The fee factor of a trader's tier.
pub open spec fn tier_fee(
    s: Store,
    account: Address,
    market: Address,
    sequence: u32,
    size_delta_usd: int,
) -> u128 {
    best_fee(
        volume_counted(s, account, market, sequence, size_delta_usd),
        market,
        volume_with(s, account, market, sequence, size_delta_usd),
        0,
        0,
    )
}

/// Counts an order's volume in the trader's thirty-day window, and gives the
/// lowest position fee factor of the tiers that the volume reaches; zero where
/// no tier sets one.
fn resolve_fee_tier(
    ds: &mut DataStore,
    account: &Address,
    market: &Address,
    sequence: u32,
    size_delta_usd: i128,
) -> (r: u128)
    ensures
        r == tier_fee(old(ds)@, *account, *market, sequence, size_delta_usd as int),
        final(ds)@ == volume_counted(old(ds)@, *account, *market, sequence, size_delta_usd as int),
{
    let market = *market;
    let vol_key = Key::TraderVolume { account: *account, market };
    let start_key = Key::TraderVolumeWindowStart { account: *account, market };
    let window_start: u32 = math::low_u32(ds.get_u128(&start_key));
    if sequence > window_start && sequence - window_start > WINDOW_LEDGERS {
        ds.put_u128(start_key, sequence as u128);
        ds.put_u128(vol_key, 0);
    }
    let current: u128 = ds.get_u128(&vol_key);
    let size: u128 = if size_delta_usd < 0 {
        0
    } else {
        size_delta_usd as u128
    };
    let volume: u128 = current.saturating_add(size);
    ds.put_u128(vol_key, volume);
    let mut best: u128 = 0;
    let mut tier: u32 = 0;
    let ghost whole = best_fee(ds@, market, volume, 0, 0);
    while tier < FEE_TIERS
        invariant
            tier <= FEE_TIERS,
            whole == best_fee(ds@, market, volume, tier, best),
        ensures
            best == whole,
        decreases FEE_TIERS - tier,
    {
        let threshold: u128 = ds.get_u128(&Key::FeeTierVolumeThreshold { market, tier });
        if threshold == 0 && tier > 0 {
            break;
        }
        if volume >= threshold {
            let fee: u128 = ds.get_u128(&Key::FeeTierPositionFeeFactor { market, tier });
            if fee > 0 && (best == 0 || fee < best) {
                best = fee;
            }
        }
        tier = tier + 1;
    }
    best
}

// ---------------------------------------------------------------------------
// Execution
// ---------------------------------------------------------------------------

/// What the pricing module gives for an order: the quote of the position change,
/// or one quote for each hop of the swap.
pub struct ExecutionQuote {
    pub position: PositionQuote,
    pub swaps: Vec<SwapQuote>,
}

/// The price has reached the order's trigger.  A limit increase waits for the
/// price to fall to it.  A limit decrease takes profit: it waits for the price to
/// rise to it for a long and to fall to it for a short.  A stop-loss waits for
/// the opposite.  Every other order is always due.
pub open spec fn trigger_met(order: OrderProps, index_price: PriceProps) -> bool {
    match order.order_type {
        OrderType::LimitIncrease => index_price.min <= order.trigger_price,
        OrderType::LimitDecrease => if order.is_long {
            index_price.max >= order.trigger_price
        } else {
            index_price.min <= order.trigger_price
        },
        OrderType::StopLossDecrease => if order.is_long {
            index_price.min <= order.trigger_price
        } else {
            index_price.max >= order.trigger_price
        },
        _ => true,
    }
}

/// Whether the price has reached the order's trigger.
fn is_triggered(order: &OrderProps, index_price: &PriceProps) -> (r: bool)
    ensures
        r == trigger_met(*order, *index_price),
{
    match order.order_type {
        OrderType::LimitIncrease => index_price.min <= order.trigger_price,
        OrderType::LimitDecrease => if order.is_long {
            index_price.max >= order.trigger_price
        } else {
            index_price.min <= order.trigger_price
        },
        OrderType::StopLossDecrease => if order.is_long {
            index_price.min <= order.trigger_price
        } else {
            index_price.max >= order.trigger_price
        },
        _ => true,
    }
}

/// What carrying out an order does to the store and the positions, and what it
/// asks of the world outside.
pub struct Effect {
    pub store: Store,
    pub positions: Map<PositionStorageKey, PositionProps>,
    pub actions: Seq<Action>,
}

/// The payment of an order's tokens out of the vault.
pub open spec fn vault_payment(config: Config, order: OrderProps, receiver: Address) -> Action {
    Action::VaultTransferOut {
        vault: config.order_vault,
        token: order.initial_collateral_token,
        receiver,
        amount: order.collateral_delta_amount,
    }
}

/// What a swap order does.
pub open spec fn swap_effect(
    s: Store,
    positions: Map<PositionStorageKey, PositionProps>,
    board: Map<Address, PriceProps>,
    config: Config,
    order: OrderProps,
    quotes: Seq<SwapQuote>,
) -> Result<Effect, Failure> {
    if order.swap_path@.len() == 0 {
        Err(Failure::Order(Error::InvalidOrderType))
    } else {
        match swap_utils::path_swap(
            s,
            board,
            order.swap_path@,
            quotes,
            order.receiver,
            order.initial_collateral_token,
            order.collateral_delta_amount,
        ) {
            Err(e) => Err(e),
            Ok(x) => if x.amount_out < order.min_output_amount {
                Err(Failure::Order(Error::PriceTooLow))
            } else {
                Ok(
                    Effect {
                        store: x.store,
                        positions,
                        actions: seq![vault_payment(config, order, order.swap_path@[0])]
                            + x.actions,
                    },
                )
            },
        }
    }
}

/// The parameters of the increase that an order asks for.
pub open spec fn increase_params(
    order: OrderProps,
    market: MarketProps,
    index_price: PriceProps,
    collateral_price: i128,
    timestamp: u64,
) -> IncreasePositionParams {
    IncreasePositionParams {
        account: order.account,
        receiver: order.receiver,
        market,
        collateral_token: order.initial_collateral_token,
        size_delta_usd: order.size_delta_usd,
        collateral_amount: order.collateral_delta_amount,
        acceptable_price: order.acceptable_price,
        is_long: order.is_long,
        index_token_price: index_price,
        collateral_price,
        current_time: timestamp,
    }
}

/// The key of the fee factor of a market.
pub open spec fn fee_key(market: Address, for_positive_impact: bool) -> Key {
    Key::PositionFeeFactor { market, for_positive_impact }
}

/// The store with a market's fee factors replaced, where there is a
/// replacement.
pub open spec fn fees_overridden(s: Store, market: Address, fee: u128) -> Store {
    if fee > 0 {
        s.with_u128(fee_key(market, true), fee).with_u128(fee_key(market, false), fee)
    } else {
        s
    }
}

/// The store `t` with the fee factors of `s` back in place, where they were
/// replaced.
pub open spec fn fees_restored(s: Store, t: Store, market: Address, fee: u128) -> Store {
    if fee > 0 {
        t.with_u128(fee_key(market, true), s.u128_at(fee_key(market, true))).with_u128(
            fee_key(market, false),
            s.u128_at(fee_key(market, false)),
        )
    } else {
        t
    }
}

/// Whether a grown position stays within the leverage that its market allows.
pub open spec fn leverage_check(
    s: Store,
    market: Address,
    position: PositionProps,
    collateral_price: int,
) -> Result<(), Failure> {
    let limit = s.u128_at(Key::MaxLeverage { market });
    let collateral_usd = market_utils::token_usd(
        position.collateral_amount as int,
        collateral_price,
    );
    if limit == 0 || position.collateral_amount <= 0 {
        Ok(())
    } else if !math::fits(collateral_usd) {
        Err(Failure::Overflow)
    } else if collateral_usd > 0 && position_utils::leverage_bps(
        position.size_in_usd,
        collateral_usd,
    ) > limit {
        Err(Failure::Order(Error::MaxLeverageExceeded))
    } else {
        Ok(())
    }
}

/// Checks that a grown position stays within the leverage that its market
/// allows.
fn check_leverage(
    ds: &DataStore,
    market: &Address,
    position: &PositionProps,
    collateral_price: i128,
) -> (r: Result<(), Failure>)
    ensures
        r == leverage_check(ds@, *market, *position, collateral_price as int),
{
    let limit: u128 = ds.get_u128(&Key::MaxLeverage { market: *market });
    if limit > 0 && position.collateral_amount > 0 {
        let collateral_usd: i128 = math::mul_div_wide(
            position.collateral_amount,
            collateral_price,
            TOKEN_PRECISION,
        )?;
        if collateral_usd > 0 {
            let effective: u128 = position_utils::get_leverage_bps(
                position.size_in_usd,
                collateral_usd,
            );
            if effective > limit {
                return Err(Failure::Order(Error::MaxLeverageExceeded));
            }
        }
    }
    Ok(())
}

/// The average price at which a position was entered.
pub open spec fn entry_price(p: PositionProps) -> int {
    if p.size_in_tokens > 0 {
        math::trunc_div(p.size_in_usd * TOKEN_PRECISION, p.size_in_tokens as int)
    } else {
        0
    }
}

/// The size and the collateral of a position before an increase.
pub open spec fn size_before(
    positions: Map<PositionStorageKey, PositionProps>,
    key: PositionKey,
) -> (i128, i128) {
    let stored = PositionStorageKey::Position(key);
    if positions.dom().contains(stored) {
        (positions[stored].size_in_usd, positions[stored].collateral_amount)
    } else {
        (0, 0)
    }
}

/// The event of an increase: an opening where there was no size before.
pub open spec fn increase_event(
    order: OrderProps,
    key: PositionKey,
    before: (i128, i128),
    after: PositionProps,
) -> Result<Event, Failure> {
    let avg_entry_price = entry_price(after) as i128;
    if !math::fits(entry_price(after)) {
        Err(Failure::Overflow)
    } else if before.0 == 0 {
        Ok(
            Event::PositionOpened(
                PositionOpenedEvent {
                    key,
                    account: order.account,
                    market: order.market,
                    size_in_usd: after.size_in_usd,
                    collateral_amount: after.collateral_amount,
                    is_long: order.is_long,
                    avg_entry_price,
                },
            ),
        )
    } else if !math::fits(after.size_in_usd - before.0) || !math::fits(
        after.collateral_amount - before.1,
    ) {
        Err(Failure::Overflow)
    } else {
        Ok(
            Event::PositionIncreased(
                PositionIncreasedEvent {
                    key,
                    account: order.account,
                    market: order.market,
                    delta_size_usd: (after.size_in_usd - before.0) as i128,
                    delta_collateral: (after.collateral_amount - before.1) as i128,
                    new_size_usd: after.size_in_usd,
                    avg_entry_price,
                },
            ),
        )
    }
}

/// What an increase order does: its tokens go to the pool, the position grows
/// at the trader's own fee, and the market's fee factors are as before.
pub open spec fn increase_effect(
    s: Store,
    positions: Map<PositionStorageKey, PositionProps>,
    config: Config,
    order: OrderProps,
    p: IncreasePositionParams,
    fee: u128,
    q: PositionQuote,
) -> Result<Effect, Failure> {
    match increase_position_utils::increase(
        fees_overridden(s, order.market, fee),
        positions,
        p,
        q,
    ) {
        Err(e) => Err(e),
        Ok(i) => {
            let t = fees_restored(s, i.store, order.market, fee);
            match leverage_check(t, order.market, i.position, p.collateral_price as int) {
                Err(e) => Err(e),
                Ok(_) => {
                    let key = increase_position_utils::increase_key(p);
                    match increase_event(order, key, size_before(positions, key), i.position) {
                        Err(e) => Err(e),
                        Ok(event) => Ok(
                            Effect {
                                store: t,
                                positions: i.positions,
                                actions: seq![vault_payment(config, order, p.market.market_token)]
                                    + i.actions + seq![Action::Publish(event)],
                            },
                        ),
                    }
                },
            }
        },
    }
}

/// The parameters of the decrease that an order asks for.
pub open spec fn decrease_params(
    order: OrderProps,
    market: MarketProps,
    index_price: PriceProps,
    collateral_price: i128,
    timestamp: u64,
) -> DecreasePositionParams {
    DecreasePositionParams {
        account: order.account,
        receiver: order.receiver,
        market,
        collateral_token: order.initial_collateral_token,
        size_delta_usd: order.size_delta_usd,
        acceptable_price: order.acceptable_price,
        is_long: order.is_long,
        index_token_price: index_price,
        collateral_price,
        current_time: timestamp,
    }
}

/// The event of a decrease order.
pub open spec fn closing_event(
    order: OrderProps,
    key: PositionKey,
    result: DecreasePositionResult,
) -> Event {
    if result.is_fully_closed {
        Event::PositionClosed(
            PositionClosedEvent {
                key,
                account: order.account,
                market: order.market,
                pnl_usd: result.pnl_usd,
                execution_price: result.execution_price,
            },
        )
    } else {
        Event::PositionDecreased(
            PositionDecreasedEvent {
                key,
                account: order.account,
                market: order.market,
                delta_size_usd: order.size_delta_usd,
                pnl_usd: result.pnl_usd,
                execution_price: result.execution_price,
            },
        )
    }
}

/// What a decrease order does.
pub open spec fn decrease_effect(
    s: Store,
    positions: Map<PositionStorageKey, PositionProps>,
    order: OrderProps,
    p: DecreasePositionParams,
    q: PositionQuote,
) -> Result<Effect, Failure> {
    match decrease_position_utils::close(s, positions, p, q) {
        Err(e) => Err(e),
        Ok(c) => Ok(
            Effect {
                store: c.store,
                positions: c.positions,
                actions: decrease_position_utils::decrease_actions(p, c) + seq![
                    Action::Publish(
                        closing_event(order, decrease_position_utils::decrease_key(p), c.result),
                    ),
                ],
            },
        ),
    }
}

/// What carrying out an order does, by its type.
pub open spec fn order_effect(
    s: Store,
    positions: Map<PositionStorageKey, PositionProps>,
    board: Map<Address, PriceProps>,
    config: Config,
    order: OrderProps,
    market: MarketProps,
    index_price: PriceProps,
    collateral_price: i128,
    timestamp: u64,
    fee: u128,
    q: ExecutionQuote,
) -> Result<Effect, Failure> {
    match order.order_type {
        OrderType::MarketSwap | OrderType::LimitSwap => swap_effect(
            s,
            positions,
            board,
            config,
            order,
            q.swaps@,
        ),
        OrderType::MarketIncrease | OrderType::LimitIncrease | OrderType::StopIncrease =>
            increase_effect(
            s,
            positions,
            config,
            order,
            increase_params(order, market, index_price, collateral_price, timestamp),
            fee,
            q.position,
        ),
        OrderType::MarketDecrease | OrderType::LimitDecrease | OrderType::StopLossDecrease
        | OrderType::Liquidation => decrease_effect(
            s,
            positions,
            order,
            decrease_params(order, market, index_price, collateral_price, timestamp),
            q.position,
        ),
    }
}

/// What is asked of the world outside after an order was carried out: tell the
/// referral storage the traded size, publish the execution.
pub open spec fn closing_actions(b: OrderBook, order: OrderProps, key: OrderKey) -> Seq<Action> {
    let executed = Action::Publish(Event::OrderExecuted { key, account: order.account });
    match b.referral_storage {
        Some(referral_storage) => if order.size_delta_usd > 0 {
            seq![
                Action::IncrementReferrerVolume {
                    referral_storage,
                    trader: order.account,
                    volume_usd: order.size_delta_usd as u128,
                },
                executed,
            ]
        } else {
            seq![executed]
        },
        None => seq![executed],
    }
}

/// What `execute_order` does.
pub struct Execution {
    pub book: OrderBook,
    pub store: Store,
    pub actions: Seq<Action>,
}

/// The order under a key that may be executed now, or why it may not.
pub open spec fn executable_order(b: OrderBook, key: OrderKey) -> Result<OrderProps, Failure> {
    if !has_order(b, key) {
        Err(Failure::Order(Error::OrderNotFound))
    } else if is_frozen(b, key) {
        Err(Failure::Order(Error::OrderFrozen))
    } else {
        Ok(order_at(b, key))
    }
}

/// The market, the index price and the collateral price that a call needs, or
/// what is missing.
pub struct Conditions {
    pub market: MarketProps,
    pub index_price: PriceProps,
    pub collateral_price: i128,
}

/// The market and the prices for a collateral token.
pub open spec fn conditions(
    s: Store,
    board: Map<Address, PriceProps>,
    market: Address,
    collateral_token: Address,
) -> Result<Conditions, Failure> {
    match market_utils::registered_market(s, market) {
        Err(e) => Err(e),
        Ok(m) => match types::price_of(board, m.index_token) {
            Err(e) => Err(e),
            Ok(index_price) => match types::mid_price_of(board, collateral_token) {
                Err(e) => Err(e),
                Ok(collateral_price) => Ok(
                    Conditions { market: m, index_price, collateral_price },
                ),
            },
        },
    }
}

/// Whether a keeper may call: it authorised the call, the handler is set up and
/// the keeper holds the role.
pub open spec fn keeper_check(
    b: OrderBook,
    roles: Set<Grant>,
    ledger: Ledger,
    keeper: Address,
    role: Role,
) -> Result<Config, Failure> {
    if !ledger.authorised(keeper) {
        Err(Failure::MissingAuthorisation)
    } else {
        match b.config {
            None => Err(Failure::Order(Error::NotInitialized)),
            Some(config) => if !role_store::holds(roles, keeper, role) {
                Err(Failure::Order(Error::Unauthorized))
            } else {
                Ok(config)
            },
        }
    }
}

/// What `execute_order` does, or why it is rejected.
pub open spec fn execution(
    b: OrderBook,
    s: Store,
    roles: Set<Grant>,
    board: Map<Address, PriceProps>,
    ledger: Ledger,
    keeper: Address,
    key: OrderKey,
    q: ExecutionQuote,
) -> Result<Execution, Failure> {
    match keeper_check(b, roles, ledger, keeper, Role::OrderKeeper) {
        Err(e) => Err(e),
        Ok(config) => match executable_order(b, key) {
            Err(e) => Err(e),
            Ok(order) => match conditions(s, board, order.market, order.initial_collateral_token) {
                Err(e) => Err(e),
                Ok(c) => if !trigger_met(order, c.index_price) {
                    Err(Failure::Order(Error::UnsatisfiedTrigger))
                } else {
                    match order_effect(
                        volume_counted(
                            s,
                            order.account,
                            order.market,
                            ledger.sequence,
                            order.size_delta_usd as int,
                        ),
                        b.positions,
                        board,
                        config,
                        order,
                        c.market,
                        c.index_price,
                        c.collateral_price,
                        ledger.timestamp,
                        tier_fee(
                            s,
                            order.account,
                            order.market,
                            ledger.sequence,
                            order.size_delta_usd as int,
                        ),
                        q,
                    ) {
                        Err(e) => Err(e),
                        Ok(x) => Ok(
                            Execution {
                                book: OrderBook { positions: x.positions, ..without_order(b, key) },
                                store: order_delisted(x.store, key, order.account).with_u128(
                                    Key::LastKeeperActivity,
                                    ledger.timestamp as u128,
                                ),
                                actions: x.actions + closing_actions(b, order, key),
                            },
                        ),
                    }
                },
            },
        },
    }
}

// ---------------------------------------------------------------------------
// Cancelling, updating, freezing
// ---------------------------------------------------------------------------

/// What a cancellation asks of the world outside: the refund, where the order
/// brought tokens, and the event.
pub open spec fn cancel_actions(config: Config, order: OrderProps, key: OrderKey) -> Seq<Action> {
    let cancelled = Action::Publish(Event::OrderCancelled { key, account: order.account });
    if brings_tokens(order.order_type) && order.collateral_delta_amount > 0 {
        seq![vault_payment(config, order, order.account), cancelled]
    } else {
        seq![cancelled]
    }
}

/// What a cancellation by a caller that authorised it does, or why it is
/// rejected.
pub open spec fn authorised_cancellation(
    b: OrderBook,
    s: Store,
    roles: Set<Grant>,
    caller: Address,
    key: OrderKey,
) -> Result<Execution, Failure> {
    match b.config {
        None => Err(Failure::Order(Error::NotInitialized)),
        Some(config) => if !has_order(b, key) {
            Err(Failure::Order(Error::OrderNotFound))
        } else if caller != order_at(b, key).account && !role_store::holds(
            roles,
            caller,
            Role::OrderKeeper,
        ) {
            Err(Failure::Order(Error::Unauthorized))
        } else {
            Ok(
                Execution {
                    book: without_order(b, key),
                    store: order_delisted(s, key, order_at(b, key).account),
                    actions: cancel_actions(config, order_at(b, key), key),
                },
            )
        },
    }
}

/// What `cancel_order` does, or why it is rejected.
pub open spec fn cancellation(
    b: OrderBook,
    s: Store,
    roles: Set<Grant>,
    ledger: Ledger,
    caller: Address,
    key: OrderKey,
) -> Result<Execution, Failure> {
    if !ledger.authorised(caller) {
        Err(Failure::MissingAuthorisation)
    } else {
        authorised_cancellation(b, s, roles, caller, key)
    }
}

/// What `update_order` makes of the order book, or why it is rejected.
pub open spec fn updated_book(
    b: OrderBook,
    ledger: Ledger,
    caller: Address,
    key: OrderKey,
    size_delta_usd: i128,
    acceptable_price: i128,
    trigger_price: i128,
    min_output_amount: i128,
) -> Result<OrderBook, Failure> {
    if !ledger.authorised(caller) {
        Err(Failure::MissingAuthorisation)
    } else if !has_order(b, key) {
        Err(Failure::Order(Error::OrderNotFound))
    } else if caller != order_at(b, key).account {
        Err(Failure::Order(Error::Unauthorized))
    } else {
        Ok(
            OrderBook {
                orders: b.orders.insert(
                    OrderStorageKey::Order(key),
                    OrderProps {
                        size_delta_usd,
                        acceptable_price,
                        trigger_price,
                        min_output_amount,
                        updated_at_time: ledger.timestamp,
                        ..order_at(b, key)
                    },
                ),
                frozen: b.frozen.remove(OrderStorageKey::OrderFrozen(key)),
                ..b
            },
        )
    }
}

/// What `freeze_order` makes of the order book, or why it is rejected.
pub open spec fn frozen_book(
    b: OrderBook,
    roles: Set<Grant>,
    ledger: Ledger,
    keeper: Address,
    key: OrderKey,
) -> Result<OrderBook, Failure> {
    match keeper_check(b, roles, ledger, keeper, Role::OrderKeeper) {
        Err(e) => Err(e),
        Ok(_) => if !has_order(b, key) {
            Err(Failure::Order(Error::OrderNotFound))
        } else {
            Ok(
                OrderBook {
                    frozen: b.frozen.insert(OrderStorageKey::OrderFrozen(key), true),
                    ..b
                },
            )
        },
    }
}

// ---------------------------------------------------------------------------
// Liquidation and auto-deleveraging
// ---------------------------------------------------------------------------

/// Who gets what of a liquidated position's collateral.
#[derive(Clone, Copy, Debug, PartialEq, Eq, Structural)]
pub struct CollateralSplit {
    pub keeper_fee: i128,
    pub insurance_fee: i128,
    pub remainder: i128,
}

/// The smaller of two numbers.
pub open spec fn smaller(a: int, b: int) -> int {
    if a < b {
        a
    } else {
        b
    }
}

/// A factor that the store configures.
pub open spec fn factor_at(s: Store, key: Key) -> int {
    math::signed(s.u128_at(key)) as int
}

/// The fee on a liquidated position's collateral before any ceiling.
pub open spec fn raw_liquidation_fee(s: Store, market: Address, gross: int) -> int {
    math::trunc_div(
        gross * factor_at(s, Key::LiquidationFeeFactor { market }),
        FLOAT_PRECISION as int,
    )
}

/// The ceiling on that fee, in collateral tokens.
pub open spec fn liquidation_fee_ceiling(s: Store, market: Address, price: int) -> int {
    math::trunc_div(factor_at(s, Key::MaxLiquidationFee { market }) * TOKEN_PRECISION, price)
}

/// A ceiling is configured and there is a price to express it in tokens.
pub open spec fn has_fee_ceiling(s: Store, market: Address, price: int) -> bool {
    factor_at(s, Key::MaxLiquidationFee { market }) > 0 && price > 0
}

/// The fee on a liquidated position's collateral: a fraction of it, at most the
/// ceiling and at most all of it.
pub open spec fn liquidation_fee(s: Store, market: Address, gross: int, price: int) -> int {
    let raw = math::at_least_zero(raw_liquidation_fee(s, market, gross));
    let ceiled = if has_fee_ceiling(s, market, price) {
        smaller(raw, liquidation_fee_ceiling(s, market, price))
    } else {
        raw
    };
    smaller(ceiled, gross)
}

/// The keeper's part of that fee before it is bounded.
pub open spec fn raw_keeper_fee(s: Store, market: Address, fee: int) -> int {
    math::trunc_div(
        fee * factor_at(s, Key::LiquidationKeeperFeeFactor { market }),
        FLOAT_PRECISION as int,
    )
}

/// The keeper's part of the fee: never negative and never more than the fee.
pub open spec fn keeper_fee(s: Store, market: Address, fee: int) -> int {
    smaller(math::at_least_zero(raw_keeper_fee(s, market, fee)), fee)
}

/// The insurance fund that is configured for a market.
pub open spec fn configured_fund(s: Store, market: Address) -> Option<Address> {
    s.address_at(insurance_fund_router::fund_key(market))
}

/// What `split_collateral` returns: without an insurance fund the owner keeps
/// everything; with one, the fee is shared by the keeper and the fund.
pub open spec fn collateral_split(
    s: Store,
    market: Address,
    gross: int,
    price: int,
    has_fund: bool,
) -> Result<CollateralSplit, Failure> {
    let fee = liquidation_fee(s, market, gross, price);
    if !has_fund {
        Ok(CollateralSplit { keeper_fee: 0, insurance_fee: 0, remainder: gross as i128 })
    } else if math::fits(raw_liquidation_fee(s, market, gross)) && (has_fee_ceiling(
        s,
        market,
        price,
    ) ==> math::fits(liquidation_fee_ceiling(s, market, price))) && math::fits(
        raw_keeper_fee(s, market, fee),
    ) {
        Ok(
            CollateralSplit {
                keeper_fee: keeper_fee(s, market, fee) as i128,
                insurance_fee: (fee - keeper_fee(s, market, fee)) as i128,
                remainder: (gross - fee) as i128,
            },
        )
    } else {
        Err(Failure::Overflow)
    }
}

/// Splits a liquidated position's collateral between the keeper, the insurance
/// fund and the owner.
pub fn split_collateral(
    ds: &DataStore,
    market: &Address,
    gross: i128,
    collateral_price: i128,
    has_fund: bool,
) -> (r: Result<CollateralSplit, Failure>)
    requires
        gross >= 0,
    ensures
        r == collateral_split(ds@, *market, gross as int, collateral_price as int, has_fund),
{
    if !has_fund {
        return Ok(CollateralSplit { keeper_fee: 0, insurance_fee: 0, remainder: gross });
    }
    let market = *market;
    let factor: i128 = math::to_signed(ds.get_u128(&Key::LiquidationFeeFactor { market }));
    let raw: i128 = math::mul_div_wide(gross, factor, FLOAT_PRECISION)?;
    let mut fee: i128 = if raw < 0 {
        0
    } else {
        raw
    };
    let ceiling_usd: i128 = math::to_signed(ds.get_u128(&Key::MaxLiquidationFee { market }));
    if ceiling_usd > 0 && collateral_price > 0 {
        let ceiling: i128 = math::mul_div_wide(ceiling_usd, TOKEN_PRECISION, collateral_price)?;
        proof {
            assert(ceiling_usd * TOKEN_PRECISION >= 0) by (nonlinear_arith)
                requires
                    ceiling_usd > 0,
            ;
            math::trunc_div_is_floor(ceiling_usd * TOKEN_PRECISION, collateral_price as int);
        }
        if ceiling < fee {
            fee = ceiling;
        }
    }
    if gross < fee {
        fee = gross;
    }
    let share: i128 = math::to_signed(ds.get_u128(&Key::LiquidationKeeperFeeFactor { market }));
    let raw_share: i128 = math::mul_div_wide(fee, share, FLOAT_PRECISION)?;
    let mut keeper_fee: i128 = if raw_share < 0 {
        0
    } else {
        raw_share
    };
    if fee < keeper_fee {
        keeper_fee = fee;
    }
    Ok(
        CollateralSplit {
            keeper_fee,
            insurance_fee: fee - keeper_fee,
            remainder: gross - fee,
        },
    )
}

/// The payment of an amount out of a market's pool; nothing is paid where the
/// amount is zero.
pub open spec fn pool_payment(
    market: Address,
    token: Address,
    receiver: Address,
    amount: i128,
) -> Seq<Action> {
    if amount > 0 {
        seq![Action::WithdrawFromPool { market, token, receiver, amount }]
    } else {
        Seq::empty()
    }
}

/// Asks for a payment out of a market's pool.
fn push_payment(
    out: &mut Vec<Action>,
    market: &Address,
    token: &Address,
    receiver: &Address,
    amount: i128,
)
    ensures
        final(out)@ == old(out)@ + pool_payment(*market, *token, *receiver, amount),
{
    if amount > 0 {
        out.push(
            Action::WithdrawFromPool {
                market: *market,
                token: *token,
                receiver: *receiver,
                amount,
            },
        );
    } else {
        assert(out@ + Seq::<Action>::empty() =~= out@);
    }
}

/// The payments of a liquidation, in order of priority.
pub open spec fn liquidation_payments(
    p: DecreasePositionParams,
    keeper: Address,
    fund: Option<Address>,
    split: CollateralSplit,
) -> Seq<Action> {
    let market = p.market.market_token;
    let token = p.collateral_token;
    pool_payment(market, token, keeper, split.keeper_fee) + (match fund {
        Some(f) => pool_payment(market, token, f, split.insurance_fee),
        None => Seq::empty(),
    }) + pool_payment(market, token, p.account, split.remainder)
}

/// What a liquidation asks of the world outside: make the payments, publish the
/// events.
pub open spec fn liquidation_actions(
    p: DecreasePositionParams,
    keeper: Address,
    fund: Option<Address>,
    split: CollateralSplit,
    position: PositionKey,
    result: DecreasePositionResult,
    size: i128,
) -> Seq<Action> {
    liquidation_payments(p, keeper, fund, split) + seq![
        decrease_position_utils::decrease_event(p, result, size),
        Action::Publish(
            Event::PositionLiquidated(
                PositionLiquidatedEvent {
                    key: position,
                    account: position.account,
                    market: position.market,
                    execution_price: result.execution_price,
                    remaining_collateral: result.remaining_collateral,
                },
            ),
        ),
    ]
}

/// The parameters of the decrease that a liquidation or an auto-deleveraging
/// asks for: the owner is paid, at any price.
pub open spec fn forced_decrease(
    c: Conditions,
    account: Address,
    collateral_token: Address,
    is_long: bool,
    size_delta_usd: i128,
    timestamp: u64,
) -> DecreasePositionParams {
    DecreasePositionParams {
        account,
        receiver: account,
        market: c.market,
        collateral_token,
        size_delta_usd,
        acceptable_price: 0,
        is_long,
        index_token_price: c.index_price,
        collateral_price: c.collateral_price,
        current_time: timestamp,
    }
}

/// What `liquidate_position` does, or why it is rejected.
pub open spec fn liquidation(
    b: OrderBook,
    s: Store,
    roles: Set<Grant>,
    board: Map<Address, PriceProps>,
    ledger: Ledger,
    keeper: Address,
    position: PositionKey,
    fund: Option<Address>,
    q: PositionQuote,
) -> Result<Execution, Failure> {
    let stored = PositionStorageKey::Position(position);
    match keeper_check(b, roles, ledger, keeper, Role::LiquidationKeeper) {
        Err(e) => Err(e),
        Ok(_) => match conditions(s, board, position.market, position.collateral_token) {
            Err(e) => Err(e),
            Ok(c) => if !b.positions.dom().contains(stored) {
                Err(Failure::Order(Error::OrderNotFound))
            } else {
                match position_utils::liquidation_test(
                    s,
                    b.positions[stored],
                    c.market,
                    c.collateral_price as int,
                    c.index_price,
                ) {
                    Err(e) => Err(e),
                    Ok(due) => if !due {
                        Err(Failure::Order(Error::InvalidOrderType))
                    } else {
                        liquidation_carried_out(b, s, c, ledger, keeper, position, fund, q)
                    },
                }
            },
        },
    }
}

/// What liquidating a position that is due for it does.
pub open spec fn liquidation_carried_out(
    b: OrderBook,
    s: Store,
    c: Conditions,
    ledger: Ledger,
    keeper: Address,
    position: PositionKey,
    fund: Option<Address>,
    q: PositionQuote,
) -> Result<Execution, Failure> {
    let p = forced_decrease(
        c,
        position.account,
        position.collateral_token,
        position.is_long,
        b.positions[PositionStorageKey::Position(position)].size_in_usd,
        ledger.timestamp,
    );
    match decrease_position_utils::close(s, b.positions, p, q) {
        Err(e) => Err(e),
        Ok(closed) => match collateral_split(
            closed.store,
            position.market,
            closed.result.output_amount as int,
            c.collateral_price as int,
            fund is Some,
        ) {
            Err(e) => Err(e),
            Ok(split) => Ok(
                Execution {
                    book: OrderBook { positions: closed.positions, ..b },
                    store: closed.store,
                    actions: liquidation_actions(
                        p,
                        keeper,
                        fund,
                        split,
                        position,
                        closed.result,
                        closed.size,
                    ),
                },
            ),
        },
    }
}

/// What `execute_adl` does, or why it is rejected.
pub open spec fn deleveraging(
    b: OrderBook,
    s: Store,
    roles: Set<Grant>,
    board: Map<Address, PriceProps>,
    ledger: Ledger,
    keeper: Address,
    position: PositionKey,
    size_delta_usd: i128,
    q: PositionQuote,
) -> Result<Execution, Failure> {
    match keeper_check(b, roles, ledger, keeper, Role::AdlKeeper) {
        Err(e) => Err(e),
        Ok(_) => match conditions(s, board, position.market, position.collateral_token) {
            Err(e) => Err(e),
            Ok(c) => {
                let p = forced_decrease(
                    c,
                    position.account,
                    position.collateral_token,
                    position.is_long,
                    size_delta_usd,
                    ledger.timestamp,
                );
                match decrease_position_utils::close(s, b.positions, p, q) {
                    Err(e) => Err(e),
                    Ok(closed) => Ok(
                        Execution {
                            book: OrderBook { positions: closed.positions, ..b },
                            store: closed.store,
                            actions: decrease_position_utils::decrease_actions(p, closed)
                                + seq![
                                Action::Publish(
                                    Event::AdlExecuted {
                                        account: position.account,
                                        market: position.market,
                                        size_delta_usd,
                                        pnl_usd: closed.result.pnl_usd,
                                    },
                                ),
                            ],
                        },
                    ),
                }
            },
        },
    }
}

/// The order keepers have been silent for longer than the store allows; a
/// timeout of zero allows any silence.
pub open spec fn keeper_is_stale(s: Store, timestamp: u64) -> bool {
    let timeout = s.u128_at(Key::KeeperHeartbeatTimeout);
    timeout > 0 && timestamp - s.u128_at(Key::LastKeeperActivity) > timeout
}

// ---------------------------------------------------------------------------
// Carrying out
// ---------------------------------------------------------------------------

/// Carries out a swap order, on a store and actions that the caller discards
/// where it is rejected.
fn run_swap(
    ds: &mut DataStore,
    out: &mut Vec<Action>,
    prices: &PriceBoard,
    config: &Config,
    order: &OrderProps,
    quotes: &Vec<SwapQuote>,
    positions: Ghost<Map<PositionStorageKey, PositionProps>>,
) -> (r: Result<(), Failure>)
    ensures
        match swap_effect(old(ds)@, positions@, prices@, *config, *order, quotes@) {
            Ok(x) => {
                &&& r == Ok::<(), Failure>(())
                &&& final(ds)@ == x.store
                &&& final(out)@ == old(out)@ + x.actions
                &&& x.positions == positions@
            },
            Err(e) => r == Err::<(), Failure>(e),
        },
{
    if order.swap_path.len() == 0 {
        return Err(Failure::Order(Error::InvalidOrderType));
    }
    let ghost planned = swap_utils::path_swap(
        ds@,
        prices@,
        order.swap_path@,
        quotes@,
        order.receiver,
        order.initial_collateral_token,
        order.collateral_delta_amount,
    );
    out.push(
        Action::VaultTransferOut {
            vault: config.order_vault,
            token: order.initial_collateral_token,
            receiver: order.swap_path[0],
            amount: order.collateral_delta_amount,
        },
    );
    let (_, amount_out) = swap_utils::swap_path_in(
        ds,
        out,
        prices,
        &order.initial_collateral_token,
        order.collateral_delta_amount,
        &order.swap_path,
        &order.receiver,
        quotes,
    )?;
    if amount_out < order.min_output_amount {
        return Err(Failure::Order(Error::PriceTooLow));
    }
    proof {
        let payment = vault_payment(*config, *order, order.swap_path@[0]);
        assert(old(out)@.push(payment) + planned->Ok_0.actions =~= old(out)@ + (seq![payment]
            + planned->Ok_0.actions));
    }
    Ok(())
}

/// The event of an increase.
fn make_increase_event(
    order: &OrderProps,
    key: &PositionKey,
    size_before: i128,
    collateral_before: i128,
    after: &PositionProps,
) -> (r: Result<Event, Failure>)
    ensures
        r == increase_event(*order, *key, (size_before, collateral_before), *after),
{
    let avg_entry_price: i128 = if after.size_in_tokens > 0 {
        math::mul_div_wide(after.size_in_usd, TOKEN_PRECISION, after.size_in_tokens)?
    } else {
        0
    };
    if size_before == 0 {
        return Ok(
            Event::PositionOpened(
                PositionOpenedEvent {
                    key: *key,
                    account: order.account,
                    market: order.market,
                    size_in_usd: after.size_in_usd,
                    collateral_amount: after.collateral_amount,
                    is_long: order.is_long,
                    avg_entry_price,
                },
            ),
        );
    }
    let delta_size_usd: i128 = math::minus(after.size_in_usd, size_before)?;
    let delta_collateral: i128 = math::minus(after.collateral_amount, collateral_before)?;
    Ok(
        Event::PositionIncreased(
            PositionIncreasedEvent {
                key: *key,
                account: order.account,
                market: order.market,
                delta_size_usd,
                delta_collateral,
                new_size_usd: after.size_in_usd,
                avg_entry_price,
            },
        ),
    )
}

/// Carries out an increase order, on a store, positions and actions that the
/// caller discards where it is rejected.
fn run_increase(
    ds: &mut DataStore,
    positions: &mut Table<PositionStorageKey, PositionProps>,
    out: &mut Vec<Action>,
    config: &Config,
    order: &OrderProps,
    p: &IncreasePositionParams,
    fee: u128,
    q: &PositionQuote,
) -> (r: Result<(), Failure>)
    ensures
        match increase_effect(old(ds)@, old(positions)@, *config, *order, *p, fee, *q) {
            Ok(x) => {
                &&& r == Ok::<(), Failure>(())
                &&& final(ds)@ == x.store
                &&& final(positions)@ == x.positions
                &&& final(out)@ == old(out)@ + x.actions
            },
            Err(e) => r == Err::<(), Failure>(e),
        },
{
    let ghost planned = increase_effect(ds@, positions@, *config, *order, *p, fee, *q);
    let market = order.market;
    let key_pos = Key::PositionFeeFactor { market, for_positive_impact: true };
    let key_neg = Key::PositionFeeFactor { market, for_positive_impact: false };
    let original_pos: u128 = ds.get_u128(&key_pos);
    let original_neg: u128 = ds.get_u128(&key_neg);
    out.push(
        Action::VaultTransferOut {
            vault: config.order_vault,
            token: order.initial_collateral_token,
            receiver: p.market.market_token,
            amount: order.collateral_delta_amount,
        },
    );
    if fee > 0 {
        ds.put_u128(key_pos, fee);
        ds.put_u128(key_neg, fee);
    }
    let key = position_utils::get_position_key(
        &p.account,
        &p.market.market_token,
        &p.collateral_token,
        p.is_long,
    );
    let (size_before, collateral_before) = match positions.get(&PositionStorageKey::Position(key)) {
        Some(before) => (before.size_in_usd, before.collateral_amount),
        None => (0, 0),
    };
    let updated = increase_position_utils::increase_in(ds, positions, out, p, q)?;
    if fee > 0 {
        ds.put_u128(key_pos, original_pos);
        ds.put_u128(key_neg, original_neg);
    }
    check_leverage(ds, &market, &updated, p.collateral_price)?;
    let event = make_increase_event(order, &key, size_before, collateral_before, &updated)?;
    out.push(Action::Publish(event));
    assert(out@ =~= old(out)@ + planned->Ok_0.actions);
    Ok(())
}

/// Carries out a decrease order, on a store, positions and actions that the
/// caller discards where it is rejected.
fn run_decrease(
    ds: &mut DataStore,
    positions: &mut Table<PositionStorageKey, PositionProps>,
    out: &mut Vec<Action>,
    order: &OrderProps,
    p: &DecreasePositionParams,
    q: &PositionQuote,
) -> (r: Result<(), Failure>)
    ensures
        match decrease_effect(old(ds)@, old(positions)@, *order, *p, *q) {
            Ok(x) => {
                &&& r == Ok::<(), Failure>(())
                &&& final(ds)@ == x.store
                &&& final(positions)@ == x.positions
                &&& final(out)@ == old(out)@ + x.actions
            },
            Err(e) => r == Err::<(), Failure>(e),
        },
{
    let ghost planned = decrease_effect(ds@, positions@, *order, *p, *q);
    let key = position_utils::get_position_key(
        &p.account,
        &p.market.market_token,
        &p.collateral_token,
        p.is_long,
    );
    let result = decrease_position_utils::decrease_in(ds, positions, out, p, q)?;
    let event = if result.is_fully_closed {
        Event::PositionClosed(
            PositionClosedEvent {
                key,
                account: order.account,
                market: order.market,
                pnl_usd: result.pnl_usd,
                execution_price: result.execution_price,
            },
        )
    } else {
        Event::PositionDecreased(
            PositionDecreasedEvent {
                key,
                account: order.account,
                market: order.market,
                delta_size_usd: order.size_delta_usd,
                pnl_usd: result.pnl_usd,
                execution_price: result.execution_price,
            },
        )
    };
    out.push(Action::Publish(event));
    assert(out@ =~= old(out)@ + planned->Ok_0.actions);
    Ok(())
}

/// Asks for everything that a liquidation asks of the world outside.
fn push_liquidation(
    out: &mut Vec<Action>,
    p: &DecreasePositionParams,
    keeper: &Address,
    fund: &Option<Address>,
    split: &CollateralSplit,
    position: &PositionKey,
    closed: &Closed,
)
    ensures
        final(out)@ == old(out)@ + liquidation_actions(
            *p,
            *keeper,
            *fund,
            *split,
            *position,
            closed.result,
            closed.size,
        ),
{
    let market = p.market.market_token;
    let token = p.collateral_token;
    push_payment(out, &market, &token, keeper, split.keeper_fee);
    if let Some(fund) = fund {
        push_payment(out, &market, &token, fund, split.insurance_fee);
    }
    push_payment(out, &market, &token, &p.account, split.remainder);
    decrease_position_utils::push_decrease_event(out, p, closed);
    out.push(
        Action::Publish(
            Event::PositionLiquidated(
                PositionLiquidatedEvent {
                    key: *position,
                    account: position.account,
                    market: position.market,
                    execution_price: closed.result.execution_price,
                    remaining_collateral: closed.result.remaining_collateral,
                },
            ),
        ),
    );
    assert(out@ =~= old(out)@ + liquidation_actions(
        *p,
        *keeper,
        *fund,
        *split,
        *position,
        closed.result,
        closed.size,
    ));
}

/// Loads the market and the prices for a collateral token.
pub(crate) fn load_conditions(
    ds: &DataStore,
    prices: &PriceBoard,
    market: &Address,
    collateral_token: &Address,
) -> (r: Result<(MarketProps, PriceProps, i128), Failure>)
    ensures
        match conditions(ds@, prices@, *market, *collateral_token) {
            Ok(c) => r == Ok::<(MarketProps, PriceProps, i128), Failure>(
                (c.market, c.index_price, c.collateral_price),
            ),
            Err(e) => r == Err::<(MarketProps, PriceProps, i128), Failure>(e),
        },
{
    let m = market_utils::load_market_props(ds, market)?;
    let index_price = prices.get_primary_price(&m.index_token)?;
    let collateral_price: i128 = prices.get_mid_price(collateral_token)?;
    Ok((m, index_price, collateral_price))
}

impl OrderHandler {
    /// A handler that is not set up yet.
    pub fn new() -> (r: Self)
        ensures
            r@ == (OrderBook {
                config: None,
                referral_storage: None,
                orders: Map::empty(),
                frozen: Map::empty(),
                positions: Map::empty(),
            }),
    {
        OrderHandler {
            config: None,
            referral_storage: None,
            orders: Table::new(),
            frozen: Table::new(),
            positions: Table::new(),
        }
    }

    /// Sets the handler up, once.
    pub fn initialize(
        &mut self,
        ledger: &Ledger,
        admin: Address,
        role_store: Address,
        data_store: Address,
        oracle: Address,
        order_vault: Address,
    ) -> (r: Result<(), Failure>)
        ensures
            r == if !ledger.authorised(admin) {
                Err::<(), Failure>(Failure::MissingAuthorisation)
            } else if old(self)@.config is Some {
                Err(Failure::Order(Error::AlreadyInitialized))
            } else {
                Ok(())
            },
            final(self)@ == if r is Ok {
                OrderBook {
                    config: Some(Config { admin, role_store, data_store, oracle, order_vault }),
                    ..old(self)@
                }
            } else {
                old(self)@
            },
    {
        ledger.require_auth(&admin)?;
        if self.config.is_some() {
            return Err(Failure::Order(Error::AlreadyInitialized));
        }
        self.config = Some(Config { admin, role_store, data_store, oracle, order_vault });
        Ok(())
    }

    /// Names the referral storage that is told of traded sizes.  Only the admin
    /// may.
    pub fn set_referral_storage(
        &mut self,
        ledger: &Ledger,
        caller: Address,
        referral_storage: Address,
    ) -> (r: Result<(), Failure>)
        ensures
            r == if !ledger.authorised(caller) {
                Err::<(), Failure>(Failure::MissingAuthorisation)
            } else {
                match old(self)@.config {
                    None => Err(Failure::Order(Error::NotInitialized)),
                    Some(config) => if config.admin != caller {
                        Err(Failure::Order(Error::Unauthorized))
                    } else {
                        Ok(())
                    },
                }
            },
            final(self)@ == if r is Ok {
                OrderBook { referral_storage: Some(referral_storage), ..old(self)@ }
            } else {
                old(self)@
            },
    {
        ledger.require_auth(&caller)?;
        match &self.config {
            None => {
                return Err(Failure::Order(Error::NotInitialized));
            },
            Some(config) => {
                if config.admin != caller {
                    return Err(Failure::Order(Error::Unauthorized));
                }
            },
        }
        self.referral_storage = Some(referral_storage);
        Ok(())
    }

    /// Creates an order.  `received` is what the order vault has newly received
    /// of the order's token; it is the collateral of an order that increases a
    /// position or swaps.
    pub fn create_order(
        &mut self,
        ledger: &Ledger,
        ds: &mut DataStore,
        out: &mut Vec<Action>,
        caller: Address,
        params: CreateOrderParams,
        received: i128,
    ) -> (r: Result<OrderKey, Failure>)
        ensures
            match creation(old(self)@, old(ds)@, *ledger, caller, params, received) {
                Ok(c) => {
                    &&& r == Ok::<OrderKey, Failure>(c.key)
                    &&& final(self)@ == c.book
                    &&& final(ds)@ == c.store
                    &&& final(out)@ == old(out)@ + c.actions
                },
                Err(e) => {
                    &&& r == Err::<OrderKey, Failure>(e)
                    &&& final(self)@ == old(self)@
                    &&& final(ds)@ == old(ds)@
                    &&& final(out)@ == old(out)@
                },
            },
    {
        ledger.require_auth(&caller)?;
        if self.config.is_none() {
            return Err(Failure::Order(Error::NotInitialized));
        }
        let brings = is_increase_or_swap(params.order_type);
        let collateral_delta_amount: i128 = if !brings {
            params.collateral_delta_amount
        } else if received < 0 {
            0
        } else {
            received
        };
        let min_fee: u128 = ds.get_u128(&Key::MinExecutionFee);
        if min_fee > 0 && (params.execution_fee < 0 || (params.execution_fee as u128) < min_fee) {
            return Err(Failure::Order(Error::InsufficientExecutionFee));
        }
        match swap_utils::validate_swap_path(ds, &params.swap_path) {
            Ok(_) => {},
            Err(Failure::Swap(SwapError::PathTooLong)) => {
                return Err(Failure::Order(Error::SwapPathTooLong));
            },
            Err(_) => {
                return Err(Failure::Order(Error::DuplicateMarketInPath));
            },
        }
        if brings && collateral_delta_amount == 0 {
            return Err(Failure::Order(Error::ZeroCollateral));
        }
        let nonce: u64 = ds.increment_nonce()?;
        let key = OrderKey { nonce };
        let market = params.market;
        let order = OrderProps {
            account: caller,
            receiver: params.receiver,
            market,
            initial_collateral_token: params.initial_collateral_token,
            swap_path: params.swap_path,
            size_delta_usd: params.size_delta_usd,
            collateral_delta_amount,
            trigger_price: params.trigger_price,
            acceptable_price: params.acceptable_price,
            execution_fee: params.execution_fee,
            min_output_amount: params.min_output_amount,
            order_type: params.order_type,
            is_long: params.is_long,
            updated_at_time: ledger.timestamp,
        };
        self.orders.set(OrderStorageKey::Order(key), order);
        ds.add_to_set(Member::OrderList(key));
        ds.add_to_set(Member::AccountOrderList(caller, key));
        out.push(Action::Publish(Event::OrderCreated { key, account: caller, market }));
        Ok(key)
    }

    /// Checks that a keeper may call.
    fn check_keeper(&self, ledger: &Ledger, roles: &RoleStore, keeper: &Address, role: Role) -> (r:
        Result<Config, Failure>)
        ensures
            r == keeper_check(self@, roles@, *ledger, *keeper, role),
    {
        ledger.require_auth(keeper)?;
        match &self.config {
            None => Err(Failure::Order(Error::NotInitialized)),
            Some(config) => if roles.has_role(keeper, role) {
                Ok(*config)
            } else {
                Err(Failure::Order(Error::Unauthorized))
            },
        }
    }

    /// Whether the order under a key is frozen.
    fn frozen_flag(&self, key: &OrderKey) -> (r: bool)
        ensures
            r == is_frozen(self@, *key),
    {
        match self.frozen.get(&OrderStorageKey::OrderFrozen(*key)) {
            Some(flag) => *flag,
            None => false,
        }
    }

    /// Carries out a pending order at current prices.  Only an order keeper may.
    /// `q` is what the pricing module gives for the order.
    #[verifier::rlimit(60)]
    #[verifier::spinoff_prover]
    pub fn execute_order(
        &mut self,
        ledger: &Ledger,
        roles: &RoleStore,
        ds: &mut DataStore,
        prices: &PriceBoard,
        out: &mut Vec<Action>,
        keeper: Address,
        key: OrderKey,
        q: &ExecutionQuote,
    ) -> (r: Result<(), Failure>)
        ensures
            match execution(
                old(self)@,
                old(ds)@,
                roles@,
                prices@,
                *ledger,
                keeper,
                key,
                *q,
            ) {
                Ok(x) => {
                    &&& r == Ok::<(), Failure>(())
                    &&& final(self)@ == x.book
                    &&& final(ds)@ == x.store
                    &&& final(out)@ == old(out)@ + x.actions
                },
                Err(e) => {
                    &&& r == Err::<(), Failure>(e)
                    &&& final(self)@ == old(self)@
                    &&& final(ds)@ == old(ds)@
                    &&& final(out)@ == old(out)@
                },
            },
    {
        let config = self.check_keeper(ledger, roles, &keeper, Role::OrderKeeper)?;
        let stored = OrderStorageKey::Order(key);
        let order: &OrderProps = match self.orders.get(&stored) {
            Some(order) => order,
            None => {
                return Err(Failure::Order(Error::OrderNotFound));
            },
        };
        if self.frozen_flag(&key) {
            return Err(Failure::Order(Error::OrderFrozen));
        }
        let (market, index_price, collateral_price) = load_conditions(
            ds,
            prices,
            &order.market,
            &order.initial_collateral_token,
        )?;
        if !is_triggered(order, &index_price) {
            return Err(Failure::Order(Error::UnsatisfiedTrigger));
        }
        let mut work = ds.duplicate();
        let mut positions = self.positions.duplicate();
        let mut actions: Vec<Action> = Vec::new();
        let fee: u128 = resolve_fee_tier(
            &mut work,
            &order.account,
            &order.market,
            ledger.sequence,
            order.size_delta_usd,
        );
        let ghost planned = order_effect(
            work@,
            positions@,
            prices@,
            config,
            *order,
            market,
            index_price,
            collateral_price,
            ledger.timestamp,
            fee,
            *q,
        );
        match order.order_type {
            OrderType::MarketSwap | OrderType::LimitSwap => {
                run_swap(
                    &mut work,
                    &mut actions,
                    prices,
                    &config,
                    order,
                    &q.swaps,
                    Ghost(positions@),
                )?;
            },
            OrderType::MarketIncrease | OrderType::LimitIncrease | OrderType::StopIncrease => {
                let p = IncreasePositionParams {
                    account: order.account,
                    receiver: order.receiver,
                    market,
                    collateral_token: order.initial_collateral_token,
                    size_delta_usd: order.size_delta_usd,
                    collateral_amount: order.collateral_delta_amount,
                    acceptable_price: order.acceptable_price,
                    is_long: order.is_long,
                    index_token_price: index_price,
                    collateral_price,
                    current_time: ledger.timestamp,
                };
                run_increase(
                    &mut work,
                    &mut positions,
                    &mut actions,
                    &config,
                    order,
                    &p,
                    fee,
                    &q.position,
                )?;
            },
            OrderType::MarketDecrease | OrderType::LimitDecrease | OrderType::StopLossDecrease
            | OrderType::Liquidation => {
                let p = DecreasePositionParams {
                    account: order.account,
                    receiver: order.receiver,
                    market,
                    collateral_token: order.initial_collateral_token,
                    size_delta_usd: order.size_delta_usd,
                    acceptable_price: order.acceptable_price,
                    is_long: order.is_long,
                    index_token_price: index_price,
                    collateral_price,
                    current_time: ledger.timestamp,
                };
                run_decrease(
                    &mut work,
                    &mut positions,
                    &mut actions,
                    order,
                    &p,
                    &q.position,
                )?;
            },
        }
        assert(actions@ =~= planned->Ok_0.actions);
        let account = order.account;
        let size_delta_usd: i128 = order.size_delta_usd;
        let ghost carried_out = *order;
        work.remove_from_set(Member::OrderList(key));
        work.remove_from_set(Member::AccountOrderList(account, key));
        work.put_u128(Key::LastKeeperActivity, ledger.timestamp as u128);
        if let Some(referral_storage) = self.referral_storage {
            if size_delta_usd > 0 {
                actions.push(
                    Action::IncrementReferrerVolume {
                        referral_storage,
                        trader: account,
                        volume_usd: size_delta_usd as u128,
                    },
                );
            }
        }
        actions.push(Action::Publish(Event::OrderExecuted { key, account }));
        assert(actions@ =~= planned->Ok_0.actions + closing_actions(self@, carried_out, key));
        self.orders.remove(&stored);
        self.frozen.remove(&OrderStorageKey::OrderFrozen(key));
        self.positions = positions;
        *ds = work;
        out.append(&mut actions);
        Ok(())
    }

    /// Cancels a pending order and refunds the tokens that it brought.  Its
    /// owner and the order keepers may.
    pub fn cancel_order(
        &mut self,
        ledger: &Ledger,
        roles: &RoleStore,
        ds: &mut DataStore,
        out: &mut Vec<Action>,
        caller: Address,
        key: OrderKey,
    ) -> (r: Result<(), Failure>)
        ensures
            match cancellation(old(self)@, old(ds)@, roles@, *ledger, caller, key) {
                Ok(x) => {
                    &&& r == Ok::<(), Failure>(())
                    &&& final(self)@ == x.book
                    &&& final(ds)@ == x.store
                    &&& final(out)@ == old(out)@ + x.actions
                },
                Err(e) => {
                    &&& r == Err::<(), Failure>(e)
                    &&& final(self)@ == old(self)@
                    &&& final(ds)@ == old(ds)@
                    &&& final(out)@ == old(out)@
                },
            },
    {
        ledger.require_auth(&caller)?;
        self.cancel_authorised(roles, ds, out, caller, key)
    }

    /// Cancels a pending order for a caller that authorised it.
    pub(crate) fn cancel_authorised(
        &mut self,
        roles: &RoleStore,
        ds: &mut DataStore,
        out: &mut Vec<Action>,
        caller: Address,
        key: OrderKey,
    ) -> (r: Result<(), Failure>)
        ensures
            match authorised_cancellation(old(self)@, old(ds)@, roles@, caller, key) {
                Ok(x) => {
                    &&& r == Ok::<(), Failure>(())
                    &&& final(self)@ == x.book
                    &&& final(ds)@ == x.store
                    &&& final(out)@ == old(out)@ + x.actions
                },
                Err(e) => {
                    &&& r == Err::<(), Failure>(e)
                    &&& final(self)@ == old(self)@
                    &&& final(ds)@ == old(ds)@
                    &&& final(out)@ == old(out)@
                },
            },
    {
        let config = match &self.config {
            Some(config) => *config,
            None => {
                return Err(Failure::Order(Error::NotInitialized));
            },
        };
        let stored = OrderStorageKey::Order(key);
        let order = match self.orders.get(&stored) {
            Some(order) => order,
            None => {
                return Err(Failure::Order(Error::OrderNotFound));
            },
        };
        let is_keeper = roles.has_role(&caller, Role::OrderKeeper);
        if caller != order.account && !is_keeper {
            return Err(Failure::Order(Error::Unauthorized));
        }
        let account = order.account;
        if is_increase_or_swap(order.order_type) && order.collateral_delta_amount > 0 {
            out.push(
                Action::VaultTransferOut {
                    vault: config.order_vault,
                    token: order.initial_collateral_token,
                    receiver: account,
                    amount: order.collateral_delta_amount,
                },
            );
        }
        out.push(Action::Publish(Event::OrderCancelled { key, account }));
        assert(out@ =~= old(out)@ + cancel_actions(config, *order, key));
        self.orders.remove(&stored);
        self.frozen.remove(&OrderStorageKey::OrderFrozen(key));
        ds.remove_from_set(Member::OrderList(key));
        ds.remove_from_set(Member::AccountOrderList(account, key));
        Ok(())
    }

    /// Changes the size, the prices and the least output of a pending order, and
    /// thaws it where it was frozen.  Only its owner may.
    pub fn update_order(
        &mut self,
        ledger: &Ledger,
        out: &mut Vec<Action>,
        caller: Address,
        key: OrderKey,
        size_delta_usd: i128,
        acceptable_price: i128,
        trigger_price: i128,
        min_output_amount: i128,
    ) -> (r: Result<(), Failure>)
        ensures
            match updated_book(
                old(self)@,
                *ledger,
                caller,
                key,
                size_delta_usd,
                acceptable_price,
                trigger_price,
                min_output_amount,
            ) {
                Ok(b) => {
                    &&& r == Ok::<(), Failure>(())
                    &&& final(self)@ == b
                    &&& final(out)@ == old(out)@.push(
                        Action::Publish(Event::OrderUpdated { key, account: caller }),
                    )
                },
                Err(e) => {
                    &&& r == Err::<(), Failure>(e)
                    &&& final(self)@ == old(self)@
                    &&& final(out)@ == old(out)@
                },
            },
    {
        ledger.require_auth(&caller)?;
        let stored = OrderStorageKey::Order(key);
        match self.orders.get(&stored) {
            Some(order) => {
                if caller != order.account {
                    return Err(Failure::Order(Error::Unauthorized));
                }
            },
            None => {
                return Err(Failure::Order(Error::OrderNotFound));
            },
        }
        if let Some(mut order) = self.orders.remove(&stored) {
            order.size_delta_usd = size_delta_usd;
            order.acceptable_price = acceptable_price;
            order.trigger_price = trigger_price;
            order.min_output_amount = min_output_amount;
            order.updated_at_time = ledger.timestamp;
            let ghost updated = order;
            self.orders.set(stored, order);
            assert(self.orders@ =~= old(self)@.orders.insert(stored, updated));
        }
        self.frozen.remove(&OrderStorageKey::OrderFrozen(key));
        out.push(Action::Publish(Event::OrderUpdated { key, account: caller }));
        Ok(())
    }

    /// Freezes an order that cannot be executed at present.  Only an order keeper
    /// may.
    pub fn freeze_order(
        &mut self,
        ledger: &Ledger,
        roles: &RoleStore,
        out: &mut Vec<Action>,
        keeper: Address,
        key: OrderKey,
    ) -> (r: Result<(), Failure>)
        ensures
            match frozen_book(old(self)@, roles@, *ledger, keeper, key) {
                Ok(b) => {
                    &&& r == Ok::<(), Failure>(())
                    &&& final(self)@ == b
                    &&& final(out)@ == old(out)@.push(Action::Publish(Event::OrderFrozen { key }))
                },
                Err(e) => {
                    &&& r == Err::<(), Failure>(e)
                    &&& final(self)@ == old(self)@
                    &&& final(out)@ == old(out)@
                },
            },
    {
        self.check_keeper(ledger, roles, &keeper, Role::OrderKeeper)?;
        if !self.orders.has(&OrderStorageKey::Order(key)) {
            return Err(Failure::Order(Error::OrderNotFound));
        }
        self.frozen.set(OrderStorageKey::OrderFrozen(key), true);
        out.push(Action::Publish(Event::OrderFrozen { key }));
        Ok(())
    }

    /// The vault that holds the tokens of pending orders.
    pub fn order_vault(&self) -> (r: Option<Address>)
        ensures
            r == match self@.config {
                Some(config) => Some(config.order_vault),
                None => None,
            },
    {
        match &self.config {
            Some(config) => Some(config.order_vault),
            None => None,
        }
    }

    /// The order under a key.
    pub fn get_order(&self, key: &OrderKey) -> (r: Option<&OrderProps>)
        ensures
            match r {
                Some(order) => has_order(self@, *key) && *order == order_at(self@, *key),
                None => !has_order(self@, *key),
            },
    {
        self.orders.get(&OrderStorageKey::Order(*key))
    }

    /// The position under a key.
    pub fn get_position(&self, key: &PositionKey) -> (r: Option<PositionProps>)
        ensures
            r == position_at(self@.positions, *key),
    {
        match self.positions.get(&PositionStorageKey::Position(*key)) {
            Some(position) => Some(*position),
            None => None,
        }
    }

    /// Closes a position that has fallen below its maintenance level, and splits
    /// what is left of its collateral between the keeper, the insurance fund and
    /// the owner.  Only a liquidation keeper may.
    #[verifier::rlimit(60)]
    #[verifier::spinoff_prover]
    pub fn liquidate_position(
        &mut self,
        env: &Env,
        ledger: &Ledger,
        roles: &RoleStore,
        ds: &mut DataStore,
        prices: &PriceBoard,
        out: &mut Vec<Action>,
        keeper: Address,
        position: PositionKey,
        q: &PositionQuote,
    ) -> (r: Result<(), Failure>)
        ensures
            match liquidation(
                old(self)@,
                old(ds)@,
                roles@,
                prices@,
                *ledger,
                keeper,
                position,
                configured_fund(old(ds)@, position.market),
                *q,
            ) {
                Ok(x) => {
                    &&& r == Ok::<(), Failure>(())
                    &&& final(self)@ == x.book
                    &&& final(ds)@ == x.store
                    &&& final(out)@ == old(out)@ + x.actions
                },
                Err(e) => {
                    &&& r == Err::<(), Failure>(e)
                    &&& final(self)@ == old(self)@
                    &&& final(ds)@ == old(ds)@
                    &&& final(out)@ == old(out)@
                },
            },
    {
        let ghost planned = liquidation(
            self@,
            ds@,
            roles@,
            prices@,
            *ledger,
            keeper,
            position,
            configured_fund(ds@, position.market),
            *q,
        );
        self.check_keeper(ledger, roles, &keeper, Role::LiquidationKeeper)?;
        let (market, index_token_price, collateral_price) = load_conditions(
            ds,
            prices,
            &position.market,
            &position.collateral_token,
        )?;
        let held = match self.positions.get(&PositionStorageKey::Position(position)) {
            Some(held) => *held,
            None => {
                return Err(Failure::Order(Error::OrderNotFound));
            },
        };
        if !position_utils::is_liquidatable(
            ds,
            &held,
            &market,
            collateral_price,
            &index_token_price,
        )? {
            return Err(Failure::Order(Error::InvalidOrderType));
        }
        let p = DecreasePositionParams {
            account: position.account,
            receiver: position.account,
            market,
            collateral_token: position.collateral_token,
            size_delta_usd: held.size_in_usd,
            acceptable_price: 0,
            is_long: position.is_long,
            index_token_price,
            collateral_price,
            current_time: ledger.timestamp,
        };
        let mut work = ds.duplicate();
        let mut positions = self.positions.duplicate();
        let mut actions: Vec<Action> = Vec::new();
        let closed = decrease_position_utils::close_in(&mut work, &mut positions, &p, q)?;
        let insurance_fund = InsuranceFundRouter::get_insurance_fund(env, ds, &position.market);
        let split = split_collateral(
            &work,
            &position.market,
            closed.result.output_amount,
            collateral_price,
            insurance_fund.is_some(),
        )?;
        push_liquidation(
            &mut actions,
            &p,
            &keeper,
            &insurance_fund,
            &split,
            &position,
            &closed,
        );
        assert(actions@ =~= planned->Ok_0.actions);
        self.positions = positions;
        *ds = work;
        out.append(&mut actions);
        Ok(())
    }

    /// Closes a slice of a position to relieve the pool.  Only an
    /// auto-deleveraging keeper may.
    pub fn execute_adl(
        &mut self,
        ledger: &Ledger,
        roles: &RoleStore,
        ds: &mut DataStore,
        prices: &PriceBoard,
        out: &mut Vec<Action>,
        keeper: Address,
        position: PositionKey,
        size_delta_usd: i128,
        q: &PositionQuote,
    ) -> (r: Result<(), Failure>)
        ensures
            match deleveraging(
                old(self)@,
                old(ds)@,
                roles@,
                prices@,
                *ledger,
                keeper,
                position,
                size_delta_usd,
                *q,
            ) {
                Ok(x) => {
                    &&& r == Ok::<(), Failure>(())
                    &&& final(self)@ == x.book
                    &&& final(ds)@ == x.store
                    &&& final(out)@ == old(out)@ + x.actions
                },
                Err(e) => {
                    &&& r == Err::<(), Failure>(e)
                    &&& final(self)@ == old(self)@
                    &&& final(ds)@ == old(ds)@
                    &&& final(out)@ == old(out)@
                },
            },
    {
        let ghost planned = deleveraging(
            self@,
            ds@,
            roles@,
            prices@,
            *ledger,
            keeper,
            position,
            size_delta_usd,
            *q,
        );
        self.check_keeper(ledger, roles, &keeper, Role::AdlKeeper)?;
        let (market, index_token_price, collateral_price) = load_conditions(
            ds,
            prices,
            &position.market,
            &position.collateral_token,
        )?;
        let p = DecreasePositionParams {
            account: position.account,
            receiver: position.account,
            market,
            collateral_token: position.collateral_token,
            size_delta_usd,
            acceptable_price: 0,
            is_long: position.is_long,
            index_token_price,
            collateral_price,
            current_time: ledger.timestamp,
        };
        let result = decrease_position_utils::decrease_position(
            ds,
            &mut self.positions,
            out,
            &p,
            q,
        )?;
        out.push(
            Action::Publish(
                Event::AdlExecuted {
                    account: position.account,
                    market: position.market,
                    size_delta_usd,
                    pnl_usd: result.pnl_usd,
                },
            ),
        );
        assert(out@ =~= old(out)@ + planned->Ok_0.actions);
        Ok(())
    }

    /// Reports, to anyone who asks, that the order keepers have been silent for
    /// longer than the store allows.  Gives whether they have.
    pub fn flag_stale_keeper(ledger: &Ledger, ds: &DataStore, out: &mut Vec<Action>) -> (r: bool)
        ensures
            r == keeper_is_stale(ds@, ledger.timestamp),
            final(out)@ == if r {
                old(out)@.push(
                    Action::Publish(
                        Event::KeeperStale {
                            last_activity: ds@.u128_at(Key::LastKeeperActivity) as u64,
                            timestamp: ledger.timestamp,
                        },
                    ),
                )
            } else {
                old(out)@
            },
    {
        let timeout: u128 = ds.get_u128(&Key::KeeperHeartbeatTimeout);
        let last: u128 = ds.get_u128(&Key::LastKeeperActivity);
        let now: u128 = ledger.timestamp as u128;
        if timeout > 0 && now > last && now - last > timeout {
            out.push(
                Action::Publish(
                    Event::KeeperStale {
                        last_activity: last as u64,
                        timestamp: ledger.timestamp,
                    },
                ),
            );
            return true;
        }
        false
    }
}

// ---------------------------------------------------------------------------
// Laws
// ---------------------------------------------------------------------------

/// Every stored order was numbered by the store's counter.
pub open spec fn numbered(b: OrderBook, s: Store) -> bool {
    forall|key: OrderKey| #[trigger] has_order(b, key) ==> key.nonce <= s.nonce
}

/// A created order is stored as asked under a key that no order had, it is on
/// both lists, and no other order changes.
pub proof fn created_order_is_new_and_listed(
    b: OrderBook,
    s: Store,
    ledger: Ledger,
    caller: Address,
    params: CreateOrderParams,
    received: i128,
)
    requires
        numbered(b, s),
    ensures
        creation(b, s, ledger, caller, params, received) matches Ok(c) ==> {
            &&& !has_order(b, c.key)
            &&& has_order(c.book, c.key)
            &&& order_at(c.book, c.key) == new_order(caller, params, received, ledger.timestamp)
            &&& c.store.lists(Member::OrderList(c.key))
            &&& c.store.lists(Member::AccountOrderList(caller, c.key))
            &&& forall|other: OrderKey|
                #![trigger has_order(c.book, other)]
                other != c.key ==> has_order(c.book, other) == has_order(b, other) && order_at(
                    c.book,
                    other,
                ) == order_at(b, other)
            &&& numbered(c.book, c.store)
        },
{
    if let Ok(c) = creation(b, s, ledger, caller, params, received) {
        assert forall|other: OrderKey| other != c.key implies #[trigger] has_order(c.book, other)
            == has_order(b, other) && order_at(c.book, other) == order_at(b, other) by {}
        assert forall|key: OrderKey| #[trigger] has_order(c.book, key) implies key.nonce
            <= c.store.nonce by {
            if key != c.key {
                assert(has_order(b, key));
            }
        }
        assert(!has_order(b, c.key));
    }
}

/// Every order that is created pays at least the least execution fee, swaps along
/// a path that is short and free of repetitions, and brings tokens where its type
/// calls for them.
pub proof fn created_orders_meet_the_rules(
    b: OrderBook,
    s: Store,
    ledger: Ledger,
    caller: Address,
    params: CreateOrderParams,
    received: i128,
)
    requires
        creation(b, s, ledger, caller, params, received) is Ok,
    ensures
        ({
            let order = new_order(caller, params, received, ledger.timestamp);
            &&& s.u128_at(Key::MinExecutionFee) > 0 ==> order.execution_fee >= s.u128_at(
                Key::MinExecutionFee,
            )
            &&& order.swap_path@.len() <= swap_utils::max_path_length(s)
            &&& order.swap_path@.no_duplicates()
            &&& brings_tokens(order.order_type) ==> order.collateral_delta_amount > 0
        }),
{
}

/// Cancelling an order right after creating it refunds exactly what arrived with
/// it, to its owner, and leaves the order book as it was.
pub proof fn cancelling_undoes_creating(
    b: OrderBook,
    s: Store,
    roles: Set<Grant>,
    ledger: Ledger,
    caller: Address,
    params: CreateOrderParams,
    received: i128,
)
    requires
        numbered(b, s),
        forall|key: OrderKey|
            key.nonce > s.nonce ==> !#[trigger] b.frozen.dom().contains(
                OrderStorageKey::OrderFrozen(key),
            ),
    ensures
        creation(b, s, ledger, caller, params, received) matches Ok(c) ==> {
            &&& cancellation(c.book, c.store, roles, ledger, caller, c.key) matches Ok(x)
            &&& x.book == b
            &&& !x.store.lists(Member::OrderList(c.key))
            &&& !x.store.lists(Member::AccountOrderList(caller, c.key))
            &&& brings_tokens(params.order_type) && received > 0 ==> x.actions[0]
                == (Action::VaultTransferOut {
                vault: b.config->0.order_vault,
                token: params.initial_collateral_token,
                receiver: caller,
                amount: received,
            })
        },
{
    if let Ok(c) = creation(b, s, ledger, caller, params, received) {
        let stored = OrderStorageKey::Order(c.key);
        assert(!has_order(b, c.key));
        assert(c.book.orders.remove(stored) =~= b.orders);
        assert(!b.frozen.dom().contains(OrderStorageKey::OrderFrozen(c.key)));
        assert(b.frozen.remove(OrderStorageKey::OrderFrozen(c.key)) =~= b.frozen);
        assert(without_order(c.book, c.key) =~= b);
    }
}

/// Only the owner of an order or an order keeper can cancel it.
pub proof fn only_owner_or_keeper_cancels(
    b: OrderBook,
    s: Store,
    roles: Set<Grant>,
    ledger: Ledger,
    caller: Address,
    key: OrderKey,
)
    requires
        cancellation(b, s, roles, ledger, caller, key) is Ok,
    ensures
        ledger.authorised(caller),
        caller == order_at(b, key).account || role_store::holds(roles, caller, Role::OrderKeeper),
{
}

/// Orders are executed by order keepers alone, and only once: an executed order
/// is gone, with its frozen flag and its places on the lists.
pub proof fn executed_order_is_gone(
    b: OrderBook,
    s: Store,
    roles: Set<Grant>,
    board: Map<Address, PriceProps>,
    ledger: Ledger,
    keeper: Address,
    key: OrderKey,
    q: ExecutionQuote,
    again: ExecutionQuote,
)
    ensures
        execution(b, s, roles, board, ledger, keeper, key, q) matches Ok(x) ==> {
            &&& role_store::holds(roles, keeper, Role::OrderKeeper)
            &&& !has_order(x.book, key)
            &&& !is_frozen(x.book, key)
            &&& !x.store.lists(Member::OrderList(key))
            &&& !x.store.lists(Member::AccountOrderList(order_at(b, key).account, key))
            &&& execution(x.book, x.store, roles, board, ledger, keeper, key, again) == Err::<
                Execution,
                Failure,
            >(Failure::Order(Error::OrderNotFound))
        },
{
}

/// No order is executed before the price has reached its trigger.
pub proof fn execution_waits_for_the_trigger(
    b: OrderBook,
    s: Store,
    roles: Set<Grant>,
    board: Map<Address, PriceProps>,
    ledger: Ledger,
    keeper: Address,
    key: OrderKey,
    q: ExecutionQuote,
)
    requires
        execution(b, s, roles, board, ledger, keeper, key, q) is Ok,
    ensures
        market_utils::market_at(s, order_at(b, key).market) matches Some(m)
            && board.dom().contains(m.index_token) && trigger_met(
            order_at(b, key),
            board[m.index_token],
        ),
{
}

/// No order is filled beyond what its owner accepts: a position is not bought
/// dearer or sold cheaper than the acceptable price, and a swap yields at least
/// the least output.
pub proof fn execution_respects_the_owners_limits(
    b: OrderBook,
    s: Store,
    roles: Set<Grant>,
    board: Map<Address, PriceProps>,
    ledger: Ledger,
    keeper: Address,
    key: OrderKey,
    q: ExecutionQuote,
)
    requires
        execution(b, s, roles, board, ledger, keeper, key, q) is Ok,
    ensures
        ({
            let order = order_at(b, key);
            let price = q.position.execution_price;
            match order.order_type {
                OrderType::MarketSwap | OrderType::LimitSwap => swap_utils::path_swap(
                    volume_counted(
                        s,
                        order.account,
                        order.market,
                        ledger.sequence,
                        order.size_delta_usd as int,
                    ),
                    board,
                    order.swap_path@,
                    q.swaps@,
                    order.receiver,
                    order.initial_collateral_token,
                    order.collateral_delta_amount,
                ) matches Ok(x) && x.amount_out >= order.min_output_amount,
                OrderType::MarketIncrease | OrderType::LimitIncrease | OrderType::StopIncrease =>
                    order.acceptable_price == 0 || (if order.is_long {
                    price <= order.acceptable_price
                } else {
                    price >= order.acceptable_price
                }),
                _ => order.acceptable_price == 0 || (if order.is_long {
                    price >= order.acceptable_price
                } else {
                    price <= order.acceptable_price
                }),
            }
        }),
{
}

/// A frozen order is not executed, whatever else holds; updating it thaws it.
pub proof fn frozen_order_waits_for_an_update(
    b: OrderBook,
    s: Store,
    roles: Set<Grant>,
    board: Map<Address, PriceProps>,
    ledger: Ledger,
    keeper: Address,
    key: OrderKey,
    q: ExecutionQuote,
    size_delta_usd: i128,
    acceptable_price: i128,
    trigger_price: i128,
    min_output_amount: i128,
)
    ensures
        frozen_book(b, roles, ledger, keeper, key) matches Ok(f) ==> {
            let owner = order_at(b, key).account;
            &&& is_frozen(f, key)
            &&& execution(f, s, roles, board, ledger, keeper, key, q) == Err::<Execution, Failure>(
                Failure::Order(Error::OrderFrozen),
            )
            &&& updated_book(
                f,
                ledger,
                owner,
                key,
                size_delta_usd,
                acceptable_price,
                trigger_price,
                min_output_amount,
            ) matches Ok(u) ==> !is_frozen(u, key) && has_order(u, key)
        },
{
}

/// An update changes the size, the prices, the least output and the time of an
/// order, and nothing else of it.
pub proof fn update_keeps_the_rest_of_the_order(
    b: OrderBook,
    ledger: Ledger,
    caller: Address,
    key: OrderKey,
    size_delta_usd: i128,
    acceptable_price: i128,
    trigger_price: i128,
    min_output_amount: i128,
)
    ensures
        updated_book(
            b,
            ledger,
            caller,
            key,
            size_delta_usd,
            acceptable_price,
            trigger_price,
            min_output_amount,
        ) matches Ok(u) ==> {
            let before = order_at(b, key);
            let after = order_at(u, key);
            &&& caller == before.account
            &&& after.account == before.account
            &&& after.receiver == before.receiver
            &&& after.market == before.market
            &&& after.initial_collateral_token == before.initial_collateral_token
            &&& after.swap_path == before.swap_path
            &&& after.collateral_delta_amount == before.collateral_delta_amount
            &&& after.execution_fee == before.execution_fee
            &&& after.order_type == before.order_type
            &&& after.is_long == before.is_long
            &&& u.positions == b.positions
        },
{
}

proof fn lemma_path_keeps_fees(
    s: Store,
    board: Map<Address, PriceProps>,
    path: Seq<Address>,
    quotes: Seq<SwapQuote>,
    receiver: Address,
    i: int,
    token: Address,
    amount: i128,
    market: Address,
    positive: bool,
)
    ensures
        swap_utils::path_from(s, board, path, quotes, receiver, i, token, amount) matches Ok(x)
            ==> x.store.u128_at(fee_key(market, positive)) == s.u128_at(fee_key(market, positive)),
    decreases path.len() - i,
{
    if i < path.len() {
        if let Ok(m) = market_utils::registered_market(s, path[i]) {
            if i < quotes.len() {
                if let Ok(x) = swap_utils::hop(
                    s,
                    board,
                    m,
                    token,
                    amount,
                    swap_utils::hop_receiver(path, i, receiver),
                    quotes[i],
                ) {
                    lemma_path_keeps_fees(
                        x.store,
                        board,
                        path,
                        quotes,
                        receiver,
                        i + 1,
                        x.token_out,
                        x.amount_out,
                        market,
                        positive,
                    );
                }
            }
        }
    }
}

proof fn lemma_increase_keeps_fees(
    s: Store,
    positions: Map<PositionStorageKey, PositionProps>,
    p: IncreasePositionParams,
    q: PositionQuote,
    market: Address,
    positive: bool,
)
    ensures
        increase_position_utils::increase(s, positions, p, q) matches Ok(i) ==> i.store.u128_at(
            fee_key(market, positive),
        ) == s.u128_at(fee_key(market, positive)),
{
}

proof fn lemma_close_keeps_fees(
    s: Store,
    positions: Map<PositionStorageKey, PositionProps>,
    p: DecreasePositionParams,
    q: PositionQuote,
    market: Address,
    positive: bool,
)
    ensures
        decrease_position_utils::close(s, positions, p, q) matches Ok(c) ==> c.store.u128_at(
            fee_key(market, positive),
        ) == s.u128_at(fee_key(market, positive)),
{
}

proof fn lemma_effect_keeps_fees(
    s: Store,
    positions: Map<PositionStorageKey, PositionProps>,
    board: Map<Address, PriceProps>,
    config: Config,
    order: OrderProps,
    c: Conditions,
    timestamp: u64,
    fee: u128,
    q: ExecutionQuote,
    market: Address,
    positive: bool,
)
    ensures
        order_effect(
            s,
            positions,
            board,
            config,
            order,
            c.market,
            c.index_price,
            c.collateral_price,
            timestamp,
            fee,
            q,
        ) matches Ok(x) ==> x.store.u128_at(fee_key(market, positive)) == s.u128_at(
            fee_key(market, positive),
        ),
{
    match order.order_type {
        OrderType::MarketSwap | OrderType::LimitSwap => {
            lemma_path_keeps_fees(
                s,
                board,
                order.swap_path@,
                q.swaps@,
                order.receiver,
                0,
                order.initial_collateral_token,
                order.collateral_delta_amount,
                market,
                positive,
            );
        },
        OrderType::MarketIncrease | OrderType::LimitIncrease | OrderType::StopIncrease => {
            let p = increase_params(
                order,
                c.market,
                c.index_price,
                c.collateral_price,
                timestamp,
            );
            lemma_increase_keeps_fees(
                fees_overridden(s, order.market, fee),
                positions,
                p,
                q.position,
                market,
                positive,
            );
        },
        _ => {
            let p = decrease_params(
                order,
                c.market,
                c.index_price,
                c.collateral_price,
                timestamp,
            );
            lemma_close_keeps_fees(s, positions, p, q.position, market, positive);
        },
    }
}

/// A trader's own fee holds for that trader's order alone: after any execution
/// the fee factors of every market are what they were.
pub proof fn execution_keeps_the_fee_factors(
    b: OrderBook,
    s: Store,
    roles: Set<Grant>,
    board: Map<Address, PriceProps>,
    ledger: Ledger,
    keeper: Address,
    key: OrderKey,
    q: ExecutionQuote,
    market: Address,
    positive: bool,
)
    ensures
        execution(b, s, roles, board, ledger, keeper, key, q) matches Ok(x) ==> x.store.u128_at(
            fee_key(market, positive),
        ) == s.u128_at(fee_key(market, positive)),
{
    if let Ok(_) = execution(b, s, roles, board, ledger, keeper, key, q) {
        let order = order_at(b, key);
        let size = order.size_delta_usd as int;
        let counted = volume_counted(s, order.account, order.market, ledger.sequence, size);
        lemma_effect_keeps_fees(
            counted,
            b.positions,
            board,
            b.config->0,
            order,
            conditions(s, board, order.market, order.initial_collateral_token)->Ok_0,
            ledger.timestamp,
            tier_fee(s, order.account, order.market, ledger.sequence, size),
            q,
            market,
            positive,
        );
    }
}

/// Without a configured fee tier no trader has a fee of their own.
pub proof fn no_tiers_no_own_fee(
    s: Store,
    account: Address,
    market: Address,
    sequence: u32,
    size_delta_usd: int,
)
    requires
        s.u128_at(Key::FeeTierPositionFeeFactor { market, tier: 0 }) == 0,
        s.u128_at(Key::FeeTierVolumeThreshold { market, tier: 1 }) == 0,
    ensures
        tier_fee(s, account, market, sequence, size_delta_usd) == 0,
{
    reveal_with_fuel(best_fee, 3);
}

/// A trader's volume only grows within its window, and starts over with the
/// order that finds the window expired.
pub proof fn volume_grows_within_its_window(
    s: Store,
    account: Address,
    market: Address,
    sequence: u32,
    size_delta_usd: int,
)
    ensures
        ({
            let before = s.u128_at(volume_key(account, market));
            let after = volume_counted(s, account, market, sequence, size_delta_usd).u128_at(
                volume_key(account, market),
            );
            &&& !window_expired(s, account, market, sequence) ==> after >= before
            &&& window_expired(s, account, market, sequence) ==> after == math::saturated(
                math::at_least_zero(size_delta_usd),
            )
        }),
{
}

/// A split of a liquidated position's collateral hands out all of it and nothing
/// more, and no part is negative.
pub proof fn split_hands_out_everything(
    s: Store,
    market: Address,
    gross: int,
    price: int,
    has_fund: bool,
)
    requires
        0 <= gross <= i128::MAX,
    ensures
        collateral_split(s, market, gross, price, has_fund) matches Ok(x) ==> {
            &&& x.keeper_fee + x.insurance_fee + x.remainder == gross
            &&& x.keeper_fee >= 0
            &&& x.insurance_fee >= 0
            &&& x.remainder >= 0
        },
{
    if has_fee_ceiling(s, market, price) {
        let usd = factor_at(s, Key::MaxLiquidationFee { market });
        assert(usd * TOKEN_PRECISION >= 0) by (nonlinear_arith)
            requires
                usd > 0,
        ;
        math::trunc_div_is_floor(usd * TOKEN_PRECISION, price);
    }
}

/// Without a configured liquidation fee the owner keeps everything.
pub proof fn no_liquidation_fee_leaves_all_to_the_owner(
    s: Store,
    market: Address,
    gross: int,
    price: int,
)
    requires
        0 <= gross <= i128::MAX,
        s.u128_at(Key::LiquidationFeeFactor { market }) == 0,
        !has_fee_ceiling(s, market, price),
    ensures
        collateral_split(s, market, gross, price, true) == Ok::<CollateralSplit, Failure>(
            CollateralSplit { keeper_fee: 0, insurance_fee: 0, remainder: gross as i128 },
        ),
{
    math::zero_divided(FLOAT_PRECISION as int);
    assert(gross * 0 == 0) by (nonlinear_arith);
    let share = factor_at(s, Key::LiquidationKeeperFeeFactor { market });
    assert(0 * share == 0) by (nonlinear_arith);
}

/// Only a position below its maintenance level is liquidated, by liquidation
/// keepers alone, and it is then closed in full.
pub proof fn only_failing_positions_are_liquidated(
    b: OrderBook,
    s: Store,
    roles: Set<Grant>,
    board: Map<Address, PriceProps>,
    ledger: Ledger,
    keeper: Address,
    position: PositionKey,
    fund: Option<Address>,
    q: PositionQuote,
)
    ensures
        liquidation(b, s, roles, board, ledger, keeper, position, fund, q) matches Ok(x) ==> {
            let held = b.positions[PositionStorageKey::Position(position)];
            &&& role_store::holds(roles, keeper, Role::LiquidationKeeper)
            &&& conditions(s, board, position.market, position.collateral_token) matches Ok(c)
            &&& position_utils::below_maintenance(
                s,
                held,
                c.market,
                c.collateral_price as int,
                c.index_price,
            )
            &&& position_at(x.book.positions, position) is None
        },
{
}

/// Neither a liquidation nor an auto-deleveraging touches an order.
pub proof fn forced_closes_leave_the_orders_alone(
    b: OrderBook,
    s: Store,
    roles: Set<Grant>,
    board: Map<Address, PriceProps>,
    ledger: Ledger,
    keeper: Address,
    position: PositionKey,
    fund: Option<Address>,
    size_delta_usd: i128,
    q: PositionQuote,
)
    ensures
        liquidation(b, s, roles, board, ledger, keeper, position, fund, q) matches Ok(x)
            ==> x.book.orders == b.orders && x.book.frozen == b.frozen,
        deleveraging(b, s, roles, board, ledger, keeper, position, size_delta_usd, q) matches Ok(x)
            ==> x.book.orders == b.orders && x.book.frozen == b.frozen,
{
}

/// A keeper that has just executed an order is not stale.
pub proof fn execution_is_a_sign_of_life(
    b: OrderBook,
    s: Store,
    roles: Set<Grant>,
    board: Map<Address, PriceProps>,
    ledger: Ledger,
    keeper: Address,
    key: OrderKey,
    q: ExecutionQuote,
)
    ensures
        execution(b, s, roles, board, ledger, keeper, key, q) matches Ok(x) ==> !keeper_is_stale(
            x.store,
            ledger.timestamp,
        ),
{
}

} // verus!
