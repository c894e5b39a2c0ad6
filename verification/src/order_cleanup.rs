//! Cancelling of orders that have outlived their expiry.

use crate::actions::{Action, Event};
use crate::crypto;
use crate::data_store;
use crate::data_store::{DataStore, Key, Store};
use crate::failure::Failure;
use crate::ledger::Ledger;
use crate::math;
use crate::order_handler;
use crate::order_handler::{Execution, OrderBook, OrderHandler};
use crate::role_store::{Grant, RoleStore};
use crate::types::{Address, Bytes32, OrderKey, OrderProps, OrderType};
use soroban_sdk::Env;
use vstd::prelude::*;

verus! {

/// The expiry of an order whose type has none configured.
pub const DEFAULT_ORDER_EXPIRY: u64 = 2_880;

/// Why the cleanup rejects a call.
#[derive(Clone, Copy, Debug, PartialEq, Eq, Structural)]
pub enum Error {
    OrderNotFound,
    NotYetExpired,
}

/// An expired order was cancelled.
#[derive(Clone, Copy, Debug, PartialEq, Eq, Structural)]
pub struct ExpiredOrderCancelled {
    pub key: OrderKey,
    pub account: Address,
    pub caller: Address,
    pub age: u64,
    pub expiry: u64,
    pub cleanup_fee: i128,
}

/// Whether an order has expired, and what cancelling it would earn.
#[derive(Clone, Copy, Debug, PartialEq, Eq, Structural)]
pub struct ExpiredOrderPreview {
    pub exists: bool,
    pub is_expired: bool,
    pub age: u64,
    pub expiry: u64,
    pub cleanup_fee: i128,
}

/// The cleanup contract.
pub struct OrderCleanup;

/// The number that stands for an order type.
pub open spec fn type_code(t: OrderType) -> u8 {
    match t {
        OrderType::MarketSwap => 0,
        OrderType::LimitSwap => 1,
        OrderType::MarketIncrease => 2,
        OrderType::LimitIncrease => 3,
        OrderType::MarketDecrease => 4,
        OrderType::LimitDecrease => 5,
        OrderType::StopLossDecrease => 6,
        OrderType::Liquidation => 7,
        OrderType::StopIncrease => 8,
    }
}

/// The number that stands for an order type.
pub fn order_type_code(t: &OrderType) -> (r: u8)
    ensures
        r == type_code(*t),
{
    match *t {
        OrderType::MarketSwap => 0,
        OrderType::LimitSwap => 1,
        OrderType::MarketIncrease => 2,
        OrderType::LimitIncrease => 3,
        OrderType::MarketDecrease => 4,
        OrderType::LimitDecrease => 5,
        OrderType::StopLossDecrease => 6,
        OrderType::Liquidation => 7,
        OrderType::StopIncrease => 8,
    }
}

/// The key of an order type's expiry.
pub open spec fn expiry_key(t: OrderType) -> Key {
    Key::Hashed(crypto::hash32(crypto::order_expiry_message(type_code(t))))
}

/// The key of an order type's expiry.
pub fn order_expiry_key(env: &Env, t: &OrderType) -> (r: Key)
    ensures
        r == expiry_key(*t),
{
    Key::Hashed(crypto::order_expiry_hash(env, order_type_code(t)))
}

/// The expiry of an order type.
pub open spec fn expiry_of(s: Store, t: OrderType) -> u64 {
    let stored = s.u128_at(expiry_key(t));
    if stored == 0 {
        DEFAULT_ORDER_EXPIRY
    } else {
        (stored % 0x1_0000_0000_0000_0000u128) as u64
    }
}

/// The expiry of an order type: the configured one, or the default.
pub fn expiry_for_order(env: &Env, ds: &DataStore, t: &OrderType) -> (r: u64)
    ensures
        r == expiry_of(ds@, *t),
{
    let stored: u128 = ds.get_u128(&order_expiry_key(env, t));
    if stored == 0 {
        DEFAULT_ORDER_EXPIRY
    } else {
        math::low_u64(stored)
    }
}

/// A tenth of a positive execution fee, with the fraction dropped.
pub open spec fn cleanup_fee(execution_fee: int) -> int {
    if execution_fee <= 0 {
        0
    } else {
        execution_fee / 10
    }
}

/// What cancelling an expired order earns: a tenth of its execution fee.
pub fn cleanup_fee_from_execution_fee(execution_fee: i128) -> (r: i128)
    ensures
        r == cleanup_fee(execution_fee as int),
{
    if execution_fee <= 0 {
        0
    } else {
        execution_fee / 10
    }
}

/// How long ago an order was last changed.
pub open spec fn age_of(order: OrderProps, timestamp: u64) -> u64 {
    math::at_least_zero(timestamp - order.updated_at_time) as u64
}

/// How long ago an order was last changed.
fn order_age(order: &OrderProps, timestamp: u64) -> (r: u64)
    ensures
        r == age_of(*order, timestamp),
{
    if timestamp > order.updated_at_time {
        timestamp - order.updated_at_time
    } else {
        0
    }
}

/// What `cancel_expired_order` does, or why it is rejected.  The cleanup
/// contract itself is the one that cancels.
pub open spec fn expired_cancellation(
    b: OrderBook,
    s: Store,
    roles: Set<Grant>,
    ledger: Ledger,
    caller: Address,
    key: OrderKey,
) -> Result<Execution, Failure> {
    if !ledger.authorised(caller) {
        Err(Failure::MissingAuthorisation)
    } else if !order_handler::has_order(b, key) {
        Err(Failure::Cleanup(Error::OrderNotFound))
    } else {
        let order = order_handler::order_at(b, key);
        let expiry = expiry_of(s, order.order_type);
        let age = age_of(order, ledger.timestamp);
        if age < expiry {
            Err(Failure::Cleanup(Error::NotYetExpired))
        } else {
            match order_handler::authorised_cancellation(
                b,
                s,
                roles,
                ledger.current_contract,
                key,
            ) {
                Err(e) => Err(e),
                Ok(x) => Ok(
                    Execution {
                        actions: x.actions.push(
                            Action::Publish(
                                Event::ExpiredOrderCancelled(
                                    ExpiredOrderCancelled {
                                        key,
                                        account: order.account,
                                        caller,
                                        age,
                                        expiry,
                                        cleanup_fee: cleanup_fee(
                                            order.execution_fee as int,
                                        ) as i128,
                                    },
                                ),
                            ),
                        ),
                        ..x
                    },
                ),
            }
        }
    }
}

/// What `preview_expired_order` returns.
pub open spec fn preview(b: OrderBook, s: Store, timestamp: u64, key: OrderKey) -> ExpiredOrderPreview {
    if order_handler::has_order(b, key) {
        let order = order_handler::order_at(b, key);
        let expiry = expiry_of(s, order.order_type);
        let age = age_of(order, timestamp);
        ExpiredOrderPreview {
            exists: true,
            is_expired: age >= expiry,
            age,
            expiry,
            cleanup_fee: cleanup_fee(order.execution_fee as int) as i128,
        }
    } else {
        ExpiredOrderPreview {
            exists: false,
            is_expired: false,
            age: 0,
            expiry: DEFAULT_ORDER_EXPIRY,
            cleanup_fee: 0,
        }
    }
}

impl OrderCleanup {
    /// Sets the expiry of an order type.  Only a controller may.
    pub fn set_order_expiry(
        env: &Env,
        ledger: &Ledger,
        roles: &RoleStore,
        ds: &mut DataStore,
        caller: Address,
        order_type: OrderType,
        expiry: u64,
    ) -> (r: Result<(), Failure>)
        ensures
            r == data_store::write_check(roles@, *ledger, caller),
            final(ds)@ == if r is Ok {
                old(ds)@.with_u128(expiry_key(order_type), expiry as u128)
            } else {
                old(ds)@
            },
    {
        ledger.require_auth(&caller)?;
        ds.set_u128(ledger, roles, caller, order_expiry_key(env, &order_type), expiry as u128)
    }

    /// Cancels an order that has outlived its expiry.  Anyone may call; the
    /// cleanup contract needs the role of an order keeper.
    pub fn cancel_expired_order(
        env: &Env,
        ledger: &Ledger,
        roles: &RoleStore,
        ds: &mut DataStore,
        handler: &mut OrderHandler,
        out: &mut Vec<Action>,
        caller: Address,
        key: OrderKey,
    ) -> (r: Result<(), Failure>)
        ensures
            match expired_cancellation(
                old(handler)@,
                old(ds)@,
                roles@,
                *ledger,
                caller,
                key,
            ) {
                Ok(x) => {
                    &&& r == Ok::<(), Failure>(())
                    &&& final(handler)@ == x.book
                    &&& final(ds)@ == x.store
                    &&& final(out)@ == old(out)@ + x.actions
                },
                Err(e) => {
                    &&& r == Err::<(), Failure>(e)
                    &&& final(handler)@ == old(handler)@
                    &&& final(ds)@ == old(ds)@
                    &&& final(out)@ == old(out)@
                },
            },
    {
        let ghost planned = expired_cancellation(
            handler@,
            ds@,
            roles@,
            *ledger,
            caller,
            key,
        );
        ledger.require_auth(&caller)?;
        let (account, expiry, age, cleanup_fee) = match handler.get_order(&key) {
            None => {
                return Err(Failure::Cleanup(Error::OrderNotFound));
            },
            Some(order) => (
                order.account,
                expiry_for_order(env, ds, &order.order_type),
                order_age(order, ledger.timestamp),
                cleanup_fee_from_execution_fee(order.execution_fee),
            ),
        };
        if age < expiry {
            return Err(Failure::Cleanup(Error::NotYetExpired));
        }
        handler.cancel_authorised(roles, ds, out, ledger.current_contract, key)?;
        out.push(
            Action::Publish(
                Event::ExpiredOrderCancelled(
                    ExpiredOrderCancelled { key, account, caller, age, expiry, cleanup_fee },
                ),
            ),
        );
        assert(out@ =~= old(out)@ + planned->Ok_0.actions);
        Ok(())
    }

    /// Puts a refund that was made by hand on record.
    pub fn record_manual_refund(
        ledger: &Ledger,
        out: &mut Vec<Action>,
        admin: Address,
        token: Address,
        receiver: Address,
        amount: i128,
        reason: Bytes32,
    ) -> (r: Result<(), Failure>)
        ensures
            r == if ledger.authorised(admin) {
                Ok::<(), Failure>(())
            } else {
                Err(Failure::MissingAuthorisation)
            },
            final(out)@ == if r is Ok {
                old(out)@.push(
                    Action::Publish(
                        Event::ManualRefund { admin, token, receiver, amount, reason },
                    ),
                )
            } else {
                old(out)@
            },
    {
        ledger.require_auth(&admin)?;
        out.push(
            Action::Publish(Event::ManualRefund { admin, token, receiver, amount, reason }),
        );
        Ok(())
    }

    /// Whether an order has expired, and what cancelling it would earn.
    pub fn preview_expired_order(
        env: &Env,
        ledger: &Ledger,
        ds: &DataStore,
        handler: &OrderHandler,
        key: OrderKey,
    ) -> (r: ExpiredOrderPreview)
        ensures
            r == preview(handler@, ds@, ledger.timestamp, key),
    {
        match handler.get_order(&key) {
            Some(order) => {
                let expiry: u64 = expiry_for_order(env, ds, &order.order_type);
                let age: u64 = order_age(order, ledger.timestamp);
                ExpiredOrderPreview {
                    exists: true,
                    is_expired: age >= expiry,
                    age,
                    expiry,
                    cleanup_fee: cleanup_fee_from_execution_fee(order.execution_fee),
                }
            },
            None => ExpiredOrderPreview {
                exists: false,
                is_expired: false,
                age: 0,
                expiry: DEFAULT_ORDER_EXPIRY,
                cleanup_fee: 0,
            },
        }
    }
}

// ---------------------------------------------------------------------------
// Laws
// ---------------------------------------------------------------------------

/// The codes of two different order types differ.
pub proof fn type_codes_are_distinct(a: OrderType, b: OrderType)
    requires
        type_code(a) == type_code(b),
    ensures
        a == b,
{
}

/// The cleanup fee is never negative and never more than a tenth of the
/// execution fee.
pub proof fn cleanup_fee_is_a_small_part(execution_fee: int)
    ensures
        0 <= cleanup_fee(execution_fee),
        execution_fee > 0 ==> 10 * cleanup_fee(execution_fee) <= execution_fee,
{
}

/// An order that is not yet expired is never cancelled by the cleanup.
pub proof fn living_orders_are_left_alone(
    b: OrderBook,
    s: Store,
    roles: Set<Grant>,
    ledger: Ledger,
    caller: Address,
    key: OrderKey,
)
    requires
        !preview(b, s, ledger.timestamp, key).is_expired,
    ensures
        expired_cancellation(b, s, roles, ledger, caller, key) is Err,
{
}

/// An expiry that was set is the one that holds for its order type.
pub proof fn configured_expiry_holds(s: Store, t: OrderType, expiry: u64)
    requires
        expiry > 0,
    ensures
        expiry_of(s.with_u128(expiry_key(t), expiry as u128), t) == expiry,
{
}

} // verus!
