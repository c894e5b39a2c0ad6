//! Forced closing of positions that have fallen below their maintenance level.
//! The positions live with the order handler, which does the closing.

use crate::actions::{Action, Event};
use crate::data_store::{DataStore, Store};
use crate::failure::Failure;
use crate::increase_position_utils::PositionQuote;
use crate::ledger::Ledger;
use crate::order_handler;
use crate::order_handler::{Execution, OrderBook, OrderHandler};
use crate::position_utils;
use crate::role_store;
use crate::role_store::{Grant, Role, RoleStore};
use crate::types::{Address, PositionKey, PriceBoard, PriceProps};
use soroban_sdk::Env;
use vstd::prelude::*;

verus! {

/// Why the liquidation handler rejects a call.
#[derive(Clone, Copy, Debug, PartialEq, Eq, Structural)]
pub enum Error {
    AlreadyInitialized,
    NotInitialized,
    Unauthorized,
    NotLiquidatable,
}

/// The contracts that the liquidation handler was set up with.
#[derive(Clone, Copy, Debug, PartialEq, Eq, Structural)]
pub struct Config {
    pub admin: Address,
    pub role_store: Address,
    pub data_store: Address,
    pub oracle: Address,
    pub order_handler: Address,
}

/// The liquidation handler.
pub struct LiquidationHandler {
    config: Option<Config>,
}

impl View for LiquidationHandler {
    type V = Option<Config>;

    closed spec fn view(&self) -> Option<Config> {
        self.config
    }
}

/// What `check_liquidatable` returns.
pub open spec fn liquidatable(
    config: Option<Config>,
    b: OrderBook,
    s: Store,
    board: Map<Address, PriceProps>,
    position: PositionKey,
) -> Result<bool, Failure> {
    if config is None {
        Err(Failure::Liquidation(Error::NotInitialized))
    } else {
        match order_handler::conditions(s, board, position.market, position.collateral_token) {
            Err(e) => Err(e),
            Ok(c) => match order_handler::position_at(b.positions, position) {
                None => Ok(false),
                Some(held) => position_utils::liquidation_test(
                    s,
                    held,
                    c.market,
                    c.collateral_price as int,
                    c.index_price,
                ),
            },
        }
    }
}

/// What `liquidate_position` does, or why it is rejected.
pub open spec fn handled_liquidation(
    config: Option<Config>,
    b: OrderBook,
    s: Store,
    roles: Set<Grant>,
    board: Map<Address, PriceProps>,
    ledger: Ledger,
    keeper: Address,
    position: PositionKey,
    fund: Option<Address>,
    q: PositionQuote,
) -> Result<Execution, Failure> {
    if !ledger.authorised(keeper) {
        Err(Failure::MissingAuthorisation)
    } else if config is None {
        Err(Failure::Liquidation(Error::NotInitialized))
    } else if !role_store::holds(roles, keeper, Role::LiquidationKeeper) {
        Err(Failure::Liquidation(Error::Unauthorized))
    } else {
        match liquidatable(config, b, s, board, position) {
            Err(e) => Err(e),
            Ok(due) => if !due {
                Err(Failure::Liquidation(Error::NotLiquidatable))
            } else {
                match order_handler::liquidation(
                    b,
                    s,
                    roles,
                    board,
                    ledger,
                    keeper,
                    position,
                    fund,
                    q,
                ) {
                    Err(e) => Err(e),
                    Ok(x) => Ok(
                        Execution {
                            actions: x.actions.push(
                                Action::Publish(
                                    Event::LiquidationDone { position, keeper },
                                ),
                            ),
                            ..x
                        },
                    ),
                }
            },
        }
    }
}

impl LiquidationHandler {
    /// A handler that is not set up yet.
    pub fn new() -> (r: Self)
        ensures
            r@ is None,
    {
        LiquidationHandler { config: None }
    }

    /// Sets the handler up, once.
    pub fn initialize(
        &mut self,
        ledger: &Ledger,
        admin: Address,
        role_store: Address,
        data_store: Address,
        oracle: Address,
        order_handler: Address,
    ) -> (r: Result<(), Failure>)
        ensures
            r == if !ledger.authorised(admin) {
                Err::<(), Failure>(Failure::MissingAuthorisation)
            } else if old(self)@ is Some {
                Err(Failure::Liquidation(Error::AlreadyInitialized))
            } else {
                Ok(())
            },
            final(self)@ == if r is Ok {
                Some(Config { admin, role_store, data_store, oracle, order_handler })
            } else {
                old(self)@
            },
    {
        ledger.require_auth(&admin)?;
        if self.config.is_some() {
            return Err(Failure::Liquidation(Error::AlreadyInitialized));
        }
        self.config = Some(Config { admin, role_store, data_store, oracle, order_handler });
        Ok(())
    }

    /// Whether a position can be liquidated now; a position that does not exist
    /// cannot.
    pub fn check_liquidatable(
        &self,
        handler: &OrderHandler,
        ds: &DataStore,
        prices: &PriceBoard,
        position: PositionKey,
    ) -> (r: Result<bool, Failure>)
        ensures
            r == liquidatable(self@, handler@, ds@, prices@, position),
    {
        if self.config.is_none() {
            return Err(Failure::Liquidation(Error::NotInitialized));
        }
        let (market, index_price, collateral_price) = order_handler::load_conditions(
            ds,
            prices,
            &position.market,
            &position.collateral_token,
        )?;
        match handler.get_position(&position) {
            None => Ok(false),
            Some(held) => position_utils::is_liquidatable(
                ds,
                &held,
                &market,
                collateral_price,
                &index_price,
            ),
        }
    }

    /// Liquidates a position that is below its maintenance level.  Only a
    /// liquidation keeper may.
    pub fn liquidate_position(
        &self,
        env: &Env,
        handler: &mut OrderHandler,
        ledger: &Ledger,
        roles: &RoleStore,
        ds: &mut DataStore,
        prices: &PriceBoard,
        out: &mut Vec<Action>,
        keeper: Address,
        position: PositionKey,
        q: &PositionQuote,
    ) -> (r: Result<(), Failure>)
        ensures
            match handled_liquidation(
                self@,
                old(handler)@,
                old(ds)@,
                roles@,
                prices@,
                *ledger,
                keeper,
                position,
                order_handler::configured_fund(old(ds)@, position.market),
                *q,
            ) {
                Ok(x) => {
                    &&& r == Ok::<(), Failure>(())
                    &&& final(handler)@ == x.book
                    &&& final(ds)@ == x.store
                    &&& final(out)@ == old(out)@ + x.actions
                },
                Err(e) => {
                    &&& r == Err::<(), Failure>(e)
                    &&& final(handler)@ == old(handler)@
                    &&& final(ds)@ == old(ds)@
                    &&& final(out)@ == old(out)@
                },
            },
    {
        let ghost planned = order_handler::liquidation(
            handler@,
            ds@,
            roles@,
            prices@,
            *ledger,
            keeper,
            position,
            order_handler::configured_fund(ds@, position.market),
            *q,
        );
        ledger.require_auth(&keeper)?;
        if self.config.is_none() {
            return Err(Failure::Liquidation(Error::NotInitialized));
        }
        if !roles.has_role(&keeper, Role::LiquidationKeeper) {
            return Err(Failure::Liquidation(Error::Unauthorized));
        }
        if !self.check_liquidatable(handler, ds, prices, position)? {
            return Err(Failure::Liquidation(Error::NotLiquidatable));
        }
        handler.liquidate_position(
            env,
            ledger,
            roles,
            ds,
            prices,
            out,
            keeper,
            position,
            q,
        )?;
        let done = Event::LiquidationDone { position, keeper };
        out.push(Action::Publish(done));
        assert(out@ =~= old(out)@ + planned->Ok_0.actions.push(Action::Publish(done)));
        Ok(())
    }
}

// ---------------------------------------------------------------------------
// Laws
// ---------------------------------------------------------------------------

/// A healthy position cannot be liquidated, whoever asks.
pub proof fn healthy_positions_are_safe(
    config: Option<Config>,
    b: OrderBook,
    s: Store,
    roles: Set<Grant>,
    board: Map<Address, PriceProps>,
    ledger: Ledger,
    keeper: Address,
    position: PositionKey,
    fund: Option<Address>,
    q: PositionQuote,
)
    requires
        liquidatable(config, b, s, board, position) == Ok::<bool, Failure>(false),
    ensures
        handled_liquidation(
            config,
            b,
            s,
            roles,
            board,
            ledger,
            keeper,
            position,
            fund,
            q,
        ) is Err,
{
}

} // verus!
