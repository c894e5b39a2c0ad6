//! Auto-deleveraging: partial closing of profitable positions when what the
//! traders of a side would gain outgrows the pool.

use crate::actions::{Action, Event};
use crate::data_store::{DataStore, Key, Store};
use crate::failure::Failure;
use crate::increase_position_utils::PositionQuote;
use crate::ledger::Ledger;
use crate::market_utils;
use crate::math;
use crate::math::FLOAT_PRECISION;
use crate::order_handler;
use crate::order_handler::{Execution, OrderBook, OrderHandler};
use crate::position_utils;
use crate::role_store;
use crate::role_store::{Grant, Role, RoleStore};
use crate::types;
use crate::types::{Address, MarketProps, PositionKey, PriceBoard, PriceProps};
use vstd::prelude::*;

verus! {

/// Why the auto-deleveraging handler rejects a call.
#[derive(Clone, Copy, Debug, PartialEq, Eq, Structural)]
pub enum Error {
    AlreadyInitialized,
    NotInitialized,
    Unauthorized,
    AdlNotRequired,
    InvalidInput,
    NotProfitable,
    PositionNotFound,
}

/// The contracts that the handler was set up with.
#[derive(Clone, Copy, Debug, PartialEq, Eq, Structural)]
pub struct Config {
    pub admin: Address,
    pub role_store: Address,
    pub data_store: Address,
    pub oracle: Address,
    pub order_handler: Address,
}

/// The auto-deleveraging handler.
pub struct AdlHandler {
    config: Option<Config>,
}

impl View for AdlHandler {
    type V = Option<Config>;

    closed spec fn view(&self) -> Option<Config> {
        self.config
    }
}

/// The market, or an invalid input.
pub open spec fn known_market(s: Store, market: Address) -> Result<MarketProps, Failure> {
    match market_utils::market_at(s, market) {
        Some(m) => Ok(m),
        None => Err(Failure::Adl(Error::InvalidInput)),
    }
}

/// What the traders of a side would gain, over what the pool is worth.
pub open spec fn pnl_factor(pnl: int, pool_value: int) -> int {
    math::trunc_div(pnl * FLOAT_PRECISION, pool_value)
}

/// The highest such ratio that a market side allows; zero allows any.
pub open spec fn max_pnl_factor(s: Store, market: Address, is_long: bool) -> int {
    math::signed(s.u128_at(Key::MaxPnlFactorForAdl { market, is_long })) as int
}

/// Whether the profit of a side outgrows the pool, given both.
pub open spec fn outgrown(s: Store, market: Address, is_long: bool, pnl: int, pool_value: int) -> Result<
    bool,
    Failure,
> {
    if pnl <= 0 {
        Ok(false)
    } else if !math::fits(pnl_factor(pnl, pool_value)) {
        Err(Failure::Overflow)
    } else {
        Ok(
            max_pnl_factor(s, market, is_long) != 0 && pnl_factor(pnl, pool_value)
                > max_pnl_factor(s, market, is_long),
        )
    }
}

/// Whether auto-deleveraging is required at given middle prices.
pub open spec fn required_at(
    s: Store,
    m: MarketProps,
    long_price: i128,
    short_price: i128,
    index_price: i128,
    is_long: bool,
) -> Result<bool, Failure> {
    match market_utils::pool_value_result(
        s,
        m,
        long_price as int,
        short_price as int,
        index_price as int,
    ) {
        Err(e) => Err(e),
        Ok(info) => if info.pool_value <= 0 {
            Ok(false)
        } else {
            outgrown(
                s,
                m.market_token,
                is_long,
                market_utils::side_pnl(s, m, index_price as int, is_long),
                info.pool_value as int,
            )
        },
    }
}

/// What `is_adl_required` returns.
pub open spec fn adl_required(
    config: Option<Config>,
    s: Store,
    board: Map<Address, PriceProps>,
    market: Address,
    is_long: bool,
) -> Result<bool, Failure> {
    if config is None {
        Err(Failure::Adl(Error::NotInitialized))
    } else {
        match known_market(s, market) {
            Err(e) => Err(e),
            Ok(m) => match types::price_of(board, m.index_token) {
                Err(e) => Err(e),
                Ok(_) => match types::mid_price_of(board, m.long_token) {
                    Err(e) => Err(e),
                    Ok(long_price) => match types::mid_price_of(board, m.short_token) {
                        Err(e) => Err(e),
                        Ok(short_price) => match types::mid_price_of(board, m.index_token) {
                            Err(e) => Err(e),
                            Ok(index_price) => required_at(
                                s,
                                m,
                                long_price,
                                short_price,
                                index_price,
                                is_long,
                            ),
                        },
                    },
                },
            },
        }
    }
}

/// The profit of the slice that is to be closed, or why it may not be.
pub open spec fn profitable_slice(
    b: OrderBook,
    s: Store,
    board: Map<Address, PriceProps>,
    position: PositionKey,
    size_delta_usd: i128,
) -> Result<i128, Failure> {
    match known_market(s, position.market) {
        Err(e) => Err(e),
        Ok(m) => match types::price_of(board, m.index_token) {
            Err(e) => Err(e),
            Ok(index_price) => match order_handler::position_at(b.positions, position) {
                None => Err(Failure::Adl(Error::PositionNotFound)),
                Some(held) => match position_utils::position_pnl(
                    held,
                    index_price,
                    size_delta_usd as int,
                ) {
                    Err(e) => Err(e),
                    Ok((pnl_usd, _)) => if pnl_usd <= 0 {
                        Err(Failure::Adl(Error::NotProfitable))
                    } else {
                        Ok(pnl_usd)
                    },
                },
            },
        },
    }
}

/// What `execute_adl` does, or why it is rejected.
pub open spec fn handled_adl(
    config: Option<Config>,
    b: OrderBook,
    s: Store,
    roles: Set<Grant>,
    board: Map<Address, PriceProps>,
    ledger: Ledger,
    keeper: Address,
    position: PositionKey,
    size_delta_usd: i128,
    q: PositionQuote,
) -> Result<Execution, Failure> {
    if !ledger.authorised(keeper) {
        Err(Failure::MissingAuthorisation)
    } else if size_delta_usd <= 0 {
        Err(Failure::Adl(Error::InvalidInput))
    } else if config is None {
        Err(Failure::Adl(Error::NotInitialized))
    } else if !role_store::holds(roles, keeper, Role::AdlKeeper) {
        Err(Failure::Adl(Error::Unauthorized))
    } else {
        match adl_required(config, s, board, position.market, position.is_long) {
            Err(e) => Err(e),
            Ok(required) => if !required {
                Err(Failure::Adl(Error::AdlNotRequired))
            } else {
                match profitable_slice(b, s, board, position, size_delta_usd) {
                    Err(e) => Err(e),
                    Ok(pnl_usd) => match order_handler::deleveraging(
                        b,
                        s,
                        roles,
                        board,
                        ledger,
                        keeper,
                        position,
                        size_delta_usd,
                        q,
                    ) {
                        Err(e) => Err(e),
                        Ok(x) => Ok(
                            Execution {
                                actions: x.actions.push(
                                    Action::Publish(
                                        Event::AdlRequested { position, size_delta_usd, pnl_usd },
                                    ),
                                ),
                                ..x
                            },
                        ),
                    },
                }
            },
        }
    }
}

/// Loads the market.
fn load_known_market(ds: &DataStore, market: &Address) -> (r: Result<MarketProps, Failure>)
    ensures
        r == known_market(ds@, *market),
{
    match market_utils::load_market(ds, market) {
        Some(m) => Ok(m),
        None => Err(Failure::Adl(Error::InvalidInput)),
    }
}

impl AdlHandler {
    /// A handler that is not set up yet.
    pub fn new() -> (r: Self)
        ensures
            r@ is None,
    {
        AdlHandler { config: None }
    }

    /// Sets the handler up, once.
    pub fn initialize(
        &mut self,
        ledger: &Ledger,
        admin: Address,
        role_store: Address,
        data_store: Address,
        oracle: Address,
        order_handler: Address,
    ) -> (r: Result<(), Failure>)
        ensures
            r == if !ledger.authorised(admin) {
                Err::<(), Failure>(Failure::MissingAuthorisation)
            } else if old(self)@ is Some {
                Err(Failure::Adl(Error::AlreadyInitialized))
            } else {
                Ok(())
            },
            final(self)@ == if r is Ok {
                Some(Config { admin, role_store, data_store, oracle, order_handler })
            } else {
                old(self)@
            },
    {
        ledger.require_auth(&admin)?;
        if self.config.is_some() {
            return Err(Failure::Adl(Error::AlreadyInitialized));
        }
        self.config = Some(Config { admin, role_store, data_store, oracle, order_handler });
        Ok(())
    }

    /// Whether auto-deleveraging is required for a market side: whether what its
    /// traders would gain exceeds the allowed part of the pool's value.
    pub fn is_adl_required(
        &self,
        ds: &DataStore,
        prices: &PriceBoard,
        market: Address,
        is_long: bool,
    ) -> (r: Result<bool, Failure>)
        ensures
            r == adl_required(self@, ds@, prices@, market, is_long),
    {
        if self.config.is_none() {
            return Err(Failure::Adl(Error::NotInitialized));
        }
        let m = load_known_market(ds, &market)?;
        prices.get_primary_price(&m.index_token)?;
        let long_price: i128 = prices.get_mid_price(&m.long_token)?;
        let short_price: i128 = prices.get_mid_price(&m.short_token)?;
        let index_price: i128 = prices.get_mid_price(&m.index_token)?;
        let info = market_utils::get_pool_value(
            ds,
            &m,
            long_price,
            short_price,
            index_price,
            false,
        )?;
        if info.pool_value <= 0 {
            return Ok(false);
        }
        let pnl: i128 = market_utils::get_pnl(ds, &m, index_price, is_long, true)?;
        if pnl <= 0 {
            return Ok(false);
        }
        let factor: i128 = math::mul_div_wide(pnl, FLOAT_PRECISION, info.pool_value)?;
        let highest: i128 = math::to_signed(
            ds.get_u128(&Key::MaxPnlFactorForAdl { market, is_long }),
        );
        Ok(highest != 0 && factor > highest)
    }

    /// Closes a slice of a profitable position, while auto-deleveraging is
    /// required.  Only an auto-deleveraging keeper may.
    pub fn execute_adl(
        &self,
        handler: &mut OrderHandler,
        ledger: &Ledger,
        roles: &RoleStore,
        ds: &mut DataStore,
        prices: &PriceBoard,
        out: &mut Vec<Action>,
        keeper: Address,
        position: PositionKey,
        size_delta_usd: i128,
        q: &PositionQuote,
    ) -> (r: Result<(), Failure>)
        ensures
            match handled_adl(
                self@,
                old(handler)@,
                old(ds)@,
                roles@,
                prices@,
                *ledger,
                keeper,
                position,
                size_delta_usd,
                *q,
            ) {
                Ok(x) => {
                    &&& r == Ok::<(), Failure>(())
                    &&& final(handler)@ == x.book
                    &&& final(ds)@ == x.store
                    &&& final(out)@ == old(out)@ + x.actions
                },
                Err(e) => {
                    &&& r == Err::<(), Failure>(e)
                    &&& final(handler)@ == old(handler)@
                    &&& final(ds)@ == old(ds)@
                    &&& final(out)@ == old(out)@
                },
            },
    {
        let ghost planned = order_handler::deleveraging(
            handler@,
            ds@,
            roles@,
            prices@,
            *ledger,
            keeper,
            position,
            size_delta_usd,
            *q,
        );
        ledger.require_auth(&keeper)?;
        if size_delta_usd <= 0 {
            return Err(Failure::Adl(Error::InvalidInput));
        }
        if self.config.is_none() {
            return Err(Failure::Adl(Error::NotInitialized));
        }
        if !roles.has_role(&keeper, Role::AdlKeeper) {
            return Err(Failure::Adl(Error::Unauthorized));
        }
        if !self.is_adl_required(ds, prices, position.market, position.is_long)? {
            return Err(Failure::Adl(Error::AdlNotRequired));
        }
        let m = load_known_market(ds, &position.market)?;
        let index_price = prices.get_primary_price(&m.index_token)?;
        let held = match handler.get_position(&position) {
            Some(held) => held,
            None => {
                return Err(Failure::Adl(Error::PositionNotFound));
            },
        };
        let (pnl_usd, _) = position_utils::get_position_pnl_usd(
            &held,
            &index_price,
            size_delta_usd,
        )?;
        if pnl_usd <= 0 {
            return Err(Failure::Adl(Error::NotProfitable));
        }
        handler.execute_adl(
            ledger,
            roles,
            ds,
            prices,
            out,
            keeper,
            position,
            size_delta_usd,
            q,
        )?;
        let requested = Event::AdlRequested { position, size_delta_usd, pnl_usd };
        out.push(Action::Publish(requested));
        assert(out@ =~= old(out)@ + planned->Ok_0.actions.push(Action::Publish(requested)));
        Ok(())
    }
}

// ---------------------------------------------------------------------------
// Laws
// ---------------------------------------------------------------------------

/// Auto-deleveraging only ever closes profitable slices, and only while it is
/// required; on a healthy market no keeper can trigger it.
pub proof fn deleveraging_needs_profit_and_need(
    config: Option<Config>,
    b: OrderBook,
    s: Store,
    roles: Set<Grant>,
    board: Map<Address, PriceProps>,
    ledger: Ledger,
    keeper: Address,
    position: PositionKey,
    size_delta_usd: i128,
    q: PositionQuote,
)
    requires
        handled_adl(
            config,
            b,
            s,
            roles,
            board,
            ledger,
            keeper,
            position,
            size_delta_usd,
            q,
        ) is Ok,
    ensures
        role_store::holds(roles, keeper, Role::AdlKeeper),
        adl_required(config, s, board, position.market, position.is_long) == Ok::<bool, Failure>(
            true,
        ),
        profitable_slice(b, s, board, position, size_delta_usd) matches Ok(pnl) && pnl > 0,
{
}

/// A side without a configured limit is never deleveraged.
pub proof fn no_limit_no_deleveraging(
    config: Option<Config>,
    s: Store,
    board: Map<Address, PriceProps>,
    market: Address,
    is_long: bool,
)
    requires
        s.u128_at(Key::MaxPnlFactorForAdl { market, is_long }) == 0,
    ensures
        adl_required(config, s, board, market, is_long) != Ok::<bool, Failure>(true),
{
}

} // verus!
