//! What the fee handler, the insurance router, the cleanup, the keepers' handlers
//! and the readers come to, in plain terms of what they are given.

use crate::actions::{Action, Event};
use crate::adl_handler;
use crate::data_store::{Key, Store};
use crate::failure::Failure;
use crate::fee_handler;
use crate::increase_position_utils::PositionQuote;
use crate::insurance_fund_router;
use crate::ledger::Ledger;
use crate::liquidation_handler;
use crate::market_laws::{markets_are_three_tokens, middle, middle_price_is_the_middle};
use crate::market_util_reader;
use crate::market_utils;
use crate::math;
use crate::order_cleanup;
use crate::order_handler;
use crate::order_handler::OrderBook;
use crate::position_laws::{one_dollar, one_token, towards_zero};
use crate::position_utils;
use crate::reader;
use crate::role_store::{Grant, Role};
use crate::types;
use crate::types::{
    Address, MarketProps, OrderKey, OrderStorageKey, PositionKey, PositionProps,
    PositionStorageKey, PriceProps,
};
use vstd::prelude::*;

verus! {

// ---------------------------------------------------------------------------
// Fees
// ---------------------------------------------------------------------------

/// A claim of protocol fees is for fee keepers who signed.  It pays what the
/// market has collected in the token, at most what its pool holds, to the
/// receiver and leaves the rest claimable; while the market compounds its fees it
/// pays nothing.  Nothing else changes.
pub proof fn fee_claims_pay_what_was_collected(
    config: Option<fee_handler::Config>,
    s: Store,
    roles: Set<Grant>,
    ledger: Ledger,
    keeper: Address,
    market: Address,
    token: Address,
    receiver: Address,
    held: i128,
)
    ensures
        match fee_handler::fee_claim(
            config,
            s,
            roles,
            ledger,
            keeper,
            market,
            token,
            receiver,
            held,
        ) {
            Ok(c) => {
                let key = Key::ClaimableFeeAmount { market, token };
                let collected = s.u128_at(key);
                let compounds = Key::AutoCompoundFees { market };
                let off = s.flags.dom().contains(compounds) && s.flags[compounds];
                &&& ledger.signers@.contains(keeper)
                &&& config is Some
                &&& roles.contains(Grant { account: keeper, role: Role::FeeKeeper })
                &&& c.amount == if off || held <= 0 {
                    0
                } else if collected <= held {
                    collected as int
                } else {
                    held as int
                }
                &&& c.store.u128_at(key) == collected - c.amount
                &&& forall|k: Key| k != key ==> #[trigger] c.store.u128_at(k) == s.u128_at(k)
                &&& c.store == (Store { words: c.store.words, ..s })
                &&& c.amount == 0 ==> c.actions.len() == 0
                &&& c.amount > 0 ==> c.actions == seq![
                    Action::WithdrawFromPool {
                        market,
                        token,
                        receiver,
                        amount: c.amount as i128,
                    },
                    Action::Publish(
                        Event::FeeClaimed(
                            fee_handler::FeeClaimed { market, token, amount: c.amount, receiver },
                        ),
                    ),
                ]
            },
            Err(Failure::MissingAuthorisation) => !ledger.signers@.contains(keeper),
            Err(Failure::Fee(fee_handler::Error::NotInitialized)) => config is None,
            Err(e) => e == Failure::Fee(fee_handler::Error::Unauthorized) && !roles.contains(
                Grant { account: keeper, role: Role::FeeKeeper },
            ),
        },
{
}

/// A claim of interface fees pays its receiver, who signed, what was accrued for
/// them in the token, at most what the pool holds; where that is nothing it is
/// refused.
pub proof fn interface_claims_pay_what_was_accrued(
    config: Option<fee_handler::Config>,
    s: Store,
    ledger: Ledger,
    ui_receiver: Address,
    market: Address,
    token: Address,
    held: i128,
)
    ensures
        ({
            let key = Key::ClaimableUiFeeAmount { token, ui_receiver };
            let accrued = s.u128_at(key);
            let due = if held <= 0 {
                0
            } else if accrued <= held {
                accrued as int
            } else {
                held as int
            };
            match fee_handler::ui_fee_claim(config, s, ledger, ui_receiver, market, token, held) {
                Ok(c) => {
                    &&& ledger.signers@.contains(ui_receiver)
                    &&& c.amount == due > 0
                    &&& c.store.u128_at(key) == accrued - due
                    &&& forall|k: Key| k != key ==> #[trigger] c.store.u128_at(k) == s.u128_at(k)
                    &&& c.actions.len() == 2
                    &&& c.actions[0] == (Action::WithdrawFromPool {
                        market,
                        token,
                        receiver: ui_receiver,
                        amount: due as i128,
                    })
                },
                Err(Failure::MissingAuthorisation) => !ledger.signers@.contains(ui_receiver),
                Err(Failure::Fee(fee_handler::Error::NotInitialized)) => config is None,
                Err(e) => e == Failure::Fee(fee_handler::Error::NothingToClaim) && due == 0,
            }
        }),
{
}

/// A claim of funding pays its account, who signed, what can be claimed for it in
/// the market and the token, at most what the pool holds.
pub proof fn funding_claims_pay_what_was_credited(
    config: Option<fee_handler::Config>,
    s: Store,
    ledger: Ledger,
    account: Address,
    market: Address,
    token: Address,
    held: i128,
)
    ensures
        ({
            let key = Key::ClaimableFundingAmount { market, token, account };
            let credited = s.u128_at(key);
            let due = if held <= 0 {
                0
            } else if credited <= held {
                credited as int
            } else {
                held as int
            };
            match fee_handler::funding_claim(config, s, ledger, account, market, token, held) {
                Ok(c) => {
                    &&& ledger.signers@.contains(account)
                    &&& c.amount == due
                    &&& c.store.u128_at(key) == credited - due
                    &&& forall|k: Key| k != key ==> #[trigger] c.store.u128_at(k) == s.u128_at(k)
                    &&& due == 0 ==> c.actions.len() == 0
                    &&& due > 0 ==> c.actions.len() == 2 && c.actions[0]
                        == (Action::WithdrawFromPool {
                        market,
                        token,
                        receiver: account,
                        amount: due as i128,
                    })
                },
                Err(Failure::MissingAuthorisation) => !ledger.signers@.contains(account),
                Err(e) => e == Failure::Fee(fee_handler::Error::NotInitialized) && config is None,
            }
        }),
{
}

/// A controller who signed accrues an amount that is not zero for a receiver, and
/// exactly that.
pub proof fn accruals_add_the_amount(
    config: Option<fee_handler::Config>,
    s: Store,
    roles: Set<Grant>,
    ledger: Ledger,
    controller: Address,
    token: Address,
    ui_receiver: Address,
    amount: u128,
)
    requires
        amount <= i128::MAX,
    ensures
        match fee_handler::ui_fee_accrued(
            config,
            s,
            roles,
            ledger,
            controller,
            token,
            ui_receiver,
            amount,
        ) {
            Ok(t) => {
                let key = Key::ClaimableUiFeeAmount { token, ui_receiver };
                &&& ledger.signers@.contains(controller)
                &&& roles.contains(Grant { account: controller, role: Role::Controller })
                &&& amount > 0
                &&& t.u128_at(key) == s.u128_at(key) + amount
                &&& forall|k: Key| k != key ==> #[trigger] t.u128_at(k) == s.u128_at(k)
            },
            Err(Failure::MissingAuthorisation) => !ledger.signers@.contains(controller),
            Err(Failure::Fee(fee_handler::Error::NotInitialized)) => config is None,
            Err(Failure::Fee(fee_handler::Error::Unauthorized)) => !roles.contains(
                Grant { account: controller, role: Role::Controller },
            ),
            Err(Failure::Fee(fee_handler::Error::InvalidAmount)) => amount == 0,
            Err(e) => e == Failure::Overflow,
        },
{
}

// ---------------------------------------------------------------------------
// Insurance
// ---------------------------------------------------------------------------

/// The fund's part of a penalty is its basis points of it, with the fraction
/// dropped, and the treasury gets the rest.
pub proof fn penalties_are_split_in_basis_points(penalty: u128, bps: u128)
    requires
        bps <= 10_000,
        penalty * bps <= u128::MAX,
    ensures
        ({
            let x = insurance_fund_router::split_of(penalty, bps);
            &&& x.insurance_share * 10_000 <= penalty * bps < (x.insurance_share + 1) * 10_000
            &&& x.treasury_share == penalty - x.insurance_share
        }),
{
    assert(penalty * bps <= penalty * 10_000) by (nonlinear_arith)
        requires
            bps <= 10_000,
    ;
}

/// A penalty is routed out of a source that signed: the fund's part to the
/// market's fund, the rest to the treasury, and no payment of nothing.  Without a
/// fund there can be no part for it.
pub proof fn penalties_are_routed_as_split(
    s: Store,
    ledger: Ledger,
    market: Address,
    token: Address,
    source: Address,
    treasury: Address,
    penalty: u128,
)
    requires
        penalty <= i128::MAX,
        s.u128_at(insurance_fund_router::allocation_key(market)) <= 10_000,
        penalty * s.u128_at(insurance_fund_router::allocation_key(market)) <= u128::MAX,
    ensures
        ({
            let fund = s.address_at(insurance_fund_router::fund_key(market));
            let split = insurance_fund_router::split_of(
                penalty,
                s.u128_at(insurance_fund_router::allocation_key(market)),
            );
            let to_fund = Action::TokenTransfer {
                token,
                from: source,
                to: fund->0,
                amount: split.insurance_share as i128,
            };
            let to_treasury = Action::TokenTransfer {
                token,
                from: source,
                to: treasury,
                amount: split.treasury_share as i128,
            };
            match insurance_fund_router::routing(
                s,
                ledger,
                market,
                token,
                source,
                treasury,
                penalty,
            ) {
                Ok(r) => {
                    &&& ledger.signers@.contains(source)
                    &&& r.split == split
                    &&& split.insurance_share > 0 ==> fund is Some && r.actions[0] == to_fund
                    &&& split.insurance_share > 0 && split.treasury_share > 0 ==> r.actions.len()
                        == 3 && r.actions[2] == to_treasury
                    &&& split.insurance_share > 0 && split.treasury_share == 0 ==> r.actions.len()
                        == 2
                    &&& split.insurance_share == 0 && split.treasury_share > 0 ==> r.actions
                        == seq![to_treasury]
                    &&& split.insurance_share == 0 && split.treasury_share == 0 ==> r.actions.len()
                        == 0
                },
                Err(Failure::MissingAuthorisation) => !ledger.signers@.contains(source),
                Err(e) => e == Failure::Insurance(
                    insurance_fund_router::Error::MissingInsuranceFund,
                ) && fund is None && split.insurance_share > 0,
            }
        }),
{
    penalties_are_split_in_basis_points(
        penalty,
        s.u128_at(insurance_fund_router::allocation_key(market)),
    );
}

/// Covering a shortfall moves what the fund pays from the fund to the pool, and
/// nothing where it pays nothing.
pub proof fn coverage_moves_from_the_fund_to_the_pool(
    market: Address,
    token: Address,
    pool: Address,
    fund: Address,
    shortfall: u128,
    balance: i128,
)
    ensures
        ({
            let c = insurance_fund_router::coverage_of(shortfall, balance);
            let actions = insurance_fund_router::coverage_actions(
                market,
                token,
                pool,
                fund,
                shortfall,
                c,
            );
            &&& c.covered_by_fund > 0 ==> actions.len() == 2 && actions[0]
                == (Action::TokenTransfer {
                token,
                from: fund,
                to: pool,
                amount: c.covered_by_fund as i128,
            })
            &&& c.covered_by_fund == 0 ==> actions.len() == 1
            &&& balance > 0 && shortfall > 0 ==> c.covered_by_fund > 0
        }),
{
}

// ---------------------------------------------------------------------------
// Cleanup
// ---------------------------------------------------------------------------

/// An order type without an expiry of its own expires after 2880; the fee for
/// cleaning an order up is a tenth of its execution fee, with the fraction
/// dropped.
pub proof fn cleanup_defaults(s: Store, t: types::OrderType, fee: int)
    ensures
        s.u128_at(order_cleanup::expiry_key(t)) == 0 ==> order_cleanup::expiry_of(s, t) == 2880,
        0 < s.u128_at(order_cleanup::expiry_key(t)) <= u64::MAX ==> order_cleanup::expiry_of(s, t)
            == s.u128_at(order_cleanup::expiry_key(t)),
        fee > 0 ==> 10 * order_cleanup::cleanup_fee(fee) <= fee < 10 * order_cleanup::cleanup_fee(
            fee,
        ) + 10,
        fee <= 0 ==> order_cleanup::cleanup_fee(fee) == 0,
{
}

/// The cleanup cancels an order for anyone who signed once as much time as its
/// expiry has passed since it was last changed, and not before.  The order goes
/// the way of a cancellation by the cleanup contract.
pub proof fn cleanup_waits_for_the_expiry(
    b: OrderBook,
    s: Store,
    roles: Set<Grant>,
    ledger: Ledger,
    caller: Address,
    key: OrderKey,
)
    ensures
        ({
            let stored = OrderStorageKey::Order(key);
            let order = b.orders[stored];
            let expiry = order_cleanup::expiry_of(s, order.order_type);
            let expired = ledger.timestamp >= order.updated_at_time + expiry || expiry == 0;
            let signed = ledger.signers@.contains(caller);
            let done = order_handler::authorised_cancellation(
                b,
                s,
                roles,
                ledger.current_contract,
                key,
            );
            match order_cleanup::expired_cancellation(b, s, roles, ledger, caller, key) {
                Ok(x) => {
                    &&& signed && expired && b.orders.dom().contains(stored)
                    &&& done is Ok
                    &&& x.book == done->Ok_0.book
                    &&& x.store == done->Ok_0.store
                    &&& x.actions.drop_last() == done->Ok_0.actions
                },
                Err(e) => {
                    &&& !signed ==> e == Failure::MissingAuthorisation
                    &&& signed && !b.orders.dom().contains(stored) ==> e == Failure::Cleanup(
                        order_cleanup::Error::OrderNotFound,
                    )
                    &&& signed && b.orders.dom().contains(stored) && !expired ==> e
                        == Failure::Cleanup(order_cleanup::Error::NotYetExpired)
                    &&& signed && b.orders.dom().contains(stored) && expired ==> done == Err::<
                        order_handler::Execution,
                        Failure,
                    >(e)
                },
            }
        }),
        ({
            let stored = OrderStorageKey::Order(key);
            let order = b.orders[stored];
            let v = order_cleanup::preview(b, s, ledger.timestamp, key);
            let expiry = order_cleanup::expiry_of(s, order.order_type);
            &&& v.exists == b.orders.dom().contains(stored)
            &&& v.exists ==> v.is_expired == (ledger.timestamp >= order.updated_at_time + expiry
                || expiry == 0)
            &&& v.exists && ledger.timestamp >= order.updated_at_time ==> v.age
                == ledger.timestamp - order.updated_at_time
            &&& v.exists ==> v.expiry == expiry && v.cleanup_fee == order_cleanup::cleanup_fee(
                order.execution_fee as int,
            )
            &&& !v.exists ==> !v.is_expired && v.cleanup_fee == 0 && v.age == 0 && v.expiry == 2880
        }),
{
    if let Ok(x) = order_cleanup::expired_cancellation(b, s, roles, ledger, caller, key) {
        let done = order_handler::authorised_cancellation(
            b,
            s,
            roles,
            ledger.current_contract,
            key,
        )->Ok_0;
        assert(x.actions.drop_last() =~= done.actions);
    }
}

// ---------------------------------------------------------------------------
// Keepers' handlers
// ---------------------------------------------------------------------------

/// Auto-deleveraging is required of a side where the pool is worth something, the
/// side has gained something, a limit is set, and the gain over the worth of the
/// pool is above it.
pub proof fn deleveraging_is_required_above_the_limit(
    s: Store,
    m: MarketProps,
    long_price: i128,
    short_price: i128,
    index_price: i128,
    is_long: bool,
)
    requires
        s.u128_at(Key::MaxPnlFactorForAdl { market: m.market_token, is_long }) <= i128::MAX,
    ensures
        adl_handler::required_at(
            s,
            m,
            long_price,
            short_price,
            index_price,
            is_long,
        ) matches Ok(required) ==> {
            let worth = market_utils::pool_value_result(
                s,
                m,
                long_price as int,
                short_price as int,
                index_price as int,
            );
            let gained = market_utils::side_pnl(s, m, index_price as int, is_long);
            let limit = s.u128_at(Key::MaxPnlFactorForAdl { market: m.market_token, is_long });
            &&& worth is Ok
            &&& required == (worth->Ok_0.pool_value > 0 && gained > 0 && limit > 0 && gained
                * one_dollar() / worth->Ok_0.pool_value as int > limit)
        },
{
    let worth = market_utils::pool_value_result(
        s,
        m,
        long_price as int,
        short_price as int,
        index_price as int,
    );
    let gained = market_utils::side_pnl(s, m, index_price as int, is_long);
    if worth is Ok && worth->Ok_0.pool_value > 0 && gained > 0 {
        math::trunc_div_is_floor(gained * one_dollar(), worth->Ok_0.pool_value as int);
    }
}

/// Whether it is required is judged at the middle prices of the board.
pub proof fn deleveraging_is_judged_at_middle_prices(
    config: Option<adl_handler::Config>,
    s: Store,
    board: Map<Address, PriceProps>,
    market: Address,
    is_long: bool,
)
    ensures
        adl_handler::adl_required(config, s, board, market, is_long) matches Ok(required) ==> {
            let m = market_utils::market_at(s, market);
            &&& config is Some && m is Some
            &&& adl_handler::required_at(
                s,
                m->0,
                middle(board[m->0.long_token]) as i128,
                middle(board[m->0.short_token]) as i128,
                middle(board[m->0.index_token]) as i128,
                is_long,
            ) == Ok::<bool, Failure>(required)
        },
{
    markets_are_three_tokens(s, market);
    if let Some(m) = market_utils::market_at(s, market) {
        middle_price_is_the_middle(board, m.long_token);
        middle_price_is_the_middle(board, m.short_token);
        middle_price_is_the_middle(board, m.index_token);
    }
}

/// A deleveraging by its handler is one by the order handler, for a keeper who
/// signed, of a positive size, of a slice in profit, while it is required; it is
/// announced with the profit of the slice.
pub proof fn handled_deleveraging_is_deleveraging(
    config: Option<adl_handler::Config>,
    b: OrderBook,
    s: Store,
    roles: Set<Grant>,
    board: Map<Address, PriceProps>,
    ledger: Ledger,
    keeper: Address,
    position: PositionKey,
    size_delta_usd: i128,
    q: PositionQuote,
)
    ensures
        ({
            let held = b.positions[PositionStorageKey::Position(position)];
            let m = market_utils::market_at(s, position.market);
            let profit = position_utils::position_pnl(
                held,
                board[m->0.index_token],
                size_delta_usd as int,
            );
            let done = order_handler::deleveraging(
                b,
                s,
                roles,
                board,
                ledger,
                keeper,
                position,
                size_delta_usd,
                q,
            );
            match adl_handler::handled_adl(
                config,
                b,
                s,
                roles,
                board,
                ledger,
                keeper,
                position,
                size_delta_usd,
                q,
            ) {
                Ok(x) => {
                    &&& ledger.signers@.contains(keeper)
                    &&& roles.contains(Grant { account: keeper, role: Role::AdlKeeper })
                    &&& size_delta_usd > 0
                    &&& b.positions.dom().contains(PositionStorageKey::Position(position))
                    &&& profit is Ok && profit->Ok_0.0 > 0
                    &&& adl_handler::adl_required(
                        config,
                        s,
                        board,
                        position.market,
                        position.is_long,
                    ) == Ok::<bool, Failure>(true)
                    &&& done is Ok
                    &&& x.book == done->Ok_0.book
                    &&& x.store == done->Ok_0.store
                    &&& x.actions == done->Ok_0.actions.push(
                        Action::Publish(
                            Event::AdlRequested {
                                position,
                                size_delta_usd,
                                pnl_usd: profit->Ok_0.0,
                            },
                        ),
                    )
                },
                Err(e) => {
                    let signed = ledger.signers@.contains(keeper);
                    let may = roles.contains(Grant { account: keeper, role: Role::AdlKeeper });
                    &&& !signed ==> e == Failure::MissingAuthorisation
                    &&& signed && size_delta_usd <= 0 ==> e == Failure::Adl(
                        adl_handler::Error::InvalidInput,
                    )
                    &&& signed && size_delta_usd > 0 && config is Some && !may ==> e
                        == Failure::Adl(adl_handler::Error::Unauthorized)
                },
            }
        }),
{
}

/// A liquidation by its handler is one by the order handler, for a keeper who
/// signed, of a position that fails the test; it is announced with the keeper.
pub proof fn handled_liquidation_is_liquidation(
    config: Option<liquidation_handler::Config>,
    b: OrderBook,
    s: Store,
    roles: Set<Grant>,
    board: Map<Address, PriceProps>,
    ledger: Ledger,
    keeper: Address,
    position: PositionKey,
    fund: Option<Address>,
    q: PositionQuote,
)
    ensures
        ({
            let m = market_utils::market_at(s, position.market);
            let stored = PositionStorageKey::Position(position);
            let done = order_handler::liquidation(
                b,
                s,
                roles,
                board,
                ledger,
                keeper,
                position,
                fund,
                q,
            );
            match liquidation_handler::handled_liquidation(
                config,
                b,
                s,
                roles,
                board,
                ledger,
                keeper,
                position,
                fund,
                q,
            ) {
                Ok(x) => {
                    &&& ledger.signers@.contains(keeper)
                    &&& roles.contains(Grant { account: keeper, role: Role::LiquidationKeeper })
                    &&& config is Some
                    &&& done is Ok
                    &&& x.book == done->Ok_0.book
                    &&& x.store == done->Ok_0.store
                    &&& x.actions == done->Ok_0.actions.push(
                        Action::Publish(Event::LiquidationDone { position, keeper }),
                    )
                },
                Err(e) => {
                    let signed = ledger.signers@.contains(keeper);
                    let may = roles.contains(
                        Grant { account: keeper, role: Role::LiquidationKeeper },
                    );
                    &&& !signed ==> e == Failure::MissingAuthorisation
                    &&& signed && config is None ==> e == Failure::Liquidation(
                        liquidation_handler::Error::NotInitialized,
                    )
                    &&& signed && config is Some && !may ==> e == Failure::Liquidation(
                        liquidation_handler::Error::Unauthorized,
                    )
                },
            }
        }),
        liquidation_handler::liquidatable(config, b, s, board, position) matches Ok(due) ==> {
            let m = market_utils::market_at(s, position.market);
            let stored = PositionStorageKey::Position(position);
            &&& config is Some && m is Some
            &&& !b.positions.dom().contains(stored) ==> !due
            &&& b.positions.dom().contains(stored) ==> position_utils::liquidation_test(
                s,
                b.positions[stored],
                m->0,
                middle(board[position.collateral_token]),
                board[m->0.index_token],
            ) == Ok::<bool, Failure>(due)
        },
{
    markets_are_three_tokens(s, position.market);
    middle_price_is_the_middle(board, position.collateral_token);
}

// ---------------------------------------------------------------------------
// Readers
// ---------------------------------------------------------------------------

/// Utilisation is open interest over the value of the pool in basis points, with
/// the fraction dropped; an empty pool is used beyond all measure.
pub proof fn utilisation_is_in_basis_points(open_interest_usd: u128, pool: u128)
    requires
        open_interest_usd * 10_000 <= u128::MAX,
    ensures
        ({
            let bps = market_util_reader::utilisation(open_interest_usd, pool);
            &&& pool == 0 ==> bps == u32::MAX
            &&& pool > 0 && open_interest_usd * 10_000 < pool * u32::MAX ==> bps * pool
                <= open_interest_usd * 10_000 < (bps + 1) * pool
            &&& pool > 0 && open_interest_usd * 10_000 >= pool * u32::MAX ==> bps == u32::MAX
        }),
{
    if pool > 0 {
        let a = open_interest_usd * 10_000;
        let d = pool as int;
        let q = a / d;
        vstd::arithmetic::div_mod::lemma_fundamental_div_mod(a, d);
        assert(q * d <= a < (q + 1) * d && (a < d * u32::MAX ==> q < u32::MAX) && (a >= d
            * u32::MAX ==> q >= u32::MAX)) by (nonlinear_arith)
            requires
                a == d * q + a % d,
                0 <= a % d,
                a % d < d,
                d > 0,
        ;
    }
}

/// The utilisation of a market: each side and both together, against what the
/// pool is worth at middle prices, and never less than nothing; a side is at its
/// cap where it has one and holds no less.
pub proof fn utilisation_is_of_each_side_and_both(
    s: Store,
    board: Map<Address, PriceProps>,
    market: Address,
)
    ensures
        market_util_reader::market_utilisation(s, board, market) matches Ok(u) ==> {
            let m = market_utils::market_at(s, market)->0;
            let worth = market_utils::pool_value_result(
                s,
                m,
                middle(board[m.long_token]),
                middle(board[m.short_token]),
                middle(board[m.index_token]),
            );
            let longs = market_utils::open_interest(s, m, true);
            let shorts = market_utils::open_interest(s, m, false);
            let long_cap = s.u128_at(Key::MaxOpenInterest { market, is_long: true });
            let short_cap = s.u128_at(Key::MaxOpenInterest { market, is_long: false });
            &&& worth is Ok
            &&& u.pool_value_usd == if worth->Ok_0.pool_value > 0 {
                worth->Ok_0.pool_value as int
            } else {
                0
            }
            &&& u.long_open_interest_usd == longs
            &&& u.short_open_interest_usd == shorts
            &&& u.long_utilisation_bps == market_util_reader::utilisation(
                longs as u128,
                u.pool_value_usd,
            )
            &&& u.short_utilisation_bps == market_util_reader::utilisation(
                shorts as u128,
                u.pool_value_usd,
            )
            &&& longs + shorts <= u128::MAX ==> u.combined_utilisation_bps
                == market_util_reader::utilisation((longs + shorts) as u128, u.pool_value_usd)
            &&& u.is_at_long_oi_cap == (long_cap > 0 && longs >= long_cap)
            &&& u.is_at_short_oi_cap == (short_cap > 0 && shorts >= short_cap)
        },
{
    markets_are_three_tokens(s, market);
    if let Some(m) = market_utils::market_at(s, market) {
        middle_price_is_the_middle(board, m.long_token);
        middle_price_is_the_middle(board, m.short_token);
        middle_price_is_the_middle(board, m.index_token);
    }
}

/// What the reader shows of a market is what the market keeps: its value at
/// middle prices, the interest of its sides, the rate of funding, and the funding
/// of the longs in the long token and of the shorts in the short token.
pub proof fn reader_shows_what_the_market_keeps(
    s: Store,
    board: Map<Address, PriceProps>,
    market: Address,
)
    ensures
        reader::pool_value_now(s, board, market) matches Ok(info) ==> {
            let m = market_utils::market_at(s, market)->0;
            market_utils::pool_value_result(
                s,
                m,
                middle(board[m.long_token]),
                middle(board[m.short_token]),
                middle(board[m.index_token]),
            ) == Ok::<types::PoolValueInfo, Failure>(info)
        },
        reader::open_interests(s, market) matches Ok((longs, shorts)) ==> {
            let m = market_utils::market_at(s, market)->0;
            &&& market_utils::open_interest(s, m, true) <= i128::MAX ==> longs
                == market_utils::open_interest(s, m, true)
            &&& market_utils::open_interest(s, m, false) <= i128::MAX ==> shorts
                == market_utils::open_interest(s, m, false)
        },
        reader::funding_now(s, market) matches Ok(f) ==> {
            let m = market_utils::market_at(s, market)->0;
            &&& f.funding_factor_per_second == s.i128_at(
                Key::SavedFundingFactorPerSecond { market },
            )
            &&& f.long_funding_amount_per_size == s.i128_at(
                Key::FundingAmountPerSize { market, token: m.long_token, is_long: true },
            )
            &&& f.short_funding_amount_per_size == s.i128_at(
                Key::FundingAmountPerSize { market, token: m.short_token, is_long: false },
            )
        },
{
    markets_are_three_tokens(s, market);
    if let Some(m) = market_utils::market_at(s, market) {
        middle_price_is_the_middle(board, m.long_token);
        middle_price_is_the_middle(board, m.short_token);
        middle_price_is_the_middle(board, m.index_token);
    }
}

/// What the reader shows of a position: its profit at the favourable price, its
/// fees for a full close in dollars, and the price at which its tokens would be
/// worth its size less, for a long, what it could lose, or more, for a short, what
/// it could lose: its collateral net of the fees.
pub proof fn reader_shows_what_a_position_is_worth(
    b: OrderBook,
    s: Store,
    board: Map<Address, PriceProps>,
    position: PositionKey,
)
    requires
        ({
            let held = b.positions[PositionStorageKey::Position(position)];
            &&& held.collateral_amount >= 0
            &&& held.size_in_tokens > 0
            &&& middle(board[held.collateral_token]) >= 0
        }),
    ensures
        reader::position_info(b, s, board, position) matches Ok(seen) ==> {
            let stored = PositionStorageKey::Position(position);
            let held = b.positions[stored];
            let m = market_utils::market_at(s, held.market)->0;
            let price = middle(board[held.collateral_token]);
            let size = held.size_in_usd as int;
            let fees = position_utils::position_fees(s, m, held, price, size, false, false);
            let profit = position_utils::position_pnl(held, board[m.index_token], size);
            &&& seen is Some == b.positions.dom().contains(stored)
            &&& seen matches Some(info) ==> {
                let charged = info.borrowing_fee_usd + info.funding_fee_usd
                    + info.position_fee_usd;
                let net = held.collateral_amount * price / one_token() - charged;
                let target = if held.is_long {
                    size - net
                } else {
                    size + net
                };
                &&& info.position == held
                &&& profit == Ok::<(i128, i128), Failure>((info.pnl_usd, info.uncapped_pnl_usd))
                &&& fees is Ok
                &&& info.borrowing_fee_usd == towards_zero(
                    fees->Ok_0.borrowing_fee_amount * price,
                    one_token(),
                )
                &&& info.funding_fee_usd == towards_zero(
                    fees->Ok_0.funding_fee_amount * price,
                    one_token(),
                )
                &&& info.position_fee_usd == towards_zero(
                    fees->Ok_0.position_fee_amount * price,
                    one_token(),
                )
                &&& info.liquidation_price == if target > 0 {
                    target * one_token() / held.size_in_tokens as int
                } else {
                    0
                }
            }
        },
{
    let stored = PositionStorageKey::Position(position);
    let held = b.positions[stored];
    markets_are_three_tokens(s, held.market);
    middle_price_is_the_middle(board, held.collateral_token);
    let price = middle(board[held.collateral_token]);
    if let Ok(Some(info)) = reader::position_info(b, s, board, position) {
        let m = market_utils::market_at(s, held.market)->0;
        let size = held.size_in_usd as int;
        let fees = position_utils::position_fees(s, m, held, price, size, false, false)->Ok_0;
        assert(held.collateral_amount * price >= 0) by (nonlinear_arith)
            requires
                held.collateral_amount >= 0,
                price >= 0,
        ;
        math::trunc_div_is_odd(held.collateral_amount * price, one_token());
        math::trunc_div_is_odd(fees.borrowing_fee_amount * price, one_token());
        math::trunc_div_is_odd(fees.funding_fee_amount * price, one_token());
        math::trunc_div_is_odd(fees.position_fee_amount * price, one_token());
        let net = held.collateral_amount * price / one_token() - (info.borrowing_fee_usd
            + info.funding_fee_usd + info.position_fee_usd);
        let target = if held.is_long {
            size - net
        } else {
            size + net
        };
        math::trunc_div_is_odd(target * one_token(), held.size_in_tokens as int);
    }
}

/// A candidate for auto-deleveraging is a position of the market side with a
/// profit, at the favourable price; it shows its profit, its size and its profit
/// over its size in basis points, as far as 32 bits reach.
pub proof fn candidates_show_profit_over_size(
    key: PositionKey,
    held: PositionProps,
    index_price: PriceProps,
    market: Address,
    is_long: bool,
)
    requires
        held.size_in_usd > 0,
    ensures
        reader::candidate_of(key, held, index_price, market, is_long) matches Ok(found) ==> {
            let profit = position_utils::position_pnl(
                held,
                index_price,
                held.size_in_usd as int,
            );
            &&& found is Some == (held.market == market && held.is_long == is_long && profit is Ok
                && profit->Ok_0.0 > 0)
            &&& found matches Some(c) ==> {
                let ratio = c.unrealised_pnl_usd * 10_000 / held.size_in_usd as int;
                &&& c.key == key
                &&& c.owner == held.account
                &&& c.size_usd == held.size_in_usd
                &&& c.unrealised_pnl_usd == profit->Ok_0.0
                &&& c.pnl_to_size_ratio_bps == if ratio < u32::MAX {
                    ratio
                } else {
                    u32::MAX as int
                }
            }
        },
{
    if let Ok((pnl, _)) = position_utils::position_pnl(
        held,
        index_price,
        held.size_in_usd as int,
    ) {
        if pnl > 0 {
            math::trunc_div_is_floor(pnl * 10_000, held.size_in_usd as int);
        }
    }
}

/// An estimate along one market shows the impact that was quoted, and as its price
/// what goes in over what comes out; an estimate that would be rejected at once
/// shows the input again.
pub proof fn estimates_show_impact_and_price(
    s: Store,
    board: Map<Address, PriceProps>,
    token_in: Address,
    amount_in: u128,
    market: Address,
    q: crate::swap_utils::SwapQuote,
)
    requires
        amount_in <= i128::MAX / 10_000_000,
    ensures
        reader::swap_estimate(
            s,
            board,
            token_in,
            amount_in,
            seq![market],
            seq![q],
        ) matches Ok(e) ==> {
            &&& e.token_out != token_in || !e.reverts_if_executed ==> e.price_impact_usd
                == q.impact_usd
            &&& e.reverts_if_executed ==> e.token_out == token_in && e.amount_out == amount_in
            &&& e.amount_out > 0 ==> e.execution_price * e.amount_out <= amount_in * one_token()
                < (e.execution_price + 1) * e.amount_out
            &&& e.amount_out == 0 ==> e.execution_price == 0
        },
        reader::swap_estimate(s, board, token_in, amount_in, Seq::empty(), Seq::empty()) matches Ok(
            e,
        ) && e.reverts_if_executed && e.token_out == token_in && e.amount_out == amount_in,
{
    reveal_with_fuel(reader::estimated_from, 3);
    crate::market_laws::paths_are_refused_for_length_and_repetition(s, seq![market]);
    if let Ok(e) = reader::swap_estimate(s, board, token_in, amount_in, seq![market], seq![q]) {
        let d = e.amount_out as int;
        let a = amount_in * one_token();
        if 0 < d <= i128::MAX {
            math::trunc_div_is_floor(a, d);
            let x = math::trunc_div(a, d);
            assert(x <= a) by (nonlinear_arith)
                requires
                    x * d <= a,
                    d >= 1,
                    x >= 0,
            ;
        }
    }
}

/// The fund that was configured for a market is the one that a liquidation in it
/// pays, and so is the part of its penalties; no other market is touched.
pub proof fn configured_funds_are_the_ones_paid(
    s: Store,
    market: Address,
    fund: Address,
    bps: u128,
    other: Address,
)
    ensures
        ({
            let t = s.with_address(insurance_fund_router::fund_key(market), fund).with_u128(
                insurance_fund_router::allocation_key(market),
                bps,
            );
            &&& order_handler::configured_fund(t, market) == Some(fund)
            &&& t.u128_at(insurance_fund_router::allocation_key(market)) == bps
            &&& insurance_fund_router::fund_key(other) != insurance_fund_router::fund_key(market)
                ==> order_handler::configured_fund(t, other) == order_handler::configured_fund(
                s,
                other,
            )
        }),
{
}

} // verus!
