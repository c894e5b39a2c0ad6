//! Orders from creation to execution, and what they do to positions, pools and
//! referrers.

use perps::actions::{Action, Event};
use perps::adl_handler;
use perps::adl_handler::AdlHandler;
use perps::data_store;
use perps::data_store::{DataStore, Key, Member};
use perps::decrease_position_utils::DecreasePositionError;
use perps::failure::Failure;
use perps::fee_handler;
use perps::fee_handler::FeeHandler;
use perps::increase_position_utils::{IncreasePositionError, PositionQuote};
use perps::insurance_fund_router::InsuranceFundRouter;
use perps::ledger::Ledger;
use perps::liquidation_handler;
use perps::liquidation_handler::LiquidationHandler;
use perps::market_utils::{FundingGrowth, MarketAccrual};
use perps::math::{FLOAT_PRECISION, TOKEN_PRECISION};
use perps::order_handler::{split_collateral, CollateralSplit, Error, ExecutionQuote, OrderHandler};
use perps::position_utils::{get_position_key, is_liquidatable, validate_position, PositionError};
use perps::referral_storage::{ReferralStorage, TierConfig};
use perps::role_store;
use perps::role_store::{Role, RoleStore};
use perps::swap_utils::SwapQuote;
use perps::types::{
    Address, CreateOrderParams, MarketProps, OrderKey, OrderType, PositionKey, PositionProps,
    PriceBoard, PriceProps,
};
use soroban_sdk::Env;

const FP: i128 = FLOAT_PRECISION;
const TP: i128 = TOKEN_PRECISION;

fn addr(n: u64) -> Address {
    Address { head: 0, body: 0, tail: 0, last: n }
}

/// A ledger on which the administrator signed.
fn admin_ledger() -> Ledger {
    Ledger { timestamp: 0, sequence: 1, current_contract: addr(9), signers: vec![addr(1)] }
}

/// A store of roles that the administrator looks after.
fn role_book() -> RoleStore {
    let mut roles = RoleStore::new();
    roles.initialize(&admin_ledger(), addr(1)).unwrap();
    roles
}

fn grant(roles: &mut RoleStore, account: Address, role: Role) {
    roles.grant_role(&admin_ledger(), addr(1), account, role).unwrap();
}

fn set_address(ds: &mut DataStore, key: Key, value: Address) {
    let mut roles = role_book();
    grant(&mut roles, addr(1), Role::Controller);
    ds.set_address(&admin_ledger(), &roles, addr(1), key, value).unwrap();
}

fn set_u128(ds: &mut DataStore, key: Key, value: u128) {
    let mut roles = role_book();
    grant(&mut roles, addr(1), Role::Controller);
    ds.set_u128(&admin_ledger(), &roles, addr(1), key, value).unwrap();
}

fn flat(p: i128) -> PriceProps {
    PriceProps { min: p, max: p }
}

struct World {
    admin: Address,
    keeper: Address,
    user: Address,
    vault: Address,
    handler: Address,
    market_tk: Address,
    long_tk: Address,
    short_tk: Address,
    index_tk: Address,
    time: u64,
    sequence: u32,
    borrowing: i128,
    roles: RoleStore,
    ds: DataStore,
    prices: PriceBoard,
    oh: OrderHandler,
    refs: ReferralStorage,
    out: Vec<Action>,
}

fn world(short_tk: Address) -> World {
    let (admin, keeper, user) = (addr(1), addr(2), addr(3));
    let (rs, ds_addr, oracle, vault, handler) = (addr(4), addr(5), addr(6), addr(7), addr(8));
    let (market_tk, long_tk, index_tk) = (addr(10), addr(11), addr(13));
    let mut roles = role_book();
    grant(&mut roles, admin, Role::Controller);
    grant(&mut roles, keeper, Role::OrderKeeper);
    grant(&mut roles, handler, Role::Controller);
    let mut oh = OrderHandler::new();
    let boot = Ledger {
        timestamp: 0,
        sequence: 1,
        current_contract: handler,
        signers: vec![admin],
    };
    oh.initialize(&boot, admin, rs, ds_addr, oracle, vault).unwrap();
    let mut refs = ReferralStorage::new();
    refs.initialize(&boot, admin).unwrap();
    refs.set_order_handler(&boot, admin, handler).unwrap();
    let mut ds = DataStore::new();
    set_address(&mut ds, Key::MarketIndexToken { market: market_tk }, index_tk);
    set_address(&mut ds, Key::MarketLongToken { market: market_tk }, long_tk);
    set_address(&mut ds, Key::MarketShortToken { market: market_tk }, short_tk);
    World {
        admin,
        keeper,
        user,
        vault,
        handler,
        market_tk,
        long_tk,
        short_tk,
        index_tk,
        time: 100,
        sequence: 10,
        borrowing: 0,
        roles,
        ds,
        prices: PriceBoard::new(),
        oh,
        refs,
        out: Vec::new(),
    }
}

fn setup() -> World {
    world(addr(12))
}

/// A market that one token backs on both sides.
fn setup_single() -> World {
    world(addr(11))
}

fn ledger(w: &World, signer: Address) -> Ledger {
    Ledger {
        timestamp: w.time,
        sequence: w.sequence,
        current_contract: w.handler,
        signers: vec![signer],
    }
}

fn set_prices(w: &mut World, index_usd: i128) {
    w.prices.post(w.short_tk, flat(FP));
    w.prices.post(w.long_tk, flat(index_usd));
    w.prices.post(w.index_tk, flat(index_usd));
}

fn set_index_price(w: &mut World, index_usd: i128) {
    w.prices.post(w.index_tk, flat(index_usd));
    w.prices.post(w.long_tk, flat(FP));
}

fn seed_pool(w: &mut World, long_amount: i128, short_amount: i128) {
    let market = w.market_tk;
    set_u128(&mut w.ds, Key::PoolAmount { market, token: w.long_tk }, long_amount as u128);
    set_u128(&mut w.ds, Key::PoolAmount { market, token: w.short_tk }, short_amount as u128);
}

fn accrual(w: &World) -> MarketAccrual {
    MarketAccrual {
        funding: FundingGrowth {
            factor_per_second: 0,
            long_token_longs: 0,
            long_token_shorts: 0,
            short_token_longs: 0,
            short_token_shorts: 0,
        },
        borrowing: w.borrowing,
    }
}

/// A quote without price impact: execution at the middle of the index price.
fn position_quote(w: &World) -> PositionQuote {
    PositionQuote {
        accrual: accrual(w),
        impact_usd: 0,
        execution_price: w.prices.get_mid_price(&w.index_tk).unwrap(),
    }
}

fn order(w: &World, t: OrderType, token: Address, size: i128, collateral: i128) -> CreateOrderParams {
    CreateOrderParams {
        receiver: w.user,
        market: w.market_tk,
        initial_collateral_token: token,
        swap_path: Vec::new(),
        size_delta_usd: size,
        collateral_delta_amount: collateral,
        trigger_price: 0,
        acceptable_price: 0,
        execution_fee: 0,
        min_output_amount: 0,
        order_type: t,
        is_long: true,
    }
}

fn create(w: &mut World, p: CreateOrderParams) -> Result<OrderKey, Failure> {
    let l = ledger(w, w.user);
    let received = p.collateral_delta_amount;
    w.oh.create_order(&l, &mut w.ds, &mut w.out, w.user, p, received)
}

fn execute_as(w: &mut World, who: Address, key: OrderKey, swaps: Vec<SwapQuote>) -> Result<(), Failure> {
    let l = ledger(w, who);
    let q = ExecutionQuote { position: position_quote(w), swaps };
    let done = w.out.len();
    w.oh.execute_order(&l, &w.roles, &mut w.ds, &w.prices, &mut w.out, who, key, &q)?;
    let told = Ledger {
        timestamp: w.time,
        sequence: w.sequence,
        current_contract: addr(9),
        signers: vec![w.handler],
    };
    for a in &w.out[done..] {
        if let Action::IncrementReferrerVolume { trader, volume_usd, .. } = a {
            w.refs.increment_referrer_volume(&told, w.handler, *trader, *volume_usd).unwrap();
        }
    }
    Ok(())
}

fn execute(w: &mut World, key: OrderKey) -> Result<(), Failure> {
    let keeper = w.keeper;
    execute_as(w, keeper, key, vec![])
}

fn open(w: &mut World, token: Address, size: i128, collateral: i128, is_long: bool) {
    let mut p = order(w, OrderType::MarketIncrease, token, size, collateral);
    p.is_long = is_long;
    let key = create(w, p).unwrap();
    execute(w, key).unwrap();
}

fn key_of(w: &World, token: Address, is_long: bool) -> PositionKey {
    get_position_key(&w.user, &w.market_tk, &token, is_long)
}

fn cancel_as(w: &mut World, who: Address, key: OrderKey) -> Result<(), Failure> {
    let l = ledger(w, who);
    w.oh.cancel_order(&l, &w.roles, &mut w.ds, &mut w.out, who, key)
}

/// What the vault paid out to a receiver in a token.
fn vault_paid(w: &World, token: Address, who: Address) -> i128 {
    let mut total = 0;
    for a in &w.out {
        if let Action::VaultTransferOut { token: t, receiver, amount, .. } = a {
            if *t == token && *receiver == who {
                total += *amount;
            }
        }
    }
    total
}

/// What pools paid out to a receiver in a token.
fn pool_paid(w: &World, token: Address, who: Address) -> i128 {
    let mut total = 0;
    for a in &w.out {
        if let Action::WithdrawFromPool { token: t, receiver, amount, .. } = a {
            if *t == token && *receiver == who {
                total += *amount;
            }
        }
    }
    total
}

fn market_props(w: &World) -> MarketProps {
    MarketProps {
        market_token: w.market_tk,
        index_token: w.index_tk,
        long_token: w.long_tk,
        short_token: w.short_tk,
    }
}

fn bare_position(w: &World, size: i128, tokens: i128, collateral: i128) -> PositionProps {
    PositionProps {
        account: w.user,
        market: w.market_tk,
        collateral_token: w.short_tk,
        size_in_usd: size,
        size_in_tokens: tokens,
        collateral_amount: collateral,
        pending_impact_amount: 0,
        borrowing_factor: 0,
        funding_fee_amount_per_size: 0,
        long_claim_fnd_per_size: 0,
        short_claim_fnd_per_size: 0,
        increased_at_time: 0,
        decreased_at_time: 0,
        is_long: true,
    }
}

// ---------------------------------------------------------------------------
// Borrowing
// ---------------------------------------------------------------------------

#[test]
fn borrowing_factor_accrues_over_time() {
    let mut w = setup();
    set_prices(&mut w, 2000 * FP);
    seed_pool(&mut w, 10_000 * TP, 5_000 * TP);
    let long_tk = w.long_tk;
    let collateral = 10 * TP;
    w.time = 1_000;
    open(&mut w, long_tk, 2_000 * FP, collateral, true);
    let sum_key = Key::CollateralSum { market: w.market_tk, token: long_tk, is_long: true };
    set_u128(&mut w.ds, sum_key, collateral as u128);
    let cum_key = Key::CumulativeBorrowingFactor { market: w.market_tk, is_long: true };
    let cum_at_open = w.ds.get_u128(&cum_key);

    w.time = 11_000;
    w.borrowing = 7 * FP / 10_000;
    let p = order(&w, OrderType::MarketDecrease, long_tk, 400 * FP, 2 * TP);
    let key = create(&mut w, p).unwrap();
    execute(&mut w, key).unwrap();
    let cum_after = w.ds.get_u128(&cum_key);
    assert!(cum_after > cum_at_open);
    assert_eq!(cum_after - cum_at_open, 7 * FP as u128 / 10_000);
}

#[test]
fn position_borrowing_factor_snapshot_updated_on_partial_decrease() {
    let mut w = setup();
    set_prices(&mut w, 2000 * FP);
    seed_pool(&mut w, 10_000 * TP, 5_000 * TP);
    let long_tk = w.long_tk;
    let collateral = 10 * TP;
    w.time = 1_000;
    open(&mut w, long_tk, 2_000 * FP, collateral, true);
    let sum_key = Key::CollateralSum { market: w.market_tk, token: long_tk, is_long: true };
    set_u128(&mut w.ds, sum_key, collateral as u128);

    w.time = 11_000;
    w.borrowing = 7 * FP / 10_000;
    let p = order(&w, OrderType::MarketDecrease, long_tk, 400 * FP, 2 * TP);
    let key = create(&mut w, p).unwrap();
    execute(&mut w, key).unwrap();

    let position = w.oh.get_position(&key_of(&w, long_tk, true)).unwrap();
    let cum_now = w
        .ds
        .get_u128(&Key::CumulativeBorrowingFactor { market: w.market_tk, is_long: true })
        as i128;
    assert_eq!(position.borrowing_factor, cum_now);
    assert!(position.size_in_usd < 2_000 * FP);
    assert_eq!(position.size_in_usd, 1_600 * FP);
}

#[test]
fn pool_receives_borrowing_fee_on_position_decrease() {
    let mut w = setup();
    set_prices(&mut w, 2000 * FP);
    seed_pool(&mut w, 10_000 * TP, 5_000 * TP);
    let long_tk = w.long_tk;
    let pool_key = Key::PoolAmount { market: w.market_tk, token: long_tk };
    let collateral = 10 * TP;
    w.time = 500;
    open(&mut w, long_tk, 5_000 * FP, collateral, true);
    let sum_key = Key::CollateralSum { market: w.market_tk, token: long_tk, is_long: true };
    set_u128(&mut w.ds, sum_key, collateral as u128);
    let pool_before = w.ds.get_u128(&pool_key);

    w.time = 100_500;
    w.borrowing = FP / 100;
    let p = order(&w, OrderType::MarketDecrease, long_tk, 5_000 * FP, TP);
    let key = create(&mut w, p).unwrap();
    execute(&mut w, key).unwrap();
    let cum_final =
        w.ds.get_u128(&Key::CumulativeBorrowingFactor { market: w.market_tk, is_long: true });
    assert!(cum_final > 0);
    // One per cent of 5,000 dollars is 50 dollars: a fortieth of a token.
    assert_eq!(w.ds.get_u128(&pool_key) - pool_before, TP as u128 / 40);
    assert_eq!(pool_paid(&w, long_tk, w.user), collateral - TP / 40);
}

// ---------------------------------------------------------------------------
// Minimum collateral
// ---------------------------------------------------------------------------

fn enable_min_collateral(w: &mut World) {
    set_u128(&mut w.ds, Key::MinCollateralFactor { market: w.market_tk }, FP as u128 / 10);
}

#[test]
fn validate_position_rejects_below_min_collateral() {
    let mut w = setup();
    enable_min_collateral(&mut w);
    let position = bare_position(&w, 100 * FP, TP, 9 * TP);
    let r = validate_position(&w.ds, &position, &market_props(&w), FP);
    assert_eq!(r, Err(Failure::Position(PositionError::BelowMinCollateral)));
}

#[test]
fn open_at_min_collateral_succeeds() {
    let mut w = setup();
    enable_min_collateral(&mut w);
    set_prices(&mut w, 100 * FP);
    seed_pool(&mut w, 10_000 * TP, 50_000 * TP);
    let short_tk = w.short_tk;
    open(&mut w, short_tk, 100 * FP, 10 * TP, true);
    assert!(w.oh.get_position(&key_of(&w, short_tk, true)).is_some());
}

#[test]
fn open_above_min_collateral_succeeds() {
    let mut w = setup();
    enable_min_collateral(&mut w);
    set_prices(&mut w, 100 * FP);
    seed_pool(&mut w, 10_000 * TP, 50_000 * TP);
    let short_tk = w.short_tk;
    open(&mut w, short_tk, 100 * FP, 11 * TP, true);
    assert!(w.oh.get_position(&key_of(&w, short_tk, true)).is_some());
}

#[test]
fn zero_min_collateral_factor_disables_enforcement() {
    let mut w = setup();
    set_prices(&mut w, 100 * FP);
    seed_pool(&mut w, 10_000 * TP, 50_000 * TP);
    let short_tk = w.short_tk;
    open(&mut w, short_tk, 100 * FP, TP, true);
    assert!(w.oh.get_position(&key_of(&w, short_tk, true)).is_some());
}

#[test]
fn insufficient_collateral_position_is_liquidatable() {
    let mut w = setup();
    enable_min_collateral(&mut w);
    let position = bare_position(&w, 1_000 * FP, 10 * TP, 20 * TP);
    let r = is_liquidatable(&w.ds, &position, &market_props(&w), FP, &flat(100 * FP));
    assert_eq!(r, Ok(true));
}

// ---------------------------------------------------------------------------
// Cancelling
// ---------------------------------------------------------------------------

#[test]
fn cancel_usdc_order_refunds_exact_short_token() {
    let mut w = setup();
    let deposit = 50 * TP;
    let mut p = order(&w, OrderType::MarketIncrease, w.short_tk, 100 * FP, deposit);
    p.is_long = false;
    let key = create(&mut w, p).unwrap();
    let user = w.user;
    cancel_as(&mut w, user, key).unwrap();
    assert_eq!(vault_paid(&w, w.short_tk, w.user), deposit);
    assert!(w.oh.get_order(&key).is_none());
}

#[test]
fn cancel_xlm_order_refunds_exact_long_token() {
    let mut w = setup();
    let deposit = 3 * TP;
    let p = order(&w, OrderType::MarketIncrease, w.long_tk, 6_000 * FP, deposit);
    let key = create(&mut w, p).unwrap();
    let user = w.user;
    cancel_as(&mut w, user, key).unwrap();
    assert_eq!(vault_paid(&w, w.long_tk, w.user), deposit);
    assert!(w.oh.get_order(&key).is_none());
}

#[test]
fn keeper_freeze_then_user_cancel_refunds_exact_collateral() {
    let mut w = setup();
    let deposit = 5 * TP;
    let p = order(&w, OrderType::MarketIncrease, w.long_tk, 10_000 * FP, deposit);
    let key = create(&mut w, p).unwrap();
    let l = ledger(&w, w.keeper);
    w.oh.freeze_order(&l, &w.roles, &mut w.out, w.keeper, key).unwrap();
    let user = w.user;
    cancel_as(&mut w, user, key).unwrap();
    assert_eq!(vault_paid(&w, w.long_tk, w.user), deposit);
    assert!(w.oh.get_order(&key).is_none());
}

#[test]
fn cancel_removes_order_from_all_storage_lists() {
    let mut w = setup();
    let p = order(&w, OrderType::MarketIncrease, w.long_tk, 4_000 * FP, 2 * TP);
    let key = create(&mut w, p).unwrap();
    assert!(w.ds.contains(&Member::OrderList(key)));
    assert!(w.ds.contains(&Member::AccountOrderList(w.user, key)));
    let user = w.user;
    cancel_as(&mut w, user, key).unwrap();
    assert!(!w.ds.contains(&Member::OrderList(key)));
    assert!(!w.ds.contains(&Member::AccountOrderList(w.user, key)));
}

#[test]
fn non_owner_cannot_cancel_order() {
    let mut w = setup();
    let p = order(&w, OrderType::MarketIncrease, w.long_tk, 4_000 * FP, 2 * TP);
    let key = create(&mut w, p).unwrap();
    let r = cancel_as(&mut w, addr(66), key);
    assert_eq!(r, Err(Failure::Order(Error::Unauthorized)));
    assert!(w.oh.get_order(&key).is_some());
}

// ---------------------------------------------------------------------------
// Growing a position
// ---------------------------------------------------------------------------

#[test]
fn weighted_avg_entry_price_after_increase_from_profit() {
    let mut w = setup();
    set_prices(&mut w, 2_000 * FP);
    seed_pool(&mut w, 10_000 * TP, 5_000 * TP);
    let long_tk = w.long_tk;
    open(&mut w, long_tk, 2_000 * FP, 2 * TP, true);
    let pos_after_open = w.oh.get_position(&key_of(&w, long_tk, true)).unwrap();
    assert_eq!(pos_after_open.size_in_usd, 2_000 * FP);
    assert_eq!(pos_after_open.size_in_tokens, TP);

    set_prices(&mut w, 2_200 * FP);
    open(&mut w, long_tk, 2_200 * FP, TP, true);
    let pos = w.oh.get_position(&key_of(&w, long_tk, true)).unwrap();
    assert!(pos.size_in_usd >= 4_000 * FP && pos.size_in_usd <= 4_400 * FP);
    assert!(pos.size_in_tokens >= 19 * TP / 10 && pos.size_in_tokens <= 21 * TP / 10);
    let avg_entry_usd = (pos.size_in_usd / FP) * TP / pos.size_in_tokens;
    let expected_usd = 2_100i128;
    assert!((avg_entry_usd - expected_usd).abs() <= expected_usd / 20);
    assert_eq!(avg_entry_usd, expected_usd);
}

#[test]
fn position_pnl_is_positive_after_price_increase() {
    let mut w = setup();
    set_prices(&mut w, 2_000 * FP);
    seed_pool(&mut w, 10_000 * TP, 5_000 * TP);
    let long_tk = w.long_tk;
    open(&mut w, long_tk, 2_000 * FP, 2 * TP, true);
    let pos = w.oh.get_position(&key_of(&w, long_tk, true)).unwrap();
    let exit_price_usd = 2_200i128;
    let position_value_int = pos.size_in_tokens * exit_price_usd / TP;
    let size_int = pos.size_in_usd / FP;
    assert!(position_value_int - size_int > 0);
}

#[test]
fn position_size_doubles_after_equal_notional_increase() {
    let mut w = setup();
    set_prices(&mut w, 2_000 * FP);
    seed_pool(&mut w, 10_000 * TP, 5_000 * TP);
    let long_tk = w.long_tk;
    open(&mut w, long_tk, 2_000 * FP, 2 * TP, true);
    set_prices(&mut w, 2_200 * FP);
    open(&mut w, long_tk, 2_000 * FP, TP, true);
    let pos = w.oh.get_position(&key_of(&w, long_tk, true)).unwrap();
    assert!(pos.size_in_usd >= 3_800 * FP);
    assert!(pos.size_in_tokens >= 18 * TP / 10 && pos.size_in_tokens <= 21 * TP / 10);
}

// ---------------------------------------------------------------------------
// Referrals
// ---------------------------------------------------------------------------

/// Alice registers a code and the user trades under it.
fn link_user(w: &mut World, alice: Address, code: &[u8]) {
    let mut out = Vec::new();
    let la = ledger(w, alice);
    w.refs.register_code(&la, &mut out, alice, code.to_vec()).unwrap();
    let lu = ledger(w, w.user);
    w.refs.set_trader_referral_code(&lu, &mut out, w.user, code.to_vec()).unwrap();
    let l = ledger(w, w.admin);
    w.oh.set_referral_storage(&l, w.admin, addr(9)).unwrap();
}

#[test]
fn execute_order_increments_referrer_volume() {
    let mut w = setup();
    let alice = addr(40);
    link_user(&mut w, alice, b"ALICE");
    set_prices(&mut w, 2000 * FP);
    seed_pool(&mut w, 10_000 * TP, 5_000 * TP);
    assert_eq!(w.refs.get_referrer_cumulative_volume(&alice), 0);
    let size_delta_usd = 2_000 * FP;
    let long_tk = w.long_tk;
    open(&mut w, long_tk, size_delta_usd, 10 * TP, true);
    assert_eq!(w.refs.get_referrer_cumulative_volume(&alice), size_delta_usd as u128);
}

#[test]
fn referrer_volume_accumulates_across_orders() {
    let mut w = setup();
    let alice = addr(40);
    link_user(&mut w, alice, b"ALICE");
    set_prices(&mut w, 2000 * FP);
    seed_pool(&mut w, 10_000 * TP, 5_000 * TP);
    let (size1, size2) = (1_000 * FP, 500 * FP);
    let long_tk = w.long_tk;
    open(&mut w, long_tk, size1, 5 * TP, true);
    open(&mut w, long_tk, size2, 3 * TP, true);
    assert_eq!(w.refs.get_referrer_cumulative_volume(&alice), (size1 + size2) as u128);
}

#[test]
fn swap_order_does_not_increment_referrer_volume() {
    let mut w = setup();
    let alice = addr(40);
    link_user(&mut w, alice, b"ALICE");
    set_prices(&mut w, 2000 * FP);
    seed_pool(&mut w, 10_000 * TP, 5_000 * TP);
    let mut p = order(&w, OrderType::MarketSwap, w.long_tk, 0, TP);
    p.swap_path = vec![w.market_tk];
    p.is_long = false;
    let key = create(&mut w, p).unwrap();
    let keeper = w.keeper;
    execute_as(&mut w, keeper, key, vec![SwapQuote { impact_usd: 0, amount_out: 2_000 * TP }])
        .unwrap();
    assert_eq!(w.refs.get_referrer_cumulative_volume(&alice), 0);
}

#[test]
fn auto_tier_upgrade_via_execute_order_volume() {
    let mut w = setup();
    let alice = addr(40);
    link_user(&mut w, alice, b"ALICE");
    let l = ledger(&w, w.admin);
    w.refs.set_tier_upgrade_threshold(&l, w.admin, 1, 1_000 * FP as u128).unwrap();
    w.refs
        .set_tier_config(
            &l,
            w.admin,
            1,
            TierConfig { total_rebate_bps: 500, discount_share_bps: 5_000 },
        )
        .unwrap();
    set_prices(&mut w, 2000 * FP);
    seed_pool(&mut w, 10_000 * TP, 5_000 * TP);
    let long_tk = w.long_tk;
    open(&mut w, long_tk, 2_000 * FP, 10 * TP, true);
    assert_eq!(w.refs.get_trader_discount_bps(&w.user), 250);
}

// ---------------------------------------------------------------------------
// Swaps
// ---------------------------------------------------------------------------

/// A WETH market, a WBTC market and USDC on both short sides.
fn setup_swaps() -> World {
    let mut w = setup();
    let (market2, wbtc) = (addr(20), addr(21));
    set_address(&mut w.ds, Key::MarketIndexToken { market: market2 }, wbtc);
    set_address(&mut w.ds, Key::MarketLongToken { market: market2 }, wbtc);
    set_address(&mut w.ds, Key::MarketShortToken { market: market2 }, w.short_tk);
    set_prices(&mut w, 2000 * FP);
    w.prices.post(wbtc, flat(30000 * FP));
    seed_pool(&mut w, 1000 * TP, 2_000_000 * TP);
    set_u128(&mut w.ds, Key::PoolAmount { market: market2, token: wbtc }, 100 * TP as u128);
    set_u128(&mut w.ds, 
        Key::PoolAmount { market: market2, token: w.short_tk },
        3_000_000 * TP as u128,
    );
    w
}

#[test]
fn two_hop_swap_weth_to_wbtc() {
    let mut w = setup_swaps();
    let (market2, wbtc) = (addr(20), addr(21));
    let collateral = 10 * TP;
    let weth_key = Key::PoolAmount { market: w.market_tk, token: w.long_tk };
    let wbtc_key = Key::PoolAmount { market: market2, token: wbtc };
    let weth_pool_before = w.ds.get_u128(&weth_key);
    let wbtc_pool_before = w.ds.get_u128(&wbtc_key);
    let mut p = order(&w, OrderType::MarketSwap, w.long_tk, 0, collateral);
    p.swap_path = vec![w.market_tk, market2];
    p.is_long = false;
    let key = create(&mut w, p).unwrap();
    let keeper = w.keeper;
    let wbtc_out = 20_000 * TP / 30_000;
    execute_as(
        &mut w,
        keeper,
        key,
        vec![
            SwapQuote { impact_usd: 0, amount_out: 20_000 * TP },
            SwapQuote { impact_usd: 0, amount_out: wbtc_out },
        ],
    )
    .unwrap();
    assert!(pool_paid(&w, wbtc, w.user) > 0);
    assert_eq!(pool_paid(&w, wbtc, w.user), wbtc_out);
    assert_eq!(w.ds.get_u128(&weth_key), weth_pool_before + collateral as u128);
    assert_eq!(w.ds.get_u128(&wbtc_key), wbtc_pool_before - wbtc_out as u128);
    assert!(w.oh.get_order(&key).is_none());
}

#[test]
fn two_hop_swap_min_output_not_met_reverts() {
    let mut w = setup_swaps();
    let market2 = addr(20);
    let mut p = order(&w, OrderType::MarketSwap, w.long_tk, 0, TP);
    p.swap_path = vec![w.market_tk, market2];
    p.min_output_amount = 1_000 * TP;
    p.is_long = false;
    let key = create(&mut w, p).unwrap();
    let keeper = w.keeper;
    let r = execute_as(
        &mut w,
        keeper,
        key,
        vec![
            SwapQuote { impact_usd: 0, amount_out: 2_000 * TP },
            SwapQuote { impact_usd: 0, amount_out: 2_000 * TP / 30_000 },
        ],
    );
    assert_eq!(r, Err(Failure::Order(Error::PriceTooLow)));
    assert!(w.oh.get_order(&key).is_some());
}

#[test]
fn swap_duplicate_market_in_path_reverts() {
    let mut w = setup_swaps();
    let mut p = order(&w, OrderType::MarketSwap, w.long_tk, 0, TP);
    p.swap_path = vec![w.market_tk, w.market_tk];
    p.is_long = false;
    assert_eq!(create(&mut w, p), Err(Failure::Order(Error::DuplicateMarketInPath)));
}

#[test]
fn single_hop_swap_weth_to_usdc() {
    let mut w = setup_swaps();
    let mut p = order(&w, OrderType::MarketSwap, w.long_tk, 0, 5 * TP);
    p.swap_path = vec![w.market_tk];
    p.is_long = false;
    let key = create(&mut w, p).unwrap();
    let keeper = w.keeper;
    execute_as(&mut w, keeper, key, vec![SwapQuote { impact_usd: 0, amount_out: 10_000 * TP }])
        .unwrap();
    assert_eq!(pool_paid(&w, w.short_tk, w.user), 10_000 * TP);
}

/// The first market pays the second, the second pays the receiver.
#[test]
fn hops_pay_the_next_market() {
    let mut w = setup_swaps();
    let (market2, wbtc) = (addr(20), addr(21));
    let mut p = order(&w, OrderType::MarketSwap, w.long_tk, 0, 10 * TP);
    p.swap_path = vec![w.market_tk, market2];
    p.is_long = false;
    let key = create(&mut w, p).unwrap();
    let keeper = w.keeper;
    w.out.clear();
    execute_as(
        &mut w,
        keeper,
        key,
        vec![
            SwapQuote { impact_usd: 0, amount_out: 20_000 * TP },
            SwapQuote { impact_usd: 0, amount_out: 6_666_666 },
        ],
    )
    .unwrap();
    assert_eq!(
        w.out[..3],
        [
            Action::VaultTransferOut {
                vault: w.vault,
                token: w.long_tk,
                receiver: w.market_tk,
                amount: 10 * TP,
            },
            Action::WithdrawFromPool {
                market: w.market_tk,
                token: w.short_tk,
                receiver: market2,
                amount: 20_000 * TP,
            },
            Action::WithdrawFromPool {
                market: market2,
                token: wbtc,
                receiver: w.user,
                amount: 6_666_666,
            },
        ]
    );
    assert_eq!(
        w.ds.get_u128(&Key::PoolAmount { market: market2, token: w.short_tk }),
        3_020_000 * TP as u128
    );
}

// ---------------------------------------------------------------------------
// Impact pools
// ---------------------------------------------------------------------------

/// A balanced pool: two million dollars on each side.
fn setup_impact() -> World {
    let mut w = setup();
    set_prices(&mut w, 2000 * FP);
    seed_pool(&mut w, 1000 * TP, 2_000_000 * TP);
    w
}

fn swap_impact_pool(w: &World) -> u128 {
    w.ds.get_u128(&Key::SwapImpactPoolAmount { market: w.market_tk, token: w.short_tk })
}

/// Swaps long tokens for short tokens at 2,000 dollars, with a price impact.
fn swap_long_to_short(w: &mut World, amount: i128, impact_usd: i128) {
    let mut p = order(w, OrderType::MarketSwap, w.long_tk, 0, amount);
    p.swap_path = vec![w.market_tk];
    p.is_long = false;
    let key = create(w, p).unwrap();
    let keeper = w.keeper;
    let q = SwapQuote { impact_usd, amount_out: 2000 * amount };
    execute_as(w, keeper, key, vec![q]).unwrap();
}

#[test]
fn imbalancing_swaps_increase_impact_pool() {
    let mut w = setup_impact();
    assert_eq!(swap_impact_pool(&w), 0);
    swap_long_to_short(&mut w, 50 * TP, -200 * FP);
    let pool_after_first = swap_impact_pool(&w);
    assert!(pool_after_first > 0);
    swap_long_to_short(&mut w, 10 * TP, -40 * FP);
    let pool_after_second = swap_impact_pool(&w);
    assert!(pool_after_second > pool_after_first);
}

#[test]
fn impact_pool_running_balance_is_additive() {
    let mut w = setup_impact();
    swap_long_to_short(&mut w, 30 * TP, -120 * FP);
    let x = swap_impact_pool(&w);
    swap_long_to_short(&mut w, 30 * TP, -120 * FP);
    let x_plus_y = swap_impact_pool(&w);
    assert!(x > 0);
    assert!(x_plus_y > x);
    assert_eq!((x, x_plus_y), (120 * TP as u128, 240 * TP as u128));
}

#[test]
fn balancing_swap_rebate_capped_at_pool_balance() {
    let mut w = setup_impact();
    swap_long_to_short(&mut w, 5 * TP, -20 * FP);
    assert!(swap_impact_pool(&w) > 0);
    let (market, token) = (w.market_tk, w.short_tk);
    set_u128(&mut w.ds, Key::SwapImpactPoolAmount { market, token }, 1);
    let pool = Key::PoolAmount { market, token };
    let held = w.ds.get_u128(&pool);
    set_u128(&mut w.ds, pool, held + 10_000_000 * TP as u128);
    swap_long_to_short(&mut w, 100 * TP, 40_000 * FP);
    assert_eq!(swap_impact_pool(&w), 0);
}

#[test]
fn impact_pool_key_reflects_accumulated_fees() {
    let mut w = setup_impact();
    let before = swap_impact_pool(&w);
    swap_long_to_short(&mut w, 20 * TP, -160 * FP);
    let after = swap_impact_pool(&w);
    assert!(after >= before);
    assert_eq!(after, 160 * TP as u128);
}

/// A rebate that the pool covers is paid in full, and a charge is rounded up.
#[test]
fn impact_is_rounded_in_favour_of_the_pool() {
    let mut w = setup_impact();
    swap_long_to_short(&mut w, TP, -1);
    assert_eq!(swap_impact_pool(&w), 1);
    swap_long_to_short(&mut w, TP, -100 * FP);
    assert_eq!(swap_impact_pool(&w), 100 * TP as u128 + 1);
    swap_long_to_short(&mut w, TP, 30 * FP + 1);
    assert_eq!(swap_impact_pool(&w), 70 * TP as u128 + 1);
}

#[test]
fn position_impact_moves_its_pool() {
    let mut w = setup_impact();
    let key = Key::PositionImpactPoolAmount { market: w.market_tk };
    let keeper = w.keeper;
    let l = ledger(&w, keeper);
    let p = order(&w, OrderType::MarketIncrease, w.short_tk, 2_000 * FP, 400 * TP);
    let id = create(&mut w, p).unwrap();
    let mut position = position_quote(&w);
    position.impact_usd = -10 * FP;
    let q = ExecutionQuote { position, swaps: vec![] };
    w.oh.execute_order(&l, &w.roles, &mut w.ds, &w.prices, &mut w.out, keeper, id, &q).unwrap();
    // Ten dollars in index tokens at 2,000 dollars.
    assert_eq!(w.ds.get_u128(&key), TP as u128 / 200);
    let p = order(&w, OrderType::MarketDecrease, w.short_tk, 1_000 * FP, 0);
    let id = create(&mut w, p).unwrap();
    let mut position = position_quote(&w);
    position.impact_usd = 4 * FP;
    let q = ExecutionQuote { position, swaps: vec![] };
    w.oh.execute_order(&l, &w.roles, &mut w.ds, &w.prices, &mut w.out, keeper, id, &q).unwrap();
    assert_eq!(w.ds.get_u128(&key), 3 * TP as u128 / 1_000);
    let p = order(&w, OrderType::MarketDecrease, w.short_tk, 1_000 * FP, 0);
    let id = create(&mut w, p).unwrap();
    let mut position = position_quote(&w);
    position.impact_usd = 1_000 * FP;
    let q = ExecutionQuote { position, swaps: vec![] };
    w.oh.execute_order(&l, &w.roles, &mut w.ds, &w.prices, &mut w.out, keeper, id, &q).unwrap();
    assert_eq!(w.ds.get_u128(&key), 0);
}

// ---------------------------------------------------------------------------
// Triggers
// ---------------------------------------------------------------------------

/// Executes an order with a trigger of 2,000 dollars at a price.
fn triggered(t: OrderType, is_long: bool, price: i128) -> Result<(), Failure> {
    let mut w = setup_impact();
    let short_tk = w.short_tk;
    open(&mut w, short_tk, 1_000 * FP, 900 * TP, is_long);
    let mut p = order(&w, t, short_tk, 500 * FP, 100 * TP);
    p.is_long = is_long;
    p.trigger_price = 2_000 * FP;
    if t == OrderType::LimitSwap {
        p.size_delta_usd = 0;
        p.swap_path = vec![w.market_tk];
    }
    let key = create(&mut w, p).unwrap();
    set_prices(&mut w, price * FP);
    let keeper = w.keeper;
    execute_as(&mut w, keeper, key, vec![SwapQuote { impact_usd: 0, amount_out: 1 }])
}

#[test]
fn triggers_follow_the_side_of_the_order() {
    let waits = Err(Failure::Order(Error::UnsatisfiedTrigger));
    // Those that wait for the price to rise to the trigger.
    for (t, is_long) in [
        (OrderType::LimitDecrease, true),
        (OrderType::StopLossDecrease, false),
    ] {
        assert_eq!(triggered(t, is_long, 1_999), waits);
        assert_eq!(triggered(t, is_long, 2_000), Ok(()));
        assert_eq!(triggered(t, is_long, 2_001), Ok(()));
    }
    // Those that wait for the price to fall to it.
    for (t, is_long) in [
        (OrderType::LimitIncrease, true),
        (OrderType::LimitIncrease, false),
        (OrderType::LimitDecrease, false),
        (OrderType::StopLossDecrease, true),
    ] {
        assert_eq!(triggered(t, is_long, 2_001), waits);
        assert_eq!(triggered(t, is_long, 2_000), Ok(()));
        assert_eq!(triggered(t, is_long, 1_999), Ok(()));
    }
    // Those that wait for nothing.
    for t in [OrderType::StopIncrease, OrderType::LimitSwap, OrderType::MarketIncrease] {
        for is_long in [true, false] {
            assert_eq!(triggered(t, is_long, 1_999), Ok(()));
            assert_eq!(triggered(t, is_long, 2_001), Ok(()));
        }
    }
}

// ---------------------------------------------------------------------------
// Caps on the open interest
// ---------------------------------------------------------------------------

fn set_cap(w: &mut World, is_long: bool, usd: i128) {
    set_u128(&mut w.ds, Key::MaxOpenInterest { market: w.market_tk, is_long }, usd as u128 * FP as u128);
}

fn set_open_interest(w: &mut World, is_long: bool, usd: i128) {
    let key = Key::OpenInterest { market: w.market_tk, token: w.long_tk, is_long };
    set_u128(&mut w.ds, key, usd as u128 * FP as u128);
}

fn capped_increase(w: &mut World, size: i128, tokens: i128, acceptable: i128, is_long: bool) -> Result<(), Failure> {
    let mut p = order(w, OrderType::MarketIncrease, w.long_tk, size * FP, tokens * TP);
    p.acceptable_price = acceptable * FP;
    p.is_long = is_long;
    let key = create(w, p).unwrap();
    execute(w, key)
}

#[test]
fn oi_cap_exact_boundary_succeeds_one_over_fails() {
    let mut w = setup_single();
    set_cap(&mut w, true, 500_000);
    set_open_interest(&mut w, true, 499_000);
    set_index_price(&mut w, 2000 * FP);
    let r = capped_increase(&mut w, 2_000, 100, 2_100, true);
    assert!(r.is_err());
    assert_eq!(r, Err(Failure::Position(PositionError::ExceedsMaxOI)));
}

#[test]
fn oi_cap_exactly_at_cap_succeeds() {
    let mut w = setup_single();
    set_cap(&mut w, true, 500_000);
    set_open_interest(&mut w, true, 499_000);
    set_index_price(&mut w, 2000 * FP);
    assert_eq!(capped_increase(&mut w, 1_000, 50, 2_100, true), Ok(()));
}

#[test]
fn oi_cap_short_independent_of_long() {
    let mut w = setup_single();
    set_cap(&mut w, true, 500_000);
    set_cap(&mut w, false, 300_000);
    set_open_interest(&mut w, true, 500_000);
    set_index_price(&mut w, 2000 * FP);
    assert_eq!(capped_increase(&mut w, 10_000, 100, 1_900, false), Ok(()));
}

#[test]
fn oi_cap_zero_means_uncapped() {
    let mut w = setup_single();
    // As much interest as sixteen bytes hold at thirty decimals next to the order.
    set_open_interest(&mut w, true, 339_000_000);
    set_index_price(&mut w, 2000 * FP);
    assert_eq!(capped_increase(&mut w, 1_000_000, 100, 2_100, true), Ok(()));
}

#[test]
fn oi_cap_decrease_always_allowed() {
    let mut w = setup_single();
    set_index_price(&mut w, 2000 * FP);
    let long_tk = w.long_tk;
    open(&mut w, long_tk, 10_000 * FP, 100 * TP, true);
    set_cap(&mut w, true, 500_000);
    set_open_interest(&mut w, true, 500_000);
    let mut p = order(&w, OrderType::MarketDecrease, w.long_tk, 10_000 * FP, 100 * TP);
    p.acceptable_price = 1_900 * FP;
    let key = create(&mut w, p).unwrap();
    assert_eq!(execute(&mut w, key), Ok(()));
}

// ---------------------------------------------------------------------------
// Stop-loss
// ---------------------------------------------------------------------------

/// A position of one index token at 2,000 dollars with 200 dollars behind it,
/// and an order that closes it.
fn closing_order(
    t: OrderType,
    is_long: bool,
    trigger: i128,
    acceptable: i128,
) -> (World, OrderKey) {
    let mut w = setup_single();
    set_index_price(&mut w, 2000 * FP);
    let long_tk = w.long_tk;
    seed_pool(&mut w, 1_000 * TP, 1_000 * TP);
    open(&mut w, long_tk, 2000 * FP, 200 * TP, is_long);
    let mut p = order(&w, t, long_tk, 2000 * FP, 200 * TP);
    p.trigger_price = trigger * FP;
    p.acceptable_price = acceptable * FP;
    p.is_long = is_long;
    let key = create(&mut w, p).unwrap();
    (w, key)
}

#[test]
fn stop_loss_not_triggered_above_trigger_price() {
    let (mut w, key) = closing_order(OrderType::StopLossDecrease, true, 1900, 1880);
    set_index_price(&mut w, 1950 * FP);
    assert_eq!(execute(&mut w, key), Err(Failure::Order(Error::UnsatisfiedTrigger)));
}

#[test]
fn stop_loss_triggers_at_exact_trigger_price() {
    let (mut w, key) = closing_order(OrderType::StopLossDecrease, true, 1900, 1880);
    set_index_price(&mut w, 1900 * FP);
    assert_eq!(execute(&mut w, key), Ok(()));
    // The loss is 100 dollars of the 200 that stood behind the position.
    assert_eq!(pool_paid(&w, w.long_tk, w.user), 100 * TP);
    let position = key_of(&w, w.long_tk, true);
    assert!(w.oh.get_position(&position).is_none());
    assert!(!w.ds.contains(&Member::PositionList(position)));
    let closed = w.out.iter().any(|a| match a {
        Action::Publish(Event::PositionClosed(e)) => {
            e.pnl_usd == -100 * FP && e.execution_price == 1900 * FP
        }
        _ => false,
    });
    assert!(closed);
}

#[test]
fn stop_loss_triggers_below_trigger_price() {
    let (mut w, key) = closing_order(OrderType::StopLossDecrease, true, 1900, 1880);
    set_index_price(&mut w, 1890 * FP);
    assert_eq!(execute(&mut w, key), Ok(()));
}

#[test]
fn stop_loss_slippage_protection_rejects_worse_price() {
    let (mut w, key) = closing_order(OrderType::StopLossDecrease, true, 1900, 1850);
    set_index_price(&mut w, 1840 * FP);
    assert_eq!(execute(&mut w, key), Err(Failure::Decrease(DecreasePositionError::PriceTooLow)));
}

// ---------------------------------------------------------------------------
// Take-profit
// ---------------------------------------------------------------------------

#[test]
fn take_profit_not_triggered_above_trigger_price() {
    let (mut w, key) = closing_order(OrderType::LimitDecrease, false, 1800, 1820);
    set_index_price(&mut w, 1850 * FP);
    assert_eq!(execute(&mut w, key), Err(Failure::Order(Error::UnsatisfiedTrigger)));
}

#[test]
fn take_profit_triggers_at_exact_trigger_price() {
    let (mut w, key) = closing_order(OrderType::LimitDecrease, false, 1800, 1820);
    set_index_price(&mut w, 1800 * FP);
    assert_eq!(execute(&mut w, key), Ok(()));
    // The gain is 200 dollars on top of the 200 that stood behind the position.
    assert_eq!(pool_paid(&w, w.long_tk, w.user), 400 * TP);
}

#[test]
fn take_profit_triggers_below_trigger_price() {
    let (mut w, key) = closing_order(OrderType::LimitDecrease, false, 1800, 1820);
    set_index_price(&mut w, 1750 * FP);
    assert_eq!(execute(&mut w, key), Ok(()));
}

#[test]
fn take_profit_slippage_protection_rejects_worse_price() {
    let (mut w, key) = closing_order(OrderType::LimitDecrease, false, 1800, 1820);
    set_index_price(&mut w, 1830 * FP);
    assert!(execute(&mut w, key).is_err());
}

#[test]
fn take_profit_long_position_triggers_above_entry_price() {
    let (mut w, key) = closing_order(OrderType::LimitDecrease, true, 2200, 2180);
    set_index_price(&mut w, 2100 * FP);
    assert_eq!(execute(&mut w, key), Err(Failure::Order(Error::UnsatisfiedTrigger)));
    set_index_price(&mut w, 2200 * FP);
    assert_eq!(execute(&mut w, key), Ok(()));
}

// ---------------------------------------------------------------------------
// Roles
// ---------------------------------------------------------------------------

fn role_order(w: &mut World) -> OrderKey {
    set_index_price(w, 2000 * FP);
    let mut p = order(w, OrderType::MarketIncrease, w.long_tk, 1000 * FP, 100 * TP);
    p.acceptable_price = 2100 * FP;
    create(w, p).unwrap()
}

#[test]
fn unauthorized_execute_order_reverts() {
    let mut w = setup_single();
    let key = role_order(&mut w);
    let user = w.user;
    let r = execute_as(&mut w, user, key, vec![]);
    assert_eq!(r, Err(Failure::Order(Error::Unauthorized)));
}

#[test]
fn unauthorized_data_store_set_reverts() {
    let mut w = setup_single();
    let user = w.user;
    let l = ledger(&w, user);
    let key = Key::MaxSwapPathLength;
    assert_eq!(
        w.ds.set_u128(&l, &w.roles, user, key, 12345),
        Err(Failure::Store(data_store::Error::Unauthorized))
    );
    assert_eq!(w.ds.get_u128(&key), 0);
    assert_eq!(
        w.ds.set_u128(&l, &w.roles, w.admin, key, 12345),
        Err(Failure::MissingAuthorisation)
    );
    let l = ledger(&w, w.admin);
    assert_eq!(w.ds.set_u128(&l, &w.roles, w.admin, key, 12345), Ok(()));
    assert_eq!(w.ds.get_u128(&key), 12345);
}

#[test]
fn unauthorized_grant_role_reverts() {
    let mut w = setup_single();
    let user = w.user;
    let l = ledger(&w, user);
    assert_eq!(
        w.roles.grant_role(&l, user, user, Role::OrderKeeper),
        Err(Failure::Roles(role_store::Error::Unauthorized))
    );
    assert!(!w.roles.has_role(&user, Role::OrderKeeper));
    assert_eq!(
        w.roles.revoke_role(&l, user, w.keeper, Role::OrderKeeper),
        Err(Failure::Roles(role_store::Error::Unauthorized))
    );
    assert!(w.roles.has_role(&w.keeper, Role::OrderKeeper));
    assert_eq!(
        w.roles.initialize(&l, user),
        Err(Failure::Roles(role_store::Error::AlreadyInitialized))
    );
    assert_eq!(
        RoleStore::new().grant_role(&l, user, user, Role::OrderKeeper),
        Err(Failure::Roles(role_store::Error::NotInitialized))
    );
}

#[test]
fn unauthorized_liquidation_reverts() {
    let mut w = setup_single();
    set_index_price(&mut w, 2000 * FP);
    let mut lh = LiquidationHandler::new();
    let l = ledger(&w, w.admin);
    lh.initialize(&l, w.admin, addr(4), addr(5), addr(6), w.handler).unwrap();
    let q = position_quote(&w);
    let position = key_of(&w, w.long_tk, true);
    let lu = ledger(&w, w.user);
    let r = lh.liquidate_position(
        &Env::default(),
        &mut w.oh,
        &lu,
        &w.roles,
        &mut w.ds,
        &w.prices,
        &mut w.out,
        w.user,
        position,
        &q,
    );
    assert_eq!(r, Err(Failure::Liquidation(liquidation_handler::Error::Unauthorized)));
}

#[test]
fn unauthorized_adl_reverts() {
    let mut w = setup_single();
    set_index_price(&mut w, 2000 * FP);
    set_u128(&mut w.ds, 
        Key::MaxPnlFactorForAdl { market: w.market_tk, is_long: true },
        90_000_000_000_000_000_000_000_000_000,
    );
    let mut ah = AdlHandler::new();
    let l = ledger(&w, w.admin);
    ah.initialize(&l, w.admin, addr(4), addr(5), addr(6), w.handler).unwrap();
    let q = position_quote(&w);
    let position = key_of(&w, w.long_tk, true);
    let lu = ledger(&w, w.user);
    let r = ah.execute_adl(
        &mut w.oh,
        &lu,
        &w.roles,
        &mut w.ds,
        &w.prices,
        &mut w.out,
        w.user,
        position,
        FP,
        &q,
    );
    assert_eq!(r, Err(Failure::Adl(adl_handler::Error::Unauthorized)));
}

#[test]
fn unauthorized_claim_fees_reverts() {
    let mut w = setup_single();
    let mut fh = FeeHandler::new();
    let l = ledger(&w, w.admin);
    fh.initialize(&l, w.admin, addr(4), addr(5)).unwrap();
    let lu = ledger(&w, w.user);
    let r = fh.claim_fees(
        &lu,
        &w.roles,
        &mut w.ds,
        &mut w.out,
        w.user,
        w.market_tk,
        w.long_tk,
        w.user,
        0,
    );
    assert_eq!(r, Err(Failure::Fee(fee_handler::Error::Unauthorized)));
}

#[test]
fn authorized_execute_order_succeeds_after_grant() {
    let mut w = setup_single();
    let second = addr(50);
    let key = role_order(&mut w);
    assert_eq!(
        execute_as(&mut w, second, key, vec![]),
        Err(Failure::Order(Error::Unauthorized))
    );
    grant(&mut w.roles, second, Role::OrderKeeper);
    assert_eq!(execute_as(&mut w, second, key, vec![]), Ok(()));
}

#[test]
fn role_revocation_prevents_access() {
    let mut w = setup_single();
    let key = role_order(&mut w);
    w.roles.revoke_role(&admin_ledger(), w.admin, w.keeper, Role::OrderKeeper).unwrap();
    assert_eq!(execute(&mut w, key), Err(Failure::Order(Error::Unauthorized)));
}

// ---------------------------------------------------------------------------
// Further behaviour
// ---------------------------------------------------------------------------

#[test]
fn order_handler_is_set_up_once() {
    let mut w = setup();
    let l = ledger(&w, w.admin);
    assert_eq!(
        w.oh.initialize(&l, w.admin, addr(4), addr(5), addr(6), addr(7)),
        Err(Failure::Order(Error::AlreadyInitialized))
    );
    let mut fresh = OrderHandler::new();
    let p = order(&w, OrderType::MarketIncrease, w.long_tk, FP, TP);
    let lu = ledger(&w, w.user);
    assert_eq!(
        fresh.create_order(&lu, &mut w.ds, &mut w.out, w.user, p, TP),
        Err(Failure::Order(Error::NotInitialized))
    );
    assert_eq!(
        w.oh.set_referral_storage(&lu, w.user, addr(9)),
        Err(Failure::Order(Error::Unauthorized))
    );
}

#[test]
fn creation_is_checked() {
    let mut w = setup();
    let p = order(&w, OrderType::MarketIncrease, w.long_tk, FP, 0);
    assert_eq!(create(&mut w, p), Err(Failure::Order(Error::ZeroCollateral)));
    let mut p = order(&w, OrderType::MarketSwap, w.long_tk, 0, TP);
    p.swap_path = vec![addr(81), addr(82), addr(83), addr(84), addr(85), addr(86)];
    assert_eq!(create(&mut w, p), Err(Failure::Order(Error::SwapPathTooLong)));
    set_u128(&mut w.ds, Key::MinExecutionFee, 100);
    let mut p = order(&w, OrderType::MarketIncrease, w.long_tk, FP, TP);
    p.execution_fee = 99;
    assert_eq!(create(&mut w, p), Err(Failure::Order(Error::InsufficientExecutionFee)));
    let mut p = order(&w, OrderType::MarketIncrease, w.long_tk, FP, TP);
    p.execution_fee = 100;
    assert!(create(&mut w, p).is_ok());
    assert_eq!(w.out.len(), 1);
}

#[test]
fn cancelling_leaves_the_store_as_before_creation() {
    let mut w = setup();
    let p = order(&w, OrderType::MarketIncrease, w.long_tk, 4_000 * FP, 2 * TP);
    let first = create(&mut w, p).unwrap();
    let user = w.user;
    cancel_as(&mut w, user, first).unwrap();
    let p = order(&w, OrderType::MarketIncrease, w.long_tk, 4_000 * FP, 2 * TP);
    let second = create(&mut w, p).unwrap();
    assert_ne!(first, second);
    assert!(w.oh.get_order(&first).is_none());
    assert!(w.oh.get_order(&second).is_some());
    assert_eq!(cancel_as(&mut w, user, first), Err(Failure::Order(Error::OrderNotFound)));
}

#[test]
fn frozen_orders_wait_for_an_update() {
    let mut w = setup();
    set_prices(&mut w, 2_000 * FP);
    let p = order(&w, OrderType::MarketIncrease, w.long_tk, 2_000 * FP, 2 * TP);
    let key = create(&mut w, p).unwrap();
    let lk = ledger(&w, w.keeper);
    w.oh.freeze_order(&lk, &w.roles, &mut w.out, w.keeper, key).unwrap();
    assert_eq!(execute(&mut w, key), Err(Failure::Order(Error::OrderFrozen)));
    let lu = ledger(&w, w.user);
    w.oh.update_order(&lu, &mut w.out, w.user, key, 1_000 * FP, 0, 0, 0).unwrap();
    let stored = w.oh.get_order(&key).unwrap();
    assert_eq!((stored.size_delta_usd, stored.collateral_delta_amount), (1_000 * FP, 2 * TP));
    assert_eq!(execute(&mut w, key), Ok(()));
    assert_eq!(w.ds.get_u128(&Key::LastKeeperActivity), w.time as u128);
    let size = w.oh.get_position(&key_of(&w, w.long_tk, true)).unwrap().size_in_usd;
    assert_eq!(size, 1_000 * FP);
}

#[test]
fn strangers_cannot_update_orders() {
    let mut w = setup();
    let p = order(&w, OrderType::LimitIncrease, w.long_tk, 2_000 * FP, 2 * TP);
    let key = create(&mut w, p).unwrap();
    let l = ledger(&w, addr(66));
    assert_eq!(
        w.oh.update_order(&l, &mut w.out, addr(66), key, FP, 0, 0, 0),
        Err(Failure::Order(Error::Unauthorized))
    );
}

#[test]
fn swaps_without_a_path_are_rejected() {
    let mut w = setup();
    set_prices(&mut w, 2_000 * FP);
    let p = order(&w, OrderType::MarketSwap, w.long_tk, 0, TP);
    let key = create(&mut w, p).unwrap();
    assert_eq!(execute(&mut w, key), Err(Failure::Order(Error::InvalidOrderType)));
}

#[test]
fn increases_respect_the_acceptable_price() {
    let mut w = setup();
    set_prices(&mut w, 2_000 * FP);
    let mut p = order(&w, OrderType::MarketIncrease, w.long_tk, 2_000 * FP, 2 * TP);
    p.acceptable_price = 1_999 * FP;
    let key = create(&mut w, p).unwrap();
    assert_eq!(
        execute(&mut w, key),
        Err(Failure::Increase(IncreasePositionError::PriceTooHigh))
    );
    let mut p = order(&w, OrderType::MarketIncrease, w.long_tk, 2_000 * FP, 2 * TP);
    p.acceptable_price = 2_001 * FP;
    p.is_long = false;
    let key = create(&mut w, p).unwrap();
    assert_eq!(
        execute(&mut w, key),
        Err(Failure::Increase(IncreasePositionError::PriceTooLow))
    );
}

#[test]
fn leverage_is_limited() {
    let mut w = setup();
    set_prices(&mut w, 2_000 * FP);
    set_u128(&mut w.ds, Key::MaxLeverage { market: w.market_tk }, 1_000);
    let p = order(&w, OrderType::MarketIncrease, w.short_tk, 1_010 * FP, 100 * TP);
    let key = create(&mut w, p).unwrap();
    assert_eq!(
        execute(&mut w, key),
        Err(Failure::Position(PositionError::ExceedsMaxLeverage))
    );
    let p = order(&w, OrderType::MarketIncrease, w.short_tk, 1_000 * FP, 100 * TP);
    let key = create(&mut w, p).unwrap();
    assert_eq!(execute(&mut w, key), Ok(()));
}

/// A setting of 5000 is fiftyfold: ten dollars may carry a hundred, and five
/// hundred, but not ten more than that.
#[test]
fn leverage_is_set_in_hundredths() {
    let mut w = setup();
    set_prices(&mut w, 2_000 * FP);
    set_u128(&mut w.ds, Key::MaxLeverage { market: w.market_tk }, 5_000);
    let short_tk = w.short_tk;
    open(&mut w, short_tk, 100 * FP, 100_000_000, true);
    let held = w.oh.get_position(&key_of(&w, short_tk, true)).unwrap();
    assert_eq!((held.size_in_usd, held.collateral_amount), (100 * FP, 100_000_000));
    let p = order(&w, OrderType::MarketIncrease, w.short_tk, 410 * FP, 1);
    let key = create(&mut w, p).unwrap();
    assert_eq!(
        execute(&mut w, key),
        Err(Failure::Position(PositionError::ExceedsMaxLeverage))
    );
    open(&mut w, short_tk, 400 * FP, 1, true);
    set_u128(&mut w.ds, Key::MaxLeverage { market: w.market_tk }, 0);
    open(&mut w, short_tk, 10_000 * FP, 1, true);
}

#[test]
fn collateral_can_run_out() {
    let mut w = setup();
    set_prices(&mut w, 2_000 * FP);
    let market = w.market_tk;
    set_u128(&mut w.ds, 
        Key::PositionFeeFactor { market, for_positive_impact: true },
        FP as u128 / 100,
    );
    let p = order(&w, OrderType::MarketIncrease, w.short_tk, 1_000 * FP, 9 * TP);
    let key = create(&mut w, p).unwrap();
    assert_eq!(
        execute(&mut w, key),
        Err(Failure::Increase(IncreasePositionError::InsufficientCollateral))
    );
}

#[test]
fn missing_prices_and_markets_are_reported() {
    let mut w = setup();
    let p = order(&w, OrderType::MarketIncrease, w.long_tk, FP, TP);
    let key = create(&mut w, p).unwrap();
    let l = ledger(&w, w.keeper);
    let q = ExecutionQuote {
        position: PositionQuote { accrual: accrual(&w), impact_usd: 0, execution_price: FP },
        swaps: vec![],
    };
    assert_eq!(
        w.oh.execute_order(&l, &w.roles, &mut w.ds, &w.prices, &mut w.out, w.keeper, key, &q),
        Err(Failure::PriceUnavailable)
    );
    let mut p = order(&w, OrderType::MarketIncrease, w.long_tk, FP, TP);
    p.market = addr(99);
    let key = create(&mut w, p).unwrap();
    assert_eq!(
        w.oh.execute_order(&l, &w.roles, &mut w.ds, &w.prices, &mut w.out, w.keeper, key, &q),
        Err(Failure::MarketNotFound)
    );
}

#[test]
fn fee_tiers_apply_to_the_volume_of_the_window() {
    let mut w = setup();
    set_prices(&mut w, 2_000 * FP);
    let market = w.market_tk;
    for impact in [true, false] {
        set_u128(&mut w.ds, 
            Key::PositionFeeFactor { market, for_positive_impact: impact },
            FP as u128 / 100,
        );
    }
    set_u128(&mut w.ds, Key::FeeTierVolumeThreshold { market, tier: 0 }, 2_000 * FP as u128);
    set_u128(&mut w.ds, Key::FeeTierPositionFeeFactor { market, tier: 0 }, FP as u128 / 200);
    let short_tk = w.short_tk;
    open(&mut w, short_tk, 1_000 * FP, 100 * TP, true);
    let first = w.oh.get_position(&key_of(&w, short_tk, true)).unwrap();
    // One per cent of 1,000 dollars.
    assert_eq!(first.collateral_amount, 90 * TP);
    open(&mut w, short_tk, 1_000 * FP, 100 * TP, true);
    let second = w.oh.get_position(&key_of(&w, short_tk, true)).unwrap();
    // Half a per cent, now that 2,000 dollars were traded.
    assert_eq!(second.collateral_amount, 185 * TP);
    assert_eq!(
        w.ds.get_u128(&Key::PositionFeeFactor { market, for_positive_impact: true }),
        FP as u128 / 100
    );
    assert_eq!(
        w.ds.get_u128(&Key::TraderVolume { account: w.user, market }),
        2_000 * FP as u128
    );
    w.sequence += 600_000;
    open(&mut w, short_tk, 1_000 * FP, 100 * TP, true);
    assert_eq!(
        w.ds.get_u128(&Key::TraderVolume { account: w.user, market }),
        1_000 * FP as u128
    );
}

#[test]
fn silent_keepers_are_flagged() {
    let mut w = setup();
    let l = ledger(&w, addr(90));
    assert!(!OrderHandler::flag_stale_keeper(&l, &w.ds, &mut w.out));
    set_u128(&mut w.ds, Key::KeeperHeartbeatTimeout, 50);
    set_u128(&mut w.ds, Key::LastKeeperActivity, 40);
    assert!(OrderHandler::flag_stale_keeper(&l, &w.ds, &mut w.out));
    assert_eq!(
        w.out,
        vec![Action::Publish(Event::KeeperStale { last_activity: 40, timestamp: 100 })]
    );
    set_u128(&mut w.ds, Key::LastKeeperActivity, 60);
    assert!(!OrderHandler::flag_stale_keeper(&l, &w.ds, &mut w.out));
}

#[test]
fn liquidation_proceeds_are_split() {
    let mut w = setup();
    let market = w.market_tk;
    set_u128(&mut w.ds, Key::LiquidationFeeFactor { market }, 5 * FP as u128 / 100);
    set_u128(&mut w.ds, Key::LiquidationKeeperFeeFactor { market }, 20 * FP as u128 / 100);
    assert_eq!(
        split_collateral(&w.ds, &market, 90 * TP, FP, true),
        Ok(CollateralSplit {
            keeper_fee: 9 * TP / 10,
            insurance_fee: 36 * TP / 10,
            remainder: 855 * TP / 10,
        })
    );
    set_u128(&mut w.ds, Key::LiquidationFeeFactor { market }, 0);
    assert_eq!(
        split_collateral(&w.ds, &market, 90 * TP, FP, true),
        Ok(CollateralSplit { keeper_fee: 0, insurance_fee: 0, remainder: 90 * TP })
    );
}

#[test]
fn failing_positions_are_liquidated() {
    let mut w = setup();
    grant(&mut w.roles, w.keeper, Role::LiquidationKeeper);
    set_prices(&mut w, 100 * FP);
    seed_pool(&mut w, 10_000 * TP, 50_000 * TP);
    let short_tk = w.short_tk;
    open(&mut w, short_tk, 1_000 * FP, 150 * TP, true);
    enable_min_collateral(&mut w);
    let mut lh = LiquidationHandler::new();
    let la = ledger(&w, w.admin);
    let position = key_of(&w, short_tk, true);
    assert_eq!(
        lh.check_liquidatable(&w.oh, &w.ds, &w.prices, position),
        Err(Failure::Liquidation(liquidation_handler::Error::NotInitialized))
    );
    lh.initialize(&la, w.admin, addr(4), addr(5), addr(6), w.handler).unwrap();
    assert_eq!(
        lh.initialize(&la, w.admin, addr(4), addr(5), addr(6), w.handler),
        Err(Failure::Liquidation(liquidation_handler::Error::AlreadyInitialized))
    );
    let env = Env::default();
    let lk = ledger(&w, w.keeper);
    let q = position_quote(&w);
    assert_eq!(
        lh.liquidate_position(
            &env, &mut w.oh, &lk, &w.roles, &mut w.ds, &w.prices, &mut w.out, w.keeper, position, &q,
        ),
        Err(Failure::Liquidation(liquidation_handler::Error::NotLiquidatable))
    );
    // A fall of six per cent leaves 90 dollars, less than a tenth of the size.
    set_prices(&mut w, 94 * FP);
    let q = position_quote(&w);
    assert_eq!(lh.check_liquidatable(&w.oh, &w.ds, &w.prices, position), Ok(true));
    assert_eq!(
        lh.liquidate_position(
            &env, &mut w.oh, &lk, &w.roles, &mut w.ds, &w.prices, &mut w.out, w.keeper, position, &q,
        ),
        Ok(())
    );
    assert!(w.oh.get_position(&position).is_none());
    assert_eq!(pool_paid(&w, short_tk, w.user), 90 * TP);
    assert!(w
        .out
        .contains(&Action::Publish(Event::LiquidationDone { position, keeper: w.keeper })));
}

/// The configured fund gets its part of the fee, whoever asks.
#[test]
fn liquidation_fees_go_to_the_configured_fund() {
    let mut w = setup();
    let env = Env::default();
    set_prices(&mut w, 100 * FP);
    seed_pool(&mut w, 10_000 * TP, 50_000 * TP);
    let (market, short_tk, fund) = (w.market_tk, w.short_tk, addr(70));
    open(&mut w, short_tk, 1_000 * FP, 150 * TP, true);
    set_u128(&mut w.ds, Key::MinCollateralFactor { market }, FP as u128 / 10);
    set_u128(&mut w.ds, Key::LiquidationFeeFactor { market }, 5 * FP as u128 / 100);
    set_u128(&mut w.ds, Key::LiquidationKeeperFeeFactor { market }, 20 * FP as u128 / 100);
    let la = ledger(&w, w.admin);
    InsuranceFundRouter::configure_insurance_fund(
        &env, &la, &w.roles, &mut w.ds, &mut w.out, w.admin, market, fund, 0,
    )
    .unwrap();
    grant(&mut w.roles, w.keeper, Role::LiquidationKeeper);
    set_prices(&mut w, 94 * FP);
    let (l, q, position) = (ledger(&w, w.keeper), position_quote(&w), key_of(&w, short_tk, true));
    w.oh.liquidate_position(
        &env, &l, &w.roles, &mut w.ds, &w.prices, &mut w.out, w.keeper, position, &q,
    )
    .unwrap();
    // Five per cent of 90 tokens: a fifth to the keeper, the rest to the fund.
    assert_eq!(pool_paid(&w, short_tk, w.keeper), 9 * TP / 10);
    assert_eq!(pool_paid(&w, short_tk, fund), 36 * TP / 10);
    assert_eq!(pool_paid(&w, short_tk, w.user), 855 * TP / 10);
}

#[test]
fn profitable_positions_are_deleveraged() {
    let mut w = setup();
    grant(&mut w.roles, w.keeper, Role::AdlKeeper);
    set_prices(&mut w, 100 * FP);
    seed_pool(&mut w, 10 * TP, 1_000 * TP);
    let short_tk = w.short_tk;
    open(&mut w, short_tk, 1_000 * FP, 500 * TP, true);
    let mut ah = AdlHandler::new();
    let la = ledger(&w, w.admin);
    assert_eq!(
        ah.is_adl_required(&w.ds, &w.prices, w.market_tk, true),
        Err(Failure::Adl(adl_handler::Error::NotInitialized))
    );
    ah.initialize(&la, w.admin, addr(4), addr(5), addr(6), w.handler).unwrap();
    let position = key_of(&w, short_tk, true);
    let lk = ledger(&w, w.keeper);
    let q = position_quote(&w);
    let required = Key::MaxPnlFactorForAdl { market: w.market_tk, is_long: true };
    assert_eq!(ah.is_adl_required(&w.ds, &w.prices, w.market_tk, true), Ok(false));
    set_u128(&mut w.ds, required, FP as u128 / 10);
    assert_eq!(
        ah.execute_adl(
            &mut w.oh, &lk, &w.roles, &mut w.ds, &w.prices, &mut w.out, w.keeper, position, 500 * FP,
            &q,
        ),
        Err(Failure::Adl(adl_handler::Error::AdlNotRequired))
    );
    set_prices(&mut w, 150 * FP);
    let q = position_quote(&w);
    assert_eq!(ah.is_adl_required(&w.ds, &w.prices, w.market_tk, true), Ok(true));
    assert_eq!(
        ah.execute_adl(
            &mut w.oh, &lk, &w.roles, &mut w.ds, &w.prices, &mut w.out, w.keeper, position, 0, &q,
        ),
        Err(Failure::Adl(adl_handler::Error::InvalidInput))
    );
    assert_eq!(
        ah.execute_adl(
            &mut w.oh, &lk, &w.roles, &mut w.ds, &w.prices, &mut w.out, w.keeper, position, 500 * FP,
            &q,
        ),
        Ok(())
    );
    let left = w.oh.get_position(&position).unwrap();
    assert_eq!(left.size_in_usd, 500 * FP);
    // Half the collateral, 250, and half the profit, 250.
    assert_eq!(pool_paid(&w, short_tk, w.user), 500 * TP);
}

#[test]
fn vault_hands_the_collateral_to_the_market() {
    let mut w = setup();
    set_prices(&mut w, 2_000 * FP);
    let long_tk = w.long_tk;
    open(&mut w, long_tk, 2_000 * FP, 2 * TP, true);
    assert!(w.out.contains(&Action::VaultTransferOut {
        vault: w.vault,
        token: long_tk,
        receiver: w.market_tk,
        amount: 2 * TP,
    }));
}

#[test]
fn interest_is_the_sum_of_the_positions() {
    let mut w = setup();
    set_prices(&mut w, 2_000 * FP);
    seed_pool(&mut w, 1_000 * TP, 100_000 * TP);
    let (short_tk, market) = (w.short_tk, w.market_tk);
    let first = w.user;
    open(&mut w, short_tk, 1_000 * FP, 100 * TP, true);
    w.user = addr(31);
    open(&mut w, short_tk, 3_000 * FP, 300 * TP, true);
    open(&mut w, short_tk, 500 * FP, 100 * TP, false);
    set_prices(&mut w, 2_100 * FP);
    let p = order(&w, OrderType::MarketDecrease, short_tk, 700 * FP, 0);
    let key = create(&mut w, p).unwrap();
    execute(&mut w, key).unwrap();
    let held = |w: &World, who: Address, is_long: bool| {
        w.oh.get_position(&get_position_key(&who, &market, &short_tk, is_long)).unwrap()
    };
    let (a, b) = (held(&w, first, true), held(&w, w.user, true));
    let long = Key::OpenInterest { market, token: short_tk, is_long: true };
    let tokens = Key::OpenInterestInTokens { market, token: short_tk, is_long: true };
    assert_eq!(w.ds.get_u128(&long), (a.size_in_usd + b.size_in_usd) as u128);
    assert_eq!(w.ds.get_u128(&long), 3_300 * FP as u128);
    assert_eq!(w.ds.get_u128(&tokens), (a.size_in_tokens + b.size_in_tokens) as u128);
    let bear = held(&w, w.user, false);
    let short = Key::OpenInterest { market, token: short_tk, is_long: false };
    assert_eq!(w.ds.get_u128(&short), bear.size_in_usd as u128);
}

#[test]
fn rejections_have_the_numbers_of_their_contracts() {
    assert_eq!(Failure::Order(Error::MaxLeverageExceeded).code(), 10);
    assert_eq!(Failure::Liquidation(liquidation_handler::Error::NotLiquidatable).code(), 5);
    assert_eq!(Failure::Position(PositionError::ExceedsMaxOI).code(), 3);
    assert_eq!(Failure::Overflow.code(), 0);
}

#[test]
fn nothing_is_borrowed_without_open_interest() {
    let mut w = setup();
    set_prices(&mut w, 2_000 * FP);
    let long_tk = w.long_tk;
    let cum_key = Key::CumulativeBorrowingFactor { market: w.market_tk, is_long: true };
    w.borrowing = FP / 100;
    w.time = 50;
    open(&mut w, long_tk, 2_000 * FP, 2 * TP, true);
    assert_eq!(w.ds.get_u128(&cum_key), 0);
    w.time = 60;
    open(&mut w, long_tk, 2_000 * FP, 2 * TP, true);
    assert_eq!(w.ds.get_u128(&cum_key), FP as u128 / 100);
    // A second change at the same moment finds the factor up to date.
    open(&mut w, long_tk, 2_000 * FP, 2 * TP, true);
    assert_eq!(w.ds.get_u128(&cum_key), FP as u128 / 100);
}

#[test]
fn borrowing_fee_is_rounded_up_to_token_units() {
    let mut w = setup();
    let long_tk = w.long_tk;
    set_prices(&mut w, 2_000 * FP);
    open(&mut w, long_tk, 1_000 * FP, TP, true);
    // Two and a half parts in ten thousand of half a token.
    w.time += 5_000;
    w.borrowing = 25 * FP / 100_000;
    let p = order(&w, OrderType::MarketDecrease, long_tk, 1_000 * FP, 0);
    let key = create(&mut w, p).unwrap();
    execute(&mut w, key).unwrap();
    assert_eq!(pool_paid(&w, long_tk, w.user), TP - 1_250);
}
