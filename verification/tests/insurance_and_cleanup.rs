//! The insurance fund router, the cleanup of expired orders and the utilisation
//! of markets.

use perps::actions::{Action, Event};
use perps::data_store;
use perps::data_store::{DataStore, Key};
use perps::failure::Failure;
use perps::insurance_fund_router;
use perps::insurance_fund_router::{
    cover, insurance_fund_address_key, insurance_fund_allocation_bps_key, split_penalty,
    InsuranceFundRouter, InsurancePenaltyRouted, PenaltySplit, ShortfallCoverage, BPS_DIVISOR,
};
use perps::ledger::Ledger;
use perps::market_util_reader::{utilisation_bps, MarketUtilReader, MarketUtilisation};
use perps::math::{FLOAT_PRECISION, TOKEN_PRECISION};
use perps::order_cleanup;
use perps::order_cleanup::{
    cleanup_fee_from_execution_fee, expiry_for_order, order_expiry_key, order_type_code,
    ExpiredOrderCancelled, ExpiredOrderPreview, OrderCleanup, DEFAULT_ORDER_EXPIRY,
};
use perps::order_handler;
use perps::order_handler::OrderHandler;
use perps::role_store::{Role, RoleStore};
use perps::types::{Address, Bytes32, CreateOrderParams, OrderKey, OrderType, PriceBoard, PriceProps};
use soroban_sdk::Env;

fn addr(n: u64) -> Address {
    Address { head: 0, body: 0, tail: 0, last: n }
}

/// A ledger on which the administrator signed.
fn admin_ledger() -> Ledger {
    Ledger { timestamp: 0, sequence: 1, current_contract: addr(9), signers: vec![addr(1)] }
}

/// A store of roles that the administrator looks after.
fn role_book() -> RoleStore {
    let mut roles = RoleStore::new();
    roles.initialize(&admin_ledger(), addr(1)).unwrap();
    roles
}

fn grant(roles: &mut RoleStore, account: Address, role: Role) {
    roles.grant_role(&admin_ledger(), addr(1), account, role).unwrap();
}

fn set_address(ds: &mut DataStore, key: Key, value: Address) {
    let mut roles = role_book();
    grant(&mut roles, addr(1), Role::Controller);
    ds.set_address(&admin_ledger(), &roles, addr(1), key, value).unwrap();
}

fn set_u128(ds: &mut DataStore, key: Key, value: u128) {
    let mut roles = role_book();
    grant(&mut roles, addr(1), Role::Controller);
    ds.set_u128(&admin_ledger(), &roles, addr(1), key, value).unwrap();
}

fn from_text(text: &str) -> Address {
    let b = text.as_bytes();
    let word = |from: usize, to: usize| b[from..to].iter().fold(0u128, |x, c| x * 256 + *c as u128);
    Address { head: word(0, 16), body: word(16, 32), tail: word(32, 48), last: word(48, 56) as u64 }
}

fn at(timestamp: u64, signer: Address) -> Ledger {
    Ledger { timestamp, sequence: 1, current_contract: addr(9), signers: vec![signer] }
}

// ---------------------------------------------------------------------------
// The insurance fund
// ---------------------------------------------------------------------------

#[test]
fn zero_bps_routes_all_penalty_to_treasury() {
    let split = split_penalty(1_000, 0);
    assert_eq!(split.insurance_share, 0);
    assert_eq!(split.treasury_share, 1_000);
}

#[test]
fn allocation_splits_penalty_by_bps() {
    assert_eq!(BPS_DIVISOR, 10_000);
    let split = split_penalty(10_000, 2_500);
    assert_eq!(split.insurance_share, 2_500);
    assert_eq!(split.treasury_share, 7_500);
}

#[test]
fn fund_covers_shortfall_until_exhausted() {
    let c = cover(1_000, 600);
    assert_eq!(c.covered_by_fund, 600);
    assert_eq!(c.pool_remainder, 400);
}

#[test]
fn shares_always_add_up() {
    for (penalty, bps) in [(7u128, 3_333u128), (1, 9_999), (u128::MAX, 10_000)] {
        let s = split_penalty(penalty, bps);
        assert_eq!(s.insurance_share + s.treasury_share, penalty);
    }
    assert_eq!(cover(10, -5), ShortfallCoverage { covered_by_fund: 0, pool_remainder: 10 });
    assert_eq!(cover(10, 50), ShortfallCoverage { covered_by_fund: 10, pool_remainder: 0 });
}

#[test]
fn fund_keys_are_hashes_of_tag_and_address() {
    let env = Env::default();
    let market = from_text("GAAAAAAAAAAAAAAAAAAAAAAAAAAAAAAAAAAAAAAAAAAAAAAAAAAAAWHF");
    assert_eq!(
        insurance_fund_address_key(&env, &market),
        Key::Hashed(Bytes32 {
            hi: 0xa1df8811dd746e6c330822e66c15f506,
            lo: 0xc0c1e84c6551fbcc2a54b2b9224fe248,
        })
    );
    assert_eq!(
        insurance_fund_allocation_bps_key(&env, &market),
        Key::Hashed(Bytes32 {
            hi: 0xa153af963c3ea570b6acd0dc6ab8f177,
            lo: 0x88690e3fe020e8e11d4cfb58628a0338,
        })
    );
}

#[test]
fn penalties_are_routed_to_fund_and_treasury() {
    let env = Env::default();
    let mut ds = DataStore::new();
    let mut out = Vec::new();
    let (admin, market, fund, token, source, treasury) =
        (addr(1), addr(2), addr(3), addr(4), addr(5), addr(6));
    let mut roles = role_book();
    grant(&mut roles, admin, Role::Controller);
    assert_eq!(
        InsuranceFundRouter::configure_insurance_fund(
            &env, &at(0, admin), &roles, &mut ds, &mut out, admin, market, fund, 10_001,
        ),
        Err(Failure::Insurance(insurance_fund_router::Error::AllocationTooHigh))
    );
    let anyone = addr(50);
    assert_eq!(
        InsuranceFundRouter::configure_insurance_fund(
            &env, &at(0, anyone), &roles, &mut ds, &mut out, anyone, market, anyone, 10_000,
        ),
        Err(Failure::Store(data_store::Error::Unauthorized))
    );
    assert!(out.is_empty());
    assert_eq!(InsuranceFundRouter::get_insurance_fund(&env, &ds, &market), None);
    InsuranceFundRouter::configure_insurance_fund(
        &env, &at(0, admin), &roles, &mut ds, &mut out, admin, market, fund, 2_500,
    )
    .unwrap();
    assert_eq!(InsuranceFundRouter::get_insurance_fund(&env, &ds, &market), Some(fund));
    assert_eq!(InsuranceFundRouter::get_insurance_fund(&env, &ds, &addr(7)), None);
    let split = PenaltySplit { insurance_share: 250, treasury_share: 750 };
    assert_eq!(
        InsuranceFundRouter::preview_penalty_split(&env, &ds, market, 1_000),
        split
    );
    out.clear();
    assert_eq!(
        InsuranceFundRouter::route_liquidation_penalty(
            &env, &at(0, source), &ds, &mut out, market, token, source, treasury, 1_000,
        ),
        Ok(split)
    );
    assert_eq!(
        out,
        vec![
            Action::TokenTransfer { token, from: source, to: fund, amount: 250 },
            Action::Publish(Event::InsurancePenaltyRouted(InsurancePenaltyRouted {
                market,
                token,
                fund,
                insurance_share: 250,
                treasury_share: 750,
            })),
            Action::TokenTransfer { token, from: source, to: treasury, amount: 750 },
        ]
    );
    out.clear();
    assert_eq!(
        InsuranceFundRouter::cover_shortfall(&env, &ds, &mut out, market, token, addr(8), 1_000, 600),
        Ok(ShortfallCoverage { covered_by_fund: 600, pool_remainder: 400 })
    );
    assert_eq!(
        out[0],
        Action::TokenTransfer { token, from: fund, to: addr(8), amount: 600 }
    );
    assert_eq!(
        InsuranceFundRouter::cover_shortfall(
            &env, &ds, &mut out, addr(7), token, addr(8), 1_000, 600,
        ),
        Err(Failure::Insurance(insurance_fund_router::Error::MissingInsuranceFund))
    );
}

// ---------------------------------------------------------------------------
// Expired orders
// ---------------------------------------------------------------------------

#[test]
fn default_expiry_matches_four_hour_ledger_target() {
    assert_eq!(DEFAULT_ORDER_EXPIRY, 2_880);
}

#[test]
fn cleanup_fee_is_small_portion_of_execution_fee() {
    assert_eq!(cleanup_fee_from_execution_fee(1_000), 100);
    assert_eq!(cleanup_fee_from_execution_fee(0), 0);
    assert_eq!(cleanup_fee_from_execution_fee(-1), 0);
}

#[test]
fn order_type_codes_are_stable() {
    assert_eq!(order_type_code(&OrderType::MarketSwap), 0);
    assert_eq!(order_type_code(&OrderType::StopIncrease), 8);
}

#[test]
fn expiry_keys_are_hashes_of_tag_and_code() {
    let env = Env::default();
    assert_eq!(
        order_expiry_key(&env, &OrderType::MarketSwap),
        Key::Hashed(Bytes32 {
            hi: 0x9780b750236fb1a94964b510c34401fb,
            lo: 0xa4bc0767d6983e8e06952540055361ad,
        })
    );
    assert_eq!(
        order_expiry_key(&env, &OrderType::StopIncrease),
        Key::Hashed(Bytes32 {
            hi: 0x786c7ea65c96daf3ae59050d53181373,
            lo: 0x91ba86c19b98c1f9f3730fbefccc9ed4,
        })
    );
}

#[test]
fn expired_orders_are_cancelled_by_anyone() {
    let env = Env::default();
    let (admin, user, caller, cleanup) = (addr(1), addr(2), addr(3), addr(9));
    let mut ds = DataStore::new();
    let mut roles = role_book();
    let mut out = Vec::new();
    let mut oh = OrderHandler::new();
    oh.initialize(&at(0, admin), admin, addr(4), addr(5), addr(6), addr(7)).unwrap();
    let params = CreateOrderParams {
        receiver: user,
        market: addr(10),
        initial_collateral_token: addr(11),
        swap_path: vec![],
        size_delta_usd: FLOAT_PRECISION,
        collateral_delta_amount: 5,
        trigger_price: 0,
        acceptable_price: 0,
        execution_fee: 1_000,
        min_output_amount: 0,
        order_type: OrderType::LimitIncrease,
        is_long: true,
    };
    let key = oh.create_order(&at(1_000, user), &mut ds, &mut out, user, params, 5).unwrap();
    assert_eq!(
        OrderCleanup::preview_expired_order(&env, &at(1_500, caller), &ds, &oh, key),
        ExpiredOrderPreview {
            exists: true,
            is_expired: false,
            age: 500,
            expiry: 2_880,
            cleanup_fee: 100,
        }
    );
    assert_eq!(
        OrderCleanup::cancel_expired_order(
            &env, &at(3_879, caller), &roles, &mut ds, &mut oh, &mut out, caller, key,
        ),
        Err(Failure::Cleanup(order_cleanup::Error::NotYetExpired))
    );
    assert_eq!(
        OrderCleanup::cancel_expired_order(
            &env, &at(3_880, caller), &roles, &mut ds, &mut oh, &mut out, caller, key,
        ),
        Err(Failure::Order(order_handler::Error::Unauthorized))
    );
    grant(&mut roles, cleanup, Role::OrderKeeper);
    assert_eq!(
        OrderCleanup::set_order_expiry(
            &env, &at(0, admin), &roles, &mut ds, admin, OrderType::LimitIncrease, 600,
        ),
        Err(Failure::Store(data_store::Error::Unauthorized))
    );
    grant(&mut roles, admin, Role::Controller);
    OrderCleanup::set_order_expiry(
        &env, &at(0, admin), &roles, &mut ds, admin, OrderType::LimitIncrease, 600,
    )
    .unwrap();
    assert_eq!(expiry_for_order(&env, &ds, &OrderType::LimitIncrease), 600);
    assert_eq!(expiry_for_order(&env, &ds, &OrderType::LimitSwap), 2_880);
    out.clear();
    OrderCleanup::cancel_expired_order(
        &env, &at(1_600, caller), &roles, &mut ds, &mut oh, &mut out, caller, key,
    )
    .unwrap();
    assert!(oh.get_order(&key).is_none());
    assert!(out.contains(&Action::VaultTransferOut {
        vault: addr(7),
        token: addr(11),
        receiver: user,
        amount: 5,
    }));
    assert_eq!(
        out.last(),
        Some(&Action::Publish(Event::ExpiredOrderCancelled(ExpiredOrderCancelled {
            key,
            account: user,
            caller,
            age: 600,
            expiry: 600,
            cleanup_fee: 100,
        })))
    );
    let missing = OrderKey { nonce: 99 };
    assert_eq!(
        OrderCleanup::cancel_expired_order(
            &env, &at(1_600, caller), &roles, &mut ds, &mut oh, &mut out, caller, missing,
        ),
        Err(Failure::Cleanup(order_cleanup::Error::OrderNotFound))
    );
    assert!(!OrderCleanup::preview_expired_order(&env, &at(0, caller), &ds, &oh, missing).exists);
}

#[test]
fn manual_refunds_are_recorded() {
    let mut out = Vec::new();
    let (admin, reason) = (addr(1), Bytes32 { hi: 1, lo: 2 });
    OrderCleanup::record_manual_refund(
        &at(0, admin), &mut out, admin, addr(2), addr(3), 50, reason,
    )
    .unwrap();
    assert_eq!(
        out,
        vec![Action::Publish(Event::ManualRefund {
            admin,
            token: addr(2),
            receiver: addr(3),
            amount: 50,
            reason,
        })]
    );
}

// ---------------------------------------------------------------------------
// Utilisation
// ---------------------------------------------------------------------------

#[test]
fn fifty_percent_utilisation_is_5000_bps() {
    assert_eq!(utilisation_bps(50_000, 100_000), 5_000);
}

#[test]
fn zero_pool_value_returns_max_bps() {
    assert_eq!(utilisation_bps(50_000, 0), u32::MAX);
}

#[test]
fn utilisation_rounds_down_within_one_bps() {
    assert_eq!(utilisation_bps(1, 3), 3_333);
}

#[test]
fn utilisation_of_a_market() {
    let (fp, tp) = (FLOAT_PRECISION, TOKEN_PRECISION);
    let (market, index, long, short) = (addr(1), addr(2), addr(3), addr(4));
    let mut ds = DataStore::new();
    set_address(&mut ds, Key::MarketIndexToken { market }, index);
    set_address(&mut ds, Key::MarketLongToken { market }, long);
    set_address(&mut ds, Key::MarketShortToken { market }, short);
    set_u128(&mut ds, Key::PoolAmount { market, token: long }, 500 * tp as u128);
    set_u128(&mut ds, Key::PoolAmount { market, token: short }, 1_000 * tp as u128);
    set_u128(&mut ds, Key::OpenInterest { market, token: long, is_long: true }, 400 * fp as u128);
    set_u128(&mut ds, 
        Key::OpenInterestInTokens { market, token: long, is_long: true },
        400 * tp as u128,
    );
    set_u128(&mut ds, Key::OpenInterest { market, token: short, is_long: false }, 100 * fp as u128);
    set_u128(&mut ds, 
        Key::OpenInterestInTokens { market, token: short, is_long: false },
        100 * tp as u128,
    );
    set_u128(&mut ds, Key::MaxOpenInterest { market, is_long: true }, 400 * fp as u128);
    let mut prices = PriceBoard::new();
    assert_eq!(
        MarketUtilReader::get_market_utilisation(&ds, &prices, market),
        Err(Failure::PriceUnavailable)
    );
    for token in [index, long, short] {
        prices.post(token, PriceProps { min: fp, max: fp });
    }
    assert_eq!(
        MarketUtilReader::get_market_utilisation(&ds, &prices, market),
        Ok(MarketUtilisation {
            pool_value_usd: 1_500 * fp as u128,
            long_open_interest_usd: 400 * fp as u128,
            short_open_interest_usd: 100 * fp as u128,
            long_utilisation_bps: utilisation_bps(400 * fp as u128, 1_500 * fp as u128),
            short_utilisation_bps: utilisation_bps(100 * fp as u128, 1_500 * fp as u128),
            combined_utilisation_bps: utilisation_bps(500 * fp as u128, 1_500 * fp as u128),
            is_at_long_oi_cap: true,
            is_at_short_oi_cap: false,
        })
    );
}

#[test]
fn deeper_pools_are_used_less() {
    for (pool, bps) in [(0, u32::MAX), (1, 70_000), (7, 10_000), (70, 1_000), (700, 100)] {
        assert_eq!(utilisation_bps(7, pool), bps);
    }
}
