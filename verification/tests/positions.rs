//! Arithmetic, the keyed store and the position helpers.

use perps::actions::Action;
use perps::data_store::{DataStore, Key, Member};
use perps::decrease_position_utils::{decrease_position, DecreasePositionParams};
use perps::failure::Failure;
use perps::increase_position_utils::{increase_position, IncreasePositionParams, PositionQuote};
use perps::ledger::Ledger;
use perps::market_utils::{
    apply_delta_to_pool_amount, load_market, validate_open_interest, FundingGrowth, MarketAccrual,
};
use perps::math::{
    clamped_sum, low_u32, minus, mul_div_wide, mul_div_wide_up, plus, plus_signed, saturating_mul,
    FLOAT_PRECISION, TOKEN_PRECISION,
};
use perps::position_utils::{
    get_position_fees, get_position_key, get_position_pnl_usd, is_liquidatable,
    settle_funding_fees, validate_position, PositionError,
};
use perps::role_store::{Role, RoleStore};
use perps::swap_utils::{swap, swap_with_path, validate_swap_path, SwapError, SwapQuote};
use perps::table::Table;
use perps::types::{
    Address, MarketProps, PositionKey, PositionProps, PositionStorageKey, PriceBoard, PriceProps,
};

const FP: i128 = FLOAT_PRECISION;
const TP: i128 = TOKEN_PRECISION;

fn addr(n: u64) -> Address {
    Address { head: 0, body: 0, tail: 0, last: n }
}

/// A ledger on which the administrator signed.
fn admin_ledger() -> Ledger {
    Ledger { timestamp: 0, sequence: 1, current_contract: addr(9), signers: vec![addr(1)] }
}

/// A store of roles that the administrator looks after.
fn role_book() -> RoleStore {
    let mut roles = RoleStore::new();
    roles.initialize(&admin_ledger(), addr(1)).unwrap();
    roles
}

fn grant(roles: &mut RoleStore, account: Address, role: Role) {
    roles.grant_role(&admin_ledger(), addr(1), account, role).unwrap();
}

fn set_address(ds: &mut DataStore, key: Key, value: Address) {
    let mut roles = role_book();
    grant(&mut roles, addr(1), Role::Controller);
    ds.set_address(&admin_ledger(), &roles, addr(1), key, value).unwrap();
}

fn set_bool(ds: &mut DataStore, key: Key, value: bool) {
    let mut roles = role_book();
    grant(&mut roles, addr(1), Role::Controller);
    ds.set_bool(&admin_ledger(), &roles, addr(1), key, value).unwrap();
}

fn set_i128(ds: &mut DataStore, key: Key, value: i128) {
    let mut roles = role_book();
    grant(&mut roles, addr(1), Role::Controller);
    ds.set_i128(&admin_ledger(), &roles, addr(1), key, value).unwrap();
}

fn set_u128(ds: &mut DataStore, key: Key, value: u128) {
    let mut roles = role_book();
    grant(&mut roles, addr(1), Role::Controller);
    ds.set_u128(&admin_ledger(), &roles, addr(1), key, value).unwrap();
}

fn flat(p: i128) -> PriceProps {
    PriceProps { min: p, max: p }
}

fn market() -> MarketProps {
    MarketProps {
        market_token: addr(10),
        index_token: addr(13),
        long_token: addr(11),
        short_token: addr(12),
    }
}

fn position(size: i128, tokens: i128, collateral: i128, is_long: bool) -> PositionProps {
    PositionProps {
        account: addr(3),
        market: addr(10),
        collateral_token: addr(12),
        size_in_usd: size,
        size_in_tokens: tokens,
        collateral_amount: collateral,
        pending_impact_amount: 0,
        borrowing_factor: 0,
        funding_fee_amount_per_size: 0,
        long_claim_fnd_per_size: 0,
        short_claim_fnd_per_size: 0,
        increased_at_time: 0,
        decreased_at_time: 0,
        is_long,
    }
}

fn quote(price: i128, borrowing: i128) -> PositionQuote {
    PositionQuote {
        accrual: MarketAccrual {
            funding: FundingGrowth {
                factor_per_second: 0,
                long_token_longs: 0,
                long_token_shorts: 0,
                short_token_longs: 0,
                short_token_shorts: 0,
            },
            borrowing,
        },
        impact_usd: 0,
        execution_price: price,
    }
}

#[test]
fn products_are_wide_and_quotients_rounded() {
    assert_eq!(mul_div_wide(7, 3, 2), Ok(10));
    assert_eq!(mul_div_wide_up(7, 3, 2), Ok(11));
    assert_eq!(mul_div_wide(-7, 3, 2), Ok(-10));
    assert_eq!(mul_div_wide(i128::MAX, i128::MAX, i128::MAX), Ok(i128::MAX));
    assert_eq!(mul_div_wide_up(i128::MAX, 6, 6), Ok(i128::MAX));
    assert_eq!(mul_div_wide(i128::MAX, 2, 1), Err(Failure::Overflow));
    assert_eq!(mul_div_wide(1, 1, 0), Err(Failure::DivisionByZero));
    assert_eq!(mul_div_wide_up(1, 1, 0), Err(Failure::DivisionByZero));
    assert_eq!(mul_div_wide(i128::MIN, -1, 1), Err(Failure::Overflow));
    assert_eq!(plus(i128::MAX, 1), Err(Failure::Overflow));
    assert_eq!(minus(i128::MIN, 1), Err(Failure::Overflow));
    assert_eq!(plus_signed(5, -6), Err(Failure::Overflow));
    assert_eq!(plus_signed(5, -5), Ok(0));
    assert_eq!(saturating_mul(u128::MAX, 2), u128::MAX);
    assert_eq!(clamped_sum(i128::MAX, 1), i128::MAX);
    assert_eq!(clamped_sum(i128::MIN, -1), i128::MIN);
    assert_eq!(clamped_sum(3, -5), -2);
    assert_eq!(low_u32(0x1_0000_0007), 7);
}

#[test]
fn store_keeps_numbers_flags_and_addresses() {
    let mut ds = DataStore::new();
    let key = Key::MaxSwapPathLength;
    assert_eq!(ds.get_u128(&key), 0);
    set_u128(&mut ds, key, 4);
    assert_eq!(ds.get_u128(&key), 4);
    set_i128(&mut ds, key, -3);
    assert_eq!(ds.get_i128(&key), -3);
    assert!(!ds.get_bool(&key));
    set_bool(&mut ds, key, true);
    assert!(ds.get_bool(&key));
    assert_eq!(ds.get_address(&key), None);
    set_address(&mut ds, key, addr(1));
    assert_eq!(ds.get_address(&key), Some(addr(1)));
    assert_eq!(load_market(&ds, &addr(10)), None);
    assert_eq!(apply_delta_to_pool_amount(&mut ds, &market(), &addr(11), 4), Ok(4));
    assert_eq!(apply_delta_to_pool_amount(&mut ds, &market(), &addr(11), -3), Ok(1));
    assert_eq!(
        apply_delta_to_pool_amount(&mut ds, &market(), &addr(11), -3),
        Err(Failure::Overflow)
    );
}

/// Opens a position of an account with a size of a hundred dollars.
fn opened_by(
    ds: &mut DataStore,
    positions: &mut Table<PositionStorageKey, PositionProps>,
    account: Address,
) -> PositionKey {
    let m = market();
    increase_position(
        ds,
        positions,
        &mut Vec::new(),
        &IncreasePositionParams {
            account,
            receiver: account,
            market: m,
            collateral_token: m.short_token,
            size_delta_usd: 100 * FP,
            collateral_amount: 20 * TP,
            acceptable_price: 0,
            is_long: true,
            index_token_price: flat(2_000 * FP),
            collateral_price: FP,
            current_time: 5,
        },
        &quote(2_000 * FP, 0),
    )
    .unwrap();
    get_position_key(&account, &m.market_token, &m.short_token, true)
}

/// Opening and closing at one price gives the collateral back and leaves the
/// books as they were, also where the collateral has changed in price.
#[test]
fn closing_at_the_opening_price_undoes_it() {
    let m = market();
    let token = m.short_token;
    for is_long in [true, false] {
        let mut ds = DataStore::new();
        let mut positions: Table<PositionStorageKey, PositionProps> = Table::new();
        let books = [
            Key::OpenInterest { market: m.market_token, token, is_long },
            Key::OpenInterestInTokens { market: m.market_token, token, is_long },
            Key::CollateralSum { market: m.market_token, token, is_long },
            Key::PoolAmount { market: m.market_token, token },
        ];
        for (key, amount) in books.iter().zip([7, 8, 9, 10]) {
            set_u128(&mut ds, *key, amount);
        }
        let index_token_price = flat(2_000 * FP);
        increase_position(
            &mut ds,
            &mut positions,
            &mut Vec::new(),
            &IncreasePositionParams {
                account: addr(3),
                receiver: addr(3),
                market: m,
                collateral_token: token,
                size_delta_usd: 3_000 * FP,
                collateral_amount: 321,
                acceptable_price: 0,
                is_long,
                index_token_price,
                collateral_price: FP,
                current_time: 5,
            },
            &quote(2_000 * FP, 0),
        )
        .unwrap();
        assert_eq!(ds.get_u128(&books[1]), 8 + 15 * TP as u128 / 10);
        let closed = decrease_position(
            &mut ds,
            &mut positions,
            &mut Vec::new(),
            &DecreasePositionParams {
                account: addr(3),
                receiver: addr(4),
                market: m,
                collateral_token: token,
                size_delta_usd: 3_000 * FP,
                acceptable_price: 0,
                is_long,
                index_token_price,
                collateral_price: 3 * FP,
                current_time: 99,
            },
            &quote(2_000 * FP, 0),
        )
        .unwrap();
        assert_eq!((closed.output_amount, closed.pnl_usd), (321, 0));
        assert!(closed.is_fully_closed);
        for (key, amount) in books.iter().zip([7, 8, 9, 10]) {
            assert_eq!(ds.get_u128(key), amount);
        }
    }
}

#[test]
fn funding_growth_and_rate_are_saved() {
    let mut ds = DataStore::new();
    let mut positions: Table<PositionStorageKey, PositionProps> = Table::new();
    let m = market();
    let mut q = quote(2_000 * FP, 0);
    q.accrual.funding.factor_per_second = -5;
    q.accrual.funding.long_token_longs = 6;
    q.accrual.funding.short_token_shorts = 7;
    increase_position(
        &mut ds,
        &mut positions,
        &mut Vec::new(),
        &IncreasePositionParams {
            account: addr(3),
            receiver: addr(3),
            market: m,
            collateral_token: m.short_token,
            size_delta_usd: 100 * FP,
            collateral_amount: 20 * TP,
            acceptable_price: 0,
            is_long: true,
            index_token_price: flat(2_000 * FP),
            collateral_price: FP,
            current_time: 5,
        },
        &q,
    )
    .unwrap();
    let market = m.market_token;
    let per_size = |token, is_long| Key::FundingAmountPerSize { market, token, is_long };
    assert_eq!(ds.get_i128(&Key::SavedFundingFactorPerSecond { market }), -5);
    assert_eq!(ds.get_i128(&per_size(m.long_token, true)), 6);
    assert_eq!(ds.get_i128(&per_size(m.short_token, false)), 7);
}

#[test]
fn positions_are_listed_in_the_order_of_opening() {
    let mut ds = DataStore::new();
    let mut positions: Table<PositionStorageKey, PositionProps> = Table::new();
    let a = opened_by(&mut ds, &mut positions, addr(3));
    let b = opened_by(&mut ds, &mut positions, addr(4));
    let c = opened_by(&mut ds, &mut positions, addr(5));
    opened_by(&mut ds, &mut positions, addr(4));
    let listed = |ds: &DataStore| -> Vec<PositionKey> {
        (0..ds.position_count()).map(|i| ds.position_at(i)).collect()
    };
    assert_eq!(listed(&ds), vec![a, b, c]);
    assert!(ds.contains(&Member::PositionList(a)));
    let m = market();
    decrease_position(
        &mut ds,
        &mut positions,
        &mut Vec::new(),
        &DecreasePositionParams {
            account: addr(3),
            receiver: addr(3),
            market: m,
            collateral_token: m.short_token,
            size_delta_usd: 100 * FP,
            acceptable_price: 0,
            is_long: true,
            index_token_price: flat(2_000 * FP),
            collateral_price: FP,
            current_time: 6,
        },
        &quote(2_000 * FP, 0),
    )
    .unwrap();
    assert_eq!(listed(&ds), vec![b, c]);
    assert!(!ds.contains(&Member::PositionList(a)));
}

#[test]
fn table_replaces_and_removes() {
    let mut t: Table<Address, u32> = Table::new();
    t.set(addr(1), 5);
    t.set(addr(2), 6);
    t.set(addr(1), 7);
    assert_eq!(t.len(), 2);
    assert_eq!(t.get(&addr(1)), Some(&7));
    assert_eq!(t.remove(&addr(1)), Some(7));
    assert_eq!(t.remove(&addr(1)), None);
    assert!(!t.has(&addr(1)));
    assert!(t.duplicate().has(&addr(2)));
}

#[test]
fn prices_have_a_middle_and_two_sides() {
    let p = PriceProps { min: 3, max: 8 };
    assert_eq!(p.mid_price(), Ok(5));
    assert_eq!(p.pick_price_for_pnl(true, true), 8);
    assert_eq!(p.pick_price_for_pnl(true, false), 3);
    assert_eq!(p.pick_price_for_pnl(false, true), 3);
    assert_eq!(p.pick_price_for_pnl(false, false), 8);
    assert_eq!(flat(i128::MAX).mid_price(), Err(Failure::Overflow));
}

#[test]
fn profit_of_longs_and_shorts_mirrors() {
    let long = position(2_000 * FP, TP, 0, true);
    let short = position(2_000 * FP, TP, 0, false);
    let p = flat(2_300 * FP);
    assert_eq!(get_position_pnl_usd(&long, &p, 2_000 * FP), Ok((300 * FP, 300 * FP)));
    assert_eq!(get_position_pnl_usd(&short, &p, 2_000 * FP), Ok((-300 * FP, -300 * FP)));
    let half = get_position_pnl_usd(&long, &p, 1_000 * FP).unwrap();
    assert_eq!(half.0, 150 * FP);
}

#[test]
fn fees_are_rounded_up() {
    let mut ds = DataStore::new();
    let m = market().market_token;
    set_u128(&mut ds, Key::PositionFeeFactor { market: m, for_positive_impact: false }, 1);
    let p = position(2_000 * FP, TP, 100 * TP, true);
    let fees = get_position_fees(&ds, &market(), &p, 3 * FP, 10, false, true).unwrap();
    assert_eq!(fees.position_fee_amount, 1);
    set_u128(&mut ds, Key::PositionFeeFactor { market: m, for_positive_impact: false }, FP as u128 / 1_000);
    let fees = get_position_fees(&ds, &market(), &p, FP, 2_000 * FP, false, true).unwrap();
    assert_eq!(fees.position_fee_amount, 2 * TP);
    assert_eq!(fees.total_cost_amount, 2 * TP);
    set_u128(&mut ds, Key::CumulativeBorrowingFactor { market: m, is_long: true }, 1);
    let fees = get_position_fees(&ds, &market(), &p, FP, 0, false, true).unwrap();
    assert_eq!(fees.borrowing_fee_amount, 1);
    let fees = get_position_fees(&ds, &market(), &p, FP, 1_000 * FP, false, false).unwrap();
    assert_eq!(fees.borrowing_fee_amount, 1);
}

#[test]
fn settling_funding_twice_credits_once() {
    let mut ds = DataStore::new();
    let m = market().market_token;
    let funding = Key::FundingAmountPerSize { market: m, token: addr(11), is_long: true };
    set_i128(&mut ds, funding, -5 * TP / 1_000);
    let mut p = position(2_000 * FP, TP, 100 * TP, true);
    settle_funding_fees(&mut ds, &market(), &mut p).unwrap();
    let claim = Key::ClaimableFundingAmount { market: m, token: addr(11), account: addr(3) };
    assert_eq!(ds.get_u128(&claim), 10 * TP as u128);
    assert_eq!(p.long_claim_fnd_per_size, -5 * TP / 1_000);
    settle_funding_fees(&mut ds, &market(), &mut p).unwrap();
    assert_eq!(ds.get_u128(&claim), 10 * TP as u128);
}

#[test]
fn limits_are_checked_in_turn() {
    let mut ds = DataStore::new();
    let m = market().market_token;
    let p = position(1_000 * FP, TP, 100 * TP, true);
    assert_eq!(validate_position(&ds, &p, &market(), FP), Ok(()));
    set_u128(&mut ds, Key::MaxOpenInterest { market: m, is_long: true }, 10);
    set_u128(&mut ds, Key::OpenInterest { market: m, token: addr(12), is_long: true }, 11);
    assert_eq!(
        validate_position(&ds, &p, &market(), FP),
        Err(Failure::Position(PositionError::ExceedsMaxOI))
    );
    assert_eq!(validate_open_interest(&ds, &market(), true), Ok(false));
    assert_eq!(validate_open_interest(&ds, &market(), false), Ok(true));
    set_u128(&mut ds, Key::MaxLeverage { market: m }, 900);
    assert_eq!(
        validate_position(&ds, &p, &market(), FP),
        Err(Failure::Position(PositionError::ExceedsMaxLeverage))
    );
    set_u128(&mut ds, Key::MinCollateralFactor { market: m }, FP as u128 / 5);
    assert_eq!(
        validate_position(&ds, &p, &market(), FP),
        Err(Failure::Position(PositionError::BelowMinCollateral))
    );
}

#[test]
fn healthy_positions_are_not_liquidatable() {
    let mut ds = DataStore::new();
    let m = market().market_token;
    set_u128(&mut ds, Key::MinCollateralFactor { market: m }, FP as u128 / 10);
    let p = position(1_000 * FP, TP, 100 * TP, true);
    assert_eq!(is_liquidatable(&ds, &p, &market(), FP, &flat(1_000 * FP)), Ok(false));
    assert_eq!(is_liquidatable(&ds, &p, &market(), FP, &flat(999 * FP)), Ok(true));
}

#[test]
fn opening_and_closing_returns_collateral_and_profit() {
    let mut ds = DataStore::new();
    let m = market();
    set_u128(&mut ds, 
        Key::PoolAmount { market: m.market_token, token: m.short_token },
        1_000 * TP as u128,
    );
    let mut positions: Table<PositionStorageKey, PositionProps> = Table::new();
    let mut out: Vec<Action> = Vec::new();
    let opened = increase_position(
        &mut ds,
        &mut positions,
        &mut out,
        &IncreasePositionParams {
            account: addr(3),
            receiver: addr(3),
            market: m,
            collateral_token: m.short_token,
            size_delta_usd: 2_000 * FP,
            collateral_amount: 200 * TP,
            acceptable_price: 0,
            is_long: true,
            index_token_price: flat(2_000 * FP),
            collateral_price: FP,
            current_time: 5,
        },
        &quote(2_000 * FP, 0),
    )
    .unwrap();
    assert_eq!(opened.collateral_amount, 200 * TP);
    assert_eq!(opened.increased_at_time, 5);
    let key = get_position_key(&addr(3), &m.market_token, &m.short_token, true);
    assert!(ds.contains(&Member::PositionList(key)));
    let oi = Key::OpenInterest { market: m.market_token, token: m.short_token, is_long: true };
    assert_eq!(ds.get_u128(&oi), 2_000 * FP as u128);

    let params = DecreasePositionParams {
        account: addr(3),
        receiver: addr(4),
        market: m,
        collateral_token: m.short_token,
        size_delta_usd: 500 * FP,
        acceptable_price: 0,
        is_long: true,
        index_token_price: flat(2_200 * FP),
        collateral_price: FP,
        current_time: 6,
    };
    let part =
        decrease_position(&mut ds, &mut positions, &mut out, &params, &quote(2_200 * FP, 0))
            .unwrap();
    assert!(!part.is_fully_closed);
    // A quarter of the collateral and of the profit.
    assert_eq!((part.pnl_usd, part.output_amount), (50 * FP, 100 * TP));
    assert_eq!(part.remaining_collateral, 150 * TP);
    assert_eq!(ds.get_u128(&oi), 1_500 * FP as u128);

    let rest = DecreasePositionParams { size_delta_usd: 9_000 * FP, ..params };
    let all = decrease_position(&mut ds, &mut positions, &mut out, &rest, &quote(2_200 * FP, 0))
        .unwrap();
    assert!(all.is_fully_closed);
    assert_eq!((all.pnl_usd, all.output_amount), (150 * FP, 300 * TP));
    assert_eq!(ds.get_u128(&oi), 0);
    assert!(!ds.contains(&Member::PositionList(key)));
    assert_eq!(
        ds.get_u128(&Key::PoolAmount { market: m.market_token, token: m.short_token }),
        800 * TP as u128
    );
    assert_eq!(
        decrease_position(&mut ds, &mut positions, &mut out, &rest, &quote(2_200 * FP, 0)),
        Err(Failure::PositionNotFound)
    );
}

#[test]
fn rejected_decreases_leave_no_trace() {
    let mut ds = DataStore::new();
    let m = market();
    let mut positions: Table<PositionStorageKey, PositionProps> = Table::new();
    let key = get_position_key(&addr(3), &m.market_token, &m.short_token, true);
    let held = position(2_000 * FP, TP, 200 * TP, true);
    positions.set(PositionStorageKey::Position(key), held);
    let mut out: Vec<Action> = Vec::new();
    // The pool cannot pay the profit.
    let r = decrease_position(
        &mut ds,
        &mut positions,
        &mut out,
        &DecreasePositionParams {
            account: addr(3),
            receiver: addr(4),
            market: m,
            collateral_token: m.short_token,
            size_delta_usd: 500 * FP,
            acceptable_price: 0,
            is_long: true,
            index_token_price: flat(2_200 * FP),
            collateral_price: FP,
            current_time: 6,
        },
        &quote(2_200 * FP, 7),
    );
    assert_eq!(r, Err(Failure::Overflow));
    assert_eq!(positions.get(&PositionStorageKey::Position(key)), Some(&held));
    assert!(out.is_empty());
    assert_eq!(
        ds.get_u128(&Key::CumulativeBorrowingFactor { market: m.market_token, is_long: true }),
        0
    );
}

#[test]
fn hops_move_tokens_between_the_pools() {
    let mut ds = DataStore::new();
    let m = market();
    set_address(&mut ds, Key::MarketIndexToken { market: m.market_token }, m.index_token);
    set_address(&mut ds, Key::MarketLongToken { market: m.market_token }, m.long_token);
    set_address(&mut ds, Key::MarketShortToken { market: m.market_token }, m.short_token);
    apply_delta_to_pool_amount(&mut ds, &m, &m.short_token, 100).unwrap();
    let mut prices = PriceBoard::new();
    prices.post(m.long_token, flat(2 * FP));
    prices.post(m.short_token, flat(FP));
    let mut out: Vec<Action> = Vec::new();
    let q = SwapQuote { impact_usd: 0, amount_out: 20 };
    assert_eq!(
        swap(&mut ds, &mut out, &prices, &m, &m.long_token, 10, &addr(5), &q),
        Ok((m.short_token, 20))
    );
    assert_eq!(ds.get_u128(&Key::PoolAmount { market: m.market_token, token: m.long_token }), 10);
    assert_eq!(ds.get_u128(&Key::PoolAmount { market: m.market_token, token: m.short_token }), 80);
    assert_eq!(
        swap(&mut ds, &mut out, &prices, &m, &addr(77), 10, &addr(5), &q),
        Err(Failure::Swap(SwapError::InvalidTokenIn))
    );
    let below = SwapQuote { impact_usd: 0, amount_out: -1 };
    assert_eq!(
        swap(&mut ds, &mut out, &prices, &m, &m.long_token, 10, &addr(5), &below),
        Err(Failure::Swap(SwapError::NegativeOutput))
    );
    let path = vec![m.market_token];
    assert_eq!(
        swap_with_path(
            &mut ds, &mut out, &prices, &m.long_token, 10, &path, &addr(5), &vec![],
        ),
        Err(Failure::Swap(SwapError::MissingQuote))
    );
    assert_eq!(
        swap_with_path(
            &mut ds, &mut out, &prices, &m.long_token, 10, &vec![], &addr(5), &vec![],
        ),
        Ok((m.long_token, 10))
    );
}

#[test]
fn paths_are_short_and_simple() {
    let mut ds = DataStore::new();
    let path: Vec<Address> = (1..7).map(addr).collect();
    assert_eq!(validate_swap_path(&ds, &path), Err(Failure::Swap(SwapError::PathTooLong)));
    assert_eq!(validate_swap_path(&ds, &path[..5].to_vec()), Ok(()));
    set_u128(&mut ds, Key::MaxSwapPathLength, 6);
    assert_eq!(validate_swap_path(&ds, &path), Ok(()));
    assert_eq!(
        validate_swap_path(&ds, &vec![addr(1), addr(2), addr(1)]),
        Err(Failure::Swap(SwapError::DuplicateMarket))
    );
}
