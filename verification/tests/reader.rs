//! What the reader shows of markets, positions and swaps.

use perps::data_store::{DataStore, Key};
use perps::failure::Failure;
use perps::increase_position_utils::PositionQuote;
use perps::ledger::Ledger;
use perps::market_utils::{get_market_token_price, get_pnl, FundingGrowth, MarketAccrual};
use perps::math::{FLOAT_PRECISION, TOKEN_PRECISION};
use perps::order_handler::{ExecutionQuote, OrderHandler};
use perps::position_utils::get_position_key;
use perps::reader::Reader;
use perps::role_store::{Role, RoleStore};
use perps::swap_utils::{swap_with_path, SwapQuote};
use perps::types::{
    Address, CreateOrderParams, FundingInfo, MarketProps, OrderType, PositionKey, PriceBoard,
    PriceProps, SwapEstimate,
};

const FP: i128 = FLOAT_PRECISION;
const TP: i128 = TOKEN_PRECISION;

fn addr(n: u64) -> Address {
    Address { head: 0, body: 0, tail: 0, last: n }
}

/// A ledger on which the administrator signed.
fn admin_ledger() -> Ledger {
    Ledger { timestamp: 0, sequence: 1, current_contract: addr(9), signers: vec![addr(1)] }
}

/// A store of roles that the administrator looks after.
fn role_book() -> RoleStore {
    let mut roles = RoleStore::new();
    roles.initialize(&admin_ledger(), addr(1)).unwrap();
    roles
}

fn grant(roles: &mut RoleStore, account: Address, role: Role) {
    roles.grant_role(&admin_ledger(), addr(1), account, role).unwrap();
}

fn set_address(ds: &mut DataStore, key: Key, value: Address) {
    let mut roles = role_book();
    grant(&mut roles, addr(1), Role::Controller);
    ds.set_address(&admin_ledger(), &roles, addr(1), key, value).unwrap();
}

fn set_i128(ds: &mut DataStore, key: Key, value: i128) {
    let mut roles = role_book();
    grant(&mut roles, addr(1), Role::Controller);
    ds.set_i128(&admin_ledger(), &roles, addr(1), key, value).unwrap();
}

fn set_u128(ds: &mut DataStore, key: Key, value: u128) {
    let mut roles = role_book();
    grant(&mut roles, addr(1), Role::Controller);
    ds.set_u128(&admin_ledger(), &roles, addr(1), key, value).unwrap();
}

fn flat(p: i128) -> PriceProps {
    PriceProps { min: p, max: p }
}

struct World {
    market: MarketProps,
    ds: DataStore,
    prices: PriceBoard,
    roles: RoleStore,
    oh: OrderHandler,
}

fn setup() -> World {
    let market = MarketProps {
        market_token: addr(10),
        index_token: addr(13),
        long_token: addr(11),
        short_token: addr(12),
    };
    let mut ds = DataStore::new();
    let m = market.market_token;
    set_address(&mut ds, Key::MarketIndexToken { market: m }, market.index_token);
    set_address(&mut ds, Key::MarketLongToken { market: m }, market.long_token);
    set_address(&mut ds, Key::MarketShortToken { market: m }, market.short_token);
    let mut roles = role_book();
    grant(&mut roles, addr(2), Role::OrderKeeper);
    let mut oh = OrderHandler::new();
    let boot =
        Ledger { timestamp: 0, sequence: 1, current_contract: addr(8), signers: vec![addr(1)] };
    oh.initialize(&boot, addr(1), addr(4), addr(5), addr(6), addr(7)).unwrap();
    let mut w = World { market, ds, prices: PriceBoard::new(), roles, oh };
    set_price(&mut w, 2_000 * FP);
    w
}

fn set_price(w: &mut World, price: i128) {
    w.prices.post(w.market.index_token, flat(price));
    w.prices.post(w.market.long_token, flat(price));
    w.prices.post(w.market.short_token, flat(FP));
}

/// Opens a position for a trader with short tokens behind it.
fn open(w: &mut World, trader: Address, size: i128, collateral: i128, is_long: bool) -> PositionKey {
    let mut out = Vec::new();
    let by = |signer| Ledger {
        timestamp: 100,
        sequence: 10,
        current_contract: addr(8),
        signers: vec![signer],
    };
    let key = w
        .oh
        .create_order(
            &by(trader),
            &mut w.ds,
            &mut out,
            trader,
            CreateOrderParams {
                receiver: trader,
                market: w.market.market_token,
                initial_collateral_token: w.market.short_token,
                swap_path: vec![],
                size_delta_usd: size,
                collateral_delta_amount: collateral,
                trigger_price: 0,
                acceptable_price: 0,
                execution_fee: 0,
                min_output_amount: 0,
                order_type: OrderType::MarketIncrease,
                is_long,
            },
            collateral,
        )
        .unwrap();
    let q = ExecutionQuote {
        position: PositionQuote {
            accrual: MarketAccrual {
                funding: FundingGrowth {
                    factor_per_second: 0,
                    long_token_longs: 0,
                    long_token_shorts: 0,
                    short_token_longs: 0,
                    short_token_shorts: 0,
                },
                borrowing: 0,
            },
            impact_usd: 0,
            execution_price: w.prices.get_mid_price(&w.market.index_token).unwrap(),
        },
        swaps: vec![],
    };
    w.oh
        .execute_order(&by(addr(2)), &w.roles, &mut w.ds, &w.prices, &mut out, addr(2), key, &q)
        .unwrap();
    get_position_key(&trader, &w.market.market_token, &w.market.short_token, is_long)
}

/// Five tokens at 2,000 dollars and 10,000 dollars in the pool; one token long
/// since 1,500 dollars.
fn valuation() -> World {
    let mut w = setup();
    let (market, long, short) =
        (w.market.market_token, w.market.long_token, w.market.short_token);
    set_u128(&mut w.ds, Key::PoolAmount { market, token: long }, 5 * TP as u128);
    set_u128(&mut w.ds, Key::PoolAmount { market, token: short }, 10_000 * TP as u128);
    set_u128(&mut w.ds, Key::OpenInterest { market, token: long, is_long: true }, 1_500 * FP as u128);
    set_u128(&mut w.ds, 
        Key::OpenInterestInTokens { market, token: long, is_long: true },
        TP as u128,
    );
    w
}

#[test]
fn pool_value_counts_tokens_less_profit() {
    let w = valuation();
    let info =
        Reader::get_market_pool_value_info(&w.ds, &w.prices, w.market.market_token, true).unwrap();
    assert_eq!(info.long_token_usd, 10_000 * FP);
    assert_eq!(info.short_token_usd, 10_000 * FP);
    assert_eq!(info.impact_pool_usd, 0);
    assert_eq!((info.long_pnl, info.short_pnl, info.net_pnl), (500 * FP, 0, 500 * FP));
    assert_eq!(info.pool_value, 19_500 * FP);
}

#[test]
fn market_token_price_is_value_over_supply() {
    let w = valuation();
    let price = |supply: i128| {
        get_market_token_price(&w.ds, &w.market, 2_000 * FP, FP, 2_000 * FP, supply, true)
    };
    assert_eq!(price(10_000 * TP), Ok(195 * FP / 100));
    assert_eq!(price(0), Ok(FP));
}

#[test]
fn market_token_price_falls_as_traders_gain() {
    let w = valuation();
    let at = |index: i128| {
        get_market_token_price(&w.ds, &w.market, 2_000 * FP, FP, index, 10_000 * TP, true).unwrap()
    };
    assert!(at(2_100 * FP) < at(2_000 * FP));
    assert!(at(1_400 * FP) > at(1_500 * FP));
    assert_eq!(get_pnl(&w.ds, &w.market, 1_400 * FP, true, false), Ok(-100 * FP));
}

#[test]
fn open_interest_and_funding_are_read() {
    let mut w = valuation();
    let (market, long, short) =
        (w.market.market_token, w.market.long_token, w.market.short_token);
    assert_eq!(Reader::get_open_interest(&w.ds, market), Ok((1_500 * FP, 0)));
    assert_eq!(Reader::get_open_interest(&w.ds, addr(99)), Err(Failure::MarketNotFound));
    set_i128(&mut w.ds, Key::SavedFundingFactorPerSecond { market }, -5);
    set_i128(&mut w.ds, Key::FundingAmountPerSize { market, token: long, is_long: true }, 6);
    set_i128(&mut w.ds, Key::FundingAmountPerSize { market, token: short, is_long: false }, 7);
    assert_eq!(
        Reader::get_funding_info(&w.ds, market),
        Ok(FundingInfo {
            funding_factor_per_second: -5,
            long_funding_amount_per_size: 6,
            short_funding_amount_per_size: 7,
        })
    );
}

#[test]
fn position_info_shows_worth_and_liquidation_price() {
    let mut w = setup();
    let key = open(&mut w, addr(3), 2_000 * FP, 200 * TP, true);
    set_price(&mut w, 2_100 * FP);
    let info = Reader::get_position_info(&w.ds, &w.prices, &w.oh, key).unwrap().unwrap();
    assert_eq!(info.position.size_in_tokens, TP);
    assert_eq!(info.pnl_usd, 100 * FP);
    assert_eq!(info.position_fee_usd, 0);
    assert_eq!(info.liquidation_price, 1_800 * FP);
    let short = open(&mut w, addr(4), 2_100 * FP, 210 * TP, false);
    let info = Reader::get_position_info(&w.ds, &w.prices, &w.oh, short).unwrap().unwrap();
    assert_eq!(info.liquidation_price, 2_310 * FP);
    let none = get_position_key(&addr(5), &addr(10), &addr(12), true);
    assert_eq!(Reader::get_position_info(&w.ds, &w.prices, &w.oh, none), Ok(None));
}

#[test]
fn reader_tells_failing_positions() {
    let mut w = setup();
    let market = w.market.market_token;
    let key = open(&mut w, addr(3), 2_000 * FP, 300 * TP, true);
    set_u128(&mut w.ds, Key::MinCollateralFactor { market }, FP as u128 / 10);
    assert_eq!(Reader::is_position_liquidatable(&w.ds, &w.prices, &w.oh, key), Ok(false));
    set_price(&mut w, 1_890 * FP);
    assert_eq!(Reader::is_position_liquidatable(&w.ds, &w.prices, &w.oh, key), Ok(true));
    let none = get_position_key(&addr(5), &market, &addr(12), true);
    assert_eq!(Reader::is_position_liquidatable(&w.ds, &w.prices, &w.oh, none), Ok(false));
}

#[test]
fn candidates_come_in_order_of_profit() {
    let mut w = setup();
    let market = w.market.market_token;
    let late = open(&mut w, addr(3), 2_000 * FP, 500 * TP, true);
    set_price(&mut w, 1_000 * FP);
    let early = open(&mut w, addr(4), 1_000 * FP, 500 * TP, true);
    let bear = open(&mut w, addr(5), 1_000 * FP, 500 * TP, false);
    set_price(&mut w, 2_200 * FP);
    assert_eq!(w.ds.position_at(2), bear);
    let found = Reader::get_adl_eligible_positions(
        &w.ds, &w.prices, &w.oh, market, true, 10,
    )
    .unwrap();
    assert_eq!(found.len(), 2);
    assert_eq!((found[0].key, found[0].pnl_to_size_ratio_bps), (early, 12_000));
    assert_eq!((found[1].key, found[1].pnl_to_size_ratio_bps), (late, 1_000));
    assert_eq!(found[1].unrealised_pnl_usd, 200 * FP as u128);
    let first = Reader::get_adl_eligible_positions(
        &w.ds, &w.prices, &w.oh, market, true, 1,
    )
    .unwrap();
    assert_eq!(first.len(), 1);
    assert_eq!(first[0].key, early);
    let none = Reader::get_adl_eligible_positions(
        &w.ds, &w.prices, &w.oh, market, true, 0,
    );
    assert_eq!(none, Ok(vec![]));
    let shorts = Reader::get_adl_eligible_positions(
        &w.ds, &w.prices, &w.oh, market, false, 10,
    );
    assert_eq!(shorts, Ok(vec![]));
}

/// A ratio past 32 bits still ranks first.
#[test]
fn huge_profits_rank_first() {
    let mut w = setup();
    let market = w.market.market_token;
    let modest = open(&mut w, addr(3), 2_000 * FP, 500 * TP, true);
    set_price(&mut w, FP / 10_000);
    let huge = open(&mut w, addr(4), FP, 500 * TP, true);
    set_price(&mut w, 4_000 * FP);
    let found =
        Reader::get_adl_eligible_positions(&w.ds, &w.prices, &w.oh, market, true, 10).unwrap();
    assert_eq!(found.len(), 2);
    assert_eq!((found[0].key, found[0].pnl_to_size_ratio_bps), (huge, u32::MAX));
    assert_eq!((found[1].key, found[1].pnl_to_size_ratio_bps), (modest, 10_000));
}

/// The market of `setup` with liquidity, and a second one from the short token
/// to another.
fn swap_world() -> (World, Address, Address) {
    let mut w = setup();
    let (market2, wbtc) = (addr(20), addr(21));
    set_address(&mut w.ds, Key::MarketIndexToken { market: market2 }, wbtc);
    set_address(&mut w.ds, Key::MarketLongToken { market: market2 }, wbtc);
    set_address(&mut w.ds, Key::MarketShortToken { market: market2 }, w.market.short_token);
    w.prices.post(wbtc, flat(30_000 * FP));
    let market = w.market.market_token;
    set_u128(&mut w.ds, Key::PoolAmount { market, token: w.market.short_token }, 9_000 * TP as u128);
    set_u128(&mut w.ds, Key::PoolAmount { market: market2, token: wbtc }, TP as u128);
    (w, market2, wbtc)
}

#[test]
fn swaps_are_estimated_hop_by_hop() {
    let (w, market2, wbtc) = swap_world();
    let (market, long, short) =
        (w.market.market_token, w.market.long_token, w.market.short_token);
    let hop = |impact_usd, amount_out| SwapQuote { impact_usd, amount_out };
    let estimate = |path: Vec<Address>, quotes: Vec<SwapQuote>| {
        Reader::estimate_swap_output(&w.ds, &w.prices, long, 3 * TP as u128, &path, &quotes)
    };
    let first = hop(-6 * FP, 5_934 * TP);
    assert_eq!(
        estimate(vec![market], vec![first]),
        Ok(SwapEstimate {
            token_out: short,
            amount_out: 5_934 * TP as u128,
            price_impact_usd: -6 * FP,
            execution_price: (3 * TP * TP / (5_934 * TP)) as u128,
            reverts_if_executed: false,
        })
    );
    let reverts = |path: Vec<Address>, quotes: Vec<SwapQuote>| {
        estimate(path, quotes).unwrap().reverts_if_executed
    };
    let both = estimate(vec![market, market2], vec![first, hop(FP, 1_900_000)]).unwrap();
    assert_eq!((both.token_out, both.amount_out), (wbtc, 1_900_000));
    assert_eq!(both.price_impact_usd, -5 * FP);
    assert!(!both.reverts_if_executed);
    // Neither path, quote, token nor liquidity may be missing.
    assert!(reverts(vec![], vec![]));
    assert!(reverts(vec![market], vec![]));
    assert!(reverts(vec![market2], vec![first]));
    let dry = estimate(vec![market, market2], vec![first, hop(FP, 2 * TP)]).unwrap();
    assert_eq!((dry.token_out, dry.amount_out), (short, 5_934 * TP as u128));
    assert_eq!(dry.price_impact_usd, -5 * FP);
    assert!(dry.reverts_if_executed);
    // No market twice, and no path too long.
    let back = estimate(vec![market, market], vec![first, hop(0, 3 * TP)]).unwrap();
    assert_eq!((back.token_out, back.amount_out), (long, 3 * TP as u128));
    assert!(back.reverts_if_executed);
    assert!(reverts(vec![market; 6], vec![first]));
    let vast = |path: Vec<Address>| {
        Reader::estimate_swap_output(&w.ds, &w.prices, long, u128::MAX, &path, &vec![first])
    };
    assert!(vast(vec![market]).unwrap().reverts_if_executed);
    assert_eq!(vast(vec![addr(99)]), Err(Failure::MarketNotFound));
}

/// A market that is unknown or not priced has no estimate.
#[test]
fn estimates_need_markets_and_prices() {
    let (w, market2, _) = swap_world();
    let (market, long) = (w.market.market_token, w.market.long_token);
    let hop = |amount_out| SwapQuote { impact_usd: 0, amount_out };
    let estimate = |prices: &PriceBoard, path: Vec<Address>, quotes: Vec<SwapQuote>| {
        Reader::estimate_swap_output(&w.ds, prices, long, 3 * TP as u128, &path, &quotes)
    };
    let unknown = Err(Failure::MarketNotFound);
    assert_eq!(estimate(&w.prices, vec![addr(99)], vec![hop(1)]), unknown);
    assert_eq!(estimate(&w.prices, vec![market, addr(99)], vec![hop(1), hop(1)]), unknown);
    let mut bare = PriceBoard::new();
    let unpriced = Err(Failure::PriceUnavailable);
    assert_eq!(estimate(&bare, vec![market], vec![hop(1)]), unpriced);
    assert_eq!(estimate(&bare, vec![market2], vec![hop(1)]), unpriced);
    bare.post(long, flat(2_000 * FP));
    bare.post(w.market.short_token, flat(FP));
    assert_eq!(estimate(&bare, vec![market, market2], vec![hop(1), hop(1)]), unpriced);
    // A swap needs no index price, and where it goes through nor does its estimate.
    let seen = estimate(&bare, vec![market], vec![hop(5)]).unwrap();
    assert_eq!((seen.amount_out, seen.reverts_if_executed), (5, false));
    // Where the walk ends before the unknown market, nobody asks for it.
    let ended = estimate(&w.prices, vec![market2, addr(99)], vec![hop(1), hop(1)]).unwrap();
    assert!(ended.reverts_if_executed);
}

#[test]
fn estimates_agree_with_swaps() {
    let hop = |impact_usd, amount_out| SwapQuote { impact_usd, amount_out };
    for second in [1_000_000, TP, TP + 1, 0, -1] {
        let (mut w, market2, _) = swap_world();
        let (market, long) = (w.market.market_token, w.market.long_token);
        let path = vec![market, market2];
        let quotes = vec![hop(-FP, 5_990 * TP), hop(2 * FP, second)];
        let seen =
            Reader::estimate_swap_output(&w.ds, &w.prices, long, 3 * TP as u128, &path, &quotes)
                .unwrap();
        let done = swap_with_path(
            &mut w.ds, &mut Vec::new(), &w.prices, &long, 3 * TP, &path, &addr(5), &quotes,
        );
        match done {
            Ok((token, amount)) => {
                assert!(!seen.reverts_if_executed);
                assert_eq!((seen.token_out, seen.amount_out), (token, amount as u128));
            }
            Err(_) => assert!(seen.reverts_if_executed),
        }
        assert_eq!(done.is_ok(), (0..=TP).contains(&second));
    }
}
