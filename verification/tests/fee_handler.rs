//! Claiming of protocol, interface and funding fees.

use perps::actions::{Action, Event};
use perps::data_store::{DataStore, Key};
use perps::failure::Failure;
use perps::fee_handler::{safe_transfer_amount, Error, FeeClaimed, FeeHandler};
use perps::ledger::Ledger;
use perps::math::{mul_div_wide, mul_div_wide_up, FLOAT_PRECISION, TOKEN_PRECISION};
use perps::role_store::{Role, RoleStore};
use perps::types::{Address, Bytes32};

const ONE_TOKEN: i128 = 10_000_000;

fn addr(n: u64) -> Address {
    Address { head: 0, body: 0, tail: 0, last: n }
}

/// A ledger on which the administrator signed.
fn admin_ledger() -> Ledger {
    Ledger { timestamp: 0, sequence: 1, current_contract: addr(9), signers: vec![addr(1)] }
}

/// A store of roles that the administrator looks after.
fn role_book() -> RoleStore {
    let mut roles = RoleStore::new();
    roles.initialize(&admin_ledger(), addr(1)).unwrap();
    roles
}

fn grant(roles: &mut RoleStore, account: Address, role: Role) {
    roles.grant_role(&admin_ledger(), addr(1), account, role).unwrap();
}

fn set_u128(ds: &mut DataStore, key: Key, value: u128) {
    let mut roles = role_book();
    grant(&mut roles, addr(1), Role::Controller);
    ds.set_u128(&admin_ledger(), &roles, addr(1), key, value).unwrap();
}

fn ledger(signers: Vec<Address>) -> Ledger {
    Ledger { timestamp: 1_000, sequence: 1, current_contract: addr(7), signers }
}

/// What pools paid out to a receiver.
fn paid_to(out: &Vec<Action>, who: Address) -> i128 {
    let mut total = 0;
    for a in out {
        if let Action::WithdrawFromPool { receiver, amount, .. } = a {
            if *receiver == who {
                total += *amount;
            }
        }
    }
    total
}

struct World {
    admin: Address,
    keeper: Address,
    market_tk: Address,
    long_tk: Address,
    roles: RoleStore,
    ds: DataStore,
    handler: FeeHandler,
    out: Vec<Action>,
}

fn setup() -> World {
    let (admin, keeper, rs, ds, market_tk, long_tk, handler) =
        (addr(1), addr(2), addr(3), addr(4), addr(5), addr(6), addr(7));
    let mut roles = role_book();
    grant(&mut roles, admin, Role::Controller);
    grant(&mut roles, keeper, Role::FeeKeeper);
    grant(&mut roles, market_tk, Role::Controller);
    grant(&mut roles, handler, Role::Controller);
    let mut fh = FeeHandler::new();
    fh.initialize(&ledger(vec![admin]), admin, rs, ds).unwrap();
    World {
        admin,
        keeper,
        market_tk,
        long_tk,
        roles,
        ds: DataStore::new(),
        handler: fh,
        out: Vec::new(),
    }
}

#[test]
fn claimable_fees_zero_initially() {
    let w = setup();
    assert_eq!(w.handler.claimable_fees(&w.ds, w.market_tk, w.long_tk), Ok(0));
}

#[test]
fn claim_fees_transfers_and_zeroes_balance() {
    let mut w = setup();
    let fee_amount: u128 = ONE_TOKEN as u128 * 3;
    let fee_key = Key::ClaimableFeeAmount { market: w.market_tk, token: w.long_tk };
    set_u128(&mut w.ds, fee_key, fee_amount);
    let receiver = addr(20);
    w.handler
        .claim_fees(
            &ledger(vec![w.keeper]),
            &w.roles,
            &mut w.ds,
            &mut w.out,
            w.keeper,
            w.market_tk,
            w.long_tk,
            receiver,
            fee_amount as i128,
        )
        .unwrap();
    assert_eq!(paid_to(&w.out, receiver) as u128, fee_amount);
    assert_eq!(w.ds.get_u128(&fee_key), 0);
    assert_eq!(
        w.out[1],
        Action::Publish(Event::FeeClaimed(FeeClaimed {
            market: w.market_tk,
            token: w.long_tk,
            amount: fee_amount,
            receiver,
        }))
    );
}

#[test]
fn claim_fees_returns_zero_when_nothing_to_claim() {
    let mut w = setup();
    let claimed = w.handler.claim_fees(
        &ledger(vec![w.keeper]),
        &w.roles,
        &mut w.ds,
        &mut w.out,
        w.keeper,
        w.market_tk,
        w.long_tk,
        addr(20),
        0,
    );
    assert_eq!(claimed, Ok(0));
    assert!(w.out.is_empty());
}

#[test]
fn claim_fees_by_non_keeper_reverts() {
    let mut w = setup();
    let fee_key = Key::ClaimableFeeAmount { market: w.market_tk, token: w.long_tk };
    set_u128(&mut w.ds, fee_key, ONE_TOKEN as u128);
    let intruder = addr(21);
    let r = w.handler.claim_fees(
        &ledger(vec![intruder]),
        &w.roles,
        &mut w.ds,
        &mut w.out,
        intruder,
        w.market_tk,
        w.long_tk,
        addr(20),
        ONE_TOKEN,
    );
    assert_eq!(r, Err(Failure::Fee(Error::Unauthorized)));
    assert_eq!(w.ds.get_u128(&fee_key), ONE_TOKEN as u128);
}

#[test]
fn claim_fees_balance_guard_caps_at_pool_amount() {
    let mut w = setup();
    let claimable: u128 = ONE_TOKEN as u128 * 5;
    let pool_held: i128 = ONE_TOKEN * 3;
    let fee_key = Key::ClaimableFeeAmount { market: w.market_tk, token: w.long_tk };
    set_u128(&mut w.ds, fee_key, claimable);
    let receiver = addr(20);
    let transferred = w.handler.claim_fees(
        &ledger(vec![w.keeper]),
        &w.roles,
        &mut w.ds,
        &mut w.out,
        w.keeper,
        w.market_tk,
        w.long_tk,
        receiver,
        pool_held,
    );
    assert_eq!(transferred, Ok(pool_held as u128));
    assert_eq!(w.ds.get_u128(&fee_key), claimable - pool_held as u128);
    assert_eq!(paid_to(&w.out, receiver), pool_held);
}

#[test]
fn claim_funding_fees_transfers_and_zeroes_balance() {
    let mut w = setup();
    let funding_amount: u128 = ONE_TOKEN as u128 * 2;
    let claim_key = Key::ClaimableFundingAmount {
        market: w.market_tk,
        token: w.long_tk,
        account: w.admin,
    };
    set_u128(&mut w.ds, claim_key, funding_amount);
    w.handler
        .claim_funding_fees(
            &ledger(vec![w.admin]),
            &mut w.ds,
            &mut w.out,
            w.admin,
            w.market_tk,
            w.long_tk,
            funding_amount as i128,
        )
        .unwrap();
    assert_eq!(paid_to(&w.out, w.admin) as u128, funding_amount);
    assert_eq!(w.ds.get_u128(&claim_key), 0);
}

#[test]
fn claim_funding_fees_returns_zero_when_nothing_to_claim() {
    let mut w = setup();
    let claimed = w.handler.claim_funding_fees(
        &ledger(vec![w.admin]),
        &mut w.ds,
        &mut w.out,
        w.admin,
        w.market_tk,
        w.long_tk,
        0,
    );
    assert_eq!(claimed, Ok(0));
}

#[test]
fn claim_fees_by_non_fee_keeper_panics() {
    let mut w = setup();
    let impostor = addr(22);
    let r = w.handler.claim_fees(
        &ledger(vec![impostor]),
        &w.roles,
        &mut w.ds,
        &mut w.out,
        impostor,
        w.market_tk,
        w.long_tk,
        w.admin,
        0,
    );
    assert_eq!(r, Err(Failure::Fee(Error::Unauthorized)));
}

#[test]
fn upgrade_admin_succeeds() {
    let mut w = setup();
    let hash = Bytes32 { hi: 0, lo: 0 };
    assert_eq!(w.handler.upgrade(&ledger(vec![w.admin]), &mut w.out, hash), Ok(()));
    assert_eq!(w.out, vec![Action::UpdateCurrentContract { wasm_hash: hash }]);
}

#[test]
fn upgrade_non_admin_reverts() {
    let mut w = setup();
    let hash = Bytes32 { hi: 0, lo: 0 };
    assert_eq!(
        w.handler.upgrade(&ledger(vec![]), &mut w.out, hash),
        Err(Failure::MissingAuthorisation)
    );
    assert!(w.out.is_empty());
}

#[test]
fn claimable_ui_fees_zero_initially() {
    let w = setup();
    assert_eq!(w.handler.claimable_ui_fees(&w.ds, w.long_tk, addr(23)), Ok(0));
}

#[test]
fn accrue_ui_fee_accumulates_correctly() {
    let mut w = setup();
    let ui_recv = addr(23);
    let l = ledger(vec![w.admin]);
    w.handler
        .accrue_ui_fee(&l, &w.roles, &mut w.ds, &mut w.out, w.admin, w.long_tk, ui_recv, 500)
        .unwrap();
    assert_eq!(w.handler.claimable_ui_fees(&w.ds, w.long_tk, ui_recv), Ok(500));
    w.handler
        .accrue_ui_fee(&l, &w.roles, &mut w.ds, &mut w.out, w.admin, w.long_tk, ui_recv, 300)
        .unwrap();
    assert_eq!(w.handler.claimable_ui_fees(&w.ds, w.long_tk, ui_recv), Ok(800));
}

#[test]
fn claim_ui_fees_transfers_and_zeroes_balance() {
    let mut w = setup();
    let ui_recv = addr(23);
    let fee_amount: u128 = ONE_TOKEN as u128 * 2;
    w.handler
        .accrue_ui_fee(
            &ledger(vec![w.admin]),
            &w.roles,
            &mut w.ds,
            &mut w.out,
            w.admin,
            w.long_tk,
            ui_recv,
            fee_amount,
        )
        .unwrap();
    let claimed = w.handler.claim_ui_fees(
        &ledger(vec![ui_recv]),
        &mut w.ds,
        &mut w.out,
        ui_recv,
        w.market_tk,
        w.long_tk,
        fee_amount as i128,
    );
    assert_eq!(claimed, Ok(fee_amount));
    assert_eq!(paid_to(&w.out, ui_recv) as u128, fee_amount);
    assert_eq!(w.handler.claimable_ui_fees(&w.ds, w.long_tk, ui_recv), Ok(0));
}

#[test]
fn claim_ui_fees_nothing_to_claim_reverts() {
    let mut w = setup();
    let ui_recv = addr(23);
    let r = w.handler.claim_ui_fees(
        &ledger(vec![ui_recv]),
        &mut w.ds,
        &mut w.out,
        ui_recv,
        w.market_tk,
        w.long_tk,
        0,
    );
    assert_eq!(r, Err(Failure::Fee(Error::NothingToClaim)));
}

#[test]
fn claim_ui_fees_wrong_receiver_reverts() {
    let mut w = setup();
    let (real_recv, other_recv) = (addr(24), addr(25));
    let fee_amount: u128 = ONE_TOKEN as u128;
    w.handler
        .accrue_ui_fee(
            &ledger(vec![w.admin]),
            &w.roles,
            &mut w.ds,
            &mut w.out,
            w.admin,
            w.long_tk,
            real_recv,
            fee_amount,
        )
        .unwrap();
    let r = w.handler.claim_ui_fees(
        &ledger(vec![other_recv]),
        &mut w.ds,
        &mut w.out,
        other_recv,
        w.market_tk,
        w.long_tk,
        fee_amount as i128,
    );
    assert_eq!(r, Err(Failure::Fee(Error::NothingToClaim)));
    let forged = w.handler.claim_ui_fees(
        &ledger(vec![other_recv]),
        &mut w.ds,
        &mut w.out,
        real_recv,
        w.market_tk,
        w.long_tk,
        fee_amount as i128,
    );
    assert_eq!(forged, Err(Failure::MissingAuthorisation));
    assert_eq!(w.handler.claimable_ui_fees(&w.ds, w.long_tk, real_recv), Ok(fee_amount));
}

#[test]
fn accrue_ui_fee_zero_amount_reverts() {
    let mut w = setup();
    let r = w.handler.accrue_ui_fee(
        &ledger(vec![w.admin]),
        &w.roles,
        &mut w.ds,
        &mut w.out,
        w.admin,
        w.long_tk,
        addr(23),
        0,
    );
    assert_eq!(r, Err(Failure::Fee(Error::InvalidAmount)));
}

#[test]
fn accrue_ui_fee_non_controller_reverts() {
    let mut w = setup();
    let impostor = addr(22);
    let r = w.handler.accrue_ui_fee(
        &ledger(vec![impostor]),
        &w.roles,
        &mut w.ds,
        &mut w.out,
        impostor,
        w.long_tk,
        addr(23),
        100,
    );
    assert_eq!(r, Err(Failure::Fee(Error::Unauthorized)));
}

#[test]
fn ui_fee_factor_zero_initially() {
    let w = setup();
    assert_eq!(w.handler.get_ui_fee_factor(&w.ds, addr(23)), Ok(0));
}

#[test]
fn set_ui_fee_factor_stores_and_retrieves() {
    let mut w = setup();
    let ui_recv = addr(23);
    let factor: u128 = FLOAT_PRECISION as u128 / 100;
    w.handler
        .set_ui_fee_factor(&ledger(vec![w.admin]), &mut w.ds, &mut w.out, ui_recv, factor)
        .unwrap();
    assert_eq!(w.handler.get_ui_fee_factor(&w.ds, ui_recv), Ok(factor));
}

#[test]
fn set_ui_fee_factor_non_admin_reverts() {
    let mut w = setup();
    let r = w.handler.set_ui_fee_factor(&ledger(vec![]), &mut w.ds, &mut w.out, addr(23), 100);
    assert_eq!(r, Err(Failure::MissingAuthorisation));
}

#[test]
fn set_ui_fee_factor_exceeds_bound_reverts() {
    let mut w = setup();
    let too_large: u128 = FLOAT_PRECISION as u128 + 1;
    let l = ledger(vec![w.admin]);
    let r = w.handler.set_ui_fee_factor(&l, &mut w.ds, &mut w.out, addr(23), too_large);
    assert_eq!(r, Err(Failure::Fee(Error::InvalidAmount)));
}

#[test]
fn upgrade_preserves_fee_storage_and_claim_works() {
    let mut w = setup();
    let fee_amount: u128 = ONE_TOKEN as u128 * 5;
    let claim_key = Key::ClaimableFeeAmount { market: w.market_tk, token: w.long_tk };
    set_u128(&mut w.ds, claim_key, fee_amount);
    w.handler.upgrade(&ledger(vec![w.admin]), &mut w.out, Bytes32 { hi: 0, lo: 0 }).unwrap();
    let receiver = addr(20);
    w.handler
        .claim_fees(
            &ledger(vec![w.keeper]),
            &w.roles,
            &mut w.ds,
            &mut w.out,
            w.keeper,
            w.market_tk,
            w.long_tk,
            receiver,
            fee_amount as i128,
        )
        .unwrap();
    assert_eq!(paid_to(&w.out, receiver) as u128, fee_amount);
}

#[test]
fn fuzz_fee_rounding_invariant_10k_iterations() {
    let fp = FLOAT_PRECISION;
    let tp = TOKEN_PRECISION;
    let mut state: u64 = 0xcafe_babe_dead_beef_u64;
    let mut total_collected: i128 = 0;
    let mut total_claimable: i128 = 0;
    for _iter in 0u32..10_000 {
        state = state
            .wrapping_mul(6_364_136_223_846_793_005)
            .wrapping_add(1_442_695_040_888_963_407);
        let r1 = (state >> 17) as i128;
        state = state
            .wrapping_mul(6_364_136_223_846_793_005)
            .wrapping_add(1_442_695_040_888_963_407);
        let r2 = (state >> 17) as i128;
        state = state
            .wrapping_mul(6_364_136_223_846_793_005)
            .wrapping_add(1_442_695_040_888_963_407);
        let r3 = (state >> 17) as i128;
        let size_delta_usd = (r1.abs() % 1_000_000).max(1) * fp;
        let bps = (r2.abs() % 200).max(1);
        let fee_factor = bps * fp / 10_000;
        let collateral_price = ((r3.abs() % 100_000).max(1)) * fp;

        let fee_usd_ceil = mul_div_wide_up(size_delta_usd, fee_factor, fp).unwrap();
        let fee_usd_floor = mul_div_wide(size_delta_usd, fee_factor, fp).unwrap();
        assert!(fee_usd_ceil >= fee_usd_floor);
        assert!(fee_usd_ceil <= fee_usd_floor + 1);

        let fee_tok_ceil = mul_div_wide_up(fee_usd_ceil, tp, collateral_price).unwrap();
        let fee_tok_floor = mul_div_wide(fee_usd_ceil, tp, collateral_price).unwrap();
        assert!(fee_tok_ceil >= fee_tok_floor);
        assert!(fee_tok_ceil <= fee_tok_floor + 1);

        total_collected += fee_tok_ceil;
        total_claimable += fee_tok_ceil;
        assert!(total_claimable <= total_collected);
    }
    assert_eq!(total_claimable, total_collected);
}

// ---------------------------------------------------------------------------

#[test]
fn payments_never_exceed_the_pool() {
    assert_eq!(safe_transfer_amount(5, 3), 3);
    assert_eq!(safe_transfer_amount(3, 5), 3);
    assert_eq!(safe_transfer_amount(5, 0), 0);
    assert_eq!(safe_transfer_amount(5, -1), 0);
}

#[test]
fn a_second_claim_pays_nothing() {
    let mut w = setup();
    set_u128(&mut w.ds, Key::ClaimableFeeAmount { market: w.market_tk, token: w.long_tk }, 40);
    let l = ledger(vec![w.keeper]);
    let mut paid = Vec::new();
    for _ in 0..2 {
        paid.push(
            w.handler
                .claim_fees(
                    &l,
                    &w.roles,
                    &mut w.ds,
                    &mut w.out,
                    w.keeper,
                    w.market_tk,
                    w.long_tk,
                    addr(20),
                    1_000,
                )
                .unwrap(),
        );
    }
    assert_eq!(paid, vec![40, 0]);
    assert_eq!(w.out.len(), 2);
}

#[test]
fn compounding_markets_keep_their_fees() {
    let mut w = setup();
    let fee_key = Key::ClaimableFeeAmount { market: w.market_tk, token: w.long_tk };
    set_u128(&mut w.ds, fee_key, 40);
    assert_eq!(w.handler.is_auto_compound(&w.ds, w.market_tk), Ok(false));
    w.handler.set_auto_compound(&ledger(vec![w.admin]), &mut w.ds, w.market_tk, true).unwrap();
    assert_eq!(w.handler.is_auto_compound(&w.ds, w.market_tk), Ok(true));
    let r = w.handler.claim_fees(
        &ledger(vec![w.keeper]),
        &w.roles,
        &mut w.ds,
        &mut w.out,
        w.keeper,
        w.market_tk,
        w.long_tk,
        addr(20),
        1_000,
    );
    assert_eq!(r, Ok(0));
    assert_eq!(w.ds.get_u128(&fee_key), 40);
    assert!(w.out.is_empty());
}

#[test]
fn fee_handler_is_set_up_once() {
    let admin = addr(1);
    let mut fh = FeeHandler::new();
    assert_eq!(
        fh.claimable_fees(&DataStore::new(), addr(5), addr(6)),
        Err(Failure::Fee(Error::NotInitialized))
    );
    assert_eq!(
        fh.initialize(&ledger(vec![]), admin, addr(3), addr(4)),
        Err(Failure::MissingAuthorisation)
    );
    assert_eq!(fh.initialize(&ledger(vec![admin]), admin, addr(3), addr(4)), Ok(()));
    assert_eq!(
        fh.initialize(&ledger(vec![admin]), admin, addr(3), addr(4)),
        Err(Failure::Fee(Error::AlreadyInitialized))
    );
}
