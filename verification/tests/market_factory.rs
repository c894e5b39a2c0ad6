//! Markets and the factory that creates them.

use perps::actions::{Action, Event};
use perps::data_store::{DataStore, Key};
use perps::failure::Failure;
use perps::ledger::Ledger;
use perps::market_factory::{compute_market_salt, Error, MarketFactory};
use perps::reader::Reader;
use perps::role_store::{Role, RoleStore};
use perps::types::{Address, Bytes32, MarketProps};
use soroban_sdk::Env;

fn addr(n: u64) -> Address {
    Address { head: 0, body: 0, tail: 0, last: n }
}

/// A ledger on which the administrator signed.
fn admin_ledger() -> Ledger {
    Ledger { timestamp: 0, sequence: 1, current_contract: addr(9), signers: vec![addr(1)] }
}

/// A store of roles that the administrator looks after.
fn role_book() -> RoleStore {
    let mut roles = RoleStore::new();
    roles.initialize(&admin_ledger(), addr(1)).unwrap();
    roles
}

fn grant(roles: &mut RoleStore, account: Address, role: Role) {
    roles.grant_role(&admin_ledger(), addr(1), account, role).unwrap();
}

/// An address from its text key.
fn from_text(text: &str) -> Address {
    let b = text.as_bytes();
    let word = |from: usize, to: usize| b[from..to].iter().fold(0u128, |x, c| x * 256 + *c as u128);
    Address { head: word(0, 16), body: word(16, 32), tail: word(32, 48), last: word(48, 56) as u64 }
}

fn by(signer: Address) -> Ledger {
    Ledger { timestamp: 0, sequence: 1, current_contract: addr(9), signers: vec![signer] }
}

struct World {
    env: Env,
    admin: Address,
    roles: RoleStore,
    ds: DataStore,
    factory: MarketFactory,
    out: Vec<Action>,
}

fn setup() -> World {
    let admin = addr(1);
    let mut roles = role_book();
    grant(&mut roles, admin, Role::Controller);
    grant(&mut roles, admin, Role::MarketKeeper);
    let mut factory = MarketFactory::new();
    factory.initialize(&by(admin), admin, addr(4), addr(5)).unwrap();
    World {
        env: Env::default(),
        admin,
        roles,
        ds: DataStore::new(),
        factory,
        out: Vec::new(),
    }
}

fn create(
    w: &mut World,
    caller: Address,
    tokens: [Address; 3],
    deployed: Address,
) -> Result<MarketProps, Failure> {
    w.factory.create_market(
        &w.env,
        &by(caller),
        &w.roles,
        &mut w.ds,
        &mut w.out,
        caller,
        tokens[0],
        tokens[1],
        tokens[2],
        Bytes32 { hi: 0, lo: 0 },
        deployed,
    )
}

#[test]
fn test_initialize() {
    let w = setup();
    assert_eq!(w.factory.get_market_token_wasm_hash(), None);
}

#[test]
fn test_initial_market_count() {
    let w = setup();
    assert_eq!(w.factory.get_market_count(&w.ds), Ok(0));
    assert_eq!(w.factory.get_markets(&w.ds, 0, 10).unwrap().len(), 0);
}

#[test]
fn create_market_by_non_market_keeper_panics() {
    let mut w = setup();
    let r = create(&mut w, addr(50), [addr(11), addr(12), addr(13)], addr(60));
    assert_eq!(r, Err(Failure::Factory(Error::Unauthorized)));
}

#[test]
fn create_market_rejects_single_token_pool() {
    let mut w = setup();
    let admin = w.admin;
    let r = create(&mut w, admin, [addr(11), addr(11), addr(11)], addr(60));
    assert_eq!(r, Err(Failure::Factory(Error::SingleTokenPoolNotSupported)));
}

#[test]
fn markets_are_created_once_and_registered() {
    let mut w = setup();
    let admin = w.admin;
    let tokens = [addr(11), addr(12), addr(13)];
    assert_eq!(
        create(&mut w, admin, tokens, addr(60)),
        Err(Failure::Factory(Error::WasmHashNotSet))
    );
    let wasm_hash = Bytes32 { hi: 3, lo: 4 };
    assert_eq!(
        w.factory.set_market_token_wasm_hash(&by(addr(50)), &mut w.out, addr(50), wasm_hash),
        Err(Failure::Factory(Error::Unauthorized))
    );
    w.factory.set_market_token_wasm_hash(&by(admin), &mut w.out, admin, wasm_hash).unwrap();
    assert_eq!(w.factory.get_market_token_wasm_hash(), Some(wasm_hash));
    w.out.clear();

    let market = create(&mut w, admin, tokens, addr(60)).unwrap();
    assert_eq!(
        market,
        MarketProps {
            market_token: addr(60),
            index_token: addr(11),
            long_token: addr(12),
            short_token: addr(13),
        }
    );
    assert_eq!(Reader::get_market(&w.ds, addr(60)), Ok(market));
    assert!(w.ds.get_bool(&Key::Market { market: addr(60) }));
    let salt = compute_market_salt(
        &w.env,
        &addr(11),
        &addr(12),
        &addr(13),
        &Bytes32 { hi: 0, lo: 0 },
    );
    assert_eq!(
        w.out,
        vec![
            Action::DeployMarketToken { factory: addr(9), salt, wasm_hash },
            Action::InitializeMarketToken {
                market_token: addr(60),
                admin: addr(9),
                role_store: addr(4),
                decimals: 7,
                name: "SO4 Market Token",
                symbol: "GM",
            },
            Action::Publish(Event::MarketCreated(market)),
        ]
    );
    assert_eq!(
        create(&mut w, admin, tokens, addr(60)),
        Err(Failure::Factory(Error::MarketAlreadyExists))
    );
    create(&mut w, admin, [addr(14), addr(12), addr(13)], addr(61)).unwrap();
    assert_eq!(w.factory.get_market_count(&w.ds), Ok(2));
    assert_eq!(w.factory.get_markets(&w.ds, 0, 10), Ok(vec![addr(60), addr(61)]));
    assert_eq!(w.factory.get_markets(&w.ds, 1, 2), Ok(vec![addr(61)]));
    assert_eq!(Reader::get_market(&w.ds, addr(62)), Err(Failure::MarketNotFound));
}

#[test]
fn another_type_is_another_market() {
    let mut w = setup();
    let admin = w.admin;
    let hash = Bytes32 { hi: 3, lo: 4 };
    w.factory.set_market_token_wasm_hash(&by(admin), &mut w.out, admin, hash).unwrap();
    let first = create(&mut w, admin, [addr(11), addr(12), addr(13)], addr(60)).unwrap();
    let other = Bytes32 { hi: 0, lo: 1 };
    let mut make = |deployed: Address| {
        w.factory.create_market(
            &w.env,
            &by(admin),
            &w.roles,
            &mut w.ds,
            &mut w.out,
            admin,
            addr(11),
            addr(12),
            addr(13),
            other,
            deployed,
        )
    };
    assert_eq!(make(addr(60)), Err(Failure::Factory(Error::MarketAlreadyExists)));
    let second = make(addr(61)).unwrap();
    assert_ne!(first.market_token, second.market_token);
    let salt = |t: Bytes32| compute_market_salt(&w.env, &addr(11), &addr(12), &addr(13), &t);
    assert_ne!(salt(Bytes32 { hi: 0, lo: 0 }), salt(other));
    assert_eq!(w.factory.get_markets(&w.ds, 0, 10), Ok(vec![addr(60), addr(61)]));
}

#[test]
fn salt_is_the_hash_of_the_framed_parts() {
    let env = Env::default();
    let a = from_text("GAAAAAAAAAAAAAAAAAAAAAAAAAAAAAAAAAAAAAAAAAAAAAAAAAAAAWHF");
    let b = from_text("CAAAAAAAAAAAAAAAAAAAAAAAAAAAAAAAAAAAAAAAAAAAAAAAAAAAD2KM");
    let salt = compute_market_salt(&env, &a, &a, &b, &Bytes32 { hi: 0, lo: 1 });
    assert_eq!(
        salt,
        Bytes32 {
            hi: 0x5b7b0ed418ae87d7169e74722359b7f6,
            lo: 0x6691c1ec84795ed656852e51330a7d9f,
        }
    );
    let swapped = compute_market_salt(&env, &a, &b, &a, &Bytes32 { hi: 0, lo: 1 });
    assert_ne!(salt, swapped);
}

#[test]
fn market_factory_is_set_up_once() {
    let mut w = setup();
    let admin = w.admin;
    assert_eq!(
        w.factory.initialize(&by(admin), admin, addr(4), addr(5)),
        Err(Failure::Factory(Error::AlreadyInitialized))
    );
    let hash = Bytes32 { hi: 8, lo: 9 };
    assert_eq!(
        MarketFactory::new().get_market_count(&w.ds),
        Err(Failure::Factory(Error::NotInitialized))
    );
    assert_eq!(
        w.factory.upgrade(&by(addr(50)), &mut w.out, addr(50), hash),
        Err(Failure::Factory(Error::Unauthorized))
    );
    w.factory.upgrade(&by(admin), &mut w.out, admin, hash).unwrap();
    assert_eq!(w.out, vec![Action::UpdateCurrentContract { wasm_hash: hash }]);
}
