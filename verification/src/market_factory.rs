//! Deployment of pool-share tokens and registration of their markets.

use crate::actions::{Action, Event};
use crate::crypto;
use crate::data_store::{DataStore, Key, Store};
use crate::failure::Failure;
use crate::ledger::Ledger;
use crate::market_utils;
use crate::role_store;
use crate::role_store::{Grant, Role, RoleStore};
use crate::types::{Address, Bytes32, MarketProps};
use soroban_sdk::Env;
use vstd::prelude::*;

verus! {

/// Why the factory rejects a call.
#[derive(Clone, Copy, Debug, PartialEq, Eq, Structural)]
pub enum Error {
    NotInitialized,
    AlreadyInitialized,
    Unauthorized,
    MarketAlreadyExists,
    WasmHashNotSet,
    SingleTokenPoolNotSupported,
}

/// The decimals of every token.
pub const TOKEN_DECIMALS: u32 = 7;

/// The name that every pool-share token gets.
pub const MARKET_TOKEN_NAME: &'static str = "SO4 Market Token";

/// The symbol that every pool-share token gets.
pub const MARKET_TOKEN_SYMBOL: &'static str = "GM";

/// The contracts that the factory was set up with.
#[derive(Clone, Copy, Debug, PartialEq, Eq, Structural)]
pub struct Config {
    pub admin: Address,
    pub role_store: Address,
    pub data_store: Address,
}

/// The state of the factory, as mathematical values.
pub struct Factory {
    pub config: Option<Config>,
    pub wasm_hash: Option<Bytes32>,
}

/// The factory.
pub struct MarketFactory {
    config: Option<Config>,
    wasm_hash: Option<Bytes32>,
}

impl View for MarketFactory {
    type V = Factory;

    closed spec fn view(&self) -> Factory {
        Factory { config: self.config, wasm_hash: self.wasm_hash }
    }
}

/// The salt of a market.
pub open spec fn salt_of(
    index_token: Address,
    long_token: Address,
    short_token: Address,
    market_type: Bytes32,
) -> Bytes32 {
    crypto::hash32(crypto::market_salt_message(index_token, long_token, short_token, market_type))
}

/// The salt under which a market's pool-share token is deployed.  It depends on
/// the three tokens and the market type alone.
pub fn compute_market_salt(
    env: &Env,
    index_token: &Address,
    long_token: &Address,
    short_token: &Address,
    market_type: &Bytes32,
) -> (r: Bytes32)
    ensures
        r == salt_of(*index_token, *long_token, *short_token, *market_type),
{
    crypto::market_salt(env, index_token, long_token, short_token, market_type)
}

/// The store with a market list that has a market on it.
pub open spec fn market_listed(s: Store, market: Address) -> Store {
    Store {
        markets: if s.markets.contains(market) {
            s.markets
        } else {
            s.markets.push(market)
        },
        ..s
    }
}

/// The store with a market registered: its flag, its three tokens, their
/// decimals and its place on the market list.
pub open spec fn market_registered(s: Store, m: MarketProps) -> Store {
    let market = m.market_token;
    market_listed(
        s.with_flag(Key::Market { market }, true).with_address(
            Key::MarketIndexToken { market },
            m.index_token,
        ).with_address(Key::MarketLongToken { market }, m.long_token).with_address(
            Key::MarketShortToken { market },
            m.short_token,
        ).with_u128(Key::TokenDecimals { token: m.long_token }, TOKEN_DECIMALS as u128).with_u128(
            Key::TokenDecimals { token: m.short_token },
            TOKEN_DECIMALS as u128,
        ).with_u128(Key::TokenDecimals { token: m.index_token }, TOKEN_DECIMALS as u128),
        market,
    )
}

/// What `create_market` does.
pub struct NewMarket {
    pub market: MarketProps,
    pub store: Store,
    pub actions: Seq<Action>,
}

/// What `create_market` asks of the world outside: deploy the pool-share token,
/// set it up, publish the event.
pub open spec fn creation_actions(
    factory: Address,
    config: Config,
    wasm_hash: Bytes32,
    salt: Bytes32,
    m: MarketProps,
) -> Seq<Action> {
    seq![
        Action::DeployMarketToken { factory, salt, wasm_hash },
        Action::InitializeMarketToken {
            market_token: m.market_token,
            admin: factory,
            role_store: config.role_store,
            decimals: TOKEN_DECIMALS,
            name: MARKET_TOKEN_NAME,
            symbol: MARKET_TOKEN_SYMBOL,
        },
        Action::Publish(Event::MarketCreated(m)),
    ]
}

/// What `create_market` does, or why it is rejected.
pub open spec fn new_market(
    f: Factory,
    s: Store,
    roles: Set<Grant>,
    ledger: Ledger,
    caller: Address,
    index_token: Address,
    long_token: Address,
    short_token: Address,
    market_type: Bytes32,
    deployed_address: Address,
) -> Result<NewMarket, Failure> {
    let m = MarketProps {
        market_token: deployed_address,
        index_token,
        long_token,
        short_token,
    };
    if !ledger.authorised(caller) {
        Err(Failure::MissingAuthorisation)
    } else {
        match f.config {
            None => Err(Failure::Factory(Error::NotInitialized)),
            Some(config) => if !role_store::holds(roles, caller, Role::MarketKeeper) {
                Err(Failure::Factory(Error::Unauthorized))
            } else if long_token == short_token {
                Err(Failure::Factory(Error::SingleTokenPoolNotSupported))
            } else {
                match f.wasm_hash {
                    None => Err(Failure::Factory(Error::WasmHashNotSet)),
                    Some(wasm_hash) => if s.flag_at(Key::Market { market: deployed_address }) {
                        Err(Failure::Factory(Error::MarketAlreadyExists))
                    } else {
                        Ok(
                            NewMarket {
                                market: m,
                                store: market_registered(s, m),
                                actions: creation_actions(
                                    ledger.current_contract,
                                    config,
                                    wasm_hash,
                                    salt_of(index_token, long_token, short_token, market_type),
                                    m,
                                ),
                            },
                        )
                    },
                }
            },
        }
    }
}

/// Whether a caller is the admin and authorised the call.
pub open spec fn admin_check(f: Factory, ledger: Ledger, caller: Address) -> Result<(), Failure> {
    if !ledger.authorised(caller) {
        Err(Failure::MissingAuthorisation)
    } else {
        match f.config {
            None => Err(Failure::Factory(Error::NotInitialized)),
            Some(config) => if config.admin != caller {
                Err(Failure::Factory(Error::Unauthorized))
            } else {
                Ok(())
            },
        }
    }
}

/// The markets at the places from `start` up to `end` of the list.
pub open spec fn listed_between(markets: Seq<Address>, start: int, end: int) -> Seq<Address> {
    let stop = if end < markets.len() {
        end
    } else {
        markets.len() as int
    };
    if start < stop {
        markets.subrange(start, stop)
    } else {
        Seq::empty()
    }
}

impl MarketFactory {
    /// A factory that is not set up yet.
    pub fn new() -> (r: Self)
        ensures
            r@ == (Factory { config: None, wasm_hash: None }),
    {
        MarketFactory { config: None, wasm_hash: None }
    }

    /// Sets the factory up, once.
    pub fn initialize(
        &mut self,
        ledger: &Ledger,
        admin: Address,
        role_store: Address,
        data_store: Address,
    ) -> (r: Result<(), Failure>)
        ensures
            r == if !ledger.authorised(admin) {
                Err::<(), Failure>(Failure::MissingAuthorisation)
            } else if old(self)@.config is Some {
                Err(Failure::Factory(Error::AlreadyInitialized))
            } else {
                Ok(())
            },
            final(self)@ == if r is Ok {
                Factory {
                    config: Some(Config { admin, role_store, data_store }),
                    ..old(self)@
                }
            } else {
                old(self)@
            },
    {
        ledger.require_auth(&admin)?;
        if self.config.is_some() {
            return Err(Failure::Factory(Error::AlreadyInitialized));
        }
        self.config = Some(Config { admin, role_store, data_store });
        Ok(())
    }

    /// Passes when the caller is the admin and authorised the call.
    fn require_admin(&self, ledger: &Ledger, caller: &Address) -> (r: Result<(), Failure>)
        ensures
            r == admin_check(self@, *ledger, *caller),
    {
        ledger.require_auth(caller)?;
        match &self.config {
            None => Err(Failure::Factory(Error::NotInitialized)),
            Some(config) => if config.admin != *caller {
                Err(Failure::Factory(Error::Unauthorized))
            } else {
                Ok(())
            },
        }
    }

    /// Names the code of the pool-share token.  Only the admin may.
    pub fn set_market_token_wasm_hash(
        &mut self,
        ledger: &Ledger,
        out: &mut Vec<Action>,
        caller: Address,
        wasm_hash: Bytes32,
    ) -> (r: Result<(), Failure>)
        ensures
            r == admin_check(old(self)@, *ledger, caller),
            final(self)@ == if r is Ok {
                Factory { wasm_hash: Some(wasm_hash), ..old(self)@ }
            } else {
                old(self)@
            },
            final(out)@ == if r is Ok {
                old(out)@.push(Action::Publish(Event::WasmHashSet { wasm_hash }))
            } else {
                old(out)@
            },
    {
        self.require_admin(ledger, &caller)?;
        self.wasm_hash = Some(wasm_hash);
        out.push(Action::Publish(Event::WasmHashSet { wasm_hash }));
        Ok(())
    }

    /// The code of the pool-share token.
    pub fn get_market_token_wasm_hash(&self) -> (r: Option<Bytes32>)
        ensures
            r == self@.wasm_hash,
    {
        self.wasm_hash
    }

    /// Deploys a pool-share token and registers its market.  Only a market keeper
    /// may.  `deployed_address` is the address that a deployment by the factory
    /// under the market's salt gets.
    pub fn create_market(
        &self,
        env: &Env,
        ledger: &Ledger,
        roles: &RoleStore,
        ds: &mut DataStore,
        out: &mut Vec<Action>,
        caller: Address,
        index_token: Address,
        long_token: Address,
        short_token: Address,
        market_type: Bytes32,
        deployed_address: Address,
    ) -> (r: Result<MarketProps, Failure>)
        ensures
            match new_market(
                self@,
                old(ds)@,
                roles@,
                *ledger,
                caller,
                index_token,
                long_token,
                short_token,
                market_type,
                deployed_address,
            ) {
                Ok(x) => {
                    &&& r == Ok::<MarketProps, Failure>(x.market)
                    &&& final(ds)@ == x.store
                    &&& final(out)@ == old(out)@ + x.actions
                },
                Err(e) => {
                    &&& r == Err::<MarketProps, Failure>(e)
                    &&& final(ds)@ == old(ds)@
                    &&& final(out)@ == old(out)@
                },
            },
    {
        ledger.require_auth(&caller)?;
        let config = match &self.config {
            Some(config) => *config,
            None => {
                return Err(Failure::Factory(Error::NotInitialized));
            },
        };
        if !roles.has_role(&caller, Role::MarketKeeper) {
            return Err(Failure::Factory(Error::Unauthorized));
        }
        if long_token == short_token {
            return Err(Failure::Factory(Error::SingleTokenPoolNotSupported));
        }
        let wasm_hash = match self.wasm_hash {
            Some(wasm_hash) => wasm_hash,
            None => {
                return Err(Failure::Factory(Error::WasmHashNotSet));
            },
        };
        let salt = compute_market_salt(env, &index_token, &long_token, &short_token, &market_type);
        let factory = ledger.current_contract;
        let market = deployed_address;
        if ds.get_bool(&Key::Market { market }) {
            return Err(Failure::Factory(Error::MarketAlreadyExists));
        }
        let props = MarketProps { market_token: market, index_token, long_token, short_token };
        out.push(Action::DeployMarketToken { factory, salt, wasm_hash });
        out.push(
            Action::InitializeMarketToken {
                market_token: market,
                admin: factory,
                role_store: config.role_store,
                decimals: TOKEN_DECIMALS,
                name: MARKET_TOKEN_NAME,
                symbol: MARKET_TOKEN_SYMBOL,
            },
        );
        ds.put_bool(Key::Market { market }, true);
        ds.put_address(Key::MarketIndexToken { market }, index_token);
        ds.put_address(Key::MarketLongToken { market }, long_token);
        ds.put_address(Key::MarketShortToken { market }, short_token);
        ds.put_u128(Key::TokenDecimals { token: long_token }, TOKEN_DECIMALS as u128);
        ds.put_u128(Key::TokenDecimals { token: short_token }, TOKEN_DECIMALS as u128);
        ds.put_u128(Key::TokenDecimals { token: index_token }, TOKEN_DECIMALS as u128);
        ds.add_market(market);
        out.push(Action::Publish(Event::MarketCreated(props)));
        assert(out@ =~= old(out)@ + creation_actions(factory, config, wasm_hash, salt, props));
        Ok(props)
    }

    /// Asks for the contract's code to be replaced.  Only the admin may.
    pub fn upgrade(
        &self,
        ledger: &Ledger,
        out: &mut Vec<Action>,
        caller: Address,
        new_wasm_hash: Bytes32,
    ) -> (r: Result<(), Failure>)
        ensures
            r == admin_check(self@, *ledger, caller),
            final(out)@ == if r is Ok {
                old(out)@.push(Action::UpdateCurrentContract { wasm_hash: new_wasm_hash })
            } else {
                old(out)@
            },
    {
        self.require_admin(ledger, &caller)?;
        out.push(Action::UpdateCurrentContract { wasm_hash: new_wasm_hash });
        Ok(())
    }

    /// The number of markets.
    pub fn get_market_count(&self, ds: &DataStore) -> (r: Result<u32, Failure>)
        ensures
            r == if self@.config is None {
                Err::<u32, Failure>(Failure::Factory(Error::NotInitialized))
            } else if ds@.markets.len() > u32::MAX {
                Err(Failure::Overflow)
            } else {
                Ok(ds@.markets.len() as u32)
            },
    {
        if self.config.is_none() {
            return Err(Failure::Factory(Error::NotInitialized));
        }
        let count: usize = ds.market_count();
        if count as u64 > u32::MAX as u64 {
            return Err(Failure::Overflow);
        }
        Ok(count as u32)
    }

    /// The markets at the places from `start` up to `end` of the list.
    pub fn get_markets(&self, ds: &DataStore, start: u32, end: u32) -> (r: Result<
        Vec<Address>,
        Failure,
    >)
        ensures
            match r {
                Ok(v) => self@.config is Some && v@ == listed_between(
                    ds@.markets,
                    start as int,
                    end as int,
                ),
                Err(e) => self@.config is None && e == Failure::Factory(Error::NotInitialized),
            },
    {
        if self.config.is_none() {
            return Err(Failure::Factory(Error::NotInitialized));
        }
        let mut markets: Vec<Address> = Vec::new();
        let count: usize = ds.market_count();
        let stop: u64 = if (end as u64) < count as u64 {
            end as u64
        } else {
            count as u64
        };
        let mut i: u64 = start as u64;
        while i < stop
            invariant
                start <= i,
                stop <= count,
                count == ds@.markets.len(),
                i <= stop || i == start,
                i <= stop ==> markets@ == ds@.markets.subrange(start as int, i as int),
                i > stop ==> markets@.len() == 0,
            decreases stop - i,
        {
            markets.push(ds.market_at(i as usize));
            i = i + 1;
        }
        assert(markets@ =~= listed_between(ds@.markets, start as int, end as int));
        Ok(markets)
    }
}

// ---------------------------------------------------------------------------
// Laws
// ---------------------------------------------------------------------------

/// A created market can be loaded as it was created, its two pool tokens differ,
/// and it is on the market list.
pub proof fn created_market_is_registered(
    f: Factory,
    s: Store,
    roles: Set<Grant>,
    ledger: Ledger,
    caller: Address,
    index_token: Address,
    long_token: Address,
    short_token: Address,
    market_type: Bytes32,
    deployed_address: Address,
)
    ensures
        new_market(
            f,
            s,
            roles,
            ledger,
            caller,
            index_token,
            long_token,
            short_token,
            market_type,
            deployed_address,
        ) matches Ok(x) ==> {
            &&& market_utils::market_at(x.store, deployed_address) == Some(x.market)
            &&& x.market.long_token != x.market.short_token
            &&& x.store.markets.contains(deployed_address)
            &&& x.store.flag_at(Key::Market { market: deployed_address })
            &&& role_store::holds(roles, caller, Role::MarketKeeper)
        },
{
    if let Ok(x) = new_market(
        f,
        s,
        roles,
        ledger,
        caller,
        index_token,
        long_token,
        short_token,
        market_type,
        deployed_address,
    ) {
        if !s.markets.contains(deployed_address) {
            assert(x.store.markets.last() == deployed_address);
        }
    }
}

/// A market is created at most once: the same creation again is rejected.
pub proof fn market_is_created_once(
    f: Factory,
    s: Store,
    roles: Set<Grant>,
    ledger: Ledger,
    caller: Address,
    index_token: Address,
    long_token: Address,
    short_token: Address,
    market_type: Bytes32,
    deployed_address: Address,
)
    ensures
        new_market(
            f,
            s,
            roles,
            ledger,
            caller,
            index_token,
            long_token,
            short_token,
            market_type,
            deployed_address,
        ) matches Ok(x) ==> new_market(
            f,
            x.store,
            roles,
            ledger,
            caller,
            index_token,
            long_token,
            short_token,
            market_type,
            deployed_address,
        ) == Err::<NewMarket, Failure>(Failure::Factory(Error::MarketAlreadyExists)),
{
}

/// After a market was created, one of another type for the same tokens can be
/// created too, and it is another market: its token is deployed under a salt made
/// from another message, and wherever the deployer puts it, it is not the token
/// of the first.  Only an address that carries a market already is refused.
pub proof fn another_type_gives_another_market(
    f: Factory,
    s: Store,
    roles: Set<Grant>,
    ledger: Ledger,
    caller: Address,
    index_token: Address,
    long_token: Address,
    short_token: Address,
    first_type: Bytes32,
    first_address: Address,
    second_type: Bytes32,
    second_address: Address,
)
    requires
        first_type != second_type,
    ensures
        crypto::market_salt_message(index_token, long_token, short_token, first_type)
            != crypto::market_salt_message(index_token, long_token, short_token, second_type),
        new_market(
            f,
            s,
            roles,
            ledger,
            caller,
            index_token,
            long_token,
            short_token,
            first_type,
            first_address,
        ) matches Ok(x) ==> match new_market(
            f,
            x.store,
            roles,
            ledger,
            caller,
            index_token,
            long_token,
            short_token,
            second_type,
            second_address,
        ) {
            Ok(y) => {
                &&& y.market.market_token != x.market.market_token
                &&& market_utils::market_at(y.store, x.market.market_token) == Some(x.market)
                &&& market_utils::market_at(y.store, y.market.market_token) == Some(y.market)
            },
            Err(e) => {
                &&& e == Failure::Factory(Error::MarketAlreadyExists)
                &&& second_address == first_address || s.flag_at(
                    Key::Market { market: second_address },
                )
            },
        },
{
    if crypto::market_salt_message(index_token, long_token, short_token, first_type)
        == crypto::market_salt_message(index_token, long_token, short_token, second_type) {
        crypto::market_salt_message_is_injective(
            index_token,
            long_token,
            short_token,
            first_type,
            index_token,
            long_token,
            short_token,
            second_type,
        );
    }
}

/// With a deployer that gives every salt an address of its own, two types of
/// market for the same tokens whose salts differ get two markets: the second is
/// created after the first, under another token.
pub proof fn two_types_get_two_markets(
    f: Factory,
    s: Store,
    roles: Set<Grant>,
    ledger: Ledger,
    caller: Address,
    index_token: Address,
    long_token: Address,
    short_token: Address,
    first_type: Bytes32,
    second_type: Bytes32,
    deployed: spec_fn(Bytes32) -> Address,
)
    requires
        forall|a: Bytes32, b: Bytes32| #[trigger] deployed(a) == #[trigger] deployed(b) ==> a == b,
        salt_of(index_token, long_token, short_token, first_type) != salt_of(
            index_token,
            long_token,
            short_token,
            second_type,
        ),
        !s.flag_at(
            Key::Market {
                market: deployed(salt_of(index_token, long_token, short_token, second_type)),
            },
        ),
    ensures
        new_market(
            f,
            s,
            roles,
            ledger,
            caller,
            index_token,
            long_token,
            short_token,
            first_type,
            deployed(salt_of(index_token, long_token, short_token, first_type)),
        ) matches Ok(x) ==> new_market(
            f,
            x.store,
            roles,
            ledger,
            caller,
            index_token,
            long_token,
            short_token,
            second_type,
            deployed(salt_of(index_token, long_token, short_token, second_type)),
        ) matches Ok(y) && y.market.market_token != x.market.market_token,
{
}

/// Creating a market changes no other market.
pub proof fn creation_leaves_other_markets_alone(
    f: Factory,
    s: Store,
    roles: Set<Grant>,
    ledger: Ledger,
    caller: Address,
    index_token: Address,
    long_token: Address,
    short_token: Address,
    market_type: Bytes32,
    deployed_address: Address,
    other: Address,
)
    requires
        other != deployed_address,
    ensures
        new_market(
            f,
            s,
            roles,
            ledger,
            caller,
            index_token,
            long_token,
            short_token,
            market_type,
            deployed_address,
        ) matches Ok(x) ==> market_utils::market_at(x.store, other) == market_utils::market_at(
            s,
            other,
        ),
{
}

} // verus!
