//! Claiming of protocol fees, interface fees and funding fees out of the pools.

use crate::actions::{Action, Event};
use crate::data_store::{DataStore, Key, Store};
use crate::failure::Failure;
use crate::ledger::Ledger;
use crate::math;
use crate::math::FLOAT_PRECISION;
use crate::role_store;
use crate::role_store::{Grant, Role, RoleStore};
use crate::types::{Address, Bytes32};
use vstd::prelude::*;

verus! {

/// Why the fee handler rejects a call.
#[derive(Clone, Copy, Debug, PartialEq, Eq, Structural)]
pub enum Error {
    AlreadyInitialized,
    NotInitialized,
    Unauthorized,
    NothingToClaim,
    InvalidAmount,
}

/// Protocol fees were claimed.
#[derive(Clone, Copy, Debug, PartialEq, Eq, Structural)]
pub struct FeeClaimed {
    pub market: Address,
    pub token: Address,
    pub amount: u128,
    pub receiver: Address,
}

/// Funding fees were claimed.
#[derive(Clone, Copy, Debug, PartialEq, Eq, Structural)]
pub struct FundingFeeClaimed {
    pub account: Address,
    pub market: Address,
    pub token: Address,
    pub amount: u128,
}

/// An interface fee was accrued.
#[derive(Clone, Copy, Debug, PartialEq, Eq, Structural)]
pub struct UiFeeAccrued {
    pub ui_receiver: Address,
    pub token: Address,
    pub amount: u128,
}

/// Interface fees were claimed.
#[derive(Clone, Copy, Debug, PartialEq, Eq, Structural)]
pub struct UiFeeClaimed {
    pub ui_receiver: Address,
    pub token: Address,
    pub amount: u128,
}

/// The interface fee factor of a receiver was set.
#[derive(Clone, Copy, Debug, PartialEq, Eq, Structural)]
pub struct UiFeeFactorSet {
    pub ui_receiver: Address,
    pub factor: u128,
}

/// The contracts that the fee handler was set up with.
#[derive(Clone, Copy, Debug, PartialEq, Eq, Structural)]
pub struct Config {
    pub admin: Address,
    pub role_store: Address,
    pub data_store: Address,
}

/// The fee handler.
pub struct FeeHandler {
    config: Option<Config>,
}

impl View for FeeHandler {
    type V = Option<Config>;

    closed spec fn view(&self) -> Option<Config> {
        self.config
    }
}

// ---------------------------------------------------------------------------
// Amounts
// ---------------------------------------------------------------------------

/// What can be paid of an amount out of a pool with a balance: never more than
/// the pool holds.
pub open spec fn payable(requested: u128, pool_balance: i128) -> u128 {
    if pool_balance <= 0 {
        0
    } else if requested < pool_balance {
        requested
    } else {
        pool_balance as u128
    }
}

/// What can be paid of an amount out of a pool with a balance.
pub fn safe_transfer_amount(requested: u128, pool_balance: i128) -> (r: u128)
    ensures
        r == payable(requested, pool_balance),
{
    if pool_balance <= 0 {
        return 0;
    }
    if requested < pool_balance as u128 {
        requested
    } else {
        pool_balance as u128
    }
}

/// The key of the protocol fees of a market in a token.
pub open spec fn fee_key(market: Address, token: Address) -> Key {
    Key::ClaimableFeeAmount { market, token }
}

/// The key of the interface fees of a receiver in a token.
pub open spec fn ui_fee_key(token: Address, ui_receiver: Address) -> Key {
    Key::ClaimableUiFeeAmount { token, ui_receiver }
}

/// The key of the funding fees of an account in a market and a token.
pub open spec fn funding_key(market: Address, token: Address, account: Address) -> Key {
    Key::ClaimableFundingAmount { market, token, account }
}

/// What claiming what is stored under a key does: what can be paid is paid, the
/// rest stays claimable.
pub struct Claim {
    pub amount: u128,
    pub store: Store,
    pub actions: Seq<Action>,
}

/// The claim of what is stored under a key.
pub open spec fn claim_of(
    s: Store,
    key: Key,
    market: Address,
    token: Address,
    receiver: Address,
    pool_balance: i128,
) -> Claim {
    let amount = payable(s.u128_at(key), pool_balance);
    Claim {
        amount,
        store: if s.u128_at(key) == 0 {
            s
        } else {
            s.with_u128(key, (s.u128_at(key) - amount) as u128)
        },
        actions: if amount == 0 {
            Seq::empty()
        } else {
            seq![Action::WithdrawFromPool { market, token, receiver, amount: amount as i128 }]
        },
    }
}

/// Takes what can be paid of what is stored under a key, and asks for the
/// payment.
fn take_claim(
    ds: &mut DataStore,
    out: &mut Vec<Action>,
    key: Key,
    market: Address,
    token: Address,
    receiver: Address,
    pool_balance: i128,
) -> (r: u128)
    ensures
        ({
            let c = claim_of(old(ds)@, key, market, token, receiver, pool_balance);
            &&& r == c.amount
            &&& final(ds)@ == c.store
            &&& final(out)@ == old(out)@ + c.actions
            &&& r <= i128::MAX
        }),
{
    let claimable: u128 = ds.get_u128(&key);
    let amount: u128 = safe_transfer_amount(claimable, pool_balance);
    if claimable != 0 {
        ds.put_u128(key, claimable - amount);
    }
    if amount == 0 {
        assert(out@ + Seq::<Action>::empty() =~= out@);
        return 0;
    }
    out.push(Action::WithdrawFromPool { market, token, receiver, amount: amount as i128 });
    amount
}

// ---------------------------------------------------------------------------
// What the calls do
// ---------------------------------------------------------------------------

/// The claim with an event added, where anything was paid.
pub open spec fn with_event(c: Claim, event: Event) -> Claim {
    if c.amount == 0 {
        c
    } else {
        Claim { actions: c.actions.push(Action::Publish(event)), ..c }
    }
}

/// What `claim_fees` does, or why it is rejected.
pub open spec fn fee_claim(
    config: Option<Config>,
    s: Store,
    roles: Set<Grant>,
    ledger: Ledger,
    keeper: Address,
    market: Address,
    token: Address,
    receiver: Address,
    pool_balance: i128,
) -> Result<Claim, Failure> {
    if !ledger.authorised(keeper) {
        Err(Failure::MissingAuthorisation)
    } else if config is None {
        Err(Failure::Fee(Error::NotInitialized))
    } else if !role_store::holds(roles, keeper, Role::FeeKeeper) {
        Err(Failure::Fee(Error::Unauthorized))
    } else if s.flag_at(Key::AutoCompoundFees { market }) {
        Ok(Claim { amount: 0, store: s, actions: Seq::empty() })
    } else {
        let c = claim_of(s, fee_key(market, token), market, token, receiver, pool_balance);
        Ok(
            with_event(
                c,
                Event::FeeClaimed(FeeClaimed { market, token, amount: c.amount, receiver }),
            ),
        )
    }
}

/// What `claim_ui_fees` does, or why it is rejected.
pub open spec fn ui_fee_claim(
    config: Option<Config>,
    s: Store,
    ledger: Ledger,
    ui_receiver: Address,
    market: Address,
    token: Address,
    pool_balance: i128,
) -> Result<Claim, Failure> {
    let c = claim_of(
        s,
        ui_fee_key(token, ui_receiver),
        market,
        token,
        ui_receiver,
        pool_balance,
    );
    if !ledger.authorised(ui_receiver) {
        Err(Failure::MissingAuthorisation)
    } else if config is None {
        Err(Failure::Fee(Error::NotInitialized))
    } else if c.amount == 0 {
        Err(Failure::Fee(Error::NothingToClaim))
    } else {
        Ok(
            with_event(
                c,
                Event::UiFeeClaimed(UiFeeClaimed { ui_receiver, token, amount: c.amount }),
            ),
        )
    }
}

/// What `claim_funding_fees` does, or why it is rejected.
pub open spec fn funding_claim(
    config: Option<Config>,
    s: Store,
    ledger: Ledger,
    account: Address,
    market: Address,
    token: Address,
    pool_balance: i128,
) -> Result<Claim, Failure> {
    let c = claim_of(
        s,
        funding_key(market, token, account),
        market,
        token,
        account,
        pool_balance,
    );
    if !ledger.authorised(account) {
        Err(Failure::MissingAuthorisation)
    } else if config is None {
        Err(Failure::Fee(Error::NotInitialized))
    } else {
        Ok(
            with_event(
                c,
                Event::FundingFeeClaimed(
                    FundingFeeClaimed { account, market, token, amount: c.amount },
                ),
            ),
        )
    }
}

/// What `accrue_ui_fee` makes of the store, or why it is rejected.  The amount
/// is added as a signed number.
pub open spec fn ui_fee_accrued(
    config: Option<Config>,
    s: Store,
    roles: Set<Grant>,
    ledger: Ledger,
    controller: Address,
    token: Address,
    ui_receiver: Address,
    amount: u128,
) -> Result<Store, Failure> {
    let key = ui_fee_key(token, ui_receiver);
    if !ledger.authorised(controller) {
        Err(Failure::MissingAuthorisation)
    } else if config is None {
        Err(Failure::Fee(Error::NotInitialized))
    } else if !role_store::holds(roles, controller, Role::Controller) {
        Err(Failure::Fee(Error::Unauthorized))
    } else if amount == 0 {
        Err(Failure::Fee(Error::InvalidAmount))
    } else if s.can_shift(key, math::signed(amount) as int) {
        Ok(s.shifted(key, math::signed(amount) as int))
    } else {
        Err(Failure::Overflow)
    }
}

/// Whether the stored admin authorised the call.
pub open spec fn admin_check(config: Option<Config>, ledger: Ledger) -> Result<(), Failure> {
    match config {
        None => Err(Failure::Fee(Error::NotInitialized)),
        Some(c) => if ledger.authorised(c.admin) {
            Ok(())
        } else {
            Err(Failure::MissingAuthorisation)
        },
    }
}

impl FeeHandler {
    /// A handler that is not set up yet.
    pub fn new() -> (r: Self)
        ensures
            r@ is None,
    {
        FeeHandler { config: None }
    }

    /// Sets the handler up, once.
    pub fn initialize(
        &mut self,
        ledger: &Ledger,
        admin: Address,
        role_store: Address,
        data_store: Address,
    ) -> (r: Result<(), Failure>)
        ensures
            r == if !ledger.authorised(admin) {
                Err::<(), Failure>(Failure::MissingAuthorisation)
            } else if old(self)@ is Some {
                Err(Failure::Fee(Error::AlreadyInitialized))
            } else {
                Ok(())
            },
            final(self)@ == if r is Ok {
                Some(Config { admin, role_store, data_store })
            } else {
                old(self)@
            },
    {
        ledger.require_auth(&admin)?;
        if self.config.is_some() {
            return Err(Failure::Fee(Error::AlreadyInitialized));
        }
        self.config = Some(Config { admin, role_store, data_store });
        Ok(())
    }

    /// Passes once the handler is set up.
    fn require_config(&self) -> (r: Result<Config, Failure>)
        ensures
            r == match self@ {
                Some(c) => Ok::<Config, Failure>(c),
                None => Err(Failure::Fee(Error::NotInitialized)),
            },
    {
        match &self.config {
            Some(c) => Ok(*c),
            None => Err(Failure::Fee(Error::NotInitialized)),
        }
    }

    /// Passes when the stored admin authorised the call.
    fn require_admin(&self, ledger: &Ledger) -> (r: Result<(), Failure>)
        ensures
            r == admin_check(self@, *ledger),
    {
        let config = self.require_config()?;
        ledger.require_auth(&config.admin)
    }

    /// The protocol fees of a market that can be claimed in a token.
    pub fn claimable_fees(&self, ds: &DataStore, market: Address, token: Address) -> (r: Result<
        u128,
        Failure,
    >)
        ensures
            r == if self@ is None {
                Err::<u128, Failure>(Failure::Fee(Error::NotInitialized))
            } else {
                Ok(ds@.u128_at(fee_key(market, token)))
            },
    {
        self.require_config()?;
        Ok(ds.get_u128(&Key::ClaimableFeeAmount { market, token }))
    }

    /// Sweeps the protocol fees of a market in a token to a receiver, as far as
    /// the pool's balance goes; nothing while the market compounds its fees.
    /// Only a fee keeper may.  Gives what was paid.
    pub fn claim_fees(
        &self,
        ledger: &Ledger,
        roles: &RoleStore,
        ds: &mut DataStore,
        out: &mut Vec<Action>,
        keeper: Address,
        market: Address,
        token: Address,
        receiver: Address,
        pool_balance: i128,
    ) -> (r: Result<u128, Failure>)
        ensures
            match fee_claim(
                self@,
                old(ds)@,
                roles@,
                *ledger,
                keeper,
                market,
                token,
                receiver,
                pool_balance,
            ) {
                Ok(c) => {
                    &&& r == Ok::<u128, Failure>(c.amount)
                    &&& final(ds)@ == c.store
                    &&& final(out)@ == old(out)@ + c.actions
                },
                Err(e) => {
                    &&& r == Err::<u128, Failure>(e)
                    &&& final(ds)@ == old(ds)@
                    &&& final(out)@ == old(out)@
                },
            },
    {
        ledger.require_auth(&keeper)?;
        self.require_config()?;
        if !roles.has_role(&keeper, Role::FeeKeeper) {
            return Err(Failure::Fee(Error::Unauthorized));
        }
        if ds.get_bool(&Key::AutoCompoundFees { market }) {
            assert(out@ + Seq::<Action>::empty() =~= out@);
            return Ok(0);
        }
        let amount: u128 = take_claim(
            ds,
            out,
            Key::ClaimableFeeAmount { market, token },
            market,
            token,
            receiver,
            pool_balance,
        );
        if amount > 0 {
            out.push(
                Action::Publish(
                    Event::FeeClaimed(FeeClaimed { market, token, amount, receiver }),
                ),
            );
        }
        Ok(amount)
    }

    /// Turns the compounding of a market's fees on or off.  Only the admin may.
    pub fn set_auto_compound(
        &self,
        ledger: &Ledger,
        ds: &mut DataStore,
        market: Address,
        enabled: bool,
    ) -> (r: Result<(), Failure>)
        ensures
            r == admin_check(self@, *ledger),
            final(ds)@ == if r is Ok {
                old(ds)@.with_flag(Key::AutoCompoundFees { market }, enabled)
            } else {
                old(ds)@
            },
    {
        self.require_admin(ledger)?;
        ds.put_bool(Key::AutoCompoundFees { market }, enabled);
        Ok(())
    }

    /// Whether a market compounds its fees.
    pub fn is_auto_compound(&self, ds: &DataStore, market: Address) -> (r: Result<bool, Failure>)
        ensures
            r == if self@ is None {
                Err::<bool, Failure>(Failure::Fee(Error::NotInitialized))
            } else {
                Ok(ds@.flag_at(Key::AutoCompoundFees { market }))
            },
    {
        self.require_config()?;
        Ok(ds.get_bool(&Key::AutoCompoundFees { market }))
    }

    /// Asks for the contract's code to be replaced.  Only the admin may.
    pub fn upgrade(&self, ledger: &Ledger, out: &mut Vec<Action>, new_wasm_hash: Bytes32) -> (r:
        Result<(), Failure>)
        ensures
            r == admin_check(self@, *ledger),
            final(out)@ == if r is Ok {
                old(out)@.push(Action::UpdateCurrentContract { wasm_hash: new_wasm_hash })
            } else {
                old(out)@
            },
    {
        self.require_admin(ledger)?;
        out.push(Action::UpdateCurrentContract { wasm_hash: new_wasm_hash });
        Ok(())
    }

    /// The interface fees that a receiver can claim in a token.
    pub fn claimable_ui_fees(&self, ds: &DataStore, token: Address, ui_receiver: Address) -> (r:
        Result<u128, Failure>)
        ensures
            r == if self@ is None {
                Err::<u128, Failure>(Failure::Fee(Error::NotInitialized))
            } else {
                Ok(ds@.u128_at(ui_fee_key(token, ui_receiver)))
            },
    {
        self.require_config()?;
        Ok(ds.get_u128(&Key::ClaimableUiFeeAmount { token, ui_receiver }))
    }

    /// Adds to the interface fees of a receiver.  Only a controller may.
    pub fn accrue_ui_fee(
        &self,
        ledger: &Ledger,
        roles: &RoleStore,
        ds: &mut DataStore,
        out: &mut Vec<Action>,
        controller: Address,
        token: Address,
        ui_receiver: Address,
        amount: u128,
    ) -> (r: Result<(), Failure>)
        ensures
            match ui_fee_accrued(
                self@,
                old(ds)@,
                roles@,
                *ledger,
                controller,
                token,
                ui_receiver,
                amount,
            ) {
                Ok(s) => {
                    &&& r == Ok::<(), Failure>(())
                    &&& final(ds)@ == s
                    &&& final(out)@ == old(out)@.push(
                        Action::Publish(
                            Event::UiFeeAccrued(UiFeeAccrued { ui_receiver, token, amount }),
                        ),
                    )
                },
                Err(e) => {
                    &&& r == Err::<(), Failure>(e)
                    &&& final(ds)@ == old(ds)@
                    &&& final(out)@ == old(out)@
                },
            },
    {
        ledger.require_auth(&controller)?;
        self.require_config()?;
        if !roles.has_role(&controller, Role::Controller) {
            return Err(Failure::Fee(Error::Unauthorized));
        }
        if amount == 0 {
            return Err(Failure::Fee(Error::InvalidAmount));
        }
        ds.apply_delta_to_u128(
            Key::ClaimableUiFeeAmount { token, ui_receiver },
            math::to_signed(amount),
        )?;
        out.push(
            Action::Publish(Event::UiFeeAccrued(UiFeeAccrued { ui_receiver, token, amount })),
        );
        Ok(())
    }

    /// Claims the interface fees of the calling receiver out of a market's pool,
    /// as far as the pool's balance goes.  Gives what was paid.
    pub fn claim_ui_fees(
        &self,
        ledger: &Ledger,
        ds: &mut DataStore,
        out: &mut Vec<Action>,
        ui_receiver: Address,
        market: Address,
        token: Address,
        pool_balance: i128,
    ) -> (r: Result<u128, Failure>)
        ensures
            match ui_fee_claim(
                self@,
                old(ds)@,
                *ledger,
                ui_receiver,
                market,
                token,
                pool_balance,
            ) {
                Ok(c) => {
                    &&& r == Ok::<u128, Failure>(c.amount)
                    &&& final(ds)@ == c.store
                    &&& final(out)@ == old(out)@ + c.actions
                },
                Err(e) => {
                    &&& r == Err::<u128, Failure>(e)
                    &&& final(ds)@ == old(ds)@
                    &&& final(out)@ == old(out)@
                },
            },
    {
        ledger.require_auth(&ui_receiver)?;
        self.require_config()?;
        let key = Key::ClaimableUiFeeAmount { token, ui_receiver };
        if safe_transfer_amount(ds.get_u128(&key), pool_balance) == 0 {
            return Err(Failure::Fee(Error::NothingToClaim));
        }
        let amount: u128 = take_claim(ds, out, key, market, token, ui_receiver, pool_balance);
        out.push(
            Action::Publish(Event::UiFeeClaimed(UiFeeClaimed { ui_receiver, token, amount })),
        );
        Ok(amount)
    }

    /// Claims the funding fees of the calling account out of a market's pool, as
    /// far as the pool's balance goes.  Gives what was paid.
    pub fn claim_funding_fees(
        &self,
        ledger: &Ledger,
        ds: &mut DataStore,
        out: &mut Vec<Action>,
        account: Address,
        market: Address,
        token: Address,
        pool_balance: i128,
    ) -> (r: Result<u128, Failure>)
        ensures
            match funding_claim(
                self@,
                old(ds)@,
                *ledger,
                account,
                market,
                token,
                pool_balance,
            ) {
                Ok(c) => {
                    &&& r == Ok::<u128, Failure>(c.amount)
                    &&& final(ds)@ == c.store
                    &&& final(out)@ == old(out)@ + c.actions
                },
                Err(e) => {
                    &&& r == Err::<u128, Failure>(e)
                    &&& final(ds)@ == old(ds)@
                    &&& final(out)@ == old(out)@
                },
            },
    {
        ledger.require_auth(&account)?;
        self.require_config()?;
        let amount: u128 = take_claim(
            ds,
            out,
            Key::ClaimableFundingAmount { market, token, account },
            market,
            token,
            account,
            pool_balance,
        );
        if amount > 0 {
            out.push(
                Action::Publish(
                    Event::FundingFeeClaimed(FundingFeeClaimed { account, market, token, amount }),
                ),
            );
        }
        Ok(amount)
    }

    /// The interface fee factor of a receiver; zero where none was set.
    pub fn get_ui_fee_factor(&self, ds: &DataStore, ui_receiver: Address) -> (r: Result<
        u128,
        Failure,
    >)
        ensures
            r == if self@ is None {
                Err::<u128, Failure>(Failure::Fee(Error::NotInitialized))
            } else {
                Ok(ds@.u128_at(Key::UiFeeFactor { ui_receiver }))
            },
    {
        self.require_config()?;
        Ok(ds.get_u128(&Key::UiFeeFactor { ui_receiver }))
    }

    /// Sets the interface fee factor of a receiver, to at most the whole.  Only
    /// the admin may.
    pub fn set_ui_fee_factor(
        &self,
        ledger: &Ledger,
        ds: &mut DataStore,
        out: &mut Vec<Action>,
        ui_receiver: Address,
        factor: u128,
    ) -> (r: Result<(), Failure>)
        ensures
            r == match admin_check(self@, *ledger) {
                Err(e) => Err::<(), Failure>(e),
                Ok(_) => if factor > FLOAT_PRECISION {
                    Err(Failure::Fee(Error::InvalidAmount))
                } else {
                    Ok(())
                },
            },
            final(ds)@ == if r is Ok {
                old(ds)@.with_u128(Key::UiFeeFactor { ui_receiver }, factor)
            } else {
                old(ds)@
            },
            final(out)@ == if r is Ok {
                old(out)@.push(
                    Action::Publish(
                        Event::UiFeeFactorSet(UiFeeFactorSet { ui_receiver, factor }),
                    ),
                )
            } else {
                old(out)@
            },
    {
        self.require_admin(ledger)?;
        if factor > FLOAT_PRECISION as u128 {
            return Err(Failure::Fee(Error::InvalidAmount));
        }
        ds.put_u128(Key::UiFeeFactor { ui_receiver }, factor);
        out.push(Action::Publish(Event::UiFeeFactorSet(UiFeeFactorSet { ui_receiver, factor })));
        Ok(())
    }
}

// ---------------------------------------------------------------------------
// Laws
// ---------------------------------------------------------------------------

/// What is paid and what stays claimable add up to what was claimable, and no
/// more is paid than the pool holds.
pub proof fn claims_conserve_fees(
    s: Store,
    key: Key,
    market: Address,
    token: Address,
    receiver: Address,
    pool_balance: i128,
)
    ensures
        ({
            let c = claim_of(s, key, market, token, receiver, pool_balance);
            &&& c.amount + c.store.u128_at(key) == s.u128_at(key)
            &&& c.amount <= math::at_least_zero(pool_balance as int)
            &&& forall|other: Key| other != key ==> c.store.u128_at(other) == s.u128_at(other)
        }),
{
}

/// A claim that the pool can pay in full leaves nothing behind: claiming again
/// pays nothing.
pub proof fn second_claim_pays_nothing(
    s: Store,
    key: Key,
    market: Address,
    token: Address,
    receiver: Address,
    pool_balance: i128,
    balance_then: i128,
)
    requires
        s.u128_at(key) <= pool_balance,
    ensures
        ({
            let c = claim_of(s, key, market, token, receiver, pool_balance);
            &&& c.amount == s.u128_at(key)
            &&& claim_of(c.store, key, market, token, receiver, balance_then).amount == 0
        }),
{
}

/// While a market compounds its fees, no fee leaves its pool and what was
/// claimable stays so.
pub proof fn compounding_keeps_the_fees(
    config: Option<Config>,
    s: Store,
    roles: Set<Grant>,
    ledger: Ledger,
    keeper: Address,
    market: Address,
    token: Address,
    receiver: Address,
    pool_balance: i128,
)
    requires
        s.flag_at(Key::AutoCompoundFees { market }),
    ensures
        fee_claim(
            config,
            s,
            roles,
            ledger,
            keeper,
            market,
            token,
            receiver,
            pool_balance,
        ) matches Ok(c) ==> c.amount == 0 && c.store == s && c.actions.len() == 0,
{
}

/// Accruing two interface fees one after the other makes their sum claimable.
pub proof fn interface_fees_add_up(
    config: Option<Config>,
    s: Store,
    roles: Set<Grant>,
    ledger: Ledger,
    controller: Address,
    token: Address,
    ui_receiver: Address,
    first: u128,
    second: u128,
)
    requires
        first <= i128::MAX,
        second <= i128::MAX,
    ensures
        ui_fee_accrued(config, s, roles, ledger, controller, token, ui_receiver, first) matches Ok(
            t,
        ) ==> ui_fee_accrued(
            config,
            t,
            roles,
            ledger,
            controller,
            token,
            ui_receiver,
            second,
        ) matches Ok(u) ==> u.u128_at(ui_fee_key(token, ui_receiver)) == s.u128_at(
            ui_fee_key(token, ui_receiver),
        ) + first + second,
{
}

/// The interface fees of one receiver are out of reach of every other.
pub proof fn interface_fees_are_kept_apart(
    config: Option<Config>,
    s: Store,
    ledger: Ledger,
    ui_receiver: Address,
    market: Address,
    token: Address,
    pool_balance: i128,
    other: Address,
)
    requires
        other != ui_receiver,
    ensures
        ui_fee_claim(config, s, ledger, ui_receiver, market, token, pool_balance) matches Ok(c)
            ==> ledger.authorised(ui_receiver) && c.store.u128_at(ui_fee_key(token, other))
            == s.u128_at(ui_fee_key(token, other)),
{
}

} // verus!
