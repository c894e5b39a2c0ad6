//! A faucet that hands out test tokens.

use crate::actions::{Action, Event};
use crate::failure::Failure;
use crate::ledger::Ledger;
use crate::table::{Table, TableKey};
use crate::types::Address;
use vstd::prelude::*;

verus! {

/// Why the faucet rejects a call.
#[derive(Clone, Copy, Debug, PartialEq, Eq, Structural)]
pub enum Error {
    AlreadyInitialized,
    NotInitialized,
    Unauthorized,
    TokenNotEnabled,
    InvalidAmount,
    ClaimTooSoon,
}

/// What the faucet publishes.
#[derive(Clone, Copy, Debug, PartialEq, Eq, Structural)]
pub enum FaucetEvent {
    Cooldown { cooldown_ledgers: u32 },
    TokenSet { token: Address, claim_amount: i128 },
    TokenRemoved { token: Address },
    Claim { account: Address, token: Address, amount: i128 },
}

/// Names the claims of an account for a token.
#[derive(Clone, Copy, Debug, PartialEq, Eq, Structural)]
pub struct ClaimKey {
    pub account: Address,
    pub token: Address,
}

impl TableKey for ClaimKey {
    type Id = ClaimKey;

    open spec fn id(&self) -> ClaimKey {
        *self
    }

    fn same(&self, other: &Self) -> (r: bool) {
        *self == *other
    }
}

/// The admin of the faucet and the ledgers that must pass between two claims.
#[derive(Clone, Copy, Debug, PartialEq, Eq, Structural)]
pub struct Config {
    pub admin: Address,
    pub cooldown_ledgers: u32,
}

/// The state of the faucet, as mathematical values.
#[verifier::ext_equal]
pub struct Faucet {
    pub config: Option<Config>,
    pub amounts: Map<Address, i128>,
    pub last_claims: Map<ClaimKey, u32>,
}

/// The faucet.
pub struct TestFaucet {
    config: Option<Config>,
    amounts: Table<Address, i128>,
    last_claims: Table<ClaimKey, u32>,
}

impl View for TestFaucet {
    type V = Faucet;

    closed spec fn view(&self) -> Faucet {
        Faucet {
            config: self.config,
            amounts: self.amounts@,
            last_claims: self.last_claims@,
        }
    }
}

/// What a claim of a token hands out; nothing where it is not enabled.
pub open spec fn amount_of(f: Faucet, token: Address) -> i128 {
    if f.amounts.dom().contains(token) {
        f.amounts[token]
    } else {
        0
    }
}

/// The ledger in which an account last claimed a token; zero where it never did.
pub open spec fn last_claim_of(f: Faucet, account: Address, token: Address) -> u32 {
    let key = ClaimKey { account, token };
    if f.last_claims.dom().contains(key) {
        f.last_claims[key]
    } else {
        0
    }
}

/// The cooldown since the last claim of an account is not over.
pub open spec fn cooling_down(
    f: Faucet,
    cooldown_ledgers: u32,
    account: Address,
    token: Address,
    sequence: u32,
) -> bool {
    let last = last_claim_of(f, account, token);
    let over = if last + cooldown_ledgers > u32::MAX {
        u32::MAX as int
    } else {
        last + cooldown_ledgers
    };
    cooldown_ledgers != 0 && last != 0 && sequence < over
}

/// The faucet with a claim on record.
pub open spec fn recorded(f: Faucet, account: Address, token: Address, sequence: u32) -> Faucet {
    Faucet { last_claims: f.last_claims.insert(ClaimKey { account, token }, sequence), ..f }
}

/// What a claim asks of the world outside: mint the tokens, publish the event.
pub open spec fn claim_actions(
    faucet: Address,
    account: Address,
    token: Address,
    amount: i128,
) -> Seq<Action> {
    seq![
        Action::TokenMint { token, minter: faucet, account, amount },
        Action::Publish(Event::Faucet(FaucetEvent::Claim { account, token, amount })),
    ]
}

/// What a claim by an account that authorised it hands out, or why it is
/// rejected.
pub open spec fn claim_check(f: Faucet, account: Address, token: Address, sequence: u32) -> Result<
    i128,
    Failure,
> {
    if amount_of(f, token) <= 0 {
        Err(Failure::Faucet(Error::TokenNotEnabled))
    } else {
        match f.config {
            None => Err(Failure::Faucet(Error::NotInitialized)),
            Some(config) => if cooling_down(
                f,
                config.cooldown_ledgers,
                account,
                token,
                sequence,
            ) {
                Err(Failure::Faucet(Error::ClaimTooSoon))
            } else {
                Ok(amount_of(f, token))
            },
        }
    }
}

/// What `claim` hands out, or why it is rejected.
pub open spec fn claim_result(f: Faucet, ledger: Ledger, account: Address, token: Address) -> Result<
    i128,
    Failure,
> {
    if !ledger.authorised(account) {
        Err(Failure::MissingAuthorisation)
    } else {
        claim_check(f, account, token, ledger.sequence)
    }
}

/// What `claim_many` does.
pub struct Claims {
    pub amounts: Seq<i128>,
    pub faucet: Faucet,
    pub actions: Seq<Action>,
}

/// What claiming the first `n` tokens of a list comes to, one after the other.
pub open spec fn claims(
    f: Faucet,
    ledger: Ledger,
    account: Address,
    tokens: Seq<Address>,
    n: nat,
) -> Result<Claims, Failure>
    decreases n,
{
    if n == 0 {
        Ok(Claims { amounts: Seq::empty(), faucet: f, actions: Seq::empty() })
    } else {
        match claims(f, ledger, account, tokens, (n - 1) as nat) {
            Err(e) => Err(e),
            Ok(c) => {
                let token = tokens[n - 1];
                match claim_result(c.faucet, ledger, account, token) {
                    Err(e) => Err(e),
                    Ok(amount) => Ok(
                        Claims {
                            amounts: c.amounts.push(amount),
                            faucet: recorded(c.faucet, account, token, ledger.sequence),
                            actions: c.actions + claim_actions(
                                ledger.current_contract,
                                account,
                                token,
                                amount,
                            ),
                        },
                    ),
                }
            },
        }
    }
}

/// The caller is the admin and authorised the call.
pub open spec fn admin_check(f: Faucet, ledger: Ledger, caller: Address) -> Result<(), Failure> {
    if !ledger.authorised(caller) {
        Err(Failure::MissingAuthorisation)
    } else {
        match f.config {
            None => Err(Failure::Faucet(Error::NotInitialized)),
            Some(config) => if caller != config.admin {
                Err(Failure::Faucet(Error::Unauthorized))
            } else {
                Ok(())
            },
        }
    }
}

proof fn lemma_claims_fail_early(
    f: Faucet,
    ledger: Ledger,
    account: Address,
    tokens: Seq<Address>,
    n: nat,
    m: nat,
)
    requires
        n <= m,
        claims(f, ledger, account, tokens, n) is Err,
    ensures
        claims(f, ledger, account, tokens, m) == claims(f, ledger, account, tokens, n),
    decreases m,
{
    if n < m {
        lemma_claims_fail_early(f, ledger, account, tokens, n, (m - 1) as nat);
    }
}

impl TestFaucet {
    /// A faucet that is not set up yet.
    pub fn new() -> (r: Self)
        ensures
            r@ == (Faucet { config: None, amounts: Map::empty(), last_claims: Map::empty() }),
    {
        TestFaucet { config: None, amounts: Table::new(), last_claims: Table::new() }
    }

    /// Sets the faucet up, once.
    pub fn initialize(&mut self, admin: Address, cooldown_ledgers: u32) -> (r: Result<(), Failure>)
        ensures
            r == if old(self)@.config is Some {
                Err::<(), Failure>(Failure::Faucet(Error::AlreadyInitialized))
            } else {
                Ok(())
            },
            final(self)@ == if r is Ok {
                Faucet { config: Some(Config { admin, cooldown_ledgers }), ..old(self)@ }
            } else {
                old(self)@
            },
    {
        if self.config.is_some() {
            return Err(Failure::Faucet(Error::AlreadyInitialized));
        }
        self.config = Some(Config { admin, cooldown_ledgers });
        Ok(())
    }

    /// The configuration.
    fn require_config(&self) -> (r: Result<Config, Failure>)
        ensures
            r == match self@.config {
                Some(config) => Ok::<Config, Failure>(config),
                None => Err(Failure::Faucet(Error::NotInitialized)),
            },
    {
        match self.config {
            Some(config) => Ok(config),
            None => Err(Failure::Faucet(Error::NotInitialized)),
        }
    }

    /// The admin.
    pub fn admin(&self) -> (r: Result<Address, Failure>)
        ensures
            r == match self@.config {
                Some(config) => Ok::<Address, Failure>(config.admin),
                None => Err(Failure::Faucet(Error::NotInitialized)),
            },
    {
        let config = self.require_config()?;
        Ok(config.admin)
    }

    /// The ledgers that must pass between two claims.
    pub fn cooldown_ledgers(&self) -> (r: Result<u32, Failure>)
        ensures
            r == match self@.config {
                Some(config) => Ok::<u32, Failure>(config.cooldown_ledgers),
                None => Err(Failure::Faucet(Error::NotInitialized)),
            },
    {
        let config = self.require_config()?;
        Ok(config.cooldown_ledgers)
    }

    /// Passes when the caller is the admin and authorised the call.
    fn require_admin(&self, ledger: &Ledger, caller: &Address) -> (r: Result<(), Failure>)
        ensures
            r == admin_check(self@, *ledger, *caller),
    {
        ledger.require_auth(caller)?;
        let config = self.require_config()?;
        if *caller != config.admin {
            return Err(Failure::Faucet(Error::Unauthorized));
        }
        Ok(())
    }

    /// Sets the ledgers that must pass between two claims.  Only the admin may.
    pub fn set_cooldown(
        &mut self,
        ledger: &Ledger,
        out: &mut Vec<Action>,
        caller: Address,
        cooldown_ledgers: u32,
    ) -> (r: Result<(), Failure>)
        ensures
            r == admin_check(old(self)@, *ledger, caller),
            final(self)@ == if r is Ok {
                Faucet {
                    config: Some(Config { admin: caller, cooldown_ledgers }),
                    ..old(self)@
                }
            } else {
                old(self)@
            },
            final(out)@ == if r is Ok {
                old(out)@.push(
                    Action::Publish(Event::Faucet(FaucetEvent::Cooldown { cooldown_ledgers })),
                )
            } else {
                old(out)@
            },
    {
        self.require_admin(ledger, &caller)?;
        self.config = Some(Config { admin: caller, cooldown_ledgers });
        out.push(Action::Publish(Event::Faucet(FaucetEvent::Cooldown { cooldown_ledgers })));
        Ok(())
    }

    /// Enables a token and sets what a claim of it hands out.  Only the admin
    /// may.
    pub fn set_token(
        &mut self,
        ledger: &Ledger,
        out: &mut Vec<Action>,
        caller: Address,
        token: Address,
        claim_amount: i128,
    ) -> (r: Result<(), Failure>)
        ensures
            r == match admin_check(old(self)@, *ledger, caller) {
                Err(e) => Err::<(), Failure>(e),
                Ok(_) => if claim_amount <= 0 {
                    Err(Failure::Faucet(Error::InvalidAmount))
                } else {
                    Ok(())
                },
            },
            final(self)@ == if r is Ok {
                Faucet { amounts: old(self)@.amounts.insert(token, claim_amount), ..old(self)@ }
            } else {
                old(self)@
            },
            final(out)@ == if r is Ok {
                old(out)@.push(
                    Action::Publish(
                        Event::Faucet(FaucetEvent::TokenSet { token, claim_amount }),
                    ),
                )
            } else {
                old(out)@
            },
    {
        self.require_admin(ledger, &caller)?;
        if claim_amount <= 0 {
            return Err(Failure::Faucet(Error::InvalidAmount));
        }
        self.amounts.set(token, claim_amount);
        out.push(Action::Publish(Event::Faucet(FaucetEvent::TokenSet { token, claim_amount })));
        Ok(())
    }

    /// Disables a token.  Only the admin may.
    pub fn remove_token(
        &mut self,
        ledger: &Ledger,
        out: &mut Vec<Action>,
        caller: Address,
        token: Address,
    ) -> (r: Result<(), Failure>)
        ensures
            r == admin_check(old(self)@, *ledger, caller),
            final(self)@ == if r is Ok {
                Faucet { amounts: old(self)@.amounts.remove(token), ..old(self)@ }
            } else {
                old(self)@
            },
            final(out)@ == if r is Ok {
                old(out)@.push(
                    Action::Publish(Event::Faucet(FaucetEvent::TokenRemoved { token })),
                )
            } else {
                old(out)@
            },
    {
        self.require_admin(ledger, &caller)?;
        self.amounts.remove(&token);
        out.push(Action::Publish(Event::Faucet(FaucetEvent::TokenRemoved { token })));
        Ok(())
    }

    /// What a claim of a token hands out.
    pub fn claim_amount(&self, token: &Address) -> (r: i128)
        ensures
            r == amount_of(self@, *token),
    {
        match self.amounts.get(token) {
            Some(amount) => *amount,
            None => 0,
        }
    }

    /// The ledger in which an account last claimed a token.
    pub fn last_claim_ledger(&self, account: &Address, token: &Address) -> (r: u32)
        ensures
            r == last_claim_of(self@, *account, *token),
    {
        match self.last_claims.get(&ClaimKey { account: *account, token: *token }) {
            Some(last) => *last,
            None => 0,
        }
    }

    /// Checks a claim and gives what it hands out.
    fn check_claim(&self, ledger: &Ledger, account: &Address, token: &Address) -> (r: Result<
        i128,
        Failure,
    >)
        ensures
            r == claim_result(self@, *ledger, *account, *token),
    {
        ledger.require_auth(account)?;
        let amount: i128 = self.claim_amount(token);
        if amount <= 0 {
            return Err(Failure::Faucet(Error::TokenNotEnabled));
        }
        let config = self.require_config()?;
        let cooldown: u32 = config.cooldown_ledgers;
        let last: u32 = self.last_claim_ledger(account, token);
        if cooldown != 0 && last != 0 && ledger.sequence < last.saturating_add(cooldown) {
            return Err(Failure::Faucet(Error::ClaimTooSoon));
        }
        Ok(amount)
    }

    /// Hands out a token to an account that asks for it, once per cooldown.
    pub fn claim(
        &mut self,
        ledger: &Ledger,
        out: &mut Vec<Action>,
        account: Address,
        token: Address,
    ) -> (r: Result<i128, Failure>)
        ensures
            r == claim_result(old(self)@, *ledger, account, token),
            final(self)@ == if r is Ok {
                recorded(old(self)@, account, token, ledger.sequence)
            } else {
                old(self)@
            },
            final(out)@ == match r {
                Ok(amount) => old(out)@ + claim_actions(
                    ledger.current_contract,
                    account,
                    token,
                    amount,
                ),
                Err(_) => old(out)@,
            },
    {
        let amount: i128 = self.check_claim(ledger, &account, &token)?;
        out.push(
            Action::TokenMint { token, minter: ledger.current_contract, account, amount },
        );
        self.last_claims.set(ClaimKey { account, token }, ledger.sequence);
        out.push(Action::Publish(Event::Faucet(FaucetEvent::Claim { account, token, amount })));
        assert(out@ =~= old(out)@ + claim_actions(
            ledger.current_contract,
            account,
            token,
            amount,
        ));
        Ok(amount)
    }

    /// Hands out several tokens, one after the other; all of them or none.
    pub fn claim_many(
        &mut self,
        ledger: &Ledger,
        out: &mut Vec<Action>,
        account: Address,
        tokens: &Vec<Address>,
    ) -> (r: Result<Vec<i128>, Failure>)
        ensures
            match claims(old(self)@, *ledger, account, tokens@, tokens@.len()) {
                Ok(c) => {
                    &&& r is Ok
                    &&& r->Ok_0@ == c.amounts
                    &&& final(self)@ == c.faucet
                    &&& final(out)@ == old(out)@ + c.actions
                },
                Err(e) => {
                    &&& r is Err
                    &&& r->Err_0 == e
                    &&& final(self)@ == old(self)@
                    &&& final(out)@ == old(out)@
                },
            },
    {
        let mut work = TestFaucet {
            config: self.config,
            amounts: self.amounts.duplicate(),
            last_claims: self.last_claims.duplicate(),
        };
        let mut actions: Vec<Action> = Vec::new();
        let mut amounts: Vec<i128> = Vec::new();
        let ghost start = self@;
        let mut i: usize = 0;
        while i < tokens.len()
            invariant
                i <= tokens.len(),
                start == self@,
                start == old(self)@,
                out@ == old(out)@,
                claims(start, *ledger, account, tokens@, i as nat) == Ok::<Claims, Failure>(
                    Claims { amounts: amounts@, faucet: work@, actions: actions@ },
                ),
            decreases tokens.len() - i,
        {
            match work.claim(ledger, &mut actions, account, tokens[i]) {
                Ok(amount) => {
                    amounts.push(amount);
                },
                Err(e) => {
                    proof {
                        lemma_claims_fail_early(
                            start,
                            *ledger,
                            account,
                            tokens@,
                            (i + 1) as nat,
                            tokens@.len(),
                        );
                    }
                    return Err(e);
                },
            }
            i = i + 1;
        }
        *self = work;
        out.append(&mut actions);
        Ok(amounts)
    }
}

// ---------------------------------------------------------------------------
// Laws
// ---------------------------------------------------------------------------

/// With a cooldown, an account cannot claim the same token twice in a ledger, and
/// not before the cooldown is over.
pub proof fn cooldown_separates_claims(
    f: Faucet,
    ledger: Ledger,
    account: Address,
    token: Address,
    later: u32,
)
    requires
        f.config matches Some(config) && config.cooldown_ledgers > 0 && ledger.sequence > 0
            && ledger.sequence <= later < ledger.sequence + config.cooldown_ledgers && later
            < u32::MAX,
    ensures
        claim_result(f, ledger, account, token) is Ok ==> claim_check(
            recorded(f, account, token, ledger.sequence),
            account,
            token,
            later,
        ) == Err::<i128, Failure>(Failure::Faucet(Error::ClaimTooSoon)),
{
}

/// Once the cooldown is over, the account can claim again.
pub proof fn claims_resume_after_the_cooldown(
    f: Faucet,
    ledger: Ledger,
    account: Address,
    token: Address,
    later: u32,
)
    requires
        f.config matches Some(config) && ledger.sequence + config.cooldown_ledgers <= later,
    ensures
        claim_result(f, ledger, account, token) matches Ok(amount) ==> claim_check(
            recorded(f, account, token, ledger.sequence),
            account,
            token,
            later,
        ) == Ok::<i128, Failure>(amount),
{
}

/// One account's claims never delay another's.
pub proof fn claims_are_independent(
    f: Faucet,
    account: Address,
    token: Address,
    sequence: u32,
    other: Address,
    other_token: Address,
    later: u32,
)
    requires
        other != account || other_token != token,
    ensures
        claim_check(recorded(f, account, token, sequence), other, other_token, later)
            == claim_check(f, other, other_token, later),
{
}

} // verus!
