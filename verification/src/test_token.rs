//! A mintable token for test markets.

use crate::actions::{Action, Event};
use crate::failure::Failure;
use crate::ledger::Ledger;
use crate::math;
use crate::table::{Table, TableKey};
use crate::types::Address;
use vstd::prelude::*;

verus! {

/// Why the token rejects a call.
#[derive(Clone, Copy, Debug, PartialEq, Eq, Structural)]
pub enum Error {
    AlreadyInitialized,
    NotInitialized,
    Unauthorized,
    InsufficientBalance,
    InsufficientAllowance,
    NegativeAmount,
    AllowanceExpired,
    Paused,
}

/// What the token publishes.
#[derive(Clone, Copy, Debug, PartialEq, Eq, Structural)]
pub enum TokenEvent {
    Pause { caller: Address },
    Unpause { caller: Address },
    Owner { caller: Address, new_owner: Address },
    Approve { from: Address, spender: Address, amount: i128, expiration_ledger: u32 },
    Transfer { from: Address, to: Address, amount: i128 },
    TransferFrom { spender: Address, from: Address, to: Address, amount: i128 },
    Mint { caller: Address, account: Address, amount: i128 },
    Burn { from: Address, amount: i128 },
    BurnFrom { spender: Address, from: Address, amount: i128 },
}

/// Names an allowance.
#[derive(Clone, Copy, Debug, PartialEq, Eq, Structural)]
pub struct AllowanceKey {
    pub from: Address,
    pub spender: Address,
}

impl TableKey for AllowanceKey {
    type Id = AllowanceKey;

    open spec fn id(&self) -> AllowanceKey {
        *self
    }

    fn same(&self, other: &Self) -> (r: bool) {
        *self == *other
    }
}

/// An allowance: how much, and up to which ledger.
#[derive(Clone, Copy, Debug, PartialEq, Eq, Structural)]
pub struct AllowanceData {
    pub amount: i128,
    pub expiration_ledger: u32,
}

/// The state of the token, as mathematical values.
#[verifier::ext_equal]
pub struct Token {
    pub owner: Option<Address>,
    pub decimals: u32,
    pub name: Seq<char>,
    pub symbol: Seq<char>,
    pub is_paused: bool,
    pub balances: Map<Address, i128>,
    pub allowances: Map<AllowanceKey, AllowanceData>,
    pub total_supply: i128,
}

/// The token.
pub struct TestToken {
    owner: Option<Address>,
    decimals: u32,
    name: String,
    symbol: String,
    is_paused: bool,
    balances: Table<Address, i128>,
    allowances: Table<AllowanceKey, AllowanceData>,
    total_supply: i128,
}

impl View for TestToken {
    type V = Token;

    closed spec fn view(&self) -> Token {
        Token {
            owner: self.owner,
            decimals: self.decimals,
            name: self.name@,
            symbol: self.symbol@,
            is_paused: self.is_paused,
            balances: self.balances@,
            allowances: self.allowances@,
            total_supply: self.total_supply,
        }
    }
}

/// The balance of an account; zero where it never had one.
pub open spec fn balance_of(balances: Map<Address, i128>, id: Address) -> i128 {
    if balances.dom().contains(id) {
        balances[id]
    } else {
        0
    }
}

/// The stored allowance; one of nothing that ended with ledger zero where there
/// is none.
pub open spec fn stored_allowance(t: Token, from: Address, spender: Address) -> AllowanceData {
    let key = AllowanceKey { from, spender };
    if t.allowances.dom().contains(key) {
        t.allowances[key]
    } else {
        AllowanceData { amount: 0, expiration_ledger: 0 }
    }
}

/// What a spender may still spend in a ledger.
pub open spec fn allowance_of(t: Token, from: Address, spender: Address, sequence: u32) -> i128 {
    let key = AllowanceKey { from, spender };
    if !t.allowances.dom().contains(key) || sequence > t.allowances[key].expiration_ledger {
        0
    } else {
        t.allowances[key].amount
    }
}

// ---------------------------------------------------------------------------
// Steps
// ---------------------------------------------------------------------------

/// The token is not paused.
pub open spec fn running(t: Token) -> Result<(), Failure> {
    if t.is_paused {
        Err(Failure::Token(Error::Paused))
    } else {
        Ok(())
    }
}

/// The caller is the owner and authorised the call.
pub open spec fn owned_by(t: Token, ledger: Ledger, caller: Address) -> Result<(), Failure> {
    if !ledger.authorised(caller) {
        Err(Failure::MissingAuthorisation)
    } else {
        match t.owner {
            None => Err(Failure::Token(Error::NotInitialized)),
            Some(owner) => if caller != owner {
                Err(Failure::Token(Error::Unauthorized))
            } else {
                Ok(())
            },
        }
    }
}

/// A call by an account that may call and hands over an amount: the token runs,
/// the account signed, and the amount is not negative.
pub open spec fn may_move(t: Token, ledger: Ledger, id: Address, amount: i128) -> Result<
    (),
    Failure,
> {
    if t.is_paused {
        Err(Failure::Token(Error::Paused))
    } else if !ledger.authorised(id) {
        Err(Failure::MissingAuthorisation)
    } else if amount < 0 {
        Err(Failure::Token(Error::NegativeAmount))
    } else {
        Ok(())
    }
}

/// The balances with an amount taken from an account.
pub open spec fn spent(balances: Map<Address, i128>, from: Address, amount: i128) -> Result<
    Map<Address, i128>,
    Failure,
> {
    if balance_of(balances, from) < amount {
        Err(Failure::Token(Error::InsufficientBalance))
    } else {
        Ok(balances.insert(from, (balance_of(balances, from) - amount) as i128))
    }
}

/// The balances with an amount given to an account.
pub open spec fn received(balances: Map<Address, i128>, to: Address, amount: i128) -> Result<
    Map<Address, i128>,
    Failure,
> {
    if !math::fits(balance_of(balances, to) + amount) {
        Err(Failure::Overflow)
    } else {
        Ok(balances.insert(to, (balance_of(balances, to) + amount) as i128))
    }
}

/// The balances with an amount moved from one account to another.
pub open spec fn moved(
    balances: Map<Address, i128>,
    from: Address,
    to: Address,
    amount: i128,
) -> Result<Map<Address, i128>, Failure> {
    match spent(balances, from, amount) {
        Err(e) => Err(e),
        Ok(b) => received(b, to, amount),
    }
}

/// The allowances with an amount of one used up.
pub open spec fn allowance_spent(
    t: Token,
    from: Address,
    spender: Address,
    amount: i128,
    sequence: u32,
) -> Result<Map<AllowanceKey, AllowanceData>, Failure> {
    let key = AllowanceKey { from, spender };
    let data = stored_allowance(t, from, spender);
    if sequence > data.expiration_ledger {
        Err(Failure::Token(Error::AllowanceExpired))
    } else if data.amount < amount {
        Err(Failure::Token(Error::InsufficientAllowance))
    } else if data.amount == amount {
        Ok(t.allowances.remove(key))
    } else {
        Ok(
            t.allowances.insert(
                key,
                AllowanceData { amount: (data.amount - amount) as i128, ..data },
            ),
        )
    }
}

// ---------------------------------------------------------------------------
// What the calls do
// ---------------------------------------------------------------------------

/// What `approve` makes of the token, or why it is rejected.
pub open spec fn approved(
    t: Token,
    ledger: Ledger,
    from: Address,
    spender: Address,
    amount: i128,
    expiration_ledger: u32,
) -> Result<Token, Failure> {
    let key = AllowanceKey { from, spender };
    match may_move(t, ledger, from, amount) {
        Err(e) => Err(e),
        Ok(_) => Ok(
            Token {
                allowances: if amount == 0 {
                    t.allowances.remove(key)
                } else {
                    t.allowances.insert(key, AllowanceData { amount, expiration_ledger })
                },
                ..t
            },
        ),
    }
}

/// What `transfer` makes of the token, or why it is rejected.
pub open spec fn transferred(
    t: Token,
    ledger: Ledger,
    from: Address,
    to: Address,
    amount: i128,
) -> Result<Token, Failure> {
    match may_move(t, ledger, from, amount) {
        Err(e) => Err(e),
        Ok(_) => match moved(t.balances, from, to, amount) {
            Err(e) => Err(e),
            Ok(balances) => Ok(Token { balances, ..t }),
        },
    }
}

/// What `transfer_from` makes of the token, or why it is rejected.
pub open spec fn transferred_from(
    t: Token,
    ledger: Ledger,
    spender: Address,
    from: Address,
    to: Address,
    amount: i128,
) -> Result<Token, Failure> {
    match may_move(t, ledger, spender, amount) {
        Err(e) => Err(e),
        Ok(_) => match allowance_spent(t, from, spender, amount, ledger.sequence) {
            Err(e) => Err(e),
            Ok(allowances) => match moved(t.balances, from, to, amount) {
                Err(e) => Err(e),
                Ok(balances) => Ok(Token { balances, allowances, ..t }),
            },
        },
    }
}

/// What `mint` makes of the token, or why it is rejected.
pub open spec fn minted(
    t: Token,
    ledger: Ledger,
    caller: Address,
    account: Address,
    amount: i128,
) -> Result<Token, Failure> {
    match running(t) {
        Err(e) => Err(e),
        Ok(_) => match owned_by(t, ledger, caller) {
            Err(e) => Err(e),
            Ok(_) => if amount < 0 {
                Err(Failure::Token(Error::NegativeAmount))
            } else {
                match received(t.balances, account, amount) {
                    Err(e) => Err(e),
                    Ok(balances) => if !math::fits(t.total_supply + amount) {
                        Err(Failure::Overflow)
                    } else {
                        Ok(
                            Token {
                                balances,
                                total_supply: (t.total_supply + amount) as i128,
                                ..t
                            },
                        )
                    },
                }
            },
        },
    }
}

/// What taking tokens out of existence makes of the token.
pub open spec fn destroyed(t: Token, from: Address, amount: i128) -> Result<Token, Failure> {
    match spent(t.balances, from, amount) {
        Err(e) => Err(e),
        Ok(balances) => if !math::fits(t.total_supply - amount) {
            Err(Failure::Overflow)
        } else {
            Ok(Token { balances, total_supply: (t.total_supply - amount) as i128, ..t })
        },
    }
}

/// What `burn` makes of the token, or why it is rejected.
pub open spec fn burned(t: Token, ledger: Ledger, from: Address, amount: i128) -> Result<
    Token,
    Failure,
> {
    match may_move(t, ledger, from, amount) {
        Err(e) => Err(e),
        Ok(_) => destroyed(t, from, amount),
    }
}

/// What `burn_from` makes of the token, or why it is rejected.
pub open spec fn burned_from(
    t: Token,
    ledger: Ledger,
    spender: Address,
    from: Address,
    amount: i128,
) -> Result<Token, Failure> {
    match may_move(t, ledger, spender, amount) {
        Err(e) => Err(e),
        Ok(_) => match allowance_spent(t, from, spender, amount, ledger.sequence) {
            Err(e) => Err(e),
            Ok(allowances) => match destroyed(t, from, amount) {
                Err(e) => Err(e),
                Ok(u) => Ok(Token { allowances, ..u }),
            },
        },
    }
}

/// A new allowance after a part of it was spent.
enum Spending {
    UsedUp,
    Left(AllowanceData),
}

impl TestToken {
    /// A token that is not set up yet.
    pub fn new() -> (r: Self)
        ensures
            r@ == (Token {
                owner: None,
                decimals: 0,
                name: Seq::empty(),
                symbol: Seq::empty(),
                is_paused: false,
                balances: Map::empty(),
                allowances: Map::empty(),
                total_supply: 0,
            }),
    {
        TestToken {
            owner: None,
            decimals: 0,
            name: String::new(),
            symbol: String::new(),
            is_paused: false,
            balances: Table::new(),
            allowances: Table::new(),
            total_supply: 0,
        }
    }

    /// Sets the token up, once.
    pub fn initialize(&mut self, owner: Address, decimal: u32, name: String, symbol: String) -> (r:
        Result<(), Failure>)
        ensures
            r == if old(self)@.owner is Some {
                Err::<(), Failure>(Failure::Token(Error::AlreadyInitialized))
            } else {
                Ok(())
            },
            final(self)@ == if r is Ok {
                Token {
                    owner: Some(owner),
                    decimals: decimal,
                    name: name@,
                    symbol: symbol@,
                    is_paused: false,
                    total_supply: 0,
                    ..old(self)@
                }
            } else {
                old(self)@
            },
    {
        if self.owner.is_some() {
            return Err(Failure::Token(Error::AlreadyInitialized));
        }
        self.owner = Some(owner);
        self.decimals = decimal;
        self.name = name;
        self.symbol = symbol;
        self.is_paused = false;
        self.total_supply = 0;
        Ok(())
    }

    /// The owner.
    pub fn owner(&self) -> (r: Result<Address, Failure>)
        ensures
            r == match self@.owner {
                Some(owner) => Ok::<Address, Failure>(owner),
                None => Err(Failure::Token(Error::NotInitialized)),
            },
    {
        match self.owner {
            Some(owner) => Ok(owner),
            None => Err(Failure::Token(Error::NotInitialized)),
        }
    }

    /// Whether the token is paused.
    pub fn paused(&self) -> (r: bool)
        ensures
            r == self@.is_paused,
    {
        self.is_paused
    }

    /// Passes when the caller is the owner and authorised the call.
    fn require_owner(&self, ledger: &Ledger, caller: &Address) -> (r: Result<(), Failure>)
        ensures
            r == owned_by(self@, *ledger, *caller),
    {
        ledger.require_auth(caller)?;
        let owner = self.owner()?;
        if *caller != owner {
            return Err(Failure::Token(Error::Unauthorized));
        }
        Ok(())
    }

    /// Passes when the token runs, the account signed and the amount is not
    /// negative.
    fn require_move(&self, ledger: &Ledger, id: &Address, amount: i128) -> (r: Result<(), Failure>)
        ensures
            r == may_move(self@, *ledger, *id, amount),
    {
        if self.is_paused {
            return Err(Failure::Token(Error::Paused));
        }
        ledger.require_auth(id)?;
        if amount < 0 {
            return Err(Failure::Token(Error::NegativeAmount));
        }
        Ok(())
    }

    /// Pauses the token.  Only the owner may.
    pub fn pause(&mut self, ledger: &Ledger, out: &mut Vec<Action>, caller: Address) -> (r: Result<
        (),
        Failure,
    >)
        ensures
            r == owned_by(old(self)@, *ledger, caller),
            final(self)@ == if r is Ok {
                Token { is_paused: true, ..old(self)@ }
            } else {
                old(self)@
            },
            final(out)@ == if r is Ok {
                old(out)@.push(Action::Publish(Event::Token(TokenEvent::Pause { caller })))
            } else {
                old(out)@
            },
    {
        self.require_owner(ledger, &caller)?;
        self.is_paused = true;
        out.push(Action::Publish(Event::Token(TokenEvent::Pause { caller })));
        Ok(())
    }

    /// Lets the token run again.  Only the owner may.
    pub fn unpause(&mut self, ledger: &Ledger, out: &mut Vec<Action>, caller: Address) -> (r: Result<
        (),
        Failure,
    >)
        ensures
            r == owned_by(old(self)@, *ledger, caller),
            final(self)@ == if r is Ok {
                Token { is_paused: false, ..old(self)@ }
            } else {
                old(self)@
            },
            final(out)@ == if r is Ok {
                old(out)@.push(Action::Publish(Event::Token(TokenEvent::Unpause { caller })))
            } else {
                old(out)@
            },
    {
        self.require_owner(ledger, &caller)?;
        self.is_paused = false;
        out.push(Action::Publish(Event::Token(TokenEvent::Unpause { caller })));
        Ok(())
    }

    /// Hands the token to a new owner.  Only the owner may.
    pub fn transfer_owner(
        &mut self,
        ledger: &Ledger,
        out: &mut Vec<Action>,
        caller: Address,
        new_owner: Address,
    ) -> (r: Result<(), Failure>)
        ensures
            r == owned_by(old(self)@, *ledger, caller),
            final(self)@ == if r is Ok {
                Token { owner: Some(new_owner), ..old(self)@ }
            } else {
                old(self)@
            },
            final(out)@ == if r is Ok {
                old(out)@.push(
                    Action::Publish(Event::Token(TokenEvent::Owner { caller, new_owner })),
                )
            } else {
                old(out)@
            },
    {
        self.require_owner(ledger, &caller)?;
        self.owner = Some(new_owner);
        out.push(Action::Publish(Event::Token(TokenEvent::Owner { caller, new_owner })));
        Ok(())
    }

    /// The decimals of the token.
    pub fn decimals(&self) -> (r: Result<u32, Failure>)
        ensures
            r == if self@.owner is Some {
                Ok::<u32, Failure>(self@.decimals)
            } else {
                Err(Failure::Token(Error::NotInitialized))
            },
    {
        self.owner()?;
        Ok(self.decimals)
    }

    /// The name of the token.
    pub fn name(&self) -> (r: Result<&String, Failure>)
        ensures
            match r {
                Ok(name) => self@.owner is Some && name@ == self@.name,
                Err(e) => self@.owner is None && e == Failure::Token(Error::NotInitialized),
            },
    {
        self.owner()?;
        Ok(&self.name)
    }

    /// The symbol of the token.
    pub fn symbol(&self) -> (r: Result<&String, Failure>)
        ensures
            match r {
                Ok(symbol) => self@.owner is Some && symbol@ == self@.symbol,
                Err(e) => self@.owner is None && e == Failure::Token(Error::NotInitialized),
            },
    {
        self.owner()?;
        Ok(&self.symbol)
    }

    /// How many tokens there are.
    pub fn total_supply(&self) -> (r: i128)
        ensures
            r == self@.total_supply,
    {
        self.total_supply
    }

    /// The balance of an account.
    pub fn balance(&self, id: &Address) -> (r: i128)
        ensures
            r == balance_of(self@.balances, *id),
    {
        match self.balances.get(id) {
            Some(amount) => *amount,
            None => 0,
        }
    }

    /// What a spender may still spend.
    pub fn allowance(&self, ledger: &Ledger, from: &Address, spender: &Address) -> (r: i128)
        ensures
            r == allowance_of(self@, *from, *spender, ledger.sequence),
    {
        match self.allowances.get(&AllowanceKey { from: *from, spender: *spender }) {
            None => 0,
            Some(data) => if ledger.sequence > data.expiration_ledger {
                0
            } else {
                data.amount
            },
        }
    }

    /// Lets a spender spend up to an amount, up to a ledger.
    pub fn approve(
        &mut self,
        ledger: &Ledger,
        out: &mut Vec<Action>,
        from: Address,
        spender: Address,
        amount: i128,
        expiration_ledger: u32,
    ) -> (r: Result<(), Failure>)
        ensures
            match approved(old(self)@, *ledger, from, spender, amount, expiration_ledger) {
                Ok(t) => {
                    &&& r == Ok::<(), Failure>(())
                    &&& final(self)@ == t
                    &&& final(out)@ == old(out)@.push(
                        Action::Publish(
                            Event::Token(
                                TokenEvent::Approve { from, spender, amount, expiration_ledger },
                            ),
                        ),
                    )
                },
                Err(e) => {
                    &&& r == Err::<(), Failure>(e)
                    &&& final(self)@ == old(self)@
                    &&& final(out)@ == old(out)@
                },
            },
    {
        self.require_move(ledger, &from, amount)?;
        let key = AllowanceKey { from, spender };
        if amount == 0 {
            self.allowances.remove(&key);
        } else {
            self.allowances.set(key, AllowanceData { amount, expiration_ledger });
        }
        out.push(
            Action::Publish(
                Event::Token(TokenEvent::Approve { from, spender, amount, expiration_ledger }),
            ),
        );
        Ok(())
    }

    /// The balances of two accounts after an amount moves between them.
    fn plan_move(&self, from: &Address, to: &Address, amount: i128) -> (r: Result<
        (i128, i128),
        Failure,
    >)
        requires
            amount >= 0,
        ensures
            match moved(self@.balances, *from, *to, amount) {
                Ok(b) => r is Ok && b == self@.balances.insert(*from, r->Ok_0.0).insert(
                    *to,
                    r->Ok_0.1,
                ),
                Err(e) => r is Err && r->Err_0 == e,
            },
    {
        let held: i128 = self.balance(from);
        if held < amount {
            return Err(Failure::Token(Error::InsufficientBalance));
        }
        let left: i128 = held - amount;
        let other: i128 = if *to == *from {
            left
        } else {
            self.balance(to)
        };
        let grown: i128 = math::plus(other, amount)?;
        Ok((left, grown))
    }

    /// What is left of an allowance after an amount of it is spent.
    fn plan_spending(
        &self,
        ledger: &Ledger,
        from: &Address,
        spender: &Address,
        amount: i128,
    ) -> (r: Result<Spending, Failure>)
        requires
            amount >= 0,
        ensures
            match allowance_spent(self@, *from, *spender, amount, ledger.sequence) {
                Ok(a) => match r {
                    Ok(Spending::UsedUp) => a == self@.allowances.remove(
                        AllowanceKey { from: *from, spender: *spender },
                    ),
                    Ok(Spending::Left(data)) => a == self@.allowances.insert(
                        AllowanceKey { from: *from, spender: *spender },
                        data,
                    ),
                    Err(_) => false,
                },
                Err(e) => r is Err && r->Err_0 == e,
            },
    {
        let data = match self.allowances.get(&AllowanceKey { from: *from, spender: *spender }) {
            Some(data) => *data,
            None => AllowanceData { amount: 0, expiration_ledger: 0 },
        };
        if ledger.sequence > data.expiration_ledger {
            return Err(Failure::Token(Error::AllowanceExpired));
        }
        if data.amount < amount {
            return Err(Failure::Token(Error::InsufficientAllowance));
        }
        if data.amount == amount {
            return Ok(Spending::UsedUp);
        }
        Ok(
            Spending::Left(
                AllowanceData {
                    amount: data.amount - amount,
                    expiration_ledger: data.expiration_ledger,
                },
            ),
        )
    }

    /// Makes a planned change of an allowance.
    fn apply_spending(&mut self, from: Address, spender: Address, spending: Spending)
        ensures
            final(self)@ == (Token {
                allowances: match spending {
                    Spending::UsedUp => old(self)@.allowances.remove(
                        AllowanceKey { from, spender },
                    ),
                    Spending::Left(data) => old(self)@.allowances.insert(
                        AllowanceKey { from, spender },
                        data,
                    ),
                },
                ..old(self)@
            }),
    {
        match spending {
            Spending::UsedUp => {
                self.allowances.remove(&AllowanceKey { from, spender });
            },
            Spending::Left(data) => {
                self.allowances.set(AllowanceKey { from, spender }, data);
            },
        }
    }

    /// Moves an amount from one account to another.
    pub fn transfer(
        &mut self,
        ledger: &Ledger,
        out: &mut Vec<Action>,
        from: Address,
        to: Address,
        amount: i128,
    ) -> (r: Result<(), Failure>)
        ensures
            match transferred(old(self)@, *ledger, from, to, amount) {
                Ok(t) => {
                    &&& r == Ok::<(), Failure>(())
                    &&& final(self)@ == t
                    &&& final(out)@ == old(out)@.push(
                        Action::Publish(Event::Token(TokenEvent::Transfer { from, to, amount })),
                    )
                },
                Err(e) => {
                    &&& r == Err::<(), Failure>(e)
                    &&& final(self)@ == old(self)@
                    &&& final(out)@ == old(out)@
                },
            },
    {
        self.require_move(ledger, &from, amount)?;
        let (left, grown) = self.plan_move(&from, &to, amount)?;
        self.balances.set(from, left);
        self.balances.set(to, grown);
        out.push(Action::Publish(Event::Token(TokenEvent::Transfer { from, to, amount })));
        Ok(())
    }

    /// Moves an amount from one account to another on a spender's allowance.
    pub fn transfer_from(
        &mut self,
        ledger: &Ledger,
        out: &mut Vec<Action>,
        spender: Address,
        from: Address,
        to: Address,
        amount: i128,
    ) -> (r: Result<(), Failure>)
        ensures
            match transferred_from(old(self)@, *ledger, spender, from, to, amount) {
                Ok(t) => {
                    &&& r == Ok::<(), Failure>(())
                    &&& final(self)@ == t
                    &&& final(out)@ == old(out)@.push(
                        Action::Publish(
                            Event::Token(TokenEvent::TransferFrom { spender, from, to, amount }),
                        ),
                    )
                },
                Err(e) => {
                    &&& r == Err::<(), Failure>(e)
                    &&& final(self)@ == old(self)@
                    &&& final(out)@ == old(out)@
                },
            },
    {
        self.require_move(ledger, &spender, amount)?;
        let spending = self.plan_spending(ledger, &from, &spender, amount)?;
        let (left, grown) = self.plan_move(&from, &to, amount)?;
        self.apply_spending(from, spender, spending);
        self.balances.set(from, left);
        self.balances.set(to, grown);
        out.push(
            Action::Publish(Event::Token(TokenEvent::TransferFrom { spender, from, to, amount })),
        );
        Ok(())
    }

    /// Brings new tokens into an account.  Only the owner may.
    pub fn mint(
        &mut self,
        ledger: &Ledger,
        out: &mut Vec<Action>,
        caller: Address,
        account: Address,
        amount: i128,
    ) -> (r: Result<(), Failure>)
        ensures
            match minted(old(self)@, *ledger, caller, account, amount) {
                Ok(t) => {
                    &&& r == Ok::<(), Failure>(())
                    &&& final(self)@ == t
                    &&& final(out)@ == old(out)@.push(
                        Action::Publish(
                            Event::Token(TokenEvent::Mint { caller, account, amount }),
                        ),
                    )
                },
                Err(e) => {
                    &&& r == Err::<(), Failure>(e)
                    &&& final(self)@ == old(self)@
                    &&& final(out)@ == old(out)@
                },
            },
    {
        if self.is_paused {
            return Err(Failure::Token(Error::Paused));
        }
        self.require_owner(ledger, &caller)?;
        if amount < 0 {
            return Err(Failure::Token(Error::NegativeAmount));
        }
        let grown: i128 = math::plus(self.balance(&account), amount)?;
        let supply: i128 = math::plus(self.total_supply, amount)?;
        self.balances.set(account, grown);
        self.total_supply = supply;
        out.push(Action::Publish(Event::Token(TokenEvent::Mint { caller, account, amount })));
        Ok(())
    }

    /// The balance and the supply that are left after an amount is destroyed.
    fn plan_burn(&self, from: &Address, amount: i128) -> (r: Result<(i128, i128), Failure>)
        requires
            amount >= 0,
        ensures
            match destroyed(self@, *from, amount) {
                Ok(t) => r is Ok && t == (Token {
                    balances: self@.balances.insert(*from, r->Ok_0.0),
                    total_supply: r->Ok_0.1,
                    ..self@
                }),
                Err(e) => r is Err && r->Err_0 == e,
            },
    {
        let held: i128 = self.balance(from);
        if held < amount {
            return Err(Failure::Token(Error::InsufficientBalance));
        }
        let supply: i128 = math::minus(self.total_supply, amount)?;
        Ok((held - amount, supply))
    }

    /// Destroys an amount of an account's tokens.
    pub fn burn(&mut self, ledger: &Ledger, out: &mut Vec<Action>, from: Address, amount: i128) -> (r:
        Result<(), Failure>)
        ensures
            match burned(old(self)@, *ledger, from, amount) {
                Ok(t) => {
                    &&& r == Ok::<(), Failure>(())
                    &&& final(self)@ == t
                    &&& final(out)@ == old(out)@.push(
                        Action::Publish(Event::Token(TokenEvent::Burn { from, amount })),
                    )
                },
                Err(e) => {
                    &&& r == Err::<(), Failure>(e)
                    &&& final(self)@ == old(self)@
                    &&& final(out)@ == old(out)@
                },
            },
    {
        self.require_move(ledger, &from, amount)?;
        let (left, supply) = self.plan_burn(&from, amount)?;
        self.balances.set(from, left);
        self.total_supply = supply;
        out.push(Action::Publish(Event::Token(TokenEvent::Burn { from, amount })));
        Ok(())
    }

    /// Destroys an amount of an account's tokens on a spender's allowance.
    pub fn burn_from(
        &mut self,
        ledger: &Ledger,
        out: &mut Vec<Action>,
        spender: Address,
        from: Address,
        amount: i128,
    ) -> (r: Result<(), Failure>)
        ensures
            match burned_from(old(self)@, *ledger, spender, from, amount) {
                Ok(t) => {
                    &&& r == Ok::<(), Failure>(())
                    &&& final(self)@ == t
                    &&& final(out)@ == old(out)@.push(
                        Action::Publish(
                            Event::Token(TokenEvent::BurnFrom { spender, from, amount }),
                        ),
                    )
                },
                Err(e) => {
                    &&& r == Err::<(), Failure>(e)
                    &&& final(self)@ == old(self)@
                    &&& final(out)@ == old(out)@
                },
            },
    {
        self.require_move(ledger, &spender, amount)?;
        let spending = self.plan_spending(ledger, &from, &spender, amount)?;
        let (left, supply) = self.plan_burn(&from, amount)?;
        self.apply_spending(from, spender, spending);
        self.balances.set(from, left);
        self.total_supply = supply;
        out.push(Action::Publish(Event::Token(TokenEvent::BurnFrom { spender, from, amount })));
        Ok(())
    }
}

// ---------------------------------------------------------------------------
// Laws
// ---------------------------------------------------------------------------

/// The sum of all balances.
pub open spec fn total(balances: Map<Address, i128>) -> int
    decreases balances.dom().len(),
    when balances.dom().finite()
{
    if balances.dom().len() == 0 {
        0
    } else {
        let id = balances.dom().choose();
        balances[id] + total(balances.remove(id))
    }
}

/// The books balance: every token that there is is in some account, and no
/// account is in debt.
pub open spec fn balanced(t: Token) -> bool {
    &&& t.balances.dom().finite()
    &&& total(t.balances) == t.total_supply
    &&& forall|id: Address| #[trigger] balance_of(t.balances, id) >= 0
}

proof fn lemma_total_of_remove(balances: Map<Address, i128>, id: Address)
    requires
        balances.dom().finite(),
        balances.dom().contains(id),
    ensures
        total(balances) == balances[id] + total(balances.remove(id)),
    decreases balances.dom().len(),
{
    let first = balances.dom().choose();
    assert(balances.dom().contains(first));
    if first != id {
        let rest = balances.remove(first);
        lemma_total_of_remove(rest, id);
        lemma_total_of_remove(balances.remove(id), first);
        assert(rest.remove(id) =~= balances.remove(id).remove(first));
    }
}

proof fn lemma_total_of_insert(balances: Map<Address, i128>, id: Address, amount: i128)
    requires
        balances.dom().finite(),
    ensures
        balances.insert(id, amount).dom().finite(),
        total(balances.insert(id, amount)) == total(balances) - balance_of(balances, id) + amount,
{
    let after = balances.insert(id, amount);
    lemma_total_of_remove(after, id);
    if balances.dom().contains(id) {
        lemma_total_of_remove(balances, id);
        assert(after.remove(id) =~= balances.remove(id));
    } else {
        assert(after.remove(id) =~= balances);
    }
}

proof fn lemma_moving_keeps_the_total(
    balances: Map<Address, i128>,
    from: Address,
    to: Address,
    amount: i128,
)
    requires
        balances.dom().finite(),
        0 <= amount,
        forall|id: Address| #[trigger] balance_of(balances, id) >= 0,
    ensures
        moved(balances, from, to, amount) matches Ok(b) ==> {
            &&& b.dom().finite()
            &&& total(b) == total(balances)
            &&& forall|id: Address| #[trigger] balance_of(b, id) >= 0
        },
{
    if let Ok(b) = moved(balances, from, to, amount) {
        let left = (balance_of(balances, from) - amount) as i128;
        let between = balances.insert(from, left);
        lemma_total_of_insert(balances, from, left);
        lemma_total_of_insert(between, to, (balance_of(between, to) + amount) as i128);
        assert forall|id: Address| #[trigger] balance_of(b, id) >= 0 by {
            assert(balance_of(balances, id) >= 0);
            assert(balance_of(balances, to) >= 0);
        }
    }
}

/// A transfer, with or without an allowance, creates and destroys nothing: the
/// books still balance and the supply is the same.
pub proof fn transfers_keep_the_books_balanced(
    t: Token,
    ledger: Ledger,
    spender: Address,
    from: Address,
    to: Address,
    amount: i128,
)
    requires
        balanced(t),
    ensures
        transferred(t, ledger, from, to, amount) matches Ok(u) ==> balanced(u) && u.total_supply
            == t.total_supply,
        transferred_from(t, ledger, spender, from, to, amount) matches Ok(u) ==> balanced(u)
            && u.total_supply == t.total_supply,
{
    if amount >= 0 {
        lemma_moving_keeps_the_total(t.balances, from, to, amount);
    }
}

/// Minting raises the supply by exactly what arrives in the account, and the
/// books still balance.
pub proof fn minting_keeps_the_books_balanced(
    t: Token,
    ledger: Ledger,
    caller: Address,
    account: Address,
    amount: i128,
)
    requires
        balanced(t),
    ensures
        minted(t, ledger, caller, account, amount) matches Ok(u) ==> {
            &&& balanced(u)
            &&& u.total_supply == t.total_supply + amount
            &&& balance_of(u.balances, account) == balance_of(t.balances, account) + amount
        },
{
    if let Ok(u) = minted(t, ledger, caller, account, amount) {
        let grown = (balance_of(t.balances, account) + amount) as i128;
        lemma_total_of_insert(t.balances, account, grown);
        assert(balance_of(t.balances, account) >= 0);
        assert forall|id: Address| #[trigger] balance_of(u.balances, id) >= 0 by {
            assert(balance_of(t.balances, id) >= 0);
        }
    }
}

/// Burning lowers the supply by exactly what leaves the account, and the books
/// still balance.
pub proof fn burning_keeps_the_books_balanced(
    t: Token,
    ledger: Ledger,
    spender: Address,
    from: Address,
    amount: i128,
)
    requires
        balanced(t),
    ensures
        burned(t, ledger, from, amount) matches Ok(u) ==> balanced(u) && u.total_supply
            == t.total_supply - amount,
        burned_from(t, ledger, spender, from, amount) matches Ok(u) ==> balanced(u)
            && u.total_supply == t.total_supply - amount,
{
    if amount >= 0 {
        if let Ok(u) = destroyed(t, from, amount) {
            lemma_total_of_insert(
                t.balances,
                from,
                (balance_of(t.balances, from) - amount) as i128,
            );
            assert forall|id: Address| #[trigger] balance_of(u.balances, id) >= 0 by {
                assert(balance_of(t.balances, id) >= 0);
            }
        }
    }
}

/// A fresh token has balanced books.
pub proof fn fresh_token_is_balanced(t: Token)
    requires
        t.balances == Map::<Address, i128>::empty(),
        t.total_supply == 0,
    ensures
        balanced(t),
{
    assert(t.balances.dom() =~= Set::<Address>::empty());
}

/// Only the owner can mint.
pub proof fn only_the_owner_mints(
    t: Token,
    ledger: Ledger,
    caller: Address,
    account: Address,
    amount: i128,
)
    requires
        minted(t, ledger, caller, account, amount) is Ok,
    ensures
        t.owner == Some(caller),
        ledger.authorised(caller),
{
}

/// While the token is paused nothing moves, nothing is minted and nothing is
/// burned.
pub proof fn paused_token_stands_still(
    t: Token,
    ledger: Ledger,
    a: Address,
    b: Address,
    c: Address,
    amount: i128,
    expiration_ledger: u32,
)
    requires
        t.is_paused,
    ensures
        transferred(t, ledger, a, b, amount) is Err,
        transferred_from(t, ledger, a, b, c, amount) is Err,
        minted(t, ledger, a, b, amount) is Err,
        burned(t, ledger, a, amount) is Err,
        burned_from(t, ledger, a, b, amount) is Err,
        approved(t, ledger, a, b, amount, expiration_ledger) is Err,
{
}

/// A spender never spends more than was allowed: what is spent and what is still
/// allowed add up to what was allowed.
pub proof fn allowances_bound_spending(
    t: Token,
    ledger: Ledger,
    spender: Address,
    from: Address,
    to: Address,
    amount: i128,
)
    ensures
        transferred_from(t, ledger, spender, from, to, amount) matches Ok(u) ==> amount
            + stored_allowance(u, from, spender).amount == stored_allowance(
            t,
            from,
            spender,
        ).amount,
{
}

} // verus!
