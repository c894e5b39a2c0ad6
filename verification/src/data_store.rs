//! The keyed store that the contracts share: numbers, flags, addresses and
//! lists, each under a typed key.

use crate::failure::Failure;
use crate::ledger::Ledger;
use crate::math;
use crate::role_store;
use crate::role_store::{Grant, Role, RoleStore};
use crate::table::{Table, TableKey};
use crate::types::{Address, Bytes32, OrderKey, PositionKey};
use vstd::prelude::*;

verus! {

/// Why the store rejects a call.
#[derive(Clone, Copy, Debug, PartialEq, Eq, Structural)]
pub enum Error {
    /// The caller is no controller.
    Unauthorized,
}

/// Whether a caller may write to the store: they authorised the call and are a
/// controller.
pub open spec fn write_check(roles: Set<Grant>, ledger: Ledger, caller: Address) -> Result<
    (),
    Failure,
> {
    if !ledger.authorised(caller) {
        Err(Failure::MissingAuthorisation)
    } else if !role_store::holds(roles, caller, Role::Controller) {
        Err(Failure::Store(Error::Unauthorized))
    } else {
        Ok(())
    }
}

/// Passes when a caller may write to the store.
fn require_controller(ledger: &Ledger, roles: &RoleStore, caller: &Address) -> (r: Result<
    (),
    Failure,
>)
    ensures
        r == write_check(roles@, *ledger, *caller),
{
    ledger.require_auth(caller)?;
    if roles.has_role(caller, Role::Controller) {
        Ok(())
    } else {
        Err(Failure::Store(Error::Unauthorized))
    }
}

/// Names a value in the store.
#[derive(Clone, Copy, Debug, PartialEq, Eq, Structural)]
pub enum Key {
    /// A key that is a hash of its parts.
    Hashed(Bytes32),
    Market { market: Address },
    MarketIndexToken { market: Address },
    MarketLongToken { market: Address },
    MarketShortToken { market: Address },
    TokenDecimals { token: Address },
    PoolAmount { market: Address, token: Address },
    PositionImpactPoolAmount { market: Address },
    SwapImpactPoolAmount { market: Address, token: Address },
    OpenInterest { market: Address, token: Address, is_long: bool },
    OpenInterestInTokens { market: Address, token: Address, is_long: bool },
    MaxOpenInterest { market: Address, is_long: bool },
    CollateralSum { market: Address, token: Address, is_long: bool },
    CumulativeBorrowingFactor { market: Address, is_long: bool },
    CumulativeBorrowingFactorUpdatedAt { market: Address, is_long: bool },
    FundingAmountPerSize { market: Address, token: Address, is_long: bool },
    SavedFundingFactorPerSecond { market: Address },
    ClaimableFundingAmount { market: Address, token: Address, account: Address },
    ClaimableFeeAmount { market: Address, token: Address },
    ClaimableUiFeeAmount { token: Address, ui_receiver: Address },
    UiFeeFactor { ui_receiver: Address },
    AutoCompoundFees { market: Address },
    PositionFeeFactor { market: Address, for_positive_impact: bool },
    FeeTierVolumeThreshold { market: Address, tier: u32 },
    FeeTierPositionFeeFactor { market: Address, tier: u32 },
    TraderVolume { account: Address, market: Address },
    TraderVolumeWindowStart { account: Address, market: Address },
    MinCollateralFactor { market: Address },
    MaxLeverage { market: Address },
    MaxPnlFactorForAdl { market: Address, is_long: bool },
    LiquidationFeeFactor { market: Address },
    MaxLiquidationFee { market: Address },
    LiquidationKeeperFeeFactor { market: Address },
    MaxSwapPathLength,
    MinExecutionFee,
    KeeperHeartbeatTimeout,
    LastKeeperActivity,
}

impl TableKey for Key {
    type Id = Key;

    open spec fn id(&self) -> Key {
        *self
    }

    fn same(&self, other: &Self) -> (r: bool) {
        *self == *other
    }
}

/// Membership of one of the lists that the store keeps.
#[derive(Clone, Copy, Debug, PartialEq, Eq, Structural)]
pub enum Member {
    OrderList(OrderKey),
    AccountOrderList(Address, OrderKey),
    PositionList(PositionKey),
    AccountPositionList(Address, PositionKey),
}

impl TableKey for Member {
    type Id = Member;

    open spec fn id(&self) -> Member {
        *self
    }

    fn same(&self, other: &Self) -> (r: bool) {
        *self == *other
    }
}

/// A list of positions holds what the membership says, each position once.
pub open spec fn in_step(members: Map<Member, bool>, positions: Seq<PositionKey>) -> bool {
    &&& positions.no_duplicates()
    &&& forall|key: PositionKey| #[trigger]
        positions.contains(key) <==> members.dom().contains(Member::PositionList(key))
}

/// The position list with a member added at the end, where it is a position that
/// is not there yet.
pub open spec fn positions_with(
    members: Map<Member, bool>,
    positions: Seq<PositionKey>,
    member: Member,
) -> Seq<PositionKey> {
    match member {
        Member::PositionList(key) => if members.dom().contains(member) {
            positions
        } else {
            positions.push(key)
        },
        _ => positions,
    }
}

/// The position list with a member taken off; the others keep their order.
pub open spec fn positions_without(positions: Seq<PositionKey>, member: Member) -> Seq<
    PositionKey,
> {
    match member {
        Member::PositionList(key) => positions.remove_value(key),
        _ => positions,
    }
}

/// What the store holds, as mathematical values.
#[verifier::ext_equal]
pub struct Store {
    pub words: Map<Key, u128>,
    pub ints: Map<Key, i128>,
    pub flags: Map<Key, bool>,
    pub addresses: Map<Key, Address>,
    pub members: Map<Member, bool>,
    /// The members of the position list, in the order in which they joined it.
    pub positions: Seq<PositionKey>,
    pub markets: Seq<Address>,
    pub nonce: u64,
}

impl Store {
    /// The unsigned number under a key; zero where none was stored.
    pub open spec fn u128_at(self, key: Key) -> u128 {
        if self.words.dom().contains(key) {
            self.words[key]
        } else {
            0
        }
    }

    /// The signed number under a key; zero where none was stored.
    pub open spec fn i128_at(self, key: Key) -> i128 {
        if self.ints.dom().contains(key) {
            self.ints[key]
        } else {
            0
        }
    }

    /// The flag under a key; down where none was stored.
    pub open spec fn flag_at(self, key: Key) -> bool {
        self.flags.dom().contains(key) && self.flags[key]
    }

    /// The address under a key.
    pub open spec fn address_at(self, key: Key) -> Option<Address> {
        if self.addresses.dom().contains(key) {
            Some(self.addresses[key])
        } else {
            None
        }
    }

    /// Whether a list has a member.
    pub open spec fn lists(self, member: Member) -> bool {
        self.members.dom().contains(member)
    }

    /// The store with an unsigned number put under a key.
    pub open spec fn with_u128(self, key: Key, value: u128) -> Store {
        Store { words: self.words.insert(key, value), ..self }
    }

    /// The store with a signed number put under a key.
    pub open spec fn with_i128(self, key: Key, value: i128) -> Store {
        Store { ints: self.ints.insert(key, value), ..self }
    }

    /// The store with a flag put under a key.
    pub open spec fn with_flag(self, key: Key, value: bool) -> Store {
        Store { flags: self.flags.insert(key, value), ..self }
    }

    /// The store with an address put under a key.
    pub open spec fn with_address(self, key: Key, value: Address) -> Store {
        Store { addresses: self.addresses.insert(key, value), ..self }
    }

    /// The position list holds what its membership says, each position once.
    pub open spec fn positions_in_step(self) -> bool {
        in_step(self.members, self.positions)
    }

    /// The store with a member added to its list, at the end where it was not
    /// there yet.
    pub open spec fn enlisted(self, member: Member) -> Store {
        Store {
            members: self.members.insert(member, true),
            positions: positions_with(self.members, self.positions, member),
            ..self
        }
    }

    /// The store with a member taken off its list; the others keep their order.
    pub open spec fn delisted(self, member: Member) -> Store {
        Store {
            members: self.members.remove(member),
            positions: positions_without(self.positions, member),
            ..self
        }
    }

    /// The store with a signed amount added to an unsigned number.
    pub open spec fn shifted(self, key: Key, delta: int) -> Store {
        self.with_u128(key, (self.u128_at(key) + delta) as u128)
    }

    /// The store with a signed amount added to a signed number.
    pub open spec fn moved(self, key: Key, delta: int) -> Store {
        self.with_i128(key, (self.i128_at(key) + delta) as i128)
    }

    /// The signed amount can be added to the signed number under the key.
    pub open spec fn can_move(self, key: Key, delta: int) -> bool {
        math::fits(self.i128_at(key) + delta)
    }

    /// The signed amount can be added to the number under the key.
    pub open spec fn can_shift(self, key: Key, delta: int) -> bool {
        math::fits_unsigned(self.u128_at(key) + delta)
    }
}

proof fn lemma_listing_stays_in_step(
    members: Map<Member, bool>,
    positions: Seq<PositionKey>,
    member: Member,
)
    requires
        in_step(members, positions),
    ensures
        in_step(members.insert(member, true), positions_with(members, positions, member)),
        in_step(members.remove(member), positions_without(positions, member)),
{
    let more_members = members.insert(member, true);
    let more = positions_with(members, positions, member);
    let less_members = members.remove(member);
    let less = positions_without(positions, member);
    if let Member::PositionList(key) = member {
        assert(positions.contains(key) <==> members.dom().contains(member));
        assert forall|k: PositionKey| #[trigger] more.contains(k) <==> more_members.dom().contains(
            Member::PositionList(k),
        ) by {
            assert(positions.contains(k) <==> members.dom().contains(Member::PositionList(k)));
            if positions.contains(k) {
                assert(more[positions.index_of(k)] == k);
            }
            if k == key && !members.dom().contains(member) {
                assert(more.last() == k);
            }
            if more.contains(k) && k != key {
                assert(positions[more.index_of(k)] == k);
            }
        }
        assert forall|i: int, j: int| 0 <= i < more.len() && 0 <= j < more.len() && i != j implies
            more[i] != more[j] by {
            assert(i < positions.len() ==> positions.contains(positions[i]));
            assert(j < positions.len() ==> positions.contains(positions[j]));
        }
        positions.index_of_first_ensures(key);
        assert forall|k: PositionKey| #[trigger] less.contains(k) <==> less_members.dom().contains(
            Member::PositionList(k),
        ) by {
            assert(positions.contains(k) <==> members.dom().contains(Member::PositionList(k)));
            if let Some(at) = positions.index_of_first(key) {
                if less.contains(k) {
                    let i = less.index_of(k);
                    let j = if i < at {
                        i
                    } else {
                        i + 1
                    };
                    assert(positions[j] == k);
                    assert(positions[j] != positions[at]);
                }
                if positions.contains(k) && k != key {
                    let i = positions.index_of(k);
                    let j = if i < at {
                        i
                    } else {
                        i - 1
                    };
                    assert(less[j] == k);
                }
            }
        }
        assert(less.no_duplicates());
    } else {
        assert forall|k: PositionKey| #[trigger] positions.contains(k) implies
            more_members.dom().contains(Member::PositionList(k)) && less_members.dom().contains(
            Member::PositionList(k),
        ) by {}
    }
}

/// Who is on which list.
struct Roll {
    members: Table<Member, bool>,
    positions: Vec<PositionKey>,
}

impl Roll {
    /// The same lists once more.
    fn duplicate(&self) -> (r: Self)
        ensures
            r.members@ == self.members@,
            r.positions@ == self.positions@,
    {
        let mut positions: Vec<PositionKey> = Vec::new();
        let mut k: usize = 0;
        while k < self.positions.len()
            invariant
                k <= self.positions.len(),
                positions@ == self.positions@.take(k as int),
            decreases self.positions.len() - k,
        {
            positions.push(self.positions[k]);
            k = k + 1;
        }
        assert(positions@ =~= self.positions@);
        Roll { members: self.members.duplicate(), positions }
    }

    /// The place of a position on the position list.
    fn place_of_position(&self, key: &PositionKey) -> (r: Option<usize>)
        ensures
            match r {
                Some(i) => i < self.positions@.len() && self.positions@.index_of_first(*key)
                    == Some(i as int),
                None => self.positions@.index_of_first(*key) is None,
            },
    {
        proof {
            self.positions@.index_of_first_ensures(*key);
        }
        let mut i: usize = 0;
        while i < self.positions.len()
            invariant
                i <= self.positions.len(),
                forall|j: int| 0 <= j < i ==> self.positions@[j] != *key,
            decreases self.positions.len() - i,
        {
            if self.positions[i] == *key {
                proof {
                    self.positions@.index_of_first_ensures(*key);
                    assert(self.positions@[i as int] == *key);
                }
                return Some(i);
            }
            i = i + 1;
        }
        None
    }

    /// Adds a member to its list.
    fn enlist(&mut self, member: Member)
        ensures
            final(self).members@ == old(self).members@.insert(member, true),
            final(self).positions@ == positions_with(
                old(self).members@,
                old(self).positions@,
                member,
            ),
    {
        if let Member::PositionList(key) = member {
            if !self.members.has(&member) {
                self.positions.push(key);
            }
        }
        self.members.set(member, true);
    }

    /// Takes a member off its list.
    fn delist(&mut self, member: Member)
        ensures
            final(self).members@ == old(self).members@.remove(member),
            final(self).positions@ == positions_without(old(self).positions@, member),
    {
        if let Member::PositionList(key) = member {
            if let Some(i) = self.place_of_position(&key) {
                self.positions.remove(i);
            }
        }
        self.members.remove(&member);
    }
}

/// The lists of the store: the position list is in step with its membership.
struct Lists {
    roll: Roll,
}

impl Lists {
    #[verifier::type_invariant]
    spec fn inv(self) -> bool {
        in_step(self.roll.members@, self.roll.positions@)
    }

    /// Nobody on any list.
    fn new() -> (r: Self)
        ensures
            r.roll.members@ == Map::<Member, bool>::empty(),
            r.roll.positions@ == Seq::<PositionKey>::empty(),
    {
        Lists { roll: Roll { members: Table::new(), positions: Vec::new() } }
    }

    /// The same lists once more.
    fn duplicate(&self) -> (r: Self)
        ensures
            r.roll.members@ == self.roll.members@,
            r.roll.positions@ == self.roll.positions@,
    {
        proof {
            use_type_invariant(self);
        }
        Lists { roll: self.roll.duplicate() }
    }

    /// The number of positions on the position list.
    fn position_count(&self) -> (r: usize)
        ensures
            r == self.roll.positions@.len(),
            in_step(self.roll.members@, self.roll.positions@),
    {
        proof {
            use_type_invariant(self);
        }
        self.roll.positions.len()
    }

    /// Adds a member to its list.
    fn enlist(&mut self, member: Member)
        ensures
            final(self).roll.members@ == old(self).roll.members@.insert(member, true),
            final(self).roll.positions@ == positions_with(
                old(self).roll.members@,
                old(self).roll.positions@,
                member,
            ),
    {
        proof {
            use_type_invariant(&*self);
            lemma_listing_stays_in_step(self.roll.members@, self.roll.positions@, member);
        }
        let mut roll = Roll { members: Table::new(), positions: Vec::new() };
        std::mem::swap(&mut roll, &mut self.roll);
        roll.enlist(member);
        self.roll = roll;
    }

    /// Takes a member off its list.
    fn delist(&mut self, member: Member)
        ensures
            final(self).roll.members@ == old(self).roll.members@.remove(member),
            final(self).roll.positions@ == positions_without(old(self).roll.positions@, member),
    {
        proof {
            use_type_invariant(&*self);
            lemma_listing_stays_in_step(self.roll.members@, self.roll.positions@, member);
        }
        let mut roll = Roll { members: Table::new(), positions: Vec::new() };
        std::mem::swap(&mut roll, &mut self.roll);
        roll.delist(member);
        self.roll = roll;
    }
}

/// The store.
pub struct DataStore {
    words: Table<Key, u128>,
    ints: Table<Key, i128>,
    flags: Table<Key, bool>,
    addresses: Table<Key, Address>,
    lists: Lists,
    markets: Vec<Address>,
    nonce: u64,
}

impl View for DataStore {
    type V = Store;

    closed spec fn view(&self) -> Store {
        Store {
            words: self.words@,
            ints: self.ints@,
            flags: self.flags@,
            addresses: self.addresses@,
            members: self.lists.roll.members@,
            positions: self.lists.roll.positions@,
            markets: self.markets@,
            nonce: self.nonce,
        }
    }
}

impl DataStore {
    /// An empty store.
    pub fn new() -> (r: Self)
        ensures
            r@ == (Store {
                words: Map::empty(),
                ints: Map::empty(),
                flags: Map::empty(),
                addresses: Map::empty(),
                members: Map::empty(),
                positions: Seq::empty(),
                markets: Seq::empty(),
                nonce: 0,
            }),
    {
        DataStore {
            words: Table::new(),
            ints: Table::new(),
            flags: Table::new(),
            addresses: Table::new(),
            lists: Lists::new(),
            markets: Vec::new(),
            nonce: 0,
        }
    }

    /// A second store with the same contents.
    pub fn duplicate(&self) -> (r: Self)
        ensures
            r@ == self@,
    {
        let mut markets: Vec<Address> = Vec::new();
        let mut i: usize = 0;
        while i < self.markets.len()
            invariant
                i <= self.markets.len(),
                markets@ == self.markets@.take(i as int),
            decreases self.markets.len() - i,
        {
            markets.push(self.markets[i]);
            i = i + 1;
        }
        assert(markets@ =~= self.markets@);
        DataStore {
            words: self.words.duplicate(),
            ints: self.ints.duplicate(),
            flags: self.flags.duplicate(),
            addresses: self.addresses.duplicate(),
            lists: self.lists.duplicate(),
            markets,
            nonce: self.nonce,
        }
    }

    /// The unsigned number under a key; zero where none was stored.
    pub fn get_u128(&self, key: &Key) -> (r: u128)
        ensures
            r == self@.u128_at(*key),
    {
        match self.words.get(key) {
            Some(v) => *v,
            None => 0,
        }
    }

    /// The signed number under a key; zero where none was stored.
    pub fn get_i128(&self, key: &Key) -> (r: i128)
        ensures
            r == self@.i128_at(*key),
    {
        match self.ints.get(key) {
            Some(v) => *v,
            None => 0,
        }
    }

    /// The flag under a key; down where none was stored.
    pub fn get_bool(&self, key: &Key) -> (r: bool)
        ensures
            r == self@.flag_at(*key),
    {
        match self.flags.get(key) {
            Some(v) => *v,
            None => false,
        }
    }

    /// The address under a key.
    pub fn get_address(&self, key: &Key) -> (r: Option<Address>)
        ensures
            r == self@.address_at(*key),
    {
        match self.addresses.get(key) {
            Some(v) => Some(*v),
            None => None,
        }
    }

    /// Whether a list has a member.
    pub fn contains(&self, member: &Member) -> (r: bool)
        ensures
            r == self@.lists(*member),
    {
        self.lists.roll.members.has(member)
    }

    /// Puts an unsigned number under a key.
    pub(crate) fn put_u128(&mut self, key: Key, value: u128)
        ensures
            final(self)@ == old(self)@.with_u128(key, value),
    {
        self.words.set(key, value);
    }

    /// Puts a signed number under a key.
    pub(crate) fn put_i128(&mut self, key: Key, value: i128)
        ensures
            final(self)@ == old(self)@.with_i128(key, value),
    {
        self.ints.set(key, value);
    }

    /// Puts a flag under a key.
    pub(crate) fn put_bool(&mut self, key: Key, value: bool)
        ensures
            final(self)@ == old(self)@.with_flag(key, value),
    {
        self.flags.set(key, value);
    }

    /// Puts an address under a key.
    pub(crate) fn put_address(&mut self, key: Key, value: Address)
        ensures
            final(self)@ == old(self)@.with_address(key, value),
    {
        self.addresses.set(key, value);
    }

    /// Puts an unsigned number under a key on behalf of a controller.
    pub fn set_u128(
        &mut self,
        ledger: &Ledger,
        roles: &RoleStore,
        caller: Address,
        key: Key,
        value: u128,
    ) -> (r: Result<(), Failure>)
        ensures
            r == write_check(roles@, *ledger, caller),
            final(self)@ == if r is Ok {
                old(self)@.with_u128(key, value)
            } else {
                old(self)@
            },
    {
        require_controller(ledger, roles, &caller)?;
        self.put_u128(key, value);
        Ok(())
    }

    /// Puts a signed number under a key on behalf of a controller.
    pub fn set_i128(
        &mut self,
        ledger: &Ledger,
        roles: &RoleStore,
        caller: Address,
        key: Key,
        value: i128,
    ) -> (r: Result<(), Failure>)
        ensures
            r == write_check(roles@, *ledger, caller),
            final(self)@ == if r is Ok {
                old(self)@.with_i128(key, value)
            } else {
                old(self)@
            },
    {
        require_controller(ledger, roles, &caller)?;
        self.put_i128(key, value);
        Ok(())
    }

    /// Puts a flag under a key on behalf of a controller.
    pub fn set_bool(
        &mut self,
        ledger: &Ledger,
        roles: &RoleStore,
        caller: Address,
        key: Key,
        value: bool,
    ) -> (r: Result<(), Failure>)
        ensures
            r == write_check(roles@, *ledger, caller),
            final(self)@ == if r is Ok {
                old(self)@.with_flag(key, value)
            } else {
                old(self)@
            },
    {
        require_controller(ledger, roles, &caller)?;
        self.put_bool(key, value);
        Ok(())
    }

    /// Puts an address under a key on behalf of a controller.
    pub fn set_address(
        &mut self,
        ledger: &Ledger,
        roles: &RoleStore,
        caller: Address,
        key: Key,
        value: Address,
    ) -> (r: Result<(), Failure>)
        ensures
            r == write_check(roles@, *ledger, caller),
            final(self)@ == if r is Ok {
                old(self)@.with_address(key, value)
            } else {
                old(self)@
            },
    {
        require_controller(ledger, roles, &caller)?;
        self.put_address(key, value);
        Ok(())
    }

    /// Adds a signed amount to an unsigned number.
    pub(crate) fn apply_delta_to_u128(&mut self, key: Key, delta: i128) -> (r: Result<u128, Failure>)
        ensures
            if old(self)@.can_shift(key, delta as int) {
                &&& r == Ok::<u128, Failure>((old(self)@.u128_at(key) + delta) as u128)
                &&& final(self)@ == old(self)@.shifted(key, delta as int)
            } else {
                &&& r == Err::<u128, Failure>(Failure::Overflow)
                &&& final(self)@ == old(self)@
            },
    {
        match math::plus_signed(self.get_u128(&key), delta) {
            Ok(v) => {
                self.put_u128(key, v);
                Ok(v)
            },
            Err(e) => Err(e),
        }
    }

    /// Adds a signed amount to a signed number.
    pub(crate) fn apply_delta_to_i128(&mut self, key: Key, delta: i128) -> (r: Result<i128, Failure>)
        ensures
            if old(self)@.can_move(key, delta as int) {
                &&& r == Ok::<i128, Failure>((old(self)@.i128_at(key) + delta) as i128)
                &&& final(self)@ == old(self)@.moved(key, delta as int)
            } else {
                &&& r == Err::<i128, Failure>(Failure::Overflow)
                &&& final(self)@ == old(self)@
            },
    {
        match math::plus(self.get_i128(&key), delta) {
            Ok(v) => {
                self.put_i128(key, v);
                Ok(v)
            },
            Err(e) => Err(e),
        }
    }

    /// Hands out the next number of the store's counter.
    pub(crate) fn increment_nonce(&mut self) -> (r: Result<u64, Failure>)
        ensures
            if old(self)@.nonce < u64::MAX {
                &&& r == Ok::<u64, Failure>((old(self)@.nonce + 1) as u64)
                &&& final(self)@ == (Store { nonce: (old(self)@.nonce + 1) as u64, ..old(self)@ })
            } else {
                &&& r == Err::<u64, Failure>(Failure::Overflow)
                &&& final(self)@ == old(self)@
            },
    {
        if self.nonce == u64::MAX {
            return Err(Failure::Overflow);
        }
        self.nonce = self.nonce + 1;
        Ok(self.nonce)
    }

    /// Adds a member to its list.
    pub(crate) fn add_to_set(&mut self, member: Member)
        ensures
            final(self)@ == old(self)@.enlisted(member),
    {
        self.lists.enlist(member);
    }

    /// The number of positions on the position list, which holds each of them
    /// once.
    pub fn position_count(&self) -> (r: usize)
        ensures
            r == self@.positions.len(),
            self@.positions_in_step(),
    {
        self.lists.position_count()
    }

    /// The position at a place of the position list.
    pub fn position_at(&self, i: usize) -> (r: PositionKey)
        requires
            i < self@.positions.len(),
        ensures
            r == self@.positions[i as int],
    {
        self.lists.roll.positions[i]
    }

    /// Takes a member off its list.
    pub(crate) fn remove_from_set(&mut self, member: Member)
        ensures
            final(self)@ == old(self)@.delisted(member),
    {
        self.lists.delist(member);
    }

    /// Whether a market is on the market list.
    fn has_market(&self, market: &Address) -> (r: bool)
        ensures
            r == self@.markets.contains(*market),
    {
        let mut i: usize = 0;
        while i < self.markets.len()
            invariant
                i <= self.markets.len(),
                forall|j: int| 0 <= j < i ==> self.markets@[j] != *market,
            decreases self.markets.len() - i,
        {
            if self.markets[i] == *market {
                return true;
            }
            i = i + 1;
        }
        false
    }

    /// Appends a market to the market list, where it is not there yet.
    pub(crate) fn add_market(&mut self, market: Address)
        ensures
            final(self)@ == (Store {
                markets: if old(self)@.markets.contains(market) {
                    old(self)@.markets
                } else {
                    old(self)@.markets.push(market)
                },
                ..old(self)@
            }),
    {
        if !self.has_market(&market) {
            self.markets.push(market);
        }
    }

    /// The number of markets on the market list.
    pub fn market_count(&self) -> (r: usize)
        ensures
            r == self@.markets.len(),
    {
        self.markets.len()
    }

    /// The market at a place of the market list.
    pub fn market_at(&self, i: usize) -> (r: Address)
        requires
            i < self@.markets.len(),
        ensures
            r == self@.markets[i as int],
    {
        self.markets[i]
    }
}

} // verus!
