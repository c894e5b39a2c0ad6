//! Referral codes, who owns them, who trades under them, and what the owners'
//! tiers are worth.

use crate::actions::{Action, Event};
use crate::failure::Failure;
use crate::ledger::Ledger;
use crate::math;
use crate::table::{Table, TableKey};
use crate::types::{Address, Bytes32};
use vstd::prelude::*;

verus! {

/// The longest referral code, in bytes.
pub const MAX_REFERRAL_CODE_LENGTH: u32 = 20;

/// The highest tier.
pub const MAX_TIER: u32 = 2;

/// One hundred per cent in basis points.
pub const MAX_BPS: u32 = 10_000;

/// Why the referral storage rejects a call.
#[derive(Clone, Copy, Debug, PartialEq, Eq, Structural)]
pub enum Error {
    NotInitialized,
    AlreadyInitialized,
    Unauthorized,
    CodeAlreadyTaken,
    CodeNotFound,
    InvalidTier,
    InvalidInput,
    NotCodeOwner,
    CodeTooLong,
    InvalidCodeCharacters,
    EmptyCode,
}

/// The storage keys.
#[derive(Debug)]
pub enum ReferralKey {
    CodeOwner(Vec<u8>),
    TraderCode(Address),
    ReferrerTier(Address),
    TierConfig(u32),
    ReferrerVolume(Address),
    TierUpgradeThreshold(u32),
}

/// What a storage key stands for.
pub enum ReferralSlot {
    CodeOwner(Seq<u8>),
    TraderCode(Address),
    ReferrerTier(Address),
    TierConfig(u32),
    ReferrerVolume(Address),
    TierUpgradeThreshold(u32),
}

/// What a tier is worth: the basis points of the position fee that are paid
/// back, and the part of those that the trader gets.
#[derive(Clone, Copy, Debug, PartialEq, Eq, Structural)]
pub struct TierConfig {
    pub total_rebate_bps: u32,
    pub discount_share_bps: u32,
}

/// A code was registered.
#[derive(Debug, PartialEq, Eq)]
pub struct CodeRegistered {
    pub caller: Address,
    pub code: Vec<u8>,
}

/// A trader took up a code.
#[derive(Debug, PartialEq, Eq)]
pub struct TraderCodeSet {
    pub trader: Address,
    pub code: Vec<u8>,
}

/// A code changed hands.
#[derive(Debug, PartialEq, Eq)]
pub struct CodeOwnershipTransferred {
    pub code: Vec<u8>,
    pub from: Address,
    pub to: Address,
}

/// Whether two byte strings are the same.
fn same_bytes(a: &Vec<u8>, b: &Vec<u8>) -> (r: bool)
    ensures
        r == (a@ == b@),
{
    if a.len() != b.len() {
        return false;
    }
    let mut i: usize = 0;
    while i < a.len()
        invariant
            i <= a.len(),
            a.len() == b.len(),
            forall|j: int| 0 <= j < i ==> a@[j] == b@[j],
        decreases a.len() - i,
    {
        if a[i] != b[i] {
            assert(a@[i as int] != b@[i as int]);
            return false;
        }
        i = i + 1;
    }
    assert(a@ =~= b@);
    true
}

/// A second byte string with the same bytes.
fn copy_bytes(a: &Vec<u8>) -> (r: Vec<u8>)
    ensures
        r@ == a@,
{
    let mut r: Vec<u8> = Vec::new();
    let mut i: usize = 0;
    while i < a.len()
        invariant
            i <= a.len(),
            r@ == a@.take(i as int),
        decreases a.len() - i,
    {
        r.push(a[i]);
        i = i + 1;
    }
    assert(r@ =~= a@);
    r
}

impl TableKey for ReferralKey {
    type Id = ReferralSlot;

    open spec fn id(&self) -> ReferralSlot {
        match *self {
            ReferralKey::CodeOwner(code) => ReferralSlot::CodeOwner(code@),
            ReferralKey::TraderCode(a) => ReferralSlot::TraderCode(a),
            ReferralKey::ReferrerTier(a) => ReferralSlot::ReferrerTier(a),
            ReferralKey::TierConfig(n) => ReferralSlot::TierConfig(n),
            ReferralKey::ReferrerVolume(a) => ReferralSlot::ReferrerVolume(a),
            ReferralKey::TierUpgradeThreshold(n) => ReferralSlot::TierUpgradeThreshold(n),
        }
    }

    fn same(&self, other: &Self) -> (r: bool) {
        match (self, other) {
            (ReferralKey::CodeOwner(a), ReferralKey::CodeOwner(b)) => same_bytes(a, b),
            (ReferralKey::TraderCode(a), ReferralKey::TraderCode(b)) => *a == *b,
            (ReferralKey::ReferrerTier(a), ReferralKey::ReferrerTier(b)) => *a == *b,
            (ReferralKey::TierConfig(a), ReferralKey::TierConfig(b)) => *a == *b,
            (ReferralKey::ReferrerVolume(a), ReferralKey::ReferrerVolume(b)) => *a == *b,
            (
                ReferralKey::TierUpgradeThreshold(a),
                ReferralKey::TierUpgradeThreshold(b),
            ) => *a == *b,
            _ => false,
        }
    }
}

// ---------------------------------------------------------------------------
// State
// ---------------------------------------------------------------------------

/// The state of the referral storage, as mathematical values.
#[verifier::ext_equal]
pub struct Referrals {
    pub admin: Option<Address>,
    pub order_handler: Option<Address>,
    pub owners: Map<ReferralSlot, Address>,
    pub codes: Map<ReferralSlot, Seq<u8>>,
    pub tiers: Map<ReferralSlot, u32>,
    pub configs: Map<ReferralSlot, TierConfig>,
    pub amounts: Map<ReferralSlot, u128>,
}

/// Every configured tier pays back at most everything.
pub open spec fn tiers_bounded(configs: Map<ReferralSlot, TierConfig>) -> bool {
    forall|tier: u32| #[trigger]
        configs.dom().contains(ReferralSlot::TierConfig(tier)) ==> {
            &&& configs[ReferralSlot::TierConfig(tier)].total_rebate_bps <= MAX_BPS
            &&& configs[ReferralSlot::TierConfig(tier)].discount_share_bps <= MAX_BPS
        }
}

/// The configured tiers, none of which pays back more than everything.
struct TierTable {
    entries: Table<ReferralKey, TierConfig>,
}

impl TierTable {
    #[verifier::type_invariant]
    spec fn inv(self) -> bool {
        tiers_bounded(self.entries@)
    }

    /// No tier configured.
    fn new() -> (r: Self)
        ensures
            r.entries@ == Map::<ReferralSlot, TierConfig>::empty(),
    {
        TierTable { entries: Table::new() }
    }

    /// What a tier is worth.
    fn get(&self, tier: u32) -> (r: Option<TierConfig>)
        ensures
            tiers_bounded(self.entries@),
            match r {
                Some(c) => self.entries@.dom().contains(ReferralSlot::TierConfig(tier))
                    && self.entries@[ReferralSlot::TierConfig(tier)] == c,
                None => !self.entries@.dom().contains(ReferralSlot::TierConfig(tier)),
            },
    {
        proof {
            use_type_invariant(self);
        }
        match self.entries.get(&ReferralKey::TierConfig(tier)) {
            Some(c) => Some(*c),
            None => None,
        }
    }

    /// Configures a tier.
    fn set(&mut self, tier: u32, config: TierConfig)
        requires
            config.total_rebate_bps <= MAX_BPS,
            config.discount_share_bps <= MAX_BPS,
        ensures
            final(self).entries@ == old(self).entries@.insert(
                ReferralSlot::TierConfig(tier),
                config,
            ),
    {
        proof {
            use_type_invariant(&*self);
        }
        let mut entries: Table<ReferralKey, TierConfig> = Table::new();
        std::mem::swap(&mut entries, &mut self.entries);
        entries.set(ReferralKey::TierConfig(tier), config);
        self.entries = entries;
    }
}

/// The referral storage.
pub struct ReferralStorage {
    admin: Option<Address>,
    order_handler: Option<Address>,
    owners: Table<ReferralKey, Address>,
    codes: Table<ReferralKey, Vec<u8>>,
    tiers: Table<ReferralKey, u32>,
    configs: TierTable,
    amounts: Table<ReferralKey, u128>,
}

impl View for ReferralStorage {
    type V = Referrals;

    closed spec fn view(&self) -> Referrals {
        Referrals {
            admin: self.admin,
            order_handler: self.order_handler,
            owners: self.owners@,
            codes: self.codes@.map_values(|code: Vec<u8>| code@),
            tiers: self.tiers@,
            configs: self.configs.entries@,
            amounts: self.amounts@,
        }
    }
}

/// The owner of a code.
pub open spec fn owner_of(r: Referrals, code: Seq<u8>) -> Option<Address> {
    if r.owners.dom().contains(ReferralSlot::CodeOwner(code)) {
        Some(r.owners[ReferralSlot::CodeOwner(code)])
    } else {
        None
    }
}

/// The code that a trader trades under.
pub open spec fn code_of(r: Referrals, trader: Address) -> Option<Seq<u8>> {
    if r.codes.dom().contains(ReferralSlot::TraderCode(trader)) {
        Some(r.codes[ReferralSlot::TraderCode(trader)])
    } else {
        None
    }
}

/// The owner of the code that a trader trades under.
pub open spec fn referrer_of(r: Referrals, trader: Address) -> Option<Address> {
    match code_of(r, trader) {
        None => None,
        Some(code) => owner_of(r, code),
    }
}

/// The tier of a referrer; the lowest where none was set.
pub open spec fn tier_of(r: Referrals, referrer: Address) -> u32 {
    if r.tiers.dom().contains(ReferralSlot::ReferrerTier(referrer)) {
        r.tiers[ReferralSlot::ReferrerTier(referrer)]
    } else {
        0
    }
}

/// What a tier is worth.
pub open spec fn config_of(r: Referrals, tier: u32) -> Option<TierConfig> {
    if r.configs.dom().contains(ReferralSlot::TierConfig(tier)) {
        Some(r.configs[ReferralSlot::TierConfig(tier)])
    } else {
        None
    }
}

/// The amount in a slot; zero where none was stored.
pub open spec fn amount_at(r: Referrals, slot: ReferralSlot) -> u128 {
    if r.amounts.dom().contains(slot) {
        r.amounts[slot]
    } else {
        0
    }
}

/// What the traders of a referrer have traded.
pub open spec fn volume_of(r: Referrals, referrer: Address) -> u128 {
    amount_at(r, ReferralSlot::ReferrerVolume(referrer))
}

/// Every configured tier pays back at most everything.
pub open spec fn well_formed(r: Referrals) -> bool {
    tiers_bounded(r.configs)
}

// ---------------------------------------------------------------------------
// Codes
// ---------------------------------------------------------------------------

/// A byte that a code may hold: a letter, a digit, a hyphen or an underscore.
pub open spec fn is_code_byte(b: u8) -> bool {
    65 <= b <= 90 || 97 <= b <= 122 || 48 <= b <= 57 || b == 45 || b == 95
}

/// Whether a code is acceptable, or the first thing that is wrong with it.
pub open spec fn code_check(code: Seq<u8>) -> Result<(), Failure> {
    if code.len() == 0 {
        Err(Failure::Referral(Error::EmptyCode))
    } else if code.len() > MAX_REFERRAL_CODE_LENGTH {
        Err(Failure::Referral(Error::CodeTooLong))
    } else if exists|i: int| 0 <= i < code.len() && !is_code_byte(#[trigger] code[i]) {
        Err(Failure::Referral(Error::InvalidCodeCharacters))
    } else {
        Ok(())
    }
}

/// Checks a code.
pub fn validate_code(code: &Vec<u8>) -> (r: Result<(), Failure>)
    ensures
        r == code_check(code@),
{
    if code.len() == 0 {
        return Err(Failure::Referral(Error::EmptyCode));
    }
    if code.len() > MAX_REFERRAL_CODE_LENGTH as usize {
        return Err(Failure::Referral(Error::CodeTooLong));
    }
    let mut i: usize = 0;
    while i < code.len()
        invariant
            i <= code.len(),
            0 < code.len() <= MAX_REFERRAL_CODE_LENGTH,
            forall|j: int| 0 <= j < i ==> is_code_byte(#[trigger] code@[j]),
        decreases code.len() - i,
    {
        let b: u8 = code[i];
        if !((65 <= b && b <= 90) || (97 <= b && b <= 122) || (48 <= b && b <= 57) || b == 45 || b
            == 95) {
            assert(!is_code_byte(code@[i as int]));
            return Err(Failure::Referral(Error::InvalidCodeCharacters));
        }
        i = i + 1;
    }
    Ok(())
}

// ---------------------------------------------------------------------------
// What the calls do
// ---------------------------------------------------------------------------

/// The caller is the admin and authorised the call.
pub open spec fn admin_check(r: Referrals, ledger: Ledger, caller: Address) -> Result<(), Failure> {
    if !ledger.authorised(caller) {
        Err(Failure::MissingAuthorisation)
    } else {
        match r.admin {
            None => Err(Failure::Referral(Error::NotInitialized)),
            Some(admin) => if caller != admin {
                Err(Failure::Referral(Error::Unauthorized))
            } else {
                Ok(())
            },
        }
    }
}

/// What `register_code` makes of the storage, or why it is rejected.
pub open spec fn registered(r: Referrals, ledger: Ledger, caller: Address, code: Seq<u8>) -> Result<
    Referrals,
    Failure,
> {
    if !ledger.authorised(caller) {
        Err(Failure::MissingAuthorisation)
    } else {
        match code_check(code) {
            Err(e) => Err(e),
            Ok(_) => if owner_of(r, code) is Some {
                Err(Failure::Referral(Error::CodeAlreadyTaken))
            } else {
                Ok(
                    Referrals {
                        owners: r.owners.insert(ReferralSlot::CodeOwner(code), caller),
                        ..r
                    },
                )
            },
        }
    }
}

/// What `set_trader_referral_code` makes of the storage, or why it is rejected.
pub open spec fn linked(r: Referrals, ledger: Ledger, trader: Address, code: Seq<u8>) -> Result<
    Referrals,
    Failure,
> {
    if !ledger.authorised(trader) {
        Err(Failure::MissingAuthorisation)
    } else if owner_of(r, code) is None {
        Err(Failure::Referral(Error::CodeNotFound))
    } else {
        Ok(Referrals { codes: r.codes.insert(ReferralSlot::TraderCode(trader), code), ..r })
    }
}

/// What `transfer_code_ownership` makes of the storage, or why it is rejected.
pub open spec fn handed_over(
    r: Referrals,
    ledger: Ledger,
    from: Address,
    to: Address,
    code: Seq<u8>,
) -> Result<Referrals, Failure> {
    if !ledger.authorised(from) {
        Err(Failure::MissingAuthorisation)
    } else {
        match owner_of(r, code) {
            None => Err(Failure::Referral(Error::CodeNotFound)),
            Some(owner) => if owner != from {
                Err(Failure::Referral(Error::NotCodeOwner))
            } else {
                Ok(Referrals { owners: r.owners.insert(ReferralSlot::CodeOwner(code), to), ..r })
            },
        }
    }
}

/// What `set_referrer_tier` makes of the storage, or why it is rejected.
pub open spec fn tier_set(
    r: Referrals,
    ledger: Ledger,
    admin: Address,
    referrer: Address,
    tier: u32,
) -> Result<Referrals, Failure> {
    match admin_check(r, ledger, admin) {
        Err(e) => Err(e),
        Ok(_) => if tier > MAX_TIER {
            Err(Failure::Referral(Error::InvalidTier))
        } else {
            Ok(Referrals { tiers: r.tiers.insert(ReferralSlot::ReferrerTier(referrer), tier), ..r })
        },
    }
}

/// What `set_tier_config` makes of the storage, or why it is rejected.
pub open spec fn config_set(
    r: Referrals,
    ledger: Ledger,
    admin: Address,
    tier: u32,
    config: TierConfig,
) -> Result<Referrals, Failure> {
    match admin_check(r, ledger, admin) {
        Err(e) => Err(e),
        Ok(_) => if tier > MAX_TIER {
            Err(Failure::Referral(Error::InvalidTier))
        } else if config.total_rebate_bps > MAX_BPS || config.discount_share_bps > MAX_BPS {
            Err(Failure::Referral(Error::InvalidInput))
        } else {
            Ok(Referrals { configs: r.configs.insert(ReferralSlot::TierConfig(tier), config), ..r })
        },
    }
}

/// What `set_tier_upgrade_threshold` makes of the storage, or why it is
/// rejected.
pub open spec fn threshold_set(
    r: Referrals,
    ledger: Ledger,
    admin: Address,
    tier: u32,
    threshold_usd: u128,
) -> Result<Referrals, Failure> {
    match admin_check(r, ledger, admin) {
        Err(e) => Err(e),
        Ok(_) => if tier > MAX_TIER {
            Err(Failure::Referral(Error::InvalidTier))
        } else {
            Ok(
                Referrals {
                    amounts: r.amounts.insert(
                        ReferralSlot::TierUpgradeThreshold(tier),
                        threshold_usd,
                    ),
                    ..r
                },
            )
        },
    }
}

/// A volume reaches a tier that has a threshold.
pub open spec fn reaches(r: Referrals, volume: u128, tier: u32) -> bool {
    let threshold = amount_at(r, ReferralSlot::TierUpgradeThreshold(tier));
    threshold > 0 && volume >= threshold
}

/// The tier that a volume earns on top of a current one: never a lower one.
pub open spec fn earned_tier(r: Referrals, volume: u128, current: u32) -> u32 {
    if reaches(r, volume, 2) && current < 2 {
        2
    } else if reaches(r, volume, 1) && current < 1 {
        1
    } else {
        current
    }
}

/// The storage with a volume counted for a referrer, and the tier that it earns.
pub open spec fn volume_added(r: Referrals, referrer: Address, volume_usd: u128) -> Referrals {
    let volume = math::saturated(volume_of(r, referrer) + volume_usd);
    let counted = Referrals {
        amounts: r.amounts.insert(ReferralSlot::ReferrerVolume(referrer), volume),
        ..r
    };
    let tier = earned_tier(counted, volume, tier_of(r, referrer));
    if tier == tier_of(r, referrer) {
        counted
    } else {
        Referrals {
            tiers: r.tiers.insert(ReferralSlot::ReferrerTier(referrer), tier),
            ..counted
        }
    }
}

/// What `increment_referrer_volume` makes of the storage, or why it is rejected.
pub open spec fn volume_counted(
    r: Referrals,
    ledger: Ledger,
    caller: Address,
    trader: Address,
    volume_usd: u128,
) -> Result<Referrals, Failure> {
    if !ledger.authorised(caller) {
        Err(Failure::MissingAuthorisation)
    } else if r.order_handler != Some(caller) {
        Err(Failure::Referral(Error::Unauthorized))
    } else {
        match referrer_of(r, trader) {
            None => Ok(r),
            Some(referrer) => Ok(volume_added(r, referrer, volume_usd)),
        }
    }
}

/// What a tier's configuration is worth to a trader.
pub open spec fn discount(c: TierConfig) -> int {
    c.total_rebate_bps * c.discount_share_bps / 10_000
}

/// What `get_trader_discount_bps` returns.
pub open spec fn discount_of(r: Referrals, trader: Address) -> int {
    match referrer_of(r, trader) {
        None => 0,
        Some(referrer) => match config_of(r, tier_of(r, referrer)) {
            None => 0,
            Some(c) => discount(c),
        },
    }
}

impl ReferralStorage {
    /// A storage that is not set up yet.
    pub fn new() -> (r: Self)
        ensures
            r@ == (Referrals {
                admin: None,
                order_handler: None,
                owners: Map::empty(),
                codes: Map::empty(),
                tiers: Map::empty(),
                configs: Map::empty(),
                amounts: Map::empty(),
            }),
    {
        let r = ReferralStorage {
            admin: None,
            order_handler: None,
            owners: Table::new(),
            codes: Table::new(),
            tiers: Table::new(),
            configs: TierTable::new(),
            amounts: Table::new(),
        };
        assert(r@.codes =~= Map::empty());
        r
    }

    /// Sets the storage up, once.
    pub fn initialize(&mut self, ledger: &Ledger, admin: Address) -> (r: Result<(), Failure>)
        ensures
            r == if !ledger.authorised(admin) {
                Err::<(), Failure>(Failure::MissingAuthorisation)
            } else if old(self)@.admin is Some {
                Err(Failure::Referral(Error::AlreadyInitialized))
            } else {
                Ok(())
            },
            final(self)@ == if r is Ok {
                Referrals { admin: Some(admin), ..old(self)@ }
            } else {
                old(self)@
            },
    {
        ledger.require_auth(&admin)?;
        if self.admin.is_some() {
            return Err(Failure::Referral(Error::AlreadyInitialized));
        }
        self.admin = Some(admin);
        Ok(())
    }

    /// Asks for the contract's code to be replaced.  Only the admin may.
    pub fn upgrade(&self, ledger: &Ledger, out: &mut Vec<Action>, new_wasm_hash: Bytes32) -> (r:
        Result<(), Failure>)
        ensures
            r == match self@.admin {
                None => Err::<(), Failure>(Failure::Referral(Error::NotInitialized)),
                Some(admin) => if ledger.authorised(admin) {
                    Ok(())
                } else {
                    Err(Failure::MissingAuthorisation)
                },
            },
            final(out)@ == if r is Ok {
                old(out)@.push(Action::UpdateCurrentContract { wasm_hash: new_wasm_hash })
            } else {
                old(out)@
            },
    {
        match &self.admin {
            None => Err(Failure::Referral(Error::NotInitialized)),
            Some(admin) => {
                ledger.require_auth(admin)?;
                out.push(Action::UpdateCurrentContract { wasm_hash: new_wasm_hash });
                Ok(())
            },
        }
    }

    /// Passes when the caller is the admin and authorised the call.
    fn require_admin(&self, ledger: &Ledger, caller: &Address) -> (r: Result<(), Failure>)
        ensures
            r == admin_check(self@, *ledger, *caller),
    {
        ledger.require_auth(caller)?;
        match &self.admin {
            None => Err(Failure::Referral(Error::NotInitialized)),
            Some(admin) => if *caller != *admin {
                Err(Failure::Referral(Error::Unauthorized))
            } else {
                Ok(())
            },
        }
    }

    /// Registers a code; the caller becomes its owner.
    pub fn register_code(
        &mut self,
        ledger: &Ledger,
        out: &mut Vec<Action>,
        caller: Address,
        code: Vec<u8>,
    ) -> (r: Result<(), Failure>)
        ensures
            match registered(old(self)@, *ledger, caller, code@) {
                Ok(s) => {
                    &&& r == Ok::<(), Failure>(())
                    &&& final(self)@ == s
                    &&& final(out)@ == old(out)@.push(
                        Action::Publish(Event::CodeRegistered(CodeRegistered { caller, code })),
                    )
                },
                Err(e) => {
                    &&& r == Err::<(), Failure>(e)
                    &&& final(self)@ == old(self)@
                    &&& final(out)@ == old(out)@
                },
            },
    {
        ledger.require_auth(&caller)?;
        validate_code(&code)?;
        let key = ReferralKey::CodeOwner(copy_bytes(&code));
        if self.owners.has(&key) {
            return Err(Failure::Referral(Error::CodeAlreadyTaken));
        }
        self.owners.set(key, caller);
        out.push(Action::Publish(Event::CodeRegistered(CodeRegistered { caller, code })));
        Ok(())
    }

    /// Lets a trader trade under a registered code.
    pub fn set_trader_referral_code(
        &mut self,
        ledger: &Ledger,
        out: &mut Vec<Action>,
        trader: Address,
        code: Vec<u8>,
    ) -> (r: Result<(), Failure>)
        ensures
            match linked(old(self)@, *ledger, trader, code@) {
                Ok(s) => {
                    &&& r == Ok::<(), Failure>(())
                    &&& final(self)@ == s
                    &&& final(out)@ == old(out)@.push(
                        Action::Publish(Event::TraderCodeSet(TraderCodeSet { trader, code })),
                    )
                },
                Err(e) => {
                    &&& r == Err::<(), Failure>(e)
                    &&& final(self)@ == old(self)@
                    &&& final(out)@ == old(out)@
                },
            },
    {
        ledger.require_auth(&trader)?;
        if self.get_code_owner(&code).is_none() {
            return Err(Failure::Referral(Error::CodeNotFound));
        }
        self.codes.set(ReferralKey::TraderCode(trader), copy_bytes(&code));
        assert(self@.codes =~= old(self)@.codes.insert(ReferralSlot::TraderCode(trader), code@));
        out.push(Action::Publish(Event::TraderCodeSet(TraderCodeSet { trader, code })));
        Ok(())
    }

    /// The owner of the code that a trader trades under.
    pub fn get_trader_referrer(&self, trader: &Address) -> (r: Option<Address>)
        ensures
            r == referrer_of(self@, *trader),
    {
        match self.codes.get(&ReferralKey::TraderCode(*trader)) {
            None => None,
            Some(code) => self.get_code_owner(code),
        }
    }

    /// The code that a trader trades under.
    pub fn get_trader_referral_code(&self, trader: &Address) -> (r: Option<&Vec<u8>>)
        ensures
            match r {
                Some(code) => code_of(self@, *trader) == Some(code@),
                None => code_of(self@, *trader) is None,
            },
    {
        self.codes.get(&ReferralKey::TraderCode(*trader))
    }

    /// Sets the tier of a referrer.  Only the admin may.
    pub fn set_referrer_tier(
        &mut self,
        ledger: &Ledger,
        admin: Address,
        referrer: Address,
        tier: u32,
    ) -> (r: Result<(), Failure>)
        ensures
            match tier_set(old(self)@, *ledger, admin, referrer, tier) {
                Ok(s) => r == Ok::<(), Failure>(()) && final(self)@ == s,
                Err(e) => r == Err::<(), Failure>(e) && final(self)@ == old(self)@,
            },
    {
        self.require_admin(ledger, &admin)?;
        if tier > MAX_TIER {
            return Err(Failure::Referral(Error::InvalidTier));
        }
        self.tiers.set(ReferralKey::ReferrerTier(referrer), tier);
        Ok(())
    }

    /// Sets what a tier is worth.  Only the admin may.
    pub fn set_tier_config(
        &mut self,
        ledger: &Ledger,
        admin: Address,
        tier: u32,
        config: TierConfig,
    ) -> (r: Result<(), Failure>)
        ensures
            match config_set(old(self)@, *ledger, admin, tier, config) {
                Ok(s) => r == Ok::<(), Failure>(()) && final(self)@ == s,
                Err(e) => r == Err::<(), Failure>(e) && final(self)@ == old(self)@,
            },
    {
        self.require_admin(ledger, &admin)?;
        if tier > MAX_TIER {
            return Err(Failure::Referral(Error::InvalidTier));
        }
        if config.total_rebate_bps > MAX_BPS || config.discount_share_bps > MAX_BPS {
            return Err(Failure::Referral(Error::InvalidInput));
        }
        self.configs.set(tier, config);
        Ok(())
    }

    /// Sets the volume from which a referrer is raised to a tier; zero raises
    /// nobody.  Only the admin may.
    pub fn set_tier_upgrade_threshold(
        &mut self,
        ledger: &Ledger,
        admin: Address,
        tier: u32,
        threshold_usd: u128,
    ) -> (r: Result<(), Failure>)
        ensures
            match threshold_set(old(self)@, *ledger, admin, tier, threshold_usd) {
                Ok(s) => r == Ok::<(), Failure>(()) && final(self)@ == s,
                Err(e) => r == Err::<(), Failure>(e) && final(self)@ == old(self)@,
            },
    {
        self.require_admin(ledger, &admin)?;
        if tier > MAX_TIER {
            return Err(Failure::Referral(Error::InvalidTier));
        }
        self.amounts.set(ReferralKey::TierUpgradeThreshold(tier), threshold_usd);
        Ok(())
    }

    /// Names the order handler that reports traded volumes.  Only the admin may.
    pub fn set_order_handler(&mut self, ledger: &Ledger, admin: Address, order_handler: Address) -> (r:
        Result<(), Failure>)
        ensures
            r == admin_check(old(self)@, *ledger, admin),
            final(self)@ == if r is Ok {
                Referrals { order_handler: Some(order_handler), ..old(self)@ }
            } else {
                old(self)@
            },
    {
        self.require_admin(ledger, &admin)?;
        self.order_handler = Some(order_handler);
        Ok(())
    }

    /// Hands a code to a new owner, who is from then on the referrer of everyone
    /// who trades under it.  Only the owner may.
    pub fn transfer_code_ownership(
        &mut self,
        ledger: &Ledger,
        out: &mut Vec<Action>,
        from: Address,
        to: Address,
        code: Vec<u8>,
    ) -> (r: Result<(), Failure>)
        ensures
            match handed_over(old(self)@, *ledger, from, to, code@) {
                Ok(s) => {
                    &&& r == Ok::<(), Failure>(())
                    &&& final(self)@ == s
                    &&& final(out)@ == old(out)@.push(
                        Action::Publish(
                            Event::CodeOwnershipTransferred(
                                CodeOwnershipTransferred { code, from, to },
                            ),
                        ),
                    )
                },
                Err(e) => {
                    &&& r == Err::<(), Failure>(e)
                    &&& final(self)@ == old(self)@
                    &&& final(out)@ == old(out)@
                },
            },
    {
        ledger.require_auth(&from)?;
        match self.get_code_owner(&code) {
            None => {
                return Err(Failure::Referral(Error::CodeNotFound));
            },
            Some(owner) => {
                if owner != from {
                    return Err(Failure::Referral(Error::NotCodeOwner));
                }
            },
        }
        self.owners.set(ReferralKey::CodeOwner(copy_bytes(&code)), to);
        out.push(
            Action::Publish(
                Event::CodeOwnershipTransferred(CodeOwnershipTransferred { code, from, to }),
            ),
        );
        Ok(())
    }

    /// The owner of a code.
    pub fn get_code_owner(&self, code: &Vec<u8>) -> (r: Option<Address>)
        ensures
            r == owner_of(self@, code@),
    {
        match self.owners.get(&ReferralKey::CodeOwner(copy_bytes(code))) {
            Some(owner) => Some(*owner),
            None => None,
        }
    }

    /// The tier of a referrer.
    fn referrer_tier(&self, referrer: &Address) -> (r: u32)
        ensures
            r == tier_of(self@, *referrer),
    {
        match self.tiers.get(&ReferralKey::ReferrerTier(*referrer)) {
            Some(tier) => *tier,
            None => 0,
        }
    }

    /// The discount of a trader in basis points; nothing without a code, without
    /// an owner of it or without a configured tier.
    pub fn get_trader_discount_bps(&self, trader: &Address) -> (r: u32)
        ensures
            r == discount_of(self@, *trader),
            r <= MAX_BPS,
    {
        let referrer = match self.get_trader_referrer(trader) {
            Some(referrer) => referrer,
            None => {
                return 0;
            },
        };
        let tier: u32 = self.referrer_tier(&referrer);
        match self.configs.get(tier) {
            None => 0,
            Some(config) => {
                assert(config_of(self@, tier) == Some(config));
                assert(config.total_rebate_bps * config.discount_share_bps <= 10_000 * 10_000)
                    by (nonlinear_arith)
                    requires
                        config.total_rebate_bps <= 10_000,
                        config.discount_share_bps <= 10_000,
                ;
                config.total_rebate_bps * config.discount_share_bps / 10_000
            },
        }
    }

    /// The amount under a key.
    fn amount(&self, key: &ReferralKey) -> (r: u128)
        ensures
            r == amount_at(self@, key.id()),
    {
        match self.amounts.get(key) {
            Some(amount) => *amount,
            None => 0,
        }
    }

    /// What the traders of a referrer have traded.
    pub fn get_referrer_cumulative_volume(&self, referrer: &Address) -> (r: u128)
        ensures
            r == volume_of(self@, *referrer),
    {
        self.amount(&ReferralKey::ReferrerVolume(*referrer))
    }

    /// Whether a volume reaches a tier.
    fn is_reached(&self, volume: u128, tier: u32) -> (r: bool)
        ensures
            r == reaches(self@, volume, tier),
    {
        let threshold: u128 = self.amount(&ReferralKey::TierUpgradeThreshold(tier));
        threshold > 0 && volume >= threshold
    }

    /// Counts what a trader has traded for the owner of the trader's code, and
    /// raises that owner to the tier that the volume earns.  Only the named order
    /// handler may.
    pub fn increment_referrer_volume(
        &mut self,
        ledger: &Ledger,
        caller: Address,
        trader: Address,
        volume_usd: u128,
    ) -> (r: Result<(), Failure>)
        ensures
            match volume_counted(old(self)@, *ledger, caller, trader, volume_usd) {
                Ok(s) => r == Ok::<(), Failure>(()) && final(self)@ == s,
                Err(e) => r == Err::<(), Failure>(e) && final(self)@ == old(self)@,
            },
    {
        ledger.require_auth(&caller)?;
        match &self.order_handler {
            Some(order_handler) => {
                if *order_handler != caller {
                    return Err(Failure::Referral(Error::Unauthorized));
                }
            },
            None => {
                return Err(Failure::Referral(Error::Unauthorized));
            },
        }
        if let Some(referrer) = self.get_trader_referrer(&trader) {
            let current: u32 = self.referrer_tier(&referrer);
            let volume: u128 = self.get_referrer_cumulative_volume(&referrer).saturating_add(
                volume_usd,
            );
            self.amounts.set(ReferralKey::ReferrerVolume(referrer), volume);
            let tier: u32 = if current < 2 && self.is_reached(volume, 2) {
                2
            } else if current < 1 && self.is_reached(volume, 1) {
                1
            } else {
                current
            };
            if tier != current {
                self.tiers.set(ReferralKey::ReferrerTier(referrer), tier);
            }
        }
        Ok(())
    }
}

// ---------------------------------------------------------------------------
// Laws
// ---------------------------------------------------------------------------

/// A registered code belongs to whoever registered it, nobody can register it
/// again, and no other code changes hands.
pub proof fn registration_is_exclusive(
    r: Referrals,
    ledger: Ledger,
    caller: Address,
    code: Seq<u8>,
    again: Address,
    other: Seq<u8>,
)
    ensures
        registered(r, ledger, caller, code) matches Ok(s) ==> {
            &&& owner_of(s, code) == Some(caller)
            &&& registered(s, ledger, again, code) is Err
            &&& other != code ==> owner_of(s, other) == owner_of(r, other)
        },
{
}

/// A trader who takes up a code has its owner as referrer, and a new owner of the
/// code becomes the referrer at once.
pub proof fn referrer_follows_the_code(
    r: Referrals,
    ledger: Ledger,
    trader: Address,
    code: Seq<u8>,
    from: Address,
    to: Address,
)
    ensures
        linked(r, ledger, trader, code) matches Ok(s) ==> {
            &&& referrer_of(s, trader) == owner_of(r, code)
            &&& handed_over(s, ledger, from, to, code) matches Ok(t) ==> referrer_of(t, trader)
                == Some(to)
        },
{
}

/// Only the owner of a code can hand it over.
pub proof fn only_the_owner_hands_over(
    r: Referrals,
    ledger: Ledger,
    from: Address,
    to: Address,
    code: Seq<u8>,
)
    requires
        handed_over(r, ledger, from, to, code) is Ok,
    ensures
        owner_of(r, code) == Some(from),
        ledger.authorised(from),
{
}

/// A discount is never more than everything, and a trader without a code has
/// none.
pub proof fn discounts_are_bounded(r: Referrals, trader: Address)
    requires
        well_formed(r),
    ensures
        0 <= discount_of(r, trader) <= MAX_BPS,
        code_of(r, trader) is None ==> discount_of(r, trader) == 0,
{
    if let Some(referrer) = referrer_of(r, trader) {
        if let Some(c) = config_of(r, tier_of(r, referrer)) {
            assert(0 <= c.total_rebate_bps * c.discount_share_bps <= 10_000 * 10_000)
                by (nonlinear_arith)
                requires
                    c.total_rebate_bps <= 10_000,
                    c.discount_share_bps <= 10_000,
            ;
        }
    }
}

/// Traded volume only ever raises a referrer: neither the volume nor the tier
/// falls.
pub proof fn volume_never_demotes(
    r: Referrals,
    ledger: Ledger,
    caller: Address,
    trader: Address,
    volume_usd: u128,
    referrer: Address,
)
    ensures
        volume_counted(r, ledger, caller, trader, volume_usd) matches Ok(s) ==> {
            &&& tier_of(s, referrer) >= tier_of(r, referrer)
            &&& volume_of(s, referrer) >= volume_of(r, referrer)
            &&& r.order_handler == Some(caller)
        },
{
}

} // verus!
