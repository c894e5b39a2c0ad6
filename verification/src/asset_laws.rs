//! What the store, the referral storage, the test token, the faucet and the
//! market factory come to, in plain terms of what they are given.

use crate::actions::{Action, Event};
use crate::data_store::{Key, Member, Store};
use crate::failure::Failure;
use crate::ledger::Ledger;
use crate::market_factory;
use crate::referral_storage;
use crate::referral_storage::{ReferralSlot, Referrals, TierConfig};
use crate::role_store::{Grant, Role};
use crate::test_faucet;
use crate::test_faucet::{ClaimKey, Faucet};
use crate::test_token;
use crate::test_token::{AllowanceKey, Token};
use crate::types::{Address, Bytes32, MarketProps};
use vstd::prelude::*;

verus! {

// ---------------------------------------------------------------------------
// The store
// ---------------------------------------------------------------------------

/// What is written is what is read, under its key and no other; nothing written
/// is zero, down or absent.
pub proof fn reads_give_back_writes(
    s: Store,
    key: Key,
    other: Key,
    x: u128,
    y: i128,
    f: bool,
    a: Address,
)
    ensures
        s.with_u128(key, x).u128_at(key) == x,
        s.with_i128(key, y).i128_at(key) == y,
        s.with_flag(key, f).flag_at(key) == f,
        s.with_address(key, a).address_at(key) == Some(a),
        other != key ==> s.with_u128(key, x).u128_at(other) == s.u128_at(other),
        other != key ==> s.with_i128(key, y).i128_at(other) == s.i128_at(other),
        other != key ==> s.with_flag(key, f).flag_at(other) == s.flag_at(other),
        other != key ==> s.with_address(key, a).address_at(other) == s.address_at(other),
        !s.words.dom().contains(key) ==> s.u128_at(key) == 0,
        !s.ints.dom().contains(key) ==> s.i128_at(key) == 0,
        !s.flags.dom().contains(key) ==> !s.flag_at(key),
        !s.addresses.dom().contains(key) ==> s.address_at(key) is None,
{
}

/// A member that was added is on its list and one that was taken off is not, and
/// no other membership changes.
pub proof fn lists_follow_their_members(s: Store, member: Member, other: Member)
    ensures
        s.enlisted(member).lists(member),
        !s.delisted(member).lists(member),
        other != member ==> s.enlisted(member).lists(other) == s.lists(other),
        other != member ==> s.delisted(member).lists(other) == s.lists(other),
        !s.lists(member) ==> (member matches Member::PositionList(key) ==> s.enlisted(
            member,
        ).positions == s.positions.push(key)),
{
}

/// An amount is added exactly, and only where the sum is one that the store can
/// hold.
pub proof fn shifts_add_exactly(s: Store, key: Key, delta: int)
    ensures
        s.can_shift(key, delta) == (0 <= s.u128_at(key) + delta <= u128::MAX),
        s.can_shift(key, delta) ==> s.shifted(key, delta).u128_at(key) == s.u128_at(key) + delta,
        s.can_move(key, delta) == (i128::MIN <= s.i128_at(key) + delta <= i128::MAX),
        s.can_move(key, delta) ==> s.moved(key, delta).i128_at(key) == s.i128_at(key) + delta,
{
}

// ---------------------------------------------------------------------------
// Referrals
// ---------------------------------------------------------------------------

/// A letter, a digit, a hyphen or an underscore.
pub open spec fn is_plain(b: u8) -> bool {
    (b >= 'A' as u8 && b <= 'Z' as u8) || (b >= 'a' as u8 && b <= 'z' as u8) || (b >= '0' as u8
        && b <= '9' as u8) || b == '-' as u8 || b == '_' as u8
}

/// A code has one to 20 letters, digits, hyphens and underscores.  Whoever signed
/// gets one that nobody has, and nothing else changes.
pub proof fn codes_are_plain_and_free(r: Referrals, ledger: Ledger, caller: Address, code: Seq<u8>)
    ensures
        ({
            let slot = ReferralSlot::CodeOwner(code);
            let plain = forall|i: int| 0 <= i < code.len() ==> is_plain(#[trigger] code[i]);
            match referral_storage::registered(r, ledger, caller, code) {
                Ok(s) => {
                    &&& ledger.signers@.contains(caller)
                    &&& 1 <= code.len() <= 20 && plain
                    &&& !r.owners.dom().contains(slot)
                    &&& s == (Referrals { owners: r.owners.insert(slot, caller), ..r })
                },
                Err(Failure::MissingAuthorisation) => !ledger.signers@.contains(caller),
                Err(Failure::Referral(referral_storage::Error::EmptyCode)) => code.len() == 0,
                Err(Failure::Referral(referral_storage::Error::CodeTooLong)) => code.len() > 20,
                Err(Failure::Referral(referral_storage::Error::InvalidCodeCharacters)) => !plain,
                Err(e) => e == Failure::Referral(referral_storage::Error::CodeAlreadyTaken)
                    && r.owners.dom().contains(slot),
            }
        }),
{
    assert forall|b: u8| #[trigger] is_plain(b) == referral_storage::is_code_byte(b) by {}
    assert forall|b: u8| is_plain(b) == #[trigger] referral_storage::is_code_byte(b) by {}
}

/// A trader who signed takes up a code that somebody has; the owner of a code who
/// signed hands it over.
pub proof fn codes_are_taken_up_and_handed_over(
    r: Referrals,
    ledger: Ledger,
    trader: Address,
    from: Address,
    to: Address,
    code: Seq<u8>,
)
    ensures
        ({
            let slot = ReferralSlot::CodeOwner(code);
            match referral_storage::linked(r, ledger, trader, code) {
                Ok(s) => ledger.signers@.contains(trader) && r.owners.dom().contains(slot) && s
                    == (Referrals {
                    codes: r.codes.insert(ReferralSlot::TraderCode(trader), code),
                    ..r
                }),
                Err(Failure::MissingAuthorisation) => !ledger.signers@.contains(trader),
                Err(e) => e == Failure::Referral(referral_storage::Error::CodeNotFound)
                    && !r.owners.dom().contains(slot),
            }
        }),
        ({
            let slot = ReferralSlot::CodeOwner(code);
            match referral_storage::handed_over(r, ledger, from, to, code) {
                Ok(s) => ledger.signers@.contains(from) && r.owners.dom().contains(slot)
                    && r.owners[slot] == from && s == (Referrals {
                    owners: r.owners.insert(slot, to),
                    ..r
                }),
                Err(Failure::MissingAuthorisation) => !ledger.signers@.contains(from),
                Err(Failure::Referral(referral_storage::Error::CodeNotFound)) =>
                    !r.owners.dom().contains(slot),
                Err(e) => e == Failure::Referral(referral_storage::Error::NotCodeOwner)
                    && r.owners[slot] != from,
            }
        }),
{
}

/// The administrator who signed sets tiers up to the second, tiers that pay back
/// at most everything, and thresholds; and nothing else changes.
pub proof fn administrators_set_tiers(
    r: Referrals,
    ledger: Ledger,
    admin: Address,
    referrer: Address,
    tier: u32,
    config: TierConfig,
    threshold: u128,
)
    ensures
        referral_storage::tier_set(r, ledger, admin, referrer, tier) matches Ok(s) ==> {
            &&& ledger.signers@.contains(admin) && r.admin == Some(admin) && tier <= 2
            &&& s == (Referrals {
                tiers: r.tiers.insert(ReferralSlot::ReferrerTier(referrer), tier),
                ..r
            })
        },
        referral_storage::config_set(r, ledger, admin, tier, config) matches Ok(s) ==> {
            &&& ledger.signers@.contains(admin) && r.admin == Some(admin) && tier <= 2
            &&& config.total_rebate_bps <= 10_000 && config.discount_share_bps <= 10_000
            &&& s == (Referrals {
                configs: r.configs.insert(ReferralSlot::TierConfig(tier), config),
                ..r
            })
        },
        referral_storage::threshold_set(r, ledger, admin, tier, threshold) matches Ok(s) ==> {
            &&& ledger.signers@.contains(admin) && r.admin == Some(admin) && tier <= 2
            &&& s == (Referrals {
                amounts: r.amounts.insert(ReferralSlot::TierUpgradeThreshold(tier), threshold),
                ..r
            })
        },
        ledger.signers@.contains(admin) && r.admin == Some(admin) && tier <= 2 ==> {
            &&& referral_storage::tier_set(r, ledger, admin, referrer, tier) is Ok
            &&& referral_storage::threshold_set(r, ledger, admin, tier, threshold) is Ok
            &&& config.total_rebate_bps <= 10_000 && config.discount_share_bps <= 10_000
                ==> referral_storage::config_set(r, ledger, admin, tier, config) is Ok
        },
{
}

/// A trader's discount is the share of the rebate of their referrer's tier: the
/// tier of whoever owns the code that the trader took up.
pub proof fn discounts_are_shares_of_the_rebate(r: Referrals, trader: Address)
    ensures
        ({
            let taken = ReferralSlot::TraderCode(trader);
            let owned = ReferralSlot::CodeOwner(r.codes[taken]);
            let referrer = r.owners[owned];
            let rank = ReferralSlot::ReferrerTier(referrer);
            let tier = if r.tiers.dom().contains(rank) {
                r.tiers[rank]
            } else {
                0
            };
            let slot = ReferralSlot::TierConfig(tier);
            let given = referral_storage::discount_of(r, trader);
            if r.codes.dom().contains(taken) && r.owners.dom().contains(owned)
                && r.configs.dom().contains(slot) {
                let product = r.configs[slot].total_rebate_bps * r.configs[slot].discount_share_bps;
                given * 10_000 <= product < (given + 1) * 10_000
            } else {
                given == 0
            }
        }),
{
    let taken = ReferralSlot::TraderCode(trader);
    let referrer = r.owners[ReferralSlot::CodeOwner(r.codes[taken])];
    let rank = ReferralSlot::ReferrerTier(referrer);
    let tier = if r.tiers.dom().contains(rank) {
        r.tiers[rank]
    } else {
        0
    };
    let c = r.configs[ReferralSlot::TierConfig(tier)];
    let product = c.total_rebate_bps * c.discount_share_bps;
    assert(product >= 0) by (nonlinear_arith)
        requires
            product == c.total_rebate_bps * c.discount_share_bps,
    ;
}

/// The order handler, having signed, counts what a trader traded for the owner of
/// the trader's code; a volume that reaches the threshold of a higher tier earns
/// it.  Nothing else changes, and without a referrer nothing does.
pub proof fn volume_is_counted_for_the_referrer(
    r: Referrals,
    ledger: Ledger,
    caller: Address,
    trader: Address,
    volume_usd: u128,
)
    ensures
        match referral_storage::volume_counted(r, ledger, caller, trader, volume_usd) {
            Ok(s) => {
                let taken = ReferralSlot::TraderCode(trader);
                let owned = ReferralSlot::CodeOwner(r.codes[taken]);
                let referrer = r.owners[owned];
                let referred = r.codes.dom().contains(taken) && r.owners.dom().contains(owned);
                let slot = ReferralSlot::ReferrerVolume(referrer);
                let before = if r.amounts.dom().contains(slot) {
                    r.amounts[slot]
                } else {
                    0
                };
                let first = ReferralSlot::TierUpgradeThreshold(1);
                let second = ReferralSlot::TierUpgradeThreshold(2);
                let now = s.amounts[slot];
                let earns_first = r.amounts.dom().contains(first) && r.amounts[first] > 0 && now
                    >= r.amounts[first];
                let earns_second = r.amounts.dom().contains(second) && r.amounts[second] > 0 && now
                    >= r.amounts[second];
                let rank = ReferralSlot::ReferrerTier(referrer);
                let tier = if r.tiers.dom().contains(rank) {
                    r.tiers[rank]
                } else {
                    0
                };
                let later = if s.tiers.dom().contains(rank) {
                    s.tiers[rank]
                } else {
                    0
                };
                &&& ledger.signers@.contains(caller)
                &&& r.order_handler == Some(caller)
                &&& !referred ==> s == r
                &&& referred ==> {
                    &&& before + volume_usd <= u128::MAX ==> now == before + volume_usd
                    &&& before + volume_usd > u128::MAX ==> now == u128::MAX
                    &&& s.amounts == r.amounts.insert(slot, now)
                    &&& earns_second && tier < 2 ==> later == 2
                    &&& !earns_second && earns_first && tier < 1 ==> later == 1
                    &&& tier >= 2 || (!earns_second && (tier >= 1 || !earns_first)) ==> later
                        == tier
                    &&& forall|k: ReferralSlot|
                        k != rank ==> s.tiers.dom().contains(k) == r.tiers.dom().contains(k)
                            && #[trigger] s.tiers[k] == r.tiers[k]
                    &&& s == (Referrals { amounts: s.amounts, tiers: s.tiers, ..r })
                }
            },
            Err(Failure::MissingAuthorisation) => !ledger.signers@.contains(caller),
            Err(e) => e == Failure::Referral(referral_storage::Error::Unauthorized)
                && r.order_handler != Some(caller),
        },
{
}

// ---------------------------------------------------------------------------
// The test token
// ---------------------------------------------------------------------------

/// What an account holds.
pub open spec fn holding(t: Token, id: Address) -> int {
    if t.balances.dom().contains(id) {
        t.balances[id] as int
    } else {
        0
    }
}

/// What a spender is allowed of an account in a ledger.
pub open spec fn allowed(t: Token, from: Address, spender: Address, sequence: u32) -> int {
    let key = AllowanceKey { from, spender };
    if t.allowances.dom().contains(key) && sequence <= t.allowances[key].expiration_ledger {
        t.allowances[key].amount as int
    } else {
        0
    }
}

/// A transfer takes an amount from an account that signed and holds it and gives
/// it to another; no other account, no allowance and no supply changes.  A
/// transfer by a spender also takes it off what the spender is allowed.
pub proof fn transfers_move_the_amount(
    t: Token,
    ledger: Ledger,
    spender: Address,
    from: Address,
    to: Address,
    amount: i128,
)
    ensures
        test_token::transferred(t, ledger, from, to, amount) matches Ok(u) ==> {
            &&& ledger.signers@.contains(from) && !t.is_paused && 0 <= amount <= holding(t, from)
            &&& from != to ==> holding(u, from) == holding(t, from) - amount && holding(u, to)
                == holding(t, to) + amount
            &&& from == to ==> holding(u, from) == holding(t, from)
            &&& forall|id: Address|
                id != from && id != to ==> #[trigger] holding(u, id) == holding(t, id)
            &&& u == (Token { balances: u.balances, ..t })
        },
        test_token::transferred_from(t, ledger, spender, from, to, amount) matches Ok(u) ==> {
            let key = AllowanceKey { from, spender };
            &&& ledger.signers@.contains(spender) && !t.is_paused && 0 <= amount <= holding(t, from)
            &&& amount <= allowed(t, from, spender, ledger.sequence)
            &&& allowed(u, from, spender, ledger.sequence) == allowed(
                t,
                from,
                spender,
                ledger.sequence,
            ) - amount
            &&& from != to ==> holding(u, from) == holding(t, from) - amount && holding(u, to)
                == holding(t, to) + amount
            &&& forall|id: Address|
                id != from && id != to ==> #[trigger] holding(u, id) == holding(t, id)
            &&& forall|k: AllowanceKey|
                k != key ==> u.allowances.dom().contains(k) == t.allowances.dom().contains(k)
                    && #[trigger] u.allowances[k] == t.allowances[k]
            &&& u.allowances.dom().contains(key) ==> u.allowances[key].expiration_ledger
                == t.allowances[key].expiration_ledger
            &&& u == (Token { balances: u.balances, allowances: u.allowances, ..t })
        },
        !t.is_paused && ledger.signers@.contains(from) && 0 <= amount <= holding(t, from)
            && holding(t, to) + amount <= i128::MAX ==> test_token::transferred(
            t,
            ledger,
            from,
            to,
            amount,
        ) is Ok,
{
}

/// The owner who signed mints an amount that is not negative to an account;
/// burning takes an amount that is held from an account that signed, or that a
/// spender is allowed.  The supply changes by the amount, no other balance does.
pub proof fn minting_and_burning_change_the_supply(
    t: Token,
    ledger: Ledger,
    caller: Address,
    account: Address,
    amount: i128,
)
    ensures
        test_token::minted(t, ledger, caller, account, amount) matches Ok(u) ==> {
            &&& ledger.signers@.contains(caller) && t.owner == Some(caller) && !t.is_paused
            &&& amount >= 0
            &&& holding(u, account) == holding(t, account) + amount
            &&& forall|id: Address| id != account ==> #[trigger] holding(u, id) == holding(t, id)
            &&& u.total_supply == t.total_supply + amount
            &&& u == (Token { balances: u.balances, total_supply: u.total_supply, ..t })
        },
        test_token::burned(t, ledger, account, amount) matches Ok(u) ==> {
            &&& ledger.signers@.contains(account) && !t.is_paused && 0 <= amount <= holding(
                t,
                account,
            )
            &&& holding(u, account) == holding(t, account) - amount
            &&& forall|id: Address| id != account ==> #[trigger] holding(u, id) == holding(t, id)
            &&& u.total_supply == t.total_supply - amount
            &&& u == (Token { balances: u.balances, total_supply: u.total_supply, ..t })
        },
        test_token::burned_from(t, ledger, caller, account, amount) matches Ok(u) ==> {
            &&& ledger.signers@.contains(caller) && !t.is_paused && 0 <= amount <= holding(
                t,
                account,
            )
            &&& amount <= allowed(t, account, caller, ledger.sequence)
            &&& allowed(u, account, caller, ledger.sequence) == allowed(
                t,
                account,
                caller,
                ledger.sequence,
            ) - amount
            &&& holding(u, account) == holding(t, account) - amount
            &&& forall|id: Address| id != account ==> #[trigger] holding(u, id) == holding(t, id)
            &&& u.total_supply == t.total_supply - amount
        },
{
}

/// An approval by an account that signed allows exactly the amount until its last
/// ledger, in place of what was allowed before, and takes the allowance away where
/// the amount is nothing.
pub proof fn approvals_allow_exactly(
    t: Token,
    ledger: Ledger,
    from: Address,
    spender: Address,
    amount: i128,
    last: u32,
    sequence: u32,
)
    ensures
        test_token::approved(t, ledger, from, spender, amount, last) matches Ok(u) ==> {
            let key = AllowanceKey { from, spender };
            &&& ledger.signers@.contains(from) && !t.is_paused && amount >= 0
            &&& allowed(u, from, spender, sequence) == if sequence <= last {
                amount as int
            } else {
                0
            }
            &&& test_token::allowance_of(u, from, spender, sequence) == allowed(
                u,
                from,
                spender,
                sequence,
            )
            &&& forall|k: AllowanceKey|
                k != key ==> u.allowances.dom().contains(k) == t.allowances.dom().contains(k)
                    && #[trigger] u.allowances[k] == t.allowances[k]
            &&& u == (Token { allowances: u.allowances, ..t })
        },
        test_token::allowance_of(t, from, spender, sequence) == allowed(t, from, spender, sequence),
        test_token::balance_of(t.balances, from) == holding(t, from),
{
}

// ---------------------------------------------------------------------------
// The faucet
// ---------------------------------------------------------------------------

/// A claim hands an account that signed the amount set for a token that has one,
/// unless the account claimed it before and the cooldown since is not over.
pub proof fn claims_hand_out_the_set_amount(f: Faucet, ledger: Ledger, account: Address, token: Address)
    ensures
        ({
            let key = ClaimKey { account, token };
            let set = f.amounts.dom().contains(token) && f.amounts[token] > 0;
            let cooldown = f.config->0.cooldown_ledgers;
            let last = f.last_claims[key];
            let soon = f.config is Some && f.last_claims.dom().contains(key) && last > 0 && cooldown
                > 0 && ledger.sequence < last + cooldown && ledger.sequence < u32::MAX;
            match test_faucet::claim_result(f, ledger, account, token) {
                Ok(amount) => ledger.signers@.contains(account) && set && !soon && amount
                    == f.amounts[token],
                Err(Failure::MissingAuthorisation) => !ledger.signers@.contains(account),
                Err(Failure::Faucet(test_faucet::Error::TokenNotEnabled)) => !set,
                Err(Failure::Faucet(test_faucet::Error::ClaimTooSoon)) => soon,
                Err(e) => e == Failure::Faucet(test_faucet::Error::NotInitialized) && f.config
                    is None,
            }
        }),
        ({
            let g = test_faucet::recorded(f, account, token, ledger.sequence);
            g == (Faucet {
                last_claims: f.last_claims.insert(ClaimKey { account, token }, ledger.sequence),
                ..f
            })
        }),
{
}

/// Claiming a list is claiming its tokens one after the other: each amount is what
/// a claim would hand out by itself in the faucet that the ones before it leave,
/// and each is minted by the faucet to the account.
pub proof fn claiming_a_list_is_claiming_each(
    f: Faucet,
    ledger: Ledger,
    account: Address,
    tokens: Seq<Address>,
    n: nat,
)
    ensures
        test_faucet::claims(f, ledger, account, tokens, 0) matches Ok(c) && c.faucet == f
            && c.amounts.len() == 0 && c.actions.len() == 0,
        test_faucet::claims(f, ledger, account, tokens, (n + 1) as nat) matches Ok(d) ==> {
            let c = test_faucet::claims(f, ledger, account, tokens, n);
            let amount = test_faucet::claim_result(
                c->Ok_0.faucet,
                ledger,
                account,
                tokens[n as int],
            );
            &&& c is Ok && amount is Ok
            &&& d.amounts == c->Ok_0.amounts.push(amount->Ok_0)
            &&& d.faucet == test_faucet::recorded(
                c->Ok_0.faucet,
                account,
                tokens[n as int],
                ledger.sequence,
            )
            &&& d.actions == c->Ok_0.actions + seq![
                Action::TokenMint {
                    token: tokens[n as int],
                    minter: ledger.current_contract,
                    account,
                    amount: amount->Ok_0,
                },
                Action::Publish(
                    Event::Faucet(
                        test_faucet::FaucetEvent::Claim {
                            account,
                            token: tokens[n as int],
                            amount: amount->Ok_0,
                        },
                    ),
                ),
            ]
        },
{
    reveal_with_fuel(test_faucet::claims, 2);
}

// ---------------------------------------------------------------------------
// Markets
// ---------------------------------------------------------------------------

/// A market keeper who signed creates a market of two different tokens, with the
/// named code, at an address that has none.  It is registered with its flag, its
/// three tokens and seven decimals for each, and joins the end of the list; its
/// token is deployed by the factory, set up with the factory as administrator and
/// announced.
pub proof fn creation_registers_what_was_asked_for(
    f: market_factory::Factory,
    s: Store,
    roles: Set<Grant>,
    ledger: Ledger,
    caller: Address,
    index_token: Address,
    long_token: Address,
    short_token: Address,
    market_type: Bytes32,
    deployed: Address,
)
    ensures
        ({
            let flag = Key::Market { market: deployed };
            let taken = s.flags.dom().contains(flag) && s.flags[flag];
            let m = MarketProps { market_token: deployed, index_token, long_token, short_token };
            match market_factory::new_market(
                f,
                s,
                roles,
                ledger,
                caller,
                index_token,
                long_token,
                short_token,
                market_type,
                deployed,
            ) {
                Ok(x) => {
                    &&& ledger.signers@.contains(caller)
                    &&& roles.contains(Grant { account: caller, role: Role::MarketKeeper })
                    &&& long_token != short_token && !taken
                    &&& f.config is Some && f.wasm_hash is Some
                    &&& x.market == m
                    &&& x.store.flags == s.flags.insert(flag, true)
                    &&& x.store.addresses == s.addresses.insert(
                        Key::MarketIndexToken { market: deployed },
                        index_token,
                    ).insert(Key::MarketLongToken { market: deployed }, long_token).insert(
                        Key::MarketShortToken { market: deployed },
                        short_token,
                    )
                    &&& x.store.u128_at(Key::TokenDecimals { token: index_token }) == 7
                    &&& x.store.u128_at(Key::TokenDecimals { token: long_token }) == 7
                    &&& x.store.u128_at(Key::TokenDecimals { token: short_token }) == 7
                    &&& forall|k: Key|
                        k != (Key::TokenDecimals { token: index_token }) && k
                            != (Key::TokenDecimals { token: long_token }) && k
                            != (Key::TokenDecimals { token: short_token }) ==> #[trigger]
                        x.store.u128_at(k) == s.u128_at(k)
                    &&& !s.markets.contains(deployed) ==> x.store.markets == s.markets.push(
                        deployed,
                    )
                    &&& s.markets.contains(deployed) ==> x.store.markets == s.markets
                    &&& x.actions.len() == 3
                    &&& x.actions[0] == (Action::DeployMarketToken {
                        factory: ledger.current_contract,
                        salt: market_factory::salt_of(
                            index_token,
                            long_token,
                            short_token,
                            market_type,
                        ),
                        wasm_hash: f.wasm_hash->0,
                    })
                    &&& x.actions[1] matches Action::InitializeMarketToken {
                        market_token,
                        admin,
                        role_store,
                        decimals,
                        name,
                        symbol,
                    } && market_token == deployed && admin == ledger.current_contract && role_store
                        == f.config->0.role_store && decimals == 7
                    &&& x.actions[2] == Action::Publish(Event::MarketCreated(m))
                },
                Err(Failure::MissingAuthorisation) => !ledger.signers@.contains(caller),
                Err(Failure::Factory(market_factory::Error::NotInitialized)) => f.config is None,
                Err(Failure::Factory(market_factory::Error::Unauthorized)) => !roles.contains(
                    Grant { account: caller, role: Role::MarketKeeper },
                ),
                Err(Failure::Factory(market_factory::Error::SingleTokenPoolNotSupported)) =>
                    long_token == short_token,
                Err(Failure::Factory(market_factory::Error::WasmHashNotSet)) => f.wasm_hash
                    is None,
                Err(e) => e == Failure::Factory(market_factory::Error::MarketAlreadyExists)
                    && taken,
            }
        }),
{
}

/// A transfer, a mint, a burn and an approval go through where who must sign has
/// signed, the token is not paused, the amount is not negative, is held and is
/// allowed, and every sum is in range.
pub proof fn token_calls_go_through(
    t: Token,
    ledger: Ledger,
    spender: Address,
    from: Address,
    to: Address,
    amount: i128,
    last: u32,
)
    requires
        !t.is_paused,
        0 <= amount,
        ledger.signers@.contains(spender),
        ledger.signers@.contains(from),
    ensures
        test_token::approved(t, ledger, from, spender, amount, last) is Ok,
        t.owner == Some(from) && holding(t, to) + amount <= i128::MAX && t.total_supply + amount
            <= i128::MAX ==> test_token::minted(t, ledger, from, to, amount) is Ok,
        amount <= holding(t, from) && t.total_supply - amount >= i128::MIN ==> test_token::burned(
            t,
            ledger,
            from,
            amount,
        ) is Ok,
        amount <= holding(t, from) && 0 < amount <= allowed(t, from, spender, ledger.sequence)
            && holding(t, to) + amount <= i128::MAX ==> test_token::transferred_from(
            t,
            ledger,
            spender,
            from,
            to,
            amount,
        ) is Ok,
        amount <= holding(t, from) && 0 < amount <= allowed(t, from, spender, ledger.sequence)
            && t.total_supply - amount >= i128::MIN ==> test_token::burned_from(
            t,
            ledger,
            spender,
            from,
            amount,
        ) is Ok,
{
}

/// The administrators' checks: each passes for the administrator who signed and
/// for nobody else.
pub proof fn administrators_are_checked(
    f: market_factory::Factory,
    fees: Option<crate::fee_handler::Config>,
    r: Referrals,
    faucet: Faucet,
    roles: Option<Address>,
    t: Token,
    ledger: Ledger,
    caller: Address,
    grants: Set<Grant>,
)
    ensures
        market_factory::admin_check(f, ledger, caller) is Ok == (ledger.signers@.contains(caller)
            && f.config is Some && f.config->0.admin == caller),
        crate::fee_handler::admin_check(fees, ledger) is Ok == (fees is Some
            && ledger.signers@.contains(fees->0.admin)),
        referral_storage::admin_check(r, ledger, caller) is Ok == (ledger.signers@.contains(caller)
            && r.admin == Some(caller)),
        test_faucet::admin_check(faucet, ledger, caller) is Ok == (ledger.signers@.contains(caller)
            && faucet.config is Some && faucet.config->0.admin == caller),
        crate::role_store::admin_check(roles, ledger, caller) is Ok == (ledger.signers@.contains(
            caller,
        ) && roles == Some(caller)),
        test_token::owned_by(t, ledger, caller) is Ok == (ledger.signers@.contains(caller)
            && t.owner == Some(caller)),
        crate::data_store::write_check(grants, ledger, caller) is Ok == (ledger.signers@.contains(
            caller,
        ) && grants.contains(Grant { account: caller, role: Role::Controller })),
{
}

/// The markets from one place up to another are those at these places of the
/// list, in order, as far as it goes.
pub proof fn listed_markets_are_those_at_their_places(markets: Seq<Address>, start: int, end: int)
    requires
        0 <= start,
    ensures
        ({
            let shown = market_factory::listed_between(markets, start, end);
            let stop = if end < markets.len() {
                end
            } else {
                markets.len() as int
            };
            &&& shown.len() == if start < stop {
                stop - start
            } else {
                0
            }
            &&& forall|i: int| 0 <= i < shown.len() ==> #[trigger] shown[i] == markets[start + i]
        }),
{
}

/// The numbers of the order types.
pub proof fn order_types_are_numbered()
    ensures
        crate::order_cleanup::type_code(crate::types::OrderType::MarketSwap) == 0,
        crate::order_cleanup::type_code(crate::types::OrderType::LimitSwap) == 1,
        crate::order_cleanup::type_code(crate::types::OrderType::MarketIncrease) == 2,
        crate::order_cleanup::type_code(crate::types::OrderType::LimitIncrease) == 3,
        crate::order_cleanup::type_code(crate::types::OrderType::MarketDecrease) == 4,
        crate::order_cleanup::type_code(crate::types::OrderType::LimitDecrease) == 5,
        crate::order_cleanup::type_code(crate::types::OrderType::StopLossDecrease) == 6,
        crate::order_cleanup::type_code(crate::types::OrderType::Liquidation) == 7,
        crate::order_cleanup::type_code(crate::types::OrderType::StopIncrease) == 8,
{
}

} // verus!
