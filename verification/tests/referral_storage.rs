//! Referral codes, tiers and discounts.

use perps::actions::{Action, Event};
use perps::failure::Failure;
use perps::ledger::Ledger;
use perps::referral_storage::{
    validate_code, CodeOwnershipTransferred, CodeRegistered, Error, ReferralStorage, TierConfig,
    TraderCodeSet, MAX_REFERRAL_CODE_LENGTH,
};
use perps::types::{Address, Bytes32};

fn addr(n: u64) -> Address {
    Address { head: 0, body: 0, tail: 0, last: n }
}

fn by(signer: Address) -> Ledger {
    Ledger { timestamp: 0, sequence: 1, current_contract: addr(9), signers: vec![signer] }
}

struct World {
    admin: Address,
    refs: ReferralStorage,
    out: Vec<Action>,
}

fn setup() -> World {
    let admin = addr(1);
    let mut refs = ReferralStorage::new();
    refs.initialize(&by(admin), admin).unwrap();
    World { admin, refs, out: Vec::new() }
}

fn make_code(seed: u8) -> Vec<u8> {
    vec![b'C', b'O', b'D', b'E', b'_', b'A' + (seed % 26)]
}

impl World {
    fn register(&mut self, caller: Address, code: &[u8]) -> Result<(), Failure> {
        self.refs.register_code(&by(caller), &mut self.out, caller, code.to_vec())
    }

    fn link(&mut self, trader: Address, code: &[u8]) -> Result<(), Failure> {
        self.refs.set_trader_referral_code(&by(trader), &mut self.out, trader, code.to_vec())
    }

    fn tier(&mut self, referrer: Address, tier: u32) -> Result<(), Failure> {
        self.refs.set_referrer_tier(&by(self.admin), self.admin, referrer, tier)
    }

    fn config(&mut self, tier: u32, rebate: u32, share: u32) -> Result<(), Failure> {
        let config = TierConfig { total_rebate_bps: rebate, discount_share_bps: share };
        self.refs.set_tier_config(&by(self.admin), self.admin, tier, config)
    }

    fn hand_over(&mut self, from: Address, to: Address, code: &[u8]) -> Result<(), Failure> {
        self.refs.transfer_code_ownership(&by(from), &mut self.out, from, to, code.to_vec())
    }
}

fn err(e: Error) -> Result<(), Failure> {
    Err(Failure::Referral(e))
}

#[test]
fn set_referrer_tier_valid_tiers_accepted() {
    let mut w = setup();
    for t in 0u32..=2 {
        assert_eq!(w.tier(addr(30), t), Ok(()));
    }
}

#[test]
fn set_referrer_tier_tier_3_reverts() {
    let mut w = setup();
    assert_eq!(w.tier(addr(30), 3), err(Error::InvalidTier));
}

#[test]
fn set_referrer_tier_tier_100_reverts() {
    let mut w = setup();
    assert_eq!(w.tier(addr(30), 100), err(Error::InvalidTier));
}

#[test]
fn set_tier_config_invalid_tier_reverts() {
    let mut w = setup();
    assert_eq!(w.config(3, 500, 5000), err(Error::InvalidTier));
}

#[test]
fn set_tier_config_max_rebate_bps_accepted() {
    let mut w = setup();
    assert_eq!(w.config(0, 10_000, 0), Ok(()));
}

#[test]
fn set_tier_config_rebate_bps_overflow_reverts() {
    let mut w = setup();
    assert_eq!(w.config(0, 10_001, 0), err(Error::InvalidInput));
}

#[test]
fn set_tier_config_max_discount_share_bps_accepted() {
    let mut w = setup();
    assert_eq!(w.config(0, 0, 10_000), Ok(()));
}

#[test]
fn set_tier_config_discount_share_bps_overflow_reverts() {
    let mut w = setup();
    assert_eq!(w.config(0, 0, 10_001), err(Error::InvalidInput));
}

#[test]
fn set_tier_config_both_at_max_accepted() {
    let mut w = setup();
    assert_eq!(w.config(1, 10_000, 10_000), Ok(()));
}

#[test]
fn set_tier_config_persists_and_is_readable_via_discount_bps() {
    let mut w = setup();
    w.config(1, 2_000, 5_000).unwrap();
    let (referrer, trader) = (addr(30), addr(31));
    w.register(referrer, b"REF_007").unwrap();
    w.tier(referrer, 1).unwrap();
    w.link(trader, b"REF_007").unwrap();
    assert_eq!(w.refs.get_trader_discount_bps(&trader), 1_000);
}

#[test]
fn get_trader_discount_bps_returns_zero_for_unconfigured_tier() {
    let mut w = setup();
    let (referrer, trader) = (addr(30), addr(31));
    w.register(referrer, b"REF_009").unwrap();
    w.tier(referrer, 2).unwrap();
    w.link(trader, b"REF_009").unwrap();
    assert_eq!(w.refs.get_trader_discount_bps(&trader), 0);
}

#[test]
fn get_trader_discount_bps_no_code_returns_zero() {
    let w = setup();
    assert_eq!(w.refs.get_trader_discount_bps(&addr(31)), 0);
}

#[test]
fn set_tier_config_zero_bps_valid_returns_zero_discount() {
    let mut w = setup();
    w.config(0, 0, 0).unwrap();
    let (referrer, trader) = (addr(30), addr(31));
    w.register(referrer, b"REF_005").unwrap();
    w.tier(referrer, 0).unwrap();
    w.link(trader, b"REF_005").unwrap();
    assert_eq!(w.refs.get_trader_discount_bps(&trader), 0);
}

#[test]
fn set_tier_config_non_admin_reverts() {
    let mut w = setup();
    let impostor = addr(32);
    let config = TierConfig { total_rebate_bps: 100, discount_share_bps: 100 };
    assert_eq!(
        w.refs.set_tier_config(&by(impostor), impostor, 0, config),
        err(Error::Unauthorized)
    );
}

#[test]
fn test_transfer_code_ownership_success() {
    let mut w = setup();
    let (alice, bob) = (addr(33), addr(34));
    let code = make_code(0x01);
    w.register(alice, &code).unwrap();
    assert_eq!(w.refs.get_code_owner(&code), Some(alice));
    w.hand_over(alice, bob, &code).unwrap();
    assert_eq!(w.refs.get_code_owner(&code), Some(bob));
}

#[test]
fn test_transfer_code_ownership_non_owner_rejected() {
    let mut w = setup();
    let (alice, charlie) = (addr(33), addr(35));
    let code = make_code(0x02);
    w.register(alice, &code).unwrap();
    assert_eq!(w.hand_over(charlie, alice, &code), err(Error::NotCodeOwner));
}

#[test]
fn test_transfer_code_ownership_missing_code_rejected() {
    let mut w = setup();
    let code = make_code(0x03);
    assert_eq!(w.hand_over(addr(33), addr(34), &code), err(Error::CodeNotFound));
}

#[test]
fn test_get_code_owner_returns_none_for_unregistered() {
    let w = setup();
    assert_eq!(w.refs.get_code_owner(&make_code(0x04)), None);
}

#[test]
fn test_trader_discount_follows_new_owner_tier() {
    let mut w = setup();
    let (alice, bob, trader) = (addr(33), addr(34), addr(31));
    let code = make_code(0x05);
    w.config(0, 1000, 5000).unwrap();
    w.config(1, 2000, 5000).unwrap();
    w.register(alice, &code).unwrap();
    w.link(trader, &code).unwrap();
    w.hand_over(alice, bob, &code).unwrap();
    assert_eq!(w.refs.get_trader_discount_bps(&trader), 500);
}

#[test]
fn register_code_empty_reverts() {
    let mut w = setup();
    assert_eq!(w.register(addr(36), b""), err(Error::EmptyCode));
}

#[test]
fn register_code_too_long_reverts() {
    let mut w = setup();
    assert_eq!(w.register(addr(36), b"ABCDEFGHIJKLMNOPQRSTU"), err(Error::CodeTooLong));
}

#[test]
fn register_code_invalid_chars_reverts() {
    let mut w = setup();
    assert_eq!(w.register(addr(36), b"CODE@2024"), err(Error::InvalidCodeCharacters));
}

#[test]
fn register_code_exactly_max_length_succeeds() {
    let mut w = setup();
    let caller = addr(36);
    assert_eq!(MAX_REFERRAL_CODE_LENGTH, 20);
    w.register(caller, b"ABCDEFGHIJKLMNOPQRST").unwrap();
    assert_eq!(w.refs.get_code_owner(&b"ABCDEFGHIJKLMNOPQRST".to_vec()), Some(caller));
}

#[test]
fn discount_bps_computed_correctly_for_linked_trader() {
    let mut w = setup();
    let (alice, bob) = (addr(33), addr(34));
    w.register(alice, b"ALICE").unwrap();
    w.config(1, 2_000, 5_000).unwrap();
    w.tier(alice, 1).unwrap();
    w.link(bob, b"ALICE").unwrap();
    assert_eq!(w.refs.get_trader_discount_bps(&bob), 1_000);
}

#[test]
fn trader_with_no_code_gets_zero_discount() {
    let w = setup();
    assert_eq!(w.refs.get_trader_discount_bps(&addr(37)), 0);
}

#[test]
fn unconfigured_tier_returns_zero_discount() {
    let mut w = setup();
    let (alice, bob) = (addr(33), addr(34));
    w.register(alice, b"ALICE2").unwrap();
    w.link(bob, b"ALICE2").unwrap();
    assert_eq!(w.refs.get_trader_discount_bps(&bob), 0);
}

#[test]
fn get_trader_referrer_returns_alice_for_bob() {
    let mut w = setup();
    let (alice, bob) = (addr(33), addr(34));
    w.register(alice, b"ALICE").unwrap();
    w.link(bob, b"ALICE").unwrap();
    assert_eq!(w.refs.get_trader_referrer(&bob), Some(alice));
}

#[test]
fn get_trader_referrer_returns_none_for_unlinked_trader() {
    let w = setup();
    assert_eq!(w.refs.get_trader_referrer(&addr(37)), None);
}

// ---------------------------------------------------------------------------

#[test]
fn codes_are_registered_once() {
    let mut w = setup();
    w.register(addr(33), b"ALICE").unwrap();
    assert_eq!(w.register(addr(34), b"ALICE"), err(Error::CodeAlreadyTaken));
    assert_eq!(w.register(addr(34), b"ALICE_"), Ok(()));
    assert_eq!(w.refs.get_code_owner(&b"ALICE".to_vec()), Some(addr(33)));
}

#[test]
fn only_registered_codes_are_taken_up() {
    let mut w = setup();
    assert_eq!(w.link(addr(34), b"NOBODY"), err(Error::CodeNotFound));
    assert_eq!(w.refs.get_trader_referral_code(&addr(34)), None);
    w.register(addr(33), b"ALICE").unwrap();
    w.link(addr(34), b"ALICE").unwrap();
    assert_eq!(w.refs.get_trader_referral_code(&addr(34)), Some(&b"ALICE".to_vec()));
}

#[test]
fn code_bytes_are_checked() {
    assert_eq!(validate_code(&b"Az09_-".to_vec()), Ok(()));
    for b in [b'@', b'[', b'`', b'{', b'/', b':', b' ', 0u8, 255u8] {
        assert_eq!(validate_code(&vec![b]), err(Error::InvalidCodeCharacters));
    }
}

#[test]
fn changes_of_codes_are_published() {
    let mut w = setup();
    let (alice, bob) = (addr(33), addr(34));
    w.register(alice, b"ALICE").unwrap();
    w.link(bob, b"ALICE").unwrap();
    w.hand_over(alice, bob, b"ALICE").unwrap();
    let code = b"ALICE".to_vec();
    assert_eq!(
        w.out,
        vec![
            Action::Publish(Event::CodeRegistered(CodeRegistered {
                caller: alice,
                code: code.clone(),
            })),
            Action::Publish(Event::TraderCodeSet(TraderCodeSet {
                trader: bob,
                code: code.clone(),
            })),
            Action::Publish(Event::CodeOwnershipTransferred(CodeOwnershipTransferred {
                code,
                from: alice,
                to: bob,
            })),
        ]
    );
}

#[test]
fn volume_raises_tiers_and_never_lowers_them() {
    let mut w = setup();
    let (alice, bob, handler) = (addr(33), addr(34), addr(8));
    w.register(alice, b"ALICE").unwrap();
    w.link(bob, b"ALICE").unwrap();
    w.config(0, 100, 10_000).unwrap();
    w.config(1, 200, 10_000).unwrap();
    w.config(2, 300, 10_000).unwrap();
    let admin = w.admin;
    assert_eq!(
        w.refs.increment_referrer_volume(&by(handler), handler, bob, 5),
        err(Error::Unauthorized)
    );
    w.refs.set_order_handler(&by(admin), admin, handler).unwrap();
    w.refs.set_tier_upgrade_threshold(&by(admin), admin, 1, 100).unwrap();
    w.refs.set_tier_upgrade_threshold(&by(admin), admin, 2, 1_000).unwrap();
    assert_eq!(
        w.refs.set_tier_upgrade_threshold(&by(admin), admin, 3, 1_000),
        err(Error::InvalidTier)
    );
    let mut seen = Vec::new();
    for volume in [99, 1, 899, 1] {
        w.refs.increment_referrer_volume(&by(handler), handler, bob, volume).unwrap();
        seen.push(w.refs.get_trader_discount_bps(&bob));
    }
    assert_eq!(seen, vec![100, 200, 200, 300]);
    assert_eq!(w.refs.get_referrer_cumulative_volume(&alice), 1_000);
    w.refs.set_tier_upgrade_threshold(&by(admin), admin, 2, 10_000).unwrap();
    w.refs.increment_referrer_volume(&by(handler), handler, bob, 1).unwrap();
    assert_eq!(w.refs.get_trader_discount_bps(&bob), 300);
    w.refs.increment_referrer_volume(&by(handler), handler, bob, u128::MAX).unwrap();
    assert_eq!(w.refs.get_referrer_cumulative_volume(&alice), u128::MAX);
    w.refs.increment_referrer_volume(&by(handler), handler, addr(77), 5).unwrap();
    assert_eq!(w.refs.get_referrer_cumulative_volume(&addr(77)), 0);
}

#[test]
fn referral_storage_is_set_up_once() {
    let admin = addr(1);
    let mut refs = ReferralStorage::new();
    let mut out = Vec::new();
    let hash = Bytes32 { hi: 1, lo: 2 };
    assert_eq!(refs.upgrade(&by(admin), &mut out, hash), err(Error::NotInitialized));
    assert_eq!(refs.set_referrer_tier(&by(admin), admin, addr(2), 1), err(Error::NotInitialized));
    assert_eq!(refs.initialize(&by(addr(2)), admin), Err(Failure::MissingAuthorisation));
    assert_eq!(refs.initialize(&by(admin), admin), Ok(()));
    assert_eq!(refs.initialize(&by(admin), admin), err(Error::AlreadyInitialized));
    assert_eq!(refs.upgrade(&by(addr(2)), &mut out, hash), Err(Failure::MissingAuthorisation));
    assert_eq!(refs.upgrade(&by(admin), &mut out, hash), Ok(()));
    assert_eq!(out, vec![Action::UpdateCurrentContract { wasm_hash: hash }]);
}
