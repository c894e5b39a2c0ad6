//! The test token and the faucet that hands it out.

use perps::actions::{Action, Event};
use perps::failure::Failure;
use perps::ledger::Ledger;
use perps::test_faucet;
use perps::test_faucet::{FaucetEvent, TestFaucet};
use perps::test_token::{Error, TestToken, TokenEvent};
use perps::types::Address;

fn addr(n: u64) -> Address {
    Address { head: 0, body: 0, tail: 0, last: n }
}

fn at(sequence: u32, signer: Address) -> Ledger {
    Ledger { timestamp: 0, sequence, current_contract: addr(9), signers: vec![signer] }
}

fn by(signer: Address) -> Ledger {
    at(1, signer)
}

fn err<T>(e: Error) -> Result<T, Failure> {
    Err(Failure::Token(e))
}

fn faucet_err<T>(e: test_faucet::Error) -> Result<T, Failure> {
    Err(Failure::Faucet(e))
}

fn setup() -> (Address, TestToken, Vec<Action>) {
    let owner = addr(1);
    let mut token = TestToken::new();
    token
        .initialize(owner, 7, String::from("Test Wrapped Bitcoin"), String::from("TWBTC"))
        .unwrap();
    (owner, token, Vec::new())
}

#[test]
fn owner_can_mint_and_user_can_transfer() {
    let (owner, mut token, mut out) = setup();
    let (alice, bob) = (addr(2), addr(3));
    token.mint(&by(owner), &mut out, owner, alice, 1_000_0000).unwrap();
    token.transfer(&by(alice), &mut out, alice, bob, 250_0000).unwrap();
    assert_eq!(token.balance(&alice), 750_0000);
    assert_eq!(token.balance(&bob), 250_0000);
    assert_eq!(token.total_supply(), 1_000_0000);
}

#[test]
fn non_owner_cannot_mint() {
    let (_, mut token, mut out) = setup();
    let attacker = addr(4);
    assert_eq!(
        token.mint(&by(attacker), &mut out, attacker, addr(2), 1),
        err(Error::Unauthorized)
    );
    assert_eq!(token.total_supply(), 0);
}

#[test]
fn pause_blocks_transfers_and_minting() {
    let (owner, mut token, mut out) = setup();
    let alice = addr(2);
    token.pause(&by(owner), &mut out, owner).unwrap();
    assert_eq!(token.mint(&by(owner), &mut out, owner, alice, 1), err(Error::Paused));
    assert!(token.paused());
    assert_eq!(token.transfer(&by(alice), &mut out, alice, owner, 1), err(Error::Paused));
    token.unpause(&by(owner), &mut out, owner).unwrap();
    token.mint(&by(owner), &mut out, owner, alice, 1).unwrap();
    assert_eq!(token.balance(&alice), 1);
}

#[test]
fn token_metadata_is_kept() {
    let (owner, mut token, _) = setup();
    assert_eq!(token.owner(), Ok(owner));
    assert_eq!(token.decimals(), Ok(7));
    assert_eq!(token.name(), Ok(&String::from("Test Wrapped Bitcoin")));
    assert_eq!(token.symbol(), Ok(&String::from("TWBTC")));
    assert_eq!(
        token.initialize(owner, 7, String::from("a"), String::from("b")),
        err(Error::AlreadyInitialized)
    );
    let fresh = TestToken::new();
    assert_eq!(fresh.owner(), err(Error::NotInitialized));
    assert_eq!(fresh.decimals(), err(Error::NotInitialized));
}

#[test]
fn transfers_are_bounded_by_the_balance() {
    let (owner, mut token, mut out) = setup();
    let (alice, bob) = (addr(2), addr(3));
    token.mint(&by(owner), &mut out, owner, alice, 10).unwrap();
    assert_eq!(
        token.transfer(&by(alice), &mut out, alice, bob, 11),
        err(Error::InsufficientBalance)
    );
    assert_eq!(token.transfer(&by(alice), &mut out, alice, bob, -1), err(Error::NegativeAmount));
    assert_eq!(
        token.transfer(&by(bob), &mut out, alice, bob, 1),
        Err(Failure::MissingAuthorisation)
    );
    assert_eq!(token.transfer(&by(alice), &mut out, alice, alice, 10), Ok(()));
    assert_eq!(token.balance(&alice), 10);
}

#[test]
fn allowances_bound_what_a_spender_moves() {
    let (owner, mut token, mut out) = setup();
    let (alice, bob, carol) = (addr(2), addr(3), addr(4));
    token.mint(&by(owner), &mut out, owner, alice, 100).unwrap();
    token.approve(&by(alice), &mut out, alice, bob, 30, 50).unwrap();
    assert_eq!(token.allowance(&by(bob), &alice, &bob), 30);
    token.transfer_from(&by(bob), &mut out, bob, alice, carol, 10).unwrap();
    assert_eq!(token.allowance(&by(bob), &alice, &bob), 20);
    assert_eq!(
        token.transfer_from(&by(bob), &mut out, bob, alice, carol, 21),
        err(Error::InsufficientAllowance)
    );
    token.burn_from(&by(bob), &mut out, bob, alice, 5).unwrap();
    assert_eq!(token.allowance(&by(bob), &alice, &bob), 15);
    assert_eq!((token.balance(&alice), token.balance(&carol)), (85, 10));
    assert_eq!(token.total_supply(), 95);
    assert_eq!(token.allowance(&at(51, bob), &alice, &bob), 0);
    assert!(token.transfer_from(&at(51, bob), &mut out, bob, alice, carol, 1).is_err());
}

#[test]
fn approvals_in_the_past_allow_nothing() {
    let (owner, mut token, mut out) = setup();
    let (alice, bob) = (addr(2), addr(3));
    token.mint(&by(owner), &mut out, owner, alice, 100).unwrap();
    assert_eq!(token.approve(&at(10, alice), &mut out, alice, bob, 1, 9), Ok(()));
    assert_eq!(token.allowance(&at(10, bob), &alice, &bob), 0);
    assert_eq!(
        token.transfer_from(&at(10, bob), &mut out, bob, alice, bob, 1),
        err(Error::AllowanceExpired)
    );
    assert_eq!(
        token.approve(&at(10, alice), &mut out, alice, bob, -1, 20),
        err(Error::NegativeAmount)
    );
}

#[test]
fn burning_lowers_the_supply() {
    let (owner, mut token, mut out) = setup();
    let alice = addr(2);
    token.mint(&by(owner), &mut out, owner, alice, 100).unwrap();
    token.burn(&by(alice), &mut out, alice, 40).unwrap();
    assert_eq!(token.total_supply(), 60);
    assert_eq!(token.balance(&alice), 60);
    assert_eq!(token.burn(&by(alice), &mut out, alice, 61), err(Error::InsufficientBalance));
    assert_eq!(
        out[1],
        Action::Publish(Event::Token(TokenEvent::Burn { from: alice, amount: 40 }))
    );
}

#[test]
fn ownership_can_be_passed_on() {
    let (owner, mut token, mut out) = setup();
    let heir = addr(5);
    assert_eq!(
        token.transfer_owner(&by(heir), &mut out, heir, heir),
        err(Error::Unauthorized)
    );
    token.transfer_owner(&by(owner), &mut out, owner, heir).unwrap();
    assert_eq!(token.mint(&by(owner), &mut out, owner, owner, 1), err(Error::Unauthorized));
    assert_eq!(token.mint(&by(heir), &mut out, heir, owner, 1), Ok(()));
}

// ---------------------------------------------------------------------------
// The faucet
// ---------------------------------------------------------------------------

struct Fountain {
    admin: Address,
    id: Address,
    token_id: Address,
    token: TestToken,
    faucet: TestFaucet,
    out: Vec<Action>,
}

fn setup_faucet() -> Fountain {
    let (admin, id, token_id) = (addr(1), addr(20), addr(21));
    let mut faucet = TestFaucet::new();
    faucet.initialize(admin, 10).unwrap();
    let mut token = TestToken::new();
    token.initialize(id, 7, String::from("Test USD Coin"), String::from("TUSDC")).unwrap();
    let mut out = Vec::new();
    faucet.set_token(&by(admin), &mut out, admin, token_id, 100_0000000).unwrap();
    Fountain { admin, id, token_id, token, faucet, out }
}

fn claim(f: &mut Fountain, user: Address, sequence: u32) -> Result<i128, Failure> {
    let l = Ledger { timestamp: 0, sequence, current_contract: f.id, signers: vec![user] };
    let done = f.out.len();
    let r = f.faucet.claim(&l, &mut f.out, user, f.token_id)?;
    let mut minted = Vec::new();
    for a in &f.out[done..] {
        if let Action::TokenMint { minter, account, amount, .. } = a {
            f.token.mint(&by(*minter), &mut minted, *minter, *account, *amount).unwrap();
        }
    }
    Ok(r)
}

#[test]
fn user_can_claim_enabled_token() {
    let mut f = setup_faucet();
    let user = addr(30);
    assert_eq!(claim(&mut f, user, 1), Ok(100_0000000));
    assert_eq!(f.token.balance(&user), 100_0000000);
}

#[test]
fn cooldown_blocks_repeat_claim() {
    let mut f = setup_faucet();
    let user = addr(30);
    claim(&mut f, user, 1).unwrap();
    assert_eq!(claim(&mut f, user, 1), faucet_err(test_faucet::Error::ClaimTooSoon));
    assert_eq!(claim(&mut f, user, 10), faucet_err(test_faucet::Error::ClaimTooSoon));
    claim(&mut f, user, 11).unwrap();
    assert_eq!(f.faucet.last_claim_ledger(&user, &f.token_id), 11);
}

#[test]
fn admin_must_configure_token() {
    let admin = addr(1);
    let mut faucet = TestFaucet::new();
    faucet.initialize(admin, 0).unwrap();
    let user = addr(30);
    assert_eq!(
        faucet.claim(&by(user), &mut Vec::new(), user, addr(31)),
        faucet_err(test_faucet::Error::TokenNotEnabled)
    );
}

#[test]
fn faucet_settings_belong_to_the_admin() {
    let mut f = setup_faucet();
    let (admin, other) = (f.admin, addr(40));
    assert_eq!(f.faucet.admin(), Ok(admin));
    assert_eq!(f.faucet.cooldown_ledgers(), Ok(10));
    assert_eq!(
        f.faucet.set_cooldown(&by(other), &mut f.out, other, 5),
        faucet_err(test_faucet::Error::Unauthorized)
    );
    f.faucet.set_cooldown(&by(admin), &mut f.out, admin, 5).unwrap();
    assert_eq!(f.faucet.cooldown_ledgers(), Ok(5));
    assert_eq!(
        f.faucet.set_token(&by(admin), &mut f.out, admin, addr(41), 0),
        faucet_err(test_faucet::Error::InvalidAmount)
    );
    assert_eq!(f.faucet.claim_amount(&f.token_id), 100_0000000);
    f.faucet.remove_token(&by(admin), &mut f.out, admin, f.token_id).unwrap();
    assert_eq!(f.faucet.claim_amount(&f.token_id), 0);
    assert_eq!(
        claim(&mut f, addr(30), 100),
        faucet_err(test_faucet::Error::TokenNotEnabled)
    );
    assert_eq!(
        f.faucet.initialize(admin, 1),
        faucet_err(test_faucet::Error::AlreadyInitialized)
    );
    assert_eq!(TestFaucet::new().admin(), faucet_err(test_faucet::Error::NotInitialized));
}

#[test]
fn many_tokens_are_claimed_at_once() {
    let mut f = setup_faucet();
    let (admin, user, second) = (f.admin, addr(30), addr(22));
    f.faucet.set_token(&by(admin), &mut f.out, admin, second, 7).unwrap();
    let mut out = Vec::new();
    let l = Ledger { timestamp: 0, sequence: 3, current_contract: f.id, signers: vec![user] };
    let amounts = f.faucet.claim_many(&l, &mut out, user, &vec![f.token_id, second]);
    assert_eq!(amounts, Ok(vec![100_0000000, 7]));
    assert_eq!(
        out[2..],
        [
            Action::TokenMint { token: second, minter: f.id, account: user, amount: 7 },
            Action::Publish(Event::Faucet(FaucetEvent::Claim {
                account: user,
                token: second,
                amount: 7,
            })),
        ]
    );
    // A list that fails half way leaves nothing behind.
    let third = addr(31);
    let l = Ledger { timestamp: 0, sequence: 3, current_contract: f.id, signers: vec![third] };
    assert!(f.faucet.claim_many(&l, &mut out, third, &vec![second, addr(99)]).is_err());
    assert_eq!(f.faucet.last_claim_ledger(&third, &second), 0);
    assert_eq!(out.len(), 4);
}
