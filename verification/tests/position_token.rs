use yieldladder::address::Address;
use yieldladder::position_token::{PositionToken, TokenError, WithdrawalAuthCall};

fn addr(n: u128) -> Address {
    Address::account(0, n)
}

fn setup() -> (Address, Address, PositionToken) {
    let admin = addr(1);
    let cid = Address::contract(0, 2);
    let mut token = PositionToken::new();
    token.initialize(admin).unwrap();
    (admin, cid, token)
}

#[test]
fn wrap_mints_token_to_owner() {
    let (_, cid, mut token) = setup();
    let user = addr(10);
    let tier_vault = Address::contract(0, 30);
    let token_id = token.wrap(user, tier_vault, cid).unwrap().token_id;
    assert_eq!(token_id, 0);
    assert_eq!(token.owner_of(token_id), Ok(user));
    assert_eq!(token.balance(user, token_id), 1);
}

#[test]
fn wrap_token_ids_increment() {
    let (_, cid, mut token) = setup();
    let user = addr(10);
    let tier_vault = Address::contract(0, 30);
    let id0 = token.wrap(user, tier_vault, cid).unwrap().token_id;
    let id1 = token.wrap(user, tier_vault, cid).unwrap().token_id;
    assert_eq!(id0, 0);
    assert_eq!(id1, 1);
}

#[test]
fn wrap_updates_tier_vault_auth() {
    let (_, cid, mut token) = setup();
    let user = addr(10);
    let tier_vault = Address::contract(0, 30);
    let wrapped = token.wrap(user, tier_vault, cid).unwrap();
    assert_eq!(wrapped.signer, user);
    assert_eq!(
        wrapped.call,
        WithdrawalAuthCall { tier_vault, current_auth: user, new_auth: cid }
    );
    assert_eq!(wrapped.call.new_auth, cid);
}

#[test]
fn transfer_changes_owner() {
    let (_, cid, mut token) = setup();
    let alice = addr(10);
    let bob = addr(11);
    let tier_vault = Address::contract(0, 30);
    let token_id = token.wrap(alice, tier_vault, cid).unwrap().token_id;
    assert_eq!(token.transfer(alice, bob, token_id), Ok(alice));
    assert_eq!(token.owner_of(token_id), Ok(bob));
    assert_eq!(token.balance(alice, token_id), 0);
    assert_eq!(token.balance(bob, token_id), 1);
}

#[test]
fn only_new_holder_can_unwrap_after_transfer() {
    let (_, cid, mut token) = setup();
    let alice = addr(10);
    let bob = addr(11);
    let tier_vault = Address::contract(0, 30);
    let token_id = token.wrap(alice, tier_vault, cid).unwrap().token_id;
    token.transfer(alice, bob, token_id).unwrap();
    let unwrapped = token.unwrap(token_id, cid).unwrap();
    assert_eq!(unwrapped.signer, bob);
    assert_eq!(unwrapped.call.new_auth, bob);
    assert_eq!(unwrapped.call.tier_vault, tier_vault);
}

#[test]
fn unwrap_burns_token_and_restores_rights() {
    let (_, cid, mut token) = setup();
    let user = addr(10);
    let tier_vault = Address::contract(0, 30);
    let token_id = token.wrap(user, tier_vault, cid).unwrap().token_id;
    let unwrapped = token.unwrap(token_id, cid).unwrap();
    assert_eq!(token.balance(user, token_id), 0);
    assert_eq!(
        unwrapped.call,
        WithdrawalAuthCall { tier_vault, current_auth: cid, new_auth: user }
    );
}

#[test]
fn unwrap_nonexistent_token_panics() {
    let (_, cid, mut token) = setup();
    assert_eq!(token.unwrap(999, cid), Err(TokenError::TokenNotFound));
}

#[test]
fn original_owner_balance_is_zero_after_transfer() {
    let (_, cid, mut token) = setup();
    let alice = addr(10);
    let bob = addr(11);
    let token_id = token.wrap(alice, Address::contract(0, 30), cid).unwrap().token_id;
    token.transfer(alice, bob, token_id).unwrap();
    assert_eq!(token.balance(alice, token_id), 0);
}

#[test]
fn other_users_positions_are_unaffected() {
    let (_, cid, mut token) = setup();
    let alice = addr(10);
    let bob = addr(11);
    let token_id = token.wrap(alice, Address::contract(0, 30), cid).unwrap().token_id;
    token.transfer(alice, addr(12), token_id).unwrap();
    assert_eq!(token.balance(bob, token_id), 0);
    assert_eq!(token.balance(bob, 999u64), 0);
}

#[test]
fn approved_spender_can_transfer() {
    let (_, cid, mut token) = setup();
    let alice = addr(10);
    let spender = addr(11);
    let bob = addr(12);
    let token_id = token.wrap(alice, Address::contract(0, 30), cid).unwrap().token_id;
    assert_eq!(token.approve(alice, spender, token_id, u32::MAX), Ok(alice));
    assert_eq!(token.transfer_from(spender, alice, bob, token_id), Ok(spender));
    assert_eq!(token.owner_of(token_id), Ok(bob));
}

#[test]
fn metadata_is_correct() {
    let (_, _, token) = setup();
    assert_eq!(token.decimals(), 0);
    assert_eq!(token.name(), Ok(String::from("YieldLadder Position Receipt")));
    assert_eq!(token.symbol(), Ok(String::from("YLPR")));
}

// ── Further cases ────────────────────────────────────────────────────────────

#[test]
fn token_second_initialize_is_refused() {
    let (_, _, mut token) = setup();
    assert_eq!(token.initialize(addr(5)), Err(TokenError::AlreadyInitialized));
}

#[test]
fn metadata_before_initialize() {
    let token = PositionToken::new();
    assert_eq!(token.decimals(), 0);
    assert_eq!(token.name(), Err(TokenError::NotInitialized));
    assert_eq!(token.symbol(), Err(TokenError::NotInitialized));
}

#[test]
fn stranger_cannot_transfer() {
    let (_, cid, mut token) = setup();
    let alice = addr(10);
    let mallory = addr(13);
    let token_id = token.wrap(alice, Address::contract(0, 30), cid).unwrap().token_id;
    assert_eq!(token.transfer(mallory, mallory, token_id), Err(TokenError::NotOwnerOrApproved));
    assert_eq!(token.transfer(alice, mallory, 77), Err(TokenError::TokenNotFound));
    assert_eq!(
        token.transfer_from(mallory, alice, mallory, token_id),
        Err(TokenError::SpenderNotApproved)
    );
    assert_eq!(token.owner_of(token_id), Ok(alice));
}

#[test]
fn operator_can_transfer_and_approval_is_single_use() {
    let (_, cid, mut token) = setup();
    let alice = addr(10);
    let operator = addr(14);
    let spender = addr(15);
    let bob = addr(16);
    let token_id = token.wrap(alice, Address::contract(0, 30), cid).unwrap().token_id;
    assert_eq!(token.set_authorized(alice, operator, true), alice);
    assert!(token.authorized(alice, operator));
    assert!(!token.authorized(alice, spender));
    token.transfer(operator, bob, token_id).unwrap();
    assert_eq!(token.owner_of(token_id), Ok(bob));
    token.approve(bob, spender, token_id, 0).unwrap();
    assert_eq!(token.allowance(token_id), Ok(spender));
    token.transfer(spender, alice, token_id).unwrap();
    assert_eq!(token.allowance(token_id), Err(TokenError::NoApproval));
    assert_eq!(token.transfer(spender, bob, token_id), Err(TokenError::NotOwnerOrApproved));
}

#[test]
fn approve_requires_holder() {
    let (_, cid, mut token) = setup();
    let alice = addr(10);
    let token_id = token.wrap(alice, Address::contract(0, 30), cid).unwrap().token_id;
    assert_eq!(token.approve(addr(11), addr(12), token_id, 0), Err(TokenError::NotTokenOwner));
    assert_eq!(token.approve(alice, addr(12), 5, 0), Err(TokenError::TokenNotFound));
}

#[test]
fn mint_and_burn() {
    let (admin, _, mut token) = setup();
    let alice = addr(10);
    assert_eq!(token.mint(alice, 42), Ok(admin));
    assert_eq!(token.mint(alice, 42), Err(TokenError::TokenExists));
    assert_eq!(token.burn(addr(11), 42), Err(TokenError::NotTokenOwner));
    assert_eq!(token.burn(alice, 42), Ok(alice));
    assert_eq!(token.balance(alice, 42), 0);
    assert_eq!(token.burn(alice, 42), Err(TokenError::TokenNotFound));
    let mut fresh = PositionToken::new();
    assert_eq!(fresh.mint(alice, 1), Err(TokenError::NotInitialized));
}

#[test]
fn burn_from_needs_approval() {
    let (_, cid, mut token) = setup();
    let alice = addr(10);
    let spender = addr(11);
    let token_id = token.wrap(alice, Address::contract(0, 30), cid).unwrap().token_id;
    assert_eq!(token.burn_from(spender, alice, token_id), Err(TokenError::SpenderNotApproved));
    token.approve(alice, spender, token_id, 0).unwrap();
    assert_eq!(token.burn_from(spender, alice, token_id), Ok(spender));
    assert_eq!(token.owner_of(token_id), Err(TokenError::TokenNotFound));
    // The wrapped position's vault stays recorded after a plain burn.
    assert_eq!(token.tier_vault_of(token_id), Ok(Address::contract(0, 30)));
}

#[test]
fn operator_of_non_holder_cannot_take_token() {
    let (_, cid, mut token) = setup();
    let holder = addr(10);
    let stranger = addr(11);
    let spender = addr(12);
    let token_id = token.wrap(holder, Address::contract(0, 30), cid).unwrap().token_id;
    token.set_authorized(stranger, spender, true);
    assert_eq!(
        token.transfer_from(spender, stranger, spender, token_id),
        Err(TokenError::NotTokenOwner)
    );
    assert_eq!(token.burn_from(spender, stranger, token_id), Err(TokenError::NotTokenOwner));
    assert_eq!(token.owner_of(token_id), Ok(holder));
}
