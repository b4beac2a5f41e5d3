use yieldladder::address::Address;
use yieldladder::effects::TokenTransfer;
use yieldladder::vault_l3::{mul_fp, Payout, VaultError, VaultL3, LOCK_DURATION, MIN_DEPOSIT};

fn setup() -> (Address, Address, VaultL3) {
    let strategy = Address::contract(0, 2);
    let usdc = Address::contract(0, 3);
    let mut v = VaultL3::new();
    assert_eq!(v.initialize(Address::account(0, 1), strategy, usdc), Address::account(0, 1));
    (strategy, usdc, v)
}

#[test]
fn mul_fp_rounds_toward_zero() {
    assert_eq!(mul_fp(1_000, 10_500_000), 1_050);
    assert_eq!(mul_fp(3, 5_000_000), 1);
    assert_eq!(mul_fp(-3, 5_000_000), -1);
    assert_eq!(mul_fp(0, 123), 0);
}

#[test]
fn deposit_mints_shares_and_locks() {
    let (strategy, usdc, mut v) = setup();
    let user = Address::account(0, 10);
    let out = v.deposit(user, 1_000_000_000, 100).unwrap();
    assert_eq!(out.signer, user);
    assert_eq!(
        out.transfer,
        TokenTransfer { token: usdc, from: user, to: strategy, amount: 1_000_000_000 }
    );
    assert_eq!(v.balance(user), 1_000_000_000);
    assert_eq!(v.shares(user), 1_050_000_000);
    assert_eq!(v.total_shares(), 1_050_000_000);
    assert_eq!(v.lock_until(user), 100 + LOCK_DURATION);
}

#[test]
fn deposit_below_minimum_is_refused() {
    let (_, _, mut v) = setup();
    let user = Address::account(0, 10);
    assert_eq!(v.deposit(user, MIN_DEPOSIT - 1, 0), Err(VaultError::BelowMinDeposit));
    assert_eq!(v.balance(user), 0);
}

#[test]
fn deposit_before_initialize_is_refused() {
    let mut v = VaultL3::new();
    assert_eq!(
        v.deposit(Address::account(0, 10), MIN_DEPOSIT, 0),
        Err(VaultError::NotInitialized)
    );
}

#[test]
fn withdraw_waits_for_lock() {
    let (_, _, mut v) = setup();
    let user = Address::account(0, 10);
    v.deposit(user, MIN_DEPOSIT, 100).unwrap();
    assert_eq!(
        v.withdraw(user, MIN_DEPOSIT, 100 + LOCK_DURATION - 1),
        Err(VaultError::LockNotExpired)
    );
    assert_eq!(
        v.withdraw(user, MIN_DEPOSIT, 100 + LOCK_DURATION),
        Ok(Payout { signer: user, amount: MIN_DEPOSIT })
    );
    assert_eq!(v.balance(user), 0);
    assert_eq!(v.shares(user), 0);
    assert_eq!(v.lock_until(user), 0);
    assert_eq!(v.total_shares(), 0);
}

#[test]
fn partial_withdraw_burns_proportional_shares() {
    let (_, _, mut v) = setup();
    let user = Address::account(0, 10);
    v.deposit(user, 1_000_000_000, 0).unwrap();
    let out = v.withdraw(user, 250_000_000, LOCK_DURATION).unwrap();
    assert_eq!(out.amount, 250_000_000);
    assert_eq!(v.balance(user), 750_000_000);
    // 1_050_000_000 * 250_000_000 / 1_000_000_000 = 262_500_000 burned
    assert_eq!(v.shares(user), 787_500_000);
    assert_eq!(v.total_shares(), 787_500_000);
    assert_eq!(v.lock_until(user), LOCK_DURATION);
}

#[test]
fn withdraw_more_than_balance_is_refused() {
    let (_, _, mut v) = setup();
    let user = Address::account(0, 10);
    v.deposit(user, MIN_DEPOSIT, 0).unwrap();
    assert_eq!(
        v.withdraw(user, MIN_DEPOSIT + 1, LOCK_DURATION),
        Err(VaultError::AmountExceedsBalance)
    );
    assert_eq!(v.early_exit(user, MIN_DEPOSIT + 1), Err(VaultError::AmountExceedsBalance));
}

#[test]
fn early_exit_charges_half_percent() {
    let (_, _, mut v) = setup();
    let user = Address::account(0, 10);
    v.deposit(user, 1_000_000_000, 0).unwrap();
    let out = v.early_exit(user, 400_000_000).unwrap();
    assert_eq!(out.amount, 398_000_000);
    assert_eq!(v.balance(user), 600_000_000);
    let out = v.early_exit(user, 600_000_000).unwrap();
    assert_eq!(out.amount, 597_000_000);
    assert_eq!(v.balance(user), 0);
    assert_eq!(v.total_shares(), 0);
}

#[test]
fn positions_are_kept_per_user() {
    let (_, _, mut v) = setup();
    let alice = Address::account(0, 10);
    let bob = Address::account(0, 11);
    v.deposit(alice, 600_000_000, 0).unwrap();
    v.deposit(bob, 800_000_000, 5).unwrap();
    v.deposit(alice, 600_000_000, 10).unwrap();
    assert_eq!(v.balance(alice), 1_200_000_000);
    assert_eq!(v.balance(bob), 800_000_000);
    assert_eq!(v.lock_until(alice), 10 + LOCK_DURATION);
    assert_eq!(v.total_shares(), v.shares(alice) + v.shares(bob));
    v.early_exit(bob, 800_000_000).unwrap();
    assert_eq!(v.total_shares(), v.shares(alice));
}

#[test]
fn deposit_then_full_early_exit_round_trip() {
    let (_, _, mut v) = setup();
    let bob = Address::account(0, 11);
    v.deposit(bob, 700_000_000, 0).unwrap();
    let before = v.total_shares();
    let user = Address::account(0, 10);
    v.deposit(user, 999_999_999, 3).unwrap();
    let out = v.early_exit(user, 999_999_999).unwrap();
    // fee = 999_999_999 * 50_000 / 10_000_000 = 4_999_999 (rounded down)
    assert_eq!(out.amount, 999_999_999 - 4_999_999);
    assert_eq!(v.balance(user), 0);
    assert_eq!(v.shares(user), 0);
    assert_eq!(v.total_shares(), before);
    assert_eq!(v.balance(bob), 700_000_000);
}
