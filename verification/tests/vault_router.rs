use yieldladder::address::Address;
use yieldladder::effects::TokenTransfer;
use yieldladder::vault_router::{
    is_locked_tier, min_deposit, DepositRoute, ExitRoute, MaxTvlUpdate, RouterError, Tier,
    VaultDepositCall, VaultRouter, MIN_FLEX, MIN_L12, MIN_L3, MIN_L6,
};

struct Setup {
    router: VaultRouter,
    governance: Address,
    vault: Address,
    usdc: Address,
}

fn setup() -> Setup {
    let vault = Address::contract(0, 1);
    let admin = Address::account(0, 2);
    let governance = Address::account(0, 3);
    let usdc = Address::contract(0, 4);
    let mut router = VaultRouter::new();
    router.initialize(admin, governance, vault, vault, vault, vault, usdc).unwrap();
    Setup { router, governance, vault, usdc }
}

#[test]
fn test_flex_below_min_panics() {
    let s = setup();
    let user = Address::account(0, 10);
    assert_eq!(s.router.deposit(user, Tier::Flex, MIN_FLEX - 1), Err(RouterError::BelowMinDeposit));
}

#[test]
fn test_l3_below_min_panics() {
    let s = setup();
    let user = Address::account(0, 10);
    assert_eq!(s.router.deposit(user, Tier::L3, MIN_L3 - 1), Err(RouterError::BelowMinDeposit));
}

#[test]
fn test_l6_below_min_panics() {
    let s = setup();
    let user = Address::account(0, 10);
    assert_eq!(s.router.deposit(user, Tier::L6, MIN_L6 - 1), Err(RouterError::BelowMinDeposit));
}

#[test]
fn test_l12_below_min_panics() {
    let s = setup();
    let user = Address::account(0, 10);
    assert_eq!(s.router.deposit(user, Tier::L12, MIN_L12 - 1), Err(RouterError::BelowMinDeposit));
}

#[test]
fn test_set_max_tvl_via_router() {
    let s = setup();
    assert_eq!(
        s.router.set_max_tvl(Tier::L3, 5_000_000_000_i128),
        Ok(MaxTvlUpdate { signer: s.governance, vault: s.vault, new_cap: 5_000_000_000_i128 })
    );
}

#[test]
fn test_vault_capacity_query() {
    // The capacity is read from the vault serving the tier.
    let s = setup();
    assert_eq!(s.router.get_vault(Tier::L3), Ok(s.vault));
}

#[test]
fn test_position_locked_tier() {
    // The position is read from the tier's vault; a locked tier also has its lock read.
    let s = setup();
    assert_eq!(s.router.get_vault(Tier::L3), Ok(s.vault));
    assert!(is_locked_tier(&Tier::L3));
    assert!(is_locked_tier(&Tier::L6));
    assert!(is_locked_tier(&Tier::L12));
    assert!(!is_locked_tier(&Tier::Flex));
}

#[test]
fn test_double_initialize_panics() {
    let mut s = setup();
    let other = Address::account(0, 50);
    assert_eq!(
        s.router.initialize(other, other, other, other, other, other, other),
        Err(RouterError::AlreadyInitialized)
    );
}

#[test]
fn test_min_deposit_values() {
    assert_eq!(min_deposit(&Tier::Flex), MIN_FLEX);
    assert_eq!(min_deposit(&Tier::L3), MIN_L3);
    assert_eq!(min_deposit(&Tier::L6), MIN_L6);
    assert_eq!(min_deposit(&Tier::L12), MIN_L12);
}

// ── Further cases ────────────────────────────────────────────────────────────

#[test]
fn deposit_at_minimum_routes_to_tier_vault() {
    let flex = Address::contract(0, 11);
    let l3 = Address::contract(0, 12);
    let l6 = Address::contract(0, 13);
    let l12 = Address::contract(0, 14);
    let usdc = Address::contract(0, 4);
    let mut router = VaultRouter::new();
    router.initialize(Address::account(0, 2), Address::account(0, 3), flex, l3, l6, l12, usdc).unwrap();
    let user = Address::account(0, 10);
    assert_eq!(
        router.deposit(user, Tier::L6, MIN_L6),
        Ok(DepositRoute {
            signer: user,
            transfer: TokenTransfer { token: usdc, from: user, to: l6, amount: MIN_L6 },
            call: VaultDepositCall { vault: l6, user, amount: MIN_L6 },
        })
    );
    assert_eq!(router.get_vault(Tier::Flex), Ok(flex));
    assert_eq!(router.get_vault(Tier::L12), Ok(l12));
    assert_eq!(router.get_admin(), Ok(Address::account(0, 2)));
}

#[test]
fn uninitialised_router_refuses() {
    let router = VaultRouter::new();
    let user = Address::account(0, 10);
    assert_eq!(router.deposit(user, Tier::Flex, MIN_FLEX), Err(RouterError::NotInitialized));
    assert_eq!(router.withdraw(user, Tier::Flex), Err(RouterError::NotInitialized));
    assert_eq!(router.get_admin(), Err(RouterError::NotInitialized));
}

#[test]
fn payout_is_paid_only_when_positive() {
    let s = setup();
    let user = Address::account(0, 10);
    let route = s.router.withdraw(user, Tier::L3).unwrap();
    assert_eq!(route, ExitRoute { vault: s.vault, user, token: s.usdc });
    assert_eq!(
        route.payout_transfer(500_000_000),
        Some(TokenTransfer { token: s.usdc, from: s.vault, to: user, amount: 500_000_000 })
    );
    assert_eq!(route.payout_transfer(0), None);
    let exit = s.router.early_exit(user, Tier::Flex).unwrap();
    assert_eq!(exit.payout_transfer(-5), None);
    assert!(!is_locked_tier(&Tier::Flex));
}
