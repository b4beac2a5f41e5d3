use std::collections::HashMap;
use yieldladder::address::Address;
use yieldladder::effects::TokenTransfer;
use yieldladder::strategy_vault::{StrategyError, StrategyVault, BPS_DENOM};

/// Balances of the token, as the token contract would keep them.
struct Ledger {
    balances: HashMap<Address, i128>,
}

impl Ledger {
    fn new() -> Self {
        Ledger { balances: HashMap::new() }
    }

    fn mint(&mut self, to: Address, amount: i128) {
        *self.balances.entry(to).or_insert(0) += amount;
    }

    fn balance(&self, a: Address) -> i128 {
        *self.balances.get(&a).unwrap_or(&0)
    }

    fn apply(&mut self, t: &TokenTransfer) {
        assert!(self.balance(t.from) >= t.amount, "insufficient balance");
        *self.balances.entry(t.from).or_insert(0) -= t.amount;
        *self.balances.entry(t.to).or_insert(0) += t.amount;
    }
}

fn addr(n: u128) -> Address {
    Address::account(0, n)
}

fn setup() -> (Address, Address, Address, StrategyVault) {
    let admin = addr(1);
    let usdc = Address::contract(0, 2);
    let cid = Address::contract(0, 3);
    let mut v = StrategyVault::new();
    v.initialize(admin, usdc).unwrap();
    (admin, usdc, cid, v)
}

#[test]
fn lib_contract_instantiates() {
    let v = StrategyVault::new();
    assert_eq!(v.usdc_token(), Err(StrategyError::NotInitialized));
    assert_eq!(v.allocations().len(), 0);
}

#[test]
fn initialize_and_read_empty_allocations() {
    let (_, _, _, v) = setup();
    assert_eq!(v.allocations().len(), 0);
}

#[test]
fn set_allocation_at_35_pct_cap_succeeds() {
    let (admin, _, _, mut v) = setup();
    let pool = addr(10);
    assert_eq!(v.allow_pool(pool), Ok(admin));
    assert_eq!(v.set_allocation(pool, 3500), Ok(admin));
    assert_eq!(*v.allocations().get(&pool).unwrap(), 3500);
}

#[test]
fn set_allocation_rejects_unlisted_pool() {
    let (_, _, _, mut v) = setup();
    assert_eq!(v.set_allocation(addr(10), 1000), Err(StrategyError::PoolNotAllowlisted));
}

#[test]
fn set_allocation_rejects_above_35_pct() {
    let (_, _, _, mut v) = setup();
    let pool = addr(10);
    v.allow_pool(pool).unwrap();
    assert_eq!(v.set_allocation(pool, 3501), Err(StrategyError::AllocationAboveCap));
}

#[test]
fn lib_double_initialize_panics() {
    let (admin, usdc, _, mut v) = setup();
    assert_eq!(v.initialize(admin, usdc), Err(StrategyError::AlreadyInitialized));
}

#[test]
fn total_allocation_cannot_exceed_100_pct() {
    let (_, _, _, mut v) = setup();
    let pool_a = addr(10);
    let pool_b = addr(11);
    v.allow_pool(pool_a).unwrap();
    v.allow_pool(pool_b).unwrap();
    v.set_allocation(pool_a, 3500).unwrap();
    v.set_allocation(pool_b, 3500).unwrap();
    assert!(v.set_allocation(addr(12), 3500).is_err());
}

#[test]
fn default_buffer_bps_is_500() {
    let (_, _, _, v) = setup();
    assert_eq!(v.buffer_bps(), 500);
}

#[test]
fn set_buffer_bps_updates_value() {
    let (_, _, _, mut v) = setup();
    v.set_buffer_bps(1000).unwrap();
    assert_eq!(v.buffer_bps(), 1000);
}

#[test]
fn set_buffer_bps_rejects_above_10000() {
    let (_, _, _, mut v) = setup();
    assert_eq!(v.set_buffer_bps(10001), Err(StrategyError::InvalidBufferBps));
    assert_eq!(v.buffer_bps(), 500);
}

#[test]
fn rebalance_leaves_buffer_idle() {
    let (_, usdc, cid, mut v) = setup();
    let mut ledger = Ledger::new();
    ledger.mint(cid, 1_000_000);

    v.set_buffer_bps(1000).unwrap(); // 10 %
    let pool = addr(10);
    v.allow_pool(pool).unwrap();
    // 50 % is above the 35 % cap that set_allocation enforces, so it is refused;
    // the pool takes the cap instead.
    assert_eq!(v.set_allocation(pool, 5000), Err(StrategyError::AllocationAboveCap));
    v.set_allocation(pool, 3500).unwrap();
    let harvester = addr(20);
    v.set_harvester(harvester).unwrap();

    let plan = v.rebalance(ledger.balance(cid), cid).unwrap();
    assert_eq!(plan.signer, harvester);
    for t in &plan.transfers {
        assert_eq!(t.token, usdc);
        ledger.apply(t);
    }

    // deployable = 900_000; the pool receives 900_000 * 35 % = 315_000
    assert_eq!(plan.transfers.len(), 1);
    assert_eq!(plan.transfers[0].amount, 315_000);
    let idle = ledger.balance(cid);
    let reserved = 1_000_000i128 * 1000 / BPS_DENOM;
    assert!(idle >= reserved, "idle balance {idle} should be >= reserved {reserved}");
}

#[test]
fn withdraw_within_idle_buffer_succeeds() {
    let (_, _, cid, mut v) = setup();
    let mut ledger = Ledger::new();
    ledger.mint(cid, 1_000_000);
    let tier_vault = addr(30);
    v.register_tier_vault(tier_vault).unwrap();

    let mv = v.withdraw_capital(tier_vault, 50_000, ledger.balance(cid), cid).unwrap();
    assert_eq!(mv.signer, tier_vault);
    ledger.apply(&mv.transfer);

    assert_eq!(ledger.balance(cid), 950_000);
}

#[test]
fn withdraw_exceeding_idle_panics() {
    let (_, _, cid, mut v) = setup();
    let mut ledger = Ledger::new();
    ledger.mint(cid, 100);
    let tier_vault = addr(30);
    v.register_tier_vault(tier_vault).unwrap();
    assert_eq!(
        v.withdraw_capital(tier_vault, 101, ledger.balance(cid), cid),
        Err(StrategyError::ExceedsIdleBuffer)
    );
}

// ── Further cases ────────────────────────────────────────────────────────────

#[test]
fn rebalance_spreads_deployable_capital() {
    let (_, usdc, cid, mut v) = setup();
    let mut ledger = Ledger::new();
    ledger.mint(cid, 1_000_000);
    v.set_buffer_bps(1000).unwrap();
    let pool_a = addr(10);
    let pool_b = addr(11);
    v.allow_pool(pool_a).unwrap();
    v.allow_pool(pool_b).unwrap();
    v.set_allocation(pool_a, 3500).unwrap();
    v.set_allocation(pool_b, 2000).unwrap();
    v.set_harvester(addr(20)).unwrap();

    let plan = v.rebalance(1_000_000, cid).unwrap();
    // deployable = 1_000_000 - 100_000 = 900_000
    assert_eq!(
        plan.transfers,
        vec![
            TokenTransfer { token: usdc, from: cid, to: pool_a, amount: 315_000 },
            TokenTransfer { token: usdc, from: cid, to: pool_b, amount: 180_000 },
        ]
    );
    for t in &plan.transfers {
        ledger.apply(t);
    }
    assert_eq!(ledger.balance(cid), 505_000);
    assert!(ledger.balance(cid) >= 100_000);
}

#[test]
fn rebalance_with_default_buffer_and_zero_target() {
    let (_, _, cid, mut v) = setup();
    let pool = addr(10);
    v.allow_pool(pool).unwrap();
    v.set_allocation(pool, 1).unwrap();
    v.set_harvester(addr(20)).unwrap();
    // deployable = 1_000 - 50 = 950; 950 * 1 / 10_000 = 0: nothing moves.
    let plan = v.rebalance(1_000, cid).unwrap();
    assert!(plan.transfers.is_empty());
}

#[test]
fn rebalance_needs_harvester() {
    let (_, _, cid, v) = setup();
    assert!(matches!(v.rebalance(1_000, cid), Err(StrategyError::NotInitialized)));
}

#[test]
fn rebalance_overflow_is_reported() {
    let (_, _, cid, mut v) = setup();
    v.set_harvester(addr(20)).unwrap();
    assert!(matches!(v.rebalance(i128::MAX, cid), Err(StrategyError::BufferCalcOverflow)));
}

#[test]
fn total_allocation_above_100_pct_is_refused() {
    let (_, _, _, mut v) = setup();
    let pools = [addr(10), addr(11), addr(12)];
    for p in pools {
        v.allow_pool(p).unwrap();
    }
    v.set_allocation(pools[0], 3500).unwrap();
    v.set_allocation(pools[1], 3500).unwrap();
    assert_eq!(v.set_allocation(pools[2], 3500), Err(StrategyError::TotalAllocationExceeded));
    assert_eq!(v.set_allocation(pools[2], 3000), Ok(addr(1)));
    // Re-setting a pool replaces its old allocation in the total.
    assert_eq!(v.set_allocation(pools[0], 3500), Ok(addr(1)));
    assert_eq!(*v.allocations().get(&pools[2]).unwrap(), 3000);
}

#[test]
fn capital_moves_only_for_registered_tier_vaults() {
    let (_, usdc, cid, mut v) = setup();
    let tier_vault = addr(30);
    assert_eq!(v.deposit_capital(tier_vault, 10, cid), Err(StrategyError::NotTierVault));
    v.register_tier_vault(tier_vault).unwrap();
    let mv = v.deposit_capital(tier_vault, 10, cid).unwrap();
    assert_eq!(mv.transfer, TokenTransfer { token: usdc, from: tier_vault, to: cid, amount: 10 });
    assert_eq!(mv.signer, tier_vault);
}

#[test]
fn admin_operations_before_initialize_are_refused() {
    let mut v = StrategyVault::new();
    assert_eq!(v.set_harvester(addr(1)), Err(StrategyError::NotInitialized));
    assert_eq!(v.allow_pool(addr(1)), Err(StrategyError::NotInitialized));
    assert_eq!(v.set_buffer_bps(100), Err(StrategyError::NotInitialized));
    assert_eq!(v.buffer_bps(), 500);
}

#[test]
fn allocations_come_in_address_order() {
    let (_, _, _, mut v) = setup();
    let c = Address::contract(0, 1);
    let b = Address::account(5, 0);
    let a = Address::account(0, 7);
    for p in [c, b, a] {
        v.allow_pool(p).unwrap();
        v.set_allocation(p, 1000).unwrap();
    }
    let m = v.allocations();
    assert_eq!(m.entry(0).0, a);
    assert_eq!(m.entry(1).0, b);
    assert_eq!(m.entry(2).0, c);
}
