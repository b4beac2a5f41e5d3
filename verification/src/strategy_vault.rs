//! The strategy vault: holds the tier vaults' capital, keeps a governance-set
//! share of it idle as a buffer, and spreads the rest over allow-listed pools
//! according to per-pool allocations in basis points.

use vstd::prelude::*;
use crate::address::Address;
use crate::arith::{fits_i128, trunc_div, saturating_sub_i128, sat_sub_i128};
use crate::effects::TokenTransfer;
use crate::keyed_map::{KeyedMap, keys_distinct, seq_sum_by, seq_to_map, seq_has_key, lemma_entry_in_map};

verus! {

/// The largest allocation one pool may have (35 %).
pub const MAX_ALLOC_BPS: i128 = 3_500;

/// Basis points in a whole.
pub const BPS_DENOM: i128 = 10_000;

/// The idle buffer before governance sets one (5 %).
pub const DEFAULT_BUFFER_BPS: i128 = 500;

/// Why a strategy-vault operation was refused.
#[derive(Clone, Copy, PartialEq, Eq, Structural, Debug)]
pub enum StrategyError {
    AlreadyInitialized,
    /// A value that initialisation (or `set_harvester`) records is missing.
    NotInitialized,
    InvalidBufferBps,
    NotTierVault,
    ExceedsIdleBuffer,
    PoolNotAllowlisted,
    AllocationAboveCap,
    AllocationSumOverflow,
    TotalAllocationExceeded,
    BufferCalcOverflow,
    RebalanceOverflow,
}

/// A capital movement between the vault and a tier vault; `signer` must authorise it.
#[derive(Clone, Copy, PartialEq, Eq, Structural, Debug)]
pub struct CapitalMove {
    pub signer: Address,
    pub transfer: TokenTransfer,
}

/// The transfers of a rebalance, in the order of the pools' addresses; `signer`
/// must authorise it.
pub struct Rebalance {
    pub signer: Address,
    pub transfers: Vec<TokenTransfer>,
}

/// An allocation entry's basis points, for summing.
pub open spec fn bps_value() -> spec_fn(Address, i128) -> int {
    |k: Address, v: i128| v as int
}

/// An allocation entry's basis points unless it belongs to `pool`.
pub open spec fn excluding(pool: Address) -> spec_fn(Address, i128) -> int {
    |k: Address, v: i128|
        if k == pool {
            0
        } else {
            v as int
        }
}

/// Every running total of the allocations other than `pool`'s, taken in order, fits an `i128`.
pub open spec fn running_sums_fit(s: Seq<(Address, i128)>, pool: Address) -> bool {
    forall|j: int| 0 <= j <= s.len() ==> fits_i128(#[trigger] seq_sum_by(s.take(j), excluding(pool)))
}

/// The buffer held back from `total` at `buffer_bps`.
pub open spec fn reserved_of(total: int, buffer_bps: int) -> int {
    trunc_div(total * buffer_bps, BPS_DENOM as int)
}

/// The share of `deployable` that `bps` basis points stand for.
pub open spec fn target_of(deployable: int, bps: int) -> int {
    trunc_div(deployable * bps, BPS_DENOM as int)
}

/// The transfers a rebalance makes from `from` for the allocations `s`: each
/// positive target, in order.
pub open spec fn planned_transfers(
    s: Seq<(Address, i128)>,
    deployable: int,
    token: Address,
    from: Address,
) -> Seq<TokenTransfer>
    decreases s.len(),
{
    if s.len() == 0 {
        Seq::empty()
    } else {
        let rest = planned_transfers(s.drop_last(), deployable, token, from);
        let t = target_of(deployable, s.last().1 as int);
        if t > 0 {
            rest.push(TokenTransfer { token, from, to: s.last().0, amount: t as i128 })
        } else {
            rest
        }
    }
}

/// The total amount of a sequence of transfers.
pub open spec fn transfers_total(ts: Seq<TokenTransfer>) -> int
    decreases ts.len(),
{
    if ts.len() == 0 {
        0
    } else {
        transfers_total(ts.drop_last()) + ts.last().amount
    }
}

/// The vault's storage.
pub struct StrategyVault {
    pub admin: Option<Address>,
    pub usdc: Option<Address>,
    pub harvester: Option<Address>,
    pub allocations: Option<KeyedMap<Address, i128>>,
    pub tier_vaults: Option<KeyedMap<Address, bool>>,
    pub pool_allowlist: Option<KeyedMap<Address, bool>>,
    pub buffer_bps: Option<i128>,
}

/// `k` is marked `true` in the flag map `m`.
pub open spec fn flagged(m: Map<Address, bool>, k: Address) -> bool {
    m.contains_key(k) && m[k]
}

impl StrategyVault {
    /// Each map keeps distinct keys in the ledger's order of addresses, the order
    /// in which the ledger's maps hand out their entries.
    pub open spec fn wf(&self) -> bool {
        &&& (self.allocations matches Some(m) ==> m.wf() && m.sorted())
        &&& (self.tier_vaults matches Some(m) ==> m.wf() && m.sorted())
        &&& (self.pool_allowlist matches Some(m) ==> m.wf() && m.sorted())
    }

    /// The buffer setting in force.
    pub open spec fn spec_buffer_bps(&self) -> i128 {
        match self.buffer_bps {
            Some(b) => b,
            None => DEFAULT_BUFFER_BPS,
        }
    }

    /// The allocation entries, in the order of the pools' addresses (none before
    /// initialisation).
    pub open spec fn allocation_entries(&self) -> Seq<(Address, i128)> {
        match self.allocations {
            Some(m) => m.entries(),
            None => Seq::empty(),
        }
    }

    /// Everything but the allocations is unchanged from `other`.
    pub open spec fn same_except_allocations(&self, other: &StrategyVault) -> bool {
        &&& self.admin == other.admin
        &&& self.usdc == other.usdc
        &&& self.harvester == other.harvester
        &&& self.tier_vaults == other.tier_vaults
        &&& self.pool_allowlist == other.pool_allowlist
        &&& self.buffer_bps == other.buffer_bps
    }

    /// Storage before initialisation.
    pub fn new() -> (v: Self)
        ensures
            v.wf(),
            v.admin is None && v.usdc is None && v.harvester is None,
            v.allocations is None && v.tier_vaults is None && v.pool_allowlist is None,
            v.buffer_bps is None,
    {
        StrategyVault {
            admin: None,
            usdc: None,
            harvester: None,
            allocations: None,
            tier_vaults: None,
            pool_allowlist: None,
            buffer_bps: None,
        }
    }

    /// Records the admin and token, empty allocation, tier-vault and pool lists,
    /// and the default buffer.  Refused once an admin is recorded.
    pub fn initialize(&mut self, admin: Address, usdc_token: Address) -> (r: Result<
        (),
        StrategyError,
    >)
        requires
            old(self).wf(),
        ensures
            final(self).wf(),
            old(self).admin is Some ==> r == Err::<(), StrategyError>(
                StrategyError::AlreadyInitialized,
            ) && *final(self) == *old(self),
            old(self).admin is None ==> {
                &&& r is Ok
                &&& final(self).admin == Some(admin)
                &&& final(self).usdc == Some(usdc_token)
                &&& final(self).harvester == old(self).harvester
                &&& final(self).allocations matches Some(m) && m@ == Map::<Address, i128>::empty()
                    && m.entries().len() == 0
                &&& final(self).tier_vaults matches Some(m) && m@ == Map::<Address, bool>::empty()
                &&& final(self).pool_allowlist matches Some(m) && m@ == Map::<Address, bool>::empty()
                &&& final(self).buffer_bps == Some(DEFAULT_BUFFER_BPS)
            },
    {
        if self.admin.is_some() {
            return Err(StrategyError::AlreadyInitialized);
        }
        self.admin = Some(admin);
        self.usdc = Some(usdc_token);
        self.allocations = Some(KeyedMap::new());
        self.tier_vaults = Some(KeyedMap::new());
        self.pool_allowlist = Some(KeyedMap::new());
        self.buffer_bps = Some(DEFAULT_BUFFER_BPS);
        Ok(())
    }

    fn require_admin(&self) -> (r: Result<Address, StrategyError>)
        ensures
            match self.admin {
                Some(a) => r == Ok::<Address, StrategyError>(a),
                None => r == Err::<Address, StrategyError>(StrategyError::NotInitialized),
            },
    {
        match self.admin {
            Some(a) => Ok(a),
            None => Err(StrategyError::NotInitialized),
        }
    }

    /// Records the harvester; the admin must authorise it.
    pub fn set_harvester(&mut self, harvester: Address) -> (r: Result<Address, StrategyError>)
        requires
            old(self).wf(),
        ensures
            final(self).wf(),
            match old(self).admin {
                Some(a) => r == Ok::<Address, StrategyError>(a) && *final(self) == (StrategyVault {
                    harvester: Some(harvester),
                    ..*old(self)
                }),
                None => r == Err::<Address, StrategyError>(StrategyError::NotInitialized)
                    && *final(self) == *old(self),
            },
    {
        let signer = self.require_admin()?;
        self.harvester = Some(harvester);
        Ok(signer)
    }

    /// Marks `vault` as a registered tier vault; the admin must authorise it.
    pub fn register_tier_vault(&mut self, vault: Address) -> (r: Result<Address, StrategyError>)
        requires
            old(self).wf(),
        ensures
            final(self).wf(),
            old(self).admin is None ==> r == Err::<Address, StrategyError>(
                StrategyError::NotInitialized,
            ),
            old(self).admin is Some && old(self).tier_vaults is None ==> r == Err::<
                Address,
                StrategyError,
            >(StrategyError::NotInitialized),
            r is Err ==> *final(self) == *old(self),
            r is Ok <==> old(self).admin is Some && old(self).tier_vaults is Some,
            r matches Ok(s) ==> {
                &&& s == old(self).admin->Some_0
                &&& final(self).tier_vaults->Some_0@ == old(self).tier_vaults->Some_0@.insert(
                    vault,
                    true,
                )
                &&& final(self).tier_vaults is Some
                &&& final(self).admin == old(self).admin
                &&& final(self).usdc == old(self).usdc
                &&& final(self).harvester == old(self).harvester
                &&& final(self).allocations == old(self).allocations
                &&& final(self).pool_allowlist == old(self).pool_allowlist
                &&& final(self).buffer_bps == old(self).buffer_bps
            },
    {
        let signer = self.require_admin()?;
        match self.tier_vaults.take() {
            Some(mut m) => {
                m.insert_ordered(vault, true);
                self.tier_vaults = Some(m);
                Ok(signer)
            },
            None => Err(StrategyError::NotInitialized),
        }
    }

    /// Adds `pool` to the allow-list; the admin must authorise it.
    pub fn allow_pool(&mut self, pool: Address) -> (r: Result<Address, StrategyError>)
        requires
            old(self).wf(),
        ensures
            final(self).wf(),
            old(self).admin is None ==> r == Err::<Address, StrategyError>(
                StrategyError::NotInitialized,
            ),
            old(self).admin is Some && old(self).pool_allowlist is None ==> r == Err::<
                Address,
                StrategyError,
            >(StrategyError::NotInitialized),
            r is Err ==> *final(self) == *old(self),
            r is Ok <==> old(self).admin is Some && old(self).pool_allowlist is Some,
            r matches Ok(s) ==> {
                &&& s == old(self).admin->Some_0
                &&& final(self).pool_allowlist->Some_0@ == old(
                    self,
                ).pool_allowlist->Some_0@.insert(pool, true)
                &&& final(self).pool_allowlist is Some
                &&& final(self).admin == old(self).admin
                &&& final(self).usdc == old(self).usdc
                &&& final(self).harvester == old(self).harvester
                &&& final(self).allocations == old(self).allocations
                &&& final(self).tier_vaults == old(self).tier_vaults
                &&& final(self).buffer_bps == old(self).buffer_bps
            },
    {
        let signer = self.require_admin()?;
        match self.pool_allowlist.take() {
            Some(mut m) => {
                m.insert_ordered(pool, true);
                self.pool_allowlist = Some(m);
                Ok(signer)
            },
            None => Err(StrategyError::NotInitialized),
        }
    }

    /// Sets the idle buffer, in basis points of total capital; the admin must
    /// authorise it, and it must lie in `[0, BPS_DENOM]`.
    pub fn set_buffer_bps(&mut self, bps: i128) -> (r: Result<Address, StrategyError>)
        requires
            old(self).wf(),
        ensures
            final(self).wf(),
            old(self).admin is None ==> r == Err::<Address, StrategyError>(
                StrategyError::NotInitialized,
            ),
            old(self).admin is Some && (bps < 0 || bps > BPS_DENOM) ==> r == Err::<
                Address,
                StrategyError,
            >(StrategyError::InvalidBufferBps),
            r is Err ==> *final(self) == *old(self),
            old(self).admin is Some && 0 <= bps <= BPS_DENOM ==> r == Ok::<Address, StrategyError>(
                old(self).admin->Some_0,
            ) && *final(self) == (StrategyVault { buffer_bps: Some(bps), ..*old(self) }),
    {
        let signer = self.require_admin()?;
        if bps < 0 || bps > BPS_DENOM {
            return Err(StrategyError::InvalidBufferBps);
        }
        self.buffer_bps = Some(bps);
        Ok(signer)
    }

    /// The buffer setting in force (the default when none is recorded).
    pub fn buffer_bps(&self) -> (b: i128)
        ensures
            b == self.spec_buffer_bps(),
    {
        match self.buffer_bps {
            Some(b) => b,
            None => DEFAULT_BUFFER_BPS,
        }
    }

    /// The token the vault holds its capital in.
    pub fn usdc_token(&self) -> (r: Result<Address, StrategyError>)
        ensures
            match self.usdc {
                Some(u) => r == Ok::<Address, StrategyError>(u),
                None => r == Err::<Address, StrategyError>(StrategyError::NotInitialized),
            },
    {
        match self.usdc {
            Some(u) => Ok(u),
            None => Err(StrategyError::NotInitialized),
        }
    }

    fn registered_tier_vault(&self, caller: &Address) -> (r: Result<(), StrategyError>)
        requires
            self.wf(),
        ensures
            match self.tier_vaults {
                None => r == Err::<(), StrategyError>(StrategyError::NotInitialized),
                Some(m) => if flagged(m@, *caller) {
                    r is Ok
                } else {
                    r == Err::<(), StrategyError>(StrategyError::NotTierVault)
                },
            },
    {
        match &self.tier_vaults {
            None => Err(StrategyError::NotInitialized),
            Some(m) => match m.get(caller) {
                Some(b) => if *b {
                    Ok(())
                } else {
                    Err(StrategyError::NotTierVault)
                },
                None => Err(StrategyError::NotTierVault),
            },
        }
    }

    /// A registered tier vault `caller` moves `amount` of the token into the vault
    /// (whose own address is `this`); `caller` must authorise it.
    pub fn deposit_capital(&self, caller: Address, amount: i128, this: Address) -> (r: Result<
        CapitalMove,
        StrategyError,
    >)
        requires
            self.wf(),
        ensures
            self.tier_vaults is None ==> r == Err::<CapitalMove, StrategyError>(
                StrategyError::NotInitialized,
            ),
            self.tier_vaults matches Some(m) && !flagged(m@, caller) ==> r == Err::<
                CapitalMove,
                StrategyError,
            >(StrategyError::NotTierVault),
            self.tier_vaults matches Some(m) && flagged(m@, caller) && self.usdc is None ==> r
                == Err::<CapitalMove, StrategyError>(StrategyError::NotInitialized),
            self.tier_vaults matches Some(m) && flagged(m@, caller) && self.usdc is Some ==> r
                == Ok::<CapitalMove, StrategyError>(
                CapitalMove {
                    signer: caller,
                    transfer: TokenTransfer {
                        token: self.usdc->Some_0,
                        from: caller,
                        to: this,
                        amount,
                    },
                },
            ),
    {
        self.registered_tier_vault(&caller)?;
        let usdc = self.usdc_token()?;
        Ok(
            CapitalMove {
                signer: caller,
                transfer: TokenTransfer { token: usdc, from: caller, to: this, amount },
            },
        )
    }

    /// A registered tier vault `caller` takes `amount` out of the idle balance
    /// `idle` held by the vault `this`; more than is idle is refused.  `caller`
    /// must authorise it.
    pub fn withdraw_capital(
        &self,
        caller: Address,
        amount: i128,
        idle: i128,
        this: Address,
    ) -> (r: Result<CapitalMove, StrategyError>)
        requires
            self.wf(),
        ensures
            self.tier_vaults is None ==> r == Err::<CapitalMove, StrategyError>(
                StrategyError::NotInitialized,
            ),
            self.tier_vaults matches Some(m) && !flagged(m@, caller) ==> r == Err::<
                CapitalMove,
                StrategyError,
            >(StrategyError::NotTierVault),
            self.tier_vaults matches Some(m) && flagged(m@, caller) && self.usdc is None ==> r
                == Err::<CapitalMove, StrategyError>(StrategyError::NotInitialized),
            self.tier_vaults matches Some(m) && flagged(m@, caller) && self.usdc is Some && amount
                > idle ==> r == Err::<CapitalMove, StrategyError>(StrategyError::ExceedsIdleBuffer),
            self.tier_vaults matches Some(m) && flagged(m@, caller) && self.usdc is Some && amount
                <= idle ==> r == Ok::<CapitalMove, StrategyError>(
                CapitalMove {
                    signer: caller,
                    transfer: TokenTransfer {
                        token: self.usdc->Some_0,
                        from: this,
                        to: caller,
                        amount,
                    },
                },
            ),
    {
        self.registered_tier_vault(&caller)?;
        let usdc = self.usdc_token()?;
        if amount > idle {
            return Err(StrategyError::ExceedsIdleBuffer);
        }
        Ok(
            CapitalMove {
                signer: caller,
                transfer: TokenTransfer { token: usdc, from: this, to: caller, amount },
            },
        )
    }

    /// Sets `pool`'s allocation to `target_bps`; the admin must authorise it.
    /// The pool must be allow-listed, the target at most `MAX_ALLOC_BPS`, and the
    /// allocations of all pools together at most `BPS_DENOM`.
    #[verifier::loop_isolation(false)]
    pub fn set_allocation(&mut self, pool: Address, target_bps: i128) -> (r: Result<
        Address,
        StrategyError,
    >)
        requires
            old(self).wf(),
        ensures
            final(self).wf(),
            r is Err ==> *final(self) == *old(self),
            r == old(self).set_allocation_result(pool, target_bps),
            r is Ok ==> {
                &&& final(self).same_except_allocations(old(self))
                &&& final(self).allocations is Some
                &&& final(self).allocations->Some_0@ == old(self).allocations->Some_0@.insert(
                    pool,
                    target_bps,
                )
            },
            // Every successful call leaves the allocations summing to at most 100 %.
            r is Ok ==> seq_sum_by(final(self).allocation_entries(), bps_value()) <= BPS_DENOM,
    {
        let signer = self.require_admin()?;
        let listed = match &self.pool_allowlist {
            None => return Err(StrategyError::NotInitialized),
            Some(m) => match m.get(&pool) {
                Some(b) => *b,
                None => false,
            },
        };
        if !listed {
            return Err(StrategyError::PoolNotAllowlisted);
        }
        if target_bps > MAX_ALLOC_BPS {
            return Err(StrategyError::AllocationAboveCap);
        }
        let mut allocs = match self.allocations.take() {
            Some(m) => m,
            None => return Err(StrategyError::NotInitialized),
        };
        let ghost s = allocs.entries();
        let mut others: i128 = 0;
        let mut i: usize = 0;
        while i < allocs.len()
            invariant
                s == allocs.entries(),
                allocs.wf(),
                allocs.sorted(),
                i <= s.len(),
                others == seq_sum_by(s.take(i as int), excluding(pool)),
                forall|j: int|
                    0 <= j <= i ==> fits_i128(#[trigger] seq_sum_by(s.take(j), excluding(pool))),
                self.allocations is None,
                old(self).allocations == Some(allocs),
                self.same_except_allocations(old(self)),
            decreases s.len() - i,
        {
            let e = allocs.entry(i);
            let k = e.0;
            let v = e.1;
            proof {
                assert(s.take(i + 1).drop_last() =~= s.take(i as int));
                assert(s.take(i + 1).last() == s[i as int]);
            }
            if !k.same(&pool) {
                others = match others.checked_add(v) {
                    Some(x) => x,
                    None => {
                        self.allocations = Some(allocs);
                        assert(!running_sums_fit(s, pool)) by {
                            assert(!fits_i128(seq_sum_by(s.take(i + 1), excluding(pool))));
                        }
                        return Err(StrategyError::AllocationSumOverflow);
                    },
                };
            }
            i = i + 1;
        }
        assert(s.take(s.len() as int) =~= s);
        proof {
            lemma_sum_excluding(s, pool);
        }
        let total = match others.checked_add(target_bps) {
            Some(t) => t,
            None => {
                self.allocations = Some(allocs);
                return Err(StrategyError::AllocationSumOverflow);
            },
        };
        if total > BPS_DENOM {
            self.allocations = Some(allocs);
            return Err(StrategyError::TotalAllocationExceeded);
        }
        let ghost before = allocs;
        allocs.insert_ordered(pool, target_bps);
        proof {
            assert(allocs.sum_by(bps_value()) == before.sum_by(bps_value()) - (if before@.contains_key(
                pool,
            ) {
                bps_value()(pool, before@[pool])
            } else {
                0
            }) + bps_value()(pool, target_bps));
        }
        self.allocations = Some(allocs);
        Ok(signer)
    }

    /// What `set_allocation(pool, target_bps)` answers.
    pub open spec fn set_allocation_result(&self, pool: Address, target_bps: i128) -> Result<
        Address,
        StrategyError,
    > {
        if self.admin is None {
            Err(StrategyError::NotInitialized)
        } else if self.pool_allowlist is None {
            Err(StrategyError::NotInitialized)
        } else if !flagged(self.pool_allowlist->Some_0@, pool) {
            Err(StrategyError::PoolNotAllowlisted)
        } else if target_bps > MAX_ALLOC_BPS {
            Err(StrategyError::AllocationAboveCap)
        } else if self.allocations is None {
            Err(StrategyError::NotInitialized)
        } else {
            let s = self.allocations->Some_0.entries();
            let others = seq_sum_by(s, excluding(pool));
            if !running_sums_fit(s, pool) || !fits_i128(others + target_bps) {
                Err(StrategyError::AllocationSumOverflow)
            } else if others + target_bps > BPS_DENOM {
                Err(StrategyError::TotalAllocationExceeded)
            } else {
                Ok(self.admin->Some_0)
            }
        }
    }

    /// The allocations (empty before initialisation).
    pub fn allocations(&self) -> (m: KeyedMap<Address, i128>)
        requires
            self.wf(),
        ensures
            m.wf(),
            m.entries() == self.allocation_entries(),
            self.allocations matches Some(a) ==> m@ == a@,
            self.allocations is None ==> m@ == Map::<Address, i128>::empty(),
    {
        match &self.allocations {
            Some(a) => a.copied(),
            None => KeyedMap::new(),
        }
    }

    /// Plans a rebalance of the vault `this` holding `total` units of the token:
    /// the buffer `total * buffer_bps / BPS_DENOM` stays, and each pool receives
    /// its allocation's share of the rest.  The harvester must authorise it.
    #[verifier::loop_isolation(false)]
    pub fn rebalance(&self, total: i128, this: Address) -> (r: Result<Rebalance, StrategyError>)
        requires
            self.wf(),
        ensures
            match self.rebalance_result(total, this) {
                Ok((signer, ts)) => r matches Ok(p) && p.signer == signer && p.transfers@ == ts,
                Err(e) => r matches Err(e2) && e2 == e,
            },
    {
        let signer = match self.harvester {
            Some(h) => h,
            None => return Err(StrategyError::NotInitialized),
        };
        let usdc = self.usdc_token()?;
        let buffer = self.buffer_bps();
        let reserved = match total.checked_mul(buffer) {
            Some(p) => p / BPS_DENOM,
            None => return Err(StrategyError::BufferCalcOverflow),
        };
        let deployable = sat_sub_i128(total, reserved);
        let allocs = match &self.allocations {
            Some(m) => m,
            None => return Err(StrategyError::NotInitialized),
        };
        let ghost s = allocs.entries();
        let mut transfers: Vec<TokenTransfer> = Vec::new();
        let mut i: usize = 0;
        while i < allocs.len()
            invariant
                s == allocs.entries(),
                i <= s.len(),
                forall|j: int| 0 <= j < i ==> fits_i128(deployable * #[trigger] s[j].1),
                transfers@ == planned_transfers(s.take(i as int), deployable as int, usdc, this),
            decreases s.len() - i,
        {
            let e = allocs.entry(i);
            let pool = e.0;
            let bps = e.1;
            proof {
                assert(s.take(i + 1).drop_last() =~= s.take(i as int));
                assert(s.take(i + 1).last() == s[i as int]);
            }
            let target = match deployable.checked_mul(bps) {
                Some(p) => p / BPS_DENOM,
                None => {
                    assert(!fits_i128(deployable * s[i as int].1));
                    return Err(StrategyError::RebalanceOverflow);
                },
            };
            if target > 0 {
                transfers.push(TokenTransfer { token: usdc, from: this, to: pool, amount: target });
            }
            i = i + 1;
        }
        assert(s.take(s.len() as int) =~= s);
        Ok(Rebalance { signer, transfers })
    }

    /// What `rebalance(total, this)` answers: the signer and the transfers.
    pub open spec fn rebalance_result(&self, total: i128, this: Address) -> Result<
        (Address, Seq<TokenTransfer>),
        StrategyError,
    > {
        if self.harvester is None || self.usdc is None {
            Err(StrategyError::NotInitialized)
        } else if !fits_i128(total * self.spec_buffer_bps()) {
            Err(StrategyError::BufferCalcOverflow)
        } else if self.allocations is None {
            Err(StrategyError::NotInitialized)
        } else {
            let deployable = saturating_sub_i128(
                total as int,
                reserved_of(total as int, self.spec_buffer_bps() as int),
            );
            let s = self.allocations->Some_0.entries();
            if exists|j: int| 0 <= j < s.len() && !fits_i128(deployable * #[trigger] s[j].1) {
                Err(StrategyError::RebalanceOverflow)
            } else {
                Ok(
                    (
                        self.harvester->Some_0,
                        planned_transfers(s, deployable, self.usdc->Some_0, this),
                    ),
                )
            }
        }
    }
}

/// The allocations other than `pool`'s sum to the whole less `pool`'s own.
pub proof fn lemma_sum_excluding(s: Seq<(Address, i128)>, pool: Address)
    requires
        keys_distinct(s),
    ensures
        seq_sum_by(s, excluding(pool)) == seq_sum_by(s, bps_value()) - (if seq_to_map(
            s,
        ).contains_key(pool) {
            seq_to_map(s)[pool] as int
        } else {
            0
        }),
    decreases s.len(),
{
    if s.len() > 0 {
        let t = s.drop_last();
        let last = s.last();
        assert(keys_distinct(t));
        lemma_sum_excluding(t, pool);
        lemma_entry_in_map(s, s.len() - 1);
        if last.0 == pool {
            assert(!seq_has_key(t, pool)) by {
                if seq_has_key(t, pool) {
                    let j = choose|j: int| 0 <= j < t.len() && #[trigger] t[j].0 == pool;
                    assert(s[j].0 == s[s.len() - 1].0);
                }
            }
        } else {
            assert(seq_has_key(s, pool) == seq_has_key(t, pool)) by {
                if seq_has_key(s, pool) {
                    let j = choose|j: int| 0 <= j < s.len() && #[trigger] s[j].0 == pool;
                    assert(j < t.len());
                    assert(t[j].0 == pool);
                }
                if seq_has_key(t, pool) {
                    let j = choose|j: int| 0 <= j < t.len() && #[trigger] t[j].0 == pool;
                    assert(s[j].0 == pool);
                }
            }
            if seq_has_key(t, pool) {
                let j = choose|j: int| 0 <= j < t.len() && #[trigger] t[j].0 == pool;
                lemma_entry_in_map(t, j);
                lemma_entry_in_map(s, j);
            }
        }
    }
}


proof fn lemma_planned_total_scaled(s: Seq<(Address, i128)>, d: int, token: Address, from: Address)
    requires
        d >= 0,
        forall|j: int| 0 <= j < s.len() ==> #[trigger] s[j].1 >= 0,
        forall|j: int| 0 <= j < s.len() ==> fits_i128(d * #[trigger] s[j].1),
    ensures
        transfers_total(planned_transfers(s, d, token, from)) * BPS_DENOM <= d * seq_sum_by(
            s,
            bps_value(),
        ),
        transfers_total(planned_transfers(s, d, token, from)) >= 0,
    decreases s.len(),
{
    if s.len() > 0 {
        let t = s.drop_last();
        let b = s.last().1 as int;
        assert(b == s[s.len() - 1].1);
        lemma_planned_total_scaled(t, d, token, from);
        let rest = planned_transfers(t, d, token, from);
        let target = target_of(d, b);
        assert(d * b >= 0) by (nonlinear_arith)
            requires
                d >= 0,
                b >= 0,
        ;
        assert(target * 10_000 <= d * b && target <= d * b) by (nonlinear_arith)
            requires
                d * b >= 0,
                target == (d * b) / 10_000,
        ;
        assert(fits_i128(d * s[s.len() - 1].1));
        assert(d * seq_sum_by(s, bps_value()) == d * seq_sum_by(t, bps_value()) + d * b) by {
            vstd::arithmetic::mul::lemma_mul_is_distributive_add(d, seq_sum_by(t, bps_value()), b);
        }
        if target > 0 {
            let ts = rest.push(TokenTransfer { token, from, to: s.last().0, amount: target as i128 });
            assert(ts.drop_last() =~= rest);
        }
    }
}

/// With non-negative allocations that together make at most 100 %, the
/// transfers planned for a non-negative deployable amount move at most that
/// amount in all.
pub proof fn lemma_planned_within_deployable(
    s: Seq<(Address, i128)>,
    d: int,
    token: Address,
    from: Address,
)
    requires
        d >= 0,
        forall|j: int| 0 <= j < s.len() ==> #[trigger] s[j].1 >= 0,
        forall|j: int| 0 <= j < s.len() ==> fits_i128(d * #[trigger] s[j].1),
        seq_sum_by(s, bps_value()) <= BPS_DENOM,
    ensures
        0 <= transfers_total(planned_transfers(s, d, token, from)) <= d,
{
    lemma_planned_total_scaled(s, d, token, from);
    let total = transfers_total(planned_transfers(s, d, token, from));
    let sum = seq_sum_by(s, bps_value());
    assert(d * sum <= d * 10_000) by (nonlinear_arith)
        requires
            d >= 0,
            sum <= 10_000,
    ;
}

/// A rebalance keeps the buffer idle: when the allocations are non-negative and
/// make at most 100 % together, the buffer setting lies in `[0, BPS_DENOM]` and
/// the holding is non-negative, what stays after the planned transfers is at
/// least the reserved buffer.
pub proof fn lemma_rebalance_leaves_buffer(v: &StrategyVault, total: i128, this: Address)
    requires
        v.rebalance_result(total, this) is Ok,
        total >= 0,
        0 <= v.spec_buffer_bps() <= BPS_DENOM,
        forall|j: int|
            0 <= j < v.allocation_entries().len() ==> #[trigger] v.allocation_entries()[j].1 >= 0,
        seq_sum_by(v.allocation_entries(), bps_value()) <= BPS_DENOM,
    ensures
        total - transfers_total(v.rebalance_result(total, this)->Ok_0.1) >= reserved_of(
            total as int,
            v.spec_buffer_bps() as int,
        ),
{
    let buf = v.spec_buffer_bps() as int;
    let t = total as int;
    let reserved = reserved_of(t, buf);
    assert(0 <= reserved <= t) by (nonlinear_arith)
        requires
            t >= 0,
            0 <= buf <= 10_000,
            reserved == (t * buf) / 10_000,
    {
        assert(0 <= t * buf <= t * 10_000);
    };
    let d = saturating_sub_i128(t, reserved);
    assert(d == t - reserved);
    lemma_planned_within_deployable(v.allocation_entries(), d, v.usdc->Some_0, this);
}


/// An allocation is only ever accepted for an allow-listed pool, at most at the
/// per-pool cap, and with the whole at most 100 %; the admin authorises it.
pub proof fn lemma_set_allocation_guards(v: &StrategyVault, pool: Address, target_bps: i128)
    requires
        v.wf(),
        v.set_allocation_result(pool, target_bps) is Ok,
    ensures
        v.admin is Some,
        v.set_allocation_result(pool, target_bps) == Ok::<Address, StrategyError>(v.admin->Some_0),
        v.pool_allowlist matches Some(m) && flagged(m@, pool),
        target_bps <= MAX_ALLOC_BPS,
        seq_sum_by(v.allocation_entries(), excluding(pool)) + target_bps <= BPS_DENOM,
{
}

/// The planned transfers are the allocation entries whose share
/// `deployable * bps / BPS_DENOM` comes to at least one unit, in their order,
/// each turned into a transfer of that share from `from` to the entry's pool.
pub proof fn lemma_planned_transfers_are_positive_shares(
    s: Seq<(Address, i128)>,
    d: int,
    token: Address,
    from: Address,
)
    ensures
        planned_transfers(s, d, token, from) == s.filter(|e: (Address, i128)| d * e.1 >= BPS_DENOM).map_values(
            |e: (Address, i128)| TokenTransfer { token, from, to: e.0, amount: ((d * e.1) / (BPS_DENOM as int)) as i128 },
        ),
    decreases s.len(),
{
    let p = |e: (Address, i128)| d * e.1 >= BPS_DENOM;
    let f = |e: (Address, i128)| TokenTransfer { token, from, to: e.0, amount: ((d * e.1) / (BPS_DENOM as int)) as i128 };
    reveal(Seq::filter);
    if s.len() == 0 {
        assert(s.filter(p).map_values(f) =~= Seq::<TokenTransfer>::empty());
    } else {
        let t = s.drop_last();
        lemma_planned_transfers_are_positive_shares(t, d, token, from);
        let x = d * s.last().1;
        assert(target_of(d, s.last().1 as int) == trunc_div(x, 10_000));
        if x >= 10_000 {
            assert(trunc_div(x, 10_000) == x / 10_000);
            assert(x / 10_000 > 0);
            assert(s.filter(p) == t.filter(p).push(s.last()));
            assert(s.filter(p).map_values(f) =~= t.filter(p).map_values(f).push(f(s.last())));
        } else {
            assert(trunc_div(x, 10_000) <= 0);
            assert(s.filter(p) == t.filter(p));
        }
    }
}

/// Where a filter's elements come from: the kept elements are, in order, the
/// elements at the returned indices, which are exactly the positions of the
/// elements that pass.
proof fn lemma_filter_indices<A>(s: Seq<A>, p: spec_fn(A) -> bool) -> (idx: Seq<int>)
    ensures
        idx.len() == s.filter(p).len(),
        forall|k: int|
            0 <= k < idx.len() ==> 0 <= #[trigger] idx[k] < s.len() && p(s[idx[k]]) && s.filter(p)[k]
                == s[idx[k]],
        forall|k1: int, k2: int| 0 <= k1 < k2 < idx.len() ==> #[trigger] idx[k1] < #[trigger] idx[k2],
        forall|j: int| 0 <= j < s.len() && p(#[trigger] s[j]) ==> idx.contains(j),
    decreases s.len(),
{
    reveal(Seq::filter);
    if s.len() == 0 {
        Seq::empty()
    } else {
        let t = s.drop_last();
        let n = t.len() as int;
        let prev = lemma_filter_indices(t, p);
        assert(forall|j: int| 0 <= j < n ==> t[j] == s[j]);
        if p(s[n]) {
            let idx = prev.push(n);
            assert(s.filter(p) == t.filter(p).push(s[n]));
            assert forall|j: int| 0 <= j < s.len() && p(#[trigger] s[j]) implies idx.contains(j) by {
                if j < n {
                    assert(t[j] == s[j]);
                    let k = choose|k: int| 0 <= k < prev.len() && prev[k] == j;
                    assert(idx[k] == j);
                } else {
                    assert(idx[prev.len() as int] == j);
                }
            }
            assert forall|k: int| 0 <= k < idx.len() implies 0 <= #[trigger] idx[k] < s.len() && p(
                s[idx[k]],
            ) && s.filter(p)[k] == s[idx[k]] by {
                if k < prev.len() {
                    assert(idx[k] == prev[k]);
                }
            }
            assert forall|k1: int, k2: int| 0 <= k1 < k2 < idx.len() implies #[trigger] idx[k1]
                < #[trigger] idx[k2] by {
                assert(idx[k1] == prev[k1]);
                if k2 < prev.len() {
                    assert(idx[k2] == prev[k2]);
                }
            }
            idx
        } else {
            assert(s.filter(p) == t.filter(p));
            assert forall|j: int| 0 <= j < s.len() && p(#[trigger] s[j]) implies prev.contains(j) by {
                assert(j < n);
                assert(t[j] == s[j]);
            }
            prev
        }
    }
}

/// Each allocation entry whose share `deployable * bps / BPS_DENOM` comes to at
/// least one unit gets a transfer of exactly that share to its pool.
pub proof fn lemma_each_positive_share_sent(
    s: Seq<(Address, i128)>,
    d: int,
    token: Address,
    from: Address,
)
    ensures
        forall|j: int|
            #![trigger s[j]]
            0 <= j < s.len() && d * s[j].1 >= BPS_DENOM ==> exists|k: int|
                0 <= k < planned_transfers(s, d, token, from).len() && #[trigger] planned_transfers(
                    s,
                    d,
                    token,
                    from,
                )[k] == (TokenTransfer {
                    token,
                    from,
                    to: s[j].0,
                    amount: ((d * s[j].1) / (BPS_DENOM as int)) as i128,
                }),
{
    let pr = |e: (Address, i128)| d * e.1 >= BPS_DENOM;
    let f = |e: (Address, i128)|
        TokenTransfer { token, from, to: e.0, amount: ((d * e.1) / (BPS_DENOM as int)) as i128 };
    lemma_planned_transfers_are_positive_shares(s, d, token, from);
    let idx = lemma_filter_indices(s, pr);
    let ts = planned_transfers(s, d, token, from);
    assert forall|j: int|
        #![trigger s[j]]
        0 <= j < s.len() && d * s[j].1 >= BPS_DENOM implies exists|k: int|
            0 <= k < ts.len() && #[trigger] ts[k] == (TokenTransfer {
                token,
                from,
                to: s[j].0,
                amount: ((d * s[j].1) / (BPS_DENOM as int)) as i128,
            }) by {
        assert(pr(s[j]));
        assert(idx.contains(j));
        let k = choose|k: int| 0 <= k < idx.len() && idx[k] == j;
        assert(s.filter(pr)[k] == s[j]);
        assert(ts[k] == f(s[j]));
    }
}

/// Every planned transfer sends an entry's share `deployable * bps / BPS_DENOM`,
/// at least one unit, from `from` to that entry's pool; with shares that fit an
/// `i128`, its amount is positive.
pub proof fn lemma_each_transfer_is_a_share(
    s: Seq<(Address, i128)>,
    d: int,
    token: Address,
    from: Address,
)
    ensures
        forall|k: int|
            #![trigger planned_transfers(s, d, token, from)[k]]
            0 <= k < planned_transfers(s, d, token, from).len() ==> exists|j: int|
                0 <= j < s.len() && d * (#[trigger] s[j]).1 >= BPS_DENOM && planned_transfers(
                    s,
                    d,
                    token,
                    from,
                )[k] == (TokenTransfer {
                    token,
                    from,
                    to: s[j].0,
                    amount: ((d * s[j].1) / (BPS_DENOM as int)) as i128,
                }),
        (forall|j: int| 0 <= j < s.len() ==> fits_i128(d * #[trigger] s[j].1)) ==> forall|k: int|
            0 <= k < planned_transfers(s, d, token, from).len() ==> #[trigger] planned_transfers(
                s,
                d,
                token,
                from,
            )[k].amount > 0,
{
    let pr = |e: (Address, i128)| d * e.1 >= BPS_DENOM;
    let f = |e: (Address, i128)|
        TokenTransfer { token, from, to: e.0, amount: ((d * e.1) / (BPS_DENOM as int)) as i128 };
    lemma_planned_transfers_are_positive_shares(s, d, token, from);
    let idx = lemma_filter_indices(s, pr);
    let ts = planned_transfers(s, d, token, from);
    assert forall|k: int|
        #![trigger ts[k]]
        0 <= k < ts.len() implies exists|j: int|
            0 <= j < s.len() && d * (#[trigger] s[j]).1 >= BPS_DENOM && ts[k] == (TokenTransfer {
                token,
                from,
                to: s[j].0,
                amount: ((d * s[j].1) / (BPS_DENOM as int)) as i128,
            }) by {
        let j = idx[k];
        assert(s.filter(pr)[k] == s[j]);
        assert(ts[k] == f(s[j]));
        assert(pr(s[j]));
    }
    if forall|j: int| 0 <= j < s.len() ==> fits_i128(d * #[trigger] s[j].1) {
        assert forall|k: int| 0 <= k < ts.len() implies #[trigger] ts[k].amount > 0 by {
            let j = idx[k];
            assert(s.filter(pr)[k] == s[j]);
            assert(ts[k] == f(s[j]));
            let x = d * s[j].1;
            assert(fits_i128(x));
            assert(x >= 10_000);
            assert(0 < x / 10_000 <= x);
        }
    }
}

/// With distinct pools, each pool gets at most one planned transfer, a pool whose
/// share `deployable * bps / BPS_DENOM` is under one unit gets none, and the
/// transfers come in the order of the entries they are for.
pub proof fn lemma_one_transfer_per_pool(
    s: Seq<(Address, i128)>,
    d: int,
    token: Address,
    from: Address,
)
    requires
        keys_distinct(s),
    ensures
        forall|k1: int, k2: int|
            0 <= k1 < planned_transfers(s, d, token, from).len() && 0 <= k2 < planned_transfers(
                s,
                d,
                token,
                from,
            ).len() && (#[trigger] planned_transfers(s, d, token, from)[k1]).to == (
            #[trigger] planned_transfers(s, d, token, from)[k2]).to ==> k1 == k2,
        forall|j: int, k: int|
            0 <= j < s.len() && 0 <= k < planned_transfers(s, d, token, from).len() && d * (
            #[trigger] s[j]).1 < BPS_DENOM ==> (#[trigger] planned_transfers(s, d, token, from)[k]).to
                != s[j].0,
        forall|k1: int, k2: int, j1: int, j2: int|
            #![trigger planned_transfers(s, d, token, from)[k1], planned_transfers(s, d, token, from)[k2], s[j1], s[j2]]
            0 <= k1 < k2 < planned_transfers(s, d, token, from).len() && 0 <= j1 < s.len() && 0 <= j2
                < s.len() && planned_transfers(s, d, token, from)[k1].to == s[j1].0 && planned_transfers(
                s,
                d,
                token,
                from,
            )[k2].to == s[j2].0 ==> j1 < j2,
{
    let pr = |e: (Address, i128)| d * e.1 >= BPS_DENOM;
    let f = |e: (Address, i128)|
        TokenTransfer { token, from, to: e.0, amount: ((d * e.1) / (BPS_DENOM as int)) as i128 };
    lemma_planned_transfers_are_positive_shares(s, d, token, from);
    let idx = lemma_filter_indices(s, pr);
    let ts = planned_transfers(s, d, token, from);
    assert forall|k: int| 0 <= k < ts.len() implies (#[trigger] ts[k]).to == s[idx[k]].0 && pr(s[idx[k]])
        && 0 <= idx[k] < s.len() by {
        assert(s.filter(pr)[k] == s[idx[k]]);
        assert(ts[k] == f(s[idx[k]]));
    }
    assert forall|k1: int, k2: int|
        0 <= k1 < ts.len() && 0 <= k2 < ts.len() && (#[trigger] ts[k1]).to == (#[trigger] ts[k2]).to implies k1
            == k2 by {
        if k1 < k2 {
            assert(idx[k1] < idx[k2]);
        } else if k2 < k1 {
            assert(idx[k2] < idx[k1]);
        }
    }
    assert forall|j: int, k: int|
        0 <= j < s.len() && 0 <= k < ts.len() && d * (#[trigger] s[j]).1 < BPS_DENOM implies (
        #[trigger] ts[k]).to != s[j].0 by {
        assert(pr(s[idx[k]]));
    }
    assert forall|k1: int, k2: int, j1: int, j2: int|
        #![trigger ts[k1], ts[k2], s[j1], s[j2]]
        0 <= k1 < k2 < ts.len() && 0 <= j1 < s.len() && 0 <= j2 < s.len() && ts[k1].to == s[j1].0
            && ts[k2].to == s[j2].0 implies j1 < j2 by {
        assert(idx[k1] < idx[k2]);
        assert(s[idx[k1]].0 == s[j1].0);
        assert(s[idx[k2]].0 == s[j2].0);
    }
}

/// Over allocations with distinct pools: every pool whose share
/// `deployable * bps / BPS_DENOM` comes to at least one unit gets a transfer of
/// exactly that share.
pub proof fn lemma_each_pool_gets_its_share(
    s: Seq<(Address, i128)>,
    d: int,
    token: Address,
    from: Address,
)
    requires
        keys_distinct(s),
    ensures
        forall|pool: Address|
            #![trigger seq_to_map(s)[pool]]
            seq_to_map(s).contains_key(pool) && d * seq_to_map(s)[pool] >= BPS_DENOM ==> exists|k: int|
                0 <= k < planned_transfers(s, d, token, from).len() && #[trigger] planned_transfers(
                    s,
                    d,
                    token,
                    from,
                )[k] == (TokenTransfer {
                    token,
                    from,
                    to: pool,
                    amount: ((d * seq_to_map(s)[pool]) / (BPS_DENOM as int)) as i128,
                }),
{
    let m = seq_to_map(s);
    let ts = planned_transfers(s, d, token, from);
    lemma_each_positive_share_sent(s, d, token, from);
    assert forall|pool: Address|
        #![trigger m[pool]]
        m.contains_key(pool) && d * m[pool] >= BPS_DENOM implies exists|k: int|
            0 <= k < ts.len() && #[trigger] ts[k] == (TokenTransfer {
                token,
                from,
                to: pool,
                amount: ((d * m[pool]) / (BPS_DENOM as int)) as i128,
            }) by {
        assert(seq_has_key(s, pool));
        let j = choose|j: int| 0 <= j < s.len() && #[trigger] s[j].0 == pool;
        lemma_entry_in_map(s, j);
        assert(s[j] == (pool, m[pool]));
    }
}

/// Over allocations with distinct pools whose shares fit an `i128`: every
/// planned transfer goes to a pool with an allocation, whose share
/// `deployable * bps / BPS_DENOM` comes to at least one unit, and sends exactly
/// that share, a positive amount.
pub proof fn lemma_each_transfer_to_allocated_pool(
    s: Seq<(Address, i128)>,
    d: int,
    token: Address,
    from: Address,
)
    requires
        keys_distinct(s),
        forall|j: int| 0 <= j < s.len() ==> fits_i128(d * #[trigger] s[j].1),
    ensures
        forall|k: int|
            #![trigger planned_transfers(s, d, token, from)[k]]
            0 <= k < planned_transfers(s, d, token, from).len() ==> {
                let tr = planned_transfers(s, d, token, from)[k];
                &&& seq_to_map(s).contains_key(tr.to)
                &&& d * seq_to_map(s)[tr.to] >= BPS_DENOM
                &&& tr.token == token
                &&& tr.from == from
                &&& tr.amount as int == (d * seq_to_map(s)[tr.to]) / (BPS_DENOM as int)
                &&& tr.amount > 0
            },
{
    let m = seq_to_map(s);
    let ts = planned_transfers(s, d, token, from);
    lemma_each_transfer_is_a_share(s, d, token, from);
    assert forall|k: int| #![trigger ts[k]] 0 <= k < ts.len() implies {
        let tr = ts[k];
        &&& m.contains_key(tr.to)
        &&& d * m[tr.to] >= BPS_DENOM
        &&& tr.token == token
        &&& tr.from == from
        &&& tr.amount as int == (d * m[tr.to]) / (BPS_DENOM as int)
        &&& tr.amount > 0
    } by {
        let j = choose|j: int|
            0 <= j < s.len() && d * (#[trigger] s[j]).1 >= BPS_DENOM && ts[k] == (TokenTransfer {
                token,
                from,
                to: s[j].0,
                amount: ((d * s[j].1) / (BPS_DENOM as int)) as i128,
            });
        lemma_entry_in_map(s, j);
        let x = d * s[j].1;
        assert(fits_i128(x));
        assert(0 < x / 10_000 <= x);
        assert(m[s[j].0] == s[j].1);
    }
}

/// A rebalance keeps `total * buffer_bps / BPS_DENOM` (rounded toward zero) idle
/// and sends every pool with an allocation its share of the rest,
/// `deployable * bps / BPS_DENOM`, in one transfer of the vault's token from the
/// vault, wherever that share comes to at least one unit; every transfer is such
/// a transfer, no pool gets two, and they come in the order of the allocation
/// entries.  The harvester authorises them.
pub proof fn lemma_rebalance_funds_each_pool(v: &StrategyVault, total: i128, this: Address)
    requires
        v.wf(),
        v.rebalance_result(total, this) is Ok,
    ensures
        v.harvester is Some && v.usdc is Some && v.allocations is Some,
        ({
            let d = saturating_sub_i128(
                total as int,
                trunc_div(total * v.spec_buffer_bps(), BPS_DENOM as int),
            );
            let m = v.allocations->Some_0@;
            let usdc = v.usdc->Some_0;
            let (signer, ts) = v.rebalance_result(total, this)->Ok_0;
            &&& signer == v.harvester->Some_0
            &&& ts == v.allocation_entries().filter(|e: (Address, i128)| d * e.1 >= BPS_DENOM).map_values(
                |e: (Address, i128)|
                    TokenTransfer {
                        token: usdc,
                        from: this,
                        to: e.0,
                        amount: ((d * e.1) / (BPS_DENOM as int)) as i128,
                    },
            )
            &&& forall|pool: Address|
                #![trigger m[pool]]
                m.contains_key(pool) && d * m[pool] >= BPS_DENOM ==> exists|k: int|
                    0 <= k < ts.len() && #[trigger] ts[k] == (TokenTransfer {
                        token: usdc,
                        from: this,
                        to: pool,
                        amount: ((d * m[pool]) / (BPS_DENOM as int)) as i128,
                    })
            &&& forall|k: int|
                #![trigger ts[k]]
                0 <= k < ts.len() ==> {
                    &&& m.contains_key(ts[k].to)
                    &&& d * m[ts[k].to] >= BPS_DENOM
                    &&& ts[k].token == usdc
                    &&& ts[k].from == this
                    &&& ts[k].amount as int == (d * m[ts[k].to]) / (BPS_DENOM as int)
                    &&& ts[k].amount > 0
                }
            &&& forall|k1: int, k2: int|
                0 <= k1 < ts.len() && 0 <= k2 < ts.len() && (#[trigger] ts[k1]).to == (
                #[trigger] ts[k2]).to ==> k1 == k2
        }),
{
    let s = v.allocations->Some_0.entries();
    let buf = v.spec_buffer_bps();
    let d = saturating_sub_i128(total as int, trunc_div(total * buf, BPS_DENOM as int));
    assert(d == saturating_sub_i128(total as int, reserved_of(total as int, buf as int)));
    let usdc = v.usdc->Some_0;
    assert(v.rebalance_result(total, this)->Ok_0.1 == planned_transfers(s, d, usdc, this));
    assert(s == v.allocation_entries());
    assert(forall|j: int| 0 <= j < s.len() ==> fits_i128(d * #[trigger] s[j].1));
    lemma_planned_transfers_are_positive_shares(s, d, usdc, this);
    lemma_each_pool_gets_its_share(s, d, usdc, this);
    lemma_each_transfer_to_allocated_pool(s, d, usdc, this);
    lemma_one_transfer_per_pool(s, d, usdc, this);
}

} // verus!
