//! Timelocked governance: the strategist proposes, the guardian may veto, and
//! anyone may execute a pending proposal once the timelock has passed.

use vstd::prelude::*;
use crate::address::Address;
use crate::keyed_map::KeyedMap;

verus! {

/// Ledgers that must pass between a proposal and its execution (about 72 hours).
pub const TIMELOCK_LEDGERS: u32 = 51_840;

/// The largest allocation, in basis points, a proposal may ask for.
pub const MAX_TARGET_BPS: i128 = 10_000;

/// Which tier-vault parameter an `UpdateTierParam` proposal changes.
#[derive(Clone, Copy, PartialEq, Eq, Structural, Debug)]
pub enum TierParam {
    MinDeposit,
    Multiplier,
    ExitFeeBps,
    MaxTvl,
}

/// What a proposal does when executed.
#[derive(Clone, Copy, PartialEq, Eq, Structural, Debug)]
pub enum ProposalAction {
    /// Set a pool's allocation (basis points) in the strategy vault.
    SetAllocation(Address, i128),
    /// Replace the strategist.
    UpdateStrategist(Address),
    /// Replace the guardian.
    UpdateGuardian(Address),
    /// Set one parameter of a tier vault.
    UpdateTierParam(Address, TierParam, i128),
}

/// Where a proposal stands.
#[derive(Clone, Copy, PartialEq, Eq, Structural, Debug)]
pub enum ProposalStatus {
    Pending,
    Executed,
    Vetoed,
}

/// A recorded proposal.
#[derive(Clone, Copy, PartialEq, Eq, Structural, Debug)]
pub struct Proposal {
    pub id: u32,
    pub action: ProposalAction,
    pub proposed_at_ledger: u32,
    pub status: ProposalStatus,
}

/// Why a governance operation was refused.
#[derive(Clone, Copy, PartialEq, Eq, Structural, Debug)]
pub enum GovernanceError {
    AlreadyInitialized,
    NotInitialized,
    InvalidTargetBps,
    ProposalNotFound,
    NotPending,
    TimelockNotElapsed,
    /// The next proposal id does not fit a `u32`.
    IdOverflow,
}

/// A new proposal: its id, and who must authorise it.
#[derive(Clone, Copy, PartialEq, Eq, Structural, Debug)]
pub struct Proposed {
    pub id: u32,
    pub signer: Address,
}

/// The call into another contract that an executed proposal makes, if any.
#[derive(Clone, Copy, PartialEq, Eq, Structural, Debug)]
pub enum ExecutionCall {
    /// The change is made in governance's own storage.
    Internal,
    /// `set_allocation(pool, target_bps)` on the strategy vault `vault`.
    SetAllocation { vault: Address, pool: Address, target_bps: i128 },
    /// `set_tier_param(param, value)` on the tier vault `tier_vault`.
    SetTierParam { tier_vault: Address, param: TierParam, value: i128 },
}

/// Governance's state as a mathematical value.
pub struct GovState {
    pub strategist: Option<Address>,
    pub guardian: Option<Address>,
    pub strategy_vault: Option<Address>,
    pub next_id: Option<u32>,
    pub proposals: Map<u32, Proposal>,
}

/// What initialising with `strategist`, `guardian` and `vault` does.
pub open spec fn gov_initialize(s: GovState, strategist: Address, guardian: Address, vault: Address) -> Result<
    GovState,
    GovernanceError,
> {
    if s.strategist is Some {
        Err(GovernanceError::AlreadyInitialized)
    } else {
        Ok(
            GovState {
                strategist: Some(strategist),
                guardian: Some(guardian),
                strategy_vault: Some(vault),
                next_id: Some(0),
                proposals: s.proposals,
            },
        )
    }
}

/// `action` may be proposed: an allocation must lie in `[0, MAX_TARGET_BPS]`.
pub open spec fn action_valid(action: ProposalAction) -> bool {
    match action {
        ProposalAction::SetAllocation(_, bps) => 0 <= bps <= MAX_TARGET_BPS,
        _ => true,
    }
}

/// What proposing `action` at ledger `ledger` does.
pub open spec fn gov_propose(s: GovState, action: ProposalAction, ledger: u32) -> Result<
    (GovState, Proposed),
    GovernanceError,
> {
    if s.strategist is None {
        Err(GovernanceError::NotInitialized)
    } else if !action_valid(action) {
        Err(GovernanceError::InvalidTargetBps)
    } else if s.next_id is None {
        Err(GovernanceError::NotInitialized)
    } else if s.next_id->Some_0 == u32::MAX {
        Err(GovernanceError::IdOverflow)
    } else {
        let id = s.next_id->Some_0;
        Ok(
            (
                GovState {
                    next_id: Some((id + 1) as u32),
                    proposals: s.proposals.insert(
                        id,
                        Proposal {
                            id,
                            action,
                            proposed_at_ledger: ledger,
                            status: ProposalStatus::Pending,
                        },
                    ),
                    ..s
                },
                Proposed { id, signer: s.strategist->Some_0 },
            ),
        )
    }
}

/// What vetoing proposal `id` does; the result is the guardian, who must authorise it.
pub open spec fn gov_veto(s: GovState, id: u32) -> Result<(GovState, Address), GovernanceError> {
    if s.guardian is None {
        Err(GovernanceError::NotInitialized)
    } else if !s.proposals.contains_key(id) {
        Err(GovernanceError::ProposalNotFound)
    } else if s.proposals[id].status != ProposalStatus::Pending {
        Err(GovernanceError::NotPending)
    } else {
        Ok(
            (
                GovState {
                    proposals: s.proposals.insert(
                        id,
                        Proposal { status: ProposalStatus::Vetoed, ..s.proposals[id] },
                    ),
                    ..s
                },
                s.guardian->Some_0,
            ),
        )
    }
}

/// The timelock on a proposal made at `proposed` has passed at `ledger`.
pub open spec fn timelock_elapsed(proposed: u32, ledger: u32) -> bool {
    ledger >= proposed + TIMELOCK_LEDGERS
}

/// What executing proposal `id` at ledger `ledger` does.
pub open spec fn gov_execute(s: GovState, id: u32, ledger: u32) -> Result<
    (GovState, ExecutionCall),
    GovernanceError,
> {
    if !s.proposals.contains_key(id) {
        Err(GovernanceError::ProposalNotFound)
    } else if s.proposals[id].status != ProposalStatus::Pending {
        Err(GovernanceError::NotPending)
    } else if !timelock_elapsed(s.proposals[id].proposed_at_ledger, ledger) {
        Err(GovernanceError::TimelockNotElapsed)
    } else {
        let p = s.proposals[id];
        let done = s.proposals.insert(id, Proposal { status: ProposalStatus::Executed, ..p });
        match p.action {
            ProposalAction::SetAllocation(pool, bps) => if s.strategy_vault is None {
                Err(GovernanceError::NotInitialized)
            } else {
                Ok(
                    (
                        GovState { proposals: done, ..s },
                        ExecutionCall::SetAllocation {
                            vault: s.strategy_vault->Some_0,
                            pool,
                            target_bps: bps,
                        },
                    ),
                )
            },
            ProposalAction::UpdateStrategist(a) => Ok(
                (
                    GovState { strategist: Some(a), proposals: done, ..s },
                    ExecutionCall::Internal,
                ),
            ),
            ProposalAction::UpdateGuardian(a) => Ok(
                (GovState { guardian: Some(a), proposals: done, ..s }, ExecutionCall::Internal),
            ),
            ProposalAction::UpdateTierParam(v, param, value) => Ok(
                (
                    GovState { proposals: done, ..s },
                    ExecutionCall::SetTierParam { tier_vault: v, param, value },
                ),
            ),
        }
    }
}

/// Governance's storage.
pub struct Governance {
    pub strategist: Option<Address>,
    pub guardian: Option<Address>,
    pub strategy_vault: Option<Address>,
    pub next_id: Option<u32>,
    pub proposals: KeyedMap<u32, Proposal>,
}

impl View for Governance {
    type V = GovState;

    open spec fn view(&self) -> GovState {
        GovState {
            strategist: self.strategist,
            guardian: self.guardian,
            strategy_vault: self.strategy_vault,
            next_id: self.next_id,
            proposals: self.proposals@,
        }
    }
}

impl Governance {
    pub open spec fn wf(&self) -> bool {
        self.proposals.wf()
    }

    /// Storage before initialisation.
    pub fn new() -> (g: Self)
        ensures
            g.wf(),
            g@ == (GovState {
                strategist: None,
                guardian: None,
                strategy_vault: None,
                next_id: None,
                proposals: Map::empty(),
            }),
    {
        Governance {
            strategist: None,
            guardian: None,
            strategy_vault: None,
            next_id: None,
            proposals: KeyedMap::new(),
        }
    }

    /// Records the strategist, the guardian and the strategy vault, and starts
    /// proposal ids at 0.  Refused once a strategist is recorded.
    pub fn initialize(&mut self, strategist: Address, guardian: Address, strategy_vault: Address) -> (r:
        Result<(), GovernanceError>)
        requires
            old(self).wf(),
        ensures
            final(self).wf(),
            match gov_initialize(old(self)@, strategist, guardian, strategy_vault) {
                Ok(s) => r is Ok && final(self)@ == s,
                Err(e) => r == Err::<(), GovernanceError>(e) && *final(self) == *old(self),
            },
    {
        if self.strategist.is_some() {
            return Err(GovernanceError::AlreadyInitialized);
        }
        self.strategist = Some(strategist);
        self.guardian = Some(guardian);
        self.strategy_vault = Some(strategy_vault);
        self.next_id = Some(0);
        Ok(())
    }

    /// Records a pending proposal for `action` made at ledger `ledger` and
    /// returns its id; the strategist must authorise it.
    pub fn propose(&mut self, action: ProposalAction, ledger: u32) -> (r: Result<
        Proposed,
        GovernanceError,
    >)
        requires
            old(self).wf(),
        ensures
            final(self).wf(),
            match gov_propose(old(self)@, action, ledger) {
                Ok((s, out)) => r == Ok::<Proposed, GovernanceError>(out) && final(self)@ == s,
                Err(e) => r == Err::<Proposed, GovernanceError>(e) && *final(self) == *old(self),
            },
    {
        let signer = match self.strategist {
            Some(s) => s,
            None => return Err(GovernanceError::NotInitialized),
        };
        if let ProposalAction::SetAllocation(_, bps) = action {
            if bps < 0 || bps > MAX_TARGET_BPS {
                return Err(GovernanceError::InvalidTargetBps);
            }
        }
        let id = match self.next_id {
            Some(n) => n,
            None => return Err(GovernanceError::NotInitialized),
        };
        if id == u32::MAX {
            return Err(GovernanceError::IdOverflow);
        }
        self.proposals.insert(
            id,
            Proposal { id, action, proposed_at_ledger: ledger, status: ProposalStatus::Pending },
        );
        self.next_id = Some(id + 1);
        Ok(Proposed { id, signer })
    }

    /// Marks pending proposal `id` vetoed; the guardian, returned, must authorise it.
    pub fn veto(&mut self, id: u32) -> (r: Result<Address, GovernanceError>)
        requires
            old(self).wf(),
        ensures
            final(self).wf(),
            match gov_veto(old(self)@, id) {
                Ok((s, out)) => r == Ok::<Address, GovernanceError>(out) && final(self)@ == s,
                Err(e) => r == Err::<Address, GovernanceError>(e) && *final(self) == *old(self),
            },
    {
        let signer = match self.guardian {
            Some(g) => g,
            None => return Err(GovernanceError::NotInitialized),
        };
        let p = match self.proposals.get(&id) {
            Some(p) => *p,
            None => return Err(GovernanceError::ProposalNotFound),
        };
        if p.status != ProposalStatus::Pending {
            return Err(GovernanceError::NotPending);
        }
        self.proposals.insert(id, Proposal { status: ProposalStatus::Vetoed, ..p });
        Ok(signer)
    }

    /// Executes pending proposal `id` at ledger `ledger` once its timelock has
    /// passed, marking it executed; returns the call into another contract
    /// that the execution makes.
    pub fn execute(&mut self, id: u32, ledger: u32) -> (r: Result<ExecutionCall, GovernanceError>)
        requires
            old(self).wf(),
        ensures
            final(self).wf(),
            match gov_execute(old(self)@, id, ledger) {
                Ok((s, out)) => r == Ok::<ExecutionCall, GovernanceError>(out) && final(self)@ == s,
                Err(e) => r == Err::<ExecutionCall, GovernanceError>(e) && *final(self) == *old(
                    self,
                ),
            },
    {
        let p = match self.proposals.get(&id) {
            Some(p) => *p,
            None => return Err(GovernanceError::ProposalNotFound),
        };
        if p.status != ProposalStatus::Pending {
            return Err(GovernanceError::NotPending);
        }
        let elapsed = ledger.saturating_sub(p.proposed_at_ledger);
        if elapsed < TIMELOCK_LEDGERS {
            return Err(GovernanceError::TimelockNotElapsed);
        }
        let call = match p.action {
            ProposalAction::SetAllocation(pool, target_bps) => {
                let vault = match self.strategy_vault {
                    Some(v) => v,
                    None => return Err(GovernanceError::NotInitialized),
                };
                ExecutionCall::SetAllocation { vault, pool, target_bps }
            },
            ProposalAction::UpdateStrategist(a) => {
                self.strategist = Some(a);
                ExecutionCall::Internal
            },
            ProposalAction::UpdateGuardian(a) => {
                self.guardian = Some(a);
                ExecutionCall::Internal
            },
            ProposalAction::UpdateTierParam(tier_vault, param, value) => {
                ExecutionCall::SetTierParam { tier_vault, param, value }
            },
        };
        self.proposals.insert(id, Proposal { status: ProposalStatus::Executed, ..p });
        Ok(call)
    }

    /// The recorded proposal `id`.
    pub fn proposal(&self, id: u32) -> (r: Result<Proposal, GovernanceError>)
        requires
            self.wf(),
        ensures
            self@.proposals.contains_key(id) ==> r == Ok::<Proposal, GovernanceError>(
                self@.proposals[id],
            ),
            !self@.proposals.contains_key(id) ==> r == Err::<Proposal, GovernanceError>(
                GovernanceError::ProposalNotFound,
            ),
    {
        match self.proposals.get(&id) {
            Some(p) => Ok(*p),
            None => Err(GovernanceError::ProposalNotFound),
        }
    }

    /// The current strategist.
    pub fn strategist(&self) -> (r: Result<Address, GovernanceError>)
        ensures
            match self.strategist {
                Some(a) => r == Ok::<Address, GovernanceError>(a),
                None => r == Err::<Address, GovernanceError>(GovernanceError::NotInitialized),
            },
    {
        match self.strategist {
            Some(a) => Ok(a),
            None => Err(GovernanceError::NotInitialized),
        }
    }

    /// The current guardian.
    pub fn guardian(&self) -> (r: Result<Address, GovernanceError>)
        ensures
            match self.guardian {
                Some(a) => r == Ok::<Address, GovernanceError>(a),
                None => r == Err::<Address, GovernanceError>(GovernanceError::NotInitialized),
            },
    {
        match self.guardian {
            Some(a) => Ok(a),
            None => Err(GovernanceError::NotInitialized),
        }
    }
}


/// The shape of governance storage that its operations keep: the strategist and
/// the next id are recorded together, and with them the guardian and the
/// strategy vault; before that there are no proposals; after
/// it every proposal is filed under its own id, which is below the next id.
pub open spec fn gov_inv(s: GovState) -> bool {
    &&& (s.strategist is Some <==> s.next_id is Some)
    &&& (s.next_id is Some ==> s.guardian is Some && s.strategy_vault is Some)
    &&& (s.next_id is None ==> s.proposals.dom().is_empty())
    &&& (s.next_id matches Some(n) ==> forall|id: u32| #[trigger]
        s.proposals.contains_key(id) ==> id < n && s.proposals[id].id == id)
}

/// Fresh storage has the shape.
pub proof fn lemma_inv_new()
    ensures
        gov_inv(
            GovState {
                strategist: None,
                guardian: None,
                strategy_vault: None,
                next_id: None,
                proposals: Map::empty(),
            },
        ),
{
}

/// Every operation keeps the shape.
pub proof fn lemma_inv_preserved(
    s: GovState,
    strategist: Address,
    guardian: Address,
    vault: Address,
    action: ProposalAction,
    id: u32,
    ledger: u32,
)
    requires
        gov_inv(s),
    ensures
        gov_initialize(s, strategist, guardian, vault) matches Ok(s2) ==> gov_inv(s2),
        gov_propose(s, action, ledger) matches Ok((s2, _)) ==> gov_inv(s2),
        gov_veto(s, id) matches Ok((s2, _)) ==> gov_inv(s2),
        gov_execute(s, id, ledger) matches Ok((s2, _)) ==> gov_inv(s2),
{
    if gov_initialize(s, strategist, guardian, vault) is Ok {
        assert(s.proposals.dom().is_empty());
        assert forall|i: u32| !#[trigger] s.proposals.contains_key(i) by {
            assert(!s.proposals.dom().contains(i));
        }
    }
}

/// A decided proposal stays decided: once executed or vetoed, no operation
/// changes its record.
pub proof fn lemma_decided_is_final(
    s: GovState,
    strategist: Address,
    guardian: Address,
    vault: Address,
    action: ProposalAction,
    id: u32,
    ledger: u32,
    other: u32,
)
    requires
        gov_inv(s),
        s.proposals.contains_key(other),
        s.proposals[other].status != ProposalStatus::Pending,
    ensures
        gov_initialize(s, strategist, guardian, vault) matches Ok(s2) ==> s2.proposals.contains_key(
            other,
        ) && s2.proposals[other] == s.proposals[other],
        gov_propose(s, action, ledger) matches Ok((s2, _)) ==> s2.proposals.contains_key(other)
            && s2.proposals[other] == s.proposals[other],
        gov_veto(s, id) matches Ok((s2, _)) ==> s2.proposals.contains_key(other)
            && s2.proposals[other] == s.proposals[other],
        gov_execute(s, id, ledger) matches Ok((s2, _)) ==> s2.proposals.contains_key(other)
            && s2.proposals[other] == s.proposals[other],
{
}

/// Two proposals in a row get consecutive ids.
pub proof fn lemma_propose_ids_increment(
    s: GovState,
    a1: ProposalAction,
    l1: u32,
    a2: ProposalAction,
    l2: u32,
)
    requires
        gov_propose(s, a1, l1) is Ok,
        gov_propose(gov_propose(s, a1, l1)->Ok_0.0, a2, l2) is Ok,
    ensures
        gov_propose(gov_propose(s, a1, l1)->Ok_0.0, a2, l2)->Ok_0.1.id == gov_propose(
            s,
            a1,
            l1,
        )->Ok_0.1.id + 1,
{
}

/// A vetoed proposal can never be executed.
pub proof fn lemma_vetoed_never_executes(s: GovState, id: u32, ledger: u32)
    requires
        gov_veto(s, id) is Ok,
    ensures
        gov_execute(gov_veto(s, id)->Ok_0.0, id, ledger) == Err::<
            (GovState, ExecutionCall),
            GovernanceError,
        >(GovernanceError::NotPending),
{
}

/// A proposal executes at most once.
pub proof fn lemma_executes_once(s: GovState, id: u32, l1: u32, l2: u32)
    requires
        gov_execute(s, id, l1) is Ok,
    ensures
        gov_execute(gov_execute(s, id, l1)->Ok_0.0, id, l2) == Err::<
            (GovState, ExecutionCall),
            GovernanceError,
        >(GovernanceError::NotPending),
        gov_veto(gov_execute(s, id, l1)->Ok_0.0, id) is Err,
        gov_inv(s) ==> gov_veto(gov_execute(s, id, l1)->Ok_0.0, id) == Err::<
            (GovState, Address),
            GovernanceError,
        >(GovernanceError::NotPending),
{
    if gov_inv(s) {
        let s2 = gov_execute(s, id, l1)->Ok_0.0;
        let a: Address = arbitrary();
        lemma_inv_preserved(s, a, a, a, ProposalAction::UpdateGuardian(a), id, l1);
        lemma_decided_refused(s2, id, l1);
    }
}

/// Execution only ever happens once the timelock has passed, and only for a
/// proposal that was pending.
pub proof fn lemma_execute_respects_timelock(s: GovState, id: u32, ledger: u32)
    requires
        gov_execute(s, id, ledger) is Ok,
    ensures
        s.proposals.contains_key(id),
        s.proposals[id].status == ProposalStatus::Pending,
        timelock_elapsed(s.proposals[id].proposed_at_ledger, ledger),
        ledger as int - s.proposals[id].proposed_at_ledger as int >= TIMELOCK_LEDGERS as int,
{
}

/// A proposal made at one ledger can be executed at any ledger from the end of
/// its timelock on, as long as it is still pending, and not before; executing it
/// makes the call its action asks for: the allocation on the strategy vault, the
/// parameter and value on the tier vault, or none for a rotation.
pub proof fn lemma_propose_then_execute(
    s: GovState,
    action: ProposalAction,
    at: u32,
    later: u32,
)
    requires
        gov_inv(s),
        gov_propose(s, action, at) is Ok,
        match action {
            ProposalAction::SetAllocation(_, _) => s.strategy_vault is Some,
            _ => true,
        },
    ensures
        ({
            let (s1, out) = gov_propose(s, action, at)->Ok_0;
            &&& later >= at + TIMELOCK_LEDGERS ==> gov_execute(s1, out.id, later) is Ok
            &&& later >= at + TIMELOCK_LEDGERS ==> gov_execute(s1, out.id, later)->Ok_0.1 == match action {
                ProposalAction::SetAllocation(pool, bps) => ExecutionCall::SetAllocation {
                    vault: s.strategy_vault->Some_0,
                    pool,
                    target_bps: bps,
                },
                ProposalAction::UpdateTierParam(v, param, value) => ExecutionCall::SetTierParam {
                    tier_vault: v,
                    param,
                    value,
                },
                _ => ExecutionCall::Internal,
            }
            &&& later < at + TIMELOCK_LEDGERS ==> gov_execute(s1, out.id, later) == Err::<
                (GovState, ExecutionCall),
                GovernanceError,
            >(GovernanceError::TimelockNotElapsed)
        }),
{
}

/// Executing a strategist or guardian rotation installs the new address.
pub proof fn lemma_rotation_installs(s: GovState, id: u32, ledger: u32)
    requires
        gov_execute(s, id, ledger) is Ok,
    ensures
        s.proposals[id].action matches ProposalAction::UpdateStrategist(a) ==> gov_execute(
            s,
            id,
            ledger,
        )->Ok_0.0.strategist == Some(a),
        s.proposals[id].action matches ProposalAction::UpdateGuardian(a) ==> gov_execute(
            s,
            id,
            ledger,
        )->Ok_0.0.guardian == Some(a),
{
}


/// A decided proposal is refused as not pending: once executed or vetoed, both a
/// veto and an execution of it fail with `NotPending` and change nothing.
pub proof fn lemma_decided_refused(s: GovState, id: u32, ledger: u32)
    requires
        gov_inv(s),
        s.proposals.contains_key(id),
        s.proposals[id].status != ProposalStatus::Pending,
    ensures
        gov_veto(s, id) == Err::<(GovState, Address), GovernanceError>(GovernanceError::NotPending),
        gov_execute(s, id, ledger) == Err::<(GovState, ExecutionCall), GovernanceError>(
            GovernanceError::NotPending,
        ),
{
}

/// A veto needs the guardian's authorisation, turns a pending proposal into a
/// vetoed one, and changes nothing else.
pub proof fn lemma_veto_changes_only_status(s: GovState, id: u32)
    requires
        gov_veto(s, id) is Ok,
    ensures
        ({
            let (s2, signer) = gov_veto(s, id)->Ok_0;
            &&& s.guardian == Some(signer)
            &&& s.proposals[id].status == ProposalStatus::Pending
            &&& s2.proposals[id] == (Proposal { status: ProposalStatus::Vetoed, ..s.proposals[id] })
            &&& s2.proposals.dom() == s.proposals.dom()
            &&& forall|other: u32| other != id && #[trigger] s.proposals.contains_key(other)
                ==> s2.proposals[other] == s.proposals[other]
            &&& s2.strategist == s.strategist && s2.guardian == s.guardian
            &&& s2.strategy_vault == s.strategy_vault && s2.next_id == s.next_id
        }),
{
    let s2 = gov_veto(s, id)->Ok_0.0;
    assert(s2.proposals.dom() =~= s.proposals.dom());
}


/// Executing a proposal carries out exactly the action that was proposed: an
/// allocation goes to the recorded strategy vault for the proposed pool and
/// basis points, a tier-parameter change goes to the proposed tier vault with
/// the proposed parameter and value, and a rotation installs the proposed
/// address and calls nothing.  The proposal is then marked executed.
pub proof fn lemma_execute_carries_out_action(s: GovState, id: u32, ledger: u32)
    requires
        gov_execute(s, id, ledger) is Ok,
    ensures
        ({
            let (s2, call) = gov_execute(s, id, ledger)->Ok_0;
            let p = s.proposals[id];
            &&& s2.proposals.contains_key(id)
            &&& s2.proposals[id].status == ProposalStatus::Executed
            &&& s2.proposals[id].action == p.action
            &&& s2.proposals[id].proposed_at_ledger == p.proposed_at_ledger
            &&& match p.action {
                ProposalAction::SetAllocation(pool, bps) => {
                    &&& s.strategy_vault is Some
                    &&& call == ExecutionCall::SetAllocation {
                        vault: s.strategy_vault->Some_0,
                        pool,
                        target_bps: bps,
                    }
                    &&& s2.strategist == s.strategist && s2.guardian == s.guardian
                },
                ProposalAction::UpdateTierParam(v, param, value) => {
                    &&& call == ExecutionCall::SetTierParam { tier_vault: v, param, value }
                    &&& s2.strategist == s.strategist && s2.guardian == s.guardian
                },
                ProposalAction::UpdateStrategist(a) => {
                    &&& call == ExecutionCall::Internal
                    &&& s2.strategist == Some(a) && s2.guardian == s.guardian
                },
                ProposalAction::UpdateGuardian(a) => {
                    &&& call == ExecutionCall::Internal
                    &&& s2.guardian == Some(a) && s2.strategist == s.strategist
                },
            }
        }),
{
}

/// A proposal is recorded as made: under the returned id, with the proposed
/// action, the ledger it was made at, and pending; the strategist authorises it.
pub proof fn lemma_propose_records_action(s: GovState, action: ProposalAction, ledger: u32)
    requires
        gov_propose(s, action, ledger) is Ok,
    ensures
        ({
            let (s2, out) = gov_propose(s, action, ledger)->Ok_0;
            &&& Some(out.signer) == s.strategist
            &&& Some(out.id) == s.next_id
            &&& s2.proposals.contains_key(out.id)
            &&& s2.proposals[out.id] == (Proposal {
                id: out.id,
                action,
                proposed_at_ledger: ledger,
                status: ProposalStatus::Pending,
            })
        }),
{
}

} // verus!
