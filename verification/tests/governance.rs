use yieldladder::address::Address;
use yieldladder::governance::{
    ExecutionCall, Governance, GovernanceError, ProposalAction, ProposalStatus, TierParam,
    TIMELOCK_LEDGERS,
};

fn addr(n: u128) -> Address {
    Address::account(0, n)
}

fn contract(n: u128) -> Address {
    Address::contract(0, n)
}

struct Setup {
    strategist: Address,
    guardian: Address,
    vault: Address,
    gov: Governance,
}

fn setup() -> Setup {
    let strategist = addr(1);
    let guardian = addr(2);
    let vault = contract(3);
    let mut gov = Governance::new();
    gov.initialize(strategist, guardian, vault).unwrap();
    Setup { strategist, guardian, vault, gov }
}

#[test]
fn contract_instantiates() {
    let gov = Governance::new();
    assert_eq!(gov.strategist(), Err(GovernanceError::NotInitialized));
    assert_eq!(gov.guardian(), Err(GovernanceError::NotInitialized));
}

#[test]
fn propose_set_allocation_returns_incrementing_ids() {
    let mut s = setup();
    let pool = addr(10);
    let id0 = s.gov.propose(ProposalAction::SetAllocation(pool, 500), 0).unwrap().id;
    let id1 = s.gov.propose(ProposalAction::SetAllocation(pool, 600), 0).unwrap().id;
    assert_eq!(id0, 0);
    assert_eq!(id1, 1);
}

#[test]
fn full_lifecycle_set_allocation_executes_after_timelock() {
    let mut s = setup();
    let pool = addr(10);
    let proposed = s.gov.propose(ProposalAction::SetAllocation(pool, 1_000), 1_000).unwrap();
    assert_eq!(proposed.signer, s.strategist);
    let call = s.gov.execute(proposed.id, 1_000 + TIMELOCK_LEDGERS).unwrap();
    assert_eq!(
        call,
        ExecutionCall::SetAllocation { vault: s.vault, pool, target_bps: 1_000 }
    );
    let p = s.gov.proposal(proposed.id).unwrap();
    assert_eq!(p.status, ProposalStatus::Executed);
}

#[test]
fn update_strategist_rotates_stored_address() {
    let mut s = setup();
    let new_strategist = addr(20);
    let id = s.gov.propose(ProposalAction::UpdateStrategist(new_strategist), 1_000).unwrap().id;
    assert_eq!(s.gov.execute(id, 1_000 + TIMELOCK_LEDGERS), Ok(ExecutionCall::Internal));
    assert_eq!(s.gov.strategist(), Ok(new_strategist));
    let p = s.gov.proposal(id).unwrap();
    assert_eq!(p.status, ProposalStatus::Executed);
}

#[test]
fn update_guardian_rotates_stored_address() {
    let mut s = setup();
    let new_guardian = addr(21);
    let id = s.gov.propose(ProposalAction::UpdateGuardian(new_guardian), 1_000).unwrap().id;
    assert_eq!(s.gov.execute(id, 1_000 + TIMELOCK_LEDGERS), Ok(ExecutionCall::Internal));
    assert_eq!(s.gov.guardian(), Ok(new_guardian));
    let p = s.gov.proposal(id).unwrap();
    assert_eq!(p.status, ProposalStatus::Executed);
}

#[test]
fn update_tier_param_calls_tier_vault() {
    let mut s = setup();
    let tier_vault = contract(30);
    let id = s
        .gov
        .propose(
            ProposalAction::UpdateTierParam(tier_vault, TierParam::MaxTvl, 5_000_000_0_000_000i128),
            1_000,
        )
        .unwrap()
        .id;
    let call = s.gov.execute(id, 1_000 + TIMELOCK_LEDGERS).unwrap();
    assert_eq!(
        call,
        ExecutionCall::SetTierParam {
            tier_vault,
            param: TierParam::MaxTvl,
            value: 5_000_000_0_000_000i128
        }
    );
    let p = s.gov.proposal(id).unwrap();
    assert_eq!(p.status, ProposalStatus::Executed);
}

#[test]
fn veto_cancels_set_allocation_proposal() {
    let mut s = setup();
    let id = s.gov.propose(ProposalAction::SetAllocation(addr(10), 500), 0).unwrap().id;
    assert_eq!(s.gov.veto(id), Ok(s.guardian));
    assert_eq!(s.gov.proposal(id).unwrap().status, ProposalStatus::Vetoed);
}

#[test]
fn veto_cancels_update_strategist_proposal() {
    let mut s = setup();
    let id = s.gov.propose(ProposalAction::UpdateStrategist(addr(11)), 0).unwrap().id;
    s.gov.veto(id).unwrap();
    assert_eq!(s.gov.proposal(id).unwrap().status, ProposalStatus::Vetoed);
}

#[test]
fn veto_cancels_update_guardian_proposal() {
    let mut s = setup();
    let id = s.gov.propose(ProposalAction::UpdateGuardian(addr(12)), 0).unwrap().id;
    s.gov.veto(id).unwrap();
    assert_eq!(s.gov.proposal(id).unwrap().status, ProposalStatus::Vetoed);
}

#[test]
fn veto_cancels_update_tier_param_proposal() {
    let mut s = setup();
    let id = s
        .gov
        .propose(ProposalAction::UpdateTierParam(contract(30), TierParam::ExitFeeBps, 100), 0)
        .unwrap()
        .id;
    s.gov.veto(id).unwrap();
    assert_eq!(s.gov.proposal(id).unwrap().status, ProposalStatus::Vetoed);
}

#[test]
fn execute_after_veto_panics() {
    let mut s = setup();
    let id = s.gov.propose(ProposalAction::SetAllocation(addr(10), 500), 1_000).unwrap().id;
    s.gov.veto(id).unwrap();
    assert_eq!(
        s.gov.execute(id, 1_000 + TIMELOCK_LEDGERS),
        Err(GovernanceError::NotPending)
    );
}

#[test]
fn execute_before_timelock_panics() {
    let mut s = setup();
    let id = s.gov.propose(ProposalAction::SetAllocation(addr(10), 500), 1_000).unwrap().id;
    assert_eq!(
        s.gov.execute(id, 1_000 + TIMELOCK_LEDGERS - 1),
        Err(GovernanceError::TimelockNotElapsed)
    );
    assert_eq!(s.gov.proposal(id).unwrap().status, ProposalStatus::Pending);
}

#[test]
fn double_execute_panics() {
    let mut s = setup();
    let id = s.gov.propose(ProposalAction::SetAllocation(addr(10), 1_000), 1_000).unwrap().id;
    s.gov.execute(id, 1_000 + TIMELOCK_LEDGERS).unwrap();
    assert_eq!(
        s.gov.execute(id, 1_000 + TIMELOCK_LEDGERS),
        Err(GovernanceError::NotPending)
    );
}

// ── Further cases ────────────────────────────────────────────────────────────

#[test]
fn governance_second_initialize_is_refused() {
    let mut s = setup();
    assert_eq!(
        s.gov.initialize(addr(5), addr(6), contract(7)),
        Err(GovernanceError::AlreadyInitialized)
    );
    assert_eq!(s.gov.strategist(), Ok(s.strategist));
}

#[test]
fn propose_rejects_allocation_out_of_range() {
    let mut s = setup();
    assert_eq!(
        s.gov.propose(ProposalAction::SetAllocation(addr(10), 10_001), 0),
        Err(GovernanceError::InvalidTargetBps)
    );
    assert_eq!(
        s.gov.propose(ProposalAction::SetAllocation(addr(10), -1), 0),
        Err(GovernanceError::InvalidTargetBps)
    );
    assert!(s.gov.propose(ProposalAction::SetAllocation(addr(10), 10_000), 0).is_ok());
    assert!(s.gov.propose(ProposalAction::SetAllocation(addr(10), 0), 0).is_ok());
}

#[test]
fn propose_before_initialize_is_refused() {
    let mut gov = Governance::new();
    assert_eq!(
        gov.propose(ProposalAction::UpdateGuardian(addr(1)), 0),
        Err(GovernanceError::NotInitialized)
    );
}

#[test]
fn unknown_proposal_is_not_found() {
    let mut s = setup();
    assert_eq!(s.gov.proposal(7), Err(GovernanceError::ProposalNotFound));
    assert_eq!(s.gov.veto(7), Err(GovernanceError::ProposalNotFound));
    assert_eq!(s.gov.execute(7, 1_000_000), Err(GovernanceError::ProposalNotFound));
}

#[test]
fn veto_after_execute_is_refused() {
    let mut s = setup();
    let id = s.gov.propose(ProposalAction::UpdateGuardian(addr(12)), 0).unwrap().id;
    s.gov.execute(id, TIMELOCK_LEDGERS).unwrap();
    assert_eq!(s.gov.veto(id), Err(GovernanceError::NotPending));
}

#[test]
fn execute_at_earlier_ledger_than_proposal_waits() {
    let mut s = setup();
    let id = s.gov.propose(ProposalAction::UpdateGuardian(addr(12)), 5_000).unwrap().id;
    assert_eq!(s.gov.execute(id, 10), Err(GovernanceError::TimelockNotElapsed));
}

#[test]
fn proposal_records_ledger_and_action() {
    let mut s = setup();
    let action = ProposalAction::UpdateStrategist(addr(40));
    let id = s.gov.propose(action, 77).unwrap().id;
    let p = s.gov.proposal(id).unwrap();
    assert_eq!(p.id, id);
    assert_eq!(p.action, action);
    assert_eq!(p.proposed_at_ledger, 77);
    assert_eq!(p.status, ProposalStatus::Pending);
}
