use yieldladder::address::Address;
use yieldladder::guardian_multisig::{Confirmation, ConfirmOutcome, GuardianMultisig, MultisigError};

fn addr(n: u128) -> Address {
    Address::account(0, n)
}

fn setup(n: u128, threshold: u32) -> (Vec<Address>, GuardianMultisig) {
    let owners: Vec<Address> = (0..n).map(|i| addr(100 + i)).collect();
    let mut ms = GuardianMultisig::new();
    ms.initialize(owners.clone(), threshold).unwrap();
    (owners, ms)
}

#[test]
fn initialises_correctly() {
    let (owners, ms) = setup(3, 2);
    assert_eq!(ms.threshold(), Ok(2));
    assert_eq!(ms.owners().unwrap().len(), 3);
    assert_eq!(ms.owners().unwrap(), owners);
}

#[test]
fn double_initialize_panics() {
    let (owners, mut ms) = setup(2, 1);
    assert_eq!(ms.initialize(owners, 1), Err(MultisigError::AlreadyInitialized));
}

#[test]
fn zero_threshold_panics() {
    let mut ms = GuardianMultisig::new();
    assert_eq!(ms.initialize(vec![addr(1)], 0), Err(MultisigError::InvalidThreshold));
    assert_eq!(ms.threshold(), Err(MultisigError::NotInitialized));
}

#[test]
fn confirmation_count_starts_at_zero() {
    let (_, ms) = setup(3, 2);
    let gov = Address::contract(0, 9);
    assert_eq!(ms.confirmation_count(gov, 0), 0);
}

#[test]
fn single_owner_1_of_1_executes_immediately() {
    let (owners, mut ms) = setup(1, 1);
    let gov = Address::contract(0, 9);
    assert_eq!(
        ms.confirm_veto(owners[0], gov, 0),
        Ok(Confirmation {
            signer: owners[0],
            outcome: ConfirmOutcome::VetoDispatched { governance: gov, proposal_id: 0 },
        })
    );
    assert_eq!(ms.confirmation_count(gov, 0), 0);
}

// ── Further cases ────────────────────────────────────────────────────────────

#[test]
fn initialize_rejects_empty_and_oversized_owner_lists() {
    let mut ms = GuardianMultisig::new();
    assert_eq!(ms.initialize(vec![], 1), Err(MultisigError::EmptyOwners));
    let eleven: Vec<Address> = (0..11).map(|i| addr(i)).collect();
    assert_eq!(ms.initialize(eleven, 1), Err(MultisigError::TooManyOwners));
    let ten: Vec<Address> = (0..10).map(|i| addr(i)).collect();
    assert_eq!(ms.initialize(ten.clone(), 11), Err(MultisigError::InvalidThreshold));
    assert_eq!(ms.initialize(ten, 10), Ok(()));
}

#[test]
fn confirmation_below_threshold_is_recorded() {
    let (owners, mut ms) = setup(3, 2);
    let gov = Address::contract(0, 9);
    let c = ms.confirm_veto(owners[1], gov, 4).unwrap();
    assert_eq!(c, Confirmation { signer: owners[1], outcome: ConfirmOutcome::Recorded });
    assert_eq!(ms.confirmation_count(gov, 4), 1);
    assert_eq!(ms.confirmation_count(gov, 5), 0);
}

#[test]
fn second_distinct_owner_completes_two_of_three() {
    let (owners, mut ms) = setup(3, 2);
    let gov = Address::contract(0, 9);
    ms.confirm_veto(owners[0], gov, 4).unwrap();
    let c = ms.confirm_veto(owners[2], gov, 4).unwrap();
    assert_eq!(
        c.outcome,
        ConfirmOutcome::VetoDispatched { governance: gov, proposal_id: 4 }
    );
    assert_eq!(c.signer, owners[2]);
    assert_eq!(ms.confirmation_count(gov, 4), 0);
}

#[test]
fn three_of_three_counts_up_then_dispatches() {
    let (owners, mut ms) = setup(3, 3);
    let gov = Address::contract(0, 9);
    assert_eq!(ms.confirm_veto(owners[0], gov, 1).unwrap().outcome, ConfirmOutcome::Recorded);
    assert_eq!(ms.confirm_veto(owners[1], gov, 1).unwrap().outcome, ConfirmOutcome::Recorded);
    assert_eq!(ms.confirmation_count(gov, 1), 2);
    assert_eq!(
        ms.confirm_veto(owners[2], gov, 1).unwrap().outcome,
        ConfirmOutcome::VetoDispatched { governance: gov, proposal_id: 1 }
    );
    assert_eq!(ms.confirmation_count(gov, 1), 0);
}

#[test]
fn repeated_confirmation_is_refused() {
    let (owners, mut ms) = setup(3, 3);
    let gov = Address::contract(0, 9);
    ms.confirm_veto(owners[0], gov, 4).unwrap();
    assert_eq!(ms.confirm_veto(owners[0], gov, 4), Err(MultisigError::AlreadyConfirmed));
    assert_eq!(ms.confirmation_count(gov, 4), 1);
}

#[test]
fn non_owner_is_refused() {
    let (_, mut ms) = setup(1, 1);
    let gov = Address::contract(0, 9);
    assert_eq!(ms.confirm_veto(addr(999), gov, 0), Err(MultisigError::NotOwner));
    assert_eq!(ms.confirmation_count(gov, 0), 0);
}

#[test]
fn confirm_before_initialize_is_refused() {
    let mut ms = GuardianMultisig::new();
    assert_eq!(
        ms.confirm_veto(addr(1), Address::contract(0, 9), 0),
        Err(MultisigError::NotInitialized)
    );
}
