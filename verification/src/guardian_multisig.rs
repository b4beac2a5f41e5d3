//! An N-of-M signer that acts as governance's guardian: confirmations of a veto
//! are collected per (governance contract, proposal id), and once the threshold
//! is reached the veto is dispatched and the confirmations are cleared.
//!
//! Only a registered owner may confirm, and each owner confirms a veto at most
//! once, so the veto goes out once `threshold` distinct owners have confirmed it.

use vstd::prelude::*;
use crate::address::Address;
use crate::keyed_map::KeyedMap;

verus! {

/// The most owners a multisig may have.
pub const MAX_OWNERS: usize = 10;

/// A veto to be confirmed: a proposal of a governance contract.
#[derive(Clone, Copy, PartialEq, Eq, Structural, Debug)]
pub struct VetoProposal {
    pub governance_contract: Address,
    pub proposal_id: u32,
}

/// Why a multisig operation was refused.
#[derive(Clone, Copy, PartialEq, Eq, Structural, Debug)]
pub enum MultisigError {
    AlreadyInitialized,
    EmptyOwners,
    TooManyOwners,
    InvalidThreshold,
    NotInitialized,
    NotOwner,
    AlreadyConfirmed,
}

/// What a confirmation led to.
#[derive(Clone, Copy, PartialEq, Eq, Structural, Debug)]
pub enum ConfirmOutcome {
    /// The confirmation was recorded; the threshold is not reached yet.
    Recorded,
    /// The threshold was reached: `veto(proposal_id)` is called on `governance`.
    VetoDispatched { governance: Address, proposal_id: u32 },
}

/// A confirmation: the confirming owner, who must authorise it, and what it led to.
#[derive(Clone, Copy, PartialEq, Eq, Structural, Debug)]
pub struct Confirmation {
    pub signer: Address,
    pub outcome: ConfirmOutcome,
}

/// The multisig's state as a mathematical value.
pub struct MultisigState {
    pub owners: Option<Seq<Address>>,
    pub threshold: Option<u32>,
    pub confirmations: Map<(Address, u32), Seq<Address>>,
}

/// What initialising with `owners` and `threshold` does.
pub open spec fn ms_initialize(s: MultisigState, owners: Seq<Address>, threshold: u32) -> Result<
    MultisigState,
    MultisigError,
> {
    if s.threshold is Some {
        Err(MultisigError::AlreadyInitialized)
    } else if owners.len() == 0 {
        Err(MultisigError::EmptyOwners)
    } else if owners.len() > MAX_OWNERS {
        Err(MultisigError::TooManyOwners)
    } else if threshold == 0 || threshold > owners.len() {
        Err(MultisigError::InvalidThreshold)
    } else {
        Ok(MultisigState { owners: Some(owners), threshold: Some(threshold), ..s })
    }
}

/// The confirmations recorded for `key`.
pub open spec fn confirmations_for(s: MultisigState, key: (Address, u32)) -> Seq<Address> {
    if s.confirmations.contains_key(key) {
        s.confirmations[key]
    } else {
        Seq::empty()
    }
}

/// What owner `caller` confirming the veto of `proposal_id` on `governance` does.
pub open spec fn ms_confirm(
    s: MultisigState,
    caller: Address,
    governance: Address,
    proposal_id: u32,
) -> Result<(MultisigState, Confirmation), MultisigError> {
    let key = (governance, proposal_id);
    let list = confirmations_for(s, key);
    if s.owners is None || s.threshold is None {
        Err(MultisigError::NotInitialized)
    } else if !s.owners->Some_0.contains(caller) {
        Err(MultisigError::NotOwner)
    } else if list.contains(caller) {
        Err(MultisigError::AlreadyConfirmed)
    } else if list.len() + 1 >= s.threshold->Some_0 {
        Ok(
            (
                MultisigState { confirmations: s.confirmations.remove(key), ..s },
                Confirmation {
                    signer: caller,
                    outcome: ConfirmOutcome::VetoDispatched { governance, proposal_id },
                },
            ),
        )
    } else {
        Ok(
            (
                MultisigState {
                    confirmations: s.confirmations.insert(key, list.push(caller)),
                    ..s
                },
                Confirmation { signer: caller, outcome: ConfirmOutcome::Recorded },
            ),
        )
    }
}

/// The multisig's storage.
pub struct GuardianMultisig {
    pub owners: Option<Vec<Address>>,
    pub threshold: Option<u32>,
    pub confirmations: KeyedMap<(Address, u32), Vec<Address>>,
}

/// The contents of an optional list.
pub open spec fn list_of(v: Option<Vec<Address>>) -> Option<Seq<Address>> {
    match v {
        Some(l) => Some(l@),
        None => None,
    }
}

impl View for GuardianMultisig {
    type V = MultisigState;

    open spec fn view(&self) -> MultisigState {
        MultisigState {
            owners: list_of(self.owners),
            threshold: self.threshold,
            confirmations: self.confirmations@.map_values(|v: Vec<Address>| v@),
        }
    }
}

fn copy_addresses(v: &Vec<Address>) -> (r: Vec<Address>)
    ensures
        r@ == v@,
{
    let mut r: Vec<Address> = Vec::new();
    let mut i: usize = 0;
    while i < v.len()
        invariant
            i <= v@.len(),
            r@ == v@.take(i as int),
        decreases v@.len() - i,
    {
        r.push(v[i]);
        i = i + 1;
        assert(r@ =~= v@.take(i as int));
    }
    assert(v@.take(v@.len() as int) =~= v@);
    r
}

impl GuardianMultisig {
    /// The confirmation map keeps its keys distinct, and every list fits a `u32` length.
    pub open spec fn wf(&self) -> bool {
        &&& self.confirmations.wf()
        &&& forall|k: (Address, u32)| #[trigger]
            self.confirmations@.contains_key(k) ==> self.confirmations@[k]@.len() <= u32::MAX
    }

    /// Storage before initialisation.
    pub fn new() -> (m: Self)
        ensures
            m.wf(),
            m@ == (MultisigState { owners: None, threshold: None, confirmations: Map::empty() }),
    {
        let m = GuardianMultisig { owners: None, threshold: None, confirmations: KeyedMap::new() };
        assert(m@.confirmations =~= Map::empty());
        m
    }

    /// Records between one and `MAX_OWNERS` owners and a threshold between one
    /// and the number of owners.  Refused once a threshold is recorded.
    pub fn initialize(&mut self, owners: Vec<Address>, threshold: u32) -> (r: Result<
        (),
        MultisigError,
    >)
        requires
            old(self).wf(),
        ensures
            final(self).wf(),
            match ms_initialize(old(self)@, owners@, threshold) {
                Ok(s) => r is Ok && final(self)@ == s,
                Err(e) => r == Err::<(), MultisigError>(e) && *final(self) == *old(self),
            },
    {
        if self.threshold.is_some() {
            return Err(MultisigError::AlreadyInitialized);
        }
        if owners.len() == 0 {
            return Err(MultisigError::EmptyOwners);
        }
        if owners.len() > MAX_OWNERS {
            return Err(MultisigError::TooManyOwners);
        }
        if threshold == 0 || threshold as usize > owners.len() {
            return Err(MultisigError::InvalidThreshold);
        }
        self.owners = Some(owners);
        self.threshold = Some(threshold);
        Ok(())
    }

    /// Owner `caller` confirms the veto of `proposal_id` on `governance_contract`,
    /// and must authorise it (the signer returned).  When the confirmations of
    /// distinct owners reach the threshold, the veto is dispatched and they are
    /// cleared.
    #[verifier::loop_isolation(false)]
    pub fn confirm_veto(&mut self, caller: Address, governance_contract: Address, proposal_id: u32) -> (r:
        Result<Confirmation, MultisigError>)
        requires
            old(self).wf(),
        ensures
            final(self).wf(),
            match ms_confirm(old(self)@, caller, governance_contract, proposal_id) {
                Ok((s, out)) => r == Ok::<Confirmation, MultisigError>(out) && final(self)@ == s,
                Err(e) => r == Err::<Confirmation, MultisigError>(e) && *final(self) == *old(
                    self,
                ),
            },
    {
        let owners = match &self.owners {
            Some(o) => o,
            None => return Err(MultisigError::NotInitialized),
        };
        let threshold = match self.threshold {
            Some(t) => t,
            None => return Err(MultisigError::NotInitialized),
        };
        let mut k: usize = 0;
        let mut is_owner = false;
        while k < owners.len()
            invariant
                k <= owners@.len(),
                is_owner == (exists|j: int| 0 <= j < k && owners@[j] == caller),
            decreases owners@.len() - k,
        {
            if owners[k].same(&caller) {
                is_owner = true;
            }
            k = k + 1;
        }
        if !is_owner {
            assert(!owners@.contains(caller));
            return Err(MultisigError::NotOwner);
        }
        assert(owners@.contains(caller));
        let key = (governance_contract, proposal_id);
        let ghost s = self@;
        let mut list: Vec<Address> = match self.confirmations.get(&key) {
            Some(v) => copy_addresses(v),
            None => Vec::new(),
        };
        assert(list@ == confirmations_for(s, key));
        let mut i: usize = 0;
        while i < list.len()
            invariant
                i <= list@.len(),
                forall|j: int| 0 <= j < i ==> list@[j] != caller,
            decreases list@.len() - i,
        {
            if list[i].same(&caller) {
                assert(list@.contains(caller)) by {
                    assert(list@[i as int] == caller);
                }
                return Err(MultisigError::AlreadyConfirmed);
            }
            i = i + 1;
        }
        assert(!list@.contains(caller));
        list.push(caller);
        if list.len() >= threshold as usize {
            self.confirmations.remove(&key);
            assert(self@.confirmations =~= s.confirmations.remove(key));
            Ok(
                Confirmation {
                    signer: caller,
                    outcome: ConfirmOutcome::VetoDispatched {
                        governance: governance_contract,
                        proposal_id,
                    },
                },
            )
        } else {
            let ghost l = list@;
            self.confirmations.insert(key, list);
            assert(self@.confirmations =~= s.confirmations.insert(key, l));
            Ok(Confirmation { signer: caller, outcome: ConfirmOutcome::Recorded })
        }
    }

    /// The number of confirmations recorded for the veto of `proposal_id` on
    /// `governance_contract`.
    pub fn confirmation_count(&self, governance_contract: Address, proposal_id: u32) -> (n: u32)
        requires
            self.wf(),
        ensures
            n == confirmations_for(self@, (governance_contract, proposal_id)).len(),
    {
        match self.confirmations.get(&(governance_contract, proposal_id)) {
            Some(v) => v.len() as u32,
            None => 0,
        }
    }

    /// The registered owners.
    pub fn owners(&self) -> (r: Result<Vec<Address>, MultisigError>)
        ensures
            match self.owners {
                Some(o) => r matches Ok(l) && l@ == o@,
                None => r == Err::<Vec<Address>, MultisigError>(MultisigError::NotInitialized),
            },
    {
        match &self.owners {
            Some(o) => Ok(copy_addresses(o)),
            None => Err(MultisigError::NotInitialized),
        }
    }

    /// The confirmation threshold.
    pub fn threshold(&self) -> (r: Result<u32, MultisigError>)
        ensures
            match self.threshold {
                Some(t) => r == Ok::<u32, MultisigError>(t),
                None => r == Err::<u32, MultisigError>(MultisigError::NotInitialized),
            },
    {
        match self.threshold {
            Some(t) => Ok(t),
            None => Err(MultisigError::NotInitialized),
        }
    }
}


/// The shape the multisig's operations keep: owners and threshold are recorded
/// together; before that no confirmations exist; after it every recorded list is
/// non-empty, shorter than the threshold (which is at least one), free of
/// repeats, and made of owners.
pub open spec fn ms_inv(s: MultisigState) -> bool {
    &&& (s.owners is Some <==> s.threshold is Some)
    &&& (s.threshold is None ==> s.confirmations.dom().is_empty())
    &&& (s.threshold matches Some(t) ==> t >= 1)
    &&& (s.threshold matches Some(t) ==> forall|k: (Address, u32)| #[trigger]
        s.confirmations.contains_key(k) ==> {
            &&& 0 < s.confirmations[k].len() < t
            &&& s.confirmations[k].no_duplicates()
            &&& forall|i: int|
                0 <= i < s.confirmations[k].len() ==> s.owners->Some_0.contains(
                    #[trigger] s.confirmations[k][i],
                )
        })
}

/// Fresh storage has the shape.
pub proof fn lemma_ms_inv_new()
    ensures
        ms_inv(MultisigState { owners: None, threshold: None, confirmations: Map::empty() }),
{
}

/// Initialising and confirming keep the shape.
pub proof fn lemma_ms_inv_preserved(
    s: MultisigState,
    owners: Seq<Address>,
    threshold: u32,
    caller: Address,
    governance: Address,
    proposal_id: u32,
)
    requires
        ms_inv(s),
    ensures
        ms_initialize(s, owners, threshold) matches Ok(s2) ==> ms_inv(s2),
        ms_confirm(s, caller, governance, proposal_id) matches Ok((s2, _)) ==> ms_inv(s2),
{
    if ms_initialize(s, owners, threshold) is Ok {
        assert forall|k: (Address, u32)| !#[trigger] s.confirmations.contains_key(k) by {
            assert(!s.confirmations.dom().contains(k));
        }
    }
    let key = (governance, proposal_id);
    let list = confirmations_for(s, key);
    if ms_confirm(s, caller, governance, proposal_id) is Ok && list.len() + 1
        < s.threshold->Some_0 {
        let l2 = list.push(caller);
        assert(l2.no_duplicates()) by {
            assert forall|i: int, j: int|
                0 <= i < l2.len() && 0 <= j < l2.len() && i != j implies l2[i] != l2[j] by {
                if i == list.len() as int {
                    assert(l2[j] == list[j]);
                    assert(!list.contains(caller));
                } else if j == list.len() as int {
                    assert(l2[i] == list[i]);
                    assert(!list.contains(caller));
                } else {
                    if s.confirmations.contains_key(key) {
                        assert(list.no_duplicates());
                    }
                }
            }
        }
        assert forall|i: int| 0 <= i < l2.len() implies s.owners->Some_0.contains(
            #[trigger] l2[i],
        ) by {
            if i < list.len() {
                assert(l2[i] == list[i]);
            }
        }
    }
}

/// A confirmation by an owner who has not yet confirmed dispatches the veto
/// exactly when the confirmations, with it, reach the threshold; the
/// confirmations are then cleared, and otherwise the count goes up by one.
/// Anyone else is refused.
pub proof fn lemma_confirm_dispatches_at_threshold(
    s: MultisigState,
    caller: Address,
    governance: Address,
    proposal_id: u32,
)
    requires
        s.owners is Some && s.threshold is Some,
    ensures
        ({
            let key = (governance, proposal_id);
            let list = confirmations_for(s, key);
            let before = list.len();
            let r = ms_confirm(s, caller, governance, proposal_id);
            &&& !s.owners->Some_0.contains(caller) ==> r == Err::<
                (MultisigState, Confirmation),
                MultisigError,
            >(MultisigError::NotOwner)
            &&& s.owners->Some_0.contains(caller) && list.contains(caller) ==> r == Err::<
                (MultisigState, Confirmation),
                MultisigError,
            >(MultisigError::AlreadyConfirmed)
            &&& s.owners->Some_0.contains(caller) && !list.contains(caller) ==> {
                &&& r is Ok
                &&& r->Ok_0.1.signer == caller
                &&& (r->Ok_0.1.outcome is VetoDispatched) == (before + 1 >= s.threshold->Some_0)
                &&& r->Ok_0.1.outcome is VetoDispatched ==> confirmations_for(r->Ok_0.0, key).len()
                    == 0
                &&& r->Ok_0.1.outcome is Recorded ==> confirmations_for(r->Ok_0.0, key) == list.push(
                    caller,
                )
                &&& forall|k: (Address, u32)|
                    k != key ==> #[trigger] confirmations_for(r->Ok_0.0, k) == confirmations_for(
                        s,
                        k,
                    )
            }
        }),
{
}

/// The state after `callers` confirm the veto of `proposal_id` on `governance`
/// one after another, or `None` if one of them is refused.
pub open spec fn confirm_in_turn(
    s: MultisigState,
    callers: Seq<Address>,
    governance: Address,
    proposal_id: u32,
) -> Option<MultisigState>
    decreases callers.len(),
{
    if callers.len() == 0 {
        Some(s)
    } else {
        match confirm_in_turn(s, callers.drop_last(), governance, proposal_id) {
            Some(s1) => match ms_confirm(s1, callers.last(), governance, proposal_id) {
                Ok((s2, _)) => Some(s2),
                Err(_) => None,
            },
            None => None,
        }
    }
}

/// Fewer than `threshold` distinct owners confirming a veto that has no
/// confirmations yet are each recorded, in turn.
pub proof fn lemma_below_threshold_recorded(
    s: MultisigState,
    callers: Seq<Address>,
    governance: Address,
    proposal_id: u32,
)
    requires
        ms_inv(s),
        s.threshold is Some,
        !s.confirmations.contains_key((governance, proposal_id)),
        callers.no_duplicates(),
        forall|i: int| 0 <= i < callers.len() ==> s.owners->Some_0.contains(#[trigger] callers[i]),
        callers.len() < s.threshold->Some_0,
    ensures
        confirm_in_turn(s, callers, governance, proposal_id) is Some,
        confirm_in_turn(s, callers, governance, proposal_id)->Some_0.owners == s.owners,
        confirm_in_turn(s, callers, governance, proposal_id)->Some_0.threshold == s.threshold,
        callers.len() > 0 ==> confirmations_for(
            confirm_in_turn(s, callers, governance, proposal_id)->Some_0,
            (governance, proposal_id),
        ) == callers,
        callers.len() == 0 ==> confirmations_for(
            confirm_in_turn(s, callers, governance, proposal_id)->Some_0,
            (governance, proposal_id),
        ).len() == 0,
    decreases callers.len(),
{
    if callers.len() > 0 {
        let prefix = callers.drop_last();
        let last = callers.last();
        assert(prefix.no_duplicates()) by {
            assert forall|i: int, j: int|
                0 <= i < prefix.len() && 0 <= j < prefix.len() && i != j implies prefix[i]
                != prefix[j] by {
                assert(prefix[i] == callers[i] && prefix[j] == callers[j]);
            }
        }
        assert forall|i: int| 0 <= i < prefix.len() implies s.owners->Some_0.contains(
            #[trigger] prefix[i],
        ) by {
            assert(prefix[i] == callers[i]);
        }
        lemma_below_threshold_recorded(s, prefix, governance, proposal_id);
        let s1 = confirm_in_turn(s, prefix, governance, proposal_id)->Some_0;
        let key = (governance, proposal_id);
        assert(!confirmations_for(s1, key).contains(last)) by {
            if prefix.len() > 0 {
                if confirmations_for(s1, key).contains(last) {
                    let j = choose|j: int| 0 <= j < prefix.len() && prefix[j] == last;
                    assert(callers[j] == callers[callers.len() - 1]);
                }
            }
        }
        assert(s.owners->Some_0.contains(last)) by {
            assert(last == callers[callers.len() - 1]);
        }
        assert(prefix.push(last) =~= callers);
        if prefix.len() == 0 {
            assert(confirmations_for(s1, key) =~= Seq::<Address>::empty());
            assert(Seq::<Address>::empty().push(last) =~= callers);
        }
    }
}

/// N of M: once `threshold` distinct owners have confirmed a veto that had no
/// confirmations, in turn, the last of them dispatches it and the
/// confirmations are cleared.
pub proof fn lemma_threshold_owners_dispatch(
    s: MultisigState,
    callers: Seq<Address>,
    governance: Address,
    proposal_id: u32,
)
    requires
        ms_inv(s),
        s.threshold is Some,
        !s.confirmations.contains_key((governance, proposal_id)),
        callers.no_duplicates(),
        forall|i: int| 0 <= i < callers.len() ==> s.owners->Some_0.contains(#[trigger] callers[i]),
        callers.len() == s.threshold->Some_0,
    ensures
        ({
            let s1 = confirm_in_turn(s, callers.drop_last(), governance, proposal_id)->Some_0;
            &&& confirm_in_turn(s, callers.drop_last(), governance, proposal_id) is Some
            &&& ms_confirm(s1, callers.last(), governance, proposal_id) is Ok
            &&& ms_confirm(s1, callers.last(), governance, proposal_id)->Ok_0.1 == (Confirmation {
                signer: callers.last(),
                outcome: ConfirmOutcome::VetoDispatched { governance, proposal_id },
            })
            &&& confirmations_for(
                ms_confirm(s1, callers.last(), governance, proposal_id)->Ok_0.0,
                (governance, proposal_id),
            ).len() == 0
        }),
{
    let t = s.threshold->Some_0;
    let prefix = callers.drop_last();
    let last = callers.last();
    let key = (governance, proposal_id);
    assert(prefix.no_duplicates()) by {
        assert forall|i: int, j: int|
            0 <= i < prefix.len() && 0 <= j < prefix.len() && i != j implies prefix[i]
            != prefix[j] by {
            assert(prefix[i] == callers[i] && prefix[j] == callers[j]);
        }
    }
    assert forall|i: int| 0 <= i < prefix.len() implies s.owners->Some_0.contains(
        #[trigger] prefix[i],
    ) by {
        assert(prefix[i] == callers[i]);
    }
    lemma_below_threshold_recorded(s, prefix, governance, proposal_id);
    let s1 = confirm_in_turn(s, prefix, governance, proposal_id)->Some_0;
    assert(!confirmations_for(s1, key).contains(last)) by {
        if prefix.len() > 0 {
            if confirmations_for(s1, key).contains(last) {
                let j = choose|j: int| 0 <= j < prefix.len() && prefix[j] == last;
                assert(callers[j] == callers[callers.len() - 1]);
            }
        }
    }
    assert(s.owners->Some_0.contains(last)) by {
        assert(last == callers[callers.len() - 1]);
    }
    assert(confirmations_for(s1, key).len() + 1 >= t);
}

/// With a threshold of one, an owner's first confirmation dispatches the veto at once.
pub proof fn lemma_one_of_one_dispatches(
    s: MultisigState,
    caller: Address,
    governance: Address,
    proposal_id: u32,
)
    requires
        ms_inv(s),
        s.threshold == Some(1u32),
        s.owners->Some_0.contains(caller),
    ensures
        ms_confirm(s, caller, governance, proposal_id) == Ok::<
            (MultisigState, Confirmation),
            MultisigError,
        >(
            (
                MultisigState {
                    confirmations: s.confirmations.remove((governance, proposal_id)),
                    ..s
                },
                Confirmation {
                    signer: caller,
                    outcome: ConfirmOutcome::VetoDispatched { governance, proposal_id },
                },
            ),
        ),
{
    let key = (governance, proposal_id);
    assert(!s.confirmations.contains_key(key));
}

} // verus!
