//! Transferable receipts for tier-vault positions.  Wrapping a position mints a
//! token whose holder may withdraw it; unwrapping burns the token and hands the
//! withdrawal right back to the holder.  Each token id has at most one holder.

use vstd::prelude::*;
use crate::address::Address;
use crate::keyed_map::KeyedMap;

verus! {

/// Why a position-token operation was refused.
#[derive(Clone, Copy, PartialEq, Eq, Structural, Debug)]
pub enum TokenError {
    AlreadyInitialized,
    NotInitialized,
    TokenNotFound,
    TierVaultNotFound,
    NotTokenOwner,
    NotOwnerOrApproved,
    SpenderNotApproved,
    NoApproval,
    TokenExists,
    /// The next token id does not fit a `u64`.
    IdOverflow,
}

/// `set_withdrawal_auth(current_auth, new_auth)` on the tier vault `tier_vault`.
#[derive(Clone, Copy, PartialEq, Eq, Structural, Debug)]
pub struct WithdrawalAuthCall {
    pub tier_vault: Address,
    pub current_auth: Address,
    pub new_auth: Address,
}

/// A wrap: the new token id, who must authorise it, and the call to the tier vault.
#[derive(Clone, Copy, PartialEq, Eq, Structural, Debug)]
pub struct Wrapped {
    pub token_id: u64,
    pub signer: Address,
    pub call: WithdrawalAuthCall,
}

/// An unwrap: who must authorise it, and the call to the tier vault.
#[derive(Clone, Copy, PartialEq, Eq, Structural, Debug)]
pub struct Unwrapped {
    pub signer: Address,
    pub call: WithdrawalAuthCall,
}

/// The token contract's state as a mathematical value.
pub struct TokenState {
    pub admin: Option<Address>,
    pub next_token_id: Option<u64>,
    pub name: Option<Seq<char>>,
    pub symbol: Option<Seq<char>>,
    pub decimals: Option<u32>,
    pub owners: Map<u64, Address>,
    pub tier_vaults: Map<u64, Address>,
    pub original_owners: Map<u64, Address>,
    pub approvals: Map<u64, Address>,
    pub operators: Map<(Address, Address), bool>,
}

/// `operator` may act for all of `owner`'s tokens.
pub open spec fn is_operator(s: TokenState, owner: Address, operator: Address) -> bool {
    s.operators.contains_key((owner, operator)) && s.operators[(owner, operator)]
}

/// `spender` holds the single-use approval for `token_id`.
pub open spec fn is_approved(s: TokenState, token_id: u64, spender: Address) -> bool {
    s.approvals.contains_key(token_id) && s.approvals[token_id] == spender
}

/// `caller` may move `token_id`: it holds it, is an operator of its holder, or is approved for it.
pub open spec fn may_move(s: TokenState, caller: Address, token_id: u64) -> bool {
    let owner = s.owners[token_id];
    owner == caller || is_operator(s, owner, caller) || is_approved(s, token_id, caller)
}

/// `spender` may act for `from` on `token_id`: as `from`'s operator or by approval.
pub open spec fn may_spend(s: TokenState, spender: Address, from: Address, token_id: u64) -> bool {
    is_operator(s, from, spender) || is_approved(s, token_id, spender)
}

/// `from` holds `token_id`.
pub open spec fn holds(s: TokenState, from: Address, token_id: u64) -> bool {
    s.owners.contains_key(token_id) && s.owners[token_id] == from
}

/// Whether `spender` may move or burn `token_id` on behalf of `from`: it must be
/// authorised by `from`, and `from` must hold the token.
pub open spec fn spend_check(s: TokenState, spender: Address, from: Address, token_id: u64) -> Result<
    (),
    TokenError,
> {
    if !may_spend(s, spender, from, token_id) {
        Err(TokenError::SpenderNotApproved)
    } else if !holds(s, from, token_id) {
        Err(TokenError::NotTokenOwner)
    } else {
        Ok(())
    }
}

/// The balance of `addr` in `token_id`: 1 if it holds the token, else 0.
pub open spec fn balance_of(s: TokenState, addr: Address, token_id: u64) -> int {
    if s.owners.contains_key(token_id) && s.owners[token_id] == addr {
        1
    } else {
        0
    }
}

/// `token_id` now belongs to `to`, and its approval is gone.
pub open spec fn moved(s: TokenState, to: Address, token_id: u64) -> TokenState {
    TokenState {
        owners: s.owners.insert(token_id, to),
        approvals: s.approvals.remove(token_id),
        ..s
    }
}

/// `token_id` has no holder and no approval.
pub open spec fn burned(s: TokenState, token_id: u64) -> TokenState {
    TokenState {
        owners: s.owners.remove(token_id),
        approvals: s.approvals.remove(token_id),
        ..s
    }
}

/// What wrapping `user`'s position in `tier_vault` does; `this` is the token contract.
pub open spec fn tok_wrap(s: TokenState, user: Address, tier_vault: Address, this: Address) -> Result<
    (TokenState, Wrapped),
    TokenError,
> {
    let id = match s.next_token_id {
        Some(n) => n,
        None => 0,
    };
    if id == u64::MAX {
        Err(TokenError::IdOverflow)
    } else {
        Ok(
            (
                TokenState {
                    next_token_id: Some((id + 1) as u64),
                    owners: s.owners.insert(id, user),
                    tier_vaults: s.tier_vaults.insert(id, tier_vault),
                    original_owners: s.original_owners.insert(id, user),
                    ..s
                },
                Wrapped {
                    token_id: id,
                    signer: user,
                    call: WithdrawalAuthCall { tier_vault, current_auth: user, new_auth: this },
                },
            ),
        )
    }
}

/// What unwrapping `token_id` does; `this` is the token contract.
pub open spec fn tok_unwrap(s: TokenState, token_id: u64, this: Address) -> Result<
    (TokenState, Unwrapped),
    TokenError,
> {
    if !s.owners.contains_key(token_id) {
        Err(TokenError::TokenNotFound)
    } else if !s.tier_vaults.contains_key(token_id) {
        Err(TokenError::TierVaultNotFound)
    } else {
        let holder = s.owners[token_id];
        Ok(
            (
                TokenState {
                    owners: s.owners.remove(token_id),
                    tier_vaults: s.tier_vaults.remove(token_id),
                    original_owners: s.original_owners.remove(token_id),
                    approvals: s.approvals.remove(token_id),
                    ..s
                },
                Unwrapped {
                    signer: holder,
                    call: WithdrawalAuthCall {
                        tier_vault: s.tier_vaults[token_id],
                        current_auth: this,
                        new_auth: holder,
                    },
                },
            ),
        )
    }
}

/// What `from` transferring `token_id` to `to` does; the result is the signer.
pub open spec fn tok_transfer(s: TokenState, from: Address, to: Address, token_id: u64) -> Result<
    (TokenState, Address),
    TokenError,
> {
    if !s.owners.contains_key(token_id) {
        Err(TokenError::TokenNotFound)
    } else if !may_move(s, from, token_id) {
        Err(TokenError::NotOwnerOrApproved)
    } else {
        Ok((moved(s, to, token_id), from))
    }
}

/// What `spender` transferring `token_id` to `to` for `from` does; the result is the signer.
pub open spec fn tok_transfer_from(
    s: TokenState,
    spender: Address,
    from: Address,
    to: Address,
    token_id: u64,
) -> Result<(TokenState, Address), TokenError> {
    match spend_check(s, spender, from, token_id) {
        Err(e) => Err(e),
        Ok(()) => Ok((moved(s, to, token_id), spender)),
    }
}

/// What `spender` burning `token_id` for `from` does; the result is the signer.
pub open spec fn tok_burn_from(s: TokenState, spender: Address, from: Address, token_id: u64) -> Result<
    (TokenState, Address),
    TokenError,
> {
    match spend_check(s, spender, from, token_id) {
        Err(e) => Err(e),
        Ok(()) => Ok((burned(s, token_id), spender)),
    }
}

/// The token contract's storage.
pub struct PositionToken {
    pub admin: Option<Address>,
    pub next_token_id: Option<u64>,
    pub name: Option<String>,
    pub symbol: Option<String>,
    pub decimals: Option<u32>,
    pub owners: KeyedMap<u64, Address>,
    pub tier_vaults: KeyedMap<u64, Address>,
    pub original_owners: KeyedMap<u64, Address>,
    pub approvals: KeyedMap<u64, Address>,
    pub operators: KeyedMap<(Address, Address), bool>,
}

/// The text of an optional string.
pub open spec fn text_of(s: Option<String>) -> Option<Seq<char>> {
    match s {
        Some(t) => Some(t@),
        None => None,
    }
}

impl View for PositionToken {
    type V = TokenState;

    open spec fn view(&self) -> TokenState {
        TokenState {
            admin: self.admin,
            next_token_id: self.next_token_id,
            name: text_of(self.name),
            symbol: text_of(self.symbol),
            decimals: self.decimals,
            owners: self.owners@,
            tier_vaults: self.tier_vaults@,
            original_owners: self.original_owners@,
            approvals: self.approvals@,
            operators: self.operators@,
        }
    }
}

impl PositionToken {
    pub open spec fn wf(&self) -> bool {
        &&& self.owners.wf()
        &&& self.tier_vaults.wf()
        &&& self.original_owners.wf()
        &&& self.approvals.wf()
        &&& self.operators.wf()
    }

    /// Storage before initialisation.
    pub fn new() -> (t: Self)
        ensures
            t.wf(),
            t@ == (TokenState {
                admin: None,
                next_token_id: None,
                name: None,
                symbol: None,
                decimals: None,
                owners: Map::empty(),
                tier_vaults: Map::empty(),
                original_owners: Map::empty(),
                approvals: Map::empty(),
                operators: Map::empty(),
            }),
    {
        PositionToken {
            admin: None,
            next_token_id: None,
            name: None,
            symbol: None,
            decimals: None,
            owners: KeyedMap::new(),
            tier_vaults: KeyedMap::new(),
            original_owners: KeyedMap::new(),
            approvals: KeyedMap::new(),
            operators: KeyedMap::new(),
        }
    }

    /// Records the admin, starts token ids at 0 and sets the metadata.  Refused
    /// once an admin is recorded.
    pub fn initialize(&mut self, admin: Address) -> (r: Result<(), TokenError>)
        requires
            old(self).wf(),
        ensures
            final(self).wf(),
            old(self).admin is Some ==> r == Err::<(), TokenError>(TokenError::AlreadyInitialized)
                && *final(self) == *old(self),
            old(self).admin is None ==> r is Ok && final(self)@ == (TokenState {
                admin: Some(admin),
                next_token_id: Some(0),
                name: Some("YieldLadder Position Receipt"@),
                symbol: Some("YLPR"@),
                decimals: Some(0),
                ..old(self)@
            }),
    {
        if self.admin.is_some() {
            return Err(TokenError::AlreadyInitialized);
        }
        self.admin = Some(admin);
        self.next_token_id = Some(0);
        self.name = Some(String::from_str("YieldLadder Position Receipt"));
        self.symbol = Some(String::from_str("YLPR"));
        self.decimals = Some(0);
        Ok(())
    }

    /// Mints a receipt for `user`'s position in `tier_vault`; `this` is the token
    /// contract, which becomes the vault's authorised withdrawer.  `user` must
    /// authorise it.
    pub fn wrap(&mut self, user: Address, tier_vault: Address, this: Address) -> (r: Result<
        Wrapped,
        TokenError,
    >)
        requires
            old(self).wf(),
        ensures
            final(self).wf(),
            match tok_wrap(old(self)@, user, tier_vault, this) {
                Ok((s, out)) => r == Ok::<Wrapped, TokenError>(out) && final(self)@ == s,
                Err(e) => r == Err::<Wrapped, TokenError>(e) && *final(self) == *old(self),
            },
    {
        let id = match self.next_token_id {
            Some(n) => n,
            None => 0,
        };
        if id == u64::MAX {
            return Err(TokenError::IdOverflow);
        }
        self.owners.insert(id, user);
        self.tier_vaults.insert(id, tier_vault);
        self.original_owners.insert(id, user);
        self.next_token_id = Some(id + 1);
        Ok(
            Wrapped {
                token_id: id,
                signer: user,
                call: WithdrawalAuthCall { tier_vault, current_auth: user, new_auth: this },
            },
        )
    }

    /// Burns `token_id` and hands its position's withdrawal right back to its
    /// holder, who must authorise it; `this` is the token contract.
    pub fn unwrap(&mut self, token_id: u64, this: Address) -> (r: Result<Unwrapped, TokenError>)
        requires
            old(self).wf(),
        ensures
            final(self).wf(),
            match tok_unwrap(old(self)@, token_id, this) {
                Ok((s, out)) => r == Ok::<Unwrapped, TokenError>(out) && final(self)@ == s,
                Err(e) => r == Err::<Unwrapped, TokenError>(e) && *final(self) == *old(self),
            },
    {
        let holder = match self.owners.get(&token_id) {
            Some(h) => *h,
            None => return Err(TokenError::TokenNotFound),
        };
        let tier_vault = match self.tier_vaults.get(&token_id) {
            Some(v) => *v,
            None => return Err(TokenError::TierVaultNotFound),
        };
        self.owners.remove(&token_id);
        self.tier_vaults.remove(&token_id);
        self.original_owners.remove(&token_id);
        self.approvals.remove(&token_id);
        Ok(
            Unwrapped {
                signer: holder,
                call: WithdrawalAuthCall { tier_vault, current_auth: this, new_auth: holder },
            },
        )
    }

    fn operator_flag(&self, owner: Address, operator: Address) -> (b: bool)
        requires
            self.wf(),
        ensures
            b == is_operator(self@, owner, operator),
    {
        match self.operators.get(&(owner, operator)) {
            Some(b) => *b,
            None => false,
        }
    }

    fn approved_is(&self, token_id: u64, spender: &Address) -> (b: bool)
        requires
            self.wf(),
        ensures
            b == is_approved(self@, token_id, *spender),
    {
        match self.approvals.get(&token_id) {
            Some(a) => a.same(spender),
            None => false,
        }
    }

    fn check_owner_or_approved(&self, caller: &Address, token_id: u64) -> (r: Result<
        (),
        TokenError,
    >)
        requires
            self.wf(),
        ensures
            !self@.owners.contains_key(token_id) ==> r == Err::<(), TokenError>(
                TokenError::TokenNotFound,
            ),
            self@.owners.contains_key(token_id) && may_move(self@, *caller, token_id) ==> r is Ok,
            self@.owners.contains_key(token_id) && !may_move(self@, *caller, token_id) ==> r
                == Err::<(), TokenError>(TokenError::NotOwnerOrApproved),
    {
        let owner = match self.owners.get(&token_id) {
            Some(o) => *o,
            None => return Err(TokenError::TokenNotFound),
        };
        if owner.same(caller) {
            return Ok(());
        }
        if self.operator_flag(owner, *caller) {
            return Ok(());
        }
        if self.approved_is(token_id, caller) {
            return Ok(());
        }
        Err(TokenError::NotOwnerOrApproved)
    }

    fn check_approved_for(&self, spender: &Address, from: &Address, token_id: u64) -> (r: Result<
        (),
        TokenError,
    >)
        requires
            self.wf(),
        ensures
            r == spend_check(self@, *spender, *from, token_id),
    {
        if !self.operator_flag(*from, *spender) && !self.approved_is(token_id, spender) {
            return Err(TokenError::SpenderNotApproved);
        }
        match self.owners.get(&token_id) {
            Some(o) => if o.same(from) {
                Ok(())
            } else {
                Err(TokenError::NotTokenOwner)
            },
            None => Err(TokenError::NotTokenOwner),
        }
    }

    fn do_transfer(&mut self, to: Address, token_id: u64)
        requires
            old(self).wf(),
        ensures
            final(self).wf(),
            final(self)@ == moved(old(self)@, to, token_id),
    {
        self.owners.insert(token_id, to);
        self.approvals.remove(&token_id);
    }

    /// `from` moves `token_id` to `to`; `from` must hold it, be an operator of its
    /// holder, or be approved for it, and must authorise it (the signer returned).
    pub fn transfer(&mut self, from: Address, to: Address, token_id: u64) -> (r: Result<
        Address,
        TokenError,
    >)
        requires
            old(self).wf(),
        ensures
            final(self).wf(),
            match tok_transfer(old(self)@, from, to, token_id) {
                Ok((s, out)) => r == Ok::<Address, TokenError>(out) && final(self)@ == s,
                Err(e) => r == Err::<Address, TokenError>(e) && *final(self) == *old(self),
            },
    {
        self.check_owner_or_approved(&from, token_id)?;
        self.do_transfer(to, token_id);
        Ok(from)
    }

    /// `spender` moves `token_id` to `to` on behalf of its holder `from`, as
    /// `from`'s operator or by approval; `spender` must authorise it (the signer
    /// returned).
    pub fn transfer_from(&mut self, spender: Address, from: Address, to: Address, token_id: u64) -> (r:
        Result<Address, TokenError>)
        requires
            old(self).wf(),
        ensures
            final(self).wf(),
            match tok_transfer_from(old(self)@, spender, from, to, token_id) {
                Ok((s, out)) => r == Ok::<Address, TokenError>(out) && final(self)@ == s,
                Err(e) => r == Err::<Address, TokenError>(e) && *final(self) == *old(self),
            },
    {
        self.check_approved_for(&spender, &from, token_id)?;
        self.do_transfer(to, token_id);
        Ok(spender)
    }

    /// The holder `owner` of `token_id` approves `spender` to move it once; `owner`
    /// must authorise it (the signer returned).
    pub fn approve(&mut self, owner: Address, spender: Address, token_id: u64, _expiration_ledger: u32) -> (r:
        Result<Address, TokenError>)
        requires
            old(self).wf(),
        ensures
            final(self).wf(),
            !old(self)@.owners.contains_key(token_id) ==> r == Err::<Address, TokenError>(
                TokenError::TokenNotFound,
            ),
            old(self)@.owners.contains_key(token_id) && old(self)@.owners[token_id] != owner ==> r
                == Err::<Address, TokenError>(TokenError::NotTokenOwner),
            r is Err ==> *final(self) == *old(self),
            old(self)@.owners.contains_key(token_id) && old(self)@.owners[token_id] == owner ==> r
                == Ok::<Address, TokenError>(owner) && final(self)@ == (TokenState {
                approvals: old(self)@.approvals.insert(token_id, spender),
                ..old(self)@
            }),
    {
        let current = match self.owners.get(&token_id) {
            Some(o) => *o,
            None => return Err(TokenError::TokenNotFound),
        };
        if !current.same(&owner) {
            return Err(TokenError::NotTokenOwner);
        }
        self.approvals.insert(token_id, spender);
        Ok(owner)
    }

    /// The address approved for `token_id`.
    pub fn allowance(&self, token_id: u64) -> (r: Result<Address, TokenError>)
        requires
            self.wf(),
        ensures
            self@.approvals.contains_key(token_id) ==> r == Ok::<Address, TokenError>(
                self@.approvals[token_id],
            ),
            !self@.approvals.contains_key(token_id) ==> r == Err::<Address, TokenError>(
                TokenError::NoApproval,
            ),
    {
        match self.approvals.get(&token_id) {
            Some(a) => Ok(*a),
            None => Err(TokenError::NoApproval),
        }
    }

    /// Makes `operator` an operator of all of `owner`'s tokens, or revokes it;
    /// `owner` must authorise it (the signer returned).
    pub fn set_authorized(&mut self, owner: Address, operator: Address, authorized: bool) -> (signer:
        Address)
        requires
            old(self).wf(),
        ensures
            final(self).wf(),
            signer == owner,
            final(self)@ == (TokenState {
                operators: old(self)@.operators.insert((owner, operator), authorized),
                ..old(self)@
            }),
    {
        self.operators.insert((owner, operator), authorized);
        owner
    }

    /// Whether `operator` is an operator of all of `owner`'s tokens.
    pub fn authorized(&self, owner: Address, operator: Address) -> (b: bool)
        requires
            self.wf(),
        ensures
            b == is_operator(self@, owner, operator),
    {
        self.operator_flag(owner, operator)
    }

    /// 1 if `addr` holds `token_id`, else 0.
    pub fn balance(&self, addr: Address, token_id: u64) -> (b: i128)
        requires
            self.wf(),
        ensures
            b == balance_of(self@, addr, token_id),
    {
        match self.owners.get(&token_id) {
            Some(o) => if o.same(&addr) {
                1
            } else {
                0
            },
            None => 0,
        }
    }

    /// Mints `token_id` to `to`; the admin must authorise it (the signer returned),
    /// and the id must be unused.
    pub fn mint(&mut self, to: Address, token_id: u64) -> (r: Result<Address, TokenError>)
        requires
            old(self).wf(),
        ensures
            final(self).wf(),
            old(self).admin is None ==> r == Err::<Address, TokenError>(
                TokenError::NotInitialized,
            ),
            old(self).admin is Some && old(self)@.owners.contains_key(token_id) ==> r == Err::<
                Address,
                TokenError,
            >(TokenError::TokenExists),
            r is Err ==> *final(self) == *old(self),
            old(self).admin is Some && !old(self)@.owners.contains_key(token_id) ==> r == Ok::<
                Address,
                TokenError,
            >(old(self).admin->Some_0) && final(self)@ == (TokenState {
                owners: old(self)@.owners.insert(token_id, to),
                ..old(self)@
            }),
    {
        let admin = match self.admin {
            Some(a) => a,
            None => return Err(TokenError::NotInitialized),
        };
        if self.owners.contains(&token_id) {
            return Err(TokenError::TokenExists);
        }
        self.owners.insert(token_id, to);
        Ok(admin)
    }

    /// The holder `from` burns `token_id`, and must authorise it (the signer returned).
    pub fn burn(&mut self, from: Address, token_id: u64) -> (r: Result<Address, TokenError>)
        requires
            old(self).wf(),
        ensures
            final(self).wf(),
            !old(self)@.owners.contains_key(token_id) ==> r == Err::<Address, TokenError>(
                TokenError::TokenNotFound,
            ),
            old(self)@.owners.contains_key(token_id) && old(self)@.owners[token_id] != from ==> r
                == Err::<Address, TokenError>(TokenError::NotTokenOwner),
            r is Err ==> *final(self) == *old(self),
            old(self)@.owners.contains_key(token_id) && old(self)@.owners[token_id] == from ==> r
                == Ok::<Address, TokenError>(from) && final(self)@ == burned(old(self)@, token_id),
    {
        let owner = match self.owners.get(&token_id) {
            Some(o) => *o,
            None => return Err(TokenError::TokenNotFound),
        };
        if !owner.same(&from) {
            return Err(TokenError::NotTokenOwner);
        }
        self.owners.remove(&token_id);
        self.approvals.remove(&token_id);
        Ok(from)
    }

    /// `spender` burns `token_id` on behalf of its holder `from`, as `from`'s
    /// operator or by approval, and must authorise it (the signer returned).
    pub fn burn_from(&mut self, spender: Address, from: Address, token_id: u64) -> (r: Result<
        Address,
        TokenError,
    >)
        requires
            old(self).wf(),
        ensures
            final(self).wf(),
            match tok_burn_from(old(self)@, spender, from, token_id) {
                Ok((s, out)) => r == Ok::<Address, TokenError>(out) && final(self)@ == s,
                Err(e) => r == Err::<Address, TokenError>(e) && *final(self) == *old(self),
            },
    {
        self.check_approved_for(&spender, &from, token_id)?;
        self.owners.remove(&token_id);
        self.approvals.remove(&token_id);
        Ok(spender)
    }

    /// The decimals (0 when none are recorded).
    pub fn decimals(&self) -> (d: u32)
        ensures
            d == (match self.decimals {
                Some(d) => d,
                None => 0,
            }),
    {
        match self.decimals {
            Some(d) => d,
            None => 0,
        }
    }

    /// The token's name.
    pub fn name(&self) -> (r: Result<String, TokenError>)
        ensures
            match self.name {
                Some(n) => r matches Ok(m) && m@ == n@,
                None => r == Err::<String, TokenError>(TokenError::NotInitialized),
            },
    {
        match &self.name {
            Some(n) => Ok(n.clone()),
            None => Err(TokenError::NotInitialized),
        }
    }

    /// The token's symbol.
    pub fn symbol(&self) -> (r: Result<String, TokenError>)
        ensures
            match self.symbol {
                Some(n) => r matches Ok(m) && m@ == n@,
                None => r == Err::<String, TokenError>(TokenError::NotInitialized),
            },
    {
        match &self.symbol {
            Some(n) => Ok(n.clone()),
            None => Err(TokenError::NotInitialized),
        }
    }

    /// The holder of `token_id`.
    pub fn owner_of(&self, token_id: u64) -> (r: Result<Address, TokenError>)
        requires
            self.wf(),
        ensures
            self@.owners.contains_key(token_id) ==> r == Ok::<Address, TokenError>(
                self@.owners[token_id],
            ),
            !self@.owners.contains_key(token_id) ==> r == Err::<Address, TokenError>(
                TokenError::TokenNotFound,
            ),
    {
        match self.owners.get(&token_id) {
            Some(o) => Ok(*o),
            None => Err(TokenError::TokenNotFound),
        }
    }

    /// The tier vault whose position `token_id` wraps.
    pub fn tier_vault_of(&self, token_id: u64) -> (r: Result<Address, TokenError>)
        requires
            self.wf(),
        ensures
            self@.tier_vaults.contains_key(token_id) ==> r == Ok::<Address, TokenError>(
                self@.tier_vaults[token_id],
            ),
            !self@.tier_vaults.contains_key(token_id) ==> r == Err::<Address, TokenError>(
                TokenError::TokenNotFound,
            ),
    {
        match self.tier_vaults.get(&token_id) {
            Some(v) => Ok(*v),
            None => Err(TokenError::TokenNotFound),
        }
    }
}


/// A token has at most one holder: no two addresses both have balance 1 in it,
/// and every balance is 0 or 1.
pub proof fn lemma_single_holder(s: TokenState, a: Address, b: Address, token_id: u64)
    ensures
        balance_of(s, a, token_id) == 0 || balance_of(s, a, token_id) == 1,
        balance_of(s, a, token_id) == 1 && balance_of(s, b, token_id) == 1 ==> a == b,
        !s.owners.contains_key(token_id) ==> balance_of(s, a, token_id) == 0,
{
}

/// A transfer needs the right to move the token, hands it to the recipient,
/// clears its approval, and leaves every other token where it was.
pub proof fn lemma_transfer_moves_token(
    s: TokenState,
    from: Address,
    to: Address,
    token_id: u64,
    other: u64,
    a: Address,
)
    requires
        tok_transfer(s, from, to, token_id) is Ok,
    ensures
        may_move(s, from, token_id),
        balance_of(tok_transfer(s, from, to, token_id)->Ok_0.0, to, token_id) == 1,
        from != to ==> balance_of(tok_transfer(s, from, to, token_id)->Ok_0.0, from, token_id)
            == 0,
        !tok_transfer(s, from, to, token_id)->Ok_0.0.approvals.contains_key(token_id),
        other != token_id ==> balance_of(tok_transfer(s, from, to, token_id)->Ok_0.0, a, other)
            == balance_of(s, a, other),
{
}

/// Acting on behalf of `from` moves or burns only a token that `from` holds, and
/// only for a spender `from` authorised; anything else leaves the state as it was.
pub proof fn lemma_spend_needs_holder(
    s: TokenState,
    spender: Address,
    from: Address,
    to: Address,
    token_id: u64,
)
    ensures
        tok_transfer_from(s, spender, from, to, token_id) is Ok ==> holds(s, from, token_id)
            && may_spend(s, spender, from, token_id),
        tok_burn_from(s, spender, from, token_id) is Ok ==> holds(s, from, token_id) && may_spend(
            s,
            spender,
            from,
            token_id,
        ),
        may_spend(s, spender, from, token_id) && !holds(s, from, token_id) ==> tok_transfer_from(
            s,
            spender,
            from,
            to,
            token_id,
        ) == Err::<(TokenState, Address), TokenError>(TokenError::NotTokenOwner),
{
}

/// Consecutive wraps mint consecutive token ids, each to its wrapper.
pub proof fn lemma_wrap_ids_increment(
    s: TokenState,
    u1: Address,
    v1: Address,
    u2: Address,
    v2: Address,
    this: Address,
)
    requires
        tok_wrap(s, u1, v1, this) is Ok,
        tok_wrap(tok_wrap(s, u1, v1, this)->Ok_0.0, u2, v2, this) is Ok,
    ensures
        ({
            let (s1, w1) = tok_wrap(s, u1, v1, this)->Ok_0;
            let (s2, w2) = tok_wrap(s1, u2, v2, this)->Ok_0;
            &&& w2.token_id == w1.token_id + 1
            &&& balance_of(s1, u1, w1.token_id) == 1
            &&& balance_of(s2, u2, w2.token_id) == 1
        }),
{
}

/// Unwrapping burns the token: afterwards nobody holds it.
pub proof fn lemma_unwrap_burns(s: TokenState, token_id: u64, this: Address, a: Address)
    requires
        tok_unwrap(s, token_id, this) is Ok,
    ensures
        balance_of(tok_unwrap(s, token_id, this)->Ok_0.0, a, token_id) == 0,
        tok_unwrap(tok_unwrap(s, token_id, this)->Ok_0.0, token_id, this) == Err::<
            (TokenState, Unwrapped),
            TokenError,
        >(TokenError::TokenNotFound),
{
}

/// Wrapping hands the position's withdrawal right from the depositor to the token
/// contract; after a transfer, unwrapping hands it from the token contract to the
/// new holder, at the same tier vault.
pub proof fn lemma_wrap_transfer_unwrap(
    s: TokenState,
    user: Address,
    tier_vault: Address,
    to: Address,
    this: Address,
)
    requires
        tok_wrap(s, user, tier_vault, this) is Ok,
    ensures
        ({
            let (s1, w) = tok_wrap(s, user, tier_vault, this)->Ok_0;
            let s2 = tok_transfer(s1, user, to, w.token_id)->Ok_0.0;
            &&& w.call == (WithdrawalAuthCall { tier_vault, current_auth: user, new_auth: this })
            &&& tok_transfer(s1, user, to, w.token_id) is Ok
            &&& tok_unwrap(s2, w.token_id, this) is Ok
            &&& tok_unwrap(s2, w.token_id, this)->Ok_0.1 == (Unwrapped {
                signer: to,
                call: WithdrawalAuthCall { tier_vault, current_auth: this, new_auth: to },
            })
        }),
{
}

/// Burning on behalf of a holder: `spender` may burn `token_id` for `from`
/// exactly when `from` holds it and `spender` is either an operator that `from`
/// authorised or the spender approved for that token.  The refusal says which of
/// the two is missing (the authorisation first).  A burn takes the token from its
/// holder and clears its approval, leaves every other token and every operator
/// as they were, and must be authorised by `spender`.
pub proof fn lemma_burn_from_by_operator_or_approval(
    s: TokenState,
    spender: Address,
    from: Address,
    token_id: u64,
    other: u64,
)
    ensures
        ({
            let authorised = (s.operators.contains_key((from, spender)) && s.operators[(
                from,
                spender,
            )]) || (s.approvals.contains_key(token_id) && s.approvals[token_id] == spender);
            let held = s.owners.contains_key(token_id) && s.owners[token_id] == from;
            &&& (tok_burn_from(s, spender, from, token_id) is Ok <==> authorised && held)
            &&& (!authorised ==> tok_burn_from(s, spender, from, token_id) == Err::<
                (TokenState, Address),
                TokenError,
            >(TokenError::SpenderNotApproved))
            &&& (authorised && !held ==> tok_burn_from(s, spender, from, token_id) == Err::<
                (TokenState, Address),
                TokenError,
            >(TokenError::NotTokenOwner))
        }),
        tok_burn_from(s, spender, from, token_id) matches Ok((s2, signer)) ==> {
            &&& signer == spender
            &&& !s2.owners.contains_key(token_id)
            &&& !s2.approvals.contains_key(token_id)
            &&& s2.operators == s.operators
            &&& s2.tier_vaults == s.tier_vaults
            &&& (other != token_id ==> s2.owners.contains_key(other) == s.owners.contains_key(
                other,
            ) && s2.owners[other] == s.owners[other])
        },
{
}

/// Moving on behalf of a holder: `spender` may move `token_id` from `from` to
/// `to` exactly when `from` holds it and `spender` is either an operator that
/// `from` authorised or the spender approved for that token.  The move makes `to`
/// the holder, clears the approval, leaves every other token and every operator
/// as they were, and must be authorised by `spender`.
pub proof fn lemma_transfer_from_by_operator_or_approval(
    s: TokenState,
    spender: Address,
    from: Address,
    to: Address,
    token_id: u64,
    other: u64,
)
    ensures
        ({
            let authorised = (s.operators.contains_key((from, spender)) && s.operators[(
                from,
                spender,
            )]) || (s.approvals.contains_key(token_id) && s.approvals[token_id] == spender);
            let held = s.owners.contains_key(token_id) && s.owners[token_id] == from;
            &&& (tok_transfer_from(s, spender, from, to, token_id) is Ok <==> authorised && held)
            &&& (!authorised ==> tok_transfer_from(s, spender, from, to, token_id) == Err::<
                (TokenState, Address),
                TokenError,
            >(TokenError::SpenderNotApproved))
            &&& (authorised && !held ==> tok_transfer_from(s, spender, from, to, token_id)
                == Err::<(TokenState, Address), TokenError>(TokenError::NotTokenOwner))
        }),
        tok_transfer_from(s, spender, from, to, token_id) matches Ok((s2, signer)) ==> {
            &&& signer == spender
            &&& s2.owners.contains_key(token_id)
            &&& s2.owners[token_id] == to
            &&& !s2.approvals.contains_key(token_id)
            &&& s2.operators == s.operators
            &&& s2.tier_vaults == s.tier_vaults
            &&& (other != token_id ==> s2.owners.contains_key(other) == s.owners.contains_key(
                other,
            ) && s2.owners[other] == s.owners[other])
        },
{
}

/// Once `owner` has made `operator` its operator, the operator may burn and move
/// any token that `owner` holds, with no approval for that token; once it has
/// revoked that, the operator may do so only with such an approval.
pub proof fn lemma_operator_acts_for_owner(
    s: TokenState,
    owner: Address,
    operator: Address,
    to: Address,
    token_id: u64,
    authorized: bool,
)
    requires
        s.owners.contains_key(token_id),
        s.owners[token_id] == owner,
    ensures
        ({
            let s1 = TokenState { operators: s.operators.insert((owner, operator), authorized), ..s };
            &&& authorized ==> tok_burn_from(s1, operator, owner, token_id) == Ok::<
                (TokenState, Address),
                TokenError,
            >((TokenState {
                owners: s.owners.remove(token_id),
                approvals: s.approvals.remove(token_id),
                ..s1
            }, operator))
            &&& authorized ==> tok_transfer_from(s1, operator, owner, to, token_id) is Ok
            &&& !authorized ==> (tok_burn_from(s1, operator, owner, token_id) is Ok
                <==> s.approvals.contains_key(token_id) && s.approvals[token_id] == operator)
        }),
{
}

} // verus!
