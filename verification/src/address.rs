use vstd::prelude::*;

verus! {

/// Which kind of ledger entity an address names.
#[derive(Clone, Copy, PartialEq, Eq, Structural, Debug, Hash)]
pub enum AddressKind {
    /// An account, named by its ed25519 public key.
    Account,
    /// A contract, named by its contract hash.
    Contract,
}

/// A ledger address: its kind and its 32-byte payload, held as two
/// big-endian halves.  Two addresses are the same address exactly when
/// their kinds and payloads agree.
#[derive(Clone, Copy, PartialEq, Eq, Structural, Debug, Hash)]
pub struct Address {
    pub kind: AddressKind,
    pub hi: u128,
    pub lo: u128,
}

/// The position of an address kind in the ledger's order: accounts first.
pub open spec fn kind_rank(k: AddressKind) -> int {
    match k {
        AddressKind::Account => 0,
        AddressKind::Contract => 1,
    }
}

/// The ledger's order on addresses: by kind, then by payload bytes.
pub open spec fn addr_lt(a: Address, b: Address) -> bool {
    kind_rank(a.kind) < kind_rank(b.kind) || (kind_rank(a.kind) == kind_rank(b.kind) && (a.hi
        < b.hi || (a.hi == b.hi && a.lo < b.lo)))
}

impl Address {
    /// The account address with the given public-key payload.
    pub fn account(hi: u128, lo: u128) -> (a: Address)
        ensures
            a == (Address { kind: AddressKind::Account, hi, lo }),
    {
        Address { kind: AddressKind::Account, hi, lo }
    }

    /// The contract address with the given contract-hash payload.
    pub fn contract(hi: u128, lo: u128) -> (a: Address)
        ensures
            a == (Address { kind: AddressKind::Contract, hi, lo }),
    {
        Address { kind: AddressKind::Contract, hi, lo }
    }

    /// Whether `self` comes before `other` in the ledger's order of addresses.
    pub fn less(&self, other: &Address) -> (b: bool)
        ensures
            b == addr_lt(*self, *other),
    {
        let a: u8 = match self.kind {
            AddressKind::Account => 0,
            AddressKind::Contract => 1,
        };
        let b: u8 = match other.kind {
            AddressKind::Account => 0,
            AddressKind::Contract => 1,
        };
        a < b || (a == b && (self.hi < other.hi || (self.hi == other.hi && self.lo < other.lo)))
    }

    /// Whether two addresses name the same entity.
    pub fn same(&self, other: &Address) -> (b: bool)
        ensures
            b == (*self == *other),
    {
        self.kind == other.kind && self.hi == other.hi && self.lo == other.lo
    }
}

} // verus!
