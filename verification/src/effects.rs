use vstd::prelude::*;
use crate::address::Address;

verus! {

/// A movement of `amount` units of the token contract `token` from `from` to `to`.
#[derive(Clone, Copy, PartialEq, Eq, Structural, Debug)]
pub struct TokenTransfer {
    pub token: Address,
    pub from: Address,
    pub to: Address,
    pub amount: i128,
}

} // verus!
