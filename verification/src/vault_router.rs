//! The router in front of the four tier vaults: it checks a deposit against the
//! tier's minimum, moves the funds to the tier's vault, and forwards
//! withdrawals, exits and cap changes to it.

use vstd::prelude::*;
use crate::address::Address;
use crate::effects::TokenTransfer;

verus! {

/// Smallest deposit into the flexible tier.
pub const MIN_FLEX: i128 = 10_000_000;

/// Smallest deposit into the three-month tier.
pub const MIN_L3: i128 = 500_000_000;

/// Smallest deposit into the six-month tier.
pub const MIN_L6: i128 = 1_000_000_000;

/// Smallest deposit into the twelve-month tier.
pub const MIN_L12: i128 = 2_500_000_000;

/// A savings tier.
#[derive(Clone, Copy, PartialEq, Eq, Structural, Debug)]
pub enum Tier {
    Flex,
    L3,
    L6,
    L12,
}

/// A depositor's position in a tier vault.
#[derive(Clone, Copy, PartialEq, Eq, Structural, Debug)]
pub struct Position {
    pub principal: i128,
    pub shares: i128,
    pub lock_until: u32,
}

/// A tier vault's deposit cap and what is left of it.
#[derive(Clone, Copy, PartialEq, Eq, Structural, Debug)]
pub struct VaultCapacity {
    pub max_tvl: i128,
    pub remaining: i128,
}

/// Why a routing operation was refused.
#[derive(Clone, Copy, PartialEq, Eq, Structural, Debug)]
pub enum RouterError {
    AlreadyInitialized,
    NotInitialized,
    BelowMinDeposit,
}

/// The smallest deposit into `tier`.
pub open spec fn spec_min_deposit(tier: Tier) -> i128 {
    match tier {
        Tier::Flex => MIN_FLEX,
        Tier::L3 => MIN_L3,
        Tier::L6 => MIN_L6,
        Tier::L12 => MIN_L12,
    }
}

/// The smallest deposit into `tier`.
pub fn min_deposit(tier: &Tier) -> (m: i128)
    ensures
        m == spec_min_deposit(*tier),
{
    match tier {
        Tier::Flex => MIN_FLEX,
        Tier::L3 => MIN_L3,
        Tier::L6 => MIN_L6,
        Tier::L12 => MIN_L12,
    }
}

/// Whether positions in `tier` carry a lock (all but the flexible tier do).
pub fn is_locked_tier(tier: &Tier) -> (b: bool)
    ensures
        b == (*tier != Tier::Flex),
{
    match tier {
        Tier::Flex => false,
        _ => true,
    }
}

/// What the router records at initialisation.
#[derive(Clone, Copy, PartialEq, Eq, Structural, Debug)]
pub struct RouterConfig {
    pub admin: Address,
    pub governance: Address,
    pub vault_flex: Address,
    pub vault_l3: Address,
    pub vault_l6: Address,
    pub vault_l12: Address,
    pub usdc_token: Address,
}

impl RouterConfig {
    /// The vault serving `tier`.
    pub open spec fn vault_of(self, tier: Tier) -> Address {
        match tier {
            Tier::Flex => self.vault_flex,
            Tier::L3 => self.vault_l3,
            Tier::L6 => self.vault_l6,
            Tier::L12 => self.vault_l12,
        }
    }
}

/// `deposit(user, amount)` on the tier vault `vault`.
#[derive(Clone, Copy, PartialEq, Eq, Structural, Debug)]
pub struct VaultDepositCall {
    pub vault: Address,
    pub user: Address,
    pub amount: i128,
}

/// A routed deposit: `signer` authorises it, `transfer` moves the funds to the
/// vault, and then `call` records the deposit there.
#[derive(Clone, Copy, PartialEq, Eq, Structural, Debug)]
pub struct DepositRoute {
    pub signer: Address,
    pub transfer: TokenTransfer,
    pub call: VaultDepositCall,
}

/// A routed withdrawal or exit of `user`'s position in `vault`, paid in `token`;
/// `user` authorises it.
#[derive(Clone, Copy, PartialEq, Eq, Structural, Debug)]
pub struct ExitRoute {
    pub vault: Address,
    pub user: Address,
    pub token: Address,
}

/// `set_max_tvl(new_cap)` on the tier vault `vault`; `signer` (governance) authorises it.
#[derive(Clone, Copy, PartialEq, Eq, Structural, Debug)]
pub struct MaxTvlUpdate {
    pub signer: Address,
    pub vault: Address,
    pub new_cap: i128,
}

impl ExitRoute {
    /// The transfer that pays `payout`, as answered by the vault, to the user;
    /// nothing is paid unless it is positive.
    pub fn payout_transfer(&self, payout: i128) -> (t: Option<TokenTransfer>)
        ensures
            payout > 0 ==> t == Some(
                TokenTransfer { token: self.token, from: self.vault, to: self.user, amount: payout },
            ),
            payout <= 0 ==> t is None,
    {
        if payout > 0 {
            Some(TokenTransfer { token: self.token, from: self.vault, to: self.user, amount: payout })
        } else {
            None
        }
    }
}

/// The router's storage.
pub struct VaultRouter {
    pub config: Option<RouterConfig>,
}

impl VaultRouter {
    /// Storage before initialisation.
    pub fn new() -> (r: Self)
        ensures
            r.config is None,
    {
        VaultRouter { config: None }
    }

    /// Records the admin, governance, the four tier vaults and the token.
    /// Refused once they are recorded.
    pub fn initialize(
        &mut self,
        admin: Address,
        governance: Address,
        vault_flex: Address,
        vault_l3: Address,
        vault_l6: Address,
        vault_l12: Address,
        usdc_token: Address,
    ) -> (r: Result<(), RouterError>)
        ensures
            old(self).config is Some ==> r == Err::<(), RouterError>(
                RouterError::AlreadyInitialized,
            ) && *final(self) == *old(self),
            old(self).config is None ==> r is Ok && final(self).config == Some(
                RouterConfig {
                    admin,
                    governance,
                    vault_flex,
                    vault_l3,
                    vault_l6,
                    vault_l12,
                    usdc_token,
                },
            ),
    {
        if self.config.is_some() {
            return Err(RouterError::AlreadyInitialized);
        }
        self.config = Some(
            RouterConfig { admin, governance, vault_flex, vault_l3, vault_l6, vault_l12, usdc_token },
        );
        Ok(())
    }

    fn configured(&self) -> (r: Result<RouterConfig, RouterError>)
        ensures
            match self.config {
                Some(c) => r == Ok::<RouterConfig, RouterError>(c),
                None => r == Err::<RouterConfig, RouterError>(RouterError::NotInitialized),
            },
    {
        match self.config {
            Some(c) => Ok(c),
            None => Err(RouterError::NotInitialized),
        }
    }

    /// Routes `user`'s deposit of `amount` into `tier`: below the tier's minimum
    /// it is refused; otherwise the funds go to the tier's vault.
    pub fn deposit(&self, user: Address, tier: Tier, amount: i128) -> (r: Result<
        DepositRoute,
        RouterError,
    >)
        ensures
            amount < spec_min_deposit(tier) ==> r == Err::<DepositRoute, RouterError>(
                RouterError::BelowMinDeposit,
            ),
            amount >= spec_min_deposit(tier) ==> match self.config {
                None => r == Err::<DepositRoute, RouterError>(RouterError::NotInitialized),
                Some(c) => r == Ok::<DepositRoute, RouterError>(
                    DepositRoute {
                        signer: user,
                        transfer: TokenTransfer {
                            token: c.usdc_token,
                            from: user,
                            to: c.vault_of(tier),
                            amount,
                        },
                        call: VaultDepositCall { vault: c.vault_of(tier), user, amount },
                    },
                ),
            },
    {
        let min_amt = min_deposit(&tier);
        if amount < min_amt {
            return Err(RouterError::BelowMinDeposit);
        }
        let c = self.configured()?;
        let vault = vault_addr(&c, &tier);
        Ok(
            DepositRoute {
                signer: user,
                transfer: TokenTransfer { token: c.usdc_token, from: user, to: vault, amount },
                call: VaultDepositCall { vault, user, amount },
            },
        )
    }

    /// Routes `user`'s withdrawal from `tier`'s vault.
    pub fn withdraw(&self, user: Address, tier: Tier) -> (r: Result<ExitRoute, RouterError>)
        ensures
            self.config is None ==> r == Err::<ExitRoute, RouterError>(RouterError::NotInitialized),
            self.config matches Some(c) ==> r == Ok::<ExitRoute, RouterError>(
                ExitRoute { vault: c.vault_of(tier), user, token: c.usdc_token },
            ),
    {
        let c = self.configured()?;
        Ok(ExitRoute { vault: vault_addr(&c, &tier), user, token: c.usdc_token })
    }

    /// Routes `user`'s early exit from `tier`'s vault.
    pub fn early_exit(&self, user: Address, tier: Tier) -> (r: Result<ExitRoute, RouterError>)
        ensures
            self.config is None ==> r == Err::<ExitRoute, RouterError>(RouterError::NotInitialized),
            self.config matches Some(c) ==> r == Ok::<ExitRoute, RouterError>(
                ExitRoute { vault: c.vault_of(tier), user, token: c.usdc_token },
            ),
    {
        let c = self.configured()?;
        Ok(ExitRoute { vault: vault_addr(&c, &tier), user, token: c.usdc_token })
    }

    /// Forwards a new deposit cap for `tier`'s vault; governance must authorise it.
    pub fn set_max_tvl(&self, tier: Tier, new_cap: i128) -> (r: Result<MaxTvlUpdate, RouterError>)
        ensures
            self.config is None ==> r == Err::<MaxTvlUpdate, RouterError>(
                RouterError::NotInitialized,
            ),
            self.config matches Some(c) ==> r == Ok::<MaxTvlUpdate, RouterError>(
                MaxTvlUpdate { signer: c.governance, vault: c.vault_of(tier), new_cap },
            ),
    {
        let c = self.configured()?;
        Ok(MaxTvlUpdate { signer: c.governance, vault: vault_addr(&c, &tier), new_cap })
    }

    /// The recorded admin.
    pub fn get_admin(&self) -> (r: Result<Address, RouterError>)
        ensures
            self.config is None ==> r == Err::<Address, RouterError>(RouterError::NotInitialized),
            self.config matches Some(c) ==> r == Ok::<Address, RouterError>(c.admin),
    {
        let c = self.configured()?;
        Ok(c.admin)
    }

    /// The vault serving `tier`.
    pub fn get_vault(&self, tier: Tier) -> (r: Result<Address, RouterError>)
        ensures
            self.config is None ==> r == Err::<Address, RouterError>(RouterError::NotInitialized),
            self.config matches Some(c) ==> r == Ok::<Address, RouterError>(c.vault_of(tier)),
    {
        let c = self.configured()?;
        Ok(vault_addr(&c, &tier))
    }
}

/// The vault serving `tier` under `config`.
pub fn vault_addr(config: &RouterConfig, tier: &Tier) -> (v: Address)
    ensures
        v == config.vault_of(*tier),
{
    match tier {
        Tier::Flex => config.vault_flex,
        Tier::L3 => config.vault_l3,
        Tier::L6 => config.vault_l6,
        Tier::L12 => config.vault_l12,
    }
}

/// The minimums grow with the lock: a longer tier never accepts a smaller deposit.
pub proof fn lemma_minimums_increase()
    ensures
        spec_min_deposit(Tier::Flex) < spec_min_deposit(Tier::L3),
        spec_min_deposit(Tier::L3) < spec_min_deposit(Tier::L6),
        spec_min_deposit(Tier::L6) < spec_min_deposit(Tier::L12),
{
}


/// Every tier is served by the vault recorded for it: the flexible tier by
/// `vault_flex`, and the three-, six- and twelve-month tiers by `vault_l3`,
/// `vault_l6` and `vault_l12`.  Where the four recorded vaults are distinct, no
/// two tiers share a vault.
pub proof fn lemma_tier_vaults(c: RouterConfig)
    ensures
        c.vault_of(Tier::Flex) == c.vault_flex,
        c.vault_of(Tier::L3) == c.vault_l3,
        c.vault_of(Tier::L6) == c.vault_l6,
        c.vault_of(Tier::L12) == c.vault_l12,
        ({
            &&& c.vault_flex != c.vault_l3
            &&& c.vault_flex != c.vault_l6
            &&& c.vault_flex != c.vault_l12
            &&& c.vault_l3 != c.vault_l6
            &&& c.vault_l3 != c.vault_l12
            &&& c.vault_l6 != c.vault_l12
        }) ==> forall|t1: Tier, t2: Tier| #[trigger] c.vault_of(t1) == #[trigger] c.vault_of(t2) ==> t1 == t2,
{
}

/// The smallest deposits are those of the tiers: ten, five hundred, a thousand
/// and two and a half thousand million units.
pub proof fn lemma_min_deposit_values()
    ensures
        spec_min_deposit(Tier::Flex) == 10_000_000,
        spec_min_deposit(Tier::L3) == 500_000_000,
        spec_min_deposit(Tier::L6) == 1_000_000_000,
        spec_min_deposit(Tier::L12) == 2_500_000_000,
{
}

} // verus!
