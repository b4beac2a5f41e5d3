//! The three-month tier vault: deposits mint shares at a fixed multiplier,
//! positions are locked for a fixed number of ledgers, and early exits pay a
//! fee on the amount taken out.

use vstd::prelude::*;
use crate::address::Address;
use crate::arith::{fits_i128, fits_u32, trunc_div, checked_div_i128};
use crate::effects::TokenTransfer;
use crate::keyed_map::KeyedMap;

verus! {

/// Scale of fixed-point factors: `FP_MULTIPLIER` stands for 1.0.
pub const FP_MULTIPLIER: i128 = 10_000_000;

/// Ledgers a deposit stays locked (about three months).
pub const LOCK_DURATION: u32 = 777_600;

/// Smallest accepted deposit.
pub const MIN_DEPOSIT: i128 = 500_000_000;

/// Shares minted per unit deposited, in fixed point (1.05).
pub const DEPOSIT_MULTIPLIER_FP: i128 = 10_500_000;

/// Fee charged on an early exit, in fixed point (0.5 %).
pub const EXIT_FEE_FP: i128 = 50_000;

/// Why a vault operation was refused.
#[derive(Clone, Copy, PartialEq, Eq, Structural, Debug)]
pub enum VaultError {
    BelowMinDeposit,
    LockNotExpired,
    AmountExceedsBalance,
    /// The vault's token or strategy address has not been set.
    NotInitialized,
    /// An intermediate value does not fit its integer type.
    ArithmeticOverflow,
}

/// `a * b_fp / FP_MULTIPLIER`, rounded toward zero.
pub open spec fn spec_mul_fp(a: int, b_fp: int) -> int {
    trunc_div(a * b_fp, FP_MULTIPLIER as int)
}

/// Multiplies `a` by the fixed-point factor `b_fp`.
pub fn mul_fp(a: i128, b_fp: i128) -> (r: i128)
    requires
        fits_i128(a * b_fp),
    ensures
        r == spec_mul_fp(a as int, b_fp as int),
{
    (a * b_fp) / FP_MULTIPLIER
}

fn checked_mul_fp(a: i128, b_fp: i128) -> (r: Option<i128>)
    ensures
        r == (if fits_i128(a * b_fp) {
            Some(spec_mul_fp(a as int, b_fp as int) as i128)
        } else {
            None::<i128>
        }),
{
    match a.checked_mul(b_fp) {
        Some(p) => Some(p / FP_MULTIPLIER),
        None => None,
    }
}

/// A depositor's position.
#[derive(Clone, Copy, PartialEq, Eq, Structural, Debug)]
pub struct Account {
    pub balance: i128,
    pub shares: i128,
    pub lock_until: u32,
    pub checkpoint: u32,
}

/// The position of someone who holds none.
pub open spec fn empty_account() -> Account {
    Account { balance: 0, shares: 0, lock_until: 0, checkpoint: 0 }
}

/// The position of `user` in `accounts`, empty where there is none.
pub open spec fn account_in(accounts: Map<Address, Account>, user: Address) -> Account {
    if accounts.contains_key(user) {
        accounts[user]
    } else {
        empty_account()
    }
}

/// The shares of an entry, for summing.
pub open spec fn account_shares() -> spec_fn(Address, Account) -> int {
    |k: Address, a: Account| a.shares as int
}

/// A deposit: `signer` must authorise it, and `transfer` moves the funds.
#[derive(Clone, Copy, PartialEq, Eq, Structural, Debug)]
pub struct DepositOutcome {
    pub signer: Address,
    pub transfer: TokenTransfer,
}

/// A withdrawal or early exit: `signer` must authorise it, and `amount` is paid out.
#[derive(Clone, Copy, PartialEq, Eq, Structural, Debug)]
pub struct Payout {
    pub signer: Address,
    pub amount: i128,
}

/// The vault's state as a mathematical value.
pub struct L3State {
    pub admin: Option<Address>,
    pub strategy: Option<Address>,
    pub usdc: Option<Address>,
    pub total_shares: int,
    pub accounts: Map<Address, Account>,
}

/// What a deposit of `amount` by `user` at ledger `ledger` does.
pub open spec fn l3_deposit(s: L3State, user: Address, amount: int, ledger: int) -> Result<
    (L3State, DepositOutcome),
    VaultError,
> {
    if amount < MIN_DEPOSIT {
        Err(VaultError::BelowMinDeposit)
    } else if !fits_i128(amount * DEPOSIT_MULTIPLIER_FP) {
        Err(VaultError::ArithmeticOverflow)
    } else if s.usdc is None || s.strategy is None {
        Err(VaultError::NotInitialized)
    } else {
        let a = account_in(s.accounts, user);
        let minted = spec_mul_fp(amount, DEPOSIT_MULTIPLIER_FP as int);
        if !fits_i128(a.balance + amount) || !fits_i128(a.shares + minted) || !fits_i128(
            s.total_shares + minted,
        ) || !fits_u32(ledger + LOCK_DURATION) || !fits_u32(ledger + 1) {
            Err(VaultError::ArithmeticOverflow)
        } else {
            Ok(
                (
                    L3State {
                        admin: s.admin,
                        strategy: s.strategy,
                        usdc: s.usdc,
                        total_shares: s.total_shares + minted,
                        accounts: s.accounts.insert(
                            user,
                            Account {
                                balance: (a.balance + amount) as i128,
                                shares: (a.shares + minted) as i128,
                                lock_until: (ledger + LOCK_DURATION) as u32,
                                checkpoint: (ledger + 1) as u32,
                            },
                        ),
                    },
                    DepositOutcome {
                        signer: user,
                        transfer: TokenTransfer {
                            token: s.usdc.unwrap(),
                            from: user,
                            to: s.strategy.unwrap(),
                            amount: amount as i128,
                        },
                    },
                ),
            )
        }
    }
}

/// Takes `amount` out of `user`'s position `a`: all of it closes the position and
/// burns all its shares; less burns `shares * amount / balance` shares (rounded
/// toward zero) and keeps the lock.
pub open spec fn l3_settle(s: L3State, user: Address, a: Account, amount: int) -> Result<
    L3State,
    VaultError,
> {
    if amount >= a.balance {
        if !fits_i128(s.total_shares - a.shares) {
            Err(VaultError::ArithmeticOverflow)
        } else {
            Ok(
                L3State {
                    admin: s.admin,
                    strategy: s.strategy,
                    usdc: s.usdc,
                    total_shares: s.total_shares - a.shares,
                    accounts: s.accounts.remove(user),
                },
            )
        }
    } else {
        let p = a.shares * amount;
        if !fits_i128(p) || a.balance == 0 || !fits_i128(trunc_div(p, a.balance as int)) {
            Err(VaultError::ArithmeticOverflow)
        } else {
            let burn = trunc_div(p, a.balance as int);
            if !fits_i128(a.balance - amount) || !fits_i128(a.shares - burn) || !fits_i128(
                s.total_shares - burn,
            ) {
                Err(VaultError::ArithmeticOverflow)
            } else {
                Ok(
                    L3State {
                        admin: s.admin,
                        strategy: s.strategy,
                        usdc: s.usdc,
                        total_shares: s.total_shares - burn,
                        accounts: s.accounts.insert(
                            user,
                            Account {
                                balance: (a.balance - amount) as i128,
                                shares: (a.shares - burn) as i128,
                                lock_until: a.lock_until,
                                checkpoint: a.checkpoint,
                            },
                        ),
                    },
                )
            }
        }
    }
}

/// What a withdrawal of `amount` by `user` at ledger `ledger` does.
pub open spec fn l3_withdraw(s: L3State, user: Address, amount: int, ledger: int) -> Result<
    (L3State, Payout),
    VaultError,
> {
    let a = account_in(s.accounts, user);
    if ledger < a.lock_until {
        Err(VaultError::LockNotExpired)
    } else if amount > a.balance {
        Err(VaultError::AmountExceedsBalance)
    } else {
        match l3_settle(s, user, a, amount) {
            Ok(s2) => Ok((s2, Payout { signer: user, amount: amount as i128 })),
            Err(e) => Err(e),
        }
    }
}

/// The fee on an early exit of `amount`.
pub open spec fn exit_fee(amount: int) -> int {
    spec_mul_fp(amount, EXIT_FEE_FP as int)
}

/// What an early exit of `amount` by `user` does.
pub open spec fn l3_early_exit(s: L3State, user: Address, amount: int) -> Result<
    (L3State, Payout),
    VaultError,
> {
    let a = account_in(s.accounts, user);
    if amount > a.balance {
        Err(VaultError::AmountExceedsBalance)
    } else if !fits_i128(amount * EXIT_FEE_FP) {
        Err(VaultError::ArithmeticOverflow)
    } else if !fits_i128(amount - exit_fee(amount)) {
        Err(VaultError::ArithmeticOverflow)
    } else {
        match l3_settle(s, user, a, amount) {
            Ok(s2) => Ok((s2, Payout { signer: user, amount: (amount - exit_fee(amount)) as i128 })),
            Err(e) => Err(e),
        }
    }
}

/// The vault's storage.
pub struct VaultL3 {
    pub admin: Option<Address>,
    pub strategy: Option<Address>,
    pub usdc: Option<Address>,
    pub total_shares: i128,
    pub accounts: KeyedMap<Address, Account>,
}

impl View for VaultL3 {
    type V = L3State;

    open spec fn view(&self) -> L3State {
        L3State {
            admin: self.admin,
            strategy: self.strategy,
            usdc: self.usdc,
            total_shares: self.total_shares as int,
            accounts: self.accounts@,
        }
    }
}

impl VaultL3 {
    pub open spec fn wf(&self) -> bool {
        self.accounts.wf()
    }

    /// The sum of the shares of all positions.
    pub open spec fn shares_sum(&self) -> int {
        self.accounts.sum_by(account_shares())
    }

    /// Storage before initialisation.
    pub fn new() -> (v: Self)
        ensures
            v.wf(),
            v.admin is None && v.strategy is None && v.usdc is None,
            v.total_shares == 0,
            v.accounts@ == Map::<Address, Account>::empty(),
            v.shares_sum() == 0,
    {
        VaultL3 { admin: None, strategy: None, usdc: None, total_shares: 0, accounts: KeyedMap::new() }
    }

    fn account(&self, user: &Address) -> (a: Account)
        requires
            self.wf(),
        ensures
            a == account_in(self.accounts@, *user),
    {
        match self.accounts.get(user) {
            Some(a) => *a,
            None => Account { balance: 0, shares: 0, lock_until: 0, checkpoint: 0 },
        }
    }

    /// Records the admin, strategy and token; resets the share total.  `admin`
    /// must authorise it.  Positions already recorded stay.
    pub fn initialize(&mut self, admin: Address, strategy: Address, usdc: Address) -> (signer: Address)
        requires
            old(self).wf(),
        ensures
            final(self).wf(),
            signer == admin,
            final(self)@ == (L3State {
                admin: Some(admin),
                strategy: Some(strategy),
                usdc: Some(usdc),
                total_shares: 0,
                accounts: old(self)@.accounts,
            }),
            final(self).shares_sum() == old(self).shares_sum(),
    {
        self.admin = Some(admin);
        self.strategy = Some(strategy);
        self.usdc = Some(usdc);
        self.total_shares = 0;
        admin
    }

    /// Deposits `amount` for `user` at ledger `ledger`.
    pub fn deposit(&mut self, user: Address, amount: i128, ledger: u32) -> (r: Result<
        DepositOutcome,
        VaultError,
    >)
        requires
            old(self).wf(),
        ensures
            final(self).wf(),
            match l3_deposit(old(self)@, user, amount as int, ledger as int) {
                Ok((s, out)) => r == Ok::<DepositOutcome, VaultError>(out) && final(self)@ == s,
                Err(e) => r == Err::<DepositOutcome, VaultError>(e) && *final(self) == *old(self),
            },
            r is Ok ==> final(self).total_shares - final(self).shares_sum() == old(self).total_shares
                - old(self).shares_sum(),
    {
        if amount < MIN_DEPOSIT {
            return Err(VaultError::BelowMinDeposit);
        }
        let minted = match checked_mul_fp(amount, DEPOSIT_MULTIPLIER_FP) {
            Some(m) => m,
            None => return Err(VaultError::ArithmeticOverflow),
        };
        let usdc = match self.usdc {
            Some(u) => u,
            None => return Err(VaultError::NotInitialized),
        };
        let strategy = match self.strategy {
            Some(s) => s,
            None => return Err(VaultError::NotInitialized),
        };
        let a = self.account(&user);
        let balance = match a.balance.checked_add(amount) {
            Some(b) => b,
            None => return Err(VaultError::ArithmeticOverflow),
        };
        let shares = match a.shares.checked_add(minted) {
            Some(b) => b,
            None => return Err(VaultError::ArithmeticOverflow),
        };
        let total = match self.total_shares.checked_add(minted) {
            Some(b) => b,
            None => return Err(VaultError::ArithmeticOverflow),
        };
        let lock_until = match ledger.checked_add(LOCK_DURATION) {
            Some(b) => b,
            None => return Err(VaultError::ArithmeticOverflow),
        };
        let checkpoint = match ledger.checked_add(1) {
            Some(b) => b,
            None => return Err(VaultError::ArithmeticOverflow),
        };
        self.accounts.insert(user, Account { balance, shares, lock_until, checkpoint });
        self.total_shares = total;
        Ok(
            DepositOutcome {
                signer: user,
                transfer: TokenTransfer { token: usdc, from: user, to: strategy, amount },
            },
        )
    }

    /// Applies `l3_settle` to `user`'s position `a`.
    fn settle(&mut self, user: Address, a: Account, amount: i128) -> (r: Result<(), VaultError>)
        requires
            old(self).wf(),
            a == account_in(old(self).accounts@, user),
        ensures
            final(self).wf(),
            match l3_settle(old(self)@, user, a, amount as int) {
                Ok(s) => r is Ok && final(self)@ == s,
                Err(e) => r == Err::<(), VaultError>(e) && *final(self) == *old(self),
            },
            r is Ok ==> final(self).total_shares - final(self).shares_sum() == old(self).total_shares
                - old(self).shares_sum(),
    {
        if amount >= a.balance {
            let total = match self.total_shares.checked_sub(a.shares) {
                Some(t) => t,
                None => return Err(VaultError::ArithmeticOverflow),
            };
            self.accounts.remove(&user);
            self.total_shares = total;
            return Ok(());
        }
        let p = match a.shares.checked_mul(amount) {
            Some(p) => p,
            None => return Err(VaultError::ArithmeticOverflow),
        };
        let burn = match checked_div_i128(p, a.balance) {
            Some(q) => q,
            None => return Err(VaultError::ArithmeticOverflow),
        };
        let balance = match a.balance.checked_sub(amount) {
            Some(b) => b,
            None => return Err(VaultError::ArithmeticOverflow),
        };
        let shares = match a.shares.checked_sub(burn) {
            Some(b) => b,
            None => return Err(VaultError::ArithmeticOverflow),
        };
        let total = match self.total_shares.checked_sub(burn) {
            Some(b) => b,
            None => return Err(VaultError::ArithmeticOverflow),
        };
        self.accounts.insert(
            user,
            Account { balance, shares, lock_until: a.lock_until, checkpoint: a.checkpoint },
        );
        self.total_shares = total;
        Ok(())
    }

    /// Withdraws `amount` from `user`'s matured position at ledger `ledger`.
    pub fn withdraw(&mut self, user: Address, amount: i128, ledger: u32) -> (r: Result<
        Payout,
        VaultError,
    >)
        requires
            old(self).wf(),
        ensures
            final(self).wf(),
            match l3_withdraw(old(self)@, user, amount as int, ledger as int) {
                Ok((s, out)) => r == Ok::<Payout, VaultError>(out) && final(self)@ == s,
                Err(e) => r == Err::<Payout, VaultError>(e) && *final(self) == *old(self),
            },
            r is Ok ==> final(self).total_shares - final(self).shares_sum() == old(self).total_shares
                - old(self).shares_sum(),
    {
        let a = self.account(&user);
        if ledger < a.lock_until {
            return Err(VaultError::LockNotExpired);
        }
        if amount > a.balance {
            return Err(VaultError::AmountExceedsBalance);
        }
        match self.settle(user, a, amount) {
            Ok(()) => Ok(Payout { signer: user, amount }),
            Err(e) => Err(e),
        }
    }

    /// Takes `amount` out of `user`'s position before maturity, less the exit fee.
    pub fn early_exit(&mut self, user: Address, amount: i128) -> (r: Result<Payout, VaultError>)
        requires
            old(self).wf(),
        ensures
            final(self).wf(),
            match l3_early_exit(old(self)@, user, amount as int) {
                Ok((s, out)) => r == Ok::<Payout, VaultError>(out) && final(self)@ == s,
                Err(e) => r == Err::<Payout, VaultError>(e) && *final(self) == *old(self),
            },
            r is Ok ==> final(self).total_shares - final(self).shares_sum() == old(self).total_shares
                - old(self).shares_sum(),
    {
        let a = self.account(&user);
        if amount > a.balance {
            return Err(VaultError::AmountExceedsBalance);
        }
        let fee = match checked_mul_fp(amount, EXIT_FEE_FP) {
            Some(f) => f,
            None => return Err(VaultError::ArithmeticOverflow),
        };
        let net = match amount.checked_sub(fee) {
            Some(n) => n,
            None => return Err(VaultError::ArithmeticOverflow),
        };
        match self.settle(user, a, amount) {
            Ok(()) => Ok(Payout { signer: user, amount: net }),
            Err(e) => Err(e),
        }
    }

    /// The ledger until which `user`'s position is locked (0 when there is none).
    pub fn lock_until(&self, user: Address) -> (l: u32)
        requires
            self.wf(),
        ensures
            l == account_in(self@.accounts, user).lock_until,
    {
        self.account(&user).lock_until
    }

    /// `user`'s deposited balance (0 when there is no position).
    pub fn balance(&self, user: Address) -> (b: i128)
        requires
            self.wf(),
        ensures
            b == account_in(self@.accounts, user).balance,
    {
        self.account(&user).balance
    }

    /// `user`'s shares (0 when there is no position).
    pub fn shares(&self, user: Address) -> (s: i128)
        requires
            self.wf(),
        ensures
            s == account_in(self@.accounts, user).shares,
    {
        self.account(&user).shares
    }

    /// The recorded total of shares.
    pub fn total_shares(&self) -> (t: i128)
        ensures
            t == self.total_shares,
    {
        self.total_shares
    }
}


/// A deposit into an empty position followed at once by an early exit of the same
/// amount pays back the amount less the exit fee and leaves the positions and the
/// share total as they were.
pub proof fn lemma_deposit_then_early_exit_round_trip(
    s: L3State,
    user: Address,
    amount: int,
    ledger: int,
)
    requires
        fits_i128(s.total_shares),
        !s.accounts.contains_key(user),
        l3_deposit(s, user, amount, ledger) is Ok,
    ensures
        ({
            let s1 = l3_deposit(s, user, amount, ledger)->Ok_0.0;
            &&& l3_early_exit(s1, user, amount) is Ok
            &&& l3_early_exit(s1, user, amount)->Ok_0.0.accounts == s.accounts
            &&& l3_early_exit(s1, user, amount)->Ok_0.0.total_shares == s.total_shares
            &&& l3_early_exit(s1, user, amount)->Ok_0.1.amount == amount - exit_fee(amount)
        }),
{
    let s1 = l3_deposit(s, user, amount, ledger)->Ok_0.0;
    let minted = spec_mul_fp(amount, DEPOSIT_MULTIPLIER_FP as int);
    assert(amount >= MIN_DEPOSIT);
    assert(0 <= amount * EXIT_FEE_FP <= amount * DEPOSIT_MULTIPLIER_FP) by (nonlinear_arith)
        requires
            amount >= 0,
    ;
    assert(0 <= exit_fee(amount) <= amount) by (nonlinear_arith)
        requires
            amount >= 0,
            exit_fee(amount) == (amount * 50_000) / 10_000_000,
    ;
    let a1 = account_in(s1.accounts, user);
    assert(account_in(s.accounts, user) == empty_account());
    assert(a1.balance == amount);
    assert(a1.shares == minted);
    assert(s1.total_shares == s.total_shares + minted);
    assert(amount >= a1.balance);
    assert(fits_i128(s1.total_shares - a1.shares));
    let s2 = l3_settle(s1, user, a1, amount)->Ok_0;
    assert(l3_settle(s1, user, a1, amount) is Ok);
    assert(s2.accounts =~= s.accounts);
}

/// A deposit locks the position: until `LOCK_DURATION` ledgers have passed, a
/// withdrawal of any amount is refused.
pub proof fn lemma_deposit_locks(
    s: L3State,
    user: Address,
    amount: int,
    ledger: int,
    later: int,
    take: int,
)
    requires
        l3_deposit(s, user, amount, ledger) is Ok,
        later < ledger + LOCK_DURATION,
    ensures
        l3_withdraw(l3_deposit(s, user, amount, ledger)->Ok_0.0, user, take, later) == Err::<
            (L3State, Payout),
            VaultError,
        >(VaultError::LockNotExpired),
{
}

/// Once the lock has run out, a deposit into an empty position can be withdrawn
/// in full: the whole amount is paid and the positions and share total are as
/// before the deposit.
pub proof fn lemma_deposit_then_withdraw_after_lock(
    s: L3State,
    user: Address,
    amount: int,
    ledger: int,
    later: int,
)
    requires
        fits_i128(s.total_shares),
        !s.accounts.contains_key(user),
        l3_deposit(s, user, amount, ledger) is Ok,
        later >= ledger + LOCK_DURATION,
    ensures
        ({
            let s1 = l3_deposit(s, user, amount, ledger)->Ok_0.0;
            &&& l3_withdraw(s1, user, amount, later) is Ok
            &&& l3_withdraw(s1, user, amount, later)->Ok_0.0.accounts == s.accounts
            &&& l3_withdraw(s1, user, amount, later)->Ok_0.0.total_shares == s.total_shares
            &&& l3_withdraw(s1, user, amount, later)->Ok_0.1.amount == amount
        }),
{
    let s1 = l3_deposit(s, user, amount, ledger)->Ok_0.0;
    let minted = spec_mul_fp(amount, DEPOSIT_MULTIPLIER_FP as int);
    let a1 = account_in(s1.accounts, user);
    assert(account_in(s.accounts, user) == empty_account());
    assert(a1.balance == amount);
    assert(a1.shares == minted);
    assert(a1.lock_until == ledger + LOCK_DURATION);
    assert(s1.total_shares == s.total_shares + minted);
    assert(l3_settle(s1, user, a1, amount) is Ok);
    let s2 = l3_settle(s1, user, a1, amount)->Ok_0;
    assert(s2.accounts =~= s.accounts);
}

/// The early-exit fee on a non-negative amount is 0.5 % of it, rounded down.
pub proof fn lemma_exit_fee_is_half_percent(amount: int)
    requires
        amount >= 0,
    ensures
        exit_fee(amount) == amount / 200,
{
    assert((amount * 50_000) / 10_000_000 == amount / 200) by (nonlinear_arith)
        requires
            amount >= 0,
    {
        vstd::arithmetic::div_mod::lemma_div_multiples_vanish(amount, 200);
        assert(amount * 50_000 == 50_000 * amount);
    };
}

/// The shares a deposit mints are 1.05 times its amount, rounded down.
pub proof fn lemma_deposit_shares(amount: int)
    requires
        amount >= 0,
    ensures
        spec_mul_fp(amount, DEPOSIT_MULTIPLIER_FP as int) == (amount * 21) / 20,
{
    assert((amount * 10_500_000) / 10_000_000 == (amount * 21) / 20) by (nonlinear_arith)
        requires
            amount >= 0,
    {
        vstd::arithmetic::div_mod::lemma_div_multiples_vanish(amount * 21, 500_000);
        assert(amount * 10_500_000 == 500_000 * (amount * 21));
    };
}


/// A deposit, withdrawal or early exit by `user` leaves every other position as it was.
pub proof fn lemma_other_positions_untouched(
    s: L3State,
    user: Address,
    other: Address,
    amount: int,
    ledger: int,
)
    requires
        other != user,
    ensures
        l3_deposit(s, user, amount, ledger) matches Ok((s2, _)) ==> account_in(s2.accounts, other)
            == account_in(s.accounts, other),
        l3_withdraw(s, user, amount, ledger) matches Ok((s2, _)) ==> account_in(s2.accounts, other)
            == account_in(s.accounts, other),
        l3_early_exit(s, user, amount) matches Ok((s2, _)) ==> account_in(s2.accounts, other)
            == account_in(s.accounts, other),
{
}

/// A deposit adds to the position it goes into, empty or not: it is accepted
/// exactly when the amount reaches the minimum, the vault is set up and the new
/// figures fit, and then the position's balance grows by the amount, its shares
/// and the share total grow by 1.05 times the amount (rounded down), the position
/// is locked for `LOCK_DURATION` ledgers from now, and the amount goes from the
/// depositor to the strategy.
pub proof fn lemma_deposit_adds_to_position(s: L3State, user: Address, amount: int, ledger: int)
    ensures
        ({
            let a = account_in(s.accounts, user);
            let minted = (amount * 21) / 20;
            l3_deposit(s, user, amount, ledger) is Ok <==> {
                &&& amount >= MIN_DEPOSIT
                &&& s.usdc is Some
                &&& s.strategy is Some
                &&& fits_i128(amount * DEPOSIT_MULTIPLIER_FP)
                &&& fits_i128(a.balance + amount)
                &&& fits_i128(a.shares + minted)
                &&& fits_i128(s.total_shares + minted)
                &&& fits_u32(ledger + LOCK_DURATION)
                &&& fits_u32(ledger + 1)
            }
        }),
        l3_deposit(s, user, amount, ledger) matches Ok((s2, out)) ==> {
            let a = account_in(s.accounts, user);
            let a2 = account_in(s2.accounts, user);
            let minted = (amount * 21) / 20;
            &&& a2.shares == a.shares + minted
            &&& a2.balance == a.balance + amount
            &&& a2.lock_until == ledger + LOCK_DURATION
            &&& s2.total_shares == s.total_shares + minted
            &&& out.signer == user
            &&& out.transfer.from == user
            &&& Some(out.transfer.to) == s.strategy
            &&& Some(out.transfer.token) == s.usdc
            &&& out.transfer.amount == amount
        },
{
    if amount >= MIN_DEPOSIT {
        lemma_deposit_shares(amount);
    }
}

} // verus!
