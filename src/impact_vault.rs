use vstd::prelude::*;

use crate::table::Table;
use crate::types::{settle, Address, Auth, LedgerError, Transfer, TransferError};

verus! {

/// Donor deposits, capital deployed to yield venues, and harvested yield.
///
/// Deposits and withdrawals keep the sum of the donor balances equal to the
/// recorded total of deposits.
pub struct ImpactVault {
    account: Address,
    usdc_token: Address,
    admin: Address,
    balances: Table<Address, i128>,
    total: i128,
    deployed: Table<Address, i128>,
    deployed_total: i128,
    yield_pool: i128,
}

impl ImpactVault {
    /// The administrator who moves capital and yield.
    pub closed spec fn spec_admin(&self) -> Address {
        self.admin
    }

    /// The vault's own holding account, which deposits are paid into and
    /// payouts are made from.
    pub closed spec fn spec_account(&self) -> Address {
        self.account
    }

    /// The deposited token.
    pub closed spec fn spec_token(&self) -> Address {
        self.usdc_token
    }

    /// The recorded donor balances.
    pub closed spec fn balances(&self) -> Map<Address, i128> {
        self.balances@
    }

    /// The balance of `donor`, zero for one who never deposited.
    pub open spec fn balance(&self, donor: Address) -> int {
        if self.balances().contains_key(donor) {
            self.balances()[donor] as int
        } else {
            0
        }
    }

    /// The sum of all donor balances.
    pub closed spec fn balance_sum(&self) -> int {
        self.balances.total()
    }

    /// The recorded total of deposits.
    pub closed spec fn total_deposits(&self) -> int {
        self.total as int
    }

    /// Capital deployed, by yield venue.
    pub closed spec fn deployed(&self) -> Map<Address, i128> {
        self.deployed@
    }

    /// The capital deployed to `venue`, zero where none is.
    pub open spec fn deployed_amount(&self, venue: Address) -> int {
        if self.deployed().contains_key(venue) {
            self.deployed()[venue] as int
        } else {
            0
        }
    }

    /// The capital deployed to all venues together.
    pub closed spec fn deployed_total(&self) -> int {
        self.deployed_total as int
    }

    /// Harvested yield that has not been distributed.
    pub closed spec fn yield_pool(&self) -> int {
        self.yield_pool as int
    }

    /// Deposited capital that is not deployed.
    pub open spec fn undeployed(&self) -> int {
        self.total_deposits() - self.deployed_total()
    }

    pub closed spec fn wf(&self) -> bool {
        &&& self.balances.wf()
        &&& self.balances.all_nonneg()
        &&& self.total == self.balances.total()
        &&& self.deployed.wf()
        &&& self.deployed.all_nonneg()
        &&& self.deployed_total == self.deployed.total()
        &&& self.yield_pool >= 0
    }

    /// The transfer a deposit needs, or the error it fails with before any
    /// funds move: the donor pays `amount` into the vault's account.
    pub open spec fn deposit_plan(&self, auth: &Auth, donor: Address, amount: i128) -> Result<
        Transfer,
        LedgerError,
    > {
        if !auth.authorizes(donor) {
            Err(LedgerError::Unauthorized)
        } else if amount < 0 {
            Err(LedgerError::InvalidAmount)
        } else if self.total_deposits() + amount > i128::MAX {
            Err(LedgerError::Overflow)
        } else {
            Ok(Transfer { from: donor, to: self.spec_account(), amount })
        }
    }

    /// The transfer a withdrawal needs, or the error it fails with before any
    /// funds move: the vault's account pays `amount` to the donor.
    pub open spec fn withdraw_plan(&self, auth: &Auth, donor: Address, amount: i128) -> Result<
        Transfer,
        LedgerError,
    > {
        if !auth.authorizes(donor) {
            Err(LedgerError::Unauthorized)
        } else if amount < 0 {
            Err(LedgerError::InvalidAmount)
        } else if amount > self.balance(donor) {
            Err(LedgerError::InsufficientBalance)
        } else {
            Ok(Transfer { from: self.spec_account(), to: donor, amount })
        }
    }

    /// The transfer a deployment needs, or the error it fails with before
    /// any funds move: the vault's account pays `amount` to the venue.
    pub open spec fn deploy_plan(&self, auth: &Auth, defi_protocol: Address, amount: i128) -> Result<
        Transfer,
        LedgerError,
    > {
        if !auth.authorizes(self.spec_admin()) {
            Err(LedgerError::Unauthorized)
        } else if amount < 0 {
            Err(LedgerError::InvalidAmount)
        } else if amount > self.undeployed() {
            Err(LedgerError::InsufficientFunds)
        } else {
            Ok(Transfer { from: self.spec_account(), to: defi_protocol, amount })
        }
    }

    /// The transfer a yield distribution needs, or the error it fails with
    /// before any funds move: the vault's account pays `yield_amount` to the
    /// impact contract.
    pub open spec fn distribute_plan(
        &self,
        auth: &Auth,
        impact_contract: Address,
        yield_amount: i128,
    ) -> Result<Transfer, LedgerError> {
        if !auth.authorizes(self.spec_admin()) {
            Err(LedgerError::Unauthorized)
        } else if yield_amount < 0 {
            Err(LedgerError::InvalidAmount)
        } else if yield_amount > self.yield_pool() {
            Err(LedgerError::InsufficientFunds)
        } else {
            Ok(Transfer { from: self.spec_account(), to: impact_contract, amount: yield_amount })
        }
    }

    /// The transfer `deposit` needs for these arguments, or its error.
    pub fn plan_deposit(&self, auth: &Auth, donor: Address, amount: i128) -> (r: Result<
        Transfer,
        LedgerError,
    >)
        requires
            self.wf(),
        ensures
            r == self.deposit_plan(auth, donor, amount),
    {
        if !auth.has(donor) {
            return Err(LedgerError::Unauthorized);
        }
        if amount < 0 {
            return Err(LedgerError::InvalidAmount);
        }
        if self.total.checked_add(amount).is_none() {
            return Err(LedgerError::Overflow);
        }
        Ok(Transfer { from: donor, to: self.account, amount })
    }

    /// The transfer `withdraw` needs for these arguments, or its error.
    pub fn plan_withdraw(&self, auth: &Auth, donor: Address, amount: i128) -> (r: Result<
        Transfer,
        LedgerError,
    >)
        requires
            self.wf(),
        ensures
            r == self.withdraw_plan(auth, donor, amount),
    {
        if !auth.has(donor) {
            return Err(LedgerError::Unauthorized);
        }
        if amount < 0 {
            return Err(LedgerError::InvalidAmount);
        }
        if amount > self.balances.amount_of(&donor) {
            return Err(LedgerError::InsufficientBalance);
        }
        Ok(Transfer { from: self.account, to: donor, amount })
    }

    /// The transfer `deploy_to_defi` needs for these arguments, or its error.
    pub fn plan_deploy_to_defi(&self, auth: &Auth, defi_protocol: Address, amount: i128) -> (r:
        Result<Transfer, LedgerError>)
        requires
            self.wf(),
        ensures
            r == self.deploy_plan(auth, defi_protocol, amount),
    {
        if !auth.has(self.admin) {
            return Err(LedgerError::Unauthorized);
        }
        if amount < 0 {
            return Err(LedgerError::InvalidAmount);
        }
        proof {
            self.deployed.lemma_amount_le_total(defi_protocol);
            self.balances.lemma_amount_le_total(defi_protocol);
        }
        if amount > self.total - self.deployed_total {
            return Err(LedgerError::InsufficientFunds);
        }
        Ok(Transfer { from: self.account, to: defi_protocol, amount })
    }

    /// The transfer `distribute_yield` needs for these arguments, or its
    /// error.
    pub fn plan_distribute_yield(&self, auth: &Auth, impact_contract: Address, yield_amount: i128) -> (r:
        Result<Transfer, LedgerError>)
        requires
            self.wf(),
        ensures
            r == self.distribute_plan(auth, impact_contract, yield_amount),
    {
        if !auth.has(self.admin) {
            return Err(LedgerError::Unauthorized);
        }
        if yield_amount < 0 {
            return Err(LedgerError::InvalidAmount);
        }
        if yield_amount > self.yield_pool {
            return Err(LedgerError::InsufficientFunds);
        }
        Ok(Transfer { from: self.account, to: impact_contract, amount: yield_amount })
    }

    /// An empty vault for `usdc_token`, holding funds in `account` and
    /// administered by `admin`.
    pub fn initialize(account: Address, usdc_token: Address, admin: Address) -> (r: Self)
        ensures
            r.wf(),
            r.spec_account() == account,
            r.spec_token() == usdc_token,
            r.spec_admin() == admin,
            r.balances() == Map::<Address, i128>::empty(),
            r.total_deposits() == 0,
            r.deployed() == Map::<Address, i128>::empty(),
            r.deployed_total() == 0,
            r.yield_pool() == 0,
    {
        let r = ImpactVault {
            account,
            usdc_token,
            admin,
            balances: Table::new(),
            total: 0,
            deployed: Table::new(),
            deployed_total: 0,
            yield_pool: 0,
        };
        proof {
            r.balances.lemma_new_total();
            r.deployed.lemma_new_total();
        }
        r
    }

    /// Credits `amount` to `donor`. `transfer` is the outcome of the transfer
    /// that `plan_deposit` names, from the donor into the vault's account. Requires the donor's authorization.
    /// Returns the donor's new balance.
    pub fn deposit(
        &mut self,
        auth: &Auth,
        donor: Address,
        amount: i128,
        transfer: Result<(), TransferError>,
    ) -> (r: Result<i128, LedgerError>)
        requires
            old(self).wf(),
        ensures
            final(self).wf(),
            r.is_err() ==> *final(self) == *old(self),
            match settle(old(self).deposit_plan(auth, donor, amount), transfer) {
                Err(e) => r == Err::<i128, LedgerError>(e),
                Ok(_) => r.is_ok(),
            },
            !auth.authorizes(donor) ==> r == Err::<i128, LedgerError>(LedgerError::Unauthorized),
            auth.authorizes(donor) && amount < 0 ==> r == Err::<i128, LedgerError>(
                LedgerError::InvalidAmount,
            ),
            auth.authorizes(donor) && amount >= 0 && old(self).total_deposits() + amount
                > i128::MAX ==> r == Err::<i128, LedgerError>(LedgerError::Overflow),
            auth.authorizes(donor) && amount >= 0 && old(self).total_deposits() + amount
                <= i128::MAX && transfer.is_err() ==> r == Err::<i128, LedgerError>(
                LedgerError::TransferFailed,
            ),
            auth.authorizes(donor) && amount >= 0 && old(self).total_deposits() + amount
                <= i128::MAX && transfer.is_ok() ==> {
                &&& r == Ok::<i128, LedgerError>((old(self).balance(donor) + amount) as i128)
                &&& final(self).balances() == old(self).balances().insert(
                    donor,
                    (old(self).balance(donor) + amount) as i128,
                )
                &&& final(self).total_deposits() == old(self).total_deposits() + amount
                &&& final(self).deployed() == old(self).deployed()
                &&& final(self).deployed_total() == old(self).deployed_total()
                &&& final(self).yield_pool() == old(self).yield_pool()
                &&& final(self).spec_admin() == old(self).spec_admin()
                &&& final(self).spec_token() == old(self).spec_token()
            },
    {
        if !auth.has(donor) {
            return Err(LedgerError::Unauthorized);
        }
        if amount < 0 {
            return Err(LedgerError::InvalidAmount);
        }
        let total = match self.total.checked_add(amount) {
            Some(t) => t,
            None => {
                return Err(LedgerError::Overflow);
            },
        };
        if transfer.is_err() {
            return Err(LedgerError::TransferFailed);
        }
        let current = self.balances.amount_of(&donor);
        proof {
            self.balances.lemma_amount_le_total(donor);
        }
        let updated = current + amount;
        self.balances.set_amount(donor, updated);
        self.total = total;
        proof {
            self.lemma_nonneg_after_set(*old(self), donor, updated);
        }
        Ok(updated)
    }

    proof fn lemma_nonneg_after_set(&self, before: Self, donor: Address, v: i128)
        requires
            before.balances.all_nonneg(),
            self.balances@ == before.balances@.insert(donor, v),
            v >= 0,
        ensures
            self.balances.all_nonneg(),
    {
        assert forall|k: Address| #[trigger] self.balances@.contains_key(k) implies self.balances@[k]
            >= 0 by {
            if k != donor {
                assert(before.balances@.contains_key(k));
            }
        }
    }

    proof fn lemma_deployed_nonneg_after_set(&self, before: Self, venue: Address, v: i128)
        requires
            before.deployed.all_nonneg(),
            self.deployed@ == before.deployed@.insert(venue, v),
            v >= 0,
        ensures
            self.deployed.all_nonneg(),
    {
        assert forall|k: Address| #[trigger] self.deployed@.contains_key(k) implies self.deployed@[k]
            >= 0 by {
            if k != venue {
                assert(before.deployed@.contains_key(k));
            }
        }
    }

    /// The balance of `donor`.
    pub fn get_balance(&self, donor: Address) -> (r: i128)
        requires
            self.wf(),
        ensures
            r == self.balance(donor),
    {
        self.balances.amount_of(&donor)
    }

    /// The recorded total of deposits.
    pub fn get_total_deposits(&self) -> (r: i128)
        requires
            self.wf(),
        ensures
            r == self.total_deposits(),
    {
        self.total
    }

    /// Returns `amount` of the donor's principal. `transfer` is the outcome of
    /// the transfer that `plan_withdraw` names, from the vault's account to the
    /// donor. Requires the donor's
    /// authorization. Returns the donor's new balance.
    pub fn withdraw(
        &mut self,
        auth: &Auth,
        donor: Address,
        amount: i128,
        transfer: Result<(), TransferError>,
    ) -> (r: Result<i128, LedgerError>)
        requires
            old(self).wf(),
        ensures
            final(self).wf(),
            r.is_err() ==> *final(self) == *old(self),
            match settle(old(self).withdraw_plan(auth, donor, amount), transfer) {
                Err(e) => r == Err::<i128, LedgerError>(e),
                Ok(_) => r.is_ok(),
            },
            !auth.authorizes(donor) ==> r == Err::<i128, LedgerError>(LedgerError::Unauthorized),
            auth.authorizes(donor) && amount < 0 ==> r == Err::<i128, LedgerError>(
                LedgerError::InvalidAmount,
            ),
            auth.authorizes(donor) && amount >= 0 && amount > old(self).balance(donor) ==> r
                == Err::<i128, LedgerError>(LedgerError::InsufficientBalance),
            auth.authorizes(donor) && 0 <= amount <= old(self).balance(donor) && transfer.is_err()
                ==> r == Err::<i128, LedgerError>(LedgerError::TransferFailed),
            auth.authorizes(donor) && 0 <= amount <= old(self).balance(donor) && transfer.is_ok()
                ==> {
                &&& r == Ok::<i128, LedgerError>((old(self).balance(donor) - amount) as i128)
                &&& final(self).balances() == old(self).balances().insert(
                    donor,
                    (old(self).balance(donor) - amount) as i128,
                )
                &&& final(self).total_deposits() == old(self).total_deposits() - amount
                &&& final(self).deployed() == old(self).deployed()
                &&& final(self).deployed_total() == old(self).deployed_total()
                &&& final(self).yield_pool() == old(self).yield_pool()
                &&& final(self).spec_admin() == old(self).spec_admin()
                &&& final(self).spec_token() == old(self).spec_token()
            },
    {
        if !auth.has(donor) {
            return Err(LedgerError::Unauthorized);
        }
        if amount < 0 {
            return Err(LedgerError::InvalidAmount);
        }
        let current = self.balances.amount_of(&donor);
        if amount > current {
            return Err(LedgerError::InsufficientBalance);
        }
        if transfer.is_err() {
            return Err(LedgerError::TransferFailed);
        }
        proof {
            self.balances.lemma_amount_le_total(donor);
        }
        let updated = current - amount;
        self.balances.set_amount(donor, updated);
        self.total = self.total - amount;
        proof {
            self.lemma_nonneg_after_set(*old(self), donor, updated);
        }
        Ok(updated)
    }

    /// Moves `amount` of undeployed capital to the yield venue
    /// `defi_protocol`. `transfer` is the outcome of the transfer that
    /// `plan_deploy_to_defi` names. Administrator only.
    pub fn deploy_to_defi(
        &mut self,
        auth: &Auth,
        defi_protocol: Address,
        amount: i128,
        transfer: Result<(), TransferError>,
    ) -> (r: Result<(), LedgerError>)
        requires
            old(self).wf(),
        ensures
            final(self).wf(),
            r.is_err() ==> *final(self) == *old(self),
            match settle(old(self).deploy_plan(auth, defi_protocol, amount), transfer) {
                Err(e) => r == Err::<(), LedgerError>(e),
                Ok(_) => r.is_ok(),
            },
            !auth.authorizes(old(self).spec_admin()) ==> r == Err::<(), LedgerError>(
                LedgerError::Unauthorized,
            ),
            auth.authorizes(old(self).spec_admin()) && amount < 0 ==> r == Err::<(), LedgerError>(
                LedgerError::InvalidAmount,
            ),
            auth.authorizes(old(self).spec_admin()) && amount >= 0 && amount > old(self).undeployed()
                ==> r == Err::<(), LedgerError>(LedgerError::InsufficientFunds),
            auth.authorizes(old(self).spec_admin()) && 0 <= amount <= old(self).undeployed()
                && transfer.is_err() ==> r == Err::<(), LedgerError>(LedgerError::TransferFailed),
            auth.authorizes(old(self).spec_admin()) && 0 <= amount <= old(self).undeployed()
                && transfer.is_ok() ==> {
                &&& r == Ok::<(), LedgerError>(())
                &&& final(self).deployed() == old(self).deployed().insert(
                    defi_protocol,
                    (old(self).deployed_amount(defi_protocol) + amount) as i128,
                )
                &&& final(self).deployed_total() == old(self).deployed_total() + amount
                &&& final(self).balances() == old(self).balances()
                &&& final(self).total_deposits() == old(self).total_deposits()
                &&& final(self).yield_pool() == old(self).yield_pool()
                &&& final(self).spec_admin() == old(self).spec_admin()
                &&& final(self).spec_token() == old(self).spec_token()
            },
    {
        if !auth.has(self.admin) {
            return Err(LedgerError::Unauthorized);
        }
        if amount < 0 {
            return Err(LedgerError::InvalidAmount);
        }
        proof {
            self.deployed.lemma_amount_le_total(defi_protocol);
            self.balances.lemma_amount_le_total(defi_protocol);
        }
        if amount > self.total - self.deployed_total {
            return Err(LedgerError::InsufficientFunds);
        }
        if transfer.is_err() {
            return Err(LedgerError::TransferFailed);
        }
        let current = self.deployed.amount_of(&defi_protocol);
        let updated = current + amount;
        self.deployed.set_amount(defi_protocol, updated);
        self.deployed_total = self.deployed_total + amount;
        proof {
            self.lemma_deployed_nonneg_after_set(*old(self), defi_protocol, updated);
        }
        Ok(())
    }

    /// Takes `amount` back from the yield venue `defi_protocol` into the pool
    /// of harvested yield. Administrator only.
    pub fn withdraw_yield(&mut self, auth: &Auth, defi_protocol: Address, amount: i128) -> (r:
        Result<(), LedgerError>)
        requires
            old(self).wf(),
        ensures
            final(self).wf(),
            r.is_err() ==> *final(self) == *old(self),
            !auth.authorizes(old(self).spec_admin()) ==> r == Err::<(), LedgerError>(
                LedgerError::Unauthorized,
            ),
            auth.authorizes(old(self).spec_admin()) && amount < 0 ==> r == Err::<(), LedgerError>(
                LedgerError::InvalidAmount,
            ),
            auth.authorizes(old(self).spec_admin()) && amount >= 0 && amount > old(
                self,
            ).deployed_amount(defi_protocol) ==> r == Err::<(), LedgerError>(
                LedgerError::InsufficientFunds,
            ),
            auth.authorizes(old(self).spec_admin()) && 0 <= amount <= old(self).deployed_amount(
                defi_protocol,
            ) && old(self).yield_pool() + amount > i128::MAX ==> r == Err::<(), LedgerError>(
                LedgerError::Overflow,
            ),
            auth.authorizes(old(self).spec_admin()) && 0 <= amount <= old(self).deployed_amount(
                defi_protocol,
            ) && old(self).yield_pool() + amount <= i128::MAX ==> {
                &&& r == Ok::<(), LedgerError>(())
                &&& final(self).deployed() == old(self).deployed().insert(
                    defi_protocol,
                    (old(self).deployed_amount(defi_protocol) - amount) as i128,
                )
                &&& final(self).deployed_total() == old(self).deployed_total() - amount
                &&& final(self).yield_pool() == old(self).yield_pool() + amount
                &&& final(self).balances() == old(self).balances()
                &&& final(self).total_deposits() == old(self).total_deposits()
                &&& final(self).spec_admin() == old(self).spec_admin()
                &&& final(self).spec_token() == old(self).spec_token()
            },
    {
        if !auth.has(self.admin) {
            return Err(LedgerError::Unauthorized);
        }
        if amount < 0 {
            return Err(LedgerError::InvalidAmount);
        }
        let current = self.deployed.amount_of(&defi_protocol);
        if amount > current {
            return Err(LedgerError::InsufficientFunds);
        }
        let pool = match self.yield_pool.checked_add(amount) {
            Some(p) => p,
            None => {
                return Err(LedgerError::Overflow);
            },
        };
        proof {
            self.deployed.lemma_amount_le_total(defi_protocol);
        }
        let updated = current - amount;
        self.deployed.set_amount(defi_protocol, updated);
        self.deployed_total = self.deployed_total - amount;
        self.yield_pool = pool;
        proof {
            self.lemma_deployed_nonneg_after_set(*old(self), defi_protocol, updated);
        }
        Ok(())
    }

    /// Sends `yield_amount` of harvested yield to `impact_contract`.
    /// `transfer` is the outcome of the transfer that `plan_distribute_yield`
    /// names. Administrator only.
    pub fn distribute_yield(
        &mut self,
        auth: &Auth,
        impact_contract: Address,
        yield_amount: i128,
        transfer: Result<(), TransferError>,
    ) -> (r: Result<(), LedgerError>)
        requires
            old(self).wf(),
        ensures
            final(self).wf(),
            r.is_err() ==> *final(self) == *old(self),
            match settle(old(self).distribute_plan(auth, impact_contract, yield_amount), transfer) {
                Err(e) => r == Err::<(), LedgerError>(e),
                Ok(_) => r.is_ok(),
            },
            !auth.authorizes(old(self).spec_admin()) ==> r == Err::<(), LedgerError>(
                LedgerError::Unauthorized,
            ),
            auth.authorizes(old(self).spec_admin()) && yield_amount < 0 ==> r == Err::<
                (),
                LedgerError,
            >(LedgerError::InvalidAmount),
            auth.authorizes(old(self).spec_admin()) && yield_amount >= 0 && yield_amount > old(
                self,
            ).yield_pool() ==> r == Err::<(), LedgerError>(LedgerError::InsufficientFunds),
            auth.authorizes(old(self).spec_admin()) && 0 <= yield_amount <= old(self).yield_pool()
                && transfer.is_err() ==> r == Err::<(), LedgerError>(LedgerError::TransferFailed),
            auth.authorizes(old(self).spec_admin()) && 0 <= yield_amount <= old(self).yield_pool()
                && transfer.is_ok() ==> {
                &&& r == Ok::<(), LedgerError>(())
                &&& final(self).yield_pool() == old(self).yield_pool() - yield_amount
                &&& final(self).deployed() == old(self).deployed()
                &&& final(self).deployed_total() == old(self).deployed_total()
                &&& final(self).balances() == old(self).balances()
                &&& final(self).total_deposits() == old(self).total_deposits()
                &&& final(self).spec_admin() == old(self).spec_admin()
                &&& final(self).spec_token() == old(self).spec_token()
            },
    {
        if !auth.has(self.admin) {
            return Err(LedgerError::Unauthorized);
        }
        if yield_amount < 0 {
            return Err(LedgerError::InvalidAmount);
        }
        if yield_amount > self.yield_pool {
            return Err(LedgerError::InsufficientFunds);
        }
        if transfer.is_err() {
            return Err(LedgerError::TransferFailed);
        }
        self.yield_pool = self.yield_pool - yield_amount;
        Ok(())
    }

    /// Harvested yield that has not been distributed.
    pub fn get_total_yield(&self) -> (r: i128)
        requires
            self.wf(),
        ensures
            r == self.yield_pool(),
    {
        self.yield_pool
    }

    /// The capital deployed to `defi_protocol`.
    pub fn get_deployed_amount(&self, defi_protocol: Address) -> (r: i128)
        requires
            self.wf(),
        ensures
            r == self.deployed_amount(defi_protocol),
    {
        self.deployed.amount_of(&defi_protocol)
    }
}

/// Conservation: in every well-formed vault, which is every vault that
/// `initialize` made and any sequence of operations changed, the donor
/// balances are non-negative and add up to the recorded total of deposits.
pub proof fn lemma_conservation(v: &ImpactVault)
    requires
        v.wf(),
    ensures
        v.balance_sum() == v.total_deposits(),
        forall|d: Address| 0 <= #[trigger] v.balance(d) <= v.total_deposits(),
{
    assert forall|d: Address| 0 <= #[trigger] v.balance(d) <= v.total_deposits() by {
        v.balances.lemma_amount_le_total(d);
    }
}

} // verus!
