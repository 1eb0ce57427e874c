use vstd::prelude::*;

use crate::merchant_registry::MerchantRegistry;
use crate::table::{Table, TableKey};
use crate::types::{Address, Auth, LedgerError, Transfer, TransferError};

verus! {

/// Lifecycle label of a voucher.
#[derive(Clone, Copy, Debug, PartialEq, Eq, Structural)]
pub enum VoucherStatus {
    Active,
    Redeemed,
    Expired,
}

/// A voucher balance is held per beneficiary and per program.
#[derive(Clone, Copy, Debug, PartialEq, Eq, Hash, Structural)]
pub struct VoucherKey {
    pub beneficiary: Address,
    pub program_id: u32,
}

impl TableKey for VoucherKey {
    fn same(&self, other: &Self) -> (r: bool) {
        *self == *other
    }
}

/// The record of one redemption. Only `verified` changes after it is made.
#[derive(Clone, Debug)]
pub struct Redemption {
    pub id: u32,
    pub beneficiary: Address,
    pub merchant: Address,
    pub program_id: u32,
    pub amount: i128,
    pub timestamp: u64,
    /// Content identifier of the proof documents (receipt, location, time).
    pub proof_hash: String,
    pub verified: bool,
}

/// Number of redemptions made by `beneficiary` in `s`.
pub open spec fn redemptions_by(s: Seq<Redemption>, beneficiary: Address) -> nat
    decreases s.len(),
{
    if s.len() == 0 {
        0
    } else {
        redemptions_by(s.drop_last(), beneficiary) + if s.last().beneficiary == beneficiary {
            1nat
        } else {
            0nat
        }
    }
}

proof fn lemma_redemptions_by_bound(s: Seq<Redemption>, beneficiary: Address)
    ensures
        redemptions_by(s, beneficiary) <= s.len(),
    decreases s.len(),
{
    if s.len() > 0 {
        lemma_redemptions_by_bound(s.drop_last(), beneficiary);
    }
}

/// Per-beneficiary, per-program voucher balances and the redemption log.
pub struct VoucherManager {
    account: Address,
    usdc_token: Address,
    admin: Address,
    balances: Table<VoucherKey, i128>,
    redemptions: Vec<Redemption>,
}

impl VoucherManager {
    /// The issuer of vouchers.
    pub closed spec fn spec_admin(&self) -> Address {
        self.admin
    }

    /// The ledger's own holding account, which pays merchants.
    pub closed spec fn spec_account(&self) -> Address {
        self.account
    }

    /// The token in which vouchers are paid out.
    pub closed spec fn spec_token(&self) -> Address {
        self.usdc_token
    }

    /// The recorded voucher balances.
    pub closed spec fn balances(&self) -> Map<VoucherKey, i128> {
        self.balances@
    }

    /// The voucher balance of `beneficiary` for `program_id`, zero where none
    /// was issued.
    pub open spec fn balance(&self, beneficiary: Address, program_id: u32) -> int {
        let k = VoucherKey { beneficiary, program_id };
        if self.balances().contains_key(k) {
            self.balances()[k] as int
        } else {
            0
        }
    }

    /// The redemption log; the redemption with id `i + 1` is at position `i`.
    pub closed spec fn redemptions(&self) -> Seq<Redemption> {
        self.redemptions@
    }

    pub closed spec fn wf(&self) -> bool {
        &&& self.balances.wf()
        &&& self.balances.all_nonneg()
        &&& self.redemptions@.len() <= u32::MAX
        &&& forall|i: int|
            0 <= i < self.redemptions@.len() ==> #[trigger] self.redemptions@[i].id == i + 1
    }

    /// A voucher ledger with no balances and no redemptions, holding funds in
    /// `account`.
    pub fn initialize(account: Address, usdc_token: Address, admin: Address) -> (r: Self)
        ensures
            r.wf(),
            r.spec_account() == account,
            r.spec_admin() == admin,
            r.spec_token() == usdc_token,
            r.balances() == Map::<VoucherKey, i128>::empty(),
            r.redemptions() == Seq::<Redemption>::empty(),
    {
        VoucherManager { account, usdc_token, admin, balances: Table::new(), redemptions: Vec::new() }
    }

    /// Adds `amount` to the voucher balance of `beneficiary` for `program_id`.
    /// Issuer only.
    pub fn issue_voucher(&mut self, auth: &Auth, beneficiary: Address, program_id: u32, amount: i128) -> (r:
        Result<(), LedgerError>)
        requires
            old(self).wf(),
        ensures
            final(self).wf(),
            r.is_err() ==> *final(self) == *old(self),
            !auth.authorizes(old(self).spec_admin()) ==> r == Err::<(), LedgerError>(
                LedgerError::Unauthorized,
            ),
            auth.authorizes(old(self).spec_admin()) && amount < 0 ==> r == Err::<(), LedgerError>(
                LedgerError::InvalidAmount,
            ),
            auth.authorizes(old(self).spec_admin()) && amount >= 0 && old(self).balance(
                beneficiary,
                program_id,
            ) + amount > i128::MAX ==> r == Err::<(), LedgerError>(LedgerError::Overflow),
            auth.authorizes(old(self).spec_admin()) && amount >= 0 && old(self).balance(
                beneficiary,
                program_id,
            ) + amount <= i128::MAX ==> {
                &&& r == Ok::<(), LedgerError>(())
                &&& final(self).balances() == old(self).balances().insert(
                    (VoucherKey { beneficiary, program_id }),
                    (old(self).balance(beneficiary, program_id) + amount) as i128,
                )
                &&& final(self).redemptions() == old(self).redemptions()
                &&& final(self).spec_admin() == old(self).spec_admin()
                &&& final(self).spec_token() == old(self).spec_token()
            },
    {
        if !auth.has(self.admin) {
            return Err(LedgerError::Unauthorized);
        }
        if amount < 0 {
            return Err(LedgerError::InvalidAmount);
        }
        let key = VoucherKey { beneficiary, program_id };
        let current = self.balances.amount_of(&key);
        let updated = match current.checked_add(amount) {
            Some(v) => v,
            None => {
                return Err(LedgerError::Overflow);
            },
        };
        self.balances.set_amount(key, updated);
        Ok(())
    }

    /// The voucher balance of `beneficiary` for `program_id`.
    pub fn get_voucher_balance(&self, beneficiary: Address, program_id: u32) -> (r: i128)
        requires
            self.wf(),
        ensures
            r == self.balance(beneficiary, program_id),
    {
        self.balances.amount_of(&VoucherKey { beneficiary, program_id })
    }

    /// The transfer a redemption needs, or the error it fails with before any
    /// funds move, checked in this order: the beneficiary's authorization, a
    /// non-negative amount, the voucher balance, the merchant's verification,
    /// room for another id. The ledger's account pays `amount` to the merchant.
    pub open spec fn redeem_plan(
        &self,
        registry: &MerchantRegistry,
        auth: &Auth,
        beneficiary: Address,
        merchant: Address,
        program_id: u32,
        amount: i128,
    ) -> Result<Transfer, LedgerError> {
        if !auth.authorizes(beneficiary) {
            Err(LedgerError::Unauthorized)
        } else if amount < 0 {
            Err(LedgerError::InvalidAmount)
        } else if amount > self.balance(beneficiary, program_id) {
            Err(LedgerError::InsufficientVoucherBalance)
        } else if !registry.spec_is_verified(merchant) {
            Err(LedgerError::MerchantNotVerified)
        } else if self.redemptions().len() >= u32::MAX {
            Err(LedgerError::Overflow)
        } else {
            Ok(Transfer { from: self.spec_account(), to: merchant, amount })
        }
    }

    /// What a redemption returns: the plan's error, `TransferFailed` when
    /// the planned payment was rejected, otherwise the id of the new
    /// redemption.
    pub open spec fn redeem_outcome(
        &self,
        registry: &MerchantRegistry,
        auth: &Auth,
        beneficiary: Address,
        merchant: Address,
        program_id: u32,
        amount: i128,
        transfer: Result<(), TransferError>,
    ) -> Result<u32, LedgerError> {
        match self.redeem_plan(registry, auth, beneficiary, merchant, program_id, amount) {
            Err(e) => Err(e),
            Ok(_) => if transfer.is_err() {
                Err(LedgerError::TransferFailed)
            } else {
                Ok((self.redemptions().len() + 1) as u32)
            },
        }
    }

    /// The transfer `redeem_voucher` needs for these arguments, or its error.
    pub fn plan_redeem_voucher(
        &self,
        registry: &MerchantRegistry,
        auth: &Auth,
        beneficiary: Address,
        merchant: Address,
        program_id: u32,
        amount: i128,
    ) -> (r: Result<Transfer, LedgerError>)
        requires
            self.wf(),
            registry.wf(),
        ensures
            r == self.redeem_plan(registry, auth, beneficiary, merchant, program_id, amount),
    {
        if !auth.has(beneficiary) {
            return Err(LedgerError::Unauthorized);
        }
        if amount < 0 {
            return Err(LedgerError::InvalidAmount);
        }
        if amount > self.balances.amount_of(&VoucherKey { beneficiary, program_id }) {
            return Err(LedgerError::InsufficientVoucherBalance);
        }
        if !registry.is_verified(merchant) {
            return Err(LedgerError::MerchantNotVerified);
        }
        if self.redemptions.len() >= 0xffff_ffffusize {
            return Err(LedgerError::Overflow);
        }
        Ok(Transfer { from: self.account, to: merchant, amount })
    }

    /// Spends `amount` of the beneficiary's voucher for `program_id` at a
    /// verified `merchant`: the balance drops by `amount`, the merchant is paid
    /// (`transfer` is the outcome of the transfer that `plan_redeem_voucher`
    /// names, from the ledger's account to the merchant), a redemption with
    /// the next id is logged unverified, and the merchant's statistics count
    /// it.
    pub fn redeem_voucher(
        &mut self,
        registry: &mut MerchantRegistry,
        auth: &Auth,
        beneficiary: Address,
        merchant: Address,
        program_id: u32,
        amount: i128,
        proof_hash: String,
        timestamp: u64,
        transfer: Result<(), TransferError>,
    ) -> (r: Result<u32, LedgerError>)
        requires
            old(self).wf(),
            old(registry).wf(),
        ensures
            final(self).wf(),
            final(registry).wf(),
            r == old(self).redeem_outcome(
                &*old(registry),
                auth,
                beneficiary,
                merchant,
                program_id,
                amount,
                transfer,
            ),
            r.is_err() ==> *final(self) == *old(self) && *final(registry) == *old(registry),
            amount > old(self).balance(beneficiary, program_id) ==> r.is_err(),
            auth.authorizes(beneficiary) && amount > old(self).balance(beneficiary, program_id) ==> r
                == Err::<u32, LedgerError>(LedgerError::InsufficientVoucherBalance),
            r.is_ok() ==> {
                &&& final(self).balance(beneficiary, program_id) == old(self).balance(
                    beneficiary,
                    program_id,
                ) - amount
                &&& final(self).balances() == old(self).balances().insert(
                    (VoucherKey { beneficiary, program_id }),
                    (old(self).balance(beneficiary, program_id) - amount) as i128,
                )
                &&& final(self).redemptions() == old(self).redemptions().push(
                    (Redemption {
                        id: r.unwrap(),
                        beneficiary,
                        merchant,
                        program_id,
                        amount,
                        timestamp,
                        proof_hash,
                        verified: false,
                    }),
                )
                &&& final(self).spec_admin() == old(self).spec_admin()
                &&& final(self).spec_token() == old(self).spec_token()
                &&& final(registry).spec_admin() == old(registry).spec_admin()
                &&& final(registry).merchants() == old(registry).after_redemption(merchant, amount)
            },
    {
        proof {
            lemma_balances_nonneg(self);
        }
        if !auth.has(beneficiary) {
            return Err(LedgerError::Unauthorized);
        }
        if amount < 0 {
            return Err(LedgerError::InvalidAmount);
        }
        let key = VoucherKey { beneficiary, program_id };
        let current = self.balances.amount_of(&key);
        if amount > current {
            return Err(LedgerError::InsufficientVoucherBalance);
        }
        if !registry.is_verified(merchant) {
            return Err(LedgerError::MerchantNotVerified);
        }
        let count = self.redemptions.len();
        if count >= 0xffff_ffffusize {
            return Err(LedgerError::Overflow);
        }
        if transfer.is_err() {
            return Err(LedgerError::TransferFailed);
        }
        let redemption_id = (count + 1) as u32;
        self.balances.set_amount(key, current - amount);
        self.redemptions.push(
            Redemption {
                id: redemption_id,
                beneficiary,
                merchant,
                program_id,
                amount,
                timestamp,
                proof_hash,
                verified: false,
            },
        );
        registry.record_redemption(merchant, amount);
        proof {
            assert forall|k: VoucherKey| #[trigger]
                self.balances@.contains_key(k) implies self.balances@[k] >= 0 by {
                if k != key {
                    assert(old(self).balances@.contains_key(k));
                }
            }
            assert forall|i: int| 0 <= i < self.redemptions@.len() implies #[trigger]
                self.redemptions@[i].id == i + 1 by {
                if i < count {
                    assert(self.redemptions@[i] == old(self).redemptions@[i]);
                }
            }
        }
        Ok(redemption_id)
    }

    /// Marks redemption `redemption_id` verified; verifying it again changes
    /// nothing. Requires the verifier's authorization.
    pub fn verify_redemption(&mut self, auth: &Auth, redemption_id: u32, verifier: Address) -> (r:
        Result<(), LedgerError>)
        requires
            old(self).wf(),
        ensures
            final(self).wf(),
            r.is_err() ==> *final(self) == *old(self),
            !auth.authorizes(verifier) ==> r == Err::<(), LedgerError>(LedgerError::Unauthorized),
            auth.authorizes(verifier) && !(1 <= redemption_id <= old(self).redemptions().len())
                ==> r == Err::<(), LedgerError>(LedgerError::NotFound),
            auth.authorizes(verifier) && 1 <= redemption_id <= old(self).redemptions().len() ==> {
                &&& r == Ok::<(), LedgerError>(())
                &&& final(self).redemptions() == old(self).redemptions().update(
                    redemption_id - 1,
                    (Redemption { verified: true, ..old(self).redemptions()[redemption_id - 1] }),
                )
                &&& final(self).balances() == old(self).balances()
                &&& final(self).spec_admin() == old(self).spec_admin()
                &&& final(self).spec_token() == old(self).spec_token()
            },
    {
        if !auth.has(verifier) {
            return Err(LedgerError::Unauthorized);
        }
        if redemption_id == 0 || redemption_id as usize > self.redemptions.len() {
            return Err(LedgerError::NotFound);
        }
        let i = (redemption_id - 1) as usize;
        self.redemptions[i].verified = true;
        proof {
            assert forall|j: int| 0 <= j < self.redemptions@.len() implies #[trigger]
                self.redemptions@[j].id == j + 1 by {
                assert(old(self).redemptions@[j].id == j + 1);
            }
        }
        Ok(())
    }

    /// The redemption with id `redemption_id`, if one was made.
    pub fn get_redemption(&self, redemption_id: u32) -> (r: Option<&Redemption>)
        requires
            self.wf(),
        ensures
            r.is_some() == (1 <= redemption_id <= self.redemptions().len()),
            r.is_some() ==> *r.unwrap() == self.redemptions()[redemption_id - 1],
    {
        if redemption_id == 0 || redemption_id as usize > self.redemptions.len() {
            None
        } else {
            Some(&self.redemptions[(redemption_id - 1) as usize])
        }
    }

    /// Number of redemptions made, which is also the last id issued.
    pub fn get_redemption_count(&self) -> (r: u32)
        requires
            self.wf(),
        ensures
            r == self.redemptions().len(),
    {
        self.redemptions.len() as u32
    }

    /// Number of redemptions made by `beneficiary`.
    pub fn get_beneficiary_redemptions(&self, beneficiary: Address) -> (r: u32)
        requires
            self.wf(),
        ensures
            r == redemptions_by(self.redemptions(), beneficiary),
    {
        let mut count: u32 = 0;
        let mut i: usize = 0;
        while i < self.redemptions.len()
            invariant
                self.wf(),
                0 <= i <= self.redemptions@.len(),
                count == redemptions_by(self.redemptions@.take(i as int), beneficiary),
            decreases self.redemptions@.len() - i,
        {
            proof {
                let s = self.redemptions@.take(i as int + 1);
                assert(s.drop_last() =~= self.redemptions@.take(i as int));
                lemma_redemptions_by_bound(s, beneficiary);
            }
            if self.redemptions[i].beneficiary == beneficiary {
                count = count + 1;
            }
            i = i + 1;
        }
        proof {
            assert(self.redemptions@.take(i as int) =~= self.redemptions@);
        }
        count
    }
}

/// Voucher balances are never negative: in every well-formed ledger, which is
/// every ledger that `initialize` made and any sequence of operations changed,
/// each (beneficiary, program) balance is at least zero.
pub proof fn lemma_balances_nonneg(vm: &VoucherManager)
    requires
        vm.wf(),
    ensures
        forall|b: Address, p: u32| #[trigger] vm.balance(b, p) >= 0,
{
    assert forall|b: Address, p: u32| #[trigger] vm.balance(b, p) >= 0 by {
        let k = VoucherKey { beneficiary: b, program_id: p };
        if vm.balances().contains_key(k) {
            assert(vm.balances@.contains_key(k));
        }
    }
}

/// Redemption ids are dense and sequential: the log holds exactly the ids
/// `1, 2, ..., n` in order, so none is skipped or issued twice.
pub proof fn lemma_redemption_ids_sequential(vm: &VoucherManager)
    requires
        vm.wf(),
    ensures
        forall|i: int| 0 <= i < vm.redemptions().len() ==> #[trigger] vm.redemptions()[i].id == i + 1,
        forall|i: int, j: int|
            0 <= i < j < vm.redemptions().len() ==> #[trigger] vm.redemptions()[i].id
                < #[trigger] vm.redemptions()[j].id,
{
}

} // verus!
