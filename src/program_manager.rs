use vstd::prelude::*;

use crate::types::{settle, Address, Auth, LedgerError, Transfer, TransferError};

verus! {

/// Kind of aid a program delivers.
#[derive(Clone, Copy, Debug, PartialEq, Eq, Structural)]
pub enum ProgramCategory {
    Healthcare,
    Food,
    Education,
    Housing,
    Emergency,
}

/// An aid program run by an NGO under a fixed budget ceiling.
///
/// `allocated` is the budget committed so far and never decreases; `spent`
/// is what voucher issues have actually moved out of that allocation.
#[derive(Clone, Debug)]
pub struct Program {
    pub id: u32,
    pub name: String,
    pub category: ProgramCategory,
    pub ngo: Address,
    pub total_budget: i128,
    pub allocated: i128,
    pub spent: i128,
    pub active: bool,
}

/// Ids of the active programs of `s`, in order.
pub open spec fn active_ids(s: Seq<Program>) -> Seq<u32>
    decreases s.len(),
{
    if s.len() == 0 {
        Seq::empty()
    } else if s.last().active {
        active_ids(s.drop_last()).push(s.last().id)
    } else {
        active_ids(s.drop_last())
    }
}

/// Aid programs with their budgets, allocations and spending.
pub struct ProgramManager {
    account: Address,
    admin: Address,
    usdc_token: Address,
    programs: Vec<Program>,
}

impl ProgramManager {
    /// The administrator who allocates budget and deactivates programs.
    pub closed spec fn spec_admin(&self) -> Address {
        self.admin
    }

    /// The manager's own holding account, which funds voucher issues.
    pub closed spec fn spec_account(&self) -> Address {
        self.account
    }

    /// The token in which programs are funded.
    pub closed spec fn spec_token(&self) -> Address {
        self.usdc_token
    }

    /// The programs; the one with id `i + 1` is at position `i`.
    pub closed spec fn programs(&self) -> Seq<Program> {
        self.programs@
    }

    pub closed spec fn wf(&self) -> bool {
        &&& self.programs@.len() <= u32::MAX
        &&& forall|i: int|
            0 <= i < self.programs@.len() ==> #[trigger] self.programs@[i].id == i + 1 && 0
                <= self.programs@[i].spent <= self.programs@[i].allocated
                <= self.programs@[i].total_budget
    }

    /// Whether `program_id` names a created program.
    pub open spec fn has_program(&self, program_id: u32) -> bool {
        1 <= program_id <= self.programs().len()
    }

    /// The program with id `program_id`.
    pub open spec fn program(&self, program_id: u32) -> Program {
        self.programs()[program_id - 1]
    }

    /// A manager with no programs, holding funds in `account`.
    pub fn initialize(account: Address, admin: Address, usdc_token: Address) -> (r: Self)
        ensures
            r.wf(),
            r.spec_account() == account,
            r.spec_admin() == admin,
            r.spec_token() == usdc_token,
            r.programs() == Seq::<Program>::empty(),
    {
        ProgramManager { account, admin, usdc_token, programs: Vec::new() }
    }

    /// Creates an active program owned by `ngo` with budget ceiling `budget`
    /// and nothing allocated, under the next program id. Requires the NGO's
    /// authorization.
    pub fn create_program(
        &mut self,
        auth: &Auth,
        ngo: Address,
        name: String,
        category: ProgramCategory,
        budget: i128,
    ) -> (r: Result<u32, LedgerError>)
        requires
            old(self).wf(),
        ensures
            final(self).wf(),
            r.is_err() ==> *final(self) == *old(self),
            !auth.authorizes(ngo) ==> r == Err::<u32, LedgerError>(LedgerError::Unauthorized),
            auth.authorizes(ngo) && budget < 0 ==> r == Err::<u32, LedgerError>(
                LedgerError::InvalidAmount,
            ),
            auth.authorizes(ngo) && budget >= 0 && old(self).programs().len() == u32::MAX ==> r
                == Err::<u32, LedgerError>(LedgerError::Overflow),
            auth.authorizes(ngo) && budget >= 0 && old(self).programs().len() < u32::MAX ==> {
                &&& r == Ok::<u32, LedgerError>((old(self).programs().len() + 1) as u32)
                &&& final(self).programs() == old(self).programs().push(
                    (Program {
                        id: r.unwrap(),
                        name,
                        category,
                        ngo,
                        total_budget: budget,
                        allocated: 0,
                        spent: 0,
                        active: true,
                    }),
                )
                &&& final(self).spec_admin() == old(self).spec_admin()
                &&& final(self).spec_token() == old(self).spec_token()
            },
    {
        if !auth.has(ngo) {
            return Err(LedgerError::Unauthorized);
        }
        if budget < 0 {
            return Err(LedgerError::InvalidAmount);
        }
        let count = self.programs.len();
        if count >= 0xffff_ffffusize {
            return Err(LedgerError::Overflow);
        }
        let program_id = (count + 1) as u32;
        self.programs.push(
            Program {
                id: program_id,
                name,
                category,
                ngo,
                total_budget: budget,
                allocated: 0,
                spent: 0,
                active: true,
            },
        );
        proof {
            assert forall|i: int| 0 <= i < self.programs@.len() implies #[trigger]
                self.programs@[i].id == i + 1 && 0 <= self.programs@[i].spent
                <= self.programs@[i].allocated <= self.programs@[i].total_budget by {
                if i < count {
                    assert(self.programs@[i] == old(self).programs@[i]);
                }
            }
        }
        Ok(program_id)
    }

    /// The program with id `program_id`, if created.
    pub fn get_program(&self, program_id: u32) -> (r: Option<&Program>)
        requires
            self.wf(),
        ensures
            r.is_some() == self.has_program(program_id),
            r.is_some() ==> *r.unwrap() == self.program(program_id),
    {
        if program_id == 0 || program_id as usize > self.programs.len() {
            None
        } else {
            Some(&self.programs[(program_id - 1) as usize])
        }
    }

    /// Commits `amount` more of the budget of program `program_id`; the
    /// allocation never passes the budget ceiling. Administrator only.
    pub fn allocate_to_program(&mut self, auth: &Auth, program_id: u32, amount: i128) -> (r: Result<
        (),
        LedgerError,
    >)
        requires
            old(self).wf(),
        ensures
            final(self).wf(),
            r.is_err() ==> *final(self) == *old(self),
            !auth.authorizes(old(self).spec_admin()) ==> r == Err::<(), LedgerError>(
                LedgerError::Unauthorized,
            ),
            auth.authorizes(old(self).spec_admin()) && amount < 0 ==> r == Err::<(), LedgerError>(
                LedgerError::InvalidAmount,
            ),
            auth.authorizes(old(self).spec_admin()) && amount >= 0 && !old(self).has_program(
                program_id,
            ) ==> r == Err::<(), LedgerError>(LedgerError::ProgramNotFound),
            auth.authorizes(old(self).spec_admin()) && amount >= 0 && old(self).has_program(
                program_id,
            ) && !old(self).program(program_id).active ==> r == Err::<(), LedgerError>(
                LedgerError::ProgramInactive,
            ),
            auth.authorizes(old(self).spec_admin()) && amount >= 0 && old(self).has_program(
                program_id,
            ) && old(self).program(program_id).active && old(self).program(program_id).allocated
                + amount > old(self).program(program_id).total_budget ==> r == Err::<
                (),
                LedgerError,
            >(LedgerError::BudgetExceeded),
            auth.authorizes(old(self).spec_admin()) && amount >= 0 && old(self).has_program(
                program_id,
            ) && old(self).program(program_id).active && old(self).program(program_id).allocated
                + amount <= old(self).program(program_id).total_budget ==> {
                &&& r == Ok::<(), LedgerError>(())
                &&& final(self).programs() == old(self).programs().update(
                    program_id - 1,
                    (Program {
                        allocated: (old(self).program(program_id).allocated + amount) as i128,
                        ..old(self).program(program_id)
                    }),
                )
                &&& final(self).spec_admin() == old(self).spec_admin()
                &&& final(self).spec_token() == old(self).spec_token()
            },
    {
        if !auth.has(self.admin) {
            return Err(LedgerError::Unauthorized);
        }
        if amount < 0 {
            return Err(LedgerError::InvalidAmount);
        }
        if program_id == 0 || program_id as usize > self.programs.len() {
            return Err(LedgerError::ProgramNotFound);
        }
        let i = (program_id - 1) as usize;
        if !self.programs[i].active {
            return Err(LedgerError::ProgramInactive);
        }
        let allocated = self.programs[i].allocated;
        if amount > self.programs[i].total_budget - allocated {
            return Err(LedgerError::BudgetExceeded);
        }
        self.programs[i].allocated = allocated + amount;
        proof {
            self.lemma_wf_after_update(*old(self), i as int);
        }
        Ok(())
    }

    proof fn lemma_wf_after_update(&self, before: Self, i: int)
        requires
            before.wf(),
            0 <= i < before.programs@.len(),
            self.programs@ == before.programs@.update(i, self.programs@[i]),
            self.programs@[i].id == before.programs@[i].id,
            0 <= self.programs@[i].spent <= self.programs@[i].allocated
                <= self.programs@[i].total_budget,
        ensures
            self.wf(),
    {
        assert forall|j: int| 0 <= j < self.programs@.len() implies #[trigger]
            self.programs@[j].id == j + 1 && 0 <= self.programs@[j].spent
            <= self.programs@[j].allocated <= self.programs@[j].total_budget by {
            assert(before.programs@[j].id == j + 1);
            if j != i {
                assert(self.programs@[j] == before.programs@[j]);
            }
        }
        assert(self.programs@.len() == before.programs@.len());
    }

    /// The transfer a voucher issue needs, or the error it fails with before
    /// any funds move, checked in this order: the program exists, its NGO
    /// authorized the call, the amount is non-negative, the program is
    /// active, the amount fits in the unspent allocation. The manager's
    /// account pays `amount` to the voucher ledger at `voucher_manager`.
    pub open spec fn issue_plan(
        &self,
        auth: &Auth,
        program_id: u32,
        amount: i128,
        voucher_manager: Address,
    ) -> Result<Transfer, LedgerError> {
        if !self.has_program(program_id) {
            Err(LedgerError::ProgramNotFound)
        } else if !auth.authorizes(self.program(program_id).ngo) {
            Err(LedgerError::Unauthorized)
        } else if amount < 0 {
            Err(LedgerError::InvalidAmount)
        } else if !self.program(program_id).active {
            Err(LedgerError::ProgramInactive)
        } else if amount > self.program(program_id).allocated - self.program(program_id).spent {
            Err(LedgerError::InsufficientAllocation)
        } else {
            Ok(Transfer { from: self.spec_account(), to: voucher_manager, amount })
        }
    }

    /// The transfer `issue_voucher` needs for these arguments, or its error.
    pub fn plan_issue_voucher(
        &self,
        auth: &Auth,
        program_id: u32,
        amount: i128,
        voucher_manager: Address,
    ) -> (r: Result<Transfer, LedgerError>)
        requires
            self.wf(),
        ensures
            r == self.issue_plan(auth, program_id, amount, voucher_manager),
    {
        if program_id == 0 || program_id as usize > self.programs.len() {
            return Err(LedgerError::ProgramNotFound);
        }
        let i = (program_id - 1) as usize;
        if !auth.has(self.programs[i].ngo) {
            return Err(LedgerError::Unauthorized);
        }
        if amount < 0 {
            return Err(LedgerError::InvalidAmount);
        }
        if !self.programs[i].active {
            return Err(LedgerError::ProgramInactive);
        }
        proof {
            assert(self.programs@[i as int].id == i + 1);
        }
        if amount > self.programs[i].allocated - self.programs[i].spent {
            return Err(LedgerError::InsufficientAllocation);
        }
        Ok(Transfer { from: self.account, to: voucher_manager, amount })
    }

    /// Spends `amount` of program `program_id`'s unspent allocation on
    /// vouchers for `beneficiary`, which the voucher ledger at
    /// `voucher_manager` credits. `transfer` is the outcome of the transfer
    /// that `plan_issue_voucher` names, from the manager's account to that
    /// ledger. Requires the authorization of the program's NGO.
    pub fn issue_voucher(
        &mut self,
        auth: &Auth,
        program_id: u32,
        beneficiary: Address,
        amount: i128,
        voucher_manager: Address,
        transfer: Result<(), TransferError>,
    ) -> (r: Result<(), LedgerError>)
        requires
            old(self).wf(),
        ensures
            final(self).wf(),
            r.is_err() ==> *final(self) == *old(self),
            match settle(old(self).issue_plan(auth, program_id, amount, voucher_manager), transfer) {
                Err(e) => r == Err::<(), LedgerError>(e),
                Ok(_) => r.is_ok(),
            },
            !old(self).has_program(program_id) ==> r == Err::<(), LedgerError>(
                LedgerError::ProgramNotFound,
            ),
            old(self).has_program(program_id) && !auth.authorizes(old(self).program(program_id).ngo)
                ==> r == Err::<(), LedgerError>(LedgerError::Unauthorized),
            old(self).has_program(program_id) && auth.authorizes(old(self).program(program_id).ngo)
                && amount < 0 ==> r == Err::<(), LedgerError>(LedgerError::InvalidAmount),
            old(self).has_program(program_id) && auth.authorizes(old(self).program(program_id).ngo)
                && amount >= 0 && !old(self).program(program_id).active ==> r == Err::<
                (),
                LedgerError,
            >(LedgerError::ProgramInactive),
            old(self).has_program(program_id) && auth.authorizes(old(self).program(program_id).ngo)
                && amount >= 0 && old(self).program(program_id).active && amount > old(self).program(
                program_id,
            ).allocated - old(self).program(program_id).spent ==> r == Err::<(), LedgerError>(
                LedgerError::InsufficientAllocation,
            ),
            old(self).has_program(program_id) && auth.authorizes(old(self).program(program_id).ngo)
                && amount >= 0 && old(self).program(program_id).active && amount <= old(self).program(
                program_id,
            ).allocated - old(self).program(program_id).spent && transfer.is_err() ==> r == Err::<
                (),
                LedgerError,
            >(LedgerError::TransferFailed),
            old(self).has_program(program_id) && auth.authorizes(old(self).program(program_id).ngo)
                && amount >= 0 && old(self).program(program_id).active && amount <= old(self).program(
                program_id,
            ).allocated - old(self).program(program_id).spent && transfer.is_ok() ==> {
                &&& r == Ok::<(), LedgerError>(())
                &&& final(self).programs() == old(self).programs().update(
                    program_id - 1,
                    (Program {
                        spent: (old(self).program(program_id).spent + amount) as i128,
                        ..old(self).program(program_id)
                    }),
                )
                &&& final(self).spec_admin() == old(self).spec_admin()
                &&& final(self).spec_token() == old(self).spec_token()
            },
    {
        if program_id == 0 || program_id as usize > self.programs.len() {
            return Err(LedgerError::ProgramNotFound);
        }
        let i = (program_id - 1) as usize;
        if !auth.has(self.programs[i].ngo) {
            return Err(LedgerError::Unauthorized);
        }
        if amount < 0 {
            return Err(LedgerError::InvalidAmount);
        }
        if !self.programs[i].active {
            return Err(LedgerError::ProgramInactive);
        }
        let spent = self.programs[i].spent;
        if amount > self.programs[i].allocated - spent {
            return Err(LedgerError::InsufficientAllocation);
        }
        if transfer.is_err() {
            return Err(LedgerError::TransferFailed);
        }
        self.programs[i].spent = spent + amount;
        proof {
            self.lemma_wf_after_update(*old(self), i as int);
        }
        Ok(())
    }

    /// Deactivates program `program_id` for good; deactivating it again
    /// changes nothing. Administrator only.
    pub fn deactivate_program(&mut self, auth: &Auth, program_id: u32) -> (r: Result<(), LedgerError>)
        requires
            old(self).wf(),
        ensures
            final(self).wf(),
            r.is_err() ==> *final(self) == *old(self),
            !auth.authorizes(old(self).spec_admin()) ==> r == Err::<(), LedgerError>(
                LedgerError::Unauthorized,
            ),
            auth.authorizes(old(self).spec_admin()) && !old(self).has_program(program_id) ==> r
                == Err::<(), LedgerError>(LedgerError::ProgramNotFound),
            auth.authorizes(old(self).spec_admin()) && old(self).has_program(program_id) ==> {
                &&& r == Ok::<(), LedgerError>(())
                &&& final(self).programs() == old(self).programs().update(
                    program_id - 1,
                    (Program { active: false, ..old(self).program(program_id) }),
                )
                &&& final(self).spec_admin() == old(self).spec_admin()
                &&& final(self).spec_token() == old(self).spec_token()
            },
    {
        if !auth.has(self.admin) {
            return Err(LedgerError::Unauthorized);
        }
        if program_id == 0 || program_id as usize > self.programs.len() {
            return Err(LedgerError::ProgramNotFound);
        }
        let i = (program_id - 1) as usize;
        self.programs[i].active = false;
        proof {
            self.lemma_wf_after_update(*old(self), i as int);
        }
        Ok(())
    }

    /// Number of programs created, which is also the last id issued.
    pub fn get_program_count(&self) -> (r: u32)
        requires
            self.wf(),
        ensures
            r == self.programs().len(),
    {
        self.programs.len() as u32
    }

    /// Ids of the active programs, in increasing order.
    pub fn get_active_programs(&self) -> (r: Vec<u32>)
        requires
            self.wf(),
        ensures
            r@ == active_ids(self.programs()),
    {
        let mut ids: Vec<u32> = Vec::new();
        let mut i: usize = 0;
        while i < self.programs.len()
            invariant
                0 <= i <= self.programs@.len(),
                ids@ == active_ids(self.programs@.take(i as int)),
            decreases self.programs@.len() - i,
        {
            proof {
                assert(self.programs@.take(i as int + 1).drop_last() =~= self.programs@.take(
                    i as int,
                ));
            }
            if self.programs[i].active {
                ids.push(self.programs[i].id);
            }
            i = i + 1;
        }
        proof {
            assert(self.programs@.take(i as int) =~= self.programs@);
        }
        ids
    }
}

/// Budget bound: in every well-formed manager, which is every manager that
/// `initialize` made and any sequence of operations changed, each program's
/// spending stays within its allocation and its allocation within its budget.
pub proof fn lemma_budget_bound(pm: &ProgramManager, program_id: u32)
    requires
        pm.wf(),
        pm.has_program(program_id),
    ensures
        pm.program(program_id).id == program_id,
        0 <= pm.program(program_id).spent <= pm.program(program_id).allocated <= pm.program(
            program_id,
        ).total_budget,
{
    assert(pm.programs()[program_id - 1].id == program_id);
}

} // verus!
