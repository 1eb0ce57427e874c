use vstd::prelude::*;

use crate::types::{Address, Auth, LedgerError};

verus! {

/// Approval state of a submitted proof of service delivery.
#[derive(Clone, Copy, Debug, PartialEq, Eq, Structural)]
pub enum ProofStatus {
    Pending,
    Verified,
}

/// A merchant's proof of service delivery.
#[derive(Clone, Debug)]
pub struct ImpactProof {
    pub merchant: Address,
    pub service_type: String,
    pub amount: i128,
    /// Content identifier of the proof documents.
    pub proof_hash: String,
    pub status: ProofStatus,
}

/// Receives distributed yield and keeps merchants' proofs of delivery for
/// approval.
pub struct ImpactContract {
    admin: Address,
    proofs: Vec<ImpactProof>,
    yield_balance: i128,
}

impl ImpactContract {
    /// The administrator who approves proofs.
    pub closed spec fn spec_admin(&self) -> Address {
        self.admin
    }

    /// The submitted proofs; the one with id `i + 1` is at position `i`.
    pub closed spec fn proofs(&self) -> Seq<ImpactProof> {
        self.proofs@
    }

    /// The yield received so far.
    pub closed spec fn yield_balance(&self) -> int {
        self.yield_balance as int
    }

    pub closed spec fn wf(&self) -> bool {
        &&& self.proofs@.len() <= u32::MAX
        &&& self.yield_balance >= 0
    }

    /// Whether `proof_id` names a submitted proof.
    pub open spec fn has_proof(&self, proof_id: u32) -> bool {
        1 <= proof_id <= self.proofs().len()
    }

    /// A contract with no proofs and no yield.
    pub fn initialize(admin: Address) -> (r: Self)
        ensures
            r.wf(),
            r.spec_admin() == admin,
            r.proofs() == Seq::<ImpactProof>::empty(),
            r.yield_balance() == 0,
    {
        ImpactContract { admin, proofs: Vec::new(), yield_balance: 0 }
    }

    /// Records `amount` of yield received from `from`. Requires the sender's
    /// authorization.
    pub fn receive_yield(&mut self, auth: &Auth, from: Address, amount: i128) -> (r: Result<
        (),
        LedgerError,
    >)
        requires
            old(self).wf(),
        ensures
            final(self).wf(),
            r.is_err() ==> *final(self) == *old(self),
            !auth.authorizes(from) ==> r == Err::<(), LedgerError>(LedgerError::Unauthorized),
            auth.authorizes(from) && amount < 0 ==> r == Err::<(), LedgerError>(
                LedgerError::InvalidAmount,
            ),
            auth.authorizes(from) && amount >= 0 && old(self).yield_balance() + amount > i128::MAX
                ==> r == Err::<(), LedgerError>(LedgerError::Overflow),
            auth.authorizes(from) && amount >= 0 && old(self).yield_balance() + amount <= i128::MAX
                ==> {
                &&& r == Ok::<(), LedgerError>(())
                &&& final(self).yield_balance() == old(self).yield_balance() + amount
                &&& final(self).proofs() == old(self).proofs()
                &&& final(self).spec_admin() == old(self).spec_admin()
            },
    {
        if !auth.has(from) {
            return Err(LedgerError::Unauthorized);
        }
        if amount < 0 {
            return Err(LedgerError::InvalidAmount);
        }
        match self.yield_balance.checked_add(amount) {
            Some(b) => {
                self.yield_balance = b;
                Ok(())
            },
            None => Err(LedgerError::Overflow),
        }
    }

    /// Records a pending proof of delivery by `merchant` under the next proof
    /// id. Requires the merchant's authorization.
    pub fn submit_proof(
        &mut self,
        auth: &Auth,
        merchant: Address,
        service_type: String,
        amount: i128,
        proof_hash: String,
    ) -> (r: Result<u32, LedgerError>)
        requires
            old(self).wf(),
        ensures
            final(self).wf(),
            r.is_err() ==> *final(self) == *old(self),
            !auth.authorizes(merchant) ==> r == Err::<u32, LedgerError>(LedgerError::Unauthorized),
            auth.authorizes(merchant) && amount < 0 ==> r == Err::<u32, LedgerError>(
                LedgerError::InvalidAmount,
            ),
            auth.authorizes(merchant) && amount >= 0 && old(self).proofs().len() == u32::MAX ==> r
                == Err::<u32, LedgerError>(LedgerError::Overflow),
            auth.authorizes(merchant) && amount >= 0 && old(self).proofs().len() < u32::MAX ==> {
                &&& r == Ok::<u32, LedgerError>((old(self).proofs().len() + 1) as u32)
                &&& final(self).proofs() == old(self).proofs().push(
                    (ImpactProof {
                        merchant,
                        service_type,
                        amount,
                        proof_hash,
                        status: ProofStatus::Pending,
                    }),
                )
                &&& final(self).yield_balance() == old(self).yield_balance()
                &&& final(self).spec_admin() == old(self).spec_admin()
            },
    {
        if !auth.has(merchant) {
            return Err(LedgerError::Unauthorized);
        }
        if amount < 0 {
            return Err(LedgerError::InvalidAmount);
        }
        let count = self.proofs.len();
        if count >= 0xffff_ffffusize {
            return Err(LedgerError::Overflow);
        }
        self.proofs.push(
            ImpactProof { merchant, service_type, amount, proof_hash, status: ProofStatus::Pending },
        );
        Ok((count + 1) as u32)
    }

    /// Marks proof `proof_id` verified and returns the id of the credential
    /// that proves it, which is the proof id. Administrator only.
    pub fn verify_proof(&mut self, auth: &Auth, proof_id: u32) -> (r: Result<u32, LedgerError>)
        requires
            old(self).wf(),
        ensures
            final(self).wf(),
            r.is_err() ==> *final(self) == *old(self),
            !auth.authorizes(old(self).spec_admin()) ==> r == Err::<u32, LedgerError>(
                LedgerError::Unauthorized,
            ),
            auth.authorizes(old(self).spec_admin()) && !old(self).has_proof(proof_id) ==> r
                == Err::<u32, LedgerError>(LedgerError::NotFound),
            auth.authorizes(old(self).spec_admin()) && old(self).has_proof(proof_id) ==> {
                &&& r == Ok::<u32, LedgerError>(proof_id)
                &&& final(self).proofs() == old(self).proofs().update(
                    proof_id - 1,
                    (ImpactProof {
                        status: ProofStatus::Verified,
                        ..old(self).proofs()[proof_id - 1]
                    }),
                )
                &&& final(self).yield_balance() == old(self).yield_balance()
                &&& final(self).spec_admin() == old(self).spec_admin()
            },
    {
        if !auth.has(self.admin) {
            return Err(LedgerError::Unauthorized);
        }
        if proof_id == 0 || proof_id as usize > self.proofs.len() {
            return Err(LedgerError::NotFound);
        }
        self.proofs[(proof_id - 1) as usize].status = ProofStatus::Verified;
        Ok(proof_id)
    }

    /// The proof with id `proof_id`, if submitted.
    pub fn get_proof(&self, proof_id: u32) -> (r: Option<&ImpactProof>)
        requires
            self.wf(),
        ensures
            r.is_some() == self.has_proof(proof_id),
            r.is_some() ==> *r.unwrap() == self.proofs()[proof_id - 1],
    {
        if proof_id == 0 || proof_id as usize > self.proofs.len() {
            None
        } else {
            Some(&self.proofs[(proof_id - 1) as usize])
        }
    }

    /// Number of proofs submitted.
    pub fn get_total_proofs(&self) -> (r: u32)
        requires
            self.wf(),
        ensures
            r == self.proofs().len(),
    {
        self.proofs.len() as u32
    }

    /// The yield received so far.
    pub fn get_yield_balance(&self) -> (r: i128)
        requires
            self.wf(),
        ensures
            r == self.yield_balance(),
    {
        self.yield_balance
    }
}

} // verus!
