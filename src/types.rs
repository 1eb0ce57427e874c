use vstd::prelude::*;

verus! {

/// An opaque participant identifier: a donor, an NGO, a beneficiary, a
/// merchant, an administrator or a contract.
#[derive(Clone, Copy, Debug, PartialEq, Eq, Hash, Structural)]
pub struct Address(pub u64);

/// The set of participants that authorized the current call.
#[derive(Debug)]
pub struct Auth {
    pub signers: Vec<Address>,
}

impl Auth {
    /// Whether `a` authorized the call.
    pub open spec fn authorizes(&self, a: Address) -> bool {
        self.signers@.contains(a)
    }

    /// A call that nobody signed.
    pub fn none() -> (r: Auth)
        ensures
            forall|a: Address| !r.authorizes(a),
    {
        Auth { signers: Vec::new() }
    }

    /// A call signed by `a` alone.
    pub fn signed_by(a: Address) -> (r: Auth)
        ensures
            forall|b: Address| r.authorizes(b) <==> b == a,
    {
        let mut signers = Vec::new();
        signers.push(a);
        proof {
            assert forall|b: Address| signers@.contains(b) <==> b == a by {
                if b == a {
                    assert(signers@[0] == a);
                }
            }
        }
        Auth { signers }
    }

    /// Checks whether `a` authorized the call.
    pub fn has(&self, a: Address) -> (r: bool)
        ensures
            r == self.authorizes(a),
    {
        let mut i: usize = 0;
        while i < self.signers.len()
            invariant
                0 <= i <= self.signers@.len(),
                forall|j: int| 0 <= j < i ==> self.signers@[j] != a,
            decreases self.signers@.len() - i,
        {
            if self.signers[i] == a {
                return true;
            }
            i = i + 1;
        }
        false
    }
}

/// A movement of `amount` of the ledger's token from `from` to `to`, made by
/// the asset-transfer capability on an operation's behalf.
#[derive(Clone, Copy, Debug, PartialEq, Eq, Structural)]
pub struct Transfer {
    pub from: Address,
    pub to: Address,
    pub amount: i128,
}

/// The reason an external asset transfer was rejected.
#[derive(Clone, Copy, Debug, PartialEq, Eq, Structural)]
pub enum TransferError {
    /// The asset-transfer capability refused to move the funds.
    Rejected,
}

/// A named failure of a ledger operation. Every operation that fails leaves
/// its component unchanged.
#[derive(Clone, Copy, Debug, PartialEq, Eq, Structural)]
pub enum LedgerError {
    /// The required participant did not authorize the call.
    Unauthorized,
    /// The referenced entity does not exist.
    NotFound,
    /// The referenced program does not exist.
    ProgramNotFound,
    /// A merchant with this address is already registered.
    AlreadyRegistered,
    /// The entity was already created (a second credential for one redemption,
    /// a second initialization).
    AlreadyExists,
    /// A donor withdrawal exceeds the donor's balance.
    InsufficientBalance,
    /// An amount exceeds what is available in a vault pool.
    InsufficientFunds,
    /// A voucher issue exceeds the program's unspent allocation.
    InsufficientAllocation,
    /// An allocation would take a program past its total budget.
    BudgetExceeded,
    /// A redemption exceeds the beneficiary's voucher balance.
    InsufficientVoucherBalance,
    /// The merchant is not in the `Verified` state.
    MerchantNotVerified,
    /// The program has been deactivated.
    ProgramInactive,
    /// The operation is not allowed in the entity's current state.
    InvalidState,
    /// The caller does not own the credential.
    NotOwner,
    /// The credential is not listed for sale.
    NotForSale,
    /// An amount, price or budget is negative.
    InvalidAmount,
    /// A counter or running total would leave its integer range.
    Overflow,
    /// The external asset transfer was rejected.
    TransferFailed,
}

/// What an operation that moves funds returns once its plan is known: the
/// plan's own error, `TransferFailed` when the planned transfer was
/// rejected, `Ok` otherwise.
pub open spec fn settle(plan: Result<Transfer, LedgerError>, transfer: Result<(), TransferError>) -> Result<
    (),
    LedgerError,
> {
    match plan {
        Err(e) => Err(e),
        Ok(_) => if transfer.is_err() {
            Err(LedgerError::TransferFailed)
        } else {
            Ok(())
        },
    }
}

} // verus!
