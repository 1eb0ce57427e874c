use vstd::prelude::*;

use crate::table::Table;
use crate::types::{Address, Auth, LedgerError};

verus! {

/// Verification state of a merchant.
#[derive(Clone, Copy, Debug, PartialEq, Eq, Structural)]
pub enum MerchantStatus {
    Pending,
    Verified,
    Suspended,
    Rejected,
}

/// An administrator's decision on a merchant.
#[derive(Clone, Copy, Debug, PartialEq, Eq, Structural)]
pub enum StatusAction {
    Verify,
    Suspend,
    Reject,
}

/// The transition table of the merchant state machine: `Pending -> Verified`,
/// `Pending -> Rejected`, `Verified -> Suspended` and `Suspended -> Verified`.
/// Repeating the decision that led to the current state changes nothing and
/// is allowed; every other pair is refused (`None`).
pub open spec fn next_status(s: MerchantStatus, a: StatusAction) -> Option<MerchantStatus> {
    match a {
        StatusAction::Verify => match s {
            MerchantStatus::Rejected => None,
            _ => Some(MerchantStatus::Verified),
        },
        StatusAction::Suspend => match s {
            MerchantStatus::Verified | MerchantStatus::Suspended => Some(MerchantStatus::Suspended),
            _ => None,
        },
        StatusAction::Reject => match s {
            MerchantStatus::Pending | MerchantStatus::Rejected => Some(MerchantStatus::Rejected),
            _ => None,
        },
    }
}

impl MerchantStatus {
    /// The state reached from `self` by `action`, if the transition is allowed.
    pub fn after(self, action: StatusAction) -> (r: Option<MerchantStatus>)
        ensures
            r == next_status(self, action),
    {
        match action {
            StatusAction::Verify => match self {
                MerchantStatus::Rejected => None,
                _ => Some(MerchantStatus::Verified),
            },
            StatusAction::Suspend => match self {
                MerchantStatus::Verified | MerchantStatus::Suspended => Some(
                    MerchantStatus::Suspended,
                ),
                _ => None,
            },
            StatusAction::Reject => match self {
                MerchantStatus::Pending | MerchantStatus::Rejected => Some(
                    MerchantStatus::Rejected,
                ),
                _ => None,
            },
        }
    }
}

/// A merchant profile.
#[derive(Clone, Debug)]
pub struct Merchant {
    pub address: Address,
    pub name: String,
    /// Humanitarian service category.
    pub category: String,
    pub status: MerchantStatus,
    /// Content identifier of the verification documents.
    pub document_hash: String,
    pub total_redemptions: u32,
    pub total_volume: i128,
}

/// `a + b`, held to the range of `u32`.
pub open spec fn saturating_u32(a: int, b: int) -> u32 {
    if a + b > u32::MAX {
        u32::MAX
    } else {
        (a + b) as u32
    }
}

/// `a + b`, held to the range of `i128`.
pub open spec fn saturating_i128(a: int, b: int) -> i128 {
    if a + b > i128::MAX {
        i128::MAX
    } else if a + b < i128::MIN {
        i128::MIN
    } else {
        (a + b) as i128
    }
}

/// Merchants recorded under `category`, in order of registration.
pub open spec fn in_category(s: Seq<(Address, Merchant)>, category: Seq<char>) -> Seq<Address>
    decreases s.len(),
{
    if s.len() == 0 {
        Seq::empty()
    } else if s.last().1.category@ == category {
        in_category(s.drop_last(), category).push(s.last().0)
    } else {
        in_category(s.drop_last(), category)
    }
}

/// Merchant identities and their verification state machine.
pub struct MerchantRegistry {
    admin: Address,
    merchants: Table<Address, Merchant>,
}

impl MerchantRegistry {
    /// The administrator who decides on merchants.
    pub closed spec fn spec_admin(&self) -> Address {
        self.admin
    }

    /// The registered merchants by address.
    pub closed spec fn merchants(&self) -> Map<Address, Merchant> {
        self.merchants@
    }

    /// The registered merchants in order of registration.
    pub closed spec fn registration_order(&self) -> Seq<(Address, Merchant)> {
        self.merchants.entries()
    }

    pub closed spec fn wf(&self) -> bool {
        &&& self.merchants.wf()
        &&& self.merchants@.len() <= u32::MAX
        &&& forall|a: Address| #[trigger]
            self.merchants@.contains_key(a) ==> self.merchants@[a].address == a
    }

    /// Whether `m` is registered and in the `Verified` state.
    pub open spec fn spec_is_verified(&self, m: Address) -> bool {
        self.merchants().contains_key(m) && self.merchants()[m].status == MerchantStatus::Verified
    }

    /// The profiles after one redemption of `amount` at `merchant` is counted.
    pub open spec fn after_redemption(&self, merchant: Address, amount: i128) -> Map<Address, Merchant> {
        if self.merchants().contains_key(merchant) {
            let m = self.merchants()[merchant];
            self.merchants().insert(
                merchant,
                Merchant {
                    total_redemptions: saturating_u32(m.total_redemptions as int, 1),
                    total_volume: saturating_i128(m.total_volume as int, amount as int),
                    ..m
                },
            )
        } else {
            self.merchants()
        }
    }

    /// A registry with no merchants, administered by `admin`.
    pub fn initialize(admin: Address) -> (r: Self)
        ensures
            r.wf(),
            r.spec_admin() == admin,
            r.merchants() == Map::<Address, Merchant>::empty(),
    {
        MerchantRegistry { admin, merchants: Table::new() }
    }

    /// Registers `merchant` in the `Pending` state with zeroed statistics.
    /// Requires the merchant's own authorization.
    pub fn register_merchant(
        &mut self,
        auth: &Auth,
        merchant: Address,
        name: String,
        category: String,
        document_hash: String,
    ) -> (r: Result<(), LedgerError>)
        requires
            old(self).wf(),
        ensures
            final(self).wf(),
            r.is_err() ==> *final(self) == *old(self),
            !auth.authorizes(merchant) ==> r == Err::<(), LedgerError>(LedgerError::Unauthorized),
            auth.authorizes(merchant) && old(self).merchants().contains_key(merchant) ==> r == Err::<
                (),
                LedgerError,
            >(LedgerError::AlreadyRegistered),
            auth.authorizes(merchant) && !old(self).merchants().contains_key(merchant)
                && old(self).merchants().len() == u32::MAX ==> r == Err::<(), LedgerError>(
                LedgerError::Overflow,
            ),
            auth.authorizes(merchant) && !old(self).merchants().contains_key(merchant)
                && old(self).merchants().len() < u32::MAX ==> {
                &&& r == Ok::<(), LedgerError>(())
                &&& final(self).spec_admin() == old(self).spec_admin()
                &&& final(self).merchants().dom().finite()
                &&& final(self).merchants().len() == old(self).merchants().len() + 1
                &&& final(self).merchants() == old(self).merchants().insert(
                    merchant,
                    (Merchant {
                        address: merchant,
                        name: name,
                        category: category,
                        status: MerchantStatus::Pending,
                        document_hash: document_hash,
                        total_redemptions: 0,
                        total_volume: 0,
                    }),
                )
            },
    {
        if !auth.has(merchant) {
            return Err(LedgerError::Unauthorized);
        }
        if self.merchants.get(&merchant).is_some() {
            return Err(LedgerError::AlreadyRegistered);
        }
        if self.merchants.len() >= 0xffff_ffffusize {
            return Err(LedgerError::Overflow);
        }
        let profile = Merchant {
            address: merchant,
            name,
            category,
            status: MerchantStatus::Pending,
            document_hash,
            total_redemptions: 0,
            total_volume: 0,
        };
        proof {
            old(self).merchants.lemma_finite();
        }
        self.merchants.insert(merchant, profile);
        proof {
            self.merchants.lemma_finite();
            assert(self.merchants@.len() == old(self).merchants@.len() + 1);
        }
        Ok(())
    }

    /// Applies an administrator's decision to `merchant` through the
    /// transition table.
    fn decide(&mut self, auth: &Auth, merchant: Address, action: StatusAction) -> (r: Result<
        (),
        LedgerError,
    >)
        requires
            old(self).wf(),
        ensures
            final(self).wf(),
            r.is_err() ==> *final(self) == *old(self),
            r == old(self).decision_outcome(auth, merchant, action),
            r.is_ok() ==> final(self).spec_admin() == old(self).spec_admin()
                && final(self).merchants() == old(self).merchants().insert(
                merchant,
                (Merchant {
                    status: next_status(old(self).merchants()[merchant].status, action).unwrap(),
                    ..old(self).merchants()[merchant]
                }),
            ),
    {
        if !auth.has(self.admin) {
            return Err(LedgerError::Unauthorized);
        }
        let current = match self.merchants.get(&merchant) {
            Some(m) => m,
            None => {
                return Err(LedgerError::NotFound);
            },
        };
        let status = match current.status.after(action) {
            Some(s) => s,
            None => {
                return Err(LedgerError::InvalidState);
            },
        };
        let updated = Merchant {
            address: current.address,
            name: current.name.clone(),
            category: current.category.clone(),
            status,
            document_hash: current.document_hash.clone(),
            total_redemptions: current.total_redemptions,
            total_volume: current.total_volume,
        };
        self.merchants.insert(merchant, updated);
        proof {
            assert(self.merchants@.dom() =~= old(self).merchants@.dom());
        }
        Ok(())
    }

    /// What an administrator's decision returns: `Unauthorized` without the
    /// administrator's authorization, `NotFound` for an unknown merchant,
    /// `InvalidState` where the transition table refuses the move.
    pub open spec fn decision_outcome(&self, auth: &Auth, merchant: Address, action: StatusAction) -> Result<
        (),
        LedgerError,
    > {
        if !auth.authorizes(self.spec_admin()) {
            Err(LedgerError::Unauthorized)
        } else if !self.merchants().contains_key(merchant) {
            Err(LedgerError::NotFound)
        } else if next_status(self.merchants()[merchant].status, action).is_none() {
            Err(LedgerError::InvalidState)
        } else {
            Ok(())
        }
    }

    /// Moves `merchant` to `Verified` (from `Pending`, or back from
    /// `Suspended`). Administrator only.
    pub fn verify_merchant(&mut self, auth: &Auth, merchant: Address) -> (r: Result<(), LedgerError>)
        requires
            old(self).wf(),
        ensures
            final(self).wf(),
            r.is_err() ==> *final(self) == *old(self),
            r == old(self).decision_outcome(auth, merchant, StatusAction::Verify),
            r.is_ok() ==> final(self).spec_admin() == old(self).spec_admin()
                && final(self).merchants() == old(self).merchants().insert(
                merchant,
                (Merchant { status: MerchantStatus::Verified, ..old(self).merchants()[merchant] }),
            ),
    {
        self.decide(auth, merchant, StatusAction::Verify)
    }

    /// Moves a `Verified` merchant to `Suspended`. Administrator only.
    pub fn suspend_merchant(&mut self, auth: &Auth, merchant: Address) -> (r: Result<(), LedgerError>)
        requires
            old(self).wf(),
        ensures
            final(self).wf(),
            r.is_err() ==> *final(self) == *old(self),
            r == old(self).decision_outcome(auth, merchant, StatusAction::Suspend),
            r.is_ok() ==> final(self).spec_admin() == old(self).spec_admin()
                && final(self).merchants() == old(self).merchants().insert(
                merchant,
                (Merchant { status: MerchantStatus::Suspended, ..old(self).merchants()[merchant] }),
            ),
    {
        self.decide(auth, merchant, StatusAction::Suspend)
    }

    /// Moves a `Pending` merchant to `Rejected`. Administrator only.
    pub fn reject_merchant(&mut self, auth: &Auth, merchant: Address) -> (r: Result<(), LedgerError>)
        requires
            old(self).wf(),
        ensures
            final(self).wf(),
            r.is_err() ==> *final(self) == *old(self),
            r == old(self).decision_outcome(auth, merchant, StatusAction::Reject),
            r.is_ok() ==> final(self).spec_admin() == old(self).spec_admin()
                && final(self).merchants() == old(self).merchants().insert(
                merchant,
                (Merchant { status: MerchantStatus::Rejected, ..old(self).merchants()[merchant] }),
            ),
    {
        self.decide(auth, merchant, StatusAction::Reject)
    }

    /// The profile of `merchant`, if registered.
    pub fn get_merchant(&self, merchant: Address) -> (r: Option<&Merchant>)
        requires
            self.wf(),
        ensures
            r.is_some() == self.merchants().contains_key(merchant),
            r.is_some() ==> *r.unwrap() == self.merchants()[merchant],
    {
        self.merchants.get(&merchant)
    }

    /// Whether `merchant` is registered and `Verified`.
    pub fn is_verified(&self, merchant: Address) -> (r: bool)
        requires
            self.wf(),
        ensures
            r == self.spec_is_verified(merchant),
    {
        match self.merchants.get(&merchant) {
            Some(m) => m.status == MerchantStatus::Verified,
            None => false,
        }
    }

    /// Adds one redemption of `amount` to the statistics of `merchant`, each
    /// counter held to its integer range. Does nothing for an unregistered
    /// merchant: statistics never block a payment.
    pub fn record_redemption(&mut self, merchant: Address, amount: i128)
        requires
            old(self).wf(),
        ensures
            final(self).wf(),
            final(self).spec_admin() == old(self).spec_admin(),
            !old(self).merchants().contains_key(merchant) ==> *final(self) == *old(self),
            final(self).merchants() == old(self).after_redemption(merchant, amount),
    {
        let current = match self.merchants.get(&merchant) {
            Some(m) => m,
            None => {
                return;
            },
        };
        let redemptions = current.total_redemptions.saturating_add(1);
        let volume = match current.total_volume.checked_add(amount) {
            Some(v) => v,
            None => if amount > 0 {
                i128::MAX
            } else {
                i128::MIN
            },
        };
        let updated = Merchant {
            address: current.address,
            name: current.name.clone(),
            category: current.category.clone(),
            status: current.status,
            document_hash: current.document_hash.clone(),
            total_redemptions: redemptions,
            total_volume: volume,
        };
        self.merchants.insert(merchant, updated);
        proof {
            assert(self.merchants@.dom() =~= old(self).merchants@.dom());
        }
    }

    /// Number of registered merchants.
    pub fn get_merchant_count(&self) -> (r: u32)
        requires
            self.wf(),
        ensures
            r == self.merchants().len(),
            self.merchants().dom().finite(),
    {
        self.merchants.len() as u32
    }

    /// Addresses of the merchants registered under `category`, in order of
    /// registration.
    pub fn get_merchants_by_category(&self, category: &String) -> (r: Vec<Address>)
        requires
            self.wf(),
        ensures
            r@ == in_category(self.registration_order(), category@),
    {
        let n = self.merchants.len();
        let mut found: Vec<Address> = Vec::new();
        let mut i: usize = 0;
        while i < n
            invariant
                self.wf(),
                n == self.registration_order().len(),
                0 <= i <= n,
                found@ == in_category(self.registration_order().take(i as int), category@),
            decreases n - i,
        {
            let ghost s = self.registration_order().take(i as int + 1);
            proof {
                assert(s.drop_last() =~= self.registration_order().take(i as int));
            }
            if self.merchants.value_at(i).category == *category {
                found.push(self.merchants.key_at(i));
            }
            i = i + 1;
        }
        proof {
            assert(self.registration_order().take(n as int) =~= self.registration_order());
        }
        found
    }
}

} // verus!
