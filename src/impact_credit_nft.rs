use vstd::prelude::*;

use crate::types::{settle, Address, Auth, LedgerError, Transfer, TransferError};

verus! {

/// A proof-of-impact credential for one redemption.
#[derive(Clone, Debug)]
pub struct ImpactCreditNFT {
    pub token_id: u32,
    /// The redemption this credential proves.
    pub redemption_id: u32,
    pub beneficiary: Address,
    pub merchant: Address,
    pub program_id: u32,
    pub amount: i128,
    pub timestamp: u64,
    /// Content identifier of the proof documents.
    pub proof_hash: String,
    /// Content identifier of the credential's metadata.
    pub metadata_uri: String,
    /// The single current owner.
    pub owner: Address,
    pub for_sale: bool,
    pub price: i128,
}

/// Metadata location given to every credential.
pub open spec fn default_metadata_uri() -> Seq<char> {
    "ipfs://impact-credit/metadata"@
}

/// Whether some credential in `s` proves redemption `redemption_id`.
pub open spec fn mints_redemption(s: Seq<ImpactCreditNFT>, redemption_id: u32) -> bool {
    exists|i: int| 0 <= i < s.len() && #[trigger] s[i].redemption_id == redemption_id
}

/// Number of credentials in `s` owned by `owner`.
pub open spec fn owned_by(s: Seq<ImpactCreditNFT>, owner: Address) -> nat
    decreases s.len(),
{
    if s.len() == 0 {
        0
    } else {
        owned_by(s.drop_last(), owner) + if s.last().owner == owner {
            1nat
        } else {
            0nat
        }
    }
}

proof fn lemma_owned_by_bound(s: Seq<ImpactCreditNFT>, owner: Address)
    ensures
        owned_by(s, owner) <= s.len(),
    decreases s.len(),
{
    if s.len() > 0 {
        lemma_owned_by_bound(s.drop_last(), owner);
    }
}

/// Proof-of-impact credentials, at most one per redemption, and their
/// secondary market.
pub struct ImpactCreditNFTContract {
    admin: Address,
    usdc_token: Address,
    nfts: Vec<ImpactCreditNFT>,
}

impl ImpactCreditNFTContract {
    /// The minting authority, and first owner of every credential.
    pub closed spec fn spec_admin(&self) -> Address {
        self.admin
    }

    /// The token in which credentials are paid for.
    pub closed spec fn spec_token(&self) -> Address {
        self.usdc_token
    }

    /// The credentials; the one with token id `i + 1` is at position `i`.
    pub closed spec fn nfts(&self) -> Seq<ImpactCreditNFT> {
        self.nfts@
    }

    pub closed spec fn wf(&self) -> bool {
        &&& self.nfts@.len() <= u32::MAX
        &&& forall|i: int| 0 <= i < self.nfts@.len() ==> #[trigger] self.nfts@[i].token_id == i + 1
        &&& forall|i: int, j: int|
            0 <= i < j < self.nfts@.len() ==> #[trigger] self.nfts@[i].redemption_id
                != #[trigger] self.nfts@[j].redemption_id
    }

    /// Whether `token_id` names a minted credential.
    pub open spec fn minted(&self, token_id: u32) -> bool {
        1 <= token_id <= self.nfts().len()
    }

    /// The credential with id `token_id`.
    pub open spec fn nft(&self, token_id: u32) -> ImpactCreditNFT {
        self.nfts()[token_id - 1]
    }

    /// A registry with no credentials.
    pub fn initialize(admin: Address, usdc_token: Address) -> (r: Self)
        ensures
            r.wf(),
            r.spec_admin() == admin,
            r.spec_token() == usdc_token,
            r.nfts() == Seq::<ImpactCreditNFT>::empty(),
    {
        ImpactCreditNFTContract { admin, usdc_token, nfts: Vec::new() }
    }

    /// Whether a credential for `redemption_id` was minted.
    pub fn is_minted(&self, redemption_id: u32) -> (r: bool)
        requires
            self.wf(),
        ensures
            r == mints_redemption(self.nfts(), redemption_id),
    {
        let mut i: usize = 0;
        while i < self.nfts.len()
            invariant
                0 <= i <= self.nfts@.len(),
                forall|j: int| 0 <= j < i ==> #[trigger] self.nfts@[j].redemption_id != redemption_id,
            decreases self.nfts@.len() - i,
        {
            if self.nfts[i].redemption_id == redemption_id {
                return true;
            }
            i = i + 1;
        }
        false
    }

    /// What minting returns, checked in this order: the minting authority's
    /// authorization, a non-negative amount, no earlier credential for the
    /// redemption, room for another id. On success, the new token id.
    pub open spec fn mint_outcome(&self, auth: &Auth, redemption_id: u32, amount: i128) -> Result<
        u32,
        LedgerError,
    > {
        if !auth.authorizes(self.spec_admin()) {
            Err(LedgerError::Unauthorized)
        } else if amount < 0 {
            Err(LedgerError::InvalidAmount)
        } else if mints_redemption(self.nfts(), redemption_id) {
            Err(LedgerError::AlreadyExists)
        } else if self.nfts().len() >= u32::MAX {
            Err(LedgerError::Overflow)
        } else {
            Ok((self.nfts().len() + 1) as u32)
        }
    }

    /// Mints the credential for redemption `redemption_id` under the next
    /// token id. It is owned by the minting authority and listed for sale at
    /// the redeemed amount. A redemption gets at most one credential.
    pub fn mint_impact_nft(
        &mut self,
        auth: &Auth,
        redemption_id: u32,
        beneficiary: Address,
        merchant: Address,
        program_id: u32,
        amount: i128,
        proof_hash: String,
        timestamp: u64,
    ) -> (r: Result<u32, LedgerError>)
        requires
            old(self).wf(),
        ensures
            final(self).wf(),
            r == old(self).mint_outcome(auth, redemption_id, amount),
            r.is_err() ==> *final(self) == *old(self),
            r.is_ok() ==> {
                &&& final(self).spec_admin() == old(self).spec_admin()
                &&& final(self).spec_token() == old(self).spec_token()
                &&& final(self).nfts().drop_last() == old(self).nfts()
                &&& final(self).nfts().len() == old(self).nfts().len() + 1
                &&& forall|t: u32| #[trigger] final(self).minted(t) <==> (old(self).minted(t) || t == r.unwrap())
                &&& forall|t: u32| #[trigger] old(self).minted(t) ==> final(self).nft(t) == old(self).nft(t)
                &&& final(self).nft(r.unwrap()) == (ImpactCreditNFT {
                    token_id: r.unwrap(),
                    redemption_id,
                    beneficiary,
                    merchant,
                    program_id,
                    amount,
                    timestamp,
                    proof_hash,
                    metadata_uri: final(self).nft(r.unwrap()).metadata_uri,
                    owner: old(self).spec_admin(),
                    for_sale: true,
                    price: amount,
                })
                &&& final(self).nft(r.unwrap()).metadata_uri@ == default_metadata_uri()
            },
    {
        if !auth.has(self.admin) {
            return Err(LedgerError::Unauthorized);
        }
        if amount < 0 {
            return Err(LedgerError::InvalidAmount);
        }
        if self.is_minted(redemption_id) {
            return Err(LedgerError::AlreadyExists);
        }
        let count = self.nfts.len();
        if count >= 0xffff_ffffusize {
            return Err(LedgerError::Overflow);
        }
        let token_id = (count + 1) as u32;
        let nft = ImpactCreditNFT {
            token_id,
            redemption_id,
            beneficiary,
            merchant,
            program_id,
            amount,
            timestamp,
            proof_hash,
            metadata_uri: "ipfs://impact-credit/metadata".to_owned(),
            owner: self.admin,
            for_sale: true,
            price: amount,
        };
        self.nfts.push(nft);
        proof {
            assert(self.nfts@.drop_last() =~= old(self).nfts@);
            assert forall|i: int| 0 <= i < self.nfts@.len() implies #[trigger]
                self.nfts@[i].token_id == i + 1 by {
                if i < count {
                    assert(self.nfts@[i] == old(self).nfts@[i]);
                }
            }
            assert forall|i: int, j: int| 0 <= i < j < self.nfts@.len() implies #[trigger]
                self.nfts@[i].redemption_id != #[trigger] self.nfts@[j].redemption_id by {
                assert(self.nfts@[i] == old(self).nfts@[i]);
                if j < count {
                    assert(self.nfts@[j] == old(self).nfts@[j]);
                } else {
                    assert(!mints_redemption(old(self).nfts@, redemption_id));
                    assert(old(self).nfts@[i].redemption_id != redemption_id);
                }
            }
        }
        Ok(token_id)
    }

    /// The credential with id `token_id`, if minted.
    pub fn get_nft(&self, token_id: u32) -> (r: Option<&ImpactCreditNFT>)
        requires
            self.wf(),
        ensures
            r.is_some() == self.minted(token_id),
            r.is_some() ==> *r.unwrap() == self.nft(token_id),
    {
        if token_id == 0 || token_id as usize > self.nfts.len() {
            None
        } else {
            Some(&self.nfts[(token_id - 1) as usize])
        }
    }

    /// The owner of `token_id`, if minted.
    pub fn owner_of(&self, token_id: u32) -> (r: Option<Address>)
        requires
            self.wf(),
        ensures
            r.is_some() == self.minted(token_id),
            r.is_some() ==> r.unwrap() == self.nft(token_id).owner,
    {
        match self.get_nft(token_id) {
            Some(nft) => Some(nft.owner),
            None => None,
        }
    }

    /// Replaces the credential `token_id` by `nft`, which keeps its token id
    /// and redemption.
    fn replace(&mut self, token_id: u32, nft: ImpactCreditNFT)
        requires
            old(self).wf(),
            old(self).minted(token_id),
            nft.token_id == old(self).nft(token_id).token_id,
            nft.redemption_id == old(self).nft(token_id).redemption_id,
        ensures
            final(self).wf(),
            final(self).spec_admin() == old(self).spec_admin(),
            final(self).spec_token() == old(self).spec_token(),
            final(self).nfts() == old(self).nfts().update(token_id - 1, nft),
    {
        let i = (token_id - 1) as usize;
        self.nfts[i] = nft;
        proof {
            assert forall|j: int| 0 <= j < self.nfts@.len() implies #[trigger]
                self.nfts@[j].token_id == j + 1 by {
                assert(old(self).nfts@[j].token_id == j + 1);
            }
            assert forall|a: int, b: int| 0 <= a < b < self.nfts@.len() implies #[trigger]
                self.nfts@[a].redemption_id != #[trigger] self.nfts@[b].redemption_id by {
                assert(old(self).nfts@[a].redemption_id != old(self).nfts@[b].redemption_id);
            }
        }
    }

    /// The credential with its owner, sale flag and price replaced.
    fn with_owner(nft: &ImpactCreditNFT, owner: Address, for_sale: bool, price: i128) -> (r:
        ImpactCreditNFT)
        ensures
            r == (ImpactCreditNFT { owner, for_sale, price, ..*nft }),
    {
        ImpactCreditNFT {
            token_id: nft.token_id,
            redemption_id: nft.redemption_id,
            beneficiary: nft.beneficiary,
            merchant: nft.merchant,
            program_id: nft.program_id,
            amount: nft.amount,
            timestamp: nft.timestamp,
            proof_hash: nft.proof_hash.clone(),
            metadata_uri: nft.metadata_uri.clone(),
            owner,
            for_sale,
            price,
        }
    }

    /// Hands credential `token_id` from its owner `from` to `to` and takes it
    /// off sale. Requires the authorization of `from`.
    pub fn transfer(&mut self, auth: &Auth, from: Address, to: Address, token_id: u32) -> (r: Result<
        (),
        LedgerError,
    >)
        requires
            old(self).wf(),
        ensures
            final(self).wf(),
            r.is_err() ==> *final(self) == *old(self),
            !auth.authorizes(from) ==> r == Err::<(), LedgerError>(LedgerError::Unauthorized),
            auth.authorizes(from) && !old(self).minted(token_id) ==> r == Err::<(), LedgerError>(
                LedgerError::NotFound,
            ),
            auth.authorizes(from) && old(self).minted(token_id) && old(self).nft(token_id).owner
                != from ==> r == Err::<(), LedgerError>(LedgerError::NotOwner),
            auth.authorizes(from) && old(self).minted(token_id) && old(self).nft(token_id).owner
                == from ==> {
                &&& r == Ok::<(), LedgerError>(())
                &&& final(self).nfts() == old(self).nfts().update(
                    token_id - 1,
                    (ImpactCreditNFT { owner: to, for_sale: false, ..old(self).nft(token_id) }),
                )
                &&& final(self).nft(token_id).owner == to
                &&& !final(self).nft(token_id).for_sale
                &&& final(self).spec_admin() == old(self).spec_admin()
                &&& final(self).spec_token() == old(self).spec_token()
            },
    {
        if !auth.has(from) {
            return Err(LedgerError::Unauthorized);
        }
        let current = match self.get_nft(token_id) {
            Some(nft) => nft,
            None => {
                return Err(LedgerError::NotFound);
            },
        };
        if current.owner != from {
            return Err(LedgerError::NotOwner);
        }
        let price = current.price;
        let updated = Self::with_owner(current, to, false, price);
        self.replace(token_id, updated);
        Ok(())
    }

    /// Lists credential `token_id` for sale at `price`. Requires the
    /// authorization of its owner.
    pub fn list_for_sale(&mut self, auth: &Auth, owner: Address, token_id: u32, price: i128) -> (r:
        Result<(), LedgerError>)
        requires
            old(self).wf(),
        ensures
            final(self).wf(),
            r.is_err() ==> *final(self) == *old(self),
            !auth.authorizes(owner) ==> r == Err::<(), LedgerError>(LedgerError::Unauthorized),
            auth.authorizes(owner) && price < 0 ==> r == Err::<(), LedgerError>(
                LedgerError::InvalidAmount,
            ),
            auth.authorizes(owner) && price >= 0 && !old(self).minted(token_id) ==> r == Err::<
                (),
                LedgerError,
            >(LedgerError::NotFound),
            auth.authorizes(owner) && price >= 0 && old(self).minted(token_id) && old(self).nft(
                token_id,
            ).owner != owner ==> r == Err::<(), LedgerError>(LedgerError::NotOwner),
            auth.authorizes(owner) && price >= 0 && old(self).minted(token_id) && old(self).nft(
                token_id,
            ).owner == owner ==> {
                &&& r == Ok::<(), LedgerError>(())
                &&& final(self).nfts() == old(self).nfts().update(
                    token_id - 1,
                    (ImpactCreditNFT { for_sale: true, price, ..old(self).nft(token_id) }),
                )
                &&& final(self).spec_admin() == old(self).spec_admin()
                &&& final(self).spec_token() == old(self).spec_token()
            },
    {
        if !auth.has(owner) {
            return Err(LedgerError::Unauthorized);
        }
        if price < 0 {
            return Err(LedgerError::InvalidAmount);
        }
        let current = match self.get_nft(token_id) {
            Some(nft) => nft,
            None => {
                return Err(LedgerError::NotFound);
            },
        };
        if current.owner != owner {
            return Err(LedgerError::NotOwner);
        }
        let updated = Self::with_owner(current, owner, true, price);
        self.replace(token_id, updated);
        Ok(())
    }

    /// The payment a purchase needs, or the error it fails with before any
    /// funds move, checked in this order: the buyer's authorization, the
    /// credential exists, it is for sale. The buyer pays the listed price to
    /// the current owner.
    pub open spec fn buy_plan(&self, auth: &Auth, buyer: Address, token_id: u32) -> Result<
        Transfer,
        LedgerError,
    > {
        if !auth.authorizes(buyer) {
            Err(LedgerError::Unauthorized)
        } else if !self.minted(token_id) {
            Err(LedgerError::NotFound)
        } else if !self.nft(token_id).for_sale {
            Err(LedgerError::NotForSale)
        } else {
            Ok(Transfer { from: buyer, to: self.nft(token_id).owner, amount: self.nft(token_id).price })
        }
    }

    /// The payment `buy_nft` needs for these arguments, or its error.
    pub fn plan_buy_nft(&self, auth: &Auth, buyer: Address, token_id: u32) -> (r: Result<
        Transfer,
        LedgerError,
    >)
        requires
            self.wf(),
        ensures
            r == self.buy_plan(auth, buyer, token_id),
    {
        if !auth.has(buyer) {
            return Err(LedgerError::Unauthorized);
        }
        let current = match self.get_nft(token_id) {
            Some(nft) => nft,
            None => {
                return Err(LedgerError::NotFound);
            },
        };
        if !current.for_sale {
            return Err(LedgerError::NotForSale);
        }
        Ok(Transfer { from: buyer, to: current.owner, amount: current.price })
    }

    /// Sells credential `token_id` to `buyer` at its listed price: `transfer`
    /// is the outcome of the payment that `plan_buy_nft` names, from the buyer
    /// to the current owner. The
    /// buyer becomes the owner and the credential leaves the market. Requires
    /// the buyer's authorization.
    pub fn buy_nft(
        &mut self,
        auth: &Auth,
        buyer: Address,
        token_id: u32,
        transfer: Result<(), TransferError>,
    ) -> (r: Result<(), LedgerError>)
        requires
            old(self).wf(),
        ensures
            final(self).wf(),
            r.is_err() ==> *final(self) == *old(self),
            match settle(old(self).buy_plan(auth, buyer, token_id), transfer) {
                Err(e) => r == Err::<(), LedgerError>(e),
                Ok(_) => r.is_ok(),
            },
            !auth.authorizes(buyer) ==> r == Err::<(), LedgerError>(LedgerError::Unauthorized),
            auth.authorizes(buyer) && !old(self).minted(token_id) ==> r == Err::<(), LedgerError>(
                LedgerError::NotFound,
            ),
            auth.authorizes(buyer) && old(self).minted(token_id) && !old(self).nft(
                token_id,
            ).for_sale ==> r == Err::<(), LedgerError>(LedgerError::NotForSale),
            auth.authorizes(buyer) && old(self).minted(token_id) && old(self).nft(token_id).for_sale
                && transfer.is_err() ==> r == Err::<(), LedgerError>(LedgerError::TransferFailed),
            auth.authorizes(buyer) && old(self).minted(token_id) && old(self).nft(token_id).for_sale
                && transfer.is_ok() ==> {
                &&& r == Ok::<(), LedgerError>(())
                &&& final(self).nfts() == old(self).nfts().update(
                    token_id - 1,
                    (ImpactCreditNFT { owner: buyer, for_sale: false, ..old(self).nft(token_id) }),
                )
                &&& final(self).nft(token_id).owner == buyer
                &&& !final(self).nft(token_id).for_sale
                &&& final(self).spec_admin() == old(self).spec_admin()
                &&& final(self).spec_token() == old(self).spec_token()
            },
    {
        if !auth.has(buyer) {
            return Err(LedgerError::Unauthorized);
        }
        let current = match self.get_nft(token_id) {
            Some(nft) => nft,
            None => {
                return Err(LedgerError::NotFound);
            },
        };
        if !current.for_sale {
            return Err(LedgerError::NotForSale);
        }
        if transfer.is_err() {
            return Err(LedgerError::TransferFailed);
        }
        let price = current.price;
        let updated = Self::with_owner(current, buyer, false, price);
        self.replace(token_id, updated);
        Ok(())
    }

    /// Number of credentials minted.
    pub fn get_total_supply(&self) -> (r: u32)
        requires
            self.wf(),
        ensures
            r == self.nfts().len(),
    {
        self.nfts.len() as u32
    }

    /// Number of credentials owned by `owner`.
    pub fn get_owned_nfts(&self, owner: Address) -> (r: u32)
        requires
            self.wf(),
        ensures
            r == owned_by(self.nfts(), owner),
    {
        let mut count: u32 = 0;
        let mut i: usize = 0;
        while i < self.nfts.len()
            invariant
                self.wf(),
                0 <= i <= self.nfts@.len(),
                count == owned_by(self.nfts@.take(i as int), owner),
            decreases self.nfts@.len() - i,
        {
            proof {
                let s = self.nfts@.take(i as int + 1);
                assert(s.drop_last() =~= self.nfts@.take(i as int));
                lemma_owned_by_bound(s, owner);
            }
            if self.nfts[i].owner == owner {
                count = count + 1;
            }
            i = i + 1;
        }
        proof {
            assert(self.nfts@.take(i as int) =~= self.nfts@);
        }
        count
    }
}

/// Token ids are unique and each redemption has at most one credential: two
/// distinct minted credentials differ in token id and in redemption.
pub proof fn lemma_credentials_exclusive(c: &ImpactCreditNFTContract, a: u32, b: u32)
    requires
        c.wf(),
        c.minted(a),
        c.minted(b),
        a != b,
    ensures
        c.nft(a).token_id == a,
        c.nft(b).token_id == b,
        c.nft(a).redemption_id != c.nft(b).redemption_id,
{
    if a < b {
        assert(c.nfts()[a - 1].redemption_id != c.nfts()[b - 1].redemption_id);
    } else {
        assert(c.nfts()[b - 1].redemption_id != c.nfts()[a - 1].redemption_id);
    }
}

} // verus!
