use vstd::prelude::*;

use crate::types::{Address, Auth, LedgerError};

verus! {

/// Description of an engagement badge.
#[derive(Clone, Debug)]
pub struct BadgeMetadata {
    pub name: String,
    pub description: String,
    pub image_url: String,
    pub badge_type: String,
    pub rarity: String,
}

/// Image given to every badge.
pub open spec fn badge_image_url() -> Seq<char> {
    "https://ipfs.io/ipfs/badge-image-hash"@
}

/// Ids (position plus one) of the badges in `owners` held by `owner`, in
/// increasing order.
pub open spec fn badges_of(owners: Seq<Address>, owner: Address) -> Seq<u32>
    decreases owners.len(),
{
    if owners.len() == 0 {
        Seq::empty()
    } else if owners.last() == owner {
        badges_of(owners.drop_last(), owner).push(owners.len() as u32)
    } else {
        badges_of(owners.drop_last(), owner)
    }
}

/// Engagement badges for donors: minted and looked up, never traded.
pub struct DonorBadgeNFT {
    admin: Address,
    badges: Vec<BadgeMetadata>,
    owners: Vec<Address>,
}

impl DonorBadgeNFT {
    /// The administrator who awards badges.
    pub closed spec fn spec_admin(&self) -> Address {
        self.admin
    }

    /// Badge descriptions; the badge with id `i + 1` is at position `i`.
    pub closed spec fn badges(&self) -> Seq<BadgeMetadata> {
        self.badges@
    }

    /// Badge holders; the holder of badge `i + 1` is at position `i`.
    pub closed spec fn owners(&self) -> Seq<Address> {
        self.owners@
    }

    pub closed spec fn wf(&self) -> bool {
        &&& self.badges@.len() == self.owners@.len()
        &&& self.badges@.len() <= u32::MAX
    }

    /// Whether `token_id` names a minted badge.
    pub open spec fn minted(&self, token_id: u32) -> bool {
        1 <= token_id <= self.badges().len()
    }

    /// A collection with no badges.
    pub fn initialize(admin: Address) -> (r: Self)
        ensures
            r.wf(),
            r.spec_admin() == admin,
            r.badges() == Seq::<BadgeMetadata>::empty(),
            r.owners() == Seq::<Address>::empty(),
    {
        DonorBadgeNFT { admin, badges: Vec::new(), owners: Vec::new() }
    }

    /// Awards `to` a new badge under the next id. Administrator only.
    pub fn mint_badge(
        &mut self,
        auth: &Auth,
        to: Address,
        badge_name: String,
        badge_description: String,
        badge_type: String,
        rarity: String,
    ) -> (r: Result<u32, LedgerError>)
        requires
            old(self).wf(),
        ensures
            final(self).wf(),
            r.is_err() ==> *final(self) == *old(self),
            !auth.authorizes(old(self).spec_admin()) ==> r == Err::<u32, LedgerError>(
                LedgerError::Unauthorized,
            ),
            auth.authorizes(old(self).spec_admin()) && old(self).badges().len() == u32::MAX ==> r
                == Err::<u32, LedgerError>(LedgerError::Overflow),
            auth.authorizes(old(self).spec_admin()) && old(self).badges().len() < u32::MAX ==> {
                &&& r == Ok::<u32, LedgerError>((old(self).badges().len() + 1) as u32)
                &&& final(self).owners() == old(self).owners().push(to)
                &&& final(self).badges().drop_last() == old(self).badges()
                &&& final(self).badges().len() == old(self).badges().len() + 1
                &&& final(self).badges().last() == (BadgeMetadata {
                    name: badge_name,
                    description: badge_description,
                    image_url: final(self).badges().last().image_url,
                    badge_type,
                    rarity,
                })
                &&& final(self).badges().last().image_url@ == badge_image_url()
                &&& final(self).spec_admin() == old(self).spec_admin()
            },
    {
        if !auth.has(self.admin) {
            return Err(LedgerError::Unauthorized);
        }
        let count = self.badges.len();
        if count >= 0xffff_ffffusize {
            return Err(LedgerError::Overflow);
        }
        let metadata = BadgeMetadata {
            name: badge_name,
            description: badge_description,
            image_url: "https://ipfs.io/ipfs/badge-image-hash".to_owned(),
            badge_type,
            rarity,
        };
        self.badges.push(metadata);
        self.owners.push(to);
        proof {
            assert(self.badges@.drop_last() =~= old(self).badges@);
        }
        Ok((count + 1) as u32)
    }

    /// The description of badge `token_id`, if minted.
    pub fn get_badge(&self, token_id: u32) -> (r: Option<&BadgeMetadata>)
        requires
            self.wf(),
        ensures
            r.is_some() == self.minted(token_id),
            r.is_some() ==> *r.unwrap() == self.badges()[token_id - 1],
    {
        if token_id == 0 || token_id as usize > self.badges.len() {
            None
        } else {
            Some(&self.badges[(token_id - 1) as usize])
        }
    }

    /// The holder of badge `token_id`, if minted.
    pub fn get_owner(&self, token_id: u32) -> (r: Option<Address>)
        requires
            self.wf(),
        ensures
            r.is_some() == self.minted(token_id),
            r.is_some() ==> r.unwrap() == self.owners()[token_id - 1],
    {
        if token_id == 0 || token_id as usize > self.owners.len() {
            None
        } else {
            Some(self.owners[(token_id - 1) as usize])
        }
    }

    /// Number of badges minted.
    pub fn total_supply(&self) -> (r: u32)
        requires
            self.wf(),
        ensures
            r == self.badges().len(),
            r == self.owners().len(),
    {
        self.badges.len() as u32
    }

    /// Ids of the badges held by `owner`, in increasing order.
    pub fn get_badges_by_owner(&self, owner: Address) -> (r: Vec<u32>)
        requires
            self.wf(),
        ensures
            r@ == badges_of(self.owners(), owner),
    {
        let mut ids: Vec<u32> = Vec::new();
        let mut i: usize = 0;
        while i < self.owners.len()
            invariant
                self.wf(),
                0 <= i <= self.owners@.len(),
                ids@ == badges_of(self.owners@.take(i as int), owner),
            decreases self.owners@.len() - i,
        {
            proof {
                assert(self.owners@.take(i as int + 1).drop_last() =~= self.owners@.take(i as int));
            }
            if self.owners[i] == owner {
                ids.push((i + 1) as u32);
            }
            i = i + 1;
        }
        proof {
            assert(self.owners@.take(i as int) =~= self.owners@);
        }
        ids
    }
}

} // verus!
