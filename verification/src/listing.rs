use vstd::prelude::*;

use crate::error::ContractError;

verus! {

/// The abstract content of a listing: who owns it and which content it names.
pub struct ListingView {
    pub owner: Seq<u8>,
    pub ipfs_hash: Seq<u8>,
    pub merkle_root: Seq<u8>,
}

/// A registered piece of intellectual property. The owner is identified by
/// the bytes of its account address.
#[derive(Debug, PartialEq, Eq)]
pub struct Listing {
    pub owner: Vec<u8>,
    pub ipfs_hash: Vec<u8>,
    pub merkle_root: Vec<u8>,
}

impl View for Listing {
    type V = ListingView;

    open spec fn view(&self) -> ListingView {
        ListingView { owner: self.owner@, ipfs_hash: self.ipfs_hash@, merkle_root: self.merkle_root@ }
    }
}

/// The content a listing may carry: neither the hash nor the root is empty.
pub open spec fn listing_data_valid(ipfs_hash: Seq<u8>, merkle_root: Seq<u8>) -> bool {
    ipfs_hash.len() > 0 && merkle_root.len() > 0
}

/// Checks the content of a new or updated listing.
pub fn validate_listing_data(ipfs_hash: &Vec<u8>, merkle_root: &Vec<u8>) -> (r: Result<(), ContractError>)
    ensures
        r == (if listing_data_valid(ipfs_hash@, merkle_root@) {
            Ok::<(), ContractError>(())
        } else {
            Err(ContractError::InvalidInput)
        }),
{
    if ipfs_hash.len() == 0 || merkle_root.len() == 0 {
        Err(ContractError::InvalidInput)
    } else {
        Ok(())
    }
}

/// Whether two byte strings are equal.
pub fn bytes_equal(a: &Vec<u8>, b: &Vec<u8>) -> (r: bool)
    ensures
        r == (a@ == b@),
{
    if a.len() != b.len() {
        return false;
    }
    let mut i: usize = 0;
    while i < a.len()
        invariant
            a.len() == b.len(),
            i <= a.len(),
            forall|j: int| 0 <= j < i ==> a@[j] == b@[j],
        decreases a.len() - i,
    {
        if a[i] != b[i] {
            return false;
        }
        i = i + 1;
    }
    assert(a@ =~= b@);
    true
}

/// A fresh copy of a byte string.
pub fn copy_bytes(a: &Vec<u8>) -> (r: Vec<u8>)
    ensures
        r@ == a@,
{
    let mut r: Vec<u8> = Vec::new();
    let mut i: usize = 0;
    while i < a.len()
        invariant
            i <= a.len(),
            r@ == a@.subrange(0, i as int),
        decreases a.len() - i,
    {
        r.push(a[i]);
        i = i + 1;
        assert(r@ =~= a@.subrange(0, i as int));
    }
    assert(a@.subrange(0, a.len() as int) =~= a@);
    r
}

impl Listing {
    /// A copy of the listing with the same owner, hash and root.
    pub fn duplicate(&self) -> (r: Listing)
        ensures
            r@ == self@,
    {
        Listing {
            owner: copy_bytes(&self.owner),
            ipfs_hash: copy_bytes(&self.ipfs_hash),
            merkle_root: copy_bytes(&self.merkle_root),
        }
    }
}

} // verus!
