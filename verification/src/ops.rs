//! What each operation of the registry computes from the stored values it
//! reads: the values it writes back and the event it publishes. These
//! functions touch no storage; the registry in `registry` and a contract
//! that keeps each value under its own storage key both build on them.

use vstd::prelude::*;

use crate::error::ContractError;
use crate::events::{IpRegistered, ListingTransferred};
use crate::index::without_first;
use crate::listing::{bytes_equal, copy_bytes, listing_data_valid, validate_listing_data, Listing, ListingView};

verus! {

/// The id that follows `counter`, unless the counter is exhausted.
pub fn next_listing_id(counter: u64) -> (r: Result<u64, ContractError>)
    ensures
        r == (if counter == u64::MAX {
            Err::<u64, ContractError>(ContractError::CounterOverflow)
        } else {
            Ok((counter + 1) as u64)
        }),
{
    match counter.checked_add(1) {
        Some(id) => Ok(id),
        None => Err(ContractError::CounterOverflow),
    }
}

/// Takes the first occurrence of `id` out of `ids`, if there is one.
pub fn remove_first_id(ids: &mut Vec<u64>, id: u64)
    ensures
        final(ids)@ == without_first(old(ids)@, id),
{
    let ghost before = ids@;
    proof {
        before.index_of_first_ensures(id);
    }
    let mut i: usize = 0;
    while i < ids.len()
        invariant
            ids@ == before,
            before == old(ids)@,
            i <= ids.len(),
            forall|j: int| 0 <= j < i ==> ids@[j] != id,
        decreases ids.len() - i,
    {
        if ids[i] == id {
            proof {
                before.index_of_first_ensures(id);
            }
            ids.remove(i);
            return;
        }
        i = i + 1;
    }
}

/// What registering a listing writes: the new id (which is also the new
/// counter), the listing, the owner's index with the id appended, and the
/// event to publish.
pub struct Registration {
    pub listing_id: u64,
    pub listing: Listing,
    pub owner_ids: Vec<u64>,
    pub event: IpRegistered,
}

/// Plans the registration of a listing, given the stored counter and the
/// stored index of the owner (empty when there is none).
pub fn plan_register(
    counter: u64,
    owner_ids: Vec<u64>,
    owner: Vec<u8>,
    ipfs_hash: Vec<u8>,
    merkle_root: Vec<u8>,
) -> (r: Result<Registration, ContractError>)
    ensures
        !listing_data_valid(ipfs_hash@, merkle_root@) ==> r == Err::<Registration, ContractError>(
            ContractError::InvalidInput,
        ),
        listing_data_valid(ipfs_hash@, merkle_root@) && counter == u64::MAX ==> r == Err::<
            Registration,
            ContractError,
        >(ContractError::CounterOverflow),
        listing_data_valid(ipfs_hash@, merkle_root@) && counter < u64::MAX ==> (r matches Ok(p) && {
            &&& p.listing_id == counter + 1
            &&& p.listing@ == (ListingView { owner: owner@, ipfs_hash: ipfs_hash@, merkle_root: merkle_root@ })
            &&& p.owner_ids@ == owner_ids@.push(p.listing_id)
            &&& p.event.listing_id == p.listing_id
            &&& p.event.owner@ == owner@
            &&& p.event.ipfs_hash@ == ipfs_hash@
            &&& p.event.merkle_root@ == merkle_root@
        }),
{
    match validate_listing_data(&ipfs_hash, &merkle_root) {
        Err(e) => return Err(e),
        Ok(()) => {},
    }
    let listing_id = match next_listing_id(counter) {
        Ok(id) => id,
        Err(e) => return Err(e),
    };
    let mut owner_ids = owner_ids;
    owner_ids.push(listing_id);
    let event = IpRegistered {
        listing_id,
        owner: copy_bytes(&owner),
        ipfs_hash: copy_bytes(&ipfs_hash),
        merkle_root: copy_bytes(&merkle_root),
    };
    Ok(Registration { listing_id, listing: Listing { owner, ipfs_hash, merkle_root }, owner_ids, event })
}

/// Plans an update of a stored listing (`None` when no listing has the id):
/// the listing to write back. `swap_pending` tells whether a swap of the
/// listing is under way, as the swap contract answered.
pub fn plan_update(
    listing: Option<Listing>,
    new_ipfs_hash: Vec<u8>,
    new_merkle_root: Vec<u8>,
    swap_pending: bool,
) -> (r: Result<Listing, ContractError>)
    ensures
        !listing_data_valid(new_ipfs_hash@, new_merkle_root@) ==> r == Err::<Listing, ContractError>(
            ContractError::InvalidInput,
        ),
        listing_data_valid(new_ipfs_hash@, new_merkle_root@) && listing is None ==> r == Err::<
            Listing,
            ContractError,
        >(ContractError::ListingNotFound),
        listing_data_valid(new_ipfs_hash@, new_merkle_root@) && listing is Some && swap_pending ==> r
            == Err::<Listing, ContractError>(ContractError::PendingSwapExists),
        listing_data_valid(new_ipfs_hash@, new_merkle_root@) && listing is Some && !swap_pending ==> (
        r matches Ok(l) && l@ == (ListingView {
            ipfs_hash: new_ipfs_hash@,
            merkle_root: new_merkle_root@,
            ..listing->0@
        })),
{
    match validate_listing_data(&new_ipfs_hash, &new_merkle_root) {
        Err(e) => return Err(e),
        Ok(()) => {},
    }
    let listing = match listing {
        Some(l) => l,
        None => return Err(ContractError::ListingNotFound),
    };
    if swap_pending {
        return Err(ContractError::PendingSwapExists);
    }
    Ok(Listing { owner: listing.owner, ipfs_hash: new_ipfs_hash, merkle_root: new_merkle_root })
}

/// Whether an update must ask the swap contract about a pending swap of the
/// stored listing (`None` when no listing has the id): only when the new
/// content is valid, the listing exists and a swap contract was named.
pub fn swap_check_needed(
    listing: &Option<Listing>,
    new_ipfs_hash: &Vec<u8>,
    new_merkle_root: &Vec<u8>,
    swap_contract_given: bool,
) -> (r: bool)
    ensures
        r == (listing_data_valid(new_ipfs_hash@, new_merkle_root@) && listing is Some
            && swap_contract_given),
{
    match validate_listing_data(new_ipfs_hash, new_merkle_root) {
        Err(_) => false,
        Ok(()) => listing.is_some() && swap_contract_given,
    }
}

/// What transferring a listing to another owner writes: the listing with its
/// new owner, the index of the old owner without the id, the index of the
/// new owner with the id appended, and the event to publish.
pub struct Transfer {
    pub listing: Listing,
    pub old_owner_ids: Vec<u64>,
    pub new_owner_ids: Vec<u64>,
    pub event: ListingTransferred,
}

/// Plans the transfer of stored listing `listing_id` to `new_owner`, given
/// the stored indexes of its current owner and of the new owner. `None`
/// when the new owner already holds the listing: nothing is written then.
pub fn plan_transfer(
    listing_id: u64,
    listing: Listing,
    new_owner: Vec<u8>,
    old_owner_ids: Vec<u64>,
    new_owner_ids: Vec<u64>,
) -> (r: Option<Transfer>)
    ensures
        listing.owner@ == new_owner@ ==> r is None,
        listing.owner@ != new_owner@ ==> (r matches Some(t) && {
            &&& t.listing@ == (ListingView { owner: new_owner@, ..listing@ })
            &&& t.old_owner_ids@ == without_first(old_owner_ids@, listing_id)
            &&& t.new_owner_ids@ == new_owner_ids@.push(listing_id)
            &&& t.event.listing_id == listing_id
            &&& t.event.old_owner@ == listing.owner@
            &&& t.event.new_owner@ == new_owner@
        }),
{
    if bytes_equal(&listing.owner, &new_owner) {
        return None;
    }
    let mut old_owner_ids = old_owner_ids;
    remove_first_id(&mut old_owner_ids, listing_id);
    let mut new_owner_ids = new_owner_ids;
    new_owner_ids.push(listing_id);
    let event = ListingTransferred {
        listing_id,
        old_owner: copy_bytes(&listing.owner),
        new_owner: copy_bytes(&new_owner),
    };
    Some(
        Transfer {
            listing: Listing { owner: new_owner, ipfs_hash: listing.ipfs_hash, merkle_root: listing.merkle_root },
            old_owner_ids,
            new_owner_ids,
            event,
        },
    )
}

} // verus!
