use std::collections::HashMap;
use vstd::prelude::*;

use crate::error::ContractError;
use crate::events::{events_view, RegistryEvent};
use crate::index::OwnerIndex;
use crate::laws::{lemma_wf_ignores_events, lemma_register_keeps_wf, lemma_transfer_keeps_wf, lemma_update_keeps_wf};
use crate::listing::{copy_bytes, validate_listing_data, Listing, ListingView};
use crate::ops::{plan_register, plan_transfer, plan_update};
use crate::model::RegistryState;

verus! {

broadcast use vstd::std_specs::hash::group_hash_axioms;

/// The registry of IP listings.
pub struct IpRegistry {
    counter: u64,
    listings: HashMap<u64, Listing>,
    index: OwnerIndex,
    events: Vec<RegistryEvent>,
}

impl View for IpRegistry {
    type V = RegistryState;

    closed spec fn view(&self) -> RegistryState {
        RegistryState {
            counter: self.counter,
            listings: self.listings@.map_values(|l: Listing| l@),
            index: self.index@,
            events: events_view(self.events@),
        }
    }
}

impl IpRegistry {
    /// The registry's invariant: its state is consistent.
    pub closed spec fn wf(&self) -> bool {
        &&& self.index.wf()
        &&& self@.wf()
    }

    /// An empty registry; the first listing registered gets id 1.
    pub fn new() -> (r: IpRegistry)
        ensures
            r.wf(),
            r@.wf(),
            r@ == RegistryState::empty(0),
    {
        IpRegistry::from_counter(0)
    }

    /// An empty registry whose listing counter stands at `counter`, so that
    /// the next listing registered gets id `counter + 1`.
    pub fn from_counter(counter: u64) -> (r: IpRegistry)
        ensures
            r.wf(),
            r@.wf(),
            r@ == RegistryState::empty(counter),
    {
        let r = IpRegistry {
            counter,
            listings: HashMap::new(),
            index: OwnerIndex::new(),
            events: Vec::new(),
        };
        assert(r@.listings =~= Map::<u64, ListingView>::empty());
        assert(r@.events =~= Seq::empty());
        r
    }

    /// Registers a new listing for `owner` and returns its id.
    pub fn register_ip(&mut self, owner: Vec<u8>, ipfs_hash: Vec<u8>, merkle_root: Vec<u8>) -> (r:
        Result<u64, ContractError>)
        requires
            old(self).wf(),
        ensures
            final(self).wf(),
            final(self)@.wf(),
            r == old(self)@.register_result(ipfs_hash@, merkle_root@),
            final(self)@ == old(self)@.after_register(owner@, ipfs_hash@, merkle_root@),
    {
        let ghost pre = self@;
        let ghost args = (owner@, ipfs_hash@, merkle_root@);
        let owner_ids = self.index.ids_of(&owner);
        let plan = match plan_register(self.counter, owner_ids, owner, ipfs_hash, merkle_root) {
            Ok(plan) => plan,
            Err(e) => return Err(e),
        };
        proof {
            lemma_register_keeps_wf(pre, args.0, args.1, args.2);
        }
        let id = plan.listing_id;
        self.counter = id;
        self.index.set_ids(&plan.listing.owner, plan.owner_ids);
        self.events.push(RegistryEvent::IpRegistered(plan.event));
        self.listings.insert(id, plan.listing);
        proof {
            let post = pre.after_register(args.0, args.1, args.2);
            assert(self@.listings =~= post.listings);
            assert(self@.events =~= post.events);
            assert(self@ == post);
        }
        Ok(id)
    }

    /// The listing with the given id, if there is one.
    pub fn get_listing(&self, listing_id: u64) -> (r: Option<Listing>)
        ensures
            match r {
                Some(l) => self@.get(listing_id) == Some(l@),
                None => self@.get(listing_id) is None,
            },
    {
        match self.listings.get(&listing_id) {
            Some(l) => Some(l.duplicate()),
            None => None,
        }
    }

    /// The ids of the listings held by `owner`, in the order they came to it.
    pub fn list_by_owner(&self, owner: &Vec<u8>) -> (r: Vec<u64>)
        requires
            self.wf(),
        ensures
            r@ == self@.ids_of(owner@),
    {
        self.index.ids_of(owner)
    }

    /// The events published so far, oldest first.
    pub fn events(&self) -> (r: &Vec<RegistryEvent>)
        ensures
            events_view(r@) == self@.events,
    {
        &self.events
    }

    /// Hands out the events published so far and forgets them.
    pub fn take_events(&mut self) -> (r: Vec<RegistryEvent>)
        requires
            old(self).wf(),
        ensures
            final(self).wf(),
            events_view(r@) == old(self)@.events,
            final(self)@.wf(),
            final(self)@ == old(self)@.after_take_events(),
    {
        let mut r: Vec<RegistryEvent> = Vec::new();
        std::mem::swap(&mut r, &mut self.events);
        assert(self@.events =~= Seq::empty());
        assert(self@ == (RegistryState { events: Seq::empty(), ..old(self)@ }));
        proof {
            lemma_wf_ignores_events(old(self)@, Seq::empty());
        }
        r
    }

    /// Checks an update of listing `listing_id` as far as it can be checked
    /// before anyone is asked, and names the account whose authorization
    /// the update needs: the listing's owner.
    pub fn prepare_update(&self, listing_id: u64, new_ipfs_hash: &Vec<u8>, new_merkle_root: &Vec<u8>) -> (r:
        Result<Vec<u8>, ContractError>)
        ensures
            match r {
                Ok(o) => self@.update_authorizer(listing_id, new_ipfs_hash@, new_merkle_root@) == Ok::<
                    Seq<u8>,
                    ContractError,
                >(o@),
                Err(e) => self@.update_authorizer(listing_id, new_ipfs_hash@, new_merkle_root@) == Err::<
                    Seq<u8>,
                    ContractError,
                >(e),
            },
    {
        match validate_listing_data(new_ipfs_hash, new_merkle_root) {
            Err(e) => return Err(e),
            Ok(()) => {},
        }
        match self.listings.get(&listing_id) {
            Some(l) => Ok(copy_bytes(&l.owner)),
            None => Err(ContractError::ListingNotFound),
        }
    }

    /// Replaces the IPFS hash and the Merkle root of listing `listing_id`.
    /// `swap_pending` tells whether a swap of the listing is under way, as
    /// the swap contract answered; it is false when none was consulted.
    pub fn update_listing(
        &mut self,
        listing_id: u64,
        new_ipfs_hash: Vec<u8>,
        new_merkle_root: Vec<u8>,
        swap_pending: bool,
    ) -> (r: Result<(), ContractError>)
        requires
            old(self).wf(),
        ensures
            final(self).wf(),
            final(self)@.wf(),
            r == old(self)@.update_result(listing_id, new_ipfs_hash@, new_merkle_root@, swap_pending),
            final(self)@ == old(self)@.after_update(
                listing_id,
                new_ipfs_hash@,
                new_merkle_root@,
                swap_pending,
            ),
    {
        let ghost pre = self@;
        let ghost args = (new_ipfs_hash@, new_merkle_root@);
        let stored = self.get_listing(listing_id);
        let listing = match plan_update(stored, new_ipfs_hash, new_merkle_root, swap_pending) {
            Ok(l) => l,
            Err(e) => return Err(e),
        };
        proof {
            lemma_update_keeps_wf(pre, listing_id, args.0, args.1, swap_pending);
        }
        self.listings.insert(listing_id, listing);
        proof {
            let post = pre.after_update(listing_id, args.0, args.1, swap_pending);
            assert(self@.listings =~= post.listings);
            assert(self@ == post);
        }
        Ok(())
    }

    /// Checks a transfer of listing `listing_id` as far as it can be checked
    /// before anyone is asked, and names the account whose authorization
    /// the transfer needs: the listing's owner.
    pub fn prepare_transfer(&self, listing_id: u64) -> (r: Result<Vec<u8>, ContractError>)
        ensures
            match r {
                Ok(o) => self@.transfer_authorizer(listing_id) == Ok::<Seq<u8>, ContractError>(o@),
                Err(e) => self@.transfer_authorizer(listing_id) == Err::<Seq<u8>, ContractError>(e),
            },
    {
        match self.listings.get(&listing_id) {
            Some(l) => Ok(copy_bytes(&l.owner)),
            None => Err(ContractError::ListingNotFound),
        }
    }

    /// Transfers listing `listing_id` to `new_owner`: the id leaves the
    /// index of the old owner and is appended to that of the new one.
    pub fn transfer_listing(&mut self, listing_id: u64, new_owner: Vec<u8>) -> (r: Result<
        (),
        ContractError,
    >)
        requires
            old(self).wf(),
        ensures
            final(self).wf(),
            final(self)@.wf(),
            r == old(self)@.transfer_result(listing_id),
            final(self)@ == old(self)@.after_transfer(listing_id, new_owner@),
    {
        let ghost pre = self@;
        let ghost new_owner_v = new_owner@;
        let listing = match self.get_listing(listing_id) {
            Some(l) => l,
            None => return Err(ContractError::ListingNotFound),
        };
        let old_owner_ids = self.index.ids_of(&listing.owner);
        let new_owner_ids = self.index.ids_of(&new_owner);
        let old_owner = copy_bytes(&listing.owner);
        let plan = match plan_transfer(listing_id, listing, new_owner, old_owner_ids, new_owner_ids) {
            Some(plan) => plan,
            None => return Ok(()),
        };
        proof {
            lemma_transfer_keeps_wf(pre, listing_id, new_owner_v);
        }
        self.index.set_ids(&old_owner, plan.old_owner_ids);
        self.index.set_ids(&plan.listing.owner, plan.new_owner_ids);
        self.events.push(RegistryEvent::Transferred(plan.event));
        self.listings.insert(listing_id, plan.listing);
        proof {
            let post = pre.after_transfer(listing_id, new_owner_v);
            assert(self@.listings =~= post.listings);
            assert(self@.events =~= post.events);
            assert(self@.index =~= post.index);
            assert(self@ == post);
        }
        Ok(())
    }
}

} // verus!
