use vstd::prelude::*;

use crate::error::ContractError;
use crate::events::EventView;
use crate::index::without_first;
use crate::listing::{listing_data_valid, ListingView};

verus! {

/// The abstract state of the registry: the listing counter, the listings by
/// id, the index of listing ids by owner, and the events published so far.
pub struct RegistryState {
    pub counter: u64,
    pub listings: Map<u64, ListingView>,
    pub index: Map<Seq<u8>, Seq<u64>>,
    pub events: Seq<EventView>,
}

impl RegistryState {
    /// The ids of the listings held by `owner`, in the order they came to it.
    pub open spec fn ids_of(self, owner: Seq<u8>) -> Seq<u64> {
        if self.index.contains_key(owner) {
            self.index[owner]
        } else {
            Seq::empty()
        }
    }

    /// The listing with the given id, if there is one.
    pub open spec fn get(self, id: u64) -> Option<ListingView> {
        if self.listings.contains_key(id) {
            Some(self.listings[id])
        } else {
            None
        }
    }

    /// The state is consistent: every listing id was handed out by the
    /// counter, and the index of each owner names each listing it holds
    /// exactly once and no other.
    pub open spec fn wf(self) -> bool {
        &&& forall|id: u64| #[trigger] self.listings.contains_key(id) ==> 1 <= id <= self.counter
        &&& forall|o: Seq<u8>| (#[trigger] self.ids_of(o)).no_duplicates()
        &&& forall|o: Seq<u8>, id: u64| #[trigger]
            self.ids_of(o).contains(id) ==> self.listings.contains_key(id) && self.listings[id].owner
                == o
        &&& forall|id: u64| #[trigger]
            self.listings.contains_key(id) ==> self.ids_of(self.listings[id].owner).contains(id)
    }

    /// A registry with no listings whose counter stands at `counter`.
    pub open spec fn empty(counter: u64) -> Self {
        RegistryState {
            counter,
            listings: Map::empty(),
            index: Map::empty(),
            events: Seq::empty(),
        }
    }

    // ---- registering ----

    /// What registering a listing answers.
    pub open spec fn register_result(self, ipfs_hash: Seq<u8>, merkle_root: Seq<u8>) -> Result<
        u64,
        ContractError,
    > {
        if !listing_data_valid(ipfs_hash, merkle_root) {
            Err(ContractError::InvalidInput)
        } else if self.counter == u64::MAX {
            Err(ContractError::CounterOverflow)
        } else {
            Ok((self.counter + 1) as u64)
        }
    }

    /// The state after registering a listing.
    pub open spec fn after_register(self, owner: Seq<u8>, ipfs_hash: Seq<u8>, merkle_root: Seq<u8>) -> Self {
        match self.register_result(ipfs_hash, merkle_root) {
            Ok(id) => RegistryState {
                counter: id,
                listings: self.listings.insert(
                    id,
                    ListingView { owner, ipfs_hash, merkle_root },
                ),
                index: self.index.insert(owner, self.ids_of(owner).push(id)),
                events: self.events.push(
                    EventView::IpRegistered { listing_id: id, owner, ipfs_hash, merkle_root },
                ),
            },
            Err(_) => self,
        }
    }

    // ---- updating ----

    /// Whose authorization an update of listing `id` needs, or why the
    /// update is refused before anyone is asked.
    pub open spec fn update_authorizer(self, id: u64, ipfs_hash: Seq<u8>, merkle_root: Seq<u8>) -> Result<
        Seq<u8>,
        ContractError,
    > {
        if !listing_data_valid(ipfs_hash, merkle_root) {
            Err(ContractError::InvalidInput)
        } else if !self.listings.contains_key(id) {
            Err(ContractError::ListingNotFound)
        } else {
            Ok(self.listings[id].owner)
        }
    }

    /// What updating listing `id` answers, given whether a swap of it is pending.
    pub open spec fn update_result(
        self,
        id: u64,
        ipfs_hash: Seq<u8>,
        merkle_root: Seq<u8>,
        swap_pending: bool,
    ) -> Result<(), ContractError> {
        match self.update_authorizer(id, ipfs_hash, merkle_root) {
            Err(e) => Err(e),
            Ok(_) => if swap_pending {
                Err(ContractError::PendingSwapExists)
            } else {
                Ok(())
            },
        }
    }

    /// The state after updating listing `id`.
    pub open spec fn after_update(
        self,
        id: u64,
        ipfs_hash: Seq<u8>,
        merkle_root: Seq<u8>,
        swap_pending: bool,
    ) -> Self {
        match self.update_result(id, ipfs_hash, merkle_root, swap_pending) {
            Ok(_) => RegistryState {
                listings: self.listings.insert(
                    id,
                    ListingView { ipfs_hash, merkle_root, ..self.listings[id] },
                ),
                ..self
            },
            Err(_) => self,
        }
    }

    // ---- transferring ----

    /// Whose authorization a transfer of listing `id` needs, or why the
    /// transfer is refused before anyone is asked.
    pub open spec fn transfer_authorizer(self, id: u64) -> Result<Seq<u8>, ContractError> {
        if !self.listings.contains_key(id) {
            Err(ContractError::ListingNotFound)
        } else {
            Ok(self.listings[id].owner)
        }
    }

    /// What transferring listing `id` answers.
    pub open spec fn transfer_result(self, id: u64) -> Result<(), ContractError> {
        match self.transfer_authorizer(id) {
            Err(e) => Err(e),
            Ok(_) => Ok(()),
        }
    }

    /// The state after transferring listing `id` to `new_owner`; a transfer
    /// to the current owner changes nothing.
    pub open spec fn after_transfer(self, id: u64, new_owner: Seq<u8>) -> Self {
        if !self.listings.contains_key(id) || self.listings[id].owner == new_owner {
            self
        } else {
            let old_owner = self.listings[id].owner;
            RegistryState {
                counter: self.counter,
                listings: self.listings.insert(id, ListingView { owner: new_owner, ..self.listings[id] }),
                index: self.index.insert(old_owner, without_first(self.ids_of(old_owner), id)).insert(
                    new_owner,
                    self.ids_of(new_owner).push(id),
                ),
                events: self.events.push(
                    EventView::Transferred { listing_id: id, old_owner, new_owner },
                ),
            }
        }
    }

    // ---- handing out events ----

    /// The state after the events published so far were handed out.
    pub open spec fn after_take_events(self) -> Self {
        RegistryState { events: Seq::empty(), ..self }
    }

    // ---- sequences of operations ----

    /// The state after one operation that may change the registry.
    pub open spec fn apply(self, op: Operation) -> Self {
        match op {
            Operation::Register { owner, ipfs_hash, merkle_root } => self.after_register(
                owner,
                ipfs_hash,
                merkle_root,
            ),
            Operation::Update { id, ipfs_hash, merkle_root, swap_pending } => self.after_update(
                id,
                ipfs_hash,
                merkle_root,
                swap_pending,
            ),
            Operation::Transfer { id, new_owner } => self.after_transfer(id, new_owner),
            Operation::TakeEvents => self.after_take_events(),
        }
    }

    /// The state after a sequence of operations, first to last.
    pub open spec fn run(self, ops: Seq<Operation>) -> Self
        decreases ops.len(),
    {
        if ops.len() == 0 {
            self
        } else {
            self.apply(ops[0]).run(ops.drop_first())
        }
    }
}

/// An operation that may change the registry, with its arguments.
pub enum Operation {
    Register { owner: Seq<u8>, ipfs_hash: Seq<u8>, merkle_root: Seq<u8> },
    Update { id: u64, ipfs_hash: Seq<u8>, merkle_root: Seq<u8>, swap_pending: bool },
    Transfer { id: u64, new_owner: Seq<u8> },
    TakeEvents,
}

/// Adds the number of ids in an owner's index to a running total.
pub open spec fn len_adder(index: Map<Seq<u8>, Seq<u64>>) -> spec_fn(nat, Seq<u8>) -> nat {
    |acc: nat, o: Seq<u8>| acc + index[o].len()
}

/// The total number of ids over all owners' indexes.
pub open spec fn index_total(index: Map<Seq<u8>, Seq<u64>>) -> nat {
    index.dom().fold(0nat, len_adder(index))
}

} // verus!
