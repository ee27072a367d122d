use vstd::prelude::*;

verus! {

/// Emitted when a new listing is registered.
#[derive(Debug, PartialEq, Eq)]
pub struct IpRegistered {
    pub listing_id: u64,
    pub owner: Vec<u8>,
    pub ipfs_hash: Vec<u8>,
    pub merkle_root: Vec<u8>,
}

/// Emitted when a listing changes hands.
#[derive(Debug, PartialEq, Eq)]
pub struct ListingTransferred {
    pub listing_id: u64,
    pub old_owner: Vec<u8>,
    pub new_owner: Vec<u8>,
}

/// An event published by the registry.
#[derive(Debug, PartialEq, Eq)]
pub enum RegistryEvent {
    IpRegistered(IpRegistered),
    Transferred(ListingTransferred),
}

/// The abstract content of an event.
pub enum EventView {
    IpRegistered { listing_id: u64, owner: Seq<u8>, ipfs_hash: Seq<u8>, merkle_root: Seq<u8> },
    Transferred { listing_id: u64, old_owner: Seq<u8>, new_owner: Seq<u8> },
}

impl View for RegistryEvent {
    type V = EventView;

    open spec fn view(&self) -> EventView {
        match self {
            RegistryEvent::IpRegistered(e) => EventView::IpRegistered {
                listing_id: e.listing_id,
                owner: e.owner@,
                ipfs_hash: e.ipfs_hash@,
                merkle_root: e.merkle_root@,
            },
            RegistryEvent::Transferred(e) => EventView::Transferred {
                listing_id: e.listing_id,
                old_owner: e.old_owner@,
                new_owner: e.new_owner@,
            },
        }
    }
}

/// The abstract content of a sequence of events.
pub open spec fn events_view(events: Seq<RegistryEvent>) -> Seq<EventView> {
    events.map_values(|e: RegistryEvent| e@)
}

} // verus!
