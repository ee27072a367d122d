use ip_registry::error::ContractError;
use ip_registry::events::{IpRegistered, ListingTransferred, RegistryEvent};
use ip_registry::registry::IpRegistry;

fn owner(tag: &str) -> Vec<u8> {
    let mut v = b"GADDR".to_vec();
    v.extend_from_slice(tag.as_bytes());
    v
}

fn bytes(s: &[u8]) -> Vec<u8> {
    s.to_vec()
}

#[test]
fn test_register_and_get() {
    let mut reg = IpRegistry::new();
    let owner = owner("A");
    let hash = bytes(b"QmTestHash");
    let root = bytes(b"merkle_root_bytes");

    let id = reg.register_ip(owner.clone(), hash, root).unwrap();
    assert_eq!(id, 1);

    let listing = reg.get_listing(id).expect("listing should exist");
    assert_eq!(listing.owner, owner);
}

#[test]
fn test_register_ip_emits_event() {
    let mut reg = IpRegistry::new();
    let owner = owner("A");
    let hash = bytes(b"QmTestHash");
    let root = bytes(b"merkle_root_bytes");

    let id = reg.register_ip(owner.clone(), hash.clone(), root.clone()).unwrap();

    let expected = RegistryEvent::IpRegistered(IpRegistered {
        listing_id: id,
        owner: owner.clone(),
        ipfs_hash: hash,
        merkle_root: root,
    });
    assert_eq!(reg.events(), &vec![expected]);
}

#[test]
fn test_owner_index() {
    let mut reg = IpRegistry::new();
    let owner_a = owner("A");
    let owner_b = owner("B");
    let hash = bytes(b"QmHash");
    let root = bytes(b"root");

    let id1 = reg.register_ip(owner_a.clone(), hash.clone(), root.clone()).unwrap();
    let id2 = reg.register_ip(owner_b.clone(), hash.clone(), root.clone()).unwrap();
    let id3 = reg.register_ip(owner_a.clone(), hash.clone(), root.clone()).unwrap();

    let a_ids = reg.list_by_owner(&owner_a);
    assert_eq!(a_ids.len(), 2);
    assert_eq!(a_ids[0], id1);
    assert_eq!(a_ids[1], id3);

    let b_ids = reg.list_by_owner(&owner_b);
    assert_eq!(b_ids.len(), 1);
    assert_eq!(b_ids[0], id2);

    let empty = reg.list_by_owner(&owner("C"));
    assert_eq!(empty.len(), 0);
}

#[test]
fn test_listing_survives_ttl_boundary() {
    let mut reg = IpRegistry::new();
    let owner = owner("A");
    let id = reg.register_ip(owner.clone(), bytes(b"QmHash"), bytes(b"root")).unwrap();

    // The registry models no storage lifetime and so no expiry: there is no
    // ledger to advance here. Reads stand in for the time that passes, and
    // the listing stays readable; lifetimes are extended by the contract.
    for _ in 0..5_000u32 {
        reg.get_listing(id);
    }

    let listing = reg.get_listing(id).expect("listing should exist");
    assert_eq!(listing.owner, owner);
}

#[test]
fn test_get_listing_missing_returns_none() {
    let reg = IpRegistry::new();
    assert!(reg.get_listing(999).is_none());
}

#[test]
fn test_register_rejects_empty_ipfs_hash() {
    let mut reg = IpRegistry::new();
    let result = reg.register_ip(owner("A"), Vec::new(), bytes(b"merkle_root_bytes"));
    assert!(result.is_err());
}

#[test]
fn test_register_rejects_empty_merkle_root() {
    let mut reg = IpRegistry::new();
    let result = reg.register_ip(owner("A"), bytes(b"QmTestHash"), Vec::new());
    assert!(result.is_err());
}

#[test]
fn test_counter_overflow_panics() {
    let mut reg = IpRegistry::from_counter(u64::MAX);
    let result = reg.register_ip(owner("A"), bytes(b"QmHash"), bytes(b"root"));
    assert!(result.is_err());
}

#[test]
fn test_update_listing_success() {
    let mut reg = IpRegistry::new();
    let owner = owner("A");
    let id = reg.register_ip(owner, bytes(b"QmOldHash"), bytes(b"old_root")).unwrap();

    let new_hash = bytes(b"QmNewHash");
    let new_root = bytes(b"new_root");
    reg.update_listing(id, new_hash.clone(), new_root.clone(), false).unwrap();

    let listing = reg.get_listing(id).unwrap();
    assert_eq!(listing.ipfs_hash, new_hash);
    assert_eq!(listing.merkle_root, new_root);
}

#[test]
fn test_update_listing_not_found() {
    let mut reg = IpRegistry::new();
    let result = reg.update_listing(999, bytes(b"QmHash"), bytes(b"root"), false);
    assert!(result.is_err());
}

#[test]
fn test_update_listing_rejects_empty_hash() {
    let mut reg = IpRegistry::new();
    let id = reg.register_ip(owner("A"), bytes(b"QmHash"), bytes(b"root")).unwrap();
    let result = reg.update_listing(id, Vec::new(), bytes(b"root"), false);
    assert!(result.is_err());
}

#[test]
fn test_update_listing_rejects_empty_merkle_root() {
    let mut reg = IpRegistry::new();
    let id = reg.register_ip(owner("A"), bytes(b"QmHash"), bytes(b"root")).unwrap();
    let result = reg.update_listing(id, bytes(b"QmHash"), Vec::new(), false);
    assert!(result.is_err());
}

#[test]
fn test_update_listing_rejected_when_pending_swap_exists() {
    let mut reg = IpRegistry::new();
    let owner = owner("A");
    let listing_id = reg.register_ip(owner.clone(), bytes(b"QmHash"), bytes(b"root")).unwrap();

    // The owner is the one asked to authorize; the swap contract answers
    // that a swap of the listing is pending.
    let authorizer = reg.prepare_update(listing_id, &bytes(b"QmNewHash"), &bytes(b"new_root")).unwrap();
    assert_eq!(authorizer, owner);
    let result = reg.update_listing(listing_id, bytes(b"QmNewHash"), bytes(b"new_root"), true);
    assert!(result.is_err());
}

#[test]
fn test_update_listing_allowed_after_swap_completed() {
    let mut reg = IpRegistry::new();
    let owner = owner("A");
    let listing_id = reg.register_ip(owner.clone(), bytes(b"QmHash"), bytes(b"root")).unwrap();

    // The swap has completed, so the swap contract answers that none is pending.
    let new_hash = bytes(b"QmNewHash");
    let new_root = bytes(b"new_root");
    reg.update_listing(listing_id, new_hash.clone(), new_root.clone(), false).unwrap();

    let listing = reg.get_listing(listing_id).unwrap();
    assert_eq!(listing.ipfs_hash, new_hash);
    assert_eq!(listing.merkle_root, new_root);
}

// ---- further cases ----

#[test]
fn error_codes_are_stable() {
    assert_eq!(ContractError::InvalidInput.code(), 1);
    assert_eq!(ContractError::CounterOverflow.code(), 2);
    assert_eq!(ContractError::ListingNotFound.code(), 3);
    assert_eq!(ContractError::PendingSwapExists.code(), 4);
}

#[test]
fn register_errors_name_their_cause() {
    let mut reg = IpRegistry::new();
    assert_eq!(reg.register_ip(owner("A"), Vec::new(), bytes(b"r")), Err(ContractError::InvalidInput));
    let mut full = IpRegistry::from_counter(u64::MAX);
    assert_eq!(full.register_ip(owner("A"), bytes(b"h"), bytes(b"r")), Err(ContractError::CounterOverflow));
    // Invalid input is reported before the counter is looked at.
    assert_eq!(full.register_ip(owner("A"), bytes(b"h"), Vec::new()), Err(ContractError::InvalidInput));
}

#[test]
fn from_counter_continues_the_sequence() {
    let mut reg = IpRegistry::from_counter(41);
    assert_eq!(reg.register_ip(owner("A"), bytes(b"h"), bytes(b"r")), Ok(42));
    assert_eq!(reg.register_ip(owner("A"), bytes(b"h"), bytes(b"r")), Ok(43));
    assert_eq!(reg.list_by_owner(&owner("A")), vec![42, 43]);
}

#[test]
fn refused_operations_change_nothing() {
    let mut reg = IpRegistry::new();
    let id = reg.register_ip(owner("A"), bytes(b"h"), bytes(b"r")).unwrap();
    let before = reg.get_listing(id).unwrap();
    let events_before = reg.events().len();

    assert_eq!(reg.register_ip(owner("A"), Vec::new(), bytes(b"r")), Err(ContractError::InvalidInput));
    assert_eq!(reg.update_listing(id, bytes(b"x"), bytes(b"y"), true), Err(ContractError::PendingSwapExists));
    assert_eq!(reg.update_listing(7, bytes(b"x"), bytes(b"y"), false), Err(ContractError::ListingNotFound));
    assert_eq!(reg.transfer_listing(7, owner("B")), Err(ContractError::ListingNotFound));

    assert_eq!(reg.get_listing(id).unwrap(), before);
    assert_eq!(reg.events().len(), events_before);
    assert_eq!(reg.list_by_owner(&owner("A")), vec![id]);
    assert_eq!(reg.register_ip(owner("A"), bytes(b"h"), bytes(b"r")), Ok(2));
}

#[test]
fn update_error_order() {
    let mut reg = IpRegistry::new();
    // Empty content is reported before a missing listing.
    assert_eq!(reg.update_listing(5, Vec::new(), bytes(b"r"), true), Err(ContractError::InvalidInput));
    assert_eq!(reg.prepare_update(5, &Vec::new(), &bytes(b"r")), Err(ContractError::InvalidInput));
    // A missing listing is reported before a pending swap.
    assert_eq!(reg.update_listing(5, bytes(b"h"), bytes(b"r"), true), Err(ContractError::ListingNotFound));
    assert_eq!(reg.prepare_update(5, &bytes(b"h"), &bytes(b"r")), Err(ContractError::ListingNotFound));
}

#[test]
fn update_keeps_owner_and_index() {
    let mut reg = IpRegistry::new();
    let a = owner("A");
    let id1 = reg.register_ip(a.clone(), bytes(b"h1"), bytes(b"r1")).unwrap();
    let id2 = reg.register_ip(a.clone(), bytes(b"h2"), bytes(b"r2")).unwrap();
    reg.update_listing(id1, bytes(b"n"), bytes(b"m"), false).unwrap();
    let l1 = reg.get_listing(id1).unwrap();
    assert_eq!(l1.owner, a);
    assert_eq!(l1.ipfs_hash, bytes(b"n"));
    let l2 = reg.get_listing(id2).unwrap();
    assert_eq!(l2.ipfs_hash, bytes(b"h2"));
    assert_eq!(l2.merkle_root, bytes(b"r2"));
    assert_eq!(reg.list_by_owner(&a), vec![id1, id2]);
    // An update publishes no event.
    assert_eq!(reg.events().len(), 2);
}

#[test]
fn update_last_write_wins() {
    let mut reg = IpRegistry::new();
    let id = reg.register_ip(owner("A"), bytes(b"h"), bytes(b"r")).unwrap();
    reg.update_listing(id, bytes(b"h1"), bytes(b"r1"), false).unwrap();
    reg.update_listing(id, bytes(b"h2"), bytes(b"r2"), false).unwrap();
    let l = reg.get_listing(id).unwrap();
    assert_eq!(l.ipfs_hash, bytes(b"h2"));
    assert_eq!(l.merkle_root, bytes(b"r2"));
}

#[test]
fn transfer_moves_listing_between_indexes() {
    let mut reg = IpRegistry::new();
    let a = owner("A");
    let b = owner("B");
    let id1 = reg.register_ip(a.clone(), bytes(b"h1"), bytes(b"r1")).unwrap();
    let id2 = reg.register_ip(a.clone(), bytes(b"h2"), bytes(b"r2")).unwrap();
    let id3 = reg.register_ip(b.clone(), bytes(b"h3"), bytes(b"r3")).unwrap();

    assert_eq!(reg.prepare_transfer(id1), Ok(a.clone()));
    reg.transfer_listing(id1, b.clone()).unwrap();

    assert_eq!(reg.list_by_owner(&a), vec![id2]);
    assert_eq!(reg.list_by_owner(&b), vec![id3, id1]);
    let l = reg.get_listing(id1).unwrap();
    assert_eq!(l.owner, b);
    assert_eq!(l.ipfs_hash, bytes(b"h1"));
    assert_eq!(l.merkle_root, bytes(b"r1"));
    assert_eq!(reg.prepare_transfer(id1), Ok(b.clone()));

    let last = reg.events().last().unwrap();
    assert_eq!(
        last,
        &RegistryEvent::Transferred(ListingTransferred { listing_id: id1, old_owner: a, new_owner: b })
    );
}

#[test]
fn transfer_to_current_owner_is_noop() {
    let mut reg = IpRegistry::new();
    let a = owner("A");
    let id = reg.register_ip(a.clone(), bytes(b"h"), bytes(b"r")).unwrap();
    assert_eq!(reg.transfer_listing(id, a.clone()), Ok(()));
    assert_eq!(reg.list_by_owner(&a), vec![id]);
    assert_eq!(reg.events().len(), 1);
    assert_eq!(reg.get_listing(id).unwrap().owner, a);
}

#[test]
fn transfer_round_trip_restores_listing() {
    let mut reg = IpRegistry::new();
    let a = owner("A");
    let b = owner("B");
    let id1 = reg.register_ip(a.clone(), bytes(b"h1"), bytes(b"r1")).unwrap();
    let id2 = reg.register_ip(a.clone(), bytes(b"h2"), bytes(b"r2")).unwrap();
    let before = reg.get_listing(id1).unwrap();
    reg.transfer_listing(id1, b.clone()).unwrap();
    reg.transfer_listing(id1, a.clone()).unwrap();
    assert_eq!(reg.get_listing(id1).unwrap(), before);
    // The id comes back at the end of the owner's index.
    assert_eq!(reg.list_by_owner(&a), vec![id2, id1]);
    assert_eq!(reg.list_by_owner(&b), Vec::<u64>::new());
}

#[test]
fn prepare_transfer_missing_listing() {
    let reg = IpRegistry::new();
    assert_eq!(reg.prepare_transfer(3), Err(ContractError::ListingNotFound));
}

#[test]
fn take_events_hands_out_and_clears() {
    let mut reg = IpRegistry::new();
    let a = owner("A");
    let id = reg.register_ip(a.clone(), bytes(b"h"), bytes(b"r")).unwrap();
    let taken = reg.take_events();
    assert_eq!(taken.len(), 1);
    assert!(reg.events().is_empty());
    // The listings are untouched.
    assert_eq!(reg.get_listing(id).unwrap().owner, a);
    reg.transfer_listing(id, owner("B")).unwrap();
    assert_eq!(reg.events().len(), 1);
}

#[test]
fn ids_stay_consecutive_across_other_operations() {
    let mut reg = IpRegistry::new();
    let a = owner("A");
    let b = owner("B");
    let id1 = reg.register_ip(a.clone(), bytes(b"h"), bytes(b"r")).unwrap();
    reg.update_listing(id1, bytes(b"h2"), bytes(b"r2"), false).unwrap();
    reg.transfer_listing(id1, b.clone()).unwrap();
    reg.take_events();
    assert!(reg.update_listing(id1, Vec::new(), bytes(b"r"), false).is_err());
    let id2 = reg.register_ip(b.clone(), bytes(b"h"), bytes(b"r")).unwrap();
    assert!(id1 >= 1);
    assert_eq!(id2, id1 + 1);
    assert!(reg.register_ip(a.clone(), Vec::new(), bytes(b"r")).is_err());
    let id3 = reg.register_ip(a.clone(), bytes(b"h"), bytes(b"r")).unwrap();
    assert_eq!(id3, id2 + 1);
}

#[test]
fn index_total_matches_counter_after_transfers() {
    let mut reg = IpRegistry::new();
    let a = owner("A");
    let b = owner("B");
    let c = owner("C");
    for _ in 0..3 {
        reg.register_ip(a.clone(), bytes(b"h"), bytes(b"r")).unwrap();
    }
    reg.register_ip(b.clone(), bytes(b"h"), bytes(b"r")).unwrap();
    reg.transfer_listing(2, c.clone()).unwrap();
    reg.transfer_listing(4, a.clone()).unwrap();
    reg.transfer_listing(2, b.clone()).unwrap();
    let total = reg.list_by_owner(&a).len() + reg.list_by_owner(&b).len() + reg.list_by_owner(&c).len();
    assert_eq!(total, 4);
    assert_eq!(reg.list_by_owner(&a), vec![1, 3, 4]);
    assert_eq!(reg.list_by_owner(&b), vec![2]);
    assert_eq!(reg.list_by_owner(&c), Vec::<u64>::new());
}
