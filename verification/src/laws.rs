use vstd::prelude::*;

use crate::index::without_first;
use crate::error::ContractError;
use crate::listing::{listing_data_valid, ListingView};
use crate::events::EventView;
use crate::model::{index_total, len_adder, Operation, RegistryState};
use vstd::set::fold::{is_fun_commutative, lemma_fold_empty, lemma_fold_insert};

verus! {

/// Taking the first occurrence of `v` out of a sequence without repeats
/// leaves a sequence without repeats that holds every other element.
pub proof fn lemma_without_first(s: Seq<u64>, v: u64)
    requires
        s.no_duplicates(),
    ensures
        without_first(s, v).no_duplicates(),
        forall|x: u64| #[trigger] without_first(s, v).contains(x) <==> (s.contains(x) && x != v),
{
    s.index_of_first_ensures(v);
    match s.index_of_first(v) {
        None => {},
        Some(i) => {
            let r = s.remove(i);
            s.remove_ensures(i);
            assert(r == without_first(s, v));
            assert forall|a: int, b: int| 0 <= a < r.len() && 0 <= b < r.len() && a != b implies r[a]
                != r[b] by {
                let ia = if a < i { a } else { a + 1 };
                let ib = if b < i { b } else { b + 1 };
                assert(r[a] == s[ia]);
                assert(r[b] == s[ib]);
            }
            assert forall|x: u64| #[trigger] r.contains(x) <==> (s.contains(x) && x != v) by {
                if r.contains(x) {
                    let k = choose|k: int| 0 <= k < r.len() && r[k] == x;
                    let ik = if k < i { k } else { k + 1 };
                    assert(s[ik] == x);
                    assert(ik != i);
                }
                if s.contains(x) && x != v {
                    let j = choose|j: int| 0 <= j < s.len() && s[j] == x;
                    assert(j != i);
                    if j < i {
                        assert(r[j] == x);
                    } else {
                        assert(r[j - 1] == x);
                    }
                }
            }
        },
    }
}

/// Whether the registry is consistent does not depend on its events.
pub proof fn lemma_wf_ignores_events(s: RegistryState, events: Seq<crate::events::EventView>)
    requires
        s.wf(),
    ensures
        (RegistryState { events, ..s }).wf(),
{
    let t = RegistryState { events, ..s };
    assert forall|o: Seq<u8>| #[trigger] t.ids_of(o) == s.ids_of(o) by {}
    assert forall|o: Seq<u8>, x: u64| #[trigger]
        t.ids_of(o).contains(x) implies t.listings.contains_key(x) && t.listings[x].owner == o by {
        assert(s.ids_of(o).contains(x));
    }
    assert forall|x: u64| #[trigger]
        t.listings.contains_key(x) implies t.ids_of(t.listings[x].owner).contains(x) by {
        assert(s.ids_of(s.listings[x].owner).contains(x));
    }
}

/// Registering keeps the registry consistent.
pub proof fn lemma_register_keeps_wf(s: RegistryState, owner: Seq<u8>, ipfs_hash: Seq<u8>, merkle_root: Seq<u8>)
    requires
        s.wf(),
    ensures
        s.after_register(owner, ipfs_hash, merkle_root).wf(),
{
    if let Ok(id) = s.register_result(ipfs_hash, merkle_root) {
        let t = s.after_register(owner, ipfs_hash, merkle_root);
        assert(!s.listings.contains_key(id));
        assert forall|o: Seq<u8>| (#[trigger] t.ids_of(o)).no_duplicates() by {
            assert(s.ids_of(o).no_duplicates());
            if o == owner {
                assert(!s.ids_of(o).contains(id));
                assert forall|a: int, b: int|
                    0 <= a < t.ids_of(o).len() && 0 <= b < t.ids_of(o).len() && a != b implies t.ids_of(
                    o,
                )[a] != t.ids_of(o)[b] by {
                    if a == s.ids_of(o).len() as int {
                        assert(s.ids_of(o).contains(s.ids_of(o)[b]));
                    } else if b == s.ids_of(o).len() as int {
                        assert(s.ids_of(o).contains(s.ids_of(o)[a]));
                    }
                }
            }
        }
        assert forall|o: Seq<u8>, x: u64| #[trigger]
            t.ids_of(o).contains(x) implies t.listings.contains_key(x) && t.listings[x].owner == o by {
            if o == owner {
                let k = choose|k: int| 0 <= k < t.ids_of(o).len() && t.ids_of(o)[k] == x;
                if k < s.ids_of(o).len() {
                    assert(s.ids_of(o)[k] == x);
                    assert(s.ids_of(o).contains(x));
                }
            } else {
                assert(s.ids_of(o).contains(x));
            }
        }
        assert forall|x: u64| #[trigger]
            t.listings.contains_key(x) implies t.ids_of(t.listings[x].owner).contains(x) by {
            if x == id {
                assert(t.ids_of(owner)[s.ids_of(owner).len() as int] == id);
            } else {
                let o = s.listings[x].owner;
                assert(s.ids_of(o).contains(x));
                if o == owner {
                    let k = choose|k: int| 0 <= k < s.ids_of(o).len() && s.ids_of(o)[k] == x;
                    assert(t.ids_of(o)[k] == x);
                }
            }
        }
    }
}

/// Updating keeps the registry consistent.
pub proof fn lemma_update_keeps_wf(
    s: RegistryState,
    id: u64,
    ipfs_hash: Seq<u8>,
    merkle_root: Seq<u8>,
    swap_pending: bool,
)
    requires
        s.wf(),
    ensures
        s.after_update(id, ipfs_hash, merkle_root, swap_pending).wf(),
{
    let t = s.after_update(id, ipfs_hash, merkle_root, swap_pending);
    assert forall|o: Seq<u8>| #[trigger] t.ids_of(o) == s.ids_of(o) by {}
    assert forall|x: u64| #[trigger] t.listings.contains_key(x) implies t.listings[x].owner == s.listings[x].owner
        && s.listings.contains_key(x) by {}
    assert forall|o: Seq<u8>, x: u64| #[trigger]
        t.ids_of(o).contains(x) implies t.listings.contains_key(x) && t.listings[x].owner == o by {
        assert(s.ids_of(o).contains(x));
    }
    assert forall|x: u64| #[trigger]
        t.listings.contains_key(x) implies t.ids_of(t.listings[x].owner).contains(x) by {
        assert(s.listings.contains_key(x));
    }
}

/// Transferring keeps the registry consistent.
pub proof fn lemma_transfer_keeps_wf(s: RegistryState, id: u64, new_owner: Seq<u8>)
    requires
        s.wf(),
    ensures
        s.after_transfer(id, new_owner).wf(),
{
    if s.listings.contains_key(id) && s.listings[id].owner != new_owner {
        let t = s.after_transfer(id, new_owner);
        let a = s.listings[id].owner;
        assert(s.ids_of(a).no_duplicates());
        lemma_without_first(s.ids_of(a), id);
        assert(s.ids_of(a).contains(id));
        assert(!s.ids_of(new_owner).contains(id));
        assert forall|o: Seq<u8>| (#[trigger] t.ids_of(o)).no_duplicates() by {
            assert(s.ids_of(o).no_duplicates());
            if o == new_owner {
                assert forall|i: int, j: int|
                    0 <= i < t.ids_of(o).len() && 0 <= j < t.ids_of(o).len() && i != j implies t.ids_of(
                    o,
                )[i] != t.ids_of(o)[j] by {
                    if i == s.ids_of(o).len() as int {
                        assert(s.ids_of(o).contains(s.ids_of(o)[j]));
                    } else if j == s.ids_of(o).len() as int {
                        assert(s.ids_of(o).contains(s.ids_of(o)[i]));
                    }
                }
            }
        }
        assert forall|o: Seq<u8>, x: u64| #[trigger]
            t.ids_of(o).contains(x) implies t.listings.contains_key(x) && t.listings[x].owner == o by {
            if o == new_owner {
                let k = choose|k: int| 0 <= k < t.ids_of(o).len() && t.ids_of(o)[k] == x;
                if k < s.ids_of(o).len() {
                    assert(s.ids_of(o)[k] == x);
                    assert(s.ids_of(o).contains(x));
                }
            } else if o == a {
                assert(without_first(s.ids_of(a), id).contains(x));
                assert(s.ids_of(o).contains(x));
            } else {
                assert(s.ids_of(o).contains(x));
            }
        }
        assert forall|x: u64| #[trigger]
            t.listings.contains_key(x) implies t.ids_of(t.listings[x].owner).contains(x) by {
            if x == id {
                assert(t.ids_of(new_owner)[s.ids_of(new_owner).len() as int] == id);
            } else {
                let o = s.listings[x].owner;
                assert(s.ids_of(o).contains(x));
                if o == new_owner {
                    let k = choose|k: int| 0 <= k < s.ids_of(o).len() && s.ids_of(o)[k] == x;
                    assert(t.ids_of(o)[k] == x);
                } else if o == a {
                    assert(without_first(s.ids_of(a), id).contains(x));
                }
            }
        }
    }
}


/// A listing that was registered can be read back as it was given, and its
/// id is the last one in its owner's index.
pub proof fn law_register_then_get(s: RegistryState, owner: Seq<u8>, ipfs_hash: Seq<u8>, merkle_root: Seq<u8>)
    requires
        s.wf(),
    ensures
        s.register_result(ipfs_hash, merkle_root) matches Ok(id) ==> {
            let t = s.after_register(owner, ipfs_hash, merkle_root);
            &&& t.get(id) == Some(ListingView { owner, ipfs_hash, merkle_root })
            &&& t.ids_of(owner) == s.ids_of(owner).push(id)
            &&& t.ids_of(owner).last() == id
        },
{
}

/// Ids are handed out in sequence: a registration gets the id after the
/// counter, which no listing has yet, so no listing is ever overwritten.
pub proof fn law_register_fresh_id(s: RegistryState, owner: Seq<u8>, ipfs_hash: Seq<u8>, merkle_root: Seq<u8>)
    requires
        s.wf(),
    ensures
        s.register_result(ipfs_hash, merkle_root) matches Ok(id) ==> {
            &&& id == s.counter + 1
            &&& s.get(id) is None
            &&& forall|other: u64| other != id ==> #[trigger] s.after_register(owner, ipfs_hash, merkle_root).get(other) == s.get(other)
        },
{
}

/// In a new registry the first listing gets id 1.
pub proof fn law_first_id_is_one(owner: Seq<u8>, ipfs_hash: Seq<u8>, merkle_root: Seq<u8>)
    requires
        listing_data_valid(ipfs_hash, merkle_root),
    ensures
        RegistryState::empty(0).register_result(ipfs_hash, merkle_root) == Ok::<u64, ContractError>(1),
{
}

/// A refused operation changes nothing and publishes nothing.
pub proof fn law_refusal_changes_nothing(
    s: RegistryState,
    id: u64,
    owner: Seq<u8>,
    ipfs_hash: Seq<u8>,
    merkle_root: Seq<u8>,
    swap_pending: bool,
)
    ensures
        s.register_result(ipfs_hash, merkle_root) is Err ==> s.after_register(owner, ipfs_hash, merkle_root) == s,
        s.update_result(id, ipfs_hash, merkle_root, swap_pending) is Err ==> s.after_update(
            id,
            ipfs_hash,
            merkle_root,
            swap_pending,
        ) == s,
        s.transfer_result(id) is Err ==> s.after_transfer(id, owner) == s,
{
}

/// The owner index and the listings agree: an owner's index names a listing
/// exactly when that listing exists and belongs to the owner, and names it once.
pub proof fn law_index_matches_listings(s: RegistryState, owner: Seq<u8>, id: u64)
    requires
        s.wf(),
    ensures
        s.ids_of(owner).contains(id) <==> (s.get(id) matches Some(l) && l.owner == owner),
        s.ids_of(owner).no_duplicates(),
{
}

/// An update replaces the content of one listing and nothing else: its
/// owner, the other listings, the index, the counter and the events stay.
pub proof fn law_update_replaces_content(
    s: RegistryState,
    id: u64,
    ipfs_hash: Seq<u8>,
    merkle_root: Seq<u8>,
    swap_pending: bool,
)
    ensures
        s.update_result(id, ipfs_hash, merkle_root, swap_pending) is Ok ==> {
            let t = s.after_update(id, ipfs_hash, merkle_root, swap_pending);
            &&& t.get(id) == Some(ListingView { owner: s.listings[id].owner, ipfs_hash, merkle_root })
            &&& forall|other: u64| other != id ==> #[trigger] t.get(other) == s.get(other)
            &&& t.index == s.index
            &&& t.counter == s.counter
            &&& t.events == s.events
        },
{
}

/// The answer of the swap contract matters only to an update that passed
/// every other check: where the update is refused before anyone is asked,
/// it is refused alike whatever the swap contract would answer.
pub proof fn law_swap_answer_matters_only_when_asked(
    s: RegistryState,
    id: u64,
    ipfs_hash: Seq<u8>,
    merkle_root: Seq<u8>,
)
    ensures
        s.update_authorizer(id, ipfs_hash, merkle_root) is Err ==> s.update_result(
            id,
            ipfs_hash,
            merkle_root,
            true,
        ) == s.update_result(id, ipfs_hash, merkle_root, false),
        s.update_authorizer(id, ipfs_hash, merkle_root) is Ok ==> s.update_result(
            id,
            ipfs_hash,
            merkle_root,
            true,
        ) == Err::<(), ContractError>(ContractError::PendingSwapExists),
{
}

/// Of two updates of a listing, the later one wins.
pub proof fn law_update_last_write_wins(
    s: RegistryState,
    id: u64,
    h1: Seq<u8>,
    r1: Seq<u8>,
    h2: Seq<u8>,
    r2: Seq<u8>,
)
    requires
        s.update_result(id, h1, r1, false) is Ok,
        listing_data_valid(h2, r2),
    ensures
        s.after_update(id, h1, r1, false).after_update(id, h2, r2, false) == s.after_update(id, h2, r2, false),
{
    let t = s.after_update(id, h1, r1, false);
    assert(t.after_update(id, h2, r2, false).listings =~= s.after_update(id, h2, r2, false).listings);
}

/// A transfer to the listing's current owner changes nothing.
pub proof fn law_transfer_to_owner_is_noop(s: RegistryState, id: u64, owner: Seq<u8>)
    requires
        s.get(id) matches Some(l) && l.owner == owner,
    ensures
        s.transfer_result(id) is Ok,
        s.after_transfer(id, owner) == s,
{
}

/// A transfer hands the listing to the new owner with its content intact:
/// the id leaves the old owner's index and ends the new owner's index, and
/// the other listings stay as they were.
pub proof fn law_transfer_moves_listing(s: RegistryState, id: u64, new_owner: Seq<u8>)
    requires
        s.wf(),
        s.get(id) matches Some(l) && l.owner != new_owner,
    ensures
        ({
            let l = s.listings[id];
            let t = s.after_transfer(id, new_owner);
            &&& t.get(id) == Some(ListingView { owner: new_owner, ..l })
            &&& !t.ids_of(l.owner).contains(id)
            &&& t.ids_of(new_owner) == s.ids_of(new_owner).push(id)
            &&& forall|other: u64| other != id ==> #[trigger] t.get(other) == s.get(other)
            &&& t.counter == s.counter
        }),
{
    let l = s.listings[id];
    lemma_without_first(s.ids_of(l.owner), id);
}

/// Transferring a listing away and back restores every listing as it was;
/// only the position of the id in its owner's index may change.
pub proof fn law_transfer_round_trip(s: RegistryState, id: u64, other_owner: Seq<u8>)
    requires
        s.wf(),
        s.get(id) matches Some(l) && l.owner != other_owner,
    ensures
        ({
            let owner = s.listings[id].owner;
            let t = s.after_transfer(id, other_owner).after_transfer(id, owner);
            &&& t.listings == s.listings
            &&& t.counter == s.counter
            &&& t.ids_of(owner).to_set() == s.ids_of(owner).to_set()
        }),
{
    let owner = s.listings[id].owner;
    let m = s.after_transfer(id, other_owner);
    let t = m.after_transfer(id, owner);
    lemma_transfer_keeps_wf(s, id, other_owner);
    lemma_without_first(s.ids_of(owner), id);
    assert(t.listings =~= s.listings);
    assert forall|x: u64| t.ids_of(owner).to_set().contains(x) <==> s.ids_of(owner).to_set().contains(x) by {
        if x != id {
            assert(t.ids_of(owner).contains(x) ==> m.ids_of(owner).contains(x)) by {
                if t.ids_of(owner).contains(x) {
                    let k = choose|k: int| 0 <= k < t.ids_of(owner).len() && t.ids_of(owner)[k] == x;
                    assert(k < m.ids_of(owner).len());
                    assert(m.ids_of(owner)[k] == x);
                }
            }
            if m.ids_of(owner).contains(x) {
                let k = choose|k: int| 0 <= k < m.ids_of(owner).len() && m.ids_of(owner)[k] == x;
                assert(t.ids_of(owner)[k] == x);
            }
        } else {
            assert(t.ids_of(owner)[m.ids_of(owner).len() as int] == id);
            assert(s.ids_of(owner).contains(id));
        }
    }
    assert(t.ids_of(owner).to_set() =~= s.ids_of(owner).to_set());
}

/// The counter never goes back, and only a successful registration moves
/// it, by one.
pub proof fn law_counter_monotonic(
    s: RegistryState,
    id: u64,
    owner: Seq<u8>,
    ipfs_hash: Seq<u8>,
    merkle_root: Seq<u8>,
    swap_pending: bool,
)
    ensures
        s.after_register(owner, ipfs_hash, merkle_root).counter == (if s.register_result(ipfs_hash, merkle_root) is Ok {
            s.counter + 1
        } else {
            s.counter as int
        }),
        s.after_update(id, ipfs_hash, merkle_root, swap_pending).counter == s.counter,
        s.after_transfer(id, owner).counter == s.counter,
{
}

/// One operation keeps the registry consistent.
pub proof fn lemma_apply_keeps_wf(s: RegistryState, op: Operation)
    requires
        s.wf(),
    ensures
        s.apply(op).wf(),
{
    match op {
        Operation::Register { owner, ipfs_hash, merkle_root } => lemma_register_keeps_wf(
            s,
            owner,
            ipfs_hash,
            merkle_root,
        ),
        Operation::Update { id, ipfs_hash, merkle_root, swap_pending } => lemma_update_keeps_wf(
            s,
            id,
            ipfs_hash,
            merkle_root,
            swap_pending,
        ),
        Operation::Transfer { id, new_owner } => lemma_transfer_keeps_wf(s, id, new_owner),
        Operation::TakeEvents => lemma_wf_ignores_events(s, Seq::empty()),
    }
}

/// Any sequence of operations keeps the registry consistent.
pub proof fn law_run_keeps_wf(s: RegistryState, ops: Seq<Operation>)
    requires
        s.wf(),
    ensures
        s.run(ops).wf(),
    decreases ops.len(),
{
    if ops.len() > 0 {
        lemma_apply_keeps_wf(s, ops[0]);
        law_run_keeps_wf(s.apply(ops[0]), ops.drop_first());
    }
}

/// Operations other than registration leave the counter where it is.
pub proof fn lemma_run_without_register_keeps_counter(s: RegistryState, ops: Seq<Operation>)
    requires
        forall|i: int| 0 <= i < ops.len() ==> !(#[trigger] ops[i] is Register),
    ensures
        s.run(ops).counter == s.counter,
    decreases ops.len(),
{
    if ops.len() > 0 {
        assert(!(ops[0] is Register));
        let rest = ops.drop_first();
        assert forall|i: int| 0 <= i < rest.len() implies !(#[trigger] rest[i] is Register) by {
            assert(rest[i] == ops[i + 1]);
        }
        lemma_run_without_register_keeps_counter(s.apply(ops[0]), rest);
    }
}

/// Registration ids are consecutive: if a registration succeeds with id
/// `id1`, and after any operations other than registrations the next
/// registration succeeds with `id2`, then `id1` is at least 1, `id2` is
/// `id1 + 1`, and in a consistent registry no listing had id `id2` before.
pub proof fn law_register_ids_consecutive(
    s: RegistryState,
    owner1: Seq<u8>,
    ipfs_hash1: Seq<u8>,
    merkle_root1: Seq<u8>,
    ops: Seq<Operation>,
    owner2: Seq<u8>,
    ipfs_hash2: Seq<u8>,
    merkle_root2: Seq<u8>,
)
    requires
        forall|i: int| 0 <= i < ops.len() ==> !(#[trigger] ops[i] is Register),
    ensures
        ({
            let s1 = s.after_register(owner1, ipfs_hash1, merkle_root1);
            let s2 = s1.run(ops);
            s.register_result(ipfs_hash1, merkle_root1) matches Ok(id1) ==> (s2.register_result(
                ipfs_hash2,
                merkle_root2,
            ) matches Ok(id2) ==> {
                &&& id1 >= 1
                &&& id2 == id1 + 1
                &&& s.wf() ==> s2.get(id2) is None
            })
        }),
{
    let s1 = s.after_register(owner1, ipfs_hash1, merkle_root1);
    let s2 = s1.run(ops);
    lemma_run_without_register_keeps_counter(s1, ops);
    if s.register_result(ipfs_hash1, merkle_root1) is Ok && s2.register_result(ipfs_hash2, merkle_root2) is Ok {
        assert(s1.counter == s.counter + 1);
        assert(s2.counter == s1.counter);
        if s.wf() {
            lemma_register_keeps_wf(s, owner1, ipfs_hash1, merkle_root1);
            law_run_keeps_wf(s1, ops);
            let id2 = (s2.counter + 1) as u64;
            if s2.listings.contains_key(id2) {
                assert(id2 <= s2.counter);
            }
        }
    }
}

proof fn lemma_fold_agree(d: Set<Seq<u8>>, m1: Map<Seq<u8>, Seq<u64>>, m2: Map<Seq<u8>, Seq<u64>>)
    requires
        d.finite(),
        forall|k: Seq<u8>| d.contains(k) ==> m1[k].len() == m2[k].len(),
    ensures
        d.fold(0nat, len_adder(m1)) == d.fold(0nat, len_adder(m2)),
    decreases d.len(),
{
    if d.len() == 0 {
        assert(d =~= Set::empty());
        lemma_fold_empty(0nat, len_adder(m1));
        lemma_fold_empty(0nat, len_adder(m2));
    } else {
        let a = d.choose();
        let d2 = d.remove(a);
        lemma_fold_agree(d2, m1, m2);
        assert(d =~= d2.insert(a));
        assert(is_fun_commutative(len_adder(m1)));
        assert(is_fun_commutative(len_adder(m2)));
        lemma_fold_insert(d2, 0nat, len_adder(m1), a);
        lemma_fold_insert(d2, 0nat, len_adder(m2), a);
    }
}

/// Setting the index of one owner changes the total by the difference of
/// the two lengths.
pub proof fn lemma_index_total_insert(m: Map<Seq<u8>, Seq<u64>>, o: Seq<u8>, v: Seq<u64>)
    requires
        m.dom().finite(),
    ensures
        m.insert(o, v).dom().finite(),
        index_total(m.insert(o, v)) + (if m.contains_key(o) { m[o].len() } else { 0 }) == index_total(m)
            + v.len(),
{
    let m2 = m.insert(o, v);
    let d = m.dom().remove(o);
    assert(is_fun_commutative(len_adder(m)));
    assert(is_fun_commutative(len_adder(m2)));
    lemma_fold_agree(d, m, m2);
    assert(m2.dom() =~= d.insert(o));
    lemma_fold_insert(d, 0nat, len_adder(m2), o);
    if m.contains_key(o) {
        assert(m.dom() =~= d.insert(o));
        lemma_fold_insert(d, 0nat, len_adder(m), o);
    } else {
        assert(m.dom() =~= d);
    }
}

/// A successful registration adds one id to the owners' indexes; a refused
/// one adds none.
pub proof fn law_register_index_total(s: RegistryState, owner: Seq<u8>, ipfs_hash: Seq<u8>, merkle_root: Seq<u8>)
    requires
        s.index.dom().finite(),
    ensures
        ({
            let t = s.after_register(owner, ipfs_hash, merkle_root);
            &&& t.index.dom().finite()
            &&& index_total(t.index) == index_total(s.index) + (if s.register_result(ipfs_hash, merkle_root) is Ok {
                1int
            } else {
                0int
            })
        }),
{
    if let Ok(id) = s.register_result(ipfs_hash, merkle_root) {
        lemma_index_total_insert(s.index, owner, s.ids_of(owner).push(id));
    }
}

/// A transfer leaves the total number of ids over all owners' indexes as it
/// was, and afterwards the listing is named by the index of its new owner
/// and by no other.
pub proof fn law_transfer_index_total(s: RegistryState, id: u64, new_owner: Seq<u8>)
    requires
        s.wf(),
        s.index.dom().finite(),
    ensures
        ({
            let t = s.after_transfer(id, new_owner);
            &&& t.index.dom().finite()
            &&& index_total(t.index) == index_total(s.index)
            &&& s.transfer_result(id) is Ok ==> forall|o: Seq<u8>| #[trigger]
                t.ids_of(o).contains(id) <==> o == new_owner
        }),
{
    let t = s.after_transfer(id, new_owner);
    lemma_transfer_keeps_wf(s, id, new_owner);
    if s.listings.contains_key(id) && s.listings[id].owner != new_owner {
        let a = s.listings[id].owner;
        assert(s.ids_of(a).contains(id));
        assert(s.index.contains_key(a));
        let k = choose|k: int| 0 <= k < s.ids_of(a).len() && s.ids_of(a)[k] == id;
        s.ids_of(a).index_of_first_ensures(id);
        let i = s.ids_of(a).index_of_first(id)->0;
        s.ids_of(a).remove_ensures(i);
        let m1 = s.index.insert(a, without_first(s.ids_of(a), id));
        lemma_index_total_insert(s.index, a, without_first(s.ids_of(a), id));
        lemma_index_total_insert(m1, new_owner, s.ids_of(new_owner).push(id));
        assert(m1.contains_key(new_owner) == s.index.contains_key(new_owner));
    }
    if s.transfer_result(id) is Ok {
        assert(t.listings.contains_key(id));
        assert(t.listings[id].owner == new_owner);
        assert(t.ids_of(t.listings[id].owner).contains(id));
        assert forall|o: Seq<u8>| #[trigger] t.ids_of(o).contains(id) <==> o == new_owner by {
            if t.ids_of(o).contains(id) {
                assert(t.listings[id].owner == o);
            }
        }
    }
}

/// In a registry built from an empty one by any sequence of operations, the
/// listings are exactly those with ids 1 to the counter, the registry is
/// consistent, and the owners' indexes hold as many ids in total as the
/// counter says.
pub proof fn law_built_registry_counts(ops: Seq<Operation>)
    ensures
        ({
            let s = RegistryState::empty(0).run(ops);
            &&& s.wf()
            &&& s.index.dom().finite()
            &&& forall|id: u64| #[trigger] s.listings.contains_key(id) <==> 1 <= id <= s.counter
            &&& index_total(s.index) == s.counter
        }),
    decreases ops.len(),
{
    let e = RegistryState::empty(0);
    assert(e.index.dom() =~= Set::empty());
    lemma_fold_empty(0nat, len_adder(e.index));
    assert forall|o: Seq<u8>| (#[trigger] e.ids_of(o)).no_duplicates() by {}
    lemma_built_state_counts(e, ops);
}

proof fn lemma_built_state_counts(s: RegistryState, ops: Seq<Operation>)
    requires
        s.wf(),
        s.index.dom().finite(),
        forall|id: u64| #[trigger] s.listings.contains_key(id) <==> 1 <= id <= s.counter,
        index_total(s.index) == s.counter,
    ensures
        ({
            let t = s.run(ops);
            &&& t.wf()
            &&& t.index.dom().finite()
            &&& forall|id: u64| #[trigger] t.listings.contains_key(id) <==> 1 <= id <= t.counter
            &&& index_total(t.index) == t.counter
        }),
    decreases ops.len(),
{
    if ops.len() == 0 {
        if s.index =~= Map::empty() {
        }
    } else {
        let op = ops[0];
        let n = s.apply(op);
        lemma_apply_keeps_wf(s, op);
        match op {
            Operation::Register { owner, ipfs_hash, merkle_root } => {
                law_register_index_total(s, owner, ipfs_hash, merkle_root);
            },
            Operation::Update { id, ipfs_hash, merkle_root, swap_pending } => {
                assert(n.index == s.index);
                assert forall|x: u64| #[trigger] n.listings.contains_key(x) <==> s.listings.contains_key(x) by {}
            },
            Operation::Transfer { id, new_owner } => {
                law_transfer_index_total(s, id, new_owner);
                assert forall|x: u64| #[trigger] n.listings.contains_key(x) <==> s.listings.contains_key(x) by {}
            },
            Operation::TakeEvents => {},
        }
        lemma_built_state_counts(n, ops.drop_first());
    }
}

/// The content a registration or an update accepts is exactly a non-empty
/// IPFS hash with a non-empty Merkle root: with room left in the counter a
/// registration succeeds exactly then, and an update of an existing listing
/// with no swap pending succeeds exactly then; otherwise both answer
/// `InvalidInput`.
pub proof fn law_content_accepted_iff_nonempty(
    s: RegistryState,
    id: u64,
    ipfs_hash: Seq<u8>,
    merkle_root: Seq<u8>,
)
    ensures
        (ipfs_hash.len() == 0 || merkle_root.len() == 0) ==> s.register_result(ipfs_hash, merkle_root)
            == Err::<u64, ContractError>(ContractError::InvalidInput),
        (ipfs_hash.len() == 0 || merkle_root.len() == 0) ==> s.update_result(
            id,
            ipfs_hash,
            merkle_root,
            false,
        ) == Err::<(), ContractError>(ContractError::InvalidInput),
        s.counter < u64::MAX ==> (s.register_result(ipfs_hash, merkle_root) is Ok <==> (
        ipfs_hash.len() > 0 && merkle_root.len() > 0)),
        s.listings.contains_key(id) ==> (s.update_result(id, ipfs_hash, merkle_root, false) is Ok <==> (
        ipfs_hash.len() > 0 && merkle_root.len() > 0)),
{
}

/// An update of an existing listing with non-empty content and no swap
/// pending succeeds, whatever the listing held before (the same content
/// included), and the listing then holds exactly the new hash and root
/// under its old owner.
pub proof fn law_update_succeeds(s: RegistryState, id: u64, ipfs_hash: Seq<u8>, merkle_root: Seq<u8>)
    requires
        s.listings.contains_key(id),
        ipfs_hash.len() > 0,
        merkle_root.len() > 0,
    ensures
        s.update_result(id, ipfs_hash, merkle_root, false) == Ok::<(), ContractError>(()),
        s.after_update(id, ipfs_hash, merkle_root, false).get(id) == Some(
            ListingView { owner: s.listings[id].owner, ipfs_hash, merkle_root },
        ),
{
}

/// A transfer away from owner `a` takes the listing's id out of `a`'s index
/// at its first occurrence and keeps every other id of `a` in its order; the
/// new owner's index gains the id at its end, and every other owner's index
/// stays as it was.
pub proof fn law_transfer_keeps_index_order(s: RegistryState, id: u64, new_owner: Seq<u8>)
    requires
        s.wf(),
        s.get(id) matches Some(l) && l.owner != new_owner,
    ensures
        ({
            let a = s.listings[id].owner;
            let before = s.ids_of(a);
            let t = s.after_transfer(id, new_owner);
            &&& exists|i: int|
                0 <= i < before.len() && before[i] == id && (forall|j: int| 0 <= j < i ==> before[j] != id)
                    && t.ids_of(a) == before.subrange(0, i) + before.subrange(i + 1, before.len() as int)
            &&& t.ids_of(a).len() + 1 == before.len()
            &&& t.ids_of(new_owner) == s.ids_of(new_owner).push(id)
            &&& forall|o: Seq<u8>| o != a && o != new_owner ==> #[trigger] t.ids_of(o) == s.ids_of(o)
        }),
{
    let a = s.listings[id].owner;
    let before = s.ids_of(a);
    let t = s.after_transfer(id, new_owner);
    assert(before.contains(id));
    before.index_of_first_ensures(id);
    let i = before.index_of_first(id)->0;
    assert(t.ids_of(a) == before.subrange(0, i) + before.subrange(i + 1, before.len() as int));
}

/// A successful registration appends its event at the end of the log and
/// leaves the events before it as they were; a refused one publishes nothing.
pub proof fn law_register_appends_event(s: RegistryState, owner: Seq<u8>, ipfs_hash: Seq<u8>, merkle_root: Seq<u8>)
    ensures
        ({
            let t = s.after_register(owner, ipfs_hash, merkle_root);
            &&& s.register_result(ipfs_hash, merkle_root) matches Ok(id) ==> {
                &&& t.events.len() == s.events.len() + 1
                &&& t.events.subrange(0, s.events.len() as int) == s.events
                &&& t.events[s.events.len() as int] == (EventView::IpRegistered {
                    listing_id: id,
                    owner,
                    ipfs_hash,
                    merkle_root,
                })
            }
            &&& s.register_result(ipfs_hash, merkle_root) is Err ==> t.events == s.events
        }),
{
    let t = s.after_register(owner, ipfs_hash, merkle_root);
    if s.register_result(ipfs_hash, merkle_root) is Ok {
        assert(t.events.subrange(0, s.events.len() as int) =~= s.events);
    }
}

/// A transfer to another owner appends its event at the end of the log and
/// leaves the events before it as they were; an update publishes nothing.
pub proof fn law_transfer_appends_event(
    s: RegistryState,
    id: u64,
    new_owner: Seq<u8>,
    ipfs_hash: Seq<u8>,
    merkle_root: Seq<u8>,
    swap_pending: bool,
)
    ensures
        (s.get(id) matches Some(l) && l.owner != new_owner) ==> {
            let t = s.after_transfer(id, new_owner);
            &&& t.events.len() == s.events.len() + 1
            &&& t.events.subrange(0, s.events.len() as int) == s.events
            &&& t.events[s.events.len() as int] == (EventView::Transferred {
                listing_id: id,
                old_owner: s.listings[id].owner,
                new_owner,
            })
        },
        s.after_update(id, ipfs_hash, merkle_root, swap_pending).events == s.events,
{
    let t = s.after_transfer(id, new_owner);
    if s.listings.contains_key(id) && s.listings[id].owner != new_owner {
        assert(t.events.subrange(0, s.events.len() as int) =~= s.events);
    }
}

} // verus!
