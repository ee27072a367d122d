use vstd::prelude::*;

use crate::listing::{bytes_equal, copy_bytes};

verus! {

/// The listing ids held by one owner, in the order in which they came to it.
pub struct OwnerIds {
    pub owner: Vec<u8>,
    pub ids: Vec<u64>,
}

/// For each owner, the ids of the listings it holds.
pub struct OwnerIndex {
    entries: Vec<OwnerIds>,
}

/// Whether some entry belongs to `owner`.
pub open spec fn has_entry(entries: Seq<OwnerIds>, owner: Seq<u8>) -> bool {
    exists|i: int| 0 <= i < entries.len() && (#[trigger] entries[i]).owner@ == owner
}

/// The position of the entry of `owner`.
pub open spec fn entry_of(entries: Seq<OwnerIds>, owner: Seq<u8>) -> int {
    choose|i: int| 0 <= i < entries.len() && (#[trigger] entries[i]).owner@ == owner
}

/// No two entries belong to the same owner.
pub open spec fn owners_distinct(entries: Seq<OwnerIds>) -> bool {
    forall|i: int, j: int|
        0 <= i < entries.len() && 0 <= j < entries.len() && i != j ==> (#[trigger] entries[i]).owner@
            != (#[trigger] entries[j]).owner@
}

/// The map from each owner that has an entry to the ids of that entry.
pub open spec fn index_map(entries: Seq<OwnerIds>) -> Map<Seq<u8>, Seq<u64>> {
    Map::new(|o: Seq<u8>| has_entry(entries, o), |o: Seq<u8>| entries[entry_of(entries, o)].ids@)
}

/// The sequence of ids with the first occurrence of `id` taken out.
pub open spec fn without_first(ids: Seq<u64>, id: u64) -> Seq<u64> {
    ids.remove_value(id)
}

proof fn lemma_lookup(entries: Seq<OwnerIds>, i: int)
    requires
        owners_distinct(entries),
        0 <= i < entries.len(),
    ensures
        index_map(entries).contains_key(entries[i].owner@),
        index_map(entries)[entries[i].owner@] == entries[i].ids@,
{
    let o = entries[i].owner@;
    assert(has_entry(entries, o));
    let k = entry_of(entries, o);
    assert(entries[k].owner@ == o);
}

proof fn lemma_update(entries: Seq<OwnerIds>, i: int, e: OwnerIds)
    requires
        owners_distinct(entries),
        0 <= i < entries.len(),
        e.owner@ == entries[i].owner@,
    ensures
        owners_distinct(entries.update(i, e)),
        index_map(entries.update(i, e)) == index_map(entries).insert(e.owner@, e.ids@),
{
    let s2 = entries.update(i, e);
    assert(owners_distinct(s2)) by {
        assert forall|a: int, b: int|
            0 <= a < s2.len() && 0 <= b < s2.len() && a != b implies (#[trigger] s2[a]).owner@
                != (#[trigger] s2[b]).owner@ by {
            assert(entries[a].owner@ != entries[b].owner@);
        }
    }
    let m1 = index_map(s2);
    let m2 = index_map(entries).insert(e.owner@, e.ids@);
    assert forall|o: Seq<u8>| m1.contains_key(o) <==> m2.contains_key(o) by {
        if has_entry(s2, o) {
            let k = entry_of(s2, o);
            assert(entries[k].owner@ == o || k == i);
        }
        if has_entry(entries, o) {
            let k = entry_of(entries, o);
            assert(s2[k].owner@ == o);
        }
        if o == e.owner@ {
            assert(s2[i].owner@ == o);
        }
    }
    assert forall|o: Seq<u8>| #[trigger] m1.contains_key(o) implies m1[o] == m2[o] by {
        let k = entry_of(s2, o);
        if o == e.owner@ {
            assert(s2[i].owner@ == o);
        } else {
            assert(k != i);
            assert(entries[k].owner@ == o);
            assert(has_entry(entries, o));
            let k2 = entry_of(entries, o);
            assert(s2[k2].owner@ == o);
        }
    }
    assert(m1 =~= m2);
}

proof fn lemma_push(entries: Seq<OwnerIds>, e: OwnerIds)
    requires
        owners_distinct(entries),
        !has_entry(entries, e.owner@),
    ensures
        owners_distinct(entries.push(e)),
        index_map(entries.push(e)) == index_map(entries).insert(e.owner@, e.ids@),
{
    let s2 = entries.push(e);
    let n = entries.len() as int;
    assert(owners_distinct(s2)) by {
        assert forall|a: int, b: int|
            0 <= a < s2.len() && 0 <= b < s2.len() && a != b implies (#[trigger] s2[a]).owner@
                != (#[trigger] s2[b]).owner@ by {
            if a == n {
                assert(entries[b].owner@ != e.owner@);
            } else if b == n {
                assert(entries[a].owner@ != e.owner@);
            } else {
                assert(entries[a].owner@ != entries[b].owner@);
            }
        }
    }
    let m1 = index_map(s2);
    let m2 = index_map(entries).insert(e.owner@, e.ids@);
    assert forall|o: Seq<u8>| m1.contains_key(o) <==> m2.contains_key(o) by {
        if has_entry(s2, o) {
            let k = entry_of(s2, o);
            if k != n {
                assert(entries[k].owner@ == o);
            }
        }
        if has_entry(entries, o) {
            let k = entry_of(entries, o);
            assert(s2[k].owner@ == o);
        }
        if o == e.owner@ {
            assert(s2[n].owner@ == o);
        }
    }
    assert forall|o: Seq<u8>| #[trigger] m1.contains_key(o) implies m1[o] == m2[o] by {
        let k = entry_of(s2, o);
        if o == e.owner@ {
            assert(s2[n].owner@ == o);
        } else {
            assert(k != n);
            assert(entries[k].owner@ == o);
            assert(has_entry(entries, o));
            let k2 = entry_of(entries, o);
            assert(s2[k2].owner@ == o);
        }
    }
    assert(m1 =~= m2);
}

/// A fresh copy of a sequence of ids.
pub fn copy_ids(a: &Vec<u64>) -> (r: Vec<u64>)
    ensures
        r@ == a@,
{
    let mut r: Vec<u64> = Vec::new();
    let mut i: usize = 0;
    while i < a.len()
        invariant
            i <= a.len(),
            r@ == a@.subrange(0, i as int),
        decreases a.len() - i,
    {
        r.push(a[i]);
        i = i + 1;
        assert(r@ =~= a@.subrange(0, i as int));
    }
    assert(a@.subrange(0, a.len() as int) =~= a@);
    r
}

impl View for OwnerIndex {
    type V = Map<Seq<u8>, Seq<u64>>;

    closed spec fn view(&self) -> Map<Seq<u8>, Seq<u64>> {
        index_map(self.entries@)
    }
}

impl OwnerIndex {
    /// The index's internal invariant: each owner has at most one entry.
    pub closed spec fn wf(&self) -> bool {
        owners_distinct(self.entries@)
    }

    /// An index in which no owner has an entry.
    pub fn new() -> (r: OwnerIndex)
        ensures
            r.wf(),
            r@ == Map::<Seq<u8>, Seq<u64>>::empty(),
    {
        let r = OwnerIndex { entries: Vec::new() };
        assert(r@ =~= Map::<Seq<u8>, Seq<u64>>::empty());
        r
    }

    fn find(&self, owner: &Vec<u8>) -> (r: Option<usize>)
        requires
            self.wf(),
        ensures
            match r {
                Some(i) => i < self.entries.len() && self.entries@[i as int].owner@ == owner@,
                None => !has_entry(self.entries@, owner@),
            },
    {
        let mut i: usize = 0;
        while i < self.entries.len()
            invariant
                i <= self.entries.len(),
                forall|j: int| 0 <= j < i ==> (#[trigger] self.entries@[j]).owner@ != owner@,
            decreases self.entries.len() - i,
        {
            if bytes_equal(&self.entries[i].owner, owner) {
                return Some(i);
            }
            i = i + 1;
        }
        None
    }

    /// The ids held by `owner`, or none when it has no entry.
    pub fn ids_of(&self, owner: &Vec<u8>) -> (r: Vec<u64>)
        requires
            self.wf(),
        ensures
            r@ == (if self@.contains_key(owner@) { self@[owner@] } else { Seq::<u64>::empty() }),
    {
        match self.find(owner) {
            Some(i) => {
                proof {
                    lemma_lookup(self.entries@, i as int);
                }
                copy_ids(&self.entries[i].ids)
            },
            None => Vec::new(),
        }
    }

    /// Sets the ids of `owner`, giving the owner an entry when it has none.
    pub fn set_ids(&mut self, owner: &Vec<u8>, ids: Vec<u64>)
        requires
            old(self).wf(),
        ensures
            final(self).wf(),
            final(self)@ == old(self)@.insert(owner@, ids@),
    {
        match self.find(owner) {
            Some(i) => {
                let mut e = self.entries.remove(i);
                e.ids = ids;
                self.entries.insert(i, e);
                proof {
                    assert(self.entries@ =~= old(self).entries@.update(i as int, e));
                    lemma_update(old(self).entries@, i as int, e);
                }
            },
            None => {
                let e = OwnerIds { owner: copy_bytes(owner), ids };
                proof {
                    lemma_push(self.entries@, e);
                }
                self.entries.push(e);
            },
        }
    }
}

} // verus!
