use vstd::prelude::*;

use crate::address::Address;

verus! {

/// A copy of a list of IDs.
pub fn clone_ids(v: &Vec<u64>) -> (c: Vec<u64>)
    ensures
        c@ == v@,
{
    let mut c: Vec<u64> = Vec::new();
    let mut i: usize = 0;
    while i < v.len()
        invariant
            i <= v.len(),
            c@ == v@.subrange(0, i as int),
        decreases v.len() - i,
    {
        c.push(v[i]);
        i = i + 1;
        assert(c@ =~= v@.subrange(0, i as int));
    }
    assert(v@.subrange(0, v.len() as int) =~= v@);
    c
}

/// One persistent index entry: the IDs listed under an address and the
/// entry's remaining TTL.
pub struct IndexEntry {
    pub key: Address,
    pub ids: Vec<u64>,
    pub ttl: u32,
}

/// The persistent index entries of one kind (by owner or by watched
/// contract), at most one per address.
pub struct IndexTable {
    entries: Vec<IndexEntry>,
}

pub open spec fn keys_unique(s: Seq<IndexEntry>) -> bool {
    forall|i: int, j: int| 0 <= i < j < s.len() ==> s[i].key != s[j].key
}

pub open spec fn lists_bounded(s: Seq<IndexEntry>) -> bool {
    forall|i: int| 0 <= i < s.len() ==> s[i].ids@.len() <= u32::MAX
}

pub open spec fn has_key(s: Seq<IndexEntry>, k: Address) -> bool {
    exists|i: int| 0 <= i < s.len() && s[i].key == k
}

pub open spec fn position(s: Seq<IndexEntry>, k: Address) -> int {
    choose|i: int| 0 <= i < s.len() && s[i].key == k
}

pub open spec fn ids_of(s: Seq<IndexEntry>) -> Map<Address, Seq<u64>> {
    Map::new(|k: Address| has_key(s, k), |k: Address| s[position(s, k)].ids@)
}

pub open spec fn ttls_of(s: Seq<IndexEntry>) -> Map<Address, u32> {
    Map::new(|k: Address| has_key(s, k), |k: Address| s[position(s, k)].ttl)
}

proof fn lemma_position(s: Seq<IndexEntry>, k: Address, i: int)
    requires
        keys_unique(s),
        0 <= i < s.len(),
        s[i].key == k,
    ensures
        has_key(s, k),
        position(s, k) == i,
{
    assert(has_key(s, k));
    let p = position(s, k);
    if p != i {
        if p < i {
            assert(s[p].key != s[i].key);
        } else {
            assert(s[i].key != s[p].key);
        }
    }
}

impl IndexTable {
    #[verifier::type_invariant]
    spec fn inv(self) -> bool {
        &&& keys_unique(self.entries@)
        &&& lists_bounded(self.entries@)
    }

    /// The ID list stored under each address.
    pub closed spec fn lists(self) -> Map<Address, Seq<u64>> {
        ids_of(self.entries@)
    }

    /// The remaining TTL of each stored entry.
    pub closed spec fn ttls(self) -> Map<Address, u32> {
        ttls_of(self.entries@)
    }

    pub fn new() -> (t: IndexTable)
        ensures
            t.lists() == Map::<Address, Seq<u64>>::empty(),
            t.ttls() == Map::<Address, u32>::empty(),
    {
        let t = IndexTable { entries: Vec::new() };
        assert(t.lists() =~= Map::<Address, Seq<u64>>::empty());
        assert(t.ttls() =~= Map::<Address, u32>::empty());
        t
    }

    /// The same keys are stored with a list and with a TTL.
    pub proof fn lemma_same_keys(self)
        ensures
            self.lists().dom() == self.ttls().dom(),
    {
        assert(self.lists().dom() =~= self.ttls().dom());
    }

    fn find(&self, k: &Address) -> (r: Option<usize>)
        ensures
            match r {
                Some(i) => i < self.entries@.len() && self.entries@[i as int].key == *k,
                None => !has_key(self.entries@, *k),
            },
    {
        let mut i: usize = 0;
        while i < self.entries.len()
            invariant
                i <= self.entries@.len(),
                forall|j: int| 0 <= j < i ==> self.entries@[j].key != *k,
            decreases self.entries@.len() - i,
        {
            if self.entries[i].key == *k {
                return Some(i);
            }
            i = i + 1;
        }
        None
    }

    /// The list and TTL stored under `k`, if any.
    pub fn get(&self, k: &Address) -> (r: Option<(Vec<u64>, u32)>)
        ensures
            match r {
                Some((ids, ttl)) => {
                    &&& self.lists().contains_key(*k)
                    &&& ids@ == self.lists()[*k]
                    &&& ttl == self.ttls()[*k]
                    &&& ids@.len() <= u32::MAX
                },
                None => !self.lists().contains_key(*k),
            },
    {
        proof {
            use_type_invariant(self);
        }
        match self.find(k) {
            Some(i) => {
                proof {
                    lemma_position(self.entries@, *k, i as int);
                }
                Some((clone_ids(&self.entries[i].ids), self.entries[i].ttl))
            },
            None => None,
        }
    }

    /// Stores `ids` with TTL `ttl` under `k`, replacing any previous entry.
    pub fn set(&mut self, k: Address, ids: Vec<u64>, ttl: u32)
        requires
            ids@.len() <= u32::MAX,
        ensures
            final(self).lists() == old(self).lists().insert(k, ids@),
            final(self).ttls() == old(self).ttls().insert(k, ttl),
    {
        proof {
            use_type_invariant(&*self);
        }
        let ghost ids_view = ids@;
        let ghost old_entries = self.entries@;
        let pos = self.find(&k);
        let mut entries: Vec<IndexEntry> = Vec::new();
        std::mem::swap(&mut entries, &mut self.entries);
        assert(entries@ == old_entries);
        match pos {
            Some(i) => {
                entries.set(i, IndexEntry { key: k, ids, ttl });
                assert(entries@ == old_entries.update(i as int, entries@[i as int]));
            },
            None => {
                entries.push(IndexEntry { key: k, ids, ttl });
            },
        }
        let ghost new_entries = entries@;
        assert(keys_unique(new_entries)) by {
            assert forall|a: int, b: int| 0 <= a < b < new_entries.len() implies new_entries[a].key
                != new_entries[b].key by {
                if pos.is_none() && b == new_entries.len() - 1 {
                    assert(new_entries[a] == old_entries[a]);
                } else if pos.is_some() && (a == pos.unwrap() || b == pos.unwrap()) {
                    if a == pos.unwrap() {
                        assert(old_entries[a].key != old_entries[b].key);
                    } else {
                        assert(old_entries[a].key != old_entries[b].key);
                    }
                } else {
                    assert(old_entries[a].key != old_entries[b].key);
                }
            }
        }
        assert(lists_bounded(new_entries)) by {
            assert forall|a: int| 0 <= a < new_entries.len() implies new_entries[a].ids@.len()
                <= u32::MAX by {
                if (pos.is_some() && a == pos.unwrap()) || (pos.is_none() && a == old_entries.len()) {
                } else {
                    assert(new_entries[a] == old_entries[a]);
                }
            }
        }
        self.entries = entries;
        proof {
            let j = match pos {
                Some(i) => i as int,
                None => old_entries.len() as int,
            };
            assert(new_entries[j].key == k);
            lemma_position(new_entries, k, j);
            assert forall|q: Address| q != k implies (has_key(new_entries, q) == has_key(
                old_entries,
                q,
            )) && (has_key(old_entries, q) ==> position(new_entries, q) == position(
                old_entries,
                q,
            )) by {
                if has_key(old_entries, q) {
                    let p = position(old_entries, q);
                    assert(p != j);
                    assert(new_entries[p] == old_entries[p]);
                    lemma_position(new_entries, q, p);
                }
                if has_key(new_entries, q) {
                    let p = position(new_entries, q);
                    assert(p != j);
                    assert(new_entries[p] == old_entries[p]);
                }
            }
            assert(self.lists() =~= old(self).lists().insert(k, ids_view));
            assert(self.ttls() =~= old(self).ttls().insert(k, ttl));
        }
    }
}

} // verus!
