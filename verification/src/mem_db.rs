use crate::db::MemoryDatabase;
use vstd::prelude::*;
use vstd::slice::slice_to_vec;

verus! {

/// One key of the store and the value under it.
struct Entry {
    key: Vec<u8>,
    value: Vec<u8>,
}

/// Whether `a` and `b` hold the same bytes.
pub fn same_bytes(a: &[u8], b: &[u8]) -> (same: bool)
    ensures
        same == (a@ == b@),
{
    if a.len() != b.len() {
        return false;
    }
    let mut i: usize = 0;
    while i < a.len()
        invariant
            i <= a.len(),
            a.len() == b.len(),
            a@.take(i as int) == b@.take(i as int),
        decreases a.len() - i,
    {
        if a[i] != b[i] {
            return false;
        }
        i += 1;
        assert(a@.take(i as int) =~= a@.take(i - 1).push(a@[i - 1]));
        assert(b@.take(i as int) =~= b@.take(i - 1).push(b@[i - 1]));
    }
    assert(a@.take(i as int) =~= a@);
    assert(b@.take(i as int) =~= b@);
    true
}

/// `key` is the key of one of `data`.
spec fn holds_key(data: Seq<Entry>, key: Seq<u8>) -> bool {
    exists|i: int| 0 <= i < data.len() && (#[trigger] data[i]).key@ == key
}

/// The index of an entry of `data` whose key is `key`.
spec fn index_of(data: Seq<Entry>, key: Seq<u8>) -> int {
    choose|i: int| 0 <= i < data.len() && (#[trigger] data[i]).key@ == key
}

/// No two of `data` have the same key.
spec fn keys_are_unique(data: Seq<Entry>) -> bool {
    forall|i: int, j: int|
        0 <= i < j < data.len() ==> (#[trigger] data[i]).key@ != (#[trigger] data[j]).key@
}

/// The mapping that `data` stands for.
spec fn mapping(data: Seq<Entry>) -> Map<Seq<u8>, Seq<u8>> {
    Map::new(|key: Seq<u8>| holds_key(data, key), |key: Seq<u8>| data[index_of(data, key)].value@)
}

/// Where no two keys are the same, each entry is the one that the mapping
/// holds under its key.
proof fn lemma_mapping_holds_entry(data: Seq<Entry>, i: int)
    requires
        keys_are_unique(data),
        0 <= i < data.len(),
    ensures
        holds_key(data, data[i].key@),
        index_of(data, data[i].key@) == i,
        mapping(data)[data[i].key@] == data[i].value@,
{
    assert(data[i].key@ == data[i].key@);
}

/// An entry in the place of one with the same key writes its value under
/// the key, and leaves the other keys as they were.
proof fn lemma_mapping_after_update(before: Seq<Entry>, i: int, entry: Entry)
    requires
        keys_are_unique(before),
        0 <= i < before.len(),
        before[i].key@ == entry.key@,
    ensures
        keys_are_unique(before.update(i, entry)),
        mapping(before.update(i, entry)) == mapping(before).insert(entry.key@, entry.value@),
{
    let after = before.update(i, entry);
    assert forall|a: int, b: int| 0 <= a < b < after.len() implies (#[trigger] after[a]).key@ != (
    #[trigger] after[b]).key@ by {
        assert(after[a].key@ == before[a].key@);
        assert(after[b].key@ == before[b].key@);
    }
    assert forall|k: Seq<u8>| holds_key(after, k) <==> holds_key(before, k) by {
        if holds_key(after, k) {
            assert(before[index_of(after, k)].key@ == k);
        }
        if holds_key(before, k) {
            assert(after[index_of(before, k)].key@ == k);
        }
    }
    assert forall|k: Seq<u8>| holds_key(after, k) implies mapping(after)[k] == mapping(
        before,
    ).insert(entry.key@, entry.value@)[k] by {
        let j = index_of(after, k);
        lemma_mapping_holds_entry(after, j);
        if j != i {
            lemma_mapping_holds_entry(before, j);
        }
    }
    lemma_mapping_holds_entry(before, i);
    assert(mapping(after) =~= mapping(before).insert(entry.key@, entry.value@));
}

/// An entry with a new key, at the end of the list, adds its key with its
/// value, and leaves the other keys as they were.
proof fn lemma_mapping_after_push(before: Seq<Entry>, entry: Entry)
    requires
        keys_are_unique(before),
        !holds_key(before, entry.key@),
    ensures
        keys_are_unique(before.push(entry)),
        mapping(before.push(entry)) == mapping(before).insert(entry.key@, entry.value@),
{
    let after = before.push(entry);
    let last = before.len() as int;
    assert forall|a: int, b: int| 0 <= a < b < after.len() implies (#[trigger] after[a]).key@ != (
    #[trigger] after[b]).key@ by {
        assert(after[a] == before[a]);
        if b < last {
            assert(after[b] == before[b]);
        }
    }
    assert forall|k: Seq<u8>| holds_key(after, k) <==> holds_key(before, k) || k
        == entry.key@ by {
        if holds_key(after, k) {
            let j = index_of(after, k);
            if j < last {
                assert(before[j].key@ == k);
            }
        }
        if holds_key(before, k) {
            assert(after[index_of(before, k)].key@ == k);
        }
        if k == entry.key@ {
            assert(after[last].key@ == k);
        }
    }
    assert forall|k: Seq<u8>| holds_key(after, k) implies mapping(after)[k] == mapping(
        before,
    ).insert(entry.key@, entry.value@)[k] by {
        let j = index_of(after, k);
        lemma_mapping_holds_entry(after, j);
        if j < last {
            lemma_mapping_holds_entry(before, j);
        }
    }
    assert(mapping(after) =~= mapping(before).insert(entry.key@, entry.value@));
}

/// The last entry in the place of another, and the list one shorter, takes
/// that other entry's key away, and leaves the other keys as they were.
proof fn lemma_mapping_after_swap_remove(before: Seq<Entry>, i: int)
    requires
        keys_are_unique(before),
        0 <= i < before.len(),
    ensures
        keys_are_unique(before.update(i, before.last()).drop_last()),
        mapping(before.update(i, before.last()).drop_last()) == mapping(before).remove(
            before[i].key@,
        ),
{
    let after = before.update(i, before.last()).drop_last();
    let last = before.len() - 1;
    let origin = |j: int| if j == i { last } else { j };
    assert forall|j: int| 0 <= j < after.len() implies (#[trigger] after[j]) == before[origin(
        j,
    )] by {}
    assert forall|a: int, b: int| 0 <= a < b < after.len() implies (#[trigger] after[a]).key@ != (
    #[trigger] after[b]).key@ by {
        assert(after[a] == before[origin(a)]);
        assert(after[b] == before[origin(b)]);
        if origin(a) < origin(b) {
            assert(before[origin(a)].key@ != before[origin(b)].key@);
        } else {
            assert(before[origin(b)].key@ != before[origin(a)].key@);
        }
    }
    lemma_mapping_holds_entry(before, i);
    assert forall|k: Seq<u8>| holds_key(after, k) <==> holds_key(before, k) && k
        != before[i].key@ by {
        if holds_key(after, k) {
            let j = index_of(after, k);
            assert(after[j] == before[origin(j)]);
            lemma_mapping_holds_entry(before, origin(j));
        }
        if holds_key(before, k) && k != before[i].key@ {
            let j = index_of(before, k);
            if j == last {
                assert(after[i].key@ == k);
            } else {
                assert(after[j].key@ == k);
            }
        }
    }
    assert forall|k: Seq<u8>| holds_key(after, k) implies mapping(after)[k] == mapping(
        before,
    )[k] by {
        let j = index_of(after, k);
        lemma_mapping_holds_entry(after, j);
        assert(after[j] == before[origin(j)]);
        lemma_mapping_holds_entry(before, origin(j));
    }
    assert(mapping(after) =~= mapping(before).remove(before[i].key@));
}

/// A store in memory: a list of entries, each key in it once.
pub struct MemDB {
    data: Vec<Entry>,
}

impl MemDB {
    #[verifier::type_invariant]
    spec fn well_formed(self) -> bool {
        keys_are_unique(self.data@)
    }

    /// An empty store.
    pub fn new() -> (db: Self)
        ensures
            db.entries() == Map::<Seq<u8>, Seq<u8>>::empty(),
    {
        let db = MemDB { data: Vec::new() };
        assert(db.entries() =~= Map::<Seq<u8>, Seq<u8>>::empty());
        db
    }

    /// The index of the entry under `key`, where there is one.
    fn position(&self, key: &[u8]) -> (at: Option<usize>)
        ensures
            match at {
                Some(i) => i < self.data.len() && self.data[i as int].key@ == key@,
                None => !holds_key(self.data@, key@),
            },
    {
        let mut i: usize = 0;
        while i < self.data.len()
            invariant
                i <= self.data.len(),
                forall|j: int| 0 <= j < i ==> (#[trigger] self.data[j]).key@ != key@,
            decreases self.data.len() - i,
        {
            if same_bytes(self.data[i].key.as_slice(), key) {
                return Some(i);
            }
            i += 1;
        }
        None
    }
}

impl MemoryDatabase for MemDB {
    closed spec fn entries(&self) -> Map<Seq<u8>, Seq<u8>> {
        mapping(self.data@)
    }

    fn set(&mut self, key: &[u8], value: &[u8]) {
        proof {
            use_type_invariant(&*self);
        }
        let entry = Entry { key: slice_to_vec(key), value: slice_to_vec(value) };
        let found = self.position(key);
        // The list leaves the store while it changes, and comes back with
        // each key in it once.
        let mut data: Vec<Entry> = Vec::new();
        core::mem::swap(&mut self.data, &mut data);
        match found {
            Some(i) => {
                proof {
                    lemma_mapping_after_update(data@, i as int, entry);
                }
                data.set(i, entry);
            },
            None => {
                proof {
                    lemma_mapping_after_push(data@, entry);
                }
                data.push(entry);
            },
        }
        core::mem::swap(&mut self.data, &mut data);
    }

    fn get(&self, key: &[u8]) -> (value: Option<Vec<u8>>) {
        proof {
            use_type_invariant(self);
        }
        match self.position(key) {
            Some(i) => {
                proof {
                    lemma_mapping_holds_entry(self.data@, i as int);
                }
                Some(slice_to_vec(self.data[i].value.as_slice()))
            },
            None => None,
        }
    }

    fn del(&mut self, key: &[u8]) -> (previous: Option<Vec<u8>>) {
        proof {
            use_type_invariant(&*self);
        }
        match self.position(key) {
            Some(i) => {
                proof {
                    lemma_mapping_holds_entry(self.data@, i as int);
                    lemma_mapping_after_swap_remove(self.data@, i as int);
                }
                let mut data: Vec<Entry> = Vec::new();
                core::mem::swap(&mut self.data, &mut data);
                let entry = data.swap_remove(i);
                core::mem::swap(&mut self.data, &mut data);
                Some(entry.value)
            },
            None => {
                assert(self.entries() =~= self.entries().remove(key@));
                None
            },
        }
    }
}

} // verus!
