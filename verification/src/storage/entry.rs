//! The output aggregate: provenance-carrying map entries and an in-memory
//! map with last-write-wins key semantics.

use vstd::prelude::*;

verus! {

/// Provenance metadata: which source, page and slot a record came from.
#[derive(Debug)]
pub struct Provenance {
    pub source_id: String,
    pub page_no: u32,
    pub slot_index: u16,
}

/// Mathematical model of a `Provenance`.
pub struct ProvenanceModel {
    pub source_id: Seq<char>,
    pub page_no: u32,
    pub slot_index: u16,
}

impl View for Provenance {
    type V = ProvenanceModel;

    open spec fn view(&self) -> ProvenanceModel {
        ProvenanceModel {
            source_id: self.source_id@,
            page_no: self.page_no,
            slot_index: self.slot_index,
        }
    }
}

/// One entry of the output map.
#[derive(Debug)]
pub struct MapEntry {
    pub key: Vec<u8>,
    pub value: Vec<u8>,
    pub meta: Option<Provenance>,
}

/// Mathematical model of a `MapEntry`.
pub struct MapEntryModel {
    pub key: Seq<u8>,
    pub value: Seq<u8>,
    pub meta: Option<ProvenanceModel>,
}

impl View for MapEntry {
    type V = MapEntryModel;

    open spec fn view(&self) -> MapEntryModel {
        MapEntryModel {
            key: self.key@,
            value: self.value@,
            meta: match self.meta {
                Some(ref p) => Some(p@),
                None => None,
            },
        }
    }
}

/// The key-to-value map that a sequence of entries denotes, later entries
/// overwriting earlier ones.
pub open spec fn map_of_entries(s: Seq<MapEntryModel>) -> Map<Seq<u8>, Seq<u8>>
    decreases s.len(),
{
    if s.len() == 0 {
        Map::empty()
    } else {
        map_of_entries(s.drop_last()).insert(s.last().key, s.last().value)
    }
}

/// A key is in the denoted map exactly when some entry carries it.
pub proof fn lemma_map_of_entries_contains(s: Seq<MapEntryModel>, k: Seq<u8>)
    ensures
        map_of_entries(s).contains_key(k) <==> exists|i: int| 0 <= i < s.len() && s[i].key == k,
    decreases s.len(),
{
    if s.len() > 0 {
        lemma_map_of_entries_contains(s.drop_last(), k);
        if map_of_entries(s).contains_key(k) {
            if s.last().key != k {
                let i = choose|i: int| 0 <= i < s.drop_last().len() && s.drop_last()[i].key == k;
                assert(s[i].key == k);
            }
        } else {
            assert(forall|i: int|
                0 <= i < s.drop_last().len() ==> s.drop_last()[i] == s[i]);
        }
    }
}

/// Whether the entries of `s` carry pairwise distinct keys.
pub open spec fn unique_keys(s: Seq<MapEntryModel>) -> bool {
    forall|i: int, j: int| 0 <= i < j < s.len() ==> s[i].key != s[j].key
}

/// Replacing the value of the entry that carries `k` updates the denoted
/// map at `k`, when keys are unique.
pub proof fn lemma_map_of_entries_update(s: Seq<MapEntryModel>, i: int, e: MapEntryModel)
    requires
        unique_keys(s),
        0 <= i < s.len(),
        s[i].key == e.key,
    ensures
        map_of_entries(s.update(i, e)) == map_of_entries(s).insert(e.key, e.value),
    decreases s.len(),
{
    let t = s.update(i, e);
    if i == s.len() - 1 {
        assert(t.drop_last() =~= s.drop_last());
        assert(map_of_entries(t) =~= map_of_entries(s).insert(e.key, e.value));
    } else {
        assert(t.drop_last() =~= s.drop_last().update(i, e));
        assert(s.drop_last()[i] == s[i]);
        lemma_map_of_entries_update(s.drop_last(), i, e);
        assert(t.last() == s.last());
        assert(s.last().key != e.key);
        assert(map_of_entries(t) =~= map_of_entries(s).insert(e.key, e.value));
    }
}

/// Appending an entry inserts its pair into the denoted map.
pub proof fn lemma_map_of_entries_push(s: Seq<MapEntryModel>, e: MapEntryModel)
    ensures
        map_of_entries(s.push(e)) == map_of_entries(s).insert(e.key, e.value),
{
    assert(s.push(e).drop_last() =~= s);
    assert(s.push(e).last() == e);
}

/// With unique keys, the denoted map has one key per entry.
pub proof fn lemma_map_of_entries_len(s: Seq<MapEntryModel>)
    requires
        unique_keys(s),
    ensures
        map_of_entries(s).dom().finite(),
        map_of_entries(s).dom().len() == s.len(),
    decreases s.len(),
{
    if s.len() > 0 {
        lemma_map_of_entries_len(s.drop_last());
        lemma_map_of_entries_contains(s.drop_last(), s.last().key);
        assert(!map_of_entries(s.drop_last()).contains_key(s.last().key));
        assert(map_of_entries(s).dom() =~= map_of_entries(s.drop_last()).dom().insert(
            s.last().key,
        ));
    } else {
        assert(map_of_entries(s).dom() =~= Set::<Seq<u8>>::empty());
    }
}

/// Compare two byte buffers for equality.
pub fn bytes_eq(a: &[u8], b: &[u8]) -> (r: bool)
    ensures
        r == (a@ == b@),
{
    if a.len() != b.len() {
        proof {
            assert(a@.len() != b@.len());
        }
        return false;
    }
    let n: usize = a.len();
    let mut i: usize = 0;
    while i < n
        invariant
            i <= n,
            n == a@.len(),
            n == b@.len(),
            forall|j: int| 0 <= j < i ==> a@[j] == b@[j],
        decreases n - i,
    {
        if a[i] != b[i] {
            return false;
        }
        i = i + 1;
    }
    proof {
        assert(a@ =~= b@);
    }
    true
}

/// The in-memory output map: insertion keeps at most one entry per key, a
/// later insertion of an equal key overwriting the earlier one.
#[derive(Debug)]
pub struct RecordMap {
    entries: Vec<MapEntry>,
}

impl RecordMap {
    /// The models of the entries, in insertion order.
    pub closed spec fn spec_entries(&self) -> Seq<MapEntryModel> {
        self.entries@.map_values(|e: MapEntry| e@)
    }

    /// Well-formed: all keys distinct.
    pub open spec fn wf(&self) -> bool {
        unique_keys(self.spec_entries())
    }

    /// The key-to-value map this container denotes.
    pub open spec fn as_map(&self) -> Map<Seq<u8>, Seq<u8>> {
        map_of_entries(self.spec_entries())
    }

    /// An empty map.
    pub fn new() -> (r: RecordMap)
        ensures
            r.wf(),
            r.as_map() == Map::<Seq<u8>, Seq<u8>>::empty(),
            r.spec_entries().len() == 0,
    {
        RecordMap { entries: Vec::new() }
    }

    /// Number of entries (and, keys being unique, of distinct keys).
    pub fn len(&self) -> (r: usize)
        requires
            self.wf(),
        ensures
            r == self.spec_entries().len(),
            r == self.as_map().dom().len(),
    {
        proof {
            lemma_map_of_entries_len(self.spec_entries());
        }
        self.entries.len()
    }

    /// Insert an owned pair, overwriting the entry with an equal key if one
    /// is there and returning it.
    pub fn insert(&mut self, key: Vec<u8>, value: Vec<u8>, provenance: Option<Provenance>) -> (r:
        Option<MapEntry>)
        requires
            old(self).wf(),
        ensures
            final(self).wf(),
            final(self).as_map() == old(self).as_map().insert(key@, value@),
            (r is Some) == old(self).as_map().contains_key(key@),
            match r {
                Some(prev) => prev.key@ == key@ && old(self).as_map()[key@] == prev.value@,
                None => true,
            },
    {
        proof {
            lemma_map_of_entries_contains(self.spec_entries(), key@);
        }
        let n: usize = self.entries.len();
        let mut i: usize = 0;
        while i < n
            invariant
                i <= n,
                n == self.spec_entries().len(),
                old(self) == self,
                old(self).wf(),
                forall|j: int| 0 <= j < i ==> #[trigger] self.spec_entries()[j].key != key@,
            decreases n - i,
        {
            if bytes_eq(self.entries[i].key.as_slice(), key.as_slice()) {
                let prev = self.entries.remove(i);
                let entry = MapEntry { key, value, meta: provenance };
                let ghost em = entry@;
                self.entries.insert(i, entry);
                proof {
                    assert(self.spec_entries() =~= old(self).spec_entries().update(i as int, em));
                    lemma_map_of_entries_update(old(self).spec_entries(), i as int, em);
                    lemma_value_at_unique(old(self).spec_entries(), i as int);
                }
                return Some(prev);
            }
            i = i + 1;
        }
        let entry = MapEntry { key, value, meta: provenance };
        let ghost em = entry@;
        self.entries.push(entry);
        proof {
            assert(self.spec_entries() =~= old(self).spec_entries().push(em));
            lemma_map_of_entries_push(old(self).spec_entries(), em);
        }
        None
    }

    /// Borrow the value stored under `key`.
    pub fn get(&self, key: &[u8]) -> (r: Option<&Vec<u8>>)
        requires
            self.wf(),
        ensures
            match r {
                Some(v) => self.as_map().contains_key(key@) && v@ == self.as_map()[key@],
                None => !self.as_map().contains_key(key@),
            },
    {
        proof {
            lemma_map_of_entries_contains(self.spec_entries(), key@);
        }
        let n: usize = self.entries.len();
        let mut i: usize = 0;
        while i < n
            invariant
                i <= n,
                n == self.spec_entries().len(),
                self.wf(),
                forall|j: int| 0 <= j < i ==> #[trigger] self.spec_entries()[j].key != key@,
            decreases n - i,
        {
            if bytes_eq(self.entries[i].key.as_slice(), key) {
                proof {
                    lemma_value_at_unique(self.spec_entries(), i as int);
                }
                return Some(&self.entries[i].value);
            }
            i = i + 1;
        }
        None
    }

    /// Borrow the entries, in insertion order.
    pub fn entries(&self) -> (r: &Vec<MapEntry>)
        ensures
            r@.map_values(|e: MapEntry| e@) == self.spec_entries(),
    {
        &self.entries
    }
}

/// Primary in-memory container interface: a key-to-value map with
/// last-write-wins insertion.
pub trait InMemoryMap {
    /// The key-to-value map this container denotes.
    spec fn map_view(&self) -> Map<Seq<u8>, Seq<u8>>;

    /// The container's internal invariant.
    spec fn inv(&self) -> bool;

    /// Insert an owned pair, overwriting and returning the entry with an
    /// equal key if one is there.
    fn insert(&mut self, key: Vec<u8>, value: Vec<u8>, provenance: Option<Provenance>) -> (r:
        Option<MapEntry>)
        requires
            old(self).inv(),
        ensures
            final(self).inv(),
            final(self).map_view() == old(self).map_view().insert(key@, value@),
            (r is Some) == old(self).map_view().contains_key(key@),
    ;

    /// Borrow the value stored under `key`.
    fn get(&self, key: &[u8]) -> (r: Option<&Vec<u8>>)
        requires
            self.inv(),
        ensures
            match r {
                Some(v) => self.map_view().contains_key(key@) && v@ == self.map_view()[key@],
                None => !self.map_view().contains_key(key@),
            },
    ;

    /// Number of entries.
    fn len(&self) -> (r: usize)
        requires
            self.inv(),
        ensures
            r == self.map_view().dom().len(),
    ;
}

impl InMemoryMap for RecordMap {
    open spec fn map_view(&self) -> Map<Seq<u8>, Seq<u8>> {
        self.as_map()
    }

    open spec fn inv(&self) -> bool {
        self.wf()
    }

    fn insert(&mut self, key: Vec<u8>, value: Vec<u8>, provenance: Option<Provenance>) -> (r:
        Option<MapEntry>) {
        RecordMap::insert(self, key, value, provenance)
    }

    fn get(&self, key: &[u8]) -> (r: Option<&Vec<u8>>) {
        RecordMap::get(self, key)
    }

    fn len(&self) -> (r: usize) {
        RecordMap::len(self)
    }
}

/// With unique keys, the denoted map holds entry `i`'s value at entry `i`'s
/// key.
pub proof fn lemma_value_at_unique(s: Seq<MapEntryModel>, i: int)
    requires
        unique_keys(s),
        0 <= i < s.len(),
    ensures
        map_of_entries(s).contains_key(s[i].key),
        map_of_entries(s)[s[i].key] == s[i].value,
    decreases s.len(),
{
    lemma_map_of_entries_contains(s, s[i].key);
    if i == s.len() - 1 {
    } else {
        assert(s.drop_last()[i] == s[i]);
        lemma_value_at_unique(s.drop_last(), i);
        assert(s.last().key != s[i].key);
    }
}

} // verus!
