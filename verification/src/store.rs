//! The per-resource record and the store that maps resource keys to records.
//!
//! A record keeps, for one tracked resource, when it last changed, when it
//! was last checked, the commit hash seen at the last change, and an optional
//! archived flag (absent means not archived). The store is the full
//! key-to-record mapping, read into memory wholesale and written back
//! wholesale by the callers that persist it.

use vstd::prelude::*;

verus! {

/// The largest timestamp magnitude the library accepts, as an executable
/// bound for callers that must test a value before handing it in.
pub const TS_LIMIT: i64 = 0x1000_0000_0000_0000;

/// Timestamps are absolute UTC times in whole seconds. The arithmetic over
/// them (day and minute differences) stays clear of machine overflow as long
/// as each timestamp keeps within about thirty-six billion years of the
/// epoch, which this predicate demands.
pub open spec fn ts_in_range(t: int) -> bool {
    -(TS_LIMIT as int) <= t <= TS_LIMIT as int
}

/// The persisted state for one resource: when it was last checked, when it
/// last changed, the commit hash seen then, and an optional archived flag.
/// Absent (`None`) means not archived. Archived resources are never due for
/// a check, and the change-age summary can leave them out; the check-age
/// summary never filters them.
#[derive(Debug, Clone, Copy, PartialEq, Eq)]
pub struct Status {
    /// When this resource was last checked, in UTC seconds.
    pub check_time: i64,
    /// When this resource last changed, in UTC seconds.
    pub change_time: i64,
    /// The commit hash seen at the last change.
    pub commit_hash: crate::Hash,
    /// Whether the resource is archived; absent means not archived.
    pub archived: Option<bool>,
}

/// Both timestamps of a record are in the range the library accepts.
pub open spec fn status_in_range(st: Status) -> bool {
    ts_in_range(st.check_time as int) && ts_in_range(st.change_time as int)
}

/// The full mapping from resource key to record. Keys are unique; its view
/// is the map from key text to record.
pub struct Store {
    entries: Vec<(String, Status)>,
}

impl Store {
    /// The keys, in insertion order.
    pub closed spec fn keys(self) -> Seq<Seq<char>> {
        self.entries@.map_values(|p: (String, Status)| p.0@)
    }

    /// The records, in insertion order (matching `keys`).
    pub closed spec fn records(self) -> Seq<Status> {
        self.entries@.map_values(|p: (String, Status)| p.1)
    }

    /// Well-formed: no key occurs twice.
    pub closed spec fn wf(self) -> bool {
        forall|i: int, j: int|
            0 <= i < j < self.entries@.len() ==> self.entries@[i].0@ != self.entries@[j].0@
    }

    /// Whether some entry holds this key.
    spec fn spec_contains(self, k: Seq<char>) -> bool {
        exists|i: int| 0 <= i < self.entries@.len() && self.entries@[i].0@ == k
    }

    /// The position of the entry holding this key.
    spec fn index_of(self, k: Seq<char>) -> int {
        choose|i: int| 0 <= i < self.entries@.len() && self.entries@[i].0@ == k
    }

    /// In a well-formed store, `index_of` is the one position of a present
    /// key.
    proof fn lemma_index_of(self, k: Seq<char>)
        requires
            self.wf(),
            self.spec_contains(k),
        ensures
            0 <= self.index_of(k) < self.entries@.len(),
            self.entries@[self.index_of(k)].0@ == k,
            forall|i: int|
                0 <= i < self.entries@.len() && self.entries@[i].0@ == k ==> i == self.index_of(k),
    {
        let w = choose|i: int| 0 <= i < self.entries@.len() && self.entries@[i].0@ == k;
        assert(0 <= w < self.entries@.len() && self.entries@[w].0@ == k);
    }

    /// An empty store.
    pub fn new() -> (r: Store)
        ensures
            r@ == Map::<Seq<char>, Status>::empty(),
            r.wf(),
            r.keys().len() == 0,
    {
        let r = Store { entries: Vec::new() };
        proof {
            assert(r@ =~= Map::<Seq<char>, Status>::empty());
        }
        r
    }

    /// How many resources the store tracks.
    pub fn len(&self) -> (r: usize)
        ensures
            r == self.keys().len(),
            r == self.records().len(),
    {
        self.entries.len()
    }

    /// The key of the entry at a position.
    pub fn key_at(&self, i: usize) -> (r: &String)
        requires
            i < self.keys().len(),
        ensures
            r@ == self.keys()[i as int],
    {
        &self.entries[i].0
    }

    /// The record of the entry at a position.
    pub fn record_at(&self, i: usize) -> (r: &Status)
        requires
            i < self.records().len(),
        ensures
            *r == self.records()[i as int],
    {
        &self.entries[i].1
    }

    /// The records alone, in entry order, for read-only consumers such as
    /// the summary reporter.
    pub fn values(&self) -> (r: Vec<Status>)
        ensures
            r@ == self.records(),
    {
        let mut out: Vec<Status> = Vec::new();
        let mut i: usize = 0;
        let n = self.entries.len();
        while i < n
            invariant
                i <= n,
                n == self.records().len(),
                out@ =~= self.records().take(i as int),
            decreases n - i,
        {
            out.push(self.entries[i].1);
            i += 1;
        }
        proof {
            assert(out@ =~= self.records());
        }
        out
    }

    /// Exact-match retrieval by key.
    pub fn lookup(&self, key: &String) -> (r: Option<&Status>)
        requires
            self.wf(),
        ensures
            (match r {
                Some(st) => self@.contains_key(key@) && *st == self@[key@],
                None => !self@.contains_key(key@),
            }),
    {
        let n = self.entries.len();
        let mut i: usize = 0;
        while i < n
            invariant
                i <= n,
                n == self.entries@.len(),
                self.wf(),
                forall|j: int| 0 <= j < i ==> self.entries@[j].0@ != key@,
            decreases n - i,
        {
            if self.entries[i].0 == *key {
                proof {
                    assert(self.spec_contains(key@));
                    self.lemma_index_of(key@);
                    assert(self.index_of(key@) == i);
                }
                return Some(&self.entries[i].1);
            }
            i += 1;
        }
        proof {
            assert(!self.spec_contains(key@));
        }
        None
    }

    /// Inserts a record under a key, overwriting any record already there.
    /// The key count grows by one exactly when the key was absent.
    pub fn insert(&mut self, key: String, st: Status)
        requires
            old(self).wf(),
        ensures
            final(self).wf(),
            final(self)@ == old(self)@.insert(key@, st),
            old(self)@.contains_key(key@) ==> final(self).keys() == old(self).keys(),
            !old(self)@.contains_key(key@) ==> final(self).keys() == old(self).keys().push(key@),
    {
        let n = self.entries.len();
        let mut i: usize = 0;
        while i < n
            invariant
                i <= n,
                n == self.entries@.len(),
                self.wf(),
                self == old(self),
                forall|j: int| 0 <= j < i ==> self.entries@[j].0@ != key@,
            decreases n - i,
        {
            if self.entries[i].0 == key {
                self.entries[i].1 = st;
                proof {
                    let ghost pre = *old(self);
                    assert(self.keys() =~= pre.keys());
                    assert(pre.spec_contains(key@));
                    assert(pre@.contains_key(key@));
                    assert forall|k: Seq<char>| true implies self.spec_contains(k)
                        == pre.spec_contains(k) by {
                        assert forall|j: int|
                            0 <= j < pre.entries@.len() implies self.entries@[j].0@
                            == pre.entries@[j].0@ by {}
                    }
                    assert(self.wf());
                    assert forall|k: Seq<char>| #[trigger]
                        self@.contains_key(k) implies self@[k] == pre@.insert(key@, st)[k] by {
                        self.lemma_index_of(k);
                        pre.lemma_index_of(k);
                        if k == key@ {
                            assert(self.entries@[i as int].0@ == k);
                            assert(self.index_of(k) == i);
                            assert(self@[k] == st);
                        } else {
                            let w = self.index_of(k);
                            assert(w != i);
                            assert(pre.entries@[w] == self.entries@[w]);
                            assert(pre.index_of(k) == w);
                        }
                    }
                    assert(self@ =~= pre@.insert(key@, st));
                }
                return ;
            }
            i += 1;
        }
        self.entries.push((key, st));
        proof {
            let ghost pre = *old(self);
            assert(!pre.spec_contains(key@));
            assert(!pre@.contains_key(key@));
            assert(self.entries@ == pre.entries@.push((key, st)));
            assert(self.keys() =~= pre.keys().push(key@));
            assert(self.wf());
            assert forall|k: Seq<char>| true implies self.spec_contains(k) == (pre.spec_contains(k)
                || k == key@) by {
                if self.spec_contains(k) {
                    let w = self.index_of(k);
                    assert(0 <= w < self.entries@.len() && self.entries@[w].0@ == k);
                    if w < pre.entries@.len() {
                        assert(pre.spec_contains(k));
                    } else {
                        assert(k == key@);
                    }
                } else {
                    if pre.spec_contains(k) {
                        let w = choose|j: int|
                            0 <= j < pre.entries@.len() && pre.entries@[j].0@ == k;
                        assert(self.entries@[w].0@ == k);
                        assert(false);
                    }
                    if k == key@ {
                        assert(self.entries@[n as int].0@ == k);
                        assert(false);
                    }
                }
            }
            assert forall|k: Seq<char>| #[trigger]
                self@.contains_key(k) implies self@[k] == pre@.insert(key@, st)[k] by {
                self.lemma_index_of(k);
                if k == key@ {
                    assert(self.entries@[n as int].0@ == k);
                    assert(self.index_of(k) == n);
                    assert(self@[k] == st);
                } else {
                    let w = self.index_of(k);
                    assert(w < n);
                    assert(pre.entries@[w] == self.entries@[w]);
                    pre.lemma_index_of(k);
                    assert(pre.index_of(k) == w);
                }
            }
            assert(self@ =~= pre@.insert(key@, st));
        }
    }

    /// Creates or updates the record for a key, as one "record" operation
    /// does: the commit hash and change time are taken as supplied, the
    /// check time is reset, and an archived flag already stored under the
    /// key is preserved (a fresh record starts with none). The key count
    /// grows by one exactly when the key was absent.
    pub fn upsert(&mut self, key: String, commit_hash: crate::Hash, change_time: i64,
        check_time: i64)
        requires
            old(self).wf(),
        ensures
            final(self).wf(),
            final(self)@ == old(self)@.insert(key@, (Status {
                check_time,
                change_time,
                commit_hash,
                archived: if old(self)@.contains_key(key@) {
                    old(self)@[key@].archived
                } else {
                    None
                },
            })),
            old(self)@.contains_key(key@) ==> final(self).keys() == old(self).keys(),
            !old(self)@.contains_key(key@) ==> final(self).keys() == old(self).keys().push(key@),
    {
        let archived = match self.lookup(&key) {
            Some(st) => st.archived,
            None => None,
        };
        self.insert(key, Status { check_time, change_time, commit_hash, archived });
    }

    /// Relates the entry positions to the map view: in a well-formed store
    /// every position holds a present key mapped to the record at that
    /// position, and the keys are pairwise distinct.
    pub proof fn lemma_entries_in_view(self)
        requires
            self.wf(),
        ensures
            self.keys().len() == self.records().len(),
            forall|i: int|
                0 <= i < self.keys().len() ==> self@.contains_key(#[trigger] self.keys()[i])
                    && self@[self.keys()[i]] == self.records()[i],
            forall|i: int, j: int|
                0 <= i < j < self.keys().len() ==> self.keys()[i] != self.keys()[j],
    {
        assert forall|i: int| 0 <= i < self.keys().len() implies self@.contains_key(
            #[trigger] self.keys()[i]) && self@[self.keys()[i]] == self.records()[i] by {
            let k = self.keys()[i];
            assert(self.entries@[i].0@ == k);
            assert(self.spec_contains(k));
            self.lemma_index_of(k);
            assert(self.index_of(k) == i);
        }
    }
}

impl View for Store {
    type V = Map<Seq<char>, Status>;

    closed spec fn view(&self) -> Map<Seq<char>, Status> {
        Map::new(|k: Seq<char>| self.spec_contains(k), |k: Seq<char>| self.entries@[self.index_of(k)].1)
    }
}

} // verus!
