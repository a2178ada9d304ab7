//! Keyed stores of the language-model service: a list of named entries (the
//! mounted adapters, the prompt sessions) and the prefix cache, which keeps KV
//! snapshots by the hash of a message prefix and evicts the least recently hit
//! one when it is full.
//!
//! Both keep their entries in a vector whose keys are pairwise distinct, so
//! each key names at most one entry.

use vstd::prelude::*;
use crate::text::str_eq;

verus! {

// ── Named entries ───────────────────────────────────────────────────────────

/// Entries keyed by name, each name at most once.
pub struct NamedList<V> {
    entries: Vec<(String, V)>,
}

/// No two entries of `keys` are equal.
pub open spec fn distinct_keys<K>(keys: Seq<K>) -> bool {
    forall|i: int, j: int| 0 <= i < keys.len() && 0 <= j < keys.len() && i != j ==> keys[i] != keys[j]
}

/// `after` is `before` with `v` stored under `k`: in place when `k` was present,
/// as a new last entry otherwise.
pub open spec fn put_into<V>(before: NamedList<V>, after: NamedList<V>, k: Seq<char>, v: V) -> bool {
    if before.has(k) {
        exists|i: int|
            0 <= i < before.keys().len() && before.keys()[i] == k && after.keys() == before.keys()
                && after.values() == before.values().update(i, v)
    } else {
        after.keys() == before.keys().push(k) && after.values() == before.values().push(v)
    }
}

/// `after` is `before` without the entry named `k` (the others in order), or
/// `before` itself when there was none.
pub open spec fn taken_from<V>(before: NamedList<V>, after: NamedList<V>, k: Seq<char>) -> bool {
    if before.has(k) {
        exists|i: int|
            0 <= i < before.keys().len() && before.keys()[i] == k && after.keys() == before.keys().remove(i)
                && after.values() == before.values().remove(i)
    } else {
        after.keys() == before.keys() && after.values() == before.values()
    }
}

impl<V> NamedList<V> {
    /// The names, in the order the entries were added.
    pub closed spec fn keys(&self) -> Seq<Seq<char>> {
        self.entries@.map_values(|e: (String, V)| e.0@)
    }

    /// The values, in the same order as the names.
    pub closed spec fn values(&self) -> Seq<V> {
        self.entries@.map_values(|e: (String, V)| e.1)
    }

    /// Each name occurs once, and there are as many values as names.
    pub closed spec fn wf(&self) -> bool {
        distinct_keys(self.keys())
    }

    /// The list has a value for `k`.
    pub open spec fn has(&self, k: Seq<char>) -> bool {
        self.keys().contains(k)
    }

    /// A list without entries.
    pub fn new() -> (r: Self)
        ensures
            r.wf(),
            r.keys().len() == 0,
            r.values().len() == 0,
    {
        let r = NamedList { entries: Vec::new() };
        assert(r.keys() =~= Seq::<Seq<char>>::empty());
        r
    }

    /// There are as many names as values.
    pub proof fn lemma_lengths(&self)
        ensures
            self.keys().len() == self.values().len(),
    {
    }

    /// The number of entries.
    pub fn len(&self) -> (r: usize)
        ensures
            r == self.keys().len(),
            r == self.values().len(),
    {
        self.entries.len()
    }

    /// The position of the entry named `k`.
    pub fn position(&self, k: &str) -> (r: Option<usize>)
        requires
            self.wf(),
        ensures
            match r {
                Some(i) => i < self.keys().len() && self.keys()[i as int] == k@,
                None => !self.has(k@),
            },
    {
        let mut i: usize = 0;
        while i < self.entries.len()
            invariant
                0 <= i <= self.entries@.len(),
                forall|j: int| 0 <= j < i ==> self.keys()[j] != k@,
            decreases self.entries@.len() - i,
        {
            if str_eq(self.entries[i].0.as_str(), k) {
                return Some(i);
            }
            i = i + 1;
        }
        proof {
            if self.keys().contains(k@) {
                let j = choose|j: int| 0 <= j < self.keys().len() && self.keys()[j] == k@;
                assert(self.keys()[j] == k@);
            }
        }
        None
    }

    /// Whether an entry is named `k`.
    pub fn contains(&self, k: &str) -> (r: bool)
        requires
            self.wf(),
        ensures
            r == self.has(k@),
    {
        self.position(k).is_some()
    }

    /// The value named `k`.
    pub fn get(&self, k: &str) -> (r: Option<&V>)
        requires
            self.wf(),
        ensures
            match r {
                Some(v) => exists|i: int|
                    0 <= i < self.keys().len() && self.keys()[i] == k@ && *v == self.values()[i],
                None => !self.has(k@),
            },
    {
        match self.position(k) {
            Some(i) => {
                assert(self.values()[i as int] == self.entries@[i as int].1);
                Some(&self.entries[i].1)
            },
            None => None,
        }
    }

    /// The name and value at position `i`.
    pub fn entry(&self, i: usize) -> (r: (&String, &V))
        requires
            i < self.keys().len(),
        ensures
            r.0@ == self.keys()[i as int],
            *r.1 == self.values()[i as int],
    {
        let e = &self.entries[i];
        (&e.0, &e.1)
    }

    /// Sets the value named `k`: in place when the name is present, as a new
    /// last entry otherwise.
    pub fn insert(&mut self, k: String, v: V)
        requires
            old(self).wf(),
        ensures
            final(self).wf(),
            old(self).has(k@) ==> exists|i: int|
                0 <= i < old(self).keys().len() && old(self).keys()[i] == k@ && final(self).keys()
                    == old(self).keys() && final(self).values() == old(self).values().update(i, v),
            !old(self).has(k@) ==> final(self).keys() == old(self).keys().push(k@)
                && final(self).values() == old(self).values().push(v),
    {
        match self.position(k.as_str()) {
            Some(i) => {
                let ghost ks = self.keys();
                let ghost vs = self.values();
                self.entries.set(i, (k, v));
                assert(self.keys() =~= ks);
                assert(self.values() =~= vs.update(i as int, v));
            },
            None => {
                let ghost ks = self.keys();
                let ghost vs = self.values();
                self.entries.push((k, v));
                assert(self.keys() =~= ks.push(k@));
                assert(self.values() =~= vs.push(v));
            },
        }
    }

    /// Takes out the entry at position `i`, keeping the others in order.
    pub fn take_at(&mut self, i: usize) -> (r: (String, V))
        requires
            old(self).wf(),
            i < old(self).keys().len(),
        ensures
            final(self).wf(),
            r.0@ == old(self).keys()[i as int],
            r.1 == old(self).values()[i as int],
            final(self).keys() == old(self).keys().remove(i as int),
            final(self).values() == old(self).values().remove(i as int),
            !final(self).has(r.0@),
    {
        let ghost ks = self.keys();
        let ghost vs = self.values();
        let e = self.entries.remove(i);
        assert(self.keys() =~= ks.remove(i as int));
        assert(self.values() =~= vs.remove(i as int));
        assert(!self.has(ks[i as int])) by {
            if self.keys().contains(ks[i as int]) {
                let j = choose|j: int| 0 <= j < self.keys().len() && self.keys()[j] == ks[i as int];
                if j < i {
                    assert(ks[j] == ks[i as int]);
                } else {
                    assert(ks[j + 1] == ks[i as int]);
                }
            }
        }
        e
    }

    /// Puts an entry named `k`, which is absent, at position `i`.
    pub fn insert_at(&mut self, i: usize, k: String, v: V)
        requires
            old(self).wf(),
            !old(self).has(k@),
            i <= old(self).keys().len(),
        ensures
            final(self).wf(),
            final(self).keys() == old(self).keys().insert(i as int, k@),
            final(self).values() == old(self).values().insert(i as int, v),
    {
        let ghost ks = self.keys();
        let ghost vs = self.values();
        let ghost kv = k@;
        self.entries.insert(i, (k, v));
        assert(self.keys() =~= ks.insert(i as int, kv));
        assert(self.values() =~= vs.insert(i as int, v));
        assert(distinct_keys(self.keys())) by {
            assert forall|a: int, b: int|
                0 <= a < self.keys().len() && 0 <= b < self.keys().len() && a != b implies self.keys()[a]
                != self.keys()[b] by {
                if a == i {
                    if b < i {
                        assert(ks[b] == self.keys()[b]);
                    } else {
                        assert(ks[b - 1] == self.keys()[b]);
                    }
                } else if b == i {
                    if a < i {
                        assert(ks[a] == self.keys()[a]);
                    } else {
                        assert(ks[a - 1] == self.keys()[a]);
                    }
                } else {
                    let a0 = if a < i { a } else { a - 1 };
                    let b0 = if b < i { b } else { b - 1 };
                    assert(ks[a0] == self.keys()[a]);
                    assert(ks[b0] == self.keys()[b]);
                }
            }
        }
    }

    /// Removes the entry named `k`, keeping the others in order, and gives its value.
    pub fn remove(&mut self, k: &str) -> (r: Option<V>)
        requires
            old(self).wf(),
        ensures
            final(self).wf(),
            !final(self).has(k@),
            match r {
                Some(v) => exists|i: int|
                    0 <= i < old(self).keys().len() && old(self).keys()[i] == k@ && v
                        == old(self).values()[i] && final(self).keys() == old(self).keys().remove(i)
                        && final(self).values() == old(self).values().remove(i),
                None => !old(self).has(k@) && final(self).keys() == old(self).keys()
                    && final(self).values() == old(self).values(),
            },
    {
        match self.position(k) {
            Some(i) => {
                let ghost ks = self.keys();
                let ghost vs = self.values();
                let e = self.entries.remove(i);
                assert(self.keys() =~= ks.remove(i as int));
                assert(self.values() =~= vs.remove(i as int));
                assert(!self.has(k@)) by {
                    if self.keys().contains(k@) {
                        let j = choose|j: int| 0 <= j < self.keys().len() && self.keys()[j] == k@;
                        if j < i {
                            assert(ks[j] == k@);
                        } else {
                            assert(ks[j + 1] == k@);
                        }
                    }
                }
                Some(e.1)
            },
            None => None,
        }
    }
}

// ── Prefix cache ────────────────────────────────────────────────────────────

/// A cached KV snapshot of a message prefix: its tokens, when it was last hit
/// (Unix seconds), and how often.
pub struct PrefixEntry<S> {
    pub snapshot: S,
    pub token_count: usize,
    pub last_hit: u64,
    pub hits: u64,
}

/// What the statistics report of one prefix entry.
pub struct PrefixStat {
    pub token_count: usize,
    pub hits: u64,
    pub last_hit: u64,
}

/// Snapshots keyed by prefix hash, each hash at most once.
pub struct PrefixCache<S> {
    entries: Vec<(u64, PrefixEntry<S>)>,
}

/// The entry at `i` was hit no later than any other.
pub open spec fn least_recent<S>(es: Seq<PrefixEntry<S>>, i: int) -> bool {
    0 <= i < es.len() && forall|j: int| 0 <= j < es.len() ==> es[i].last_hit <= #[trigger] es[j].last_hit
}

impl<S> PrefixCache<S> {
    /// The hashes, in the order their entries were stored.
    pub closed spec fn keys(&self) -> Seq<u64> {
        self.entries@.map_values(|e: (u64, PrefixEntry<S>)| e.0)
    }

    /// The entries, in the same order.
    pub closed spec fn values(&self) -> Seq<PrefixEntry<S>> {
        self.entries@.map_values(|e: (u64, PrefixEntry<S>)| e.1)
    }

    /// Each hash occurs once.
    pub closed spec fn wf(&self) -> bool {
        distinct_keys(self.keys())
    }

    /// An empty cache.
    pub fn new() -> (r: Self)
        ensures
            r.wf(),
            r.keys().len() == 0,
    {
        let r = PrefixCache { entries: Vec::new() };
        assert(r.keys() =~= Seq::<u64>::empty());
        r
    }

    /// There are as many entries as hashes.
    pub proof fn lemma_lengths(&self)
        ensures
            self.keys().len() == self.values().len(),
    {
    }

    /// The number of entries.
    pub fn len(&self) -> (r: usize)
        ensures
            r == self.keys().len(),
    {
        self.entries.len()
    }

    /// The position of the entry for `hash`.
    pub fn position(&self, hash: u64) -> (r: Option<usize>)
        ensures
            match r {
                Some(i) => i < self.keys().len() && self.keys()[i as int] == hash,
                None => !self.keys().contains(hash),
            },
    {
        let mut i: usize = 0;
        while i < self.entries.len()
            invariant
                0 <= i <= self.entries@.len(),
                forall|j: int| 0 <= j < i ==> self.keys()[j] != hash,
            decreases self.entries@.len() - i,
        {
            if self.entries[i].0 == hash {
                return Some(i);
            }
            i = i + 1;
        }
        proof {
            if self.keys().contains(hash) {
                let j = choose|j: int| 0 <= j < self.keys().len() && self.keys()[j] == hash;
                assert(self.keys()[j] == hash);
            }
        }
        None
    }

    /// Whether a snapshot is stored for `hash`.
    pub fn contains(&self, hash: u64) -> (r: bool)
        ensures
            r == self.keys().contains(hash),
    {
        self.position(hash).is_some()
    }

    /// A cache hit at time `now`: the entry for `hash` records the hit and its
    /// token count comes back; nothing changes on a miss.
    pub fn hit(&mut self, hash: u64, now: u64) -> (r: Option<usize>)
        requires
            old(self).wf(),
        ensures
            final(self).wf(),
            final(self).keys() == old(self).keys(),
            match r {
                Some(t) => exists|i: int|
                    0 <= i < old(self).keys().len() && old(self).keys()[i] == hash && t
                        == old(self).values()[i].token_count && final(self).values()
                        == old(self).values().update(
                        i,
                        PrefixEntry {
                            last_hit: now,
                            hits: (if old(self).values()[i].hits == u64::MAX {
                                0
                            } else {
                                (old(self).values()[i].hits + 1) as u64
                            }),
                            ..old(self).values()[i]
                        },
                    ),
                None => !old(self).keys().contains(hash) && final(self).values() == old(self).values(),
            },
    {
        match self.position(hash) {
            Some(i) => {
                let ghost ks = self.keys();
                let ghost vs = self.values();
                let (h, e) = self.entries.remove(i);
                let t = e.token_count;
                let hits = e.hits.wrapping_add(1);
                let updated = PrefixEntry {
                    snapshot: e.snapshot,
                    token_count: e.token_count,
                    last_hit: now,
                    hits,
                };
                self.entries.insert(i, (h, updated));
                assert(self.keys() =~= ks);
                assert(self.values() =~= vs.update(
                    i as int,
                    PrefixEntry {
                        last_hit: now,
                        hits: (if vs[i as int].hits == u64::MAX {
                            0
                        } else {
                            (vs[i as int].hits + 1) as u64
                        }),
                        ..vs[i as int]
                    },
                ));
                Some(t)
            },
            None => None,
        }
    }

    /// The snapshot stored for `hash`.
    pub fn snapshot(&self, hash: u64) -> (r: Option<&S>)
        ensures
            match r {
                Some(s) => exists|i: int|
                    0 <= i < self.keys().len() && self.keys()[i] == hash && *s
                        == self.values()[i].snapshot,
                None => !self.keys().contains(hash),
            },
    {
        match self.position(hash) {
            Some(i) => {
                assert(self.values()[i as int] == self.entries@[i as int].1);
                Some(&self.entries[i].1.snapshot)
            },
            None => None,
        }
    }

    /// The position of an entry hit no later than any other.
    fn least_recent_position(&self) -> (r: usize)
        requires
            self.keys().len() > 0,
        ensures
            least_recent(self.values(), r as int),
    {
        let mut best: usize = 0;
        let mut i: usize = 1;
        while i < self.entries.len()
            invariant
                1 <= i <= self.entries@.len(),
                best < i,
                forall|j: int|
                    0 <= j < i ==> self.values()[best as int].last_hit <= #[trigger] self.values()[j].last_hit,
            decreases self.entries@.len() - i,
        {
            if self.entries[i].1.last_hit < self.entries[best].1.last_hit {
                best = i;
            }
            i = i + 1;
        }
        best
    }

    /// Stores a snapshot for `hash` at time `now`, with no hits yet. When the
    /// cache holds `max_entries` or more and `hash` is new, the entry hit
    /// least recently is evicted first.
    pub fn store(&mut self, hash: u64, snapshot: S, token_count: usize, now: u64, max_entries: usize)
        requires
            old(self).wf(),
        ensures
            final(self).wf(),
            final(self).keys().contains(hash),
            old(self).keys().contains(hash) ==> exists|i: int|
                0 <= i < old(self).keys().len() && old(self).keys()[i] == hash && final(self).keys()
                    == old(self).keys() && final(self).values() == old(self).values().update(
                    i,
                    (PrefixEntry { snapshot, token_count, last_hit: now, hits: 0 }),
                ),
            !old(self).keys().contains(hash) && (old(self).keys().len() < max_entries
                || old(self).keys().len() == 0) ==> final(self).keys() == old(self).keys().push(hash)
                && final(self).values() == old(self).values().push(
                (PrefixEntry { snapshot, token_count, last_hit: now, hits: 0 }),
            ),
            !old(self).keys().contains(hash) && old(self).keys().len() >= max_entries
                && old(self).keys().len() > 0 ==> exists|e: int|
                least_recent(old(self).values(), e) && final(self).keys() == old(self).keys().remove(
                    e,
                ).push(hash) && final(self).values() == old(self).values().remove(e).push(
                    (PrefixEntry { snapshot, token_count, last_hit: now, hits: 0 }),
                ),
            1 <= max_entries && old(self).keys().len() <= max_entries ==> final(self).keys().len()
                <= max_entries,
    {
        let entry = PrefixEntry { snapshot, token_count, last_hit: now, hits: 0 };
        match self.position(hash) {
            Some(i) => {
                let ghost ks = self.keys();
                let ghost vs = self.values();
                let ghost ev = entry;
                self.entries.set(i, (hash, entry));
                assert(self.keys() =~= ks);
                assert(self.values() =~= vs.update(i as int, ev));
            },
            None => {
                let ghost ks0 = self.keys();
                let ghost ev = entry;
                if self.entries.len() >= max_entries && self.entries.len() > 0 {
                    let e = self.least_recent_position();
                    let ghost ks = self.keys();
                    let ghost vs = self.values();
                    self.entries.remove(e);
                    assert(self.keys() =~= ks.remove(e as int));
                    assert(self.values() =~= vs.remove(e as int));
                    assert(!self.keys().contains(hash)) by {
                        if self.keys().contains(hash) {
                            let j = choose|j: int| 0 <= j < self.keys().len() && self.keys()[j] == hash;
                            if j < e {
                                assert(ks[j] == hash);
                            } else {
                                assert(ks[j + 1] == hash);
                            }
                        }
                    }
                }
                let ghost ks = self.keys();
                let ghost vs = self.values();
                self.entries.push((hash, entry));
                assert(self.keys() =~= ks.push(hash));
                assert(self.values() =~= vs.push(ev));
                let n = self.entries.len() - 1;
                assert(self.keys()[n as int] == hash);
                assert(self.values()[n as int] == self.entries@[n as int].1);
                proof {
                    if ks0.len() == 0 {
                        assert(self.keys() =~= seq![hash]);
                    }
                }
            },
        }
    }

    /// Removes every entry and gives how many there were.
    pub fn clear(&mut self) -> (r: usize)
        ensures
            final(self).wf(),
            final(self).keys().len() == 0,
            r == old(self).keys().len(),
    {
        let n = self.entries.len();
        self.entries.clear();
        assert(self.keys() =~= Seq::<u64>::empty());
        n
    }

    /// The token count, hits and last hit of each entry, in order.
    pub fn stats(&self) -> (r: Vec<PrefixStat>)
        ensures
            r@.len() == self.values().len(),
            forall|i: int|
                0 <= i < r@.len() ==> (#[trigger] r@[i]).token_count == self.values()[i].token_count
                    && r@[i].hits == self.values()[i].hits && r@[i].last_hit
                    == self.values()[i].last_hit,
    {
        let mut r: Vec<PrefixStat> = Vec::new();
        let mut i: usize = 0;
        while i < self.entries.len()
            invariant
                0 <= i <= self.entries@.len(),
                r@.len() == i,
                forall|j: int|
                    0 <= j < i ==> (#[trigger] r@[j]).token_count == self.values()[j].token_count
                        && r@[j].hits == self.values()[j].hits && r@[j].last_hit
                        == self.values()[j].last_hit,
            decreases self.entries@.len() - i,
        {
            let e = &self.entries[i].1;
            r.push(PrefixStat { token_count: e.token_count, hits: e.hits, last_hit: e.last_hit });
            i = i + 1;
        }
        r
    }
}

} // verus!
