//! Vector stores: named collections of embedded documents, kept by id. The
//! documents (text, embedding, metadata) are opaque here; the similarity
//! search over them is done by the application.

use vstd::prelude::*;
use crate::ids::{new_uuid_string, unix_time_secs, uuid_shape};
use crate::lm::registry::{put_into, taken_from, NamedList};

verus! {

/// A request to create a vector store.
pub struct CreateVectorStoreRequest {
    pub name: String,
}

/// A vector store as reported: id, name, creation time and document count.
pub struct VectorStoreObject {
    pub id: String,
    pub name: String,
    pub created_at: u64,
    pub document_count: usize,
}

/// A vector store and its documents.
pub struct VectorStoreEntry<D> {
    pub id: String,
    pub name: String,
    pub created_at: u64,
    pub documents: Vec<D>,
}

/// Why a store operation was refused.
pub enum StoreError {
    /// No store has this id.
    NotFound,
    /// The store has no documents to search.
    Empty,
}

/// The report of a store.
pub open spec fn store_report<D>(e: VectorStoreEntry<D>) -> (Seq<char>, Seq<char>, u64, nat) {
    (e.id@, e.name@, e.created_at, e.documents@.len())
}

/// The report of a store as returned.
pub open spec fn object_view(o: VectorStoreObject) -> (Seq<char>, Seq<char>, u64, nat) {
    (o.id@, o.name@, o.created_at, o.document_count as nat)
}

/// The report of a store.
fn report<D>(e: &VectorStoreEntry<D>) -> (r: VectorStoreObject)
    ensures
        object_view(r) == store_report(*e),
{
    VectorStoreObject {
        id: e.id.clone(),
        name: e.name.clone(),
        created_at: e.created_at,
        document_count: e.documents.len(),
    }
}

/// The vector stores by id.
pub struct VectorStores<D> {
    pub stores: NamedList<VectorStoreEntry<D>>,
}

impl<D> VectorStores<D> {
    /// The stores are sound.
    pub open spec fn wf(&self) -> bool {
        self.stores.wf()
    }

    /// No stores.
    pub fn new() -> (r: Self)
        ensures
            r.wf(),
            r.stores.keys().len() == 0,
    {
        VectorStores { stores: NamedList::new() }
    }

    /// Creates an empty store named `name`, under a fresh random id, at
    /// `created_at`.
    pub fn create_at(&mut self, name: String, created_at: u64) -> (r: VectorStoreObject)
        requires
            old(self).wf(),
        ensures
            final(self).wf(),
            uuid_shape(r.id@),
            r.name@ == name@,
            r.document_count == 0,
            final(self).stores.has(r.id@),
            exists|e: VectorStoreEntry<D>|
                #[trigger] put_into(old(self).stores, final(self).stores, r.id@, e) && store_report(e)
                    == object_view(r),
            r.created_at == created_at,
    {
        let id = new_uuid_string();
        let entry = VectorStoreEntry {
            id: id.clone(),
            name: name.clone(),
            created_at,
            documents: Vec::new(),
        };
        let obj = VectorStoreObject { id: id.clone(), name, created_at, document_count: 0 };
        let ghost key = id@;
        let ghost e = entry;
        self.stores.insert(id, entry);
        assert(put_into(old(self).stores, self.stores, key, e));
        proof {
            self.stores.lemma_lengths();
            old(self).stores.lemma_lengths();
            if old(self).stores.has(key) {
                let i = choose|i: int|
                    0 <= i < old(self).stores.keys().len() && old(self).stores.keys()[i] == key
                        && self.stores.keys() == old(self).stores.keys()
                        && self.stores.values() == old(self).stores.values().update(i, e);
                assert(self.stores.keys()[i] == key);
                assert(self.stores.values()[i] == e);
            } else {
                let n = self.stores.keys().len() - 1;
                assert(self.stores.keys()[n] == key);
                assert(self.stores.values()[n] == e);
            }
        }
        obj
    }

    /// Creates an empty store named `name`, under a fresh random id, now.
    pub fn create(&mut self, name: String) -> (r: VectorStoreObject)
        requires
            old(self).wf(),
        ensures
            final(self).wf(),
            uuid_shape(r.id@),
            r.name@ == name@,
            r.document_count == 0,
            final(self).stores.has(r.id@),
            exists|e: VectorStoreEntry<D>|
                #[trigger] put_into(old(self).stores, final(self).stores, r.id@, e) && store_report(e)
                    == object_view(r),
    {
        self.create_at(name, unix_time_secs())
    }

    /// The reports of all stores.
    pub fn list(&self) -> (r: Vec<VectorStoreObject>)
        ensures
            r@.len() == self.stores.keys().len(),
            forall|i: int|
                0 <= i < r@.len() ==> object_view(#[trigger] r@[i]) == store_report(
                    self.stores.values()[i],
                ),
    {
        proof {
            self.stores.lemma_lengths();
        }
        let mut out: Vec<VectorStoreObject> = Vec::new();
        let mut i: usize = 0;
        while i < self.stores.len()
            invariant
                0 <= i <= self.stores.keys().len(),
                self.stores.keys().len() == self.stores.values().len(),
                out@.len() == i,
                forall|j: int|
                    0 <= j < i ==> object_view(#[trigger] out@[j]) == store_report(
                        self.stores.values()[j],
                    ),
            decreases self.stores.keys().len() - i,
        {
            let (_, e) = self.stores.entry(i);
            out.push(report(e));
            i = i + 1;
        }
        out
    }

    /// The report of the store `id`.
    pub fn get(&self, id: &str) -> (r: Option<VectorStoreObject>)
        requires
            self.wf(),
        ensures
            match r {
                Some(o) => exists|i: int|
                    0 <= i < self.stores.keys().len() && self.stores.keys()[i] == id@ && object_view(
                        o,
                    ) == store_report(self.stores.values()[i]),
                None => !self.stores.has(id@),
            },
    {
        match self.stores.get(id) {
            Some(e) => Some(report(e)),
            None => None,
        }
    }

    /// Deletes the store `id`; whether there was one.
    pub fn delete(&mut self, id: &str) -> (r: bool)
        requires
            old(self).wf(),
        ensures
            final(self).wf(),
            r == old(self).stores.has(id@),
            !final(self).stores.has(id@),
            taken_from(old(self).stores, final(self).stores, id@),
    {
        self.stores.remove(id).is_some()
    }

    /// Whether a store `id` exists.
    pub fn contains(&self, id: &str) -> (r: bool)
        requires
            self.wf(),
        ensures
            r == self.stores.has(id@),
    {
        self.stores.contains(id)
    }

    /// Adds a document to the store `id`; whether the store exists.
    pub fn add_document(&mut self, id: &str, doc: D) -> (r: bool)
        requires
            old(self).wf(),
        ensures
            final(self).wf(),
            r == old(self).stores.has(id@),
            final(self).stores.keys() == old(self).stores.keys(),
            r ==> exists|i: int|
                0 <= i < old(self).stores.keys().len() && old(self).stores.keys()[i] == id@
                    && final(self).stores.values() == old(self).stores.values().update(
                    i,
                    final(self).stores.values()[i],
                ) && final(self).stores.values()[i].documents@ == old(
                    self,
                ).stores.values()[i].documents@.push(doc) && final(self).stores.values()[i].id
                    == old(self).stores.values()[i].id && final(self).stores.values()[i].name
                    == old(self).stores.values()[i].name && final(self).stores.values()[i].created_at
                    == old(self).stores.values()[i].created_at,
            !r ==> final(self).stores.values() == old(self).stores.values(),
    {
        match self.stores.position(id) {
            Some(i) => {
                proof {
                    old(self).stores.lemma_lengths();
                }
                let (k, mut e) = self.stores.take_at(i);
                let ghost e0 = e;
                e.documents.push(doc);
                let ghost e1 = e;
                self.stores.insert_at(i, k, e);
                proof {
                    let ks = old(self).stores.keys();
                    let vs = old(self).stores.values();
                    assert(self.stores.keys() =~= ks);
                    assert(self.stores.values() =~= vs.update(i as int, e1));
                    assert(e0 == vs[i as int]);
                    assert(self.stores.values()[i as int] == e1);
                    assert(e1.documents@ == e0.documents@.push(doc));
                }
                true
            },
            None => false,
        }
    }

    /// The documents of the store `id` for a search: refused when there is no
    /// such store or it has no documents.
    pub fn documents_for_search(&self, id: &str) -> (r: Result<&Vec<D>, StoreError>)
        requires
            self.wf(),
        ensures
            match r {
                Ok(docs) => exists|i: int|
                    0 <= i < self.stores.keys().len() && self.stores.keys()[i] == id@ && *docs
                        == self.stores.values()[i].documents && docs@.len() > 0,
                Err(StoreError::NotFound) => !self.stores.has(id@),
                Err(StoreError::Empty) => exists|i: int|
                    0 <= i < self.stores.keys().len() && self.stores.keys()[i] == id@
                        && self.stores.values()[i].documents@.len() == 0,
            },
    {
        match self.stores.get(id) {
            Some(e) => {
                if e.documents.len() == 0 {
                    Err(StoreError::Empty)
                } else {
                    Ok(&e.documents)
                }
            },
            None => Err(StoreError::NotFound),
        }
    }
}

/// The id of a new document: the one given, else a fresh random one.
pub fn document_id(id: Option<String>) -> (r: String)
    ensures
        match id {
            Some(s) => r@ == s@,
            None => uuid_shape(r@),
        },
{
    match id {
        Some(s) => s,
        None => new_uuid_string(),
    }
}

/// The number of search results when none is asked for.
pub fn search_top_k(top_k: Option<usize>) -> (r: usize)
    ensures
        r == match top_k {
            Some(k) => k,
            None => 5,
        },
{
    match top_k {
        Some(k) => k,
        None => 5,
    }
}

} // verus!
