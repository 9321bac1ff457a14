//! The storage capability and the in-memory engine.  A storage engine
//! is modelled as a mapping from storage key to stored record; every
//! operation's contract is stated over that mapping.  The in-memory
//! engine keeps key/record pairs in a vector whose keys are unique.

use crate::errors::ErrorV;
use crate::errors::MetaRestError;
use crate::filter::Filter;
use crate::filter::FilterV;
use crate::filter::all_match;
use crate::filter::filters_model;
use crate::filter::matches_all;
use crate::record::Resource;
use crate::record::ResourceV;
use crate::text::str_eq;
use vstd::prelude::*;
use vstd::string::StringExecFns;

verus! {

/// The message reported when an id is not stored.
pub open spec fn not_found_message(id: Seq<char>) -> Seq<char> {
    "Resource with id '"@ + id + "' not found"@
}

/// The message reported when a create collides with a stored id.
pub open spec fn conflict_message(id: Seq<char>) -> Seq<char> {
    "Resource with id '"@ + id + "' already exists"@
}

fn not_found_error(id: &str) -> (r: MetaRestError)
    ensures
        r@ == ErrorV::NotFound(not_found_message(id@)),
{
    let mut m = String::from_str("Resource with id '");
    m.append(id);
    m.append("' not found");
    proof {
        assert(m@ =~= not_found_message(id@));
    }
    MetaRestError::NotFound(m)
}

fn conflict_error(id: &str) -> (r: MetaRestError)
    ensures
        r@ == ErrorV::InvalidOperation(conflict_message(id@)),
{
    let mut m = String::from_str("Resource with id '");
    m.append(id);
    m.append("' already exists");
    proof {
        assert(m@ =~= conflict_message(id@));
    }
    MetaRestError::InvalidOperation(m)
}

/// The record `rv` is one of the mapping's values.
pub open spec fn stored_value(m: Map<Seq<char>, ResourceV>, rv: ResourceV) -> bool {
    exists|k: Seq<char>| #[trigger] m.contains_key(k) && m[k] == rv
}

/// The record `rv` appears somewhere in `out`.
pub open spec fn appears(out: Seq<Resource>, rv: ResourceV) -> bool {
    exists|i: int| 0 <= i < out.len() && (#[trigger] out[i])@ == rv
}

/// `out` lists the mapping's records exactly: as many entries as stored
/// records, each entry stored, each stored record listed.
pub open spec fn listing_of(out: Seq<Resource>, m: Map<Seq<char>, ResourceV>) -> bool {
    &&& out.len() == m.dom().len()
    &&& forall|i: int| 0 <= i < out.len() ==> stored_value(m, (#[trigger] out[i])@)
    &&& forall|k: Seq<char>| #[trigger] m.contains_key(k) ==> appears(out, m[k])
}

/// `out` holds exactly the stored records that every predicate matches.
pub open spec fn filtering_of(
    out: Seq<Resource>,
    m: Map<Seq<char>, ResourceV>,
    filters: Seq<FilterV>,
) -> bool {
    &&& forall|i: int|
        0 <= i < out.len() ==> stored_value(m, (#[trigger] out[i])@) && all_match(
            out[i]@.data,
            filters,
        )
    &&& forall|k: Seq<char>|
        #[trigger] m.contains_key(k) && all_match(m[k].data, filters) ==> appears(out, m[k])
}

/// The storage capability: owns record persistence behind a mapping
/// from key to record.  A create keys the record by its own id; an
/// update stores the given record under the given key, whether or not
/// the two agree.
pub trait Storage: Send + Sync {
    /// The stored records, keyed by storage key.
    spec fn contents(&self) -> Map<Seq<char>, ResourceV>;

    /// Stores a record under its id; an already-stored id is a
    /// conflict and leaves the store unchanged.
    fn create(&mut self, resource: Resource) -> (r: Result<Resource, MetaRestError>)
        ensures
            old(self).contents().contains_key(resource@.id) ==> {
                &&& final(self).contents() == old(self).contents()
                &&& r matches Err(e) && e@ == ErrorV::InvalidOperation(
                    conflict_message(resource@.id),
                )
            },
            !old(self).contents().contains_key(resource@.id) ==> {
                &&& final(self).contents() == old(self).contents().insert(resource@.id, resource@)
                &&& r matches Ok(out) && out@ == resource@
            },
    ;

    /// Returns a copy of the record stored under `id`.
    fn get(&self, id: &str) -> (r: Result<Resource, MetaRestError>)
        ensures
            self.contents().contains_key(id@) ==> (r matches Ok(out) && out@
                == self.contents()[id@]),
            !self.contents().contains_key(id@) ==> (r matches Err(e) && e@ == ErrorV::NotFound(
                not_found_message(id@),
            )),
    ;

    /// Returns a copy of every stored record, in an order of the
    /// engine's choosing.
    fn list(&self) -> (r: Result<Vec<Resource>, MetaRestError>)
        ensures
            r matches Ok(out) && listing_of(out@, self.contents()),
    ;

    /// Replaces the record stored under `id` wholesale; nothing of the
    /// old record survives.
    fn update(&mut self, id: &str, resource: Resource) -> (r: Result<Resource, MetaRestError>)
        ensures
            old(self).contents().contains_key(id@) ==> {
                &&& final(self).contents() == old(self).contents().insert(id@, resource@)
                &&& r matches Ok(out) && out@ == resource@
            },
            !old(self).contents().contains_key(id@) ==> {
                &&& final(self).contents() == old(self).contents()
                &&& r matches Err(e) && e@ == ErrorV::NotFound(not_found_message(id@))
            },
    ;

    /// Removes the record stored under `id`.
    fn delete(&mut self, id: &str) -> (r: Result<(), MetaRestError>)
        ensures
            old(self).contents().contains_key(id@) ==> {
                &&& final(self).contents() == old(self).contents().remove(id@)
                &&& r is Ok
            },
            !old(self).contents().contains_key(id@) ==> {
                &&& final(self).contents() == old(self).contents()
                &&& r matches Err(e) && e@ == ErrorV::NotFound(not_found_message(id@))
            },
    ;

    /// Returns a copy of every stored record that all predicates
    /// match; a failed predicate excludes a record, never errors.
    fn filter(&self, filters: &[Filter]) -> (r: Result<Vec<Resource>, MetaRestError>)
        ensures
            r matches Ok(out) && filtering_of(out@, self.contents(), filters_model(filters@)),
    ;
}

/// The models of the engine's key/record pairs.
pub open spec fn kv_model(s: Seq<(String, Resource)>) -> Seq<(Seq<char>, ResourceV)> {
    Seq::new(
        s.len(),
        |i: int|
            if 0 <= i < s.len() {
                (s[i].0@, s[i].1@)
            } else {
                (Seq::empty(), ResourceV { id: Seq::empty(), data: Map::empty() })
            },
    )
}

broadcast proof fn lemma_kv_model_len(s: Seq<(String, Resource)>)
    ensures
        (#[trigger] kv_model(s)).len() == s.len(),
{
}

broadcast proof fn lemma_kv_model_index(s: Seq<(String, Resource)>, i: int)
    requires
        0 <= i < s.len(),
    ensures
        #[trigger] kv_model(s)[i] == (s[i].0@, s[i].1@),
{
}

broadcast group group_store_models {
    lemma_kv_model_len,
    lemma_kv_model_index,
}

/// The mapping a list of key/record pairs denotes; with unique keys
/// the order of the pairs is immaterial.
pub open spec fn store_map(t: Seq<(Seq<char>, ResourceV)>) -> Map<Seq<char>, ResourceV>
    decreases t.len(),
{
    if t.len() == 0 {
        Map::empty()
    } else {
        store_map(t.drop_last()).insert(t.last().0, t.last().1)
    }
}

/// No two pairs share a key.
pub open spec fn unique_keys(t: Seq<(Seq<char>, ResourceV)>) -> bool {
    forall|i: int, j: int| 0 <= i < j < t.len() ==> (#[trigger] t[i]).0 != (#[trigger] t[j]).0
}

proof fn lemma_store_contains(t: Seq<(Seq<char>, ResourceV)>, k: Seq<char>)
    ensures
        store_map(t).contains_key(k) <==> exists|i: int|
            0 <= i < t.len() && (#[trigger] t[i]).0 == k,
    decreases t.len(),
{
    if t.len() > 0 {
        lemma_store_contains(t.drop_last(), k);
        let last = t.len() - 1;
        if t[last].0 == k {
            assert(store_map(t).contains_key(k));
        } else {
            if store_map(t).contains_key(k) {
                let i = choose|i: int| 0 <= i < t.drop_last().len() && t.drop_last()[i].0 == k;
                assert(t[i].0 == k);
            }
            if exists|i: int| 0 <= i < t.len() && (#[trigger] t[i]).0 == k {
                let i = choose|i: int| 0 <= i < t.len() && (#[trigger] t[i]).0 == k;
                assert(i < last);
                assert(t.drop_last()[i].0 == k);
            }
        }
    }
}

proof fn lemma_store_index(t: Seq<(Seq<char>, ResourceV)>, i: int)
    requires
        unique_keys(t),
        0 <= i < t.len(),
    ensures
        store_map(t).contains_key(t[i].0),
        store_map(t)[t[i].0] == t[i].1,
    decreases t.len(),
{
    let last = t.len() - 1;
    if i < last {
        assert(unique_keys(t.drop_last()));
        lemma_store_index(t.drop_last(), i);
        assert(t[i].0 != t[last].0);
    }
}

proof fn lemma_store_len(t: Seq<(Seq<char>, ResourceV)>)
    requires
        unique_keys(t),
    ensures
        store_map(t).dom().finite(),
        store_map(t).dom().len() == t.len(),
    decreases t.len(),
{
    if t.len() > 0 {
        let last = t.len() - 1;
        assert(unique_keys(t.drop_last()));
        lemma_store_len(t.drop_last());
        lemma_store_contains(t.drop_last(), t[last].0);
        assert(forall|i: int| 0 <= i < t.drop_last().len() ==> (#[trigger] t.drop_last()[i]).0
            != t[last].0);
    }
}

proof fn lemma_store_remove(t: Seq<(Seq<char>, ResourceV)>, i: int)
    requires
        unique_keys(t),
        0 <= i < t.len(),
    ensures
        unique_keys(t.remove(i)),
        store_map(t.remove(i)) == store_map(t).remove(t[i].0),
    decreases t.len(),
{
    let last = t.len() - 1;
    assert(unique_keys(t.drop_last()));
    if i == last {
        assert(t.remove(i) =~= t.drop_last());
        lemma_store_contains(t.drop_last(), t[last].0);
        assert(forall|j: int| 0 <= j < t.drop_last().len() ==> (#[trigger] t.drop_last()[j]).0
            != t[last].0);
        assert(!store_map(t.drop_last()).contains_key(t[last].0));
        assert(store_map(t.drop_last()).insert(t[last].0, t[last].1).remove(t[last].0)
            =~= store_map(t.drop_last()));
    } else {
        lemma_store_remove(t.drop_last(), i);
        assert(t.remove(i).drop_last() =~= t.drop_last().remove(i));
        assert(t.remove(i).last() == t.last());
        assert(t[i].0 != t[last].0);
        assert(store_map(t.remove(i)) == store_map(t.drop_last().remove(i)).insert(
            t[last].0,
            t[last].1,
        ));
        assert(store_map(t.drop_last()).remove(t[i].0).insert(t[last].0, t[last].1)
            =~= store_map(t.drop_last()).insert(t[last].0, t[last].1).remove(t[i].0));
    }
}

/// The in-memory storage engine: key/record pairs with unique keys.
pub struct InMemoryStorage {
    resources: Vec<(String, Resource)>,
}

impl InMemoryStorage {
    #[verifier::type_invariant]
    spec fn wf(&self) -> bool {
        unique_keys(kv_model(self.resources@))
    }

    /// An empty store.
    pub fn new() -> (r: Self)
        ensures
            r.contents() == Map::<Seq<char>, ResourceV>::empty(),
    {
        let r = InMemoryStorage { resources: Vec::new() };
        proof {
            broadcast use group_store_models;

            assert(kv_model(r.resources@).len() == 0);
        }
        r
    }

    fn find_index(&self, id: &str) -> (r: Option<usize>)
        ensures
            match r {
                Some(i) => i < self.resources@.len() && kv_model(self.resources@)[i as int].0
                    == id@,
                None => forall|i: int|
                    0 <= i < self.resources@.len() ==> (#[trigger] kv_model(self.resources@)[i]).0
                        != id@,
            },
    {
        broadcast use group_store_models;

        let len = self.resources.len();
        let mut i: usize = 0;
        #[verifier::loop_isolation(false)]
        while i < len
            invariant
                0 <= i <= len,
                forall|j: int| 0 <= j < i ==> (#[trigger] kv_model(self.resources@)[j]).0 != id@,
            decreases len - i,
        {
            if str_eq(self.resources[i].0.as_str(), id) {
                return Some(i);
            }
            i += 1;
        }
        None
    }
}

impl Default for InMemoryStorage {
    /// An empty store.
    fn default() -> (r: Self)
        ensures
            r.contents() == Map::<Seq<char>, ResourceV>::empty(),
    {
        InMemoryStorage::new()
    }
}

impl Storage for InMemoryStorage {
    closed spec fn contents(&self) -> Map<Seq<char>, ResourceV> {
        store_map(kv_model(self.resources@))
    }

    fn create(&mut self, resource: Resource) -> (r: Result<Resource, MetaRestError>) {
        proof {
            use_type_invariant(&*self);
            broadcast use group_store_models;
        }
        let ghost t = kv_model(self.resources@);
        if self.find_index(resource.id.as_str()).is_some() {
            proof {
                lemma_store_contains(t, resource.id@);
            }
            return Err(conflict_error(resource.id.as_str()));
        }
        proof {
            lemma_store_contains(t, resource.id@);
        }
        let key = resource.id.clone();
        let copy = resource.clone();
        let mut rs: Vec<(String, Resource)> = Vec::new();
        core::mem::swap(&mut rs, &mut self.resources);
        rs.push((key, copy));
        proof {
            broadcast use group_store_models;

            let t2 = kv_model(rs@);
            assert(t2.drop_last() =~= t);
            assert(t2.last() == (resource.id@, resource@));
            assert(t2.len() == t.len() + 1);
            assert forall|a: int, b: int| 0 <= a < b < t2.len() implies (#[trigger] t2[a]).0 != (
            #[trigger] t2[b]).0 by {
                assert(t2[a] == t2.drop_last()[a]);
                if b < t2.len() - 1 {
                    assert(t2[b] == t2.drop_last()[b]);
                } else {
                    assert(t[a].0 != resource.id@);
                }
            }
            assert(unique_keys(t2));
        }
        self.resources = rs;
        Ok(resource)
    }

    fn get(&self, id: &str) -> (r: Result<Resource, MetaRestError>) {
        proof {
            use_type_invariant(&*self);
        }
        let ghost t = kv_model(self.resources@);
        match self.find_index(id) {
            Some(i) => {
                proof {
                    broadcast use group_store_models;

                    lemma_store_index(t, i as int);
                }
                Ok(self.resources[i].1.clone())
            },
            None => {
                proof {
                    lemma_store_contains(t, id@);
                }
                Err(not_found_error(id))
            },
        }
    }

    #[verifier::loop_isolation(false)]
    fn list(&self) -> (r: Result<Vec<Resource>, MetaRestError>) {
        proof {
            use_type_invariant(&*self);
            broadcast use group_store_models;
        }
        let ghost t = kv_model(self.resources@);
        let ghost m = store_map(t);
        let mut out: Vec<Resource> = Vec::new();
        let len = self.resources.len();
        let mut i: usize = 0;
        while i < len
            invariant
                0 <= i <= len,
                out@.len() == i,
                forall|j: int| 0 <= j < i ==> (#[trigger] out@[j])@ == t[j].1,
            decreases len - i,
        {
            out.push(self.resources[i].1.clone());
            i += 1;
        }
        proof {
            lemma_store_len(t);
            assert forall|j: int| 0 <= j < out@.len() implies stored_value(
                m,
                (#[trigger] out@[j])@,
            ) by {
                lemma_store_index(t, j);
                assert(m.contains_key(t[j].0) && m[t[j].0] == out@[j]@);
            }
            assert forall|k: Seq<char>| #[trigger] m.contains_key(k) implies appears(
                out@,
                m[k],
            ) by {
                lemma_store_contains(t, k);
                let j = choose|j: int| 0 <= j < t.len() && (#[trigger] t[j]).0 == k;
                lemma_store_index(t, j);
                assert(out@[j]@ == m[k]);
            }
        }
        Ok(out)
    }

    fn update(&mut self, id: &str, resource: Resource) -> (r: Result<Resource, MetaRestError>) {
        proof {
            use_type_invariant(&*self);
            broadcast use group_store_models;
        }
        let ghost t = kv_model(self.resources@);
        match self.find_index(id) {
            None => {
                proof {
                    lemma_store_contains(t, id@);
                }
                Err(not_found_error(id))
            },
            Some(i) => {
                proof {
                    lemma_store_contains(t, id@);
                    lemma_store_remove(t, i as int);
                }
                let key = String::from_str(id);
                let copy = resource.clone();
                let mut rs: Vec<(String, Resource)> = Vec::new();
                core::mem::swap(&mut rs, &mut self.resources);
                rs.remove(i);
                rs.push((key, copy));
                proof {
                    broadcast use group_store_models;

                    let t1 = t.remove(i as int);
                    let t2 = kv_model(rs@);
                    assert(t2.drop_last() =~= t1);
                    assert(t2.last() == (id@, resource@));
                    assert(forall|j: int|
                        0 <= j < t.len() && j != i ==> (#[trigger] t[j]).0 != id@);
                    assert(forall|j: int| 0 <= j < t1.len() ==> (#[trigger] t1[j]).0 != id@);
                    assert(t2.len() == t1.len() + 1);
                    assert forall|a: int, b: int| 0 <= a < b < t2.len() implies (#[trigger] t2[a]).0
                        != (#[trigger] t2[b]).0 by {
                        assert(t2[a] == t2.drop_last()[a]);
                        if b < t2.len() - 1 {
                            assert(t2[b] == t2.drop_last()[b]);
                        } else {
                            assert(t1[a].0 != id@);
                        }
                    }
                    assert(unique_keys(t2));
                    assert(store_map(t2) == store_map(t1).insert(id@, resource@));
                    assert(store_map(t).remove(id@).insert(id@, resource@) =~= store_map(t).insert(
                        id@,
                        resource@,
                    ));
                }
                self.resources = rs;
                Ok(resource)
            },
        }
    }

    fn delete(&mut self, id: &str) -> (r: Result<(), MetaRestError>) {
        proof {
            use_type_invariant(&*self);
            broadcast use group_store_models;
        }
        let ghost t = kv_model(self.resources@);
        match self.find_index(id) {
            None => {
                proof {
                    lemma_store_contains(t, id@);
                }
                Err(not_found_error(id))
            },
            Some(i) => {
                proof {
                    lemma_store_contains(t, id@);
                    lemma_store_remove(t, i as int);
                }
                let mut rs: Vec<(String, Resource)> = Vec::new();
                core::mem::swap(&mut rs, &mut self.resources);
                rs.remove(i);
                proof {
                    broadcast use group_store_models;

                    assert(kv_model(rs@) =~= t.remove(i as int));
                }
                self.resources = rs;
                Ok(())
            },
        }
    }

    #[verifier::loop_isolation(false)]
    fn filter(&self, filters: &[Filter]) -> (r: Result<Vec<Resource>, MetaRestError>) {
        proof {
            use_type_invariant(&*self);
            broadcast use group_store_models;
        }
        let ghost t = kv_model(self.resources@);
        let ghost m = store_map(t);
        let ghost fs = filters_model(filters@);
        let mut out: Vec<Resource> = Vec::new();
        let len = self.resources.len();
        let mut i: usize = 0;
        while i < len
            invariant
                0 <= i <= len,
                forall|j: int|
                    0 <= j < out@.len() ==> stored_value(m, (#[trigger] out@[j])@) && all_match(
                        out@[j]@.data,
                        fs,
                    ),
                forall|j: int|
                    0 <= j < i && all_match((#[trigger] t[j]).1.data, fs) ==> appears(
                        out@,
                        t[j].1,
                    ),
            decreases len - i,
        {
            let ghost old_out = out@;
            if matches_all(&self.resources[i].1, filters) {
                out.push(self.resources[i].1.clone());
                proof {
                    lemma_store_index(t, i as int);
                    assert(out@[out@.len() - 1]@ == t[i as int].1);
                    assert(m.contains_key(t[i as int].0) && m[t[i as int].0] == t[i as int].1);
                    assert forall|j: int|
                        0 <= j < i + 1 && all_match((#[trigger] t[j]).1.data, fs) implies appears(
                        out@,
                        t[j].1,
                    ) by {
                        if j < i {
                            let w = choose|w: int|
                                0 <= w < old_out.len() && (#[trigger] old_out[w])@ == t[j].1;
                            assert(out@[w]@ == t[j].1);
                        } else {
                            assert(out@[out@.len() - 1]@ == t[j].1);
                        }
                    }
                }
            } else {
                proof {
                    lemma_store_index(t, i as int);
                }
            }
            i += 1;
        }
        proof {
            assert forall|k: Seq<char>|
                #[trigger] m.contains_key(k) && all_match(m[k].data, fs) implies appears(
                out@,
                m[k],
            ) by {
                lemma_store_contains(t, k);
                let j = choose|j: int| 0 <= j < t.len() && (#[trigger] t[j]).0 == k;
                lemma_store_index(t, j);
            }
        }
        Ok(out)
    }
}

} // verus!
