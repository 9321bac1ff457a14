//! A resource instance: a caller-supplied id plus an open mapping from
//! field name to dynamically typed value.  The model of the data is a
//! `Map<Seq<char>, Val>`; when a name occurs more than once in the
//! entry list, the earliest entry is the one the mapping holds.

use crate::text::str_eq;
use crate::value::Val;
use crate::value::Value;
use crate::value::group_value_models;
use crate::value::obj_model;
use vstd::prelude::*;

verus! {

/// One record: an opaque id and its field data.
#[derive(Debug)]
pub struct Resource {
    pub id: String,
    pub data: Vec<(String, Value)>,
}

/// The model of a [`Resource`].
pub struct ResourceV {
    pub id: Seq<char>,
    pub data: Map<Seq<char>, Val>,
}

/// The mapping that a list of name/value entries denotes: the earliest
/// entry for a name wins.
pub open spec fn entries_map(s: Seq<(Seq<char>, Val)>) -> Map<Seq<char>, Val>
    decreases s.len(),
{
    if s.len() == 0 {
        Map::empty()
    } else {
        entries_map(s.drop_first()).insert(s[0].0, s[0].1)
    }
}

impl View for Resource {
    type V = ResourceV;

    open spec fn view(&self) -> ResourceV {
        ResourceV { id: self.id@, data: entries_map(obj_model(self.data@)) }
    }
}

impl Resource {
    /// Looks a field up by name; the earliest entry with that name is
    /// the one returned.
    #[verifier::loop_isolation(false)]
    pub fn get(&self, name: &str) -> (r: Option<&Value>)
        ensures
            match r {
                Some(v) => self@.data.contains_key(name@) && v@ == self@.data[name@],
                None => !self@.data.contains_key(name@),
            },
    {
        broadcast use group_value_models;

        let ghost entries = obj_model(self.data@);
        let ghost k = name@;
        let ghost full = entries_map(entries);
        let len = self.data.len();
        proof {
            assert(entries.subrange(0, len as int) =~= entries);
        }
        let mut i: usize = 0;
        while i < len
            invariant
                0 <= i <= len,
                len == self.data@.len(),
                full.contains_key(k) == entries_map(entries.subrange(i as int, len as int))
                    .contains_key(k),
                entries_map(entries.subrange(i as int, len as int)).contains_key(k) ==> full[k]
                    == entries_map(entries.subrange(i as int, len as int))[k],
            decreases len - i,
        {
            proof {
                let s1 = entries.subrange(i as int, len as int);
                assert(s1[0] == entries[i as int]);
                assert(s1.drop_first() =~= entries.subrange(i as int + 1, len as int));
            }
            if str_eq(self.data[i].0.as_str(), name) {
                return Some(&self.data[i].1);
            }
            i += 1;
        }
        proof {
            assert(entries.subrange(len as int, len as int) =~= Seq::empty());
        }
        None
    }

    /// Binds `name` to `value`, shadowing any earlier binding.
    pub fn set(&mut self, name: String, value: Value)
        ensures
            final(self)@.id == old(self)@.id,
            final(self)@.data == old(self)@.data.insert(name@, value@),
    {
        proof {
            broadcast use group_value_models;
        }
        let ghost old_entries = obj_model(self.data@);
        self.data.insert(0, (name, value));
        proof {
            broadcast use group_value_models;

            let new_entries = obj_model(self.data@);
            assert(new_entries[0] == (name@, value@));
            assert(new_entries.drop_first() =~= old_entries);
        }
    }
}

impl Clone for Resource {
    /// A clone has the same model as the original.
    fn clone(&self) -> (r: Self)
        ensures
            r@ == self@,
    {
        broadcast use group_value_models;

        let mut data: Vec<(String, Value)> = Vec::new();
        let len = self.data.len();
        let mut i: usize = 0;
        #[verifier::loop_isolation(false)]
        while i < len
            invariant
                0 <= i <= len,
                len == self.data@.len(),
                data@.len() == i,
                forall|j: int|
                    0 <= j < i ==> (#[trigger] data@[j]).0@ == self.data@[j].0@ && data@[j].1@
                        == self.data@[j].1@,
            decreases len - i,
        {
            data.push((self.data[i].0.clone(), self.data[i].1.clone()));
            i += 1;
        }
        let r = Resource { id: self.id.clone(), data };
        proof {
            assert(obj_model(r.data@) =~= obj_model(self.data@));
        }
        r
    }
}

} // verus!
