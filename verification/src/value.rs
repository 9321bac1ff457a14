//! Dynamically typed record values and their mathematical model.
//!
//! A record's data maps field names to [`Value`]s.  At the specification
//! level a `Value` is abstracted by [`Val`], a purely mathematical tree
//! over `int`, `Seq<char>` and `Seq` of children, so that contracts can
//! speak of deep structural equality.

use vstd::prelude::*;

verus! {

/// A dynamically typed value: one record field's content.
#[derive(Debug)]
pub enum Value {
    Null,
    Bool(bool),
    Number(i64),
    Str(String),
    Array(Vec<Value>),
    Object(Vec<(String, Value)>),
}

/// The mathematical model of a [`Value`].
pub enum Val {
    Null,
    Bool(bool),
    Number(int),
    Str(Seq<char>),
    Array(Seq<Val>),
    Object(Seq<(Seq<char>, Val)>),
}

/// The models of an array's elements.
pub open spec fn arr_model(s: Seq<Value>) -> Seq<Val>
    decreases s,
{
    Seq::new(
        s.len(),
        |i: int|
            if 0 <= i < s.len() {
                s[i]@
            } else {
                Val::Null
            },
    )
}

/// The models of an object's name/value entries.
pub open spec fn obj_model(s: Seq<(String, Value)>) -> Seq<(Seq<char>, Val)>
    decreases s,
{
    Seq::new(
        s.len(),
        |i: int|
            if 0 <= i < s.len() {
                (s[i].0@, s[i].1@)
            } else {
                (Seq::empty(), Val::Null)
            },
    )
}

pub broadcast proof fn lemma_arr_model_len(s: Seq<Value>)
    ensures
        (#[trigger] arr_model(s)).len() == s.len(),
{
}

pub broadcast proof fn lemma_arr_model_index(s: Seq<Value>, i: int)
    requires
        0 <= i < s.len(),
    ensures
        #[trigger] arr_model(s)[i] == s[i]@,
{
}

pub broadcast proof fn lemma_obj_model_len(s: Seq<(String, Value)>)
    ensures
        (#[trigger] obj_model(s)).len() == s.len(),
{
}

pub broadcast proof fn lemma_obj_model_index(s: Seq<(String, Value)>, i: int)
    requires
        0 <= i < s.len(),
    ensures
        #[trigger] obj_model(s)[i] == (s[i].0@, s[i].1@),
{
}

pub broadcast group group_value_models {
    lemma_arr_model_len,
    lemma_arr_model_index,
    lemma_obj_model_len,
    lemma_obj_model_index,
}

impl View for Value {
    type V = Val;

    open spec fn view(&self) -> Val
        decreases self,
    {
        match self {
            Value::Null => Val::Null,
            Value::Bool(b) => Val::Bool(*b),
            Value::Number(n) => Val::Number(*n as int),
            Value::Str(s) => Val::Str(s@),
            Value::Array(a) => Val::Array(arr_model(a@)),
            Value::Object(o) => Val::Object(obj_model(o@)),
        }
    }
}

impl Value {
    /// Deep structural equality: two values are equal exactly when their
    /// models are equal.
    #[verifier::loop_isolation(false)]
    pub fn deep_eq(&self, other: &Value) -> (r: bool)
        ensures
            r == (self@ == other@),
        decreases self,
    {
        broadcast use group_value_models;

        match (self, other) {
            (Value::Null, Value::Null) => true,
            (Value::Bool(a), Value::Bool(b)) => *a == *b,
            (Value::Number(a), Value::Number(b)) => *a == *b,
            (Value::Str(a), Value::Str(b)) => *a == *b,
            (Value::Array(a), Value::Array(b)) => {
                if a.len() != b.len() {
                    proof {
                        assert(arr_model(a@).len() == a@.len());
                        assert(arr_model(b@).len() == b@.len());
                    }
                    return false;
                }
                let mut i: usize = 0;
                while i < a.len()
                    invariant
                        0 <= i <= a@.len(),
                        a@.len() == b@.len(),
                        self@ == Val::Array(arr_model(a@)),
                        other@ == Val::Array(arr_model(b@)),
                        forall|j: int| 0 <= j < i ==> arr_model(a@)[j] == arr_model(b@)[j],
                    decreases a@.len() - i,
                {
                    proof {
                        assert(decreases_to!(self => *a));
                        assert(decreases_to!(*a => a@));
                        assert(decreases_to!(a@ => a@[i as int]));
                    }
                    if !a[i].deep_eq(&b[i]) {
                        proof {
                            broadcast use group_value_models;

                            assert(arr_model(a@)[i as int] != arr_model(b@)[i as int]);
                        }
                        return false;
                    }
                    i += 1;
                }
                proof {
                    assert(arr_model(a@) =~= arr_model(b@));
                }
                true
            },
            (Value::Object(a), Value::Object(b)) => {
                if a.len() != b.len() {
                    proof {
                        assert(obj_model(a@).len() == a@.len());
                        assert(obj_model(b@).len() == b@.len());
                    }
                    return false;
                }
                let mut i: usize = 0;
                while i < a.len()
                    invariant
                        0 <= i <= a@.len(),
                        a@.len() == b@.len(),
                        self@ == Val::Object(obj_model(a@)),
                        other@ == Val::Object(obj_model(b@)),
                        forall|j: int| 0 <= j < i ==> obj_model(a@)[j] == obj_model(b@)[j],
                    decreases a@.len() - i,
                {
                    let names_differ = !(a[i].0 == b[i].0);
                    if names_differ {
                        proof {
                            broadcast use group_value_models;

                            assert(obj_model(a@)[i as int] != obj_model(b@)[i as int]);
                        }
                        return false;
                    }
                    proof {
                        assert(decreases_to!(self => *a));
                        assert(decreases_to!(*a => a@));
                        assert(decreases_to!(a@ => a@[i as int]));
                        assert(decreases_to!(a@[i as int] => a@[i as int].1));
                    }
                    if !a[i].1.deep_eq(&b[i].1) {
                        proof {
                            broadcast use group_value_models;

                            assert(obj_model(a@)[i as int] != obj_model(b@)[i as int]);
                        }
                        return false;
                    }
                    i += 1;
                }
                proof {
                    assert(obj_model(a@) =~= obj_model(b@));
                }
                true
            },
            _ => {
                proof {
                    assert(self@ != other@);
                }
                false
            },
        }
    }
}

impl Value {
    /// The string inside a `Str` value.
    pub fn as_str(&self) -> (r: Option<&str>)
        ensures
            match r {
                Some(s) => self@ == Val::Str(s@),
                None => !(self@ is Str),
            },
    {
        match self {
            Value::Str(s) => Some(s.as_str()),
            _ => None,
        }
    }

    /// The integer inside a `Number` value.
    pub fn as_i64(&self) -> (r: Option<i64>)
        ensures
            match r {
                Some(n) => self@ == Val::Number(n as int),
                None => !(self@ is Number),
            },
    {
        match self {
            Value::Number(n) => Some(*n),
            _ => None,
        }
    }

    /// The boolean inside a `Bool` value.
    pub fn as_bool(&self) -> (r: Option<bool>)
        ensures
            match r {
                Some(b) => self@ == Val::Bool(b),
                None => !(self@ is Bool),
            },
    {
        match self {
            Value::Bool(b) => Some(*b),
            _ => None,
        }
    }
}

impl Clone for Value {
    /// A clone has the same model as the original.
    #[verifier::loop_isolation(false)]
    fn clone(&self) -> (r: Self)
        ensures
            r@ == self@,
        decreases self,
    {
        broadcast use group_value_models;

        match self {
            Value::Null => Value::Null,
            Value::Bool(b) => Value::Bool(*b),
            Value::Number(n) => Value::Number(*n),
            Value::Str(s) => Value::Str(s.clone()),
            Value::Array(a) => {
                let mut out: Vec<Value> = Vec::new();
                let mut i: usize = 0;
                while i < a.len()
                    invariant
                        0 <= i <= a@.len(),
                        out@.len() == i,
                        forall|j: int| 0 <= j < i ==> #[trigger] out@[j]@ == a@[j]@,
                    decreases a@.len() - i,
                {
                    proof {
                        assert(decreases_to!(self => *a));
                        assert(decreases_to!(*a => a@));
                        assert(decreases_to!(a@ => a@[i as int]));
                    }
                    out.push(a[i].clone());
                    i += 1;
                }
                let r = Value::Array(out);
                proof {
                    assert(arr_model(out@) =~= arr_model(a@));
                }
                r
            },
            Value::Object(o) => {
                let mut out: Vec<(String, Value)> = Vec::new();
                let mut i: usize = 0;
                while i < o.len()
                    invariant
                        0 <= i <= o@.len(),
                        out@.len() == i,
                        forall|j: int|
                            0 <= j < i ==> (#[trigger] out@[j]).0@ == o@[j].0@ && out@[j].1@
                                == o@[j].1@,
                    decreases o@.len() - i,
                {
                    proof {
                        assert(decreases_to!(self => *o));
                        assert(decreases_to!(*o => o@));
                        assert(decreases_to!(o@ => o@[i as int]));
                        assert(decreases_to!(o@[i as int] => o@[i as int].1));
                    }
                    out.push((o[i].0.clone(), o[i].1.clone()));
                    i += 1;
                }
                let r = Value::Object(out);
                proof {
                    assert(obj_model(out@) =~= obj_model(o@));
                }
                r
            },
        }
    }
}

} // verus!
