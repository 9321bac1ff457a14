//! Filter predicates: a (field, operator, comparison value) triple, and
//! the semantics of matching one against a record's data.  A predicate
//! that cannot apply — an absent field, a non-numeric operand under
//! `gt`/`lt`, a non-string operand under `contains`, or an unknown
//! operator — silently matches nothing; it never errors.

use crate::text::has_substring;
use crate::text::str_contains;
use crate::text::str_eq;
use crate::record::Resource;
use crate::value::Val;
use crate::value::Value;
use vstd::prelude::*;

verus! {

/// One filter predicate.
pub struct Filter {
    pub field: String,
    pub operator: String,
    pub value: Value,
}

/// The model of a [`Filter`].
pub struct FilterV {
    pub field: Seq<char>,
    pub operator: Seq<char>,
    pub value: Val,
}

impl View for Filter {
    type V = FilterV;

    open spec fn view(&self) -> FilterV {
        FilterV { field: self.field@, operator: self.operator@, value: self.value@ }
    }
}

/// The models of a slice of filters.
pub open spec fn filters_model(s: Seq<Filter>) -> Seq<FilterV> {
    Seq::new(
        s.len(),
        |i: int|
            if 0 <= i < s.len() {
                s[i]@
            } else {
                FilterV { field: Seq::empty(), operator: Seq::empty(), value: Val::Null }
            },
    )
}

pub broadcast proof fn lemma_filters_model_len(s: Seq<Filter>)
    ensures
        (#[trigger] filters_model(s)).len() == s.len(),
{
}

pub broadcast proof fn lemma_filters_model_index(s: Seq<Filter>, i: int)
    requires
        0 <= i < s.len(),
    ensures
        #[trigger] filters_model(s)[i] == s[i]@,
{
}

pub broadcast group group_filter_models {
    lemma_filters_model_len,
    lemma_filters_model_index,
}

/// Whether one predicate matches a record's data.
pub open spec fn filter_matches(data: Map<Seq<char>, Val>, f: FilterV) -> bool {
    data.contains_key(f.field) && {
        let v = data[f.field];
        if f.operator == "eq"@ {
            v == f.value
        } else if f.operator == "ne"@ {
            v != f.value
        } else if f.operator == "gt"@ {
            match (v, f.value) {
                (Val::Number(a), Val::Number(b)) => a > b,
                _ => false,
            }
        } else if f.operator == "lt"@ {
            match (v, f.value) {
                (Val::Number(a), Val::Number(b)) => a < b,
                _ => false,
            }
        } else if f.operator == "contains"@ {
            match (v, f.value) {
                (Val::Str(a), Val::Str(b)) => has_substring(a, b),
                _ => false,
            }
        } else {
            false
        }
    }
}

/// Whether every predicate in a list matches: a conjunction, with no
/// `or` and no grouping.
pub open spec fn all_match(data: Map<Seq<char>, Val>, filters: Seq<FilterV>) -> bool {
    forall|i: int| 0 <= i < filters.len() ==> filter_matches(data, #[trigger] filters[i])
}

/// Evaluates one predicate against one record.
pub fn matches_filter(resource: &Resource, filter: &Filter) -> (r: bool)
    ensures
        r == filter_matches(resource@.data, filter@),
{
    match resource.get(filter.field.as_str()) {
        None => false,
        Some(v) => {
            if str_eq(filter.operator.as_str(), "eq") {
                v.deep_eq(&filter.value)
            } else if str_eq(filter.operator.as_str(), "ne") {
                !v.deep_eq(&filter.value)
            } else if str_eq(filter.operator.as_str(), "gt") {
                match (v, &filter.value) {
                    (Value::Number(a), Value::Number(b)) => *a > *b,
                    _ => false,
                }
            } else if str_eq(filter.operator.as_str(), "lt") {
                match (v, &filter.value) {
                    (Value::Number(a), Value::Number(b)) => *a < *b,
                    _ => false,
                }
            } else if str_eq(filter.operator.as_str(), "contains") {
                match (v, &filter.value) {
                    (Value::Str(a), Value::Str(b)) => str_contains(a.as_str(), b.as_str()),
                    _ => false,
                }
            } else {
                false
            }
        },
    }
}

/// Evaluates a conjunction of predicates against one record.
#[verifier::loop_isolation(false)]
pub fn matches_all(resource: &Resource, filters: &[Filter]) -> (r: bool)
    ensures
        r == all_match(resource@.data, filters_model(filters@)),
{
    broadcast use group_filter_models;

    let len = filters.len();
    let mut i: usize = 0;
    while i < len
        invariant
            0 <= i <= len,
            len == filters@.len(),
            forall|j: int|
                0 <= j < i ==> filter_matches(resource@.data, #[trigger] filters_model(
                    filters@,
                )[j]),
        decreases len - i,
    {
        if !matches_filter(resource, &filters[i]) {
            proof {
                assert(!filter_matches(resource@.data, filters_model(filters@)[i as int]));
            }
            return false;
        }
        i += 1;
    }
    true
}

} // verus!
