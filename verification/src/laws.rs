//! Library-wide laws, stated over the same models the operation
//! contracts use.  Each law composes with those contracts: where a
//! contract says an operation turns the stored mapping `m` into
//! `m.insert(..)` or `m.remove(..)`, the law here says what a later
//! operation must then return.

use crate::filter::FilterV;
use crate::filter::all_match;
use crate::filter::filter_matches;
use crate::record::Resource;
use crate::record::ResourceV;
use crate::schema::FieldV;
use crate::storage::filtering_of;
use crate::text::has_substring;
use crate::validate::field_check;
use crate::validate::first_violation;
use crate::validate::max_value_message;
use crate::validate::min_value_message;
use crate::validate::required_message;
use crate::value::Val;
use vstd::prelude::*;

verus! {

/// Round trip: after a create of a schema-valid record `r` under its
/// own fresh id, the store contains `r.id` and holds exactly `r` there,
/// so a get of `r.id` returns a record equal to `r`.
pub proof fn lemma_create_then_get(
    fields: Seq<FieldV>,
    m: Map<Seq<char>, ResourceV>,
    r: ResourceV,
)
    requires
        first_violation(fields, r.data) is None,
        !m.contains_key(r.id),
    ensures
        m.insert(r.id, r).contains_key(r.id),
        m.insert(r.id, r)[r.id] == r,
{
}

/// Uniqueness: once a create of `r1` has succeeded, the store contains
/// `r2.id` for any record `r2` with the same id, so a storage create of
/// `r2` fails with the conflict error whatever `r2`'s content.
pub proof fn lemma_create_conflict(m: Map<Seq<char>, ResourceV>, r1: ResourceV, r2: ResourceV)
    requires
        r2.id == r1.id,
    ensures
        m.insert(r1.id, r1).contains_key(r2.id),
{
}

/// Replace semantics: an update of `id` to `r2` after a create of `r1`
/// under the same id leaves the store as if only `r2` had ever been
/// written; a get of `id` returns exactly `r2`.
pub proof fn lemma_update_replaces(
    m: Map<Seq<char>, ResourceV>,
    id: Seq<char>,
    r1: ResourceV,
    r2: ResourceV,
)
    ensures
        m.insert(id, r1).insert(id, r2) == m.insert(id, r2),
        m.insert(id, r1).insert(id, r2).contains_key(id),
        m.insert(id, r1).insert(id, r2)[id] == r2,
{
    assert(m.insert(id, r1).insert(id, r2) =~= m.insert(id, r2));
}

proof fn lemma_violation_somewhere(fields: Seq<FieldV>, data: Map<Seq<char>, Val>, i: int)
    requires
        0 <= i < fields.len(),
        field_check(fields[i], data) is Some,
    ensures
        first_violation(fields, data) is Some,
    decreases fields.len(),
{
    if field_check(fields[0], data) is None {
        assert(fields.drop_first()[i - 1] == fields[i]);
        lemma_violation_somewhere(fields.drop_first(), data, i - 1);
    }
}

/// Required-field gate: a record whose data omits the name of any
/// required field is rejected by validation.
pub proof fn lemma_required_field_rejected(
    fields: Seq<FieldV>,
    data: Map<Seq<char>, Val>,
    i: int,
)
    requires
        0 <= i < fields.len(),
        fields[i].required,
        !data.contains_key(fields[i].name),
    ensures
        first_violation(fields, data) is Some,
{
    lemma_violation_somewhere(fields, data, i);
}

/// Any sequence that embeds `n` between two others contains `n` as a
/// substring.
pub proof fn lemma_concat_has_substring(a: Seq<char>, n: Seq<char>, b: Seq<char>)
    ensures
        has_substring(a + n + b, n),
{
    let s = a + n + b;
    let k = a.len() as int;
    assert(s.subrange(k, k + n.len() as int) =~= n);
    assert(0 <= k && k + n.len() <= s.len() && s.subrange(k, k + n.len() as int) == n);
}

/// Required-field gate, naming: when the omitted required field is the
/// first one to fail, the validation error is the required-field
/// message, and that message names the field.
pub proof fn lemma_required_field_named(fields: Seq<FieldV>, data: Map<Seq<char>, Val>, i: int)
    requires
        0 <= i < fields.len(),
        fields[i].required,
        !data.contains_key(fields[i].name),
        forall|j: int| 0 <= j < i ==> field_check(#[trigger] fields[j], data) is None,
    ensures
        first_violation(fields, data) == Some(required_message(fields[i].name)),
        has_substring(required_message(fields[i].name), fields[i].name),
    decreases fields.len(),
{
    if i > 0 {
        assert(fields.drop_first()[i - 1] == fields[i]);
        assert(forall|j: int|
            0 <= j < i - 1 ==> #[trigger] fields.drop_first()[j] == fields[j + 1]);
        lemma_required_field_named(fields.drop_first(), data, i - 1);
    } else {
        lemma_concat_has_substring("Required field '"@, fields[i].name, "' is missing"@);
    }
}

/// Numeric bound: a present numeric value on a `number` field with
/// bounds `lo`/`hi` passes the field's check exactly when
/// `lo <= n <= hi`; below the minimum the error is the minimum-bound
/// message, above the maximum the maximum-bound message.
pub proof fn lemma_number_bounds(
    f: FieldV,
    data: Map<Seq<char>, Val>,
    n: int,
    lo: int,
    hi: int,
)
    requires
        f.field_type == "number"@,
        f.validation matches Some(rule) && rule.min == Some(lo) && rule.max == Some(hi),
        data.contains_key(f.name),
        data[f.name] == Val::Number(n),
    ensures
        field_check(f, data) is None <==> lo <= n <= hi,
        n < lo ==> field_check(f, data) == Some(min_value_message(f.name, n, lo)),
        lo <= n && n > hi ==> field_check(f, data) == Some(max_value_message(f.name, n, hi)),
{
    assert("number"@ != "string"@) by {
        reveal_strlit("number");
        reveal_strlit("string");
        assert("number"@[0] == 'n');
        assert("string"@[0] == 's');
    }
}

/// String-length bound: a present string value on a `string` field
/// with bounds `lo`/`hi` passes the field's check exactly when its
/// character length lies within them.
pub proof fn lemma_string_length_bounds(
    f: FieldV,
    data: Map<Seq<char>, Val>,
    s: Seq<char>,
    lo: int,
    hi: int,
)
    requires
        f.field_type == "string"@,
        f.validation matches Some(rule) && rule.min == Some(lo) && rule.max == Some(hi),
        data.contains_key(f.name),
        data[f.name] == Val::Str(s),
    ensures
        field_check(f, data) is None <==> lo <= s.len() <= hi,
{
    assert("number"@ != "string"@) by {
        reveal_strlit("number");
        reveal_strlit("string");
        assert("number"@[0] == 'n');
        assert("string"@[0] == 's');
    }
}

/// Delete idempotence boundary: after a successful delete of `id` the
/// store no longer contains it, so a second delete and any later get
/// fail with the not-found error.
pub proof fn lemma_delete_then_absent(m: Map<Seq<char>, ResourceV>, id: Seq<char>)
    ensures
        !m.remove(id).contains_key(id),
{
}

/// Unknown operator: a filter whose operator is none of `eq`, `ne`,
/// `gt`, `lt`, `contains` matches no record at all.
pub proof fn lemma_unknown_operator_matches_nothing(data: Map<Seq<char>, Val>, f: FilterV)
    requires
        f.operator != "eq"@,
        f.operator != "ne"@,
        f.operator != "gt"@,
        f.operator != "lt"@,
        f.operator != "contains"@,
    ensures
        !filter_matches(data, f),
{
}

/// Unknown operator, at the query surface: a filter list holding such
/// an operator selects no record, and the operation still succeeds
/// (its contract promises a result, never an error).
pub proof fn lemma_unknown_operator_selects_nothing(
    out: Seq<Resource>,
    m: Map<Seq<char>, ResourceV>,
    filters: Seq<FilterV>,
    i: int,
)
    requires
        filtering_of(out, m, filters),
        0 <= i < filters.len(),
        filters[i].operator != "eq"@,
        filters[i].operator != "ne"@,
        filters[i].operator != "gt"@,
        filters[i].operator != "lt"@,
        filters[i].operator != "contains"@,
    ensures
        out.len() == 0,
{
    if out.len() > 0 {
        assert(all_match(out[0]@.data, filters));
        assert(filter_matches(out[0]@.data, filters[i]));
        lemma_unknown_operator_matches_nothing(out[0]@.data, filters[i]);
    }
}

} // verus!
