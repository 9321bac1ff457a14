//! The schema-driven validator.  A record is checked against a
//! definition's fields in declaration order; the first failure
//! short-circuits and is returned as a `ValidationError` whose message
//! is pinned down, character for character, by the spec functions here.

use crate::errors::ErrorV;
use crate::errors::MetaRestError;
use crate::record::Resource;
use crate::schema::Field;
use crate::schema::FieldV;
use crate::schema::ResourceDefinition;
use crate::schema::RuleV;
use crate::schema::ValidationRule;
use crate::schema::group_schema_models;
use crate::text::dec_str;
use crate::text::i64_to_string;
use crate::text::str_eq;
use crate::value::Val;
use crate::value::Value;
use vstd::prelude::*;
use vstd::string::StringExecFns;

verus! {

/// Whether a value fits a field's type tag.  An unknown tag constrains
/// nothing.
pub open spec fn type_ok(tag: Seq<char>, v: Val) -> bool {
    if tag == "string"@ {
        v is Str
    } else if tag == "number"@ {
        v is Number
    } else if tag == "boolean"@ {
        v is Bool
    } else if tag == "array"@ {
        v is Array
    } else if tag == "object"@ {
        v is Object
    } else {
        true
    }
}

pub open spec fn required_message(name: Seq<char>) -> Seq<char> {
    "Required field '"@ + name + "' is missing"@
}

pub open spec fn type_message(name: Seq<char>, tag: Seq<char>) -> Seq<char> {
    "Field '"@ + name + "' has invalid type, expected '"@ + tag + "'"@
}

pub open spec fn min_value_message(name: Seq<char>, value: int, min: int) -> Seq<char> {
    "Field '"@ + name + "' value "@ + dec_str(value) + " is less than minimum "@ + dec_str(min)
}

pub open spec fn max_value_message(name: Seq<char>, value: int, max: int) -> Seq<char> {
    "Field '"@ + name + "' value "@ + dec_str(value) + " is greater than maximum "@ + dec_str(max)
}

pub open spec fn min_length_message(name: Seq<char>, min: int) -> Seq<char> {
    "Field '"@ + name + "' length is less than minimum "@ + dec_str(min)
}

pub open spec fn max_length_message(name: Seq<char>, max: int) -> Seq<char> {
    "Field '"@ + name + "' length is greater than maximum "@ + dec_str(max)
}

/// What the minimum bound says of a present, well-typed value.  The
/// bound applies to a `number` field's value and to a `string` field's
/// character length; other field types ignore it.
pub open spec fn min_check(f: FieldV, min: int, v: Val) -> Option<Seq<char>> {
    if f.field_type == "number"@ {
        match v {
            Val::Number(n) => if n < min {
                Some(min_value_message(f.name, n, min))
            } else {
                None
            },
            _ => None,
        }
    } else if f.field_type == "string"@ {
        match v {
            Val::Str(s) => if s.len() < min {
                Some(min_length_message(f.name, min))
            } else {
                None
            },
            _ => None,
        }
    } else {
        None
    }
}

/// What the maximum bound says: the mirror image of [`min_check`].
pub open spec fn max_check(f: FieldV, max: int, v: Val) -> Option<Seq<char>> {
    if f.field_type == "number"@ {
        match v {
            Val::Number(n) => if n > max {
                Some(max_value_message(f.name, n, max))
            } else {
                None
            },
            _ => None,
        }
    } else if f.field_type == "string"@ {
        match v {
            Val::Str(s) => if s.len() > max {
                Some(max_length_message(f.name, max))
            } else {
                None
            },
            _ => None,
        }
    } else {
        None
    }
}

/// What a validation rule says of a value: the minimum bound is
/// checked before the maximum.
pub open spec fn rule_check(f: FieldV, rule: RuleV, v: Val) -> Option<Seq<char>> {
    let from_min = match rule.min {
        Some(min) => min_check(f, min, v),
        None => None,
    };
    if from_min is Some {
        from_min
    } else {
        match rule.max {
            Some(max) => max_check(f, max, v),
            None => None,
        }
    }
}

/// What one field says of a record's data: required-ness first, then
/// the type, then the bounds.
pub open spec fn field_check(f: FieldV, data: Map<Seq<char>, Val>) -> Option<Seq<char>> {
    if f.required && !data.contains_key(f.name) {
        Some(required_message(f.name))
    } else if data.contains_key(f.name) {
        let v = data[f.name];
        if !type_ok(f.field_type, v) {
            Some(type_message(f.name, f.field_type))
        } else {
            match f.validation {
                Some(rule) => rule_check(f, rule, v),
                None => None,
            }
        }
    } else {
        None
    }
}

/// The first failing field's message, in declaration order, or `None`
/// when the record satisfies the whole schema.
pub open spec fn first_violation(fields: Seq<FieldV>, data: Map<Seq<char>, Val>) -> Option<
    Seq<char>,
>
    decreases fields.len(),
{
    if fields.len() == 0 {
        None
    } else {
        match field_check(fields[0], data) {
            Some(m) => Some(m),
            None => first_violation(fields.drop_first(), data),
        }
    }
}

fn required_message_exec(name: &String) -> (r: String)
    ensures
        r@ == required_message(name@),
{
    let mut m = String::from_str("Required field '");
    m.append(name.as_str());
    m.append("' is missing");
    proof {
        assert(m@ =~= required_message(name@));
    }
    m
}

fn type_message_exec(name: &String, tag: &String) -> (r: String)
    ensures
        r@ == type_message(name@, tag@),
{
    let mut m = String::from_str("Field '");
    m.append(name.as_str());
    m.append("' has invalid type, expected '");
    m.append(tag.as_str());
    m.append("'");
    proof {
        assert(m@ =~= type_message(name@, tag@));
    }
    m
}

fn min_value_message_exec(name: &String, value: i64, min: i64) -> (r: String)
    ensures
        r@ == min_value_message(name@, value as int, min as int),
{
    let mut m = String::from_str("Field '");
    m.append(name.as_str());
    m.append("' value ");
    m.append(i64_to_string(value).as_str());
    m.append(" is less than minimum ");
    m.append(i64_to_string(min).as_str());
    proof {
        assert(m@ =~= min_value_message(name@, value as int, min as int));
    }
    m
}

fn max_value_message_exec(name: &String, value: i64, max: i64) -> (r: String)
    ensures
        r@ == max_value_message(name@, value as int, max as int),
{
    let mut m = String::from_str("Field '");
    m.append(name.as_str());
    m.append("' value ");
    m.append(i64_to_string(value).as_str());
    m.append(" is greater than maximum ");
    m.append(i64_to_string(max).as_str());
    proof {
        assert(m@ =~= max_value_message(name@, value as int, max as int));
    }
    m
}

fn min_length_message_exec(name: &String, min: i64) -> (r: String)
    ensures
        r@ == min_length_message(name@, min as int),
{
    let mut m = String::from_str("Field '");
    m.append(name.as_str());
    m.append("' length is less than minimum ");
    m.append(i64_to_string(min).as_str());
    proof {
        assert(m@ =~= min_length_message(name@, min as int));
    }
    m
}

fn max_length_message_exec(name: &String, max: i64) -> (r: String)
    ensures
        r@ == max_length_message(name@, max as int),
{
    let mut m = String::from_str("Field '");
    m.append(name.as_str());
    m.append("' length is greater than maximum ");
    m.append(i64_to_string(max).as_str());
    proof {
        assert(m@ =~= max_length_message(name@, max as int));
    }
    m
}

fn type_ok_exec(tag: &String, v: &Value) -> (r: bool)
    ensures
        r == type_ok(tag@, v@),
{
    if str_eq(tag.as_str(), "string") {
        match v {
            Value::Str(_) => true,
            _ => false,
        }
    } else if str_eq(tag.as_str(), "number") {
        match v {
            Value::Number(_) => true,
            _ => false,
        }
    } else if str_eq(tag.as_str(), "boolean") {
        match v {
            Value::Bool(_) => true,
            _ => false,
        }
    } else if str_eq(tag.as_str(), "array") {
        match v {
            Value::Array(_) => true,
            _ => false,
        }
    } else if str_eq(tag.as_str(), "object") {
        match v {
            Value::Object(_) => true,
            _ => false,
        }
    } else {
        true
    }
}

fn check_rule(field: &Field, rule: &ValidationRule, v: &Value) -> (r: Option<String>)
    ensures
        match r {
            Some(m) => rule_check(field@, rule@, v@) == Some(m@),
            None => rule_check(field@, rule@, v@) is None,
        },
{
    let is_number = str_eq(field.field_type.as_str(), "number");
    let is_string = str_eq(field.field_type.as_str(), "string");
    if let Some(min) = rule.min {
        if is_number {
            if let Value::Number(n) = v {
                if *n < min {
                    return Some(min_value_message_exec(&field.name, *n, min));
                }
            }
        } else if is_string {
            if let Value::Str(s) = v {
                let len = vstd::string::StrSliceExecFns::unicode_len(s.as_str());
                if min > 0 && (len as u64) < (min as u64) {
                    return Some(min_length_message_exec(&field.name, min));
                }
            }
        }
    }
    if let Some(max) = rule.max {
        if is_number {
            if let Value::Number(n) = v {
                if *n > max {
                    return Some(max_value_message_exec(&field.name, *n, max));
                }
            }
        } else if is_string {
            if let Value::Str(s) = v {
                let len = vstd::string::StrSliceExecFns::unicode_len(s.as_str());
                if max < 0 || (len as u64) > (max as u64) {
                    return Some(max_length_message_exec(&field.name, max));
                }
            }
        }
    }
    None
}

fn check_field(field: &Field, resource: &Resource) -> (r: Option<String>)
    ensures
        match r {
            Some(m) => field_check(field@, resource@.data) == Some(m@),
            None => field_check(field@, resource@.data) is None,
        },
{
    match resource.get(field.name.as_str()) {
        None => {
            if field.required {
                Some(required_message_exec(&field.name))
            } else {
                None
            }
        },
        Some(value) => {
            if !type_ok_exec(&field.field_type, value) {
                return Some(type_message_exec(&field.name, &field.field_type));
            }
            match &field.validation {
                None => None,
                Some(rule) => check_rule(field, rule, value),
            }
        },
    }
}

/// Checks a record against a definition, field by field in declaration
/// order; the first failure is returned as a `ValidationError`.
#[verifier::loop_isolation(false)]
pub fn validate_record(definition: &ResourceDefinition, resource: &Resource) -> (r: Result<
    (),
    MetaRestError,
>)
    ensures
        match r {
            Ok(_) => first_violation(definition@.fields, resource@.data) is None,
            Err(e) => {
                &&& first_violation(definition@.fields, resource@.data) is Some
                &&& e@ == ErrorV::ValidationError(
                    first_violation(definition@.fields, resource@.data)->Some_0,
                )
            },
        },
{
    broadcast use group_schema_models;

    let ghost fields = definition@.fields;
    let ghost data = resource@.data;
    let len = definition.fields.len();
    proof {
        assert(fields.subrange(0, len as int) =~= fields);
    }
    let mut i: usize = 0;
    while i < len
        invariant
            0 <= i <= len,
            first_violation(fields, data) == first_violation(
                fields.subrange(i as int, len as int),
                data,
            ),
        decreases len - i,
    {
        proof {
            let s1 = fields.subrange(i as int, len as int);
            assert(s1[0] == fields[i as int]);
            assert(s1.drop_first() =~= fields.subrange(i as int + 1, len as int));
        }
        if let Some(message) = check_field(&definition.fields[i], resource) {
            return Err(MetaRestError::ValidationError(message));
        }
        i += 1;
    }
    proof {
        assert(fields.subrange(len as int, len as int) =~= Seq::empty());
    }
    Ok(())
}

} // verus!
