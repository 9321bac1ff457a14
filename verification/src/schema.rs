//! The schema model: an immutable, declarative description of a
//! resource's shape and constraints.  Pure data; the validator gives it
//! meaning.

use vstd::prelude::*;

verus! {

/// Numeric or length bounds attached to a field.  For a `number` field
/// `min`/`max` bound the value itself; for a `string` field they bound
/// the string's length in characters.  `pattern` is carried as metadata
/// and not consulted by any operation.
pub struct ValidationRule {
    pub min: Option<i64>,
    pub max: Option<i64>,
    pub pattern: Option<String>,
}

/// The model of a [`ValidationRule`].
pub struct RuleV {
    pub min: Option<int>,
    pub max: Option<int>,
    pub pattern: Option<Seq<char>>,
}

impl View for ValidationRule {
    type V = RuleV;

    open spec fn view(&self) -> RuleV {
        RuleV {
            min: match self.min {
                Some(n) => Some(n as int),
                None => None,
            },
            max: match self.max {
                Some(n) => Some(n as int),
                None => None,
            },
            pattern: match self.pattern {
                Some(p) => Some(p@),
                None => None,
            },
        }
    }
}

/// One field of a resource definition: a name, a type tag (`string`,
/// `number`, `boolean`, `array`, `object`; any other tag is
/// unconstrained), whether the field is required, and optional bounds.
pub struct Field {
    pub name: String,
    pub field_type: String,
    pub required: bool,
    pub validation: Option<ValidationRule>,
}

/// The model of a [`Field`].
pub struct FieldV {
    pub name: Seq<char>,
    pub field_type: Seq<char>,
    pub required: bool,
    pub validation: Option<RuleV>,
}

impl View for Field {
    type V = FieldV;

    open spec fn view(&self) -> FieldV {
        FieldV {
            name: self.name@,
            field_type: self.field_type@,
            required: self.required,
            validation: match self.validation {
                Some(r) => Some(r@),
                None => None,
            },
        }
    }
}

/// Access-policy metadata carried on a schema.  It is not consulted by
/// any CRUD operation: enforcement is left to an external layer.
pub struct SecurityPolicy {
    pub require_auth: bool,
    pub allowed_roles: Option<Vec<String>>,
}

/// The model of a [`SecurityPolicy`].
pub struct SecurityPolicyV {
    pub require_auth: bool,
    pub allowed_roles: Option<Seq<Seq<char>>>,
}

impl View for SecurityPolicy {
    type V = SecurityPolicyV;

    open spec fn view(&self) -> SecurityPolicyV {
        SecurityPolicyV {
            require_auth: self.require_auth,
            allowed_roles: match self.allowed_roles {
                Some(roles) => Some(
                    Seq::new(
                        roles@.len(),
                        |i: int|
                            if 0 <= i < roles@.len() {
                                roles@[i]@
                            } else {
                                Seq::empty()
                            },
                    ),
                ),
                None => None,
            },
        }
    }
}

/// A resource definition: the ordered field list a record is validated
/// against, plus access-policy metadata.
pub struct ResourceDefinition {
    pub name: String,
    pub fields: Vec<Field>,
    pub security: Option<SecurityPolicy>,
}

/// The model of a [`ResourceDefinition`].
pub struct ResourceDefinitionV {
    pub name: Seq<char>,
    pub fields: Seq<FieldV>,
    pub security: Option<SecurityPolicyV>,
}

/// The models of a definition's fields, in declaration order.
pub open spec fn fields_model(s: Seq<Field>) -> Seq<FieldV> {
    Seq::new(
        s.len(),
        |i: int|
            if 0 <= i < s.len() {
                s[i]@
            } else {
                FieldV {
                    name: Seq::empty(),
                    field_type: Seq::empty(),
                    required: false,
                    validation: None,
                }
            },
    )
}

pub broadcast proof fn lemma_fields_model_len(s: Seq<Field>)
    ensures
        (#[trigger] fields_model(s)).len() == s.len(),
{
}

pub broadcast proof fn lemma_fields_model_index(s: Seq<Field>, i: int)
    requires
        0 <= i < s.len(),
    ensures
        #[trigger] fields_model(s)[i] == s[i]@,
{
}

pub broadcast group group_schema_models {
    lemma_fields_model_len,
    lemma_fields_model_index,
}

impl View for ResourceDefinition {
    type V = ResourceDefinitionV;

    open spec fn view(&self) -> ResourceDefinitionV {
        ResourceDefinitionV {
            name: self.name@,
            fields: fields_model(self.fields@),
            security: match self.security {
                Some(p) => Some(p@),
                None => None,
            },
        }
    }
}

} // verus!
