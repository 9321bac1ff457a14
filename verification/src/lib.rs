//! Schema-driven resource management: a caller describes a resource's
//! shape declaratively (field names, types, required-ness, validation
//! bounds) and receives a validated CRUD surface (create / get / list /
//! filter / update / delete) over a pluggable storage engine.

pub mod errors;
pub mod filter;
pub mod laws;
pub mod manager;
pub mod record;
pub mod schema;
pub mod storage;
pub mod text;
pub mod validate;
pub mod value;

pub use errors::ErrorV;
pub use errors::MetaRestError;
pub use filter::Filter;
pub use filter::FilterV;
pub use manager::ResourceManager;
pub use record::Resource;
pub use record::ResourceV;
pub use schema::Field;
pub use schema::FieldV;
pub use schema::ResourceDefinition;
pub use schema::ResourceDefinitionV;
pub use schema::RuleV;
pub use storage::InMemoryStorage;
pub use storage::Storage;
pub use schema::SecurityPolicy;
pub use schema::SecurityPolicyV;
pub use schema::ValidationRule;
pub use value::Val;
pub use value::Value;
