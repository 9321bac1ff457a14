//! The resource manager: one schema composed with one storage engine
//! for the manager's whole lifetime.  Every write is validated against
//! the schema before storage is touched; reads delegate unchecked.

use crate::errors::ErrorV;
use crate::errors::MetaRestError;
use crate::filter::Filter;
use crate::filter::filters_model;
use crate::record::Resource;
use crate::record::ResourceV;
use crate::schema::ResourceDefinition;
use crate::schema::ResourceDefinitionV;
use crate::storage::Storage;
use crate::storage::conflict_message;
use crate::storage::filtering_of;
use crate::storage::listing_of;
use crate::storage::not_found_message;
use crate::validate::first_violation;
use crate::validate::validate_record;
use vstd::prelude::*;

verus! {

/// The validated CRUD surface over a schema and a storage engine.
pub struct ResourceManager<S: Storage> {
    definition: ResourceDefinition,
    storage: S,
}

impl<S: Storage> ResourceManager<S> {
    /// The model of the schema the manager validates against.
    pub closed spec fn schema(&self) -> ResourceDefinitionV {
        self.definition@
    }

    /// The model of what the storage engine holds.
    pub closed spec fn contents(&self) -> Map<Seq<char>, ResourceV> {
        self.storage.contents()
    }

    /// Composes a schema with a storage engine.
    pub fn new(definition: ResourceDefinition, storage: S) -> (r: Self)
        ensures
            r.schema() == definition@,
            r.contents() == storage.contents(),
    {
        ResourceManager { definition, storage }
    }

    /// Checks a record against the schema without touching storage.
    pub fn validate(&self, resource: &Resource) -> (r: Result<(), MetaRestError>)
        ensures
            match r {
                Ok(_) => first_violation(self.schema().fields, resource@.data) is None,
                Err(e) => {
                    &&& first_violation(self.schema().fields, resource@.data) is Some
                    &&& e@ == ErrorV::ValidationError(
                        first_violation(self.schema().fields, resource@.data)->Some_0,
                    )
                },
            },
    {
        validate_record(&self.definition, resource)
    }

    /// Validates, then stores a new record keyed by its id.  A failed
    /// validation or an already-stored id leaves storage untouched.
    pub fn create(&mut self, resource: Resource) -> (r: Result<Resource, MetaRestError>)
        ensures
            final(self).schema() == old(self).schema(),
            first_violation(old(self).schema().fields, resource@.data) is Some ==> {
                &&& final(self).contents() == old(self).contents()
                &&& r matches Err(e) && e@ == ErrorV::ValidationError(
                    first_violation(old(self).schema().fields, resource@.data)->Some_0,
                )
            },
            first_violation(old(self).schema().fields, resource@.data) is None && old(
                self,
            ).contents().contains_key(resource@.id) ==> {
                &&& final(self).contents() == old(self).contents()
                &&& r matches Err(e) && e@ == ErrorV::InvalidOperation(
                    conflict_message(resource@.id),
                )
            },
            first_violation(old(self).schema().fields, resource@.data) is None && !old(
                self,
            ).contents().contains_key(resource@.id) ==> {
                &&& final(self).contents() == old(self).contents().insert(resource@.id, resource@)
                &&& r matches Ok(out) && out@ == resource@
            },
    {
        if let Err(e) = validate_record(&self.definition, &resource) {
            return Err(e);
        }
        self.storage.create(resource)
    }

    /// Returns a copy of the record stored under `id`; reads bypass
    /// validation.
    pub fn get(&self, id: &str) -> (r: Result<Resource, MetaRestError>)
        ensures
            self.contents().contains_key(id@) ==> (r matches Ok(out) && out@
                == self.contents()[id@]),
            !self.contents().contains_key(id@) ==> (r matches Err(e) && e@ == ErrorV::NotFound(
                not_found_message(id@),
            )),
    {
        self.storage.get(id)
    }

    /// Returns a copy of every stored record.
    pub fn list(&self) -> (r: Result<Vec<Resource>, MetaRestError>)
        ensures
            r matches Ok(out) && listing_of(out@, self.contents()),
    {
        self.storage.list()
    }

    /// Returns a copy of every stored record that all predicates match.
    pub fn list_filtered(&self, filters: &[Filter]) -> (r: Result<Vec<Resource>, MetaRestError>)
        ensures
            r matches Ok(out) && filtering_of(out@, self.contents(), filters_model(filters@)),
    {
        self.storage.filter(filters)
    }

    /// Validates, then replaces the record stored under `id` wholesale.
    pub fn update(&mut self, id: &str, resource: Resource) -> (r: Result<Resource, MetaRestError>)
        ensures
            final(self).schema() == old(self).schema(),
            first_violation(old(self).schema().fields, resource@.data) is Some ==> {
                &&& final(self).contents() == old(self).contents()
                &&& r matches Err(e) && e@ == ErrorV::ValidationError(
                    first_violation(old(self).schema().fields, resource@.data)->Some_0,
                )
            },
            first_violation(old(self).schema().fields, resource@.data) is None && old(
                self,
            ).contents().contains_key(id@) ==> {
                &&& final(self).contents() == old(self).contents().insert(id@, resource@)
                &&& r matches Ok(out) && out@ == resource@
            },
            first_violation(old(self).schema().fields, resource@.data) is None && !old(
                self,
            ).contents().contains_key(id@) ==> {
                &&& final(self).contents() == old(self).contents()
                &&& r matches Err(e) && e@ == ErrorV::NotFound(not_found_message(id@))
            },
    {
        if let Err(e) = validate_record(&self.definition, &resource) {
            return Err(e);
        }
        self.storage.update(id, resource)
    }

    /// Removes the record stored under `id`; no validation applies.
    pub fn delete(&mut self, id: &str) -> (r: Result<(), MetaRestError>)
        ensures
            final(self).schema() == old(self).schema(),
            old(self).contents().contains_key(id@) ==> {
                &&& final(self).contents() == old(self).contents().remove(id@)
                &&& r is Ok
            },
            !old(self).contents().contains_key(id@) ==> {
                &&& final(self).contents() == old(self).contents()
                &&& r matches Err(e) && e@ == ErrorV::NotFound(not_found_message(id@))
            },
    {
        self.storage.delete(id)
    }

    /// Read-only access to the schema.
    pub fn definition(&self) -> (r: &ResourceDefinition)
        ensures
            r@ == self.schema(),
    {
        &self.definition
    }
}

} // verus!
