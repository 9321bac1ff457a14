//! The error surface: four flat kinds, each carrying a human-readable
//! message naming the offending field or id.

use vstd::prelude::*;

verus! {

/// An operation's failure.
#[derive(Debug)]
pub enum MetaRestError {
    /// A read, update or delete named an id that is not stored.
    NotFound(String),
    /// A record broke the schema: a missing required field, a wrongly
    /// typed value, or a value or length out of bounds.
    ValidationError(String),
    /// Reserved for engine-specific failures; the in-memory engine
    /// never reports it.
    StorageError(String),
    /// A create named an id that already exists.
    InvalidOperation(String),
}

/// The model of a [`MetaRestError`]: the same four kinds over character
/// sequences.
pub enum ErrorV {
    NotFound(Seq<char>),
    ValidationError(Seq<char>),
    StorageError(Seq<char>),
    InvalidOperation(Seq<char>),
}

impl View for MetaRestError {
    type V = ErrorV;

    open spec fn view(&self) -> ErrorV {
        match self {
            MetaRestError::NotFound(m) => ErrorV::NotFound(m@),
            MetaRestError::ValidationError(m) => ErrorV::ValidationError(m@),
            MetaRestError::StorageError(m) => ErrorV::StorageError(m@),
            MetaRestError::InvalidOperation(m) => ErrorV::InvalidOperation(m@),
        }
    }
}

impl MetaRestError {
    /// The message carried by the error, whatever its kind.
    pub fn message(&self) -> (r: &String)
        ensures
            self@ == ErrorV::NotFound(r@) || self@ == ErrorV::ValidationError(r@) || self@
                == ErrorV::StorageError(r@) || self@ == ErrorV::InvalidOperation(r@),
    {
        match self {
            MetaRestError::NotFound(m) => m,
            MetaRestError::ValidationError(m) => m,
            MetaRestError::StorageError(m) => m,
            MetaRestError::InvalidOperation(m) => m,
        }
    }
}

} // verus!
