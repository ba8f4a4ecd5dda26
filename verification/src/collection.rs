//! The externally supplied collection-resolution capability: a value
//! built from a collection descriptor, able to look up a named property
//! of an entity in that collection.

use vstd::prelude::*;

use crate::error::UiSchemaInputError;
use crate::json::JsonValue;

verus! {

/// The environment identifier of the `uuid` crate, declared so that it
/// can pass through signatures; the engine never reads it, it only
/// hands it to the collection resolver.
#[verifier::external_type_specification]
#[verifier::external_body]
pub struct ExUuid(uuid::Uuid);

/// The set of collections a deployment environment offers. A value of an
/// implementing type selects one collection; it is built from the opaque
/// descriptor a `CollectionSelect` input carries, and resolves properties
/// of entities in that collection.
///
/// Nothing is assumed of `resolve`: the engine states what holds of its
/// result whatever the implementation returns.
pub trait UiSchemaCollections: Sized {
    type Error;

    /// Read a collection descriptor into a concrete collection selector;
    /// `None` when the descriptor names no known collection.
    fn from_descriptor(descriptor: &JsonValue) -> Option<Self>;

    /// Look up property `property` of the entity with id `id`, in the
    /// environment `env_id`.
    fn resolve(
        &self,
        env_id: &uuid::Uuid,
        id: &str,
        property: &str,
    ) -> Result<JsonValue, UiSchemaInputError<Self::Error>>;
}

} // verus!
