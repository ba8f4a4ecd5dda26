//! The outcomes a reference resolution can signal, one of which — the
//! optional-input signal — is no true error but a per-rule skip.

use vstd::prelude::*;

use crate::json::JsonValue;

verus! {

/// Why a reference did not resolve to a value. `E` is the error type of
/// the caller-supplied collection resolver.
#[derive(Debug)]
pub enum UiSchemaInputError<E> {
    /// Not an error: the input is hidden or optional and absent, so the
    /// output or attribute it feeds is omitted.
    OptionalInputMissing(String),
    /// A reference points at an input id the schema does not declare.
    MissingInputSchema(String),
    /// A required, visible input has no submitted value.
    MissingInputValue(String),
    /// A property reference on an input that is not a collection select.
    InputNotACollection(String),
    /// A scalar property reference whose submitted value is no string.
    InputNotString(String),
    /// An array property reference whose submitted value is not an array
    /// of strings.
    InputNotStringArray(String),
    /// The collection descriptor did not name a collection the resolver
    /// knows; carries the offending descriptor.
    InvalidCollectionName(JsonValue),
    /// An error of the external collection resolver, passed through
    /// unchanged.
    CollectionsError(E),
}

impl<E> UiSchemaInputError<E> {
    /// The skip signal, as opposed to a hard error.
    pub fn is_optional_input_missing(&self) -> (r: bool)
        ensures
            r == (self is OptionalInputMissing),
    {
        match self {
            UiSchemaInputError::OptionalInputMissing(_) => true,
            _ => false,
        }
    }
}

} // verus!
