//! References from output rules to inputs, and their resolution: a
//! `FieldValue` takes the submitted value itself, a `FieldProperty`
//! looks a property of the selected entity (or entities) up through the
//! external collection resolver.

use vstd::prelude::*;

use crate::collection::UiSchemaCollections;
use crate::error::UiSchemaInputError;
use crate::input::InputOutcome;
use crate::input::UiSchemaInput;
use crate::input::find_input_idx;
use crate::input::get_input;
use crate::input::get_input_schema;
use crate::input::guard_sat;
use crate::input::input_outcome;
use crate::input_type::UiSchemaInputSingleType;
use crate::json::JsonValue;
use crate::json::SpecJson;
use crate::json::doc_get;
use crate::json::lemma_view_json_seq;
use crate::json::view_json;
use crate::json::view_json_seq;

verus! {

/// A reference to an input's submitted value.
#[derive(Clone, Debug)]
pub struct UiSchemaInputRefField {
    pub input: String,
}

/// A reference to a named property of the entity (or entities) a
/// collection-select input picked.
#[derive(Clone, Debug)]
pub struct UiSchemaInputRefProperty {
    pub input: String,
    pub property: String,
}

/// The source of one output rule's value.
#[derive(Clone, Debug)]
pub enum UiSchemaInputRef {
    FieldValue(UiSchemaInputRefField),
    FieldProperty(UiSchemaInputRefProperty),
}

/// The input id a reference points at.
pub open spec fn ref_id(r: UiSchemaInputRef) -> Seq<char> {
    match r {
        UiSchemaInputRef::FieldValue(fv) => fv.input@,
        UiSchemaInputRef::FieldProperty(fp) => fp.input@,
    }
}

/// An array whose elements are all strings.
pub open spec fn is_string_array(v: SpecJson) -> bool {
    match v {
        SpecJson::Arr(a) => forall|i: int| 0 <= i < a.len() ==> a[i] is Str,
        _ => false,
    }
}

/// The exact outcome of resolving a `FieldValue` reference: it is a
/// function of the declared inputs and the raw input document alone.
pub open spec fn field_value_result_ok<E>(
    si: Seq<UiSchemaInput>,
    raw: SpecJson,
    id: Seq<char>,
    r: Result<JsonValue, UiSchemaInputError<E>>,
) -> bool {
    let j = find_input_idx(si, id);
    if j == -1 {
        r matches Err(UiSchemaInputError::MissingInputSchema(m)) && m@ == id
    } else {
        match input_outcome(si[j], raw) {
            InputOutcome::Skip => r matches Err(UiSchemaInputError::OptionalInputMissing(m))
                && m@ == id,
            InputOutcome::Missing => r matches Err(UiSchemaInputError::MissingInputValue(m))
                && m@ == id,
            InputOutcome::Val(v) => r matches Ok(w) && w@ == v,
        }
    }
}

/// What holds of an array property resolution, given the fetched value
/// `v`: the shape errors are pinned; the element lookups belong to the
/// external resolver, so success promises only shape and length.
pub open spec fn prop_array_ok<E>(
    v: SpecJson,
    id: Seq<char>,
    r: Result<JsonValue, UiSchemaInputError<E>>,
) -> bool {
    &&& (!(v is Arr) ==> (r matches Err(UiSchemaInputError::InputNotStringArray(m)) && m@ == id))
    &&& (!is_string_array(v) ==> r is Err)
    &&& (r matches Ok(w) ==> is_string_array(v) && w@ is Arr && w@->Arr_0.len() == v->Arr_0.len())
}

/// What holds of a scalar property resolution, given the fetched value
/// `v`: a non-string is a pinned error; on a string the external
/// resolver's answer is passed through as it came.
pub open spec fn prop_scalar_ok<E>(
    v: SpecJson,
    id: Seq<char>,
    r: Result<JsonValue, UiSchemaInputError<E>>,
) -> bool {
    !(v is Str) ==> (r matches Err(UiSchemaInputError::InputNotString(m)) && m@ == id)
}

/// What holds of a property resolution once the input's value `v` is
/// fetched: the input must be a collection select; its descriptor is
/// read by the caller's collection type, whose refusal is the
/// `InvalidCollectionName` error; then the value's shape decides.
pub open spec fn prop_fetched_ok<E>(
    s: UiSchemaInput,
    v: SpecJson,
    id: Seq<char>,
    r: Result<JsonValue, UiSchemaInputError<E>>,
) -> bool {
    if !(s.input_type.single_type is CollectionSelect) {
        r matches Err(UiSchemaInputError::InputNotACollection(m)) && m@ == id
    } else {
        ||| (s.input_type.single_type matches UiSchemaInputSingleType::CollectionSelect {
            collection,
        } && r matches Err(UiSchemaInputError::InvalidCollectionName(d)) && d@ == view_json(
            collection,
        ))
        ||| (if s.input_type.is_array {
            prop_array_ok(v, id, r)
        } else {
            prop_scalar_ok(v, id, r)
        })
    }
}

/// What holds of a `FieldProperty` resolution once the declared input is
/// found: the guard and required policy are applied first, exactly as
/// for a value reference; only a fetched value is shaped and looked up.
pub open spec fn field_property_found_ok<E>(
    s: UiSchemaInput,
    raw: SpecJson,
    id: Seq<char>,
    r: Result<JsonValue, UiSchemaInputError<E>>,
) -> bool {
    match input_outcome(s, raw) {
        InputOutcome::Skip => r matches Err(UiSchemaInputError::OptionalInputMissing(m)) && m@
            == id,
        InputOutcome::Missing => r matches Err(UiSchemaInputError::MissingInputValue(m)) && m@
            == id,
        InputOutcome::Val(v) => prop_fetched_ok(s, v, id, r),
    }
}

/// The outcome of resolving a `FieldProperty` reference.
pub open spec fn field_property_result_ok<E>(
    si: Seq<UiSchemaInput>,
    raw: SpecJson,
    id: Seq<char>,
    r: Result<JsonValue, UiSchemaInputError<E>>,
) -> bool {
    let j = find_input_idx(si, id);
    &&& (j == -1 ==> (r matches Err(UiSchemaInputError::MissingInputSchema(m)) && m@ == id))
    &&& (j != -1 ==> field_property_found_ok(si[j], raw, id, r))
}

/// A resolution that produced a value did so for a declared input whose
/// guard is satisfied and whose value was submitted.
pub open spec fn resolved_input_visible(
    si: Seq<UiSchemaInput>,
    raw: SpecJson,
    id: Seq<char>,
) -> bool {
    let j = find_input_idx(si, id);
    &&& j != -1
    &&& guard_sat(si[j].guard, raw)
    &&& doc_get(raw, si[j].id@) is Some
}

impl UiSchemaInputRef {
    /// Resolve this reference against the declared inputs and the raw
    /// input document, looking collection properties up through `C`.
    pub fn resolve<C: UiSchemaCollections>(
        &self,
        env_id: &uuid::Uuid,
        input_schema: &Vec<UiSchemaInput>,
        inputs: &JsonValue,
    ) -> (r: Result<JsonValue, UiSchemaInputError<C::Error>>)
        ensures
            (self matches UiSchemaInputRef::FieldValue(fv) ==> field_value_result_ok(
                input_schema@,
                inputs@,
                fv.input@,
                r,
            )),
            (self matches UiSchemaInputRef::FieldProperty(fp) ==> field_property_result_ok(
                input_schema@,
                inputs@,
                fp.input@,
                r,
            )),
            (r is Ok ==> resolved_input_visible(input_schema@, inputs@, ref_id(*self))),
    {
        match self {
            UiSchemaInputRef::FieldValue(fv) => {
                let schema = match get_input_schema::<C::Error>(input_schema, &fv.input) {
                    Ok(s) => s,
                    Err(e) => {
                        return Err(e);
                    },
                };
                get_input::<C::Error>(schema, inputs)
            },
            UiSchemaInputRef::FieldProperty(fp) => {
                let schema = match get_input_schema::<C::Error>(input_schema, &fp.input) {
                    Ok(s) => s,
                    Err(e) => {
                        return Err(e);
                    },
                };
                let id_value = match get_input::<C::Error>(schema, inputs) {
                    Ok(v) => v,
                    Err(e) => {
                        return Err(e);
                    },
                };
                let ghost fetched = view_json(id_value);
                match &schema.input_type.single_type {
                    UiSchemaInputSingleType::CollectionSelect { collection } => {
                        let collections: C = match C::from_descriptor(collection) {
                            Some(c) => c,
                            None => {
                                return Err(
                                    UiSchemaInputError::InvalidCollectionName(collection.clone()),
                                );
                            },
                        };
                        if schema.input_type.is_array {
                            match id_value {
                                JsonValue::Arr(items) => {
                                    proof {
                                        lemma_view_json_seq(items@);
                                    }
                                    let ghost elems = view_json_seq(items@);
                                    let mut resolved: Vec<JsonValue> = Vec::new();
                                    let mut i: usize = 0;
                                    while i < items.len()
                                        invariant
                                            i <= items@.len(),
                                            resolved@.len() == i,
                                            elems == view_json_seq(items@),
                                            elems.len() == items@.len(),
                                            forall|l: int| 0 <= l < items@.len()
                                                ==> elems[l] == view_json(items@[l]),
                                            forall|l: int| 0 <= l < i ==> elems[l] is Str,
                                        decreases items@.len() - i,
                                    {
                                        match &items[i] {
                                            JsonValue::Str(s) => {
                                                let one = collections.resolve(
                                                    env_id,
                                                    s.as_str(),
                                                    fp.property.as_str(),
                                                );
                                                match one {
                                                    Ok(v) => resolved.push(v),
                                                    Err(e) => {
                                                        return Err(e);
                                                    },
                                                }
                                            },
                                            _ => {
                                                assert(!(elems[i as int] is Str));
                                                assert(!is_string_array(fetched));
                                                return Err(
                                                    UiSchemaInputError::InputNotStringArray(
                                                        fp.input.clone(),
                                                    ),
                                                );
                                            },
                                        }
                                        i = i + 1;
                                    }
                                    let out = JsonValue::Arr(resolved);
                                    proof {
                                        lemma_view_json_seq(resolved@);
                                        assert(is_string_array(fetched));
                                    }
                                    Ok(out)
                                },
                                other => {
                                    proof {
                                        assert(!(view_json(other) is Arr));
                                    }
                                    Err(UiSchemaInputError::InputNotStringArray(fp.input.clone()))
                                },
                            }
                        } else {
                            match &id_value {
                                JsonValue::Str(s) => {
                                    collections.resolve(env_id, s.as_str(), fp.property.as_str())
                                },
                                _ => {
                                    Err(UiSchemaInputError::InputNotString(fp.input.clone()))
                                },
                            }
                        }
                    },
                    _ => {
                        Err(UiSchemaInputError::InputNotACollection(fp.input.clone()))
                    },
                }
            },
        }
    }
}

} // verus!
