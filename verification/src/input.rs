//! Declared input fields and the evaluation of their visibility guards
//! against the raw input document.

use vstd::prelude::*;

use crate::error::UiSchemaInputError;
use crate::guard::eval_expr_guard;
use crate::guard::expr_guard_sat;
use crate::input_type::UiSchemaInputType;
use crate::json::JsonValue;
use crate::json::SpecJson;
use crate::json::doc_get;
use crate::json::json_eq;
use crate::json::json_obj_get;
use crate::json::view_json;

verus! {

/// One (field, expected value) condition of the legacy guard form.
#[derive(Clone, Debug)]
pub struct UiSchemaFieldValuePair {
    pub field: String,
    pub value: JsonValue,
}

/// A (field, value) filter entry on an input definition.
#[derive(Clone, Debug)]
pub struct UiSchemaInputFieldValue {
    pub field: String,
    pub value: JsonValue,
}

/// One enumerated choice of a select input.
#[derive(Clone, Debug)]
pub struct UiSchemaInputFieldOption {
    pub value: JsonValue,
    pub label: Option<String>,
    pub help_text: Option<String>,
}

/// A visibility guard. The two forms are mutually exclusive by
/// construction: a definition carries at most one.
#[derive(Clone, Debug)]
pub enum UiSchemaInputGuard {
    /// A boolean expression over the whole raw input document; it must
    /// evaluate to `true`, any other outcome hides the input.
    Expression(JsonValue),
    /// The legacy list: every (field, value) pair must equal-match the
    /// raw inputs; a missing field is a non-match.
    AllOf(Vec<UiSchemaFieldValuePair>),
}

/// A declared input field of one schema.
#[derive(Clone, Debug)]
pub struct UiSchemaInput {
    pub id: String,
    pub input_type: UiSchemaInputType,
    pub label: String,
    pub initial_value: Option<JsonValue>,
    pub help_text: Option<String>,
    pub required: bool,
    pub sensitive: bool,
    pub options: Option<Vec<UiSchemaInputFieldOption>>,
    pub guard: Option<UiSchemaInputGuard>,
    pub filters: Option<Vec<UiSchemaInputFieldValue>>,
    pub minimum: Option<JsonValue>,
    pub maximum: Option<JsonValue>,
    pub step: Option<JsonValue>,
}

/// Whether an input's guard is satisfied by the raw input document.
/// No guard is always satisfied.
pub open spec fn guard_sat(g: Option<UiSchemaInputGuard>, inputs: SpecJson) -> bool {
    match g {
        None => true,
        Some(UiSchemaInputGuard::Expression(e)) => expr_guard_sat(view_json(e), inputs),
        Some(UiSchemaInputGuard::AllOf(pairs)) => forall|j: int|
            0 <= j < pairs@.len() ==> doc_get(inputs, pairs@[j].field@) == Some(
                view_json(pairs@[j].value),
            ),
    }
}

/// Evaluate an input's guard against the raw input document.
pub fn eval_guard(g: &Option<UiSchemaInputGuard>, inputs: &JsonValue) -> (r: bool)
    ensures
        r == guard_sat(*g, inputs@),
{
    match g {
        Option::None => true,
        Option::Some(UiSchemaInputGuard::Expression(e)) => eval_expr_guard(e, inputs),
        Option::Some(UiSchemaInputGuard::AllOf(pairs)) => {
            let mut j: usize = 0;
            while j < pairs.len()
                invariant
                    j <= pairs@.len(),
                    forall|l: int| 0 <= l < j ==> doc_get(inputs@, pairs@[l].field@) == Some(
                        view_json(pairs@[l].value),
                    ),
                decreases pairs@.len() - j,
            {
                let pair = &pairs[j];
                match json_obj_get(inputs, &pair.field) {
                    Some(v) => {
                        if !json_eq(v, &pair.value) {
                            return false;
                        }
                    },
                    None => {
                        return false;
                    },
                }
                j = j + 1;
            }
            true
        },
    }
}

/// Index of the first declared input with id `id`, or -1.
pub open spec fn find_input_idx(inputs: Seq<UiSchemaInput>, id: Seq<char>) -> int
    decreases inputs.len(),
{
    if inputs.len() == 0 {
        -1
    } else if inputs[0].id@ == id {
        0
    } else {
        let r = find_input_idx(inputs.drop_first(), id);
        if r == -1 {
            -1
        } else {
            r + 1
        }
    }
}

pub open spec fn has_input(inputs: Seq<UiSchemaInput>, id: Seq<char>) -> bool {
    exists|i: int| 0 <= i < inputs.len() && inputs[i].id@ == id
}

/// `find_input_idx` finds the first declared input with the id, if any.
pub proof fn lemma_find_input_idx(inputs: Seq<UiSchemaInput>, id: Seq<char>)
    ensures
        has_input(inputs, id) <==> 0 <= find_input_idx(inputs, id) < inputs.len(),
        !has_input(inputs, id) ==> find_input_idx(inputs, id) == -1,
        has_input(inputs, id) ==> inputs[find_input_idx(inputs, id)].id@ == id,
        forall|j: int| 0 <= j < find_input_idx(inputs, id) ==> inputs[j].id@ != id,
    decreases inputs.len(),
{
    if inputs.len() > 0 && inputs[0].id@ != id {
        let d = inputs.drop_first();
        lemma_find_input_idx(d, id);
        if has_input(inputs, id) {
            let i = choose|i: int| 0 <= i < inputs.len() && inputs[i].id@ == id;
            assert(d[i - 1] == inputs[i]);
            assert(has_input(d, id));
        }
        if has_input(d, id) {
            let i = choose|i: int| 0 <= i < d.len() && d[i].id@ == id;
            assert(inputs[i + 1].id@ == id);
            assert(has_input(inputs, id));
        }
        let r = find_input_idx(d, id);
        if r != -1 {
            assert(inputs[r + 1] == d[r]);
            assert forall|j: int| 0 <= j < r + 1 implies inputs[j].id@ != id by {
                if j > 0 {
                    assert(d[j - 1] == inputs[j]);
                }
            }
        }
    }
}

/// What fetching one input's value yields, before any type shaping.
pub enum InputOutcome {
    /// The guard is unsatisfied, or the input is optional and absent:
    /// the rule or attribute is skipped.
    Skip,
    /// The input is required, visible and absent: a hard error.
    Missing,
    /// The submitted value.
    Val(SpecJson),
}

/// The outcome of fetching the input declared by `schema` from the raw
/// input document, exactly as the resolution algorithm reads it.
pub open spec fn input_outcome(schema: UiSchemaInput, inputs: SpecJson) -> InputOutcome {
    if !guard_sat(schema.guard, inputs) {
        InputOutcome::Skip
    } else {
        match doc_get(inputs, schema.id@) {
            Some(v) => InputOutcome::Val(v),
            None => {
                if schema.required {
                    InputOutcome::Missing
                } else {
                    InputOutcome::Skip
                }
            },
        }
    }
}

/// Look up a declared input by id; an undeclared id is a fatal
/// `MissingInputSchema`.
pub fn get_input_schema<'a, E>(input_schema: &'a Vec<UiSchemaInput>, id: &String) -> (r: Result<
    &'a UiSchemaInput,
    UiSchemaInputError<E>,
>)
    ensures
        match r {
            Ok(s) => {
                &&& 0 <= find_input_idx(input_schema@, id@) < input_schema@.len()
                &&& *s == input_schema@[find_input_idx(input_schema@, id@)]
                &&& s.id@ == id@
            },
            Err(e) => {
                &&& find_input_idx(input_schema@, id@) == -1
                &&& (e matches UiSchemaInputError::MissingInputSchema(m) && m@ == id@)
            },
        },
{
    proof {
        lemma_find_input_idx(input_schema@, id@);
    }
    let n = input_schema.len();
    let mut i: usize = 0;
    while i < n
        invariant
            i <= n,
            n == input_schema@.len(),
            forall|l: int| 0 <= l < i ==> input_schema@[l].id@ != id@,
            has_input(input_schema@, id@) <==> 0 <= find_input_idx(input_schema@, id@) < n,
            !has_input(input_schema@, id@) ==> find_input_idx(input_schema@, id@) == -1,
            has_input(input_schema@, id@) ==> input_schema@[find_input_idx(
                input_schema@,
                id@,
            )].id@ == id@,
            forall|j: int| 0 <= j < find_input_idx(input_schema@, id@)
                ==> input_schema@[j].id@ != id@,
        decreases n - i,
    {
        if input_schema[i].id.eq(id) {
            proof {
                assert(input_schema@[i as int].id@ == id@);
                assert(has_input(input_schema@, id@));
                let x = find_input_idx(input_schema@, id@);
                assert(input_schema@[x].id@ == id@);
                assert(x == i as int);
            }
            return Ok(&input_schema[i]);
        }
        i = i + 1;
    }
    assert(!has_input(input_schema@, id@));
    Err(UiSchemaInputError::MissingInputSchema(id.clone()))
}

/// Fetch the input's submitted value, under its guard and required
/// policy: a hidden input is skipped whatever `required` says; a
/// visible absent one is skipped when optional and an error when
/// required.
pub fn get_input<E>(schema: &UiSchemaInput, inputs: &JsonValue) -> (r: Result<
    JsonValue,
    UiSchemaInputError<E>,
>)
    ensures
        match r {
            Ok(v) => input_outcome(*schema, inputs@) == InputOutcome::Val(v@),
            Err(e) => match e {
                UiSchemaInputError::OptionalInputMissing(m) => m@ == schema.id@ && input_outcome(
                    *schema,
                    inputs@,
                ) == InputOutcome::Skip,
                UiSchemaInputError::MissingInputValue(m) => m@ == schema.id@ && input_outcome(
                    *schema,
                    inputs@,
                ) == InputOutcome::Missing,
                _ => false,
            },
        },
{
    if !eval_guard(&schema.guard, inputs) {
        return Err(UiSchemaInputError::OptionalInputMissing(schema.id.clone()));
    }
    match json_obj_get(inputs, &schema.id) {
        Some(v) => Ok(v.clone()),
        None => {
            if schema.required {
                Err(UiSchemaInputError::MissingInputValue(schema.id.clone()))
            } else {
                Err(UiSchemaInputError::OptionalInputMissing(schema.id.clone()))
            }
        },
    }
}

} // verus!
