//! The boolean-expression form of a visibility guard, evaluated over the
//! whole raw input document by the JsonLogic engine.

use vstd::prelude::*;

use crate::json::JsonValue;
use crate::json::SpecJson;
use crate::render::json_text;
use crate::render::to_json_text;

verus! {

/// Whether the JsonLogic rule written as `rule` evaluates to boolean
/// `true` over the data written as `data`; both are compact JSON texts.
pub uninterp spec fn json_logic_true(rule: Seq<char>, data: Seq<char>) -> bool;

/// Relies on `jsonlogic_rs::apply` (with `serde_json::from_str` reading
/// the two texts): true exactly when the rule text, read as JSON,
/// evaluates over the data text to JSON `true`; false on any other
/// outcome, an unreadable text included. The result is a function of the
/// two texts alone.
#[verifier::external_body]
fn json_logic_eval(rule: &String, data: &String) -> (r: bool)
    ensures
        r == json_logic_true(rule@, data@),
{
    let rv: serde_json::Value = match serde_json::from_str(rule) {
        Ok(v) => v,
        Err(_) => return false,
    };
    let dv: serde_json::Value = match serde_json::from_str(data) {
        Ok(v) => v,
        Err(_) => return false,
    };
    matches!(jsonlogic_rs::apply(&rv, &dv), Ok(serde_json::Value::Bool(true)))
}

/// The expression guard holds when the expression evaluates to `true`
/// over the raw inputs; any other outcome leaves it unsatisfied.
pub open spec fn expr_guard_sat(expr: SpecJson, inputs: SpecJson) -> bool {
    json_logic_true(json_text(expr), json_text(inputs))
}

/// Evaluate an expression guard against the raw input document.
pub fn eval_expr_guard(expr: &JsonValue, inputs: &JsonValue) -> (r: bool)
    ensures
        r == expr_guard_sat(expr@, inputs@),
{
    let rule_text = to_json_text(expr);
    let data_text = to_json_text(inputs);
    json_logic_eval(&rule_text, &data_text)
}

} // verus!
