//! Declared actions of a chart extension: versioned envelopes around a
//! common action shape, lookup by id, and the body a UI schema builds
//! for an invocation.

use vstd::prelude::*;

use crate::collection::UiSchemaCollections;
use crate::error::UiSchemaInputError;
use crate::json::JsonValue;
use crate::json::SpecJson;
use crate::ui_schema::UiSchema;
use crate::ui_schema::all_values_live;
use crate::ui_schema::spec_insert_rules;
use crate::ui_schema::values_trace_ok;
use crate::versions::ChartExtKindAction;
use crate::versions::ChartExtVersionV1Beta1;

verus! {

/// Which deployment role may invoke an action.
#[derive(Clone, Copy, Debug, PartialEq, Eq, Structural)]
pub enum ChartExtActionUserDeploymentRole {
    Owner,
    Maintainer,
}

/// Where an action's HTTP endpoint lives.
#[derive(Clone, Copy, Debug, PartialEq, Eq, Structural)]
pub enum ChartExtActionEndpoint {
    StandardIngress,
}

/// The HTTP method of an action's endpoint.
#[derive(Clone, Copy, Debug, PartialEq, Eq, Structural)]
pub enum ChartExtActionMethod {
    Get,
    Post,
    Put,
    Patch,
    Delete,
}

/// The target of an action invocation: an endpoint, a path below it,
/// and a method.
#[derive(Clone, Debug)]
pub struct ChartExtActionTarget {
    pub endpoint: ChartExtActionEndpoint,
    pub path: String,
    pub method: ChartExtActionMethod,
}

/// One declared action.
#[derive(Clone, Debug)]
pub struct ChartExtActionV0 {
    pub id: String,
    pub allowed_role: ChartExtActionUserDeploymentRole,
    pub allowed_on_statuses: Vec<String>,
    pub target: ChartExtActionTarget,
    pub title: String,
    pub fontawesome_icon: Option<String>,
    pub description: String,
    pub dangerous: bool,
    pub ui_schema: Option<UiSchema>,
}

/// The bare action list form.
#[derive(Clone, Debug)]
pub struct ChartExtActionsV0 {
    pub schema_version: u64,
    pub actions: Vec<ChartExtActionV0>,
}

/// The enveloped action form.
#[derive(Clone, Debug)]
pub struct ChartExtActionV1Beta1 {
    pub api_version: ChartExtVersionV1Beta1,
    pub kind: ChartExtKindAction,
    pub spec: ChartExtActionV0,
}

/// The enveloped action list form.
#[derive(Clone, Debug)]
pub struct ChartExtActionsV1Beta1(pub Vec<ChartExtActionV1Beta1>);

/// The declared actions in any of their versioned forms.
#[derive(Clone, Debug)]
pub enum ChartExtActions {
    V1Beta1(ChartExtActionsV1Beta1),
    V0(ChartExtActionsV0),
}

/// Index of the first action with id `id`, or -1.
pub open spec fn find_action_idx(actions: Seq<ChartExtActionV0>, id: Seq<char>) -> int
    decreases actions.len(),
{
    if actions.len() == 0 {
        -1
    } else if actions[0].id@ == id {
        0
    } else {
        let r = find_action_idx(actions.drop_first(), id);
        if r == -1 {
            -1
        } else {
            r + 1
        }
    }
}

pub open spec fn has_action(actions: Seq<ChartExtActionV0>, id: Seq<char>) -> bool {
    exists|i: int| 0 <= i < actions.len() && actions[i].id@ == id
}

/// `find_action_idx` finds the first action with the id, if any.
pub proof fn lemma_find_action_idx(actions: Seq<ChartExtActionV0>, id: Seq<char>)
    ensures
        has_action(actions, id) <==> 0 <= find_action_idx(actions, id) < actions.len(),
        !has_action(actions, id) ==> find_action_idx(actions, id) == -1,
        has_action(actions, id) ==> actions[find_action_idx(actions, id)].id@ == id,
        forall|j: int| 0 <= j < find_action_idx(actions, id) ==> actions[j].id@ != id,
    decreases actions.len(),
{
    if actions.len() > 0 && actions[0].id@ != id {
        let d = actions.drop_first();
        lemma_find_action_idx(d, id);
        if has_action(actions, id) {
            let i = choose|i: int| 0 <= i < actions.len() && actions[i].id@ == id;
            assert(d[i - 1] == actions[i]);
            assert(has_action(d, id));
        }
        if has_action(d, id) {
            let i = choose|i: int| 0 <= i < d.len() && d[i].id@ == id;
            assert(actions[i + 1].id@ == id);
            assert(has_action(actions, id));
        }
        let r = find_action_idx(d, id);
        if r != -1 {
            assert(actions[r + 1] == d[r]);
            assert forall|j: int| 0 <= j < r + 1 implies actions[j].id@ != id by {
                if j > 0 {
                    assert(d[j - 1] == actions[j]);
                }
            }
        }
    }
}

/// Find the first action with the given id among `actions`.
fn find_in_actions<'a>(actions: &'a Vec<ChartExtActionV0>, action_id: &String) -> (r: Option<
    &'a ChartExtActionV0,
>)
    ensures
        match r {
            Some(a) => 0 <= find_action_idx(actions@, action_id@) < actions@.len() && *a
                == actions@[find_action_idx(actions@, action_id@)],
            None => find_action_idx(actions@, action_id@) == -1,
        },
{
    proof {
        lemma_find_action_idx(actions@, action_id@);
    }
    let n = actions.len();
    let mut i: usize = 0;
    while i < n
        invariant
            i <= n,
            n == actions@.len(),
            forall|l: int| 0 <= l < i ==> actions@[l].id@ != action_id@,
            has_action(actions@, action_id@) <==> 0 <= find_action_idx(actions@, action_id@) < n,
            !has_action(actions@, action_id@) ==> find_action_idx(actions@, action_id@) == -1,
            has_action(actions@, action_id@) ==> actions@[find_action_idx(
                actions@,
                action_id@,
            )].id@ == action_id@,
            forall|j: int| 0 <= j < find_action_idx(actions@, action_id@)
                ==> actions@[j].id@ != action_id@,
        decreases n - i,
    {
        if actions[i].id.eq(action_id) {
            proof {
                assert(actions@[i as int].id@ == action_id@);
                assert(has_action(actions@, action_id@));
                let x = find_action_idx(actions@, action_id@);
                assert(actions@[x].id@ == action_id@);
                assert(x == i as int);
            }
            return Some(&actions[i]);
        }
        i = i + 1;
    }
    assert(!has_action(actions@, action_id@));
    None
}

impl ChartExtActionsV0 {
    /// The first action with the given id, if declared.
    pub fn find<'a>(&'a self, action_id: &String) -> (r: Option<&'a ChartExtActionV0>)
        ensures
            match r {
                Some(a) => 0 <= find_action_idx(self.actions@, action_id@) < self.actions@.len()
                    && *a == self.actions@[find_action_idx(self.actions@, action_id@)],
                None => find_action_idx(self.actions@, action_id@) == -1,
            },
    {
        find_in_actions(&self.actions, action_id)
    }
}

impl ChartExtActionsV1Beta1 {
    /// The enveloped actions' common shapes, cloned out of their
    /// envelopes in declaration order.
    pub fn get_actions(&self) -> (r: Vec<ChartExtActionV0>)
        ensures
            r@.len() == self.0@.len(),
    {
        let mut out: Vec<ChartExtActionV0> = Vec::new();
        let n = self.0.len();
        let mut i: usize = 0;
        while i < n
            invariant
                i <= n,
                n == self.0@.len(),
                out@.len() == i,
            decreases n - i,
        {
            out.push(self.0[i].spec.clone());
            i = i + 1;
        }
        out
    }

    /// The first action with the given id, if declared.
    pub fn find<'a>(&'a self, action_id: &String) -> (r: Option<&'a ChartExtActionV0>)
        ensures
            match r {
                Some(a) => exists|i: int|
                    0 <= i < self.0@.len() && a.id@ == action_id@ && *a == self.0@[i].spec,
                None => forall|i: int| 0 <= i < self.0@.len() ==> self.0@[i].spec.id@ != action_id@,
            },
    {
        let n = self.0.len();
        let mut i: usize = 0;
        while i < n
            invariant
                i <= n,
                n == self.0@.len(),
                forall|l: int| 0 <= l < i ==> self.0@[l].spec.id@ != action_id@,
            decreases n - i,
        {
            if self.0[i].spec.id.eq(action_id) {
                return Some(&self.0[i].spec);
            }
            i = i + 1;
        }
        None
    }
}

impl ChartExtActions {
    /// The first action with the given id, whichever versioned form
    /// declares it.
    pub fn find<'a>(&'a self, action_id: &String) -> (r: Option<&'a ChartExtActionV0>)
        ensures
            (r matches Some(a) ==> a.id@ == action_id@),
            (self matches ChartExtActions::V0(v0) ==> match r {
                Some(a) => 0 <= find_action_idx(v0.actions@, action_id@) < v0.actions@.len() && *a
                    == v0.actions@[find_action_idx(v0.actions@, action_id@)],
                None => find_action_idx(v0.actions@, action_id@) == -1,
            }),
            (self matches ChartExtActions::V1Beta1(v1) ==> match r {
                Some(a) => exists|i: int| 0 <= i < v1.0@.len() && *a == v1.0@[i].spec,
                None => forall|i: int| 0 <= i < v1.0@.len() ==> v1.0@[i].spec.id@ != action_id@,
            }),
    {
        match self {
            ChartExtActions::V1Beta1(v1) => v1.find(action_id),
            ChartExtActions::V0(v0) => {
                let r = v0.find(action_id);
                proof {
                    lemma_find_action_idx(v0.actions@, action_id@);
                }
                r
            },
        }
    }
}

impl ChartExtActionV0 {
    /// The body of an invocation of this action: the raw inputs pass
    /// through unchanged when the action declares no UI schema, else the
    /// schema resolves them into a result document.
    pub fn generate_body<C: UiSchemaCollections>(
        &self,
        env_id: &uuid::Uuid,
        inputs: JsonValue,
    ) -> (r: Result<JsonValue, UiSchemaInputError<C::Error>>)
        ensures
            (self.ui_schema is None ==> (r matches Ok(v) && v == inputs)),
            (self.ui_schema matches Some(us) ==> match r {
                Ok(v) => exists|trace: Seq<Option<SpecJson>>|
                    values_trace_ok(us.spec_inputs()@, inputs@, us.spec_outputs().values@, trace)
                        && v@ == SpecJson::Obj(
                        spec_insert_rules(Seq::empty(), us.spec_outputs().values@, trace),
                    ),
                Err(e) => !(e is OptionalInputMissing) && !all_values_live(
                    us.spec_inputs()@,
                    inputs@,
                    us.spec_outputs().values@,
                ),
            }),
    {
        let us = match &self.ui_schema {
            None => {
                return Ok(inputs);
            },
            Some(us) => us,
        };
        match us.get_values::<C>(env_id, &inputs) {
            Ok(doc) => {
                let out = JsonValue::Obj(doc);
                Ok(out)
            },
            Err(e) => Err(e),
        }
    }
}

} // verus!
