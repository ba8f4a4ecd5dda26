//! Declared resource types of a chart extension: named entities with
//! their own values UI and lifecycle actions.

use vstd::prelude::*;

use crate::actions::ChartExtActionTarget;
use crate::actions::ChartExtActionUserDeploymentRole;
use crate::ui_schema::UiSchemaV0;
use crate::versions::ChartExtKindResourceType;
use crate::versions::ChartExtVersionV1Beta1;

verus! {

/// Who may run a lifecycle action, and against what target.
#[derive(Clone, Debug)]
pub struct ChartExtResourceLifecycleActionV1Beta1 {
    pub allowed_role: Option<ChartExtActionUserDeploymentRole>,
    pub target: Option<ChartExtActionTarget>,
}

impl Default for ChartExtResourceLifecycleActionV1Beta1 {
    fn default() -> (r: Self)
        ensures
            r.allowed_role is None,
            r.target is None,
    {
        ChartExtResourceLifecycleActionV1Beta1 { allowed_role: None, target: None }
    }
}

/// The lifecycle hooks of a resource type.
#[derive(Clone, Debug)]
pub struct ChartExtResourceLifecycleV1Beta1 {
    pub create: Option<ChartExtResourceLifecycleActionV1Beta1>,
    pub update: Option<ChartExtResourceLifecycleActionV1Beta1>,
    pub delete: Option<ChartExtResourceLifecycleActionV1Beta1>,
}

impl Default for ChartExtResourceLifecycleV1Beta1 {
    fn default() -> (r: Self)
        ensures
            r.create is None,
            r.update is None,
            r.delete is None,
    {
        ChartExtResourceLifecycleV1Beta1 { create: None, update: None, delete: None }
    }
}

/// What one resource type declares.
#[derive(Clone, Debug)]
pub struct ChartExtResourceTypeV1Beta1Spec {
    pub name_singular: String,
    pub name_plural: String,
    pub fontawesome_icon: String,
    pub global: bool,
    pub values_ui: UiSchemaV0,
    pub lifecycle: ChartExtResourceLifecycleV1Beta1,
}

/// One enveloped resource type.
#[derive(Clone, Debug)]
pub struct ChartExtResourceTypeV1Beta1 {
    pub api_version: ChartExtVersionV1Beta1,
    pub kind: ChartExtKindResourceType,
    pub key: String,
    pub spec: ChartExtResourceTypeV1Beta1Spec,
}

/// A resource type in any of its versioned forms.
#[derive(Clone, Debug)]
pub enum ChartExtResourceType {
    V1Beta1(ChartExtResourceTypeV1Beta1),
}

/// The declared resource types.
#[derive(Clone, Debug)]
pub struct ChartExtResourceTypes(pub Vec<ChartExtResourceType>);

impl Default for ChartExtResourceTypes {
    fn default() -> (r: Self)
        ensures
            r.0@.len() == 0,
    {
        ChartExtResourceTypes(Vec::new())
    }
}

} // verus!
