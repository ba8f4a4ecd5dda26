//! The version and kind markers of the chart extension file formats:
//! each is a closed one-value tag that a versioned envelope carries.

use vstd::prelude::*;

verus! {

/// The `v2` marker of a Helm chart file.
#[derive(Debug, Clone, Copy, PartialEq, Eq, Structural)]
pub enum HelmChartV2 {
    Value,
}

impl Default for HelmChartV2 {
    fn default() -> (r: Self)
        ensures
            r == HelmChartV2::Value,
    {
        HelmChartV2::Value
    }
}

/// The `platz.io/v1beta1` api version marker.
#[derive(Debug, Clone, Copy, PartialEq, Eq, Structural)]
pub enum ChartExtVersionV1Beta1 {
    Value,
}

impl Default for ChartExtVersionV1Beta1 {
    fn default() -> (r: Self)
        ensures
            r == ChartExtVersionV1Beta1::Value,
    {
        ChartExtVersionV1Beta1::Value
    }
}

/// The `platz.io/v1beta2` api version marker.
#[derive(Debug, Clone, Copy, PartialEq, Eq, Structural)]
pub enum ChartExtVersionV1Beta2 {
    Value,
}

impl Default for ChartExtVersionV1Beta2 {
    fn default() -> (r: Self)
        ensures
            r == ChartExtVersionV1Beta2::Value,
    {
        ChartExtVersionV1Beta2::Value
    }
}

/// The `ValuesUi` kind marker.
#[derive(Debug, Clone, Copy, PartialEq, Eq, Structural)]
pub enum ChartExtKindValuesUi {
    Value,
}

impl Default for ChartExtKindValuesUi {
    fn default() -> (r: Self)
        ensures
            r == ChartExtKindValuesUi::Value,
    {
        ChartExtKindValuesUi::Value
    }
}

/// The `Action` kind marker.
#[derive(Debug, Clone, Copy, PartialEq, Eq, Structural)]
pub enum ChartExtKindAction {
    Value,
}

impl Default for ChartExtKindAction {
    fn default() -> (r: Self)
        ensures
            r == ChartExtKindAction::Value,
    {
        ChartExtKindAction::Value
    }
}

/// The `Features` kind marker.
#[derive(Debug, Clone, Copy, PartialEq, Eq, Structural)]
pub enum ChartExtKindFeatures {
    Value,
}

impl Default for ChartExtKindFeatures {
    fn default() -> (r: Self)
        ensures
            r == ChartExtKindFeatures::Value,
    {
        ChartExtKindFeatures::Value
    }
}

/// The `ResourceType` kind marker.
#[derive(Debug, Clone, Copy, PartialEq, Eq, Structural)]
pub enum ChartExtKindResourceType {
    Value,
}

impl Default for ChartExtKindResourceType {
    fn default() -> (r: Self)
        ensures
            r == ChartExtKindResourceType::Value,
    {
        ChartExtKindResourceType::Value
    }
}

} // verus!
