//! Declared deployment features of a chart extension, in their
//! versioned forms, and the version-independent view over them.

use vstd::prelude::*;

use crate::actions::ChartExtActionEndpoint;
use crate::versions::ChartExtKindFeatures;
use crate::versions::ChartExtVersionV1Beta1;
use crate::versions::ChartExtVersionV1Beta2;

verus! {

/// A status endpoint polled and shown on the deployment page.
#[derive(Clone, Debug)]
pub struct ChartExtStatusFeature {
    pub endpoint: ChartExtActionEndpoint,
    pub path: String,
    pub refresh_interval_secs: u64,
}

/// How many deployments of the chart a cluster may hold.
#[derive(Clone, Copy, Debug, PartialEq, Eq, Structural)]
pub enum ChartExtCardinality {
    Many,
    OnePerCluster,
}

impl Default for ChartExtCardinality {
    fn default() -> (r: Self)
        ensures
            r == ChartExtCardinality::Many,
    {
        ChartExtCardinality::Many
    }
}

/// The default of the reinstall flag: dependent deployments are
/// reinstalled unless the chart opts out.
pub fn yes() -> (r: bool)
    ensures
        r,
{
    true
}

/// The bare features form.
#[derive(Clone, Debug)]
pub struct ChartExtFeaturesV0 {
    pub standard_ingress: bool,
    pub status: Option<ChartExtStatusFeature>,
    pub cardinality: ChartExtCardinality,
    pub reinstall_dependencies: bool,
    pub node_selector_paths: Vec<Vec<String>>,
    pub tolerations_paths: Vec<Vec<String>>,
}

/// The enveloped features form.
#[derive(Clone, Debug)]
pub struct ChartExtFeaturesV1Beta1 {
    pub api_version: ChartExtVersionV1Beta1,
    pub kind: ChartExtKindFeatures,
    pub spec: ChartExtFeaturesV0,
}

/// How an ingress hostname is formed.
#[derive(Clone, Copy, Debug, PartialEq, Eq, Structural)]
pub enum ChartExtIngressHostnameFormat {
    KindAndName,
    Name,
}

impl Default for ChartExtIngressHostnameFormat {
    fn default() -> (r: Self)
        ensures
            r == ChartExtIngressHostnameFormat::KindAndName,
    {
        ChartExtIngressHostnameFormat::KindAndName
    }
}

/// The ingress feature: whether an ingress section is injected, and how
/// its hostname is formed.
#[derive(Clone, Copy, Debug, PartialEq, Eq, Structural)]
pub struct ChartExtIngress {
    pub enabled: bool,
    pub hostname_format: ChartExtIngressHostnameFormat,
}

impl Default for ChartExtIngress {
    fn default() -> (r: Self)
        ensures
            r == (ChartExtIngress {
                enabled: false,
                hostname_format: ChartExtIngressHostnameFormat::KindAndName,
            }),
    {
        ChartExtIngress { enabled: false, hostname_format: ChartExtIngressHostnameFormat::KindAndName }
    }
}

/// A deployment display name drawn from an input field.
#[derive(Clone, Debug, PartialEq, Eq)]
pub struct ChartExtDeploymentDisplayNameInputField {
    pub name: String,
}

/// Where a deployment's display name comes from.
#[derive(Clone, Debug, PartialEq, Eq)]
pub enum ChartExtDeploymentDisplayName {
    DeploymentName,
    InputField(ChartExtDeploymentDisplayNameInputField),
}

/// The icon shown for a deployment.
#[derive(Clone, Debug, PartialEq, Eq)]
pub struct ChartExtDeploymentDisplayIcon {
    pub font_awesome: String,
}

/// How a deployment is displayed.
#[derive(Clone, Debug, PartialEq, Eq)]
pub struct ChartExtDeploymentDisplay {
    pub name: Option<ChartExtDeploymentDisplayName>,
    pub icon: Option<ChartExtDeploymentDisplayIcon>,
}

impl Default for ChartExtDeploymentDisplay {
    fn default() -> (r: Self)
        ensures
            r == (ChartExtDeploymentDisplay { name: None, icon: None }),
    {
        ChartExtDeploymentDisplay { name: None, icon: None }
    }
}

/// The newest features shape.
#[derive(Clone, Debug)]
pub struct ChartExtFeaturesSpec {
    pub ingress: ChartExtIngress,
    pub status: Option<ChartExtStatusFeature>,
    pub cardinality: ChartExtCardinality,
    pub reinstall_dependencies: bool,
    pub node_selector_paths: Vec<Vec<String>>,
    pub tolerations_paths: Vec<Vec<String>>,
    pub display: ChartExtDeploymentDisplay,
}

/// The enveloped newest features form.
#[derive(Clone, Debug)]
pub struct ChartExtFeaturesV1Beta2 {
    pub api_version: ChartExtVersionV1Beta2,
    pub kind: ChartExtKindFeatures,
    pub spec: ChartExtFeaturesSpec,
}

/// The declared features in any of their versioned forms.
#[derive(Clone, Debug)]
pub enum ChartExtFeatures {
    V1Beta2(ChartExtFeaturesV1Beta2),
    V1Beta1(ChartExtFeaturesV1Beta1),
    V0(ChartExtFeaturesV0),
}

/// Ghost model of a display name source.
pub enum SpecDisplayName {
    DeploymentName,
    InputField(Seq<char>),
}

/// Ghost model of a deployment display.
pub struct SpecDisplay {
    pub name: Option<SpecDisplayName>,
    pub icon: Option<Seq<char>>,
}

pub open spec fn view_display(d: ChartExtDeploymentDisplay) -> SpecDisplay {
    SpecDisplay {
        name: match d.name {
            None => None,
            Some(ChartExtDeploymentDisplayName::DeploymentName) => Some(
                SpecDisplayName::DeploymentName,
            ),
            Some(ChartExtDeploymentDisplayName::InputField(f)) => Some(
                SpecDisplayName::InputField(f.name@),
            ),
        },
        icon: match d.icon {
            None => None,
            Some(i) => Some(i.font_awesome@),
        },
    }
}

impl ChartExtFeatures {
    /// The ingress feature of each versioned form: the older forms carry
    /// only the flag, with the hostname format at its default.
    pub open spec fn spec_ingress(self) -> ChartExtIngress {
        match self {
            ChartExtFeatures::V1Beta2(f) => f.spec.ingress,
            ChartExtFeatures::V1Beta1(f) => ChartExtIngress {
                enabled: f.spec.standard_ingress,
                hostname_format: ChartExtIngressHostnameFormat::KindAndName,
            },
            ChartExtFeatures::V0(f) => ChartExtIngress {
                enabled: f.standard_ingress,
                hostname_format: ChartExtIngressHostnameFormat::KindAndName,
            },
        }
    }

    pub open spec fn spec_status(self) -> Option<ChartExtStatusFeature> {
        match self {
            ChartExtFeatures::V1Beta2(f) => f.spec.status,
            ChartExtFeatures::V1Beta1(f) => f.spec.status,
            ChartExtFeatures::V0(f) => f.status,
        }
    }

    pub open spec fn spec_cardinality(self) -> ChartExtCardinality {
        match self {
            ChartExtFeatures::V1Beta2(f) => f.spec.cardinality,
            ChartExtFeatures::V1Beta1(f) => f.spec.cardinality,
            ChartExtFeatures::V0(f) => f.cardinality,
        }
    }

    pub open spec fn spec_reinstall_dependencies(self) -> bool {
        match self {
            ChartExtFeatures::V1Beta2(f) => f.spec.reinstall_dependencies,
            ChartExtFeatures::V1Beta1(f) => f.spec.reinstall_dependencies,
            ChartExtFeatures::V0(f) => f.reinstall_dependencies,
        }
    }

    pub open spec fn spec_node_selector_paths(self) -> Vec<Vec<String>> {
        match self {
            ChartExtFeatures::V1Beta2(f) => f.spec.node_selector_paths,
            ChartExtFeatures::V1Beta1(f) => f.spec.node_selector_paths,
            ChartExtFeatures::V0(f) => f.node_selector_paths,
        }
    }

    pub open spec fn spec_tolerations_paths(self) -> Vec<Vec<String>> {
        match self {
            ChartExtFeatures::V1Beta2(f) => f.spec.tolerations_paths,
            ChartExtFeatures::V1Beta1(f) => f.spec.tolerations_paths,
            ChartExtFeatures::V0(f) => f.tolerations_paths,
        }
    }

    /// The display settings: only the newest form carries any.
    pub open spec fn spec_display(self) -> ChartExtDeploymentDisplay {
        match self {
            ChartExtFeatures::V1Beta2(f) => f.spec.display,
            ChartExtFeatures::V1Beta1(_) => ChartExtDeploymentDisplay { name: None, icon: None },
            ChartExtFeatures::V0(_) => ChartExtDeploymentDisplay { name: None, icon: None },
        }
    }

    pub fn ingress(&self) -> (r: ChartExtIngress)
        ensures
            r == self.spec_ingress(),
    {
        match self {
            ChartExtFeatures::V1Beta2(f) => f.spec.ingress,
            ChartExtFeatures::V1Beta1(f) => ChartExtIngress {
                enabled: f.spec.standard_ingress,
                hostname_format: ChartExtIngressHostnameFormat::KindAndName,
            },
            ChartExtFeatures::V0(f) => ChartExtIngress {
                enabled: f.standard_ingress,
                hostname_format: ChartExtIngressHostnameFormat::KindAndName,
            },
        }
    }

    pub fn status(&self) -> (r: Option<&ChartExtStatusFeature>)
        ensures
            match r {
                Some(s) => self.spec_status() == Some(*s),
                None => self.spec_status() is None,
            },
    {
        match self {
            ChartExtFeatures::V1Beta2(f) => f.spec.status.as_ref(),
            ChartExtFeatures::V1Beta1(f) => f.spec.status.as_ref(),
            ChartExtFeatures::V0(f) => f.status.as_ref(),
        }
    }

    pub fn cardinality(&self) -> (r: &ChartExtCardinality)
        ensures
            *r == self.spec_cardinality(),
    {
        match self {
            ChartExtFeatures::V1Beta2(f) => &f.spec.cardinality,
            ChartExtFeatures::V1Beta1(f) => &f.spec.cardinality,
            ChartExtFeatures::V0(f) => &f.cardinality,
        }
    }

    pub fn reinstall_dependencies(&self) -> (r: bool)
        ensures
            r == self.spec_reinstall_dependencies(),
    {
        match self {
            ChartExtFeatures::V1Beta2(f) => f.spec.reinstall_dependencies,
            ChartExtFeatures::V1Beta1(f) => f.spec.reinstall_dependencies,
            ChartExtFeatures::V0(f) => f.reinstall_dependencies,
        }
    }

    pub fn node_selector_paths(&self) -> (r: &Vec<Vec<String>>)
        ensures
            *r == self.spec_node_selector_paths(),
    {
        match self {
            ChartExtFeatures::V1Beta2(f) => &f.spec.node_selector_paths,
            ChartExtFeatures::V1Beta1(f) => &f.spec.node_selector_paths,
            ChartExtFeatures::V0(f) => &f.node_selector_paths,
        }
    }

    pub fn tolerations_paths(&self) -> (r: &Vec<Vec<String>>)
        ensures
            *r == self.spec_tolerations_paths(),
    {
        match self {
            ChartExtFeatures::V1Beta2(f) => &f.spec.tolerations_paths,
            ChartExtFeatures::V1Beta1(f) => &f.spec.tolerations_paths,
            ChartExtFeatures::V0(f) => &f.tolerations_paths,
        }
    }

    pub fn display(&self) -> (r: ChartExtDeploymentDisplay)
        ensures
            view_display(r) == view_display(self.spec_display()),
    {
        match self {
            ChartExtFeatures::V1Beta2(f) => {
                let name: Option<ChartExtDeploymentDisplayName> = match &f.spec.display.name {
                    None => None,
                    Some(ChartExtDeploymentDisplayName::DeploymentName) => Some(
                        ChartExtDeploymentDisplayName::DeploymentName,
                    ),
                    Some(ChartExtDeploymentDisplayName::InputField(x)) => Some(
                        ChartExtDeploymentDisplayName::InputField(
                            ChartExtDeploymentDisplayNameInputField { name: x.name.clone() },
                        ),
                    ),
                };
                let icon: Option<ChartExtDeploymentDisplayIcon> = match &f.spec.display.icon {
                    None => None,
                    Some(i) => Some(
                        ChartExtDeploymentDisplayIcon { font_awesome: i.font_awesome.clone() },
                    ),
                };
                ChartExtDeploymentDisplay { name, icon }
            },
            ChartExtFeatures::V1Beta1(_) => ChartExtDeploymentDisplay { name: None, icon: None },
            ChartExtFeatures::V0(_) => ChartExtDeploymentDisplay { name: None, icon: None },
        }
    }
}

impl Default for ChartExtFeatures {
    /// The default features: the newest form with everything at its
    /// default.
    fn default() -> (r: Self)
        ensures
            r matches ChartExtFeatures::V1Beta2(f) && f.spec.ingress == (ChartExtIngress {
                enabled: false,
                hostname_format: ChartExtIngressHostnameFormat::KindAndName,
            }) && f.spec.status is None && f.spec.cardinality == ChartExtCardinality::Many
                && f.spec.reinstall_dependencies && f.spec.node_selector_paths@.len() == 0
                && f.spec.tolerations_paths@.len() == 0 && f.spec.display
                == (ChartExtDeploymentDisplay { name: None, icon: None }),
    {
        ChartExtFeatures::V1Beta2(
            ChartExtFeaturesV1Beta2 {
                api_version: ChartExtVersionV1Beta2::Value,
                kind: ChartExtKindFeatures::Value,
                spec: ChartExtFeaturesSpec {
                    ingress: ChartExtIngress {
                        enabled: false,
                        hostname_format: ChartExtIngressHostnameFormat::KindAndName,
                    },
                    status: None,
                    cardinality: ChartExtCardinality::Many,
                    reinstall_dependencies: yes(),
                    node_selector_paths: Vec::new(),
                    tolerations_paths: Vec::new(),
                    display: ChartExtDeploymentDisplay { name: None, icon: None },
                },
            },
        )
    }
}

} // verus!
