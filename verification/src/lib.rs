#![verifier::loop_isolation(false)]

pub mod actions;
pub mod collection;
pub mod error;
pub mod features;
pub mod guard;
pub mod input;
pub mod input_type;
pub mod json;
pub mod path;
pub mod render;
pub mod resolve;
pub mod resource_types;
pub mod ui_schema;
pub mod versions;

pub use actions::ChartExtActionEndpoint;
pub use actions::ChartExtActionMethod;
pub use actions::ChartExtActionTarget;
pub use actions::ChartExtActionUserDeploymentRole;
pub use actions::ChartExtActionV0;
pub use actions::ChartExtActionV1Beta1;
pub use actions::ChartExtActions;
pub use actions::ChartExtActionsV0;
pub use actions::ChartExtActionsV1Beta1;
pub use collection::UiSchemaCollections;
pub use error::UiSchemaInputError;
pub use features::ChartExtCardinality;
pub use features::ChartExtDeploymentDisplay;
pub use features::ChartExtDeploymentDisplayIcon;
pub use features::ChartExtDeploymentDisplayName;
pub use features::ChartExtDeploymentDisplayNameInputField;
pub use features::ChartExtFeatures;
pub use features::ChartExtFeaturesSpec;
pub use features::ChartExtFeaturesV0;
pub use features::ChartExtFeaturesV1Beta1;
pub use features::ChartExtFeaturesV1Beta2;
pub use features::ChartExtIngress;
pub use features::ChartExtIngressHostnameFormat;
pub use features::ChartExtStatusFeature;
pub use input::UiSchemaFieldValuePair;
pub use input::UiSchemaInput;
pub use input::UiSchemaInputFieldOption;
pub use input::UiSchemaInputFieldValue;
pub use input::UiSchemaInputGuard;
pub use input_type::SerializedUiSchemaInputType;
pub use input_type::UiSchemaInputSingleType;
pub use input_type::UiSchemaInputType;
pub use json::JsonValue;
pub use resolve::UiSchemaInputRef;
pub use resolve::UiSchemaInputRefField;
pub use resolve::UiSchemaInputRefProperty;
pub use resource_types::ChartExtResourceLifecycleActionV1Beta1;
pub use resource_types::ChartExtResourceLifecycleV1Beta1;
pub use resource_types::ChartExtResourceType;
pub use resource_types::ChartExtResourceTypeV1Beta1;
pub use resource_types::ChartExtResourceTypeV1Beta1Spec;
pub use resource_types::ChartExtResourceTypes;
pub use ui_schema::RenderedSecret;
pub use ui_schema::UiSchema;
pub use ui_schema::UiSchemaOutputSecrets;
pub use ui_schema::UiSchemaOutputValue;
pub use ui_schema::UiSchemaOutputs;
pub use ui_schema::UiSchemaV0;
pub use ui_schema::UiSchemaV1Beta1;
pub use versions::ChartExtKindAction;
pub use versions::ChartExtKindFeatures;
pub use versions::ChartExtKindResourceType;
pub use versions::ChartExtKindValuesUi;
pub use versions::ChartExtVersionV1Beta1;
pub use versions::ChartExtVersionV1Beta2;
pub use versions::HelmChartV2;
