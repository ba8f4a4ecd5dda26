use platz_chart_ext::ChartExtActionEndpoint;
use platz_chart_ext::ChartExtActionMethod;
use platz_chart_ext::ChartExtActionTarget;
use platz_chart_ext::ChartExtActionUserDeploymentRole;
use platz_chart_ext::ChartExtActionV0;
use platz_chart_ext::ChartExtActionV1Beta1;
use platz_chart_ext::ChartExtActions;
use platz_chart_ext::ChartExtActionsV0;
use platz_chart_ext::ChartExtActionsV1Beta1;
use platz_chart_ext::ChartExtCardinality;
use platz_chart_ext::ChartExtDeploymentDisplay;
use platz_chart_ext::ChartExtDeploymentDisplayIcon;
use platz_chart_ext::ChartExtDeploymentDisplayName;
use platz_chart_ext::ChartExtDeploymentDisplayNameInputField;
use platz_chart_ext::ChartExtFeatures;
use platz_chart_ext::ChartExtFeaturesSpec;
use platz_chart_ext::ChartExtFeaturesV0;
use platz_chart_ext::ChartExtFeaturesV1Beta2;
use platz_chart_ext::ChartExtIngress;
use platz_chart_ext::ChartExtIngressHostnameFormat;
use platz_chart_ext::ChartExtKindAction;
use platz_chart_ext::ChartExtKindFeatures;
use platz_chart_ext::ChartExtVersionV1Beta1;
use platz_chart_ext::ChartExtVersionV1Beta2;
use platz_chart_ext::JsonValue;
use platz_chart_ext::UiSchemaInputError;
use platz_chart_ext::UiSchemaCollections;
use uuid::Uuid;

fn s(x: &str) -> String {
    x.to_string()
}

struct NoDb;

impl UiSchemaCollections for NoDb {
    type Error = String;

    fn from_descriptor(_descriptor: &JsonValue) -> Option<Self> {
        None
    }

    fn resolve(
        &self,
        _env_id: &Uuid,
        _id: &str,
        _property: &str,
    ) -> Result<JsonValue, UiSchemaInputError<String>> {
        Err(UiSchemaInputError::CollectionsError(s("unreachable")))
    }
}

fn action(id: &str) -> ChartExtActionV0 {
    ChartExtActionV0 {
        id: s(id),
        allowed_role: ChartExtActionUserDeploymentRole::Owner,
        allowed_on_statuses: Vec::new(),
        target: ChartExtActionTarget {
            endpoint: ChartExtActionEndpoint::StandardIngress,
            path: s("/api"),
            method: ChartExtActionMethod::Post,
        },
        title: s(id),
        fontawesome_icon: None,
        description: s("an action"),
        dangerous: false,
        ui_schema: None,
    }
}

#[test]
fn test_actions_find_by_id() {
    let actions = ChartExtActions::V0(ChartExtActionsV0 {
        schema_version: 1,
        actions: vec![action("start"), action("stop")],
    });
    assert_eq!(actions.find(&s("stop")).unwrap().id, "stop");
    assert!(actions.find(&s("missing")).is_none());

    let wrapped = ChartExtActions::V1Beta1(ChartExtActionsV1Beta1(vec![ChartExtActionV1Beta1 {
        api_version: ChartExtVersionV1Beta1::Value,
        kind: ChartExtKindAction::Value,
        spec: action("restart"),
    }]));
    assert_eq!(wrapped.find(&s("restart")).unwrap().id, "restart");
    assert!(wrapped.find(&s("start")).is_none());
}

#[test]
fn test_actions_v1beta1_get_actions() {
    let list = ChartExtActionsV1Beta1(vec![
        ChartExtActionV1Beta1 {
            api_version: ChartExtVersionV1Beta1::Value,
            kind: ChartExtKindAction::Value,
            spec: action("one"),
        },
        ChartExtActionV1Beta1 {
            api_version: ChartExtVersionV1Beta1::Value,
            kind: ChartExtKindAction::Value,
            spec: action("two"),
        },
    ]);
    let actions = list.get_actions();
    assert_eq!(actions.len(), 2);
    assert_eq!(actions[0].id, "one");
    assert_eq!(actions[1].id, "two");
}

#[test]
fn test_generate_body_without_schema_passes_inputs_through() {
    let a = action("noop");
    let inputs = JsonValue::Obj(vec![(s("k"), JsonValue::Str(s("v")))]);
    let body = a.generate_body::<NoDb>(&Uuid::new_v4(), inputs.clone()).unwrap();
    assert_eq!(body, inputs);
}

fn v0_features(standard_ingress: bool) -> ChartExtFeatures {
    ChartExtFeatures::V0(ChartExtFeaturesV0 {
        standard_ingress,
        status: None,
        cardinality: ChartExtCardinality::Many,
        reinstall_dependencies: true,
        node_selector_paths: Vec::new(),
        tolerations_paths: Vec::new(),
    })
}

#[test]
fn test_features_v0_view() {
    let f = v0_features(true);
    assert!(f.ingress().enabled);
    assert!(matches!(f.ingress().hostname_format, ChartExtIngressHostnameFormat::KindAndName));
    assert!(f.status().is_none());
    assert!(matches!(f.cardinality(), ChartExtCardinality::Many));
    assert!(f.reinstall_dependencies());
    assert!(f.node_selector_paths().is_empty());
    assert!(f.tolerations_paths().is_empty());
    assert_eq!(f.display(), ChartExtDeploymentDisplay { name: None, icon: None });
}

#[test]
fn test_features_v1beta2_view() {
    let f = ChartExtFeatures::V1Beta2(ChartExtFeaturesV1Beta2 {
        api_version: ChartExtVersionV1Beta2::Value,
        kind: ChartExtKindFeatures::Value,
        spec: ChartExtFeaturesSpec {
            ingress: ChartExtIngress {
                enabled: false,
                hostname_format: ChartExtIngressHostnameFormat::Name,
            },
            status: None,
            cardinality: ChartExtCardinality::OnePerCluster,
            reinstall_dependencies: false,
            node_selector_paths: vec![vec![s("node")]],
            tolerations_paths: Vec::new(),
            display: ChartExtDeploymentDisplay {
                name: Some(ChartExtDeploymentDisplayName::InputField(
                    ChartExtDeploymentDisplayNameInputField { name: s("alias") },
                )),
                icon: Some(ChartExtDeploymentDisplayIcon { font_awesome: s("rocket") }),
            },
        },
    });
    assert!(!f.ingress().enabled);
    assert!(matches!(f.ingress().hostname_format, ChartExtIngressHostnameFormat::Name));
    assert!(matches!(f.cardinality(), ChartExtCardinality::OnePerCluster));
    assert!(!f.reinstall_dependencies());
    assert_eq!(f.node_selector_paths().len(), 1);
    assert_eq!(
        f.display(),
        ChartExtDeploymentDisplay {
            name: Some(ChartExtDeploymentDisplayName::InputField(
                ChartExtDeploymentDisplayNameInputField { name: s("alias") }
            )),
            icon: Some(ChartExtDeploymentDisplayIcon { font_awesome: s("rocket") }),
        }
    );
}

#[test]
fn test_features_default_is_newest_form() {
    let f = ChartExtFeatures::default();
    assert!(matches!(f, ChartExtFeatures::V1Beta2(_)));
    assert!(!f.ingress().enabled);
    assert!(f.reinstall_dependencies());
    assert_eq!(f.display(), ChartExtDeploymentDisplay { name: None, icon: None });
}

#[test]
fn test_version_markers_default() {
    assert!(matches!(platz_chart_ext::HelmChartV2::default(), platz_chart_ext::HelmChartV2::Value));
    assert!(matches!(ChartExtVersionV1Beta1::default(), ChartExtVersionV1Beta1::Value));
    assert!(matches!(ChartExtVersionV1Beta2::default(), ChartExtVersionV1Beta2::Value));
    assert!(matches!(
        platz_chart_ext::ChartExtKindValuesUi::default(),
        platz_chart_ext::ChartExtKindValuesUi::Value
    ));
    assert!(matches!(ChartExtKindAction::default(), ChartExtKindAction::Value));
    assert!(matches!(ChartExtKindFeatures::default(), ChartExtKindFeatures::Value));
    assert!(matches!(
        platz_chart_ext::ChartExtKindResourceType::default(),
        platz_chart_ext::ChartExtKindResourceType::Value
    ));
}

#[test]
fn test_optional_input_missing_signal() {
    let skip: UiSchemaInputError<String> = UiSchemaInputError::OptionalInputMissing(s("x"));
    assert!(skip.is_optional_input_missing());
    let hard: UiSchemaInputError<String> = UiSchemaInputError::MissingInputValue(s("x"));
    assert!(!hard.is_optional_input_missing());
}
