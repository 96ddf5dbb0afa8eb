use anicca::diff::diff;
use anicca::diff::operations::OperationDiff;
use anicca::diff::parameters::ParametersDiff;
use anicca::diff::path_items::PathItemDiff;
use anicca::diff::paths::PathsDiff;
use anicca::diff::request_body::RequestBodyDiff;
use anicca::openapi::MediaType;
use anicca::openapi::OpenAPI;
use anicca::openapi::Operation;
use anicca::openapi::Parameter;
use anicca::openapi::ParameterData;
use anicca::openapi::ParameterSchemaOrContent;
use anicca::openapi::PathItem;
use anicca::openapi::ReferenceOr;
use anicca::openapi::RequestBody;
use anicca::openapi::Schema;

fn string_schema() -> Schema {
    let mut s = Schema::default();
    s.schema_type = Some("string".to_string());
    s
}

fn object_schema(props: Vec<(String, Schema)>) -> Schema {
    let mut s = Schema::default();
    s.schema_type = Some("object".to_string());
    s.properties = Some(props);
    s
}

fn json_body(schema: Schema) -> RequestBody {
    RequestBody {
        description: None,
        content: vec![("application/json".to_string(), MediaType {
            schema: Some(ReferenceOr::Item(schema)),
        })],
        required: None,
        extensions: Vec::new(),
    }
}

#[test]
fn mod_openapi_version_change() {
    let mut base = OpenAPI::default();
    base.openapi = String::from("3.0.0");
    let mut head = OpenAPI::default();
    head.openapi = String::from("4.0.0");

    let result = diff(base, head);
    let diff = result.expect("Failed to diff");

    let version_change = diff.version.unwrap();

    assert_eq!("3.0.0", version_change.from);
    assert_eq!("4.0.0", version_change.to);
}

#[test]
fn version_change_leaves_other_fields_absent() {
    let mut base = OpenAPI::default();
    base.openapi = String::from("3.0.0");
    base.paths.push(("/pets".to_string(), ReferenceOr::Item(PathItem::default())));
    let mut head = OpenAPI::default();
    head.openapi = String::from("3.1.0");
    head.paths.push(("/pets".to_string(), ReferenceOr::Item(PathItem::default())));

    let d = diff(base, head).expect("Failed to diff");

    let version_change = d.version.unwrap();
    assert_eq!("3.0.0", version_change.from);
    assert_eq!("3.1.0", version_change.to);
    assert!(d.paths.is_none());
    assert!(d.info.is_none());
    assert!(d.servers.is_none());
}

#[test]
fn reflexive_diff_reports_nothing() {
    let doc = || {
        let mut d = OpenAPI::default();
        d.openapi = String::from("3.0.0");
        d.info.title = String::from("Pet store");
        let mut op = Operation::default();
        op.operation_id = Some("pets/list".to_string());
        op.tags.push("Pets".to_string());
        let mut pi = PathItem::default();
        pi.get = Some(op);
        d.paths.push(("/pets".to_string(), ReferenceOr::Item(pi)));
        d
    };

    let r = diff(doc(), doc()).expect("Failed to diff");

    assert!(r.version.is_none());
    assert!(r.paths.is_none());
    assert!(r.info.is_none());
    assert!(r.servers.is_none());
    assert!(!r.has_changes());
}

#[test]
fn added_paths_mirror_removed_paths() {
    let base = || {
        let mut d = OpenAPI::default();
        d.openapi = String::from("3.0.0");
        d.paths.push(("/cats".to_string(), ReferenceOr::Item(PathItem::default())));
        d
    };
    let head = || {
        let mut d = OpenAPI::default();
        d.openapi = String::from("3.0.0");
        d.paths.push(("/dogs".to_string(), ReferenceOr::Item(PathItem::default())));
        d
    };

    let forward = diff(base(), head()).expect("Failed to diff");
    let backward = diff(head(), base()).expect("Failed to diff");

    let fwd_paths = forward.paths.unwrap();
    let bwd_paths = backward.paths.unwrap();
    let added: Vec<&String> = fwd_paths.added.iter().map(|e| &e.0).collect();
    let removed: Vec<&String> = bwd_paths.removed.iter().map(|e| &e.0).collect();
    assert_eq!(added, removed);
    assert_eq!(added, vec!["/dogs"]);
}

#[test]
fn operation_id_rename_is_one_change() {
    let doc = |op_id: &str| {
        let mut d = OpenAPI::default();
        d.openapi = String::from("3.0.0");
        let mut op = Operation::default();
        op.operation_id = Some(op_id.to_string());
        let mut pi = PathItem::default();
        pi.get = Some(op);
        d.paths.push(("/pets".to_string(), ReferenceOr::Item(pi)));
        d
    };

    let r = diff(doc("listPets"), doc("list_pets")).expect("Failed to diff");

    let paths = r.paths.unwrap();
    assert_eq!(paths.added.len(), 0);
    assert_eq!(paths.removed.len(), 0);
    assert_eq!(paths.changed.len(), 1);
    assert_eq!(paths.changed[0].0, "/pets");

    let pi_diff = &paths.changed[0].1;
    assert_eq!(pi_diff.operations_added.len(), 0);
    assert_eq!(pi_diff.operations_removed.len(), 0);
    assert_eq!(pi_diff.operations_changed.len(), 1);
    assert_eq!(pi_diff.operations_changed[0].0, "get");

    let op_diff = &pi_diff.operations_changed[0].1;
    let id_change = op_diff.operation_id.as_ref().unwrap();
    assert_eq!(id_change.from, Some("listPets".to_string()));
    assert_eq!(id_change.to, Some("list_pets".to_string()));
}

#[test]
fn operation_id_changed_from_none_to_some() {
    let base_operation = Operation::default();
    let mut head_operation = Operation::default();
    head_operation.operation_id = Some("cats/create".into());

    let diff = OperationDiff::from_operations(base_operation, head_operation)
        .expect("Failed to diff operations");
    let op_id_diff = diff.operation_id.unwrap();

    assert_eq!(op_id_diff.from, None);
    assert_eq!(op_id_diff.to, Some("cats/create".into()));
}

#[test]
fn operation_id_changed_from_some_to_some() {
    let mut base_operation = Operation::default();
    base_operation.operation_id = Some("cats-create".into());
    let mut head_operation = Operation::default();
    head_operation.operation_id = Some("cats/create".into());

    let diff = OperationDiff::from_operations(base_operation, head_operation)
        .expect("Failed to diff operations");
    let op_id_diff = diff.operation_id.unwrap();

    assert_eq!(op_id_diff.from, Some("cats-create".into()));
    assert_eq!(op_id_diff.to, Some("cats/create".into()));
}

#[test]
fn summary_changed_from_none_to_some() {
    let base_operation = Operation::default();
    let mut head_operation = Operation::default();
    head_operation.summary = Some("Creates a feline.".into());

    let diff = OperationDiff::from_operations(base_operation, head_operation)
        .expect("Failed to diff operations");
    let summary_diff = diff.summary.unwrap();

    assert_eq!(summary_diff.from, None);
    assert_eq!(summary_diff.to, Some("Creates a feline.".into()));
}

#[test]
fn summary_changed_from_some_to_some() {
    let mut base_operation = Operation::default();
    base_operation.summary = Some("Creates a cat.".into());
    let mut head_operation = Operation::default();
    head_operation.summary = Some("Creates a feline.".into());

    let diff = OperationDiff::from_operations(base_operation, head_operation)
        .expect("Failed to diff operations");
    let summary_diff = diff.summary.unwrap();

    assert_eq!(summary_diff.from, Some("Creates a cat.".into()));
    assert_eq!(summary_diff.to, Some("Creates a feline.".into()));
}

#[test]
fn description_changed_from_none_to_some() {
    let base_operation = Operation::default();
    let mut head_operation = Operation::default();
    head_operation.description = Some("Creates a feline.".into());

    let diff = OperationDiff::from_operations(base_operation, head_operation)
        .expect("Failed to diff operations");
    let description_diff = diff.description.unwrap();

    assert_eq!(description_diff.from, None);
    assert_eq!(description_diff.to, Some("Creates a feline.".into()));
}

#[test]
fn description_changed_from_some_to_some() {
    let mut base_operation = Operation::default();
    base_operation.description = Some("Creates a cat.".into());
    let mut head_operation = Operation::default();
    head_operation.description = Some("Creates a feline.".into());

    let diff = OperationDiff::from_operations(base_operation, head_operation)
        .expect("Failed to diff operations");
    let description_diff = diff.description.unwrap();

    assert_eq!(description_diff.from, Some("Creates a cat.".into()));
    assert_eq!(description_diff.to, Some("Creates a feline.".into()));
}

#[test]
fn operation_tags_added() {
    let mut base_operation = Operation::default();
    base_operation.tags.push("Cats".into());
    base_operation.tags.push("Dogs".into());

    let mut head_operation = Operation::default();
    head_operation.tags.push("Cats".into());
    head_operation.tags.push("Fish".into());

    let diff = OperationDiff::from_operations(base_operation, head_operation)
        .expect("Failed to diff operations");

    assert_eq!(vec!["Fish"], diff.tags.added);
    assert_eq!(vec!["Dogs"], diff.tags.removed);
}

fn query_parameter(name: &str) -> Parameter {
    Parameter::Query {
        parameter_data: ParameterData {
            name: String::from(name),
            description: Some(String::from(name)),
            required: true,
            format: ParameterSchemaOrContent::Schema(ReferenceOr::Item(string_schema())),
        },
        allow_reserved: false,
        allow_empty_value: None,
    }
}

#[test]
fn added_parameter() {
    let base_operation = Operation::default();
    let mut head_operation = Operation::default();
    head_operation.parameters.push(ReferenceOr::Item(query_parameter("myParam")));

    let diff = ParametersDiff::from_params(base_operation.parameters, head_operation.parameters)
        .expect("Failed to diff parameters");

    assert_eq!(diff.added.len(), 1);
    assert_eq!(diff.removed.len(), 0);

    match &diff.added[0] {
        ReferenceOr::Item(p) => match p {
            Parameter::Query { parameter_data, .. } => {
                assert_eq!(parameter_data.name, "myParam")
            },
            _ => {
                panic!("Unexpected parameter type")
            },
        },
        _ => {
            panic!("Unexpected parameter type")
        },
    }
}

#[test]
fn removed_parameter() {
    let mut base_operation = Operation::default();
    let head_operation = Operation::default();
    base_operation.parameters.push(ReferenceOr::Item(query_parameter("myParam")));

    let diff = ParametersDiff::from_params(base_operation.parameters, head_operation.parameters)
        .expect("Failed to diff parameters");

    assert_eq!(diff.added.len(), 0);
    assert_eq!(diff.removed.len(), 1);

    match &diff.removed[0] {
        ReferenceOr::Item(p) => match p {
            Parameter::Query { parameter_data, .. } => {
                assert_eq!(parameter_data.name, "myParam")
            },
            _ => {
                panic!("Unexpected parameter type")
            },
        },
        _ => {
            panic!("Unexpected parameter type")
        },
    }
}

#[test]
fn path_items_operations_removed() {
    let mut path_item = PathItem::default();
    let mut operation = Operation::default();
    operation.operation_id = Some("cats/get".into());
    path_item.get = Some(operation);

    let base = ReferenceOr::Item(path_item);
    let head = ReferenceOr::Item(PathItem::default());

    let diff = PathItemDiff::from_path_items(base, head).expect("Failed to diff paths");

    assert_eq!(diff.operations_removed.len(), 1);
    let removed_op = &diff.operations_removed[0];

    assert_eq!(removed_op.0, "get");
    assert_eq!(removed_op.1.operation_id, Some("cats/get".into()));
}

#[test]
fn path_items_operations_added() {
    let mut path_item = PathItem::default();
    let mut operation = Operation::default();
    operation.operation_id = Some("cats/get".into());
    path_item.get = Some(operation);

    let base = ReferenceOr::Item(PathItem::default());
    let head = ReferenceOr::Item(path_item);

    let diff = PathItemDiff::from_path_items(base, head).expect("Failed to diff paths");

    assert_eq!(diff.operations_removed.len(), 0);
    assert_eq!(diff.operations_added.len(), 1);
    let added_op = &diff.operations_added[0];

    assert_eq!(added_op.0, "get");
    assert_eq!(added_op.1.operation_id, Some("cats/get".into()));
}

#[test]
fn paths_path_added() {
    let base = Vec::new();
    let mut head = Vec::new();
    head.push(("/cats".to_string(), ReferenceOr::Item(PathItem::default())));

    let diff = PathsDiff::from_paths(base, head).expect("Failed to diff paths");

    assert_eq!(diff.added.len(), 1);
    assert_eq!(diff.added[0].0, "/cats");
}

#[test]
fn paths_path_removed() {
    let mut base = Vec::new();
    base.push(("/cats".to_string(), ReferenceOr::Item(PathItem::default())));
    let head = Vec::new();

    let diff = PathsDiff::from_paths(base, head).expect("Failed to diff paths");

    assert_eq!(diff.added.len(), 0);
    assert_eq!(diff.removed.len(), 1);
    assert_eq!(diff.removed[0].0, "/cats");
}

#[test]
fn property_removed() {
    let base_body = json_body(object_schema(vec![
        ("name".to_string(), string_schema()),
        ("age".to_string(), string_schema()),
    ]));
    let head_body = json_body(object_schema(vec![("name".to_string(), string_schema())]));

    let diff = RequestBodyDiff::from_request_bodies(
        Some(ReferenceOr::Item(base_body)),
        Some(ReferenceOr::Item(head_body)),
    )
    .expect("Failed to diff request bodies");

    assert!(diff.has_changes());
    assert!(!diff.content_changed.unwrap().changed.is_empty());
}

#[test]
fn referenced_path_item_is_unsupported() {
    let mut base = OpenAPI::default();
    base.openapi = String::from("3.0.0");
    base.paths.push((
        "/pets".to_string(),
        ReferenceOr::Reference { reference: "./pets.json".to_string() },
    ));
    let mut head = OpenAPI::default();
    head.openapi = String::from("3.0.0");
    head.paths.push((
        "/pets".to_string(),
        ReferenceOr::Reference { reference: "./pets.json".to_string() },
    ));

    let err = diff(base, head).unwrap_err();
    let message = err.message();
    assert!(message.starts_with("Unsupported feature: "));
    assert!(message.contains("./pets.json"));
}

#[test]
fn matched_referenced_parameters_are_unsupported() {
    let mut base_operation = Operation::default();
    base_operation.parameters.push(ReferenceOr::Reference {
        reference: "#/components/parameters/p".to_string(),
    });
    let mut head_operation = Operation::default();
    head_operation.parameters.push(ReferenceOr::Reference {
        reference: "#/components/parameters/p".to_string(),
    });

    let result = ParametersDiff::from_params(base_operation.parameters, head_operation.parameters);
    assert!(result.is_err());
}

#[test]
fn differently_referenced_parameters_are_added_and_removed() {
    let base_params = vec![ReferenceOr::<Parameter>::Reference {
        reference: "#/components/parameters/a".to_string(),
    }];
    let head_params = vec![ReferenceOr::<Parameter>::Reference {
        reference: "#/components/parameters/b".to_string(),
    }];

    let diff = ParametersDiff::from_params(base_params, head_params)
        .expect("Failed to diff parameters");
    assert_eq!(diff.removed.len(), 1);
    assert_eq!(diff.added.len(), 1);
    assert_eq!(diff.changed.len(), 0);
}

#[test]
fn content_parameter_is_unsupported() {
    let content_param = Parameter::Header {
        parameter_data: ParameterData {
            name: "X-Token".to_string(),
            description: None,
            required: false,
            format: ParameterSchemaOrContent::Content(Vec::new()),
        },
    };
    let base_params = vec![ReferenceOr::Item(content_param)];
    let head_params = vec![ReferenceOr::Item(Parameter::Header {
        parameter_data: ParameterData {
            name: "X-Token".to_string(),
            description: None,
            required: false,
            format: ParameterSchemaOrContent::Content(Vec::new()),
        },
    })];

    let result = ParametersDiff::from_params(base_params, head_params);
    assert!(result.is_err());
}

#[test]
fn request_body_added_and_removed() {
    let body = || Some(ReferenceOr::Item(json_body(string_schema())));

    let added = RequestBodyDiff::from_request_bodies(None, body()).unwrap();
    assert!(added.added.is_some());
    assert!(added.removed.is_none());
    assert!(added.has_changes());

    let removed = RequestBodyDiff::from_request_bodies(body(), None).unwrap();
    assert!(removed.removed.is_some());
    assert!(removed.added.is_none());
    assert!(removed.has_changes());

    let unchanged = RequestBodyDiff::from_request_bodies(body(), body()).unwrap();
    assert!(!unchanged.has_changes());
}
