use anicca::diff::common::StringListDiff;
use anicca::diff::content::ContentDiff;
use anicca::diff::path_items::PathItemDiff;
use anicca::openapi::Operation;
use anicca::openapi::PathItem;
use anicca::diff::responses::ResponsesDiff;
use anicca::diff::schema::EnumDiff;
use anicca::diff::schema::SchemaDiff;
use anicca::diff::servers::ServersDiff;
use anicca::openapi::MediaType;
use anicca::openapi::ReferenceOr;
use anicca::openapi::Response;
use anicca::openapi::Responses;
use anicca::openapi::Schema;
use anicca::openapi::Server;

fn typed_schema(t: &str) -> Schema {
    let mut s = Schema::default();
    s.schema_type = Some(t.to_string());
    s
}

fn object_schema(props: Vec<(String, Schema)>) -> Schema {
    let mut s = Schema::default();
    s.schema_type = Some("object".to_string());
    s.properties = Some(props);
    s
}

#[test]
fn required_set_diff() {
    let base = vec!["id".to_string(), "name".to_string()];
    let head = vec!["name".to_string(), "age".to_string()];

    let diff = StringListDiff::from_lists(&base, &head);

    assert_eq!(diff.added, vec!["age"]);
    assert_eq!(diff.removed, vec!["id"]);
    assert!(diff.has_changes());
}

#[test]
fn required_change_in_schema() {
    let mut base = typed_schema("object");
    base.required = Some(vec!["id".to_string(), "name".to_string()]);
    let mut head = typed_schema("object");
    head.required = Some(vec!["name".to_string(), "age".to_string()]);

    let diff = SchemaDiff::from_items(base, head);
    let required = diff.required_changed.unwrap();
    assert_eq!(required.added, vec!["age"]);
    assert_eq!(required.removed, vec!["id"]);
}

#[test]
fn recursive_property_addition() {
    let base = object_schema(vec![("a".to_string(), typed_schema("string"))]);
    let head = object_schema(vec![
        ("a".to_string(), typed_schema("string")),
        ("b".to_string(), typed_schema("integer")),
    ]);

    let diff = SchemaDiff::from_items(base, head);
    let props = diff.properties_changed.unwrap();

    assert_eq!(props.added.len(), 1);
    assert_eq!(props.added[0].0, "b");
    assert_eq!(props.added[0].1.schema_type, Some("integer".to_string()));
    assert!(props.removed.is_empty());
    assert!(props.changed.is_empty());
}

#[test]
fn nested_scalar_change() {
    let base = object_schema(vec![("a".to_string(), typed_schema("string"))]);
    let head = object_schema(vec![("a".to_string(), typed_schema("integer"))]);

    let diff = SchemaDiff::from_items(base, head);
    let props = diff.properties_changed.unwrap();

    assert!(props.added.is_empty());
    assert!(props.removed.is_empty());
    assert_eq!(props.changed.len(), 1);
    assert_eq!(props.changed[0].0, "a");
    let type_change = props.changed[0].1.type_changed.as_ref().unwrap();
    assert_eq!(type_change.from, Some("string".to_string()));
    assert_eq!(type_change.to, Some("integer".to_string()));
}

#[test]
fn equal_schemas_report_no_change() {
    let make = || {
        let mut s = object_schema(vec![("a".to_string(), typed_schema("string"))]);
        s.required = Some(vec!["a".to_string()]);
        s.nullable = Some(false);
        s
    };
    let diff = SchemaDiff::from_items(make(), make());
    assert!(!diff.has_changes());
}

#[test]
fn nullable_defaults_to_false() {
    let mut base = typed_schema("string");
    base.nullable = Some(false);
    let head = typed_schema("string");

    let diff = SchemaDiff::from_items(base, head);
    assert!(diff.nullable_changed.is_none());

    let mut base2 = typed_schema("string");
    base2.nullable = Some(true);
    let head2 = typed_schema("string");
    let diff2 = SchemaDiff::from_items(base2, head2);
    let n = diff2.nullable_changed.unwrap();
    assert_eq!(n.from, true);
    assert_eq!(n.to, false);
}

#[test]
fn items_change_is_recursive() {
    let mut base = typed_schema("array");
    base.items = Some(Box::new(typed_schema("string")));
    let mut head = typed_schema("array");
    head.items = Some(Box::new(typed_schema("integer")));

    let diff = SchemaDiff::from_items(base, head);
    let items = diff.items_changed.unwrap();
    let type_change = items.type_changed.as_ref().unwrap();
    assert_eq!(type_change.from, Some("string".to_string()));
    assert_eq!(type_change.to, Some("integer".to_string()));
}

#[test]
fn enum_values_added_and_removed() {
    let mut base = typed_schema("string");
    base.enum_values = Some(vec![Some("cat".to_string()), Some("dog".to_string())]);
    let mut head = typed_schema("string");
    head.enum_values = Some(vec![Some("dog".to_string()), Some("fish".to_string()), None]);

    let diff = EnumDiff::from_schemas(&base, &head);

    assert!(!diff.added);
    assert!(!diff.removed);
    assert_eq!(diff.values_added, vec![Some("fish".to_string()), None]);
    assert_eq!(diff.values_removed, vec![Some("cat".to_string())]);
    assert!(diff.has_changes());
}

#[test]
fn enum_declaration_added_or_removed_wholesale() {
    let base = typed_schema("string");
    let mut head = typed_schema("string");
    head.enum_values = Some(vec![Some("cat".to_string())]);

    let added = EnumDiff::from_schemas(&base, &head);
    assert!(added.added);
    assert!(!added.removed);

    let removed = EnumDiff::from_schemas(&head, &base);
    assert!(removed.removed);
    assert!(!removed.added);
}

#[test]
fn referenced_schema_is_unsupported() {
    let base: ReferenceOr<Schema> = ReferenceOr::Reference {
        reference: "#/components/schemas/Pet".to_string(),
    };
    let head = ReferenceOr::Item(typed_schema("string"));

    let result = SchemaDiff::from_schemas(base, head);
    assert!(result.is_err());
    let message = result.unwrap_err().message();
    assert!(message.contains("#/components/schemas/Pet"));
}

#[test]
fn responses_added_removed_and_changed() {
    let response_with = |t: &str| {
        ReferenceOr::Item(Response {
            description: None,
            content: vec![("application/json".to_string(), MediaType {
                schema: Some(ReferenceOr::Item(typed_schema(t))),
            })],
            extensions: Vec::new(),
        })
    };
    let base = Responses {
        default: None,
        responses: vec![
            ("200".to_string(), response_with("string")),
            ("404".to_string(), response_with("string")),
        ],
    };
    let head = Responses {
        default: None,
        responses: vec![
            ("200".to_string(), response_with("integer")),
            ("500".to_string(), response_with("string")),
        ],
    };

    let diff = ResponsesDiff::from_responses(base, head).expect("Failed to diff responses");

    assert_eq!(diff.added.len(), 1);
    assert_eq!(diff.added[0].0, "500");
    assert_eq!(diff.removed.len(), 1);
    assert_eq!(diff.removed[0].0, "404");
    assert_eq!(diff.changed.len(), 1);
    assert_eq!(diff.changed[0].0, "200");
    assert!(diff.changed[0].1.content.is_some());
}

#[test]
fn servers_matched_by_url() {
    let server = |url: &str, desc: Option<&str>| Server {
        url: url.to_string(),
        description: desc.map(|d| d.to_string()),
        extensions: Vec::new(),
    };
    let base = vec![server("https://a.test", Some("old")), server("https://b.test", None)];
    let head = vec![server("https://a.test", Some("new")), server("https://c.test", None)];

    let diff = ServersDiff::from_servers(base, head);

    assert_eq!(diff.removed.len(), 1);
    assert_eq!(diff.removed[0].url, "https://b.test");
    assert_eq!(diff.added.len(), 1);
    assert_eq!(diff.added[0].url, "https://c.test");
    assert_eq!(diff.changed.len(), 1);
    assert_eq!(diff.changed[0].0, "https://a.test");
    let sd = &diff.changed[0].1;
    let desc = sd.description.as_ref().unwrap();
    assert_eq!(desc.from, Some("old".to_string()));
    assert_eq!(desc.to, Some("new".to_string()));
}

#[test]
fn schema_appearing_on_one_side_does_not_mark_media_type_changed() {
    let base = vec![("application/json".to_string(), MediaType { schema: None })];
    let head = vec![("application/json".to_string(), MediaType {
        schema: Some(ReferenceOr::Item(typed_schema("string"))),
    })];

    let diff = ContentDiff::from_content(base, head).expect("Failed to diff content");
    assert!(diff.added.is_empty());
    assert!(diff.removed.is_empty());
    assert!(diff.changed.is_empty());
    assert!(!diff.has_changes());
}

#[test]
fn operations_keep_canonical_method_order() {
    let base = PathItem::default();
    let mut head = PathItem::default();
    head.put = Some(Operation::default());
    head.get = Some(Operation::default());
    head.trace = Some(Operation::default());

    let diff = PathItemDiff::from_path_items(ReferenceOr::Item(base), ReferenceOr::Item(head))
        .expect("Failed to diff path items");

    let methods: Vec<&String> = diff.operations_added.iter().map(|e| &e.0).collect();
    assert_eq!(methods, vec!["get", "put", "trace"]);
}
