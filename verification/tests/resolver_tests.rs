use anicca::diff::extensions::ExtensionsDiff;
use anicca::diff::info::InfoDiff;
use anicca::json_ref::dereference;
use anicca::json_ref::resolve_target;
use anicca::json_ref::uri_join;
use anicca::json_ref::DereferenceError;
use anicca::json_ref::Resolution;
use anicca::openapi::Contact;
use anicca::openapi::Info;
use anicca::openapi::ReferenceOr;
use anicca::openapi::Schema;

#[test]
fn relative_reference_joins_against_base_directory() {
    let joined = uri_join("/specs/store/openapi.yaml", "./schema.json").unwrap();
    assert_eq!(joined, "/specs/store/schema.json");

    let target = resolve_target("/specs/store/", "schema.json").unwrap();
    assert_eq!(target, "/specs/store/schema.json");
}

#[test]
fn parent_references_walk_upward() {
    let joined = uri_join("/specs/store/openapi.yaml", "../common/error.json").unwrap();
    assert_eq!(joined, "/specs/common/error.json");
}

#[test]
fn https_reference_is_unsupported() {
    let result = resolve_target("/specs/store/", "https://example.test/schema.json");
    match result {
        Err(DereferenceError::UnsupportedRef(_)) => {},
        _ => panic!("Expected an unsupported-ref error"),
    }
}

#[test]
fn fragment_reference_is_unsupported() {
    let result = resolve_target("/specs/store/openapi.yaml", "#/components/schemas/Pet");
    match result {
        Err(DereferenceError::UnsupportedRef(e)) => {
            assert_eq!(e, "#/components/schemas/Pet");
        },
        _ => panic!("Expected an unsupported-ref error"),
    }
}

#[test]
fn empty_reference_is_invalid() {
    let result = resolve_target("/specs/", "");
    match result {
        Err(DereferenceError::InvalidUri(_)) => {},
        _ => panic!("Expected an invalid-reference error"),
    }
}

#[test]
fn inline_item_dereferences_to_itself() {
    let schema = ReferenceOr::Item(Schema::default());
    match dereference(schema, "/specs/") {
        Ok(Resolution::Inline(s)) => {
            assert!(s.schema_type.is_none());
        },
        _ => panic!("Expected the inline schema back"),
    }
}

#[test]
fn reference_dereferences_to_file_path() {
    let schema: ReferenceOr<Schema> = ReferenceOr::Reference {
        reference: "./pet.json".to_string(),
    };
    match dereference(schema, "/specs/store/openapi.yaml") {
        Ok(Resolution::FileToLoad(p)) => {
            assert_eq!(p, "/specs/store/pet.json");
        },
        _ => panic!("Expected a file to load"),
    }
}

#[test]
fn error_messages_name_the_reference() {
    let err = DereferenceError::UnsupportedRef("https://x.test/s.json".to_string());
    assert_eq!(err.message(), "Unsupported ref: https://x.test/s.json");
}

#[test]
fn extension_value_change_is_reported() {
    let base = vec![
        ("x-owner".to_string(), "\"pets\"".to_string()),
        ("x-stage".to_string(), "\"beta\"".to_string()),
    ];
    let head = vec![
        ("x-owner".to_string(), "\"pets\"".to_string()),
        ("x-stage".to_string(), "\"stable\"".to_string()),
        ("x-flag".to_string(), "1".to_string()),
    ];

    let diff = ExtensionsDiff::from_extensions(&base, &head);

    assert_eq!(diff.added.len(), 1);
    assert_eq!(diff.removed.len(), 0);
    assert_eq!(diff.changed.len(), 1);
    assert_eq!(diff.changed[0].0, "x-stage");
    assert_eq!(diff.changed[0].1.from, "\"beta\"");
    assert_eq!(diff.changed[0].1.to, "\"stable\"");
}

#[test]
fn contact_change_shows_in_info_diff() {
    let info = |email: Option<&str>| Info {
        title: "Pet store".to_string(),
        description: None,
        terms_of_service: None,
        contact: Some(Contact {
            name: Some("Team".to_string()),
            url: None,
            email: email.map(|e| e.to_string()),
            extensions: Vec::new(),
        }),
        license: None,
        version: "1.0.0".to_string(),
        extensions: Vec::new(),
    };

    let diff = InfoDiff::from_info(info(None), info(Some("pets@example.test")));
    assert!(diff.has_changes());
    let contact = diff.contact.unwrap();
    let email = contact.email.unwrap();
    assert_eq!(email.from, None);
    assert_eq!(email.to, Some("pets@example.test".to_string()));

    let same = InfoDiff::from_info(info(Some("pets@example.test")), info(Some("pets@example.test")));
    assert!(!same.has_changes());
}
