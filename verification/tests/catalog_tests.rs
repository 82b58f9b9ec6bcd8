use instant_dev::catalog::{load_catalog, parse_catalog, CatalogError, CatalogField};
use instant_dev::reconcile::{compute_plan, InstalledState};

#[test]
fn test_missing_catalog_yields_empty_plan() {
    // A missing catalog document is not an error: the desired set is empty,
    // so the plan is empty whatever is installed.
    let desired = load_catalog(None).expect("absence must not be an error");
    assert!(desired.packages.is_empty());
    assert!(desired.casks.is_empty());
    let installed = InstalledState {
        packages: vec!["jq".to_string()],
        casks: vec!["firefox".to_string()],
    };
    let plan = compute_plan(&desired, &installed);
    assert!(plan.to_install_packages.is_empty());
    assert!(plan.to_install_casks.is_empty());
}

#[test]
fn test_parse_catalog_basic() {
    let doc = "packages = [\"jq\", \"ripgrep\"]\ncasks = []\n";
    let desired = parse_catalog(doc).expect("well-formed document");
    assert_eq!(desired.packages, vec!["jq".to_string(), "ripgrep".to_string()]);
    assert!(desired.casks.is_empty());
}

#[test]
fn test_parse_catalog_comments_and_unknown_keys() {
    let doc = "# units for this workstation\n\nname = something else\npackages = [\"a\"]\n";
    let desired = parse_catalog(doc).expect("comments and unknown keys are fine");
    assert_eq!(desired.packages, vec!["a".to_string()]);
    assert!(desired.casks.is_empty());
}

#[test]
fn test_parse_catalog_whitespace_tolerant() {
    let doc = "  packages =  [ \"a\" ,\t\"b\" ]  \r\n";
    let desired = parse_catalog(doc).expect("whitespace is trimmed everywhere");
    assert_eq!(desired.packages, vec!["a".to_string(), "b".to_string()]);
}

#[test]
fn test_parse_catalog_absent_field_defaults_to_empty() {
    let doc = "casks = [\"firefox\"]\n";
    let desired = parse_catalog(doc).expect("a missing field is an empty list");
    assert!(desired.packages.is_empty());
    assert_eq!(desired.casks, vec!["firefox".to_string()]);
}

#[test]
fn test_parse_catalog_empty_document() {
    let desired = parse_catalog("").expect("an empty document is an empty desired set");
    assert!(desired.packages.is_empty());
    assert!(desired.casks.is_empty());
}

#[test]
fn test_parse_catalog_packages_not_array() {
    // A non-array `packages` value is rejected naming the field, and the
    // rejection touches nothing else.
    let err = parse_catalog("packages = 3\n").unwrap_err();
    assert_eq!(err, CatalogError::FieldNotStringArray { field: CatalogField::Packages });
    // Credential provisioning is independent of the catalog outcome.
    let mut session = instant_dev::credential::CredentialProvisioner::new(1);
    assert_eq!(
        session.next_action(),
        Some(instant_dev::credential::CredentialAction::EnsureKey)
    );
    let status = session.on_event(instant_dev::credential::CredentialEvent::KeyReady {
        generated: true,
    });
    assert_eq!(status, instant_dev::credential::StepStatus::Progressed);
}

#[test]
fn test_parse_catalog_casks_not_array() {
    let err = parse_catalog("casks = \"firefox\"\n").unwrap_err();
    assert_eq!(err, CatalogError::FieldNotStringArray { field: CatalogField::Casks });
}

#[test]
fn test_parse_catalog_unquoted_element() {
    let err = parse_catalog("packages = [jq]\n").unwrap_err();
    assert_eq!(err, CatalogError::FieldNotStringArray { field: CatalogField::Packages });
}

#[test]
fn test_parse_catalog_syntax_error_names_line() {
    let err = parse_catalog("packages = []\nthis is no binding\n").unwrap_err();
    assert_eq!(err, CatalogError::Syntax { line: 2 });
}

#[test]
fn test_parse_catalog_spaced_empty_array() {
    let desired = parse_catalog("packages = [   ]\n").expect("an empty array may hold spaces");
    assert!(desired.packages.is_empty());
}

#[test]
fn test_parse_catalog_trailing_comma_rejected() {
    let err = parse_catalog("packages = [\"a\",]\n").unwrap_err();
    assert_eq!(err, CatalogError::FieldNotStringArray { field: CatalogField::Packages });
}

#[test]
fn test_parse_catalog_quote_inside_name_rejected() {
    let err = parse_catalog("packages = [\"a\"b\"]\n").unwrap_err();
    assert_eq!(err, CatalogError::FieldNotStringArray { field: CatalogField::Packages });
}

#[test]
fn test_parse_catalog_duplicate_field() {
    let err = parse_catalog("packages = []\npackages = [\"a\"]\n").unwrap_err();
    assert_eq!(err, CatalogError::DuplicateField { field: CatalogField::Packages });
}
