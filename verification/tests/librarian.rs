use daemon8::store::error::StoreError;
use daemon8::store::librarian::{
    is_unc_path, is_windows_user_path, validate_locator_pattern, validate_project_node_data,
    validate_source_instance_data, validate_source_template_data, Platform, ProjectNodeData,
    SourceInstanceData, SourceTemplateData,
};

fn good_template() -> SourceTemplateData {
    SourceTemplateData {
        project_types: vec!["react-native".to_string()],
        locator_pattern: "~/Library/Logs/example.log".to_string(),
        platforms: vec![Platform::Macos],
        description: "example log".to_string(),
    }
}

fn good_project() -> ProjectNodeData {
    ProjectNodeData {
        slug: "sample".to_string(),
        classification_tags: vec!["rust".to_string()],
        root_path: "/tmp/sample".to_string(),
    }
}

fn good_instance() -> SourceInstanceData {
    SourceInstanceData { resolved_path: "/tmp/sample/runtime.log".to_string() }
}

fn message(err: StoreError) -> String {
    err.message()
}

#[test]
fn accepts_well_formed_template() {
    validate_source_template_data(&good_template()).unwrap();
}

#[test]
fn rejects_absolute_home_path() {
    let mut t = good_template();
    t.locator_pattern = "/Users/jhavens/Library/Logs/example.log".to_string();
    let err = validate_source_template_data(&t).unwrap_err();
    assert!(message(err).contains("absolute home path"));
}

#[test]
fn rejects_absolute_linux_home_path() {
    let mut t = good_template();
    t.locator_pattern = "/home/jhavens/.cache/example".to_string();
    let err = validate_source_template_data(&t).unwrap_err();
    assert!(message(err).contains("absolute home path"));
}

#[test]
fn rejects_windows_user_path() {
    let mut t = good_template();
    t.locator_pattern = "C:\\Users\\jhavens\\AppData\\example.log".to_string();
    let err = validate_source_template_data(&t).unwrap_err();
    assert!(message(err).contains("Windows user path"));
}

#[test]
fn rejects_d_drive_users_path() {
    let mut t = good_template();
    t.locator_pattern = "D:\\Users\\jhavens\\AppData\\example.log".to_string();
    let err = validate_source_template_data(&t).unwrap_err();
    assert!(message(err).contains("Windows user path"));
}

#[test]
fn rejects_capital_c_forward_slash_users_path() {
    let mut t = good_template();
    t.locator_pattern = "C:/Users/jhavens/AppData/example.log".to_string();
    let err = validate_source_template_data(&t).unwrap_err();
    assert!(message(err).contains("Windows user path"));
}

#[test]
fn rejects_lowercase_drive_letter_windows_user_path() {
    let mut t = good_template();
    t.locator_pattern = "e:\\users\\jhavens\\log.txt".to_string();
    let err = validate_source_template_data(&t).unwrap_err();
    assert!(message(err).contains("Windows user path"));
}

#[test]
fn rejects_unc_path() {
    let mut t = good_template();
    t.locator_pattern = "\\\\fileserver\\share\\app\\log.txt".to_string();
    let err = validate_source_template_data(&t).unwrap_err();
    assert!(message(err).contains("UNC network path"));
}

#[test]
fn accepts_non_user_windows_drive_path() {
    let mut t = good_template();
    t.locator_pattern = "C:\\ProgramData\\daemon8\\runtime.log".to_string();
    t.platforms = vec![Platform::Windows];
    validate_source_template_data(&t).unwrap();
}

#[test]
fn rejects_empty_platforms() {
    let mut t = good_template();
    t.platforms = vec![];
    let err = validate_source_template_data(&t).unwrap_err();
    assert!(message(err).contains("platforms must not be empty"));
}

#[test]
fn rejects_unknown_project_type_tag() {
    let mut t = good_template();
    t.project_types = vec!["nonexistent-framework".to_string()];
    let err = validate_source_template_data(&t).unwrap_err();
    assert!(message(err).contains("unknown tag 'nonexistent-framework'"));
}

#[test]
fn rejects_empty_project_types() {
    let mut t = good_template();
    t.project_types = vec![];
    let err = validate_source_template_data(&t).unwrap_err();
    assert!(message(err).contains("project_types must not be empty"));
}

#[test]
fn rejects_empty_locator_pattern() {
    let mut t = good_template();
    t.locator_pattern = "   ".to_string();
    let err = validate_source_template_data(&t).unwrap_err();
    assert!(message(err).contains("must not be empty"));
}

#[test]
fn rejects_empty_description() {
    let mut t = good_template();
    t.description = " ".to_string();
    let err = validate_source_template_data(&t).unwrap_err();
    assert!(message(err).contains("description must not be empty"));
}

#[test]
fn accepts_root_placeholder_locator() {
    let mut t = good_template();
    t.locator_pattern = "<root>/logs/runtime.log".to_string();
    validate_source_template_data(&t).unwrap();
}

#[test]
fn accepts_env_var_locator() {
    let mut t = good_template();
    t.locator_pattern = "$LOCALAPPDATA/example/log.txt".to_string();
    t.platforms = vec![Platform::Windows];
    validate_source_template_data(&t).unwrap();
}

#[test]
fn accepts_any_universal_tag() {
    let mut t = good_template();
    t.project_types = vec!["any".to_string()];
    validate_source_template_data(&t).unwrap();
}

#[test]
fn accepts_well_formed_project() {
    validate_project_node_data(&good_project()).unwrap();
}

#[test]
fn rejects_empty_project_slug() {
    let mut p = good_project();
    p.slug = "  ".to_string();
    let err = validate_project_node_data(&p).unwrap_err();
    assert!(message(err).contains("slug must not be empty"));
}

#[test]
fn rejects_empty_classification_tags() {
    let mut p = good_project();
    p.classification_tags = vec![];
    let err = validate_project_node_data(&p).unwrap_err();
    assert!(message(err).contains("classification_tags must not be empty"));
}

#[test]
fn rejects_unknown_classification_tag() {
    let mut p = good_project();
    p.classification_tags = vec!["mystery-framework".to_string()];
    let err = validate_project_node_data(&p).unwrap_err();
    assert!(message(err).contains("unknown tag 'mystery-framework'"));
}

#[test]
fn accepts_well_formed_source_instance() {
    validate_source_instance_data(&good_instance()).unwrap();
}

#[test]
fn rejects_empty_resolved_path() {
    let mut i = good_instance();
    i.resolved_path = String::new();
    let err = validate_source_instance_data(&i).unwrap_err();
    assert!(message(err).contains("resolved_path must not be empty"));
}

#[test]
fn windows_and_unc_shapes() {
    assert!(is_windows_user_path("C:\\Users\\a"));
    assert!(is_windows_user_path("c:/users/a"));
    assert!(!is_windows_user_path("C:\\ProgramData\\a"));
    assert!(!is_windows_user_path("C:"));
    assert!(is_unc_path("\\\\server\\share"));
    assert!(!is_unc_path("\\\\\\x"));
    assert!(!is_unc_path("\\\\/x"));
    assert!(!is_unc_path("C:\\x"));
}

#[test]
fn locator_errors_are_other_variant() {
    match validate_locator_pattern("/home/a/b") {
        Err(StoreError::Other(m)) => assert!(m.contains("'/home/a/b'")),
        _ => panic!("expected an error"),
    }
    assert!(validate_locator_pattern("  ~/x  ").is_ok());
}
