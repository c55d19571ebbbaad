use deploy_rs::overrides::{validate, CmdOverrides, OverridePurity, PurityError};

fn text(s: &str) -> Option<String> {
    Some(s.to_string())
}

#[test]
fn no_override_is_pure() {
    assert_eq!(CmdOverrides::new().purity(), OverridePurity::Pure);
}

#[test]
fn auto_rollback_alone_is_pure() {
    let mut o = CmdOverrides::new();
    o.auto_rollback = Some(true);
    assert_eq!(o.purity(), OverridePurity::Pure);
}

#[test]
fn ssh_opts_is_warn() {
    let mut o = CmdOverrides::new();
    o.ssh_opts = text("-p 22");
    assert_eq!(o.purity(), OverridePurity::Warn);
}

#[test]
fn fast_connection_is_warn() {
    let mut o = CmdOverrides::new();
    o.fast_connection = Some(false);
    assert_eq!(o.purity(), OverridePurity::Warn);
}

#[test]
fn hostname_is_error() {
    let mut o = CmdOverrides::new();
    o.hostname = text("box");
    assert_eq!(o.purity(), OverridePurity::Error);
}

#[test]
fn ssh_user_is_error() {
    let mut o = CmdOverrides::new();
    o.ssh_user = text("root");
    o.ssh_opts = text("-v");
    assert_eq!(o.purity(), OverridePurity::Error);
}

#[test]
fn profile_user_is_error_profile() {
    let mut o = CmdOverrides::new();
    o.profile_user = text("app");
    assert_eq!(o.purity(), OverridePurity::ErrorProfile);
}

#[test]
fn profile_user_is_judged_before_hostname() {
    let mut o = CmdOverrides::new();
    o.profile_user = text("app");
    o.hostname = text("box");
    o.fast_connection = Some(true);
    assert_eq!(o.purity(), OverridePurity::ErrorProfile);
}

#[test]
fn validate_error_profile_without_profile_fails() {
    assert_eq!(
        validate(OverridePurity::ErrorProfile, None, None),
        Some(PurityError::ProfileRequired)
    );
    assert_eq!(
        validate(OverridePurity::ErrorProfile, Some("n"), None),
        Some(PurityError::ProfileRequired)
    );
}

#[test]
fn validate_error_profile_with_profile_proceeds() {
    assert_eq!(validate(OverridePurity::ErrorProfile, Some("n"), Some("p")), None);
    assert_eq!(validate(OverridePurity::ErrorProfile, None, Some("p")), None);
}

#[test]
fn validate_error_without_node_fails() {
    assert_eq!(validate(OverridePurity::Error, None, None), Some(PurityError::NodeRequired));
    assert_eq!(validate(OverridePurity::Error, None, Some("p")), Some(PurityError::NodeRequired));
}

#[test]
fn validate_error_with_node_proceeds() {
    assert_eq!(validate(OverridePurity::Error, Some("n"), None), None);
    assert_eq!(validate(OverridePurity::Error, Some("n"), Some("p")), None);
}

#[test]
fn validate_warn_without_node_warns() {
    assert_eq!(validate(OverridePurity::Warn, None, None), Some(PurityError::Warn));
    assert_eq!(validate(OverridePurity::Warn, None, Some("p")), Some(PurityError::Warn));
}

#[test]
fn validate_warn_with_node_is_silent() {
    assert_eq!(validate(OverridePurity::Warn, Some("n"), None), None);
    assert_eq!(validate(OverridePurity::Warn, Some("n"), Some("p")), None);
}

#[test]
fn validate_pure_always_proceeds() {
    assert_eq!(validate(OverridePurity::Pure, None, None), None);
    assert_eq!(validate(OverridePurity::Pure, None, Some("p")), None);
    assert_eq!(validate(OverridePurity::Pure, Some("n"), None), None);
    assert_eq!(validate(OverridePurity::Pure, Some("n"), Some("p")), None);
}

#[test]
fn only_the_warning_is_not_fatal() {
    assert!(PurityError::ProfileRequired.is_fatal());
    assert!(PurityError::NodeRequired.is_fatal());
    assert!(!PurityError::Warn.is_fatal());
}

#[test]
fn warn_class_overrides_proceed_with_warning() {
    let mut o = CmdOverrides::new();
    o.ssh_opts = text("-o StrictHostKeyChecking=no");
    o.fast_connection = Some(true);
    o.auto_rollback = Some(false);
    let out = validate(o.purity(), None, None);
    assert_eq!(out, Some(PurityError::Warn));
    assert!(!out.unwrap().is_fatal());
}

#[test]
fn node_required_override_without_node_aborts() {
    let mut o = CmdOverrides::new();
    o.hostname = text("box.example");
    let out = validate(o.purity(), None, None);
    assert_eq!(out, Some(PurityError::NodeRequired));
    assert!(out.unwrap().is_fatal());
}

#[test]
fn node_and_profile_overrides_without_scope_abort() {
    let mut o = CmdOverrides::new();
    o.hostname = text("box.example");
    o.profile_user = text("app");
    let out = validate(o.purity(), None, None);
    assert_eq!(out, Some(PurityError::ProfileRequired));
    assert!(out.unwrap().is_fatal());
}
