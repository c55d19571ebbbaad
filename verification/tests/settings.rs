use deploy_rs::overrides::CmdOverrides;
use deploy_rs::settings::{resolve, SettingsRecord};

fn text(s: &str) -> Option<String> {
    Some(s.to_string())
}

fn record(
    ssh_user: Option<&str>,
    profile_user: Option<&str>,
    ssh_opts: Option<&str>,
    fast_connection: Option<bool>,
    auto_rollback: Option<bool>,
    hostname: Option<&str>,
) -> SettingsRecord {
    SettingsRecord {
        ssh_user: ssh_user.map(str::to_string),
        profile_user: profile_user.map(str::to_string),
        ssh_opts: ssh_opts.map(str::to_string),
        fast_connection,
        auto_rollback,
        hostname: hostname.map(str::to_string),
    }
}

#[test]
fn new_record_is_empty() {
    let r = SettingsRecord::new();
    assert_eq!(r.ssh_user, None);
    assert_eq!(r.profile_user, None);
    assert_eq!(r.ssh_opts, None);
    assert_eq!(r.fast_connection, None);
    assert_eq!(r.auto_rollback, None);
    assert_eq!(r.hostname, None);
}

#[test]
fn duplicate_keeps_every_field() {
    let r = record(Some("root"), Some("app"), Some("-p 22"), Some(true), Some(false), Some("h"));
    let d = r.duplicate();
    assert_eq!(d.ssh_user, text("root"));
    assert_eq!(d.profile_user, text("app"));
    assert_eq!(d.ssh_opts, text("-p 22"));
    assert_eq!(d.fast_connection, Some(true));
    assert_eq!(d.auto_rollback, Some(false));
    assert_eq!(d.hostname, text("h"));
}

#[test]
fn merge_fills_only_absent_fields() {
    let mut left = record(Some("root"), None, None, Some(false), None, None);
    let right = record(Some("other"), Some("app"), None, Some(true), Some(true), Some("box"));
    left.merge(right);
    assert_eq!(left.ssh_user, text("root"));
    assert_eq!(left.profile_user, text("app"));
    assert_eq!(left.ssh_opts, None);
    assert_eq!(left.fast_connection, Some(false));
    assert_eq!(left.auto_rollback, Some(true));
    assert_eq!(left.hostname, text("box"));
}

#[test]
fn merge_takes_the_other_value_where_absent() {
    let mut left = SettingsRecord::new();
    left.merge(record(Some("deploy"), None, None, None, None, None));
    assert_eq!(left.ssh_user, text("deploy"));
}

#[test]
fn resolve_keeps_global_value() {
    let global = record(Some("global"), None, None, Some(true), None, Some("g.example"));
    let node = record(Some("node"), None, None, Some(false), None, Some("n.example"));
    let profile = record(Some("profile"), None, None, Some(false), None, Some("p.example"));
    let out = resolve(&global, &node, &profile);
    assert_eq!(out.ssh_user, text("global"));
    assert_eq!(out.fast_connection, Some(true));
    assert_eq!(out.hostname, text("g.example"));
}

#[test]
fn resolve_uses_profile_value_when_others_unset() {
    let global = SettingsRecord::new();
    let node = SettingsRecord::new();
    let profile = record(Some("p"), Some("pu"), Some("-v"), Some(true), Some(false), Some("ph"));
    let out = resolve(&global, &node, &profile);
    assert_eq!(out.ssh_user, text("p"));
    assert_eq!(out.profile_user, text("pu"));
    assert_eq!(out.ssh_opts, text("-v"));
    assert_eq!(out.fast_connection, Some(true));
    assert_eq!(out.auto_rollback, Some(false));
    assert_eq!(out.hostname, text("ph"));
}

#[test]
fn resolve_prefers_node_over_profile() {
    let global = record(None, None, None, None, None, None);
    let node = record(Some("node"), None, None, None, Some(true), None);
    let profile = record(Some("profile"), Some("pu"), None, None, Some(false), None);
    let out = resolve(&global, &node, &profile);
    assert_eq!(out.ssh_user, text("node"));
    assert_eq!(out.profile_user, text("pu"));
    assert_eq!(out.auto_rollback, Some(true));
    assert_eq!(out.ssh_opts, None);
}

#[test]
fn resolve_mixes_levels_field_by_field() {
    let global = record(Some("g"), None, None, None, None, None);
    let node = record(None, Some("n"), None, None, None, None);
    let profile = record(None, None, Some("p"), None, None, None);
    let out = resolve(&global, &node, &profile);
    assert_eq!(out.ssh_user, text("g"));
    assert_eq!(out.profile_user, text("n"));
    assert_eq!(out.ssh_opts, text("p"));
    assert_eq!(out.hostname, None);
}

#[test]
fn resolve_leaves_its_arguments_alone() {
    let global = record(None, None, None, None, None, None);
    let node = record(Some("node"), None, None, None, None, None);
    let profile = record(None, None, None, None, None, None);
    let _ = resolve(&global, &node, &profile);
    assert_eq!(global.ssh_user, None);
    assert_eq!(node.ssh_user, text("node"));
}

#[test]
fn overrides_win_over_merged_settings() {
    let mut settings = record(Some("root"), Some("app"), None, Some(false), None, Some("a"));
    let overrides = CmdOverrides {
        ssh_user: text("admin"),
        profile_user: None,
        ssh_opts: text("-p 2222"),
        fast_connection: Some(true),
        auto_rollback: None,
        hostname: None,
    };
    overrides.apply(&mut settings);
    assert_eq!(settings.ssh_user, text("admin"));
    assert_eq!(settings.profile_user, text("app"));
    assert_eq!(settings.ssh_opts, text("-p 2222"));
    assert_eq!(settings.fast_connection, Some(true));
    assert_eq!(settings.auto_rollback, None);
    assert_eq!(settings.hostname, text("a"));
}

#[test]
fn empty_overrides_change_nothing() {
    let mut settings = record(Some("root"), None, None, None, Some(true), None);
    CmdOverrides::new().apply(&mut settings);
    assert_eq!(settings.ssh_user, text("root"));
    assert_eq!(settings.auto_rollback, Some(true));
    assert_eq!(settings.hostname, None);
}

#[test]
fn every_override_field_is_applied() {
    let mut settings = SettingsRecord::new();
    let overrides = CmdOverrides {
        ssh_user: text("a"),
        profile_user: text("b"),
        ssh_opts: text("c"),
        fast_connection: Some(false),
        auto_rollback: Some(true),
        hostname: text("d"),
    };
    overrides.apply(&mut settings);
    assert_eq!(settings.ssh_user, text("a"));
    assert_eq!(settings.profile_user, text("b"));
    assert_eq!(settings.ssh_opts, text("c"));
    assert_eq!(settings.fast_connection, Some(false));
    assert_eq!(settings.auto_rollback, Some(true));
    assert_eq!(settings.hostname, text("d"));
}
