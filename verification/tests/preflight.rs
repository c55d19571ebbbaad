use deploy_rs::flake::ParseError;
use deploy_rs::overrides::{CmdOverrides, PurityError};
use deploy_rs::preflight::{preflight, Refusal};

fn text(s: &str) -> Option<String> {
    Some(s.to_string())
}

#[test]
fn plain_invocation_starts_without_warning() {
    let out = preflight("repo#node.profile", &CmdOverrides::new()).unwrap();
    assert_eq!(out.flake.repo, "repo");
    assert_eq!(out.flake.node, Some("node"));
    assert_eq!(out.flake.profile, Some("profile"));
    assert!(!out.warn);
}

#[test]
fn malformed_reference_does_not_start() {
    let out = preflight("repo#a.b.c", &CmdOverrides::new());
    assert_eq!(out.err(), Some(Refusal::Malformed(ParseError::TooManyDots)));
    let out = preflight("repo#", &CmdOverrides::new());
    assert_eq!(out.err(), Some(Refusal::Malformed(ParseError::EmptyNode)));
    let out = preflight("repo#n.", &CmdOverrides::new());
    assert_eq!(out.err(), Some(Refusal::Malformed(ParseError::EmptyProfile)));
}

#[test]
fn malformed_reference_is_reported_before_overrides() {
    let mut o = CmdOverrides::new();
    o.hostname = text("box");
    assert_eq!(preflight("repo#", &o).err(), Some(Refusal::Malformed(ParseError::EmptyNode)));
}

#[test]
fn hostname_override_without_node_does_not_start() {
    let mut o = CmdOverrides::new();
    o.hostname = text("box");
    assert_eq!(preflight("repo", &o).err(), Some(Refusal::Unsafe(PurityError::NodeRequired)));
}

#[test]
fn hostname_override_with_node_starts() {
    let mut o = CmdOverrides::new();
    o.hostname = text("box");
    let out = preflight("repo#node", &o).unwrap();
    assert_eq!(out.flake.node, Some("node"));
    assert!(!out.warn);
}

#[test]
fn profile_user_override_without_profile_does_not_start() {
    let mut o = CmdOverrides::new();
    o.profile_user = text("app");
    assert_eq!(
        preflight("repo#node", &o).err(),
        Some(Refusal::Unsafe(PurityError::ProfileRequired))
    );
    assert_eq!(preflight(".", &o).err(), Some(Refusal::Unsafe(PurityError::ProfileRequired)));
}

#[test]
fn profile_user_override_with_profile_starts() {
    let mut o = CmdOverrides::new();
    o.profile_user = text("app");
    let out = preflight("repo#node.web", &o).unwrap();
    assert_eq!(out.flake.profile, Some("web"));
    assert!(!out.warn);
}

#[test]
fn ssh_opts_override_without_node_starts_with_warning() {
    let mut o = CmdOverrides::new();
    o.ssh_opts = text("-p 2222");
    let out = preflight("repo", &o).unwrap();
    assert_eq!(out.flake.repo, "repo");
    assert_eq!(out.flake.node, None);
    assert!(out.warn);
}

#[test]
fn ssh_opts_override_with_node_starts_without_warning() {
    let mut o = CmdOverrides::new();
    o.ssh_opts = text("-p 2222");
    let out = preflight("repo#node", &o).unwrap();
    assert!(!out.warn);
}
