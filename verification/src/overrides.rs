//! Settings forced from the command line, and the guard that decides whether
//! they are safe for the scope of an invocation.

use crate::settings::{SettingsModel, SettingsRecord};
use vstd::prelude::*;

verus! {

/// Settings that the user forces for every target of the invocation. A field
/// that is present replaces whatever the deployment description says.
#[derive(Debug)]
pub struct CmdOverrides {
    pub ssh_user: Option<String>,
    pub profile_user: Option<String>,
    pub ssh_opts: Option<String>,
    pub fast_connection: Option<bool>,
    pub auto_rollback: Option<bool>,
    pub hostname: Option<String>,
}

impl View for CmdOverrides {
    type V = SettingsModel;

    open spec fn view(&self) -> SettingsModel {
        SettingsModel {
            ssh_user: crate::settings::text_of(self.ssh_user),
            profile_user: crate::settings::text_of(self.profile_user),
            ssh_opts: crate::settings::text_of(self.ssh_opts),
            fast_connection: self.fast_connection,
            auto_rollback: self.auto_rollback,
            hostname: crate::settings::text_of(self.hostname),
        }
    }
}

/// How safe a set of overrides is when the invocation names no single node
/// or profile.
#[derive(Debug, Clone, Copy, PartialEq, Eq, Structural)]
pub enum OverridePurity {
    /// An override belongs to one profile: a profile has to be named.
    ErrorProfile,
    /// An override belongs to one machine: a node has to be named.
    Error,
    /// An override may be applied broadly, but is risky without a node.
    Warn,
    /// Nothing that depends on the scope is overridden.
    Pure,
}

/// What the guard has to report.
#[derive(Debug, Clone, Copy, PartialEq, Eq, Structural)]
pub enum PurityError {
    /// The overrides need an explicit profile and none was given.
    ProfileRequired,
    /// The overrides need an explicit node and none was given.
    NodeRequired,
    /// The overrides are risky over several nodes; the run goes on.
    Warn,
}

/// An override of the profile user belongs to one profile.
pub open spec fn needs_profile(overrides: SettingsModel) -> bool {
    overrides.profile_user.is_some()
}

/// An override of the host name or of the SSH user belongs to one machine.
pub open spec fn needs_node(overrides: SettingsModel) -> bool {
    overrides.hostname.is_some() || overrides.ssh_user.is_some()
}

/// An override of the SSH options or of the connection speed is not tied to
/// one machine, but is risky when it reaches several.
pub open spec fn is_risky(overrides: SettingsModel) -> bool {
    overrides.ssh_opts.is_some() || overrides.fast_connection.is_some()
}

/// The class of a set of overrides: the strictest demand that one of its
/// fields makes.
pub open spec fn purity_of(overrides: SettingsModel) -> OverridePurity {
    if needs_profile(overrides) {
        OverridePurity::ErrorProfile
    } else if needs_node(overrides) {
        OverridePurity::Error
    } else if is_risky(overrides) {
        OverridePurity::Warn
    } else {
        OverridePurity::Pure
    }
}

/// What the guard reports for a class of overrides and a scope.
pub open spec fn verdict(purity: OverridePurity, node_given: bool, profile_given: bool) -> Option<
    PurityError,
> {
    if purity == OverridePurity::ErrorProfile && !profile_given {
        Some(PurityError::ProfileRequired)
    } else if purity == OverridePurity::Error && !node_given {
        Some(PurityError::NodeRequired)
    } else if purity == OverridePurity::Warn && !node_given {
        Some(PurityError::Warn)
    } else {
        None
    }
}

/// The settings of a target once the overrides are applied: an override wins
/// wherever it is set.
pub open spec fn overridden(overrides: SettingsModel, merged: SettingsModel) -> SettingsModel {
    overrides.filled_from(merged)
}

impl PurityError {
    /// Whether the run has to stop. Only the warning lets it go on.
    pub fn is_fatal(&self) -> (fatal: bool)
        ensures
            fatal == (*self != PurityError::Warn),
    {
        match self {
            PurityError::Warn => false,
            _ => true,
        }
    }
}

impl CmdOverrides {
    /// No override at all.
    pub fn new() -> (out: CmdOverrides)
        ensures
            out@ == SettingsModel::empty(),
    {
        CmdOverrides {
            ssh_user: None,
            profile_user: None,
            ssh_opts: None,
            fast_connection: None,
            auto_rollback: None,
            hostname: None,
        }
    }

    /// Classifies the overrides by the fields that are set.
    pub fn purity(&self) -> (class: OverridePurity)
        ensures
            class == purity_of(self@),
    {
        if self.profile_user.is_some() {
            return OverridePurity::ErrorProfile;
        }
        if self.hostname.is_some() || self.ssh_user.is_some() {
            return OverridePurity::Error;
        }
        if self.ssh_opts.is_some() || self.fast_connection.is_some() {
            return OverridePurity::Warn;
        }
        OverridePurity::Pure
    }

    /// Puts every override that is set into `settings`; the other fields of
    /// `settings` stay as they are.
    pub fn apply(&self, settings: &mut SettingsRecord)
        ensures
            final(settings)@ == overridden(self@, old(settings)@),
    {
        if let Some(ssh_user) = &self.ssh_user {
            settings.ssh_user = Some(ssh_user.clone());
        }
        if let Some(profile_user) = &self.profile_user {
            settings.profile_user = Some(profile_user.clone());
        }
        if let Some(ssh_opts) = &self.ssh_opts {
            settings.ssh_opts = Some(ssh_opts.clone());
        }
        if let Some(fast_connection) = self.fast_connection {
            settings.fast_connection = Some(fast_connection);
        }
        if let Some(auto_rollback) = self.auto_rollback {
            settings.auto_rollback = Some(auto_rollback);
        }
        if let Some(hostname) = &self.hostname {
            settings.hostname = Some(hostname.clone());
        }
    }
}

/// Decides, for a class of overrides and the scope that the invocation
/// names, whether the run may go on. `None` lets it go on in silence; a
/// warning is reported and lets it go on; every other value stops it.
pub fn validate(purity: OverridePurity, node: Option<&str>, profile: Option<&str>) -> (out: Option<
    PurityError,
>)
    ensures
        out == verdict(purity, node.is_some(), profile.is_some()),
{
    match (purity, node, profile) {
        (OverridePurity::ErrorProfile, _, None) => Some(PurityError::ProfileRequired),
        (OverridePurity::Error, None, _) => Some(PurityError::NodeRequired),
        (OverridePurity::Warn, None, _) => Some(PurityError::Warn),
        _ => None,
    }
}

/// Overrides that touch nothing but the SSH options or the connection speed
/// never stop a run that names no node: the guard answers with the warning.
pub proof fn lemma_risky_overrides_only_warn(overrides: SettingsModel, profile_given: bool)
    requires
        is_risky(overrides),
        !needs_node(overrides),
        !needs_profile(overrides),
    ensures
        verdict(purity_of(overrides), false, profile_given) == Some(PurityError::Warn),
{
}

/// Overrides that belong to one machine stop a run that names no node.
/// Where no override asks for a profile, the guard answers that a node is
/// required. An override that asks for a profile is judged first: without a
/// profile the guard then answers that a profile is required, which stops the
/// run as well. The case left out is a profile override with a profile named:
/// there the guard looks at the profile alone.
pub proof fn lemma_node_overrides_need_node(overrides: SettingsModel, profile_given: bool)
    requires
        needs_node(overrides),
        !(needs_profile(overrides) && profile_given),
    ensures
        verdict(purity_of(overrides), false, profile_given) == Some(
            if needs_profile(overrides) {
                PurityError::ProfileRequired
            } else {
                PurityError::NodeRequired
            },
        ),
{
}

} // verus!
