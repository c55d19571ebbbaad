//! Layered connection and activation settings, and the rule that merges them.

use vstd::prelude::*;

verus! {

/// `merge::Merge::merge` as the `merge` crate implements it for `Option<T>`:
/// a value that is already present is kept, an absent one is replaced by
/// `other`.
pub assume_specification<T>[ <Option<T> as merge::Merge>::merge ](
    left: &mut Option<T>,
    other: Option<T>,
)
    ensures
        *final(left) == (if old(left).is_some() {
            *old(left)
        } else {
            other
        }),
;

/// The options that can be given at any of the three levels (global, node,
/// profile). Every field is independently present or absent.
#[derive(Debug)]
pub struct SettingsRecord {
    pub ssh_user: Option<String>,
    pub profile_user: Option<String>,
    pub ssh_opts: Option<String>,
    pub fast_connection: Option<bool>,
    pub auto_rollback: Option<bool>,
    pub hostname: Option<String>,
}

/// Mathematical value of a [`SettingsRecord`].
pub struct SettingsModel {
    pub ssh_user: Option<Seq<char>>,
    pub profile_user: Option<Seq<char>>,
    pub ssh_opts: Option<Seq<char>>,
    pub fast_connection: Option<bool>,
    pub auto_rollback: Option<bool>,
    pub hostname: Option<Seq<char>>,
}

/// Value of an optional string.
pub open spec fn text_of(field: Option<String>) -> Option<Seq<char>> {
    match field {
        Some(s) => Some(s@),
        None => None,
    }
}

/// The left value where it is present, the right one otherwise.
pub open spec fn first_set<T>(left: Option<T>, right: Option<T>) -> Option<T> {
    if left.is_some() {
        left
    } else {
        right
    }
}

impl View for SettingsRecord {
    type V = SettingsModel;

    open spec fn view(&self) -> SettingsModel {
        SettingsModel {
            ssh_user: text_of(self.ssh_user),
            profile_user: text_of(self.profile_user),
            ssh_opts: text_of(self.ssh_opts),
            fast_connection: self.fast_connection,
            auto_rollback: self.auto_rollback,
            hostname: text_of(self.hostname),
        }
    }
}

impl SettingsModel {
    /// The record with every field absent.
    pub open spec fn empty() -> SettingsModel {
        SettingsModel {
            ssh_user: None,
            profile_user: None,
            ssh_opts: None,
            fast_connection: None,
            auto_rollback: None,
            hostname: None,
        }
    }

    /// Field by field, `self` where it is set, `other` where it is not.
    pub open spec fn filled_from(self, other: SettingsModel) -> SettingsModel {
        SettingsModel {
            ssh_user: first_set(self.ssh_user, other.ssh_user),
            profile_user: first_set(self.profile_user, other.profile_user),
            ssh_opts: first_set(self.ssh_opts, other.ssh_opts),
            fast_connection: first_set(self.fast_connection, other.fast_connection),
            auto_rollback: first_set(self.auto_rollback, other.auto_rollback),
            hostname: first_set(self.hostname, other.hostname),
        }
    }
}

/// The effective settings of one target: the global record, with its gaps
/// filled from the node, and what is still absent filled from the profile.
pub open spec fn resolved(
    global: SettingsModel,
    node: SettingsModel,
    profile: SettingsModel,
) -> SettingsModel {
    global.filled_from(node).filled_from(profile)
}

fn copy_text(field: &Option<String>) -> (out: Option<String>)
    ensures
        out == *field,
{
    match field {
        Some(s) => Some(s.clone()),
        None => None,
    }
}

impl SettingsRecord {
    /// A record with every field absent.
    pub fn new() -> (out: SettingsRecord)
        ensures
            out@ == SettingsModel::empty(),
    {
        SettingsRecord {
            ssh_user: None,
            profile_user: None,
            ssh_opts: None,
            fast_connection: None,
            auto_rollback: None,
            hostname: None,
        }
    }

    /// An independent copy of the record.
    pub fn duplicate(&self) -> (out: SettingsRecord)
        ensures
            out == *self,
    {
        SettingsRecord {
            ssh_user: copy_text(&self.ssh_user),
            profile_user: copy_text(&self.profile_user),
            ssh_opts: copy_text(&self.ssh_opts),
            fast_connection: self.fast_connection,
            auto_rollback: self.auto_rollback,
            hostname: copy_text(&self.hostname),
        }
    }

    /// Fills the fields that are absent in `self` from `other`; a field that
    /// is present in `self` is left as it is.
    pub fn merge(&mut self, other: SettingsRecord)
        ensures
            final(self)@ == old(self)@.filled_from(other@),
    {
        merge::Merge::merge(&mut self.ssh_user, other.ssh_user);
        merge::Merge::merge(&mut self.profile_user, other.profile_user);
        merge::Merge::merge(&mut self.ssh_opts, other.ssh_opts);
        merge::Merge::merge(&mut self.fast_connection, other.fast_connection);
        merge::Merge::merge(&mut self.auto_rollback, other.auto_rollback);
        merge::Merge::merge(&mut self.hostname, other.hostname);
    }
}

/// Merges the three levels into the settings of one target. The more general
/// level wins wherever it sets a field: global before node, node before
/// profile.
pub fn resolve(global: &SettingsRecord, node: &SettingsRecord, profile: &SettingsRecord) -> (out:
    SettingsRecord)
    ensures
        out@ == resolved(global@, node@, profile@),
{
    let mut merged = global.duplicate();
    merged.merge(node.duplicate());
    merged.merge(profile.duplicate());
    merged
}

/// A field that the global level sets comes out of the merge as the global
/// level set it, whatever the node and the profile say.
pub proof fn lemma_global_value_is_kept(
    global: SettingsModel,
    node: SettingsModel,
    profile: SettingsModel,
)
    ensures
        global.ssh_user.is_some() ==> resolved(global, node, profile).ssh_user == global.ssh_user,
        global.profile_user.is_some() ==> resolved(global, node, profile).profile_user
            == global.profile_user,
        global.ssh_opts.is_some() ==> resolved(global, node, profile).ssh_opts == global.ssh_opts,
        global.fast_connection.is_some() ==> resolved(global, node, profile).fast_connection
            == global.fast_connection,
        global.auto_rollback.is_some() ==> resolved(global, node, profile).auto_rollback
            == global.auto_rollback,
        global.hostname.is_some() ==> resolved(global, node, profile).hostname == global.hostname,
{
}

/// A field that neither the global level nor the node sets comes out of the
/// merge as the profile has it.
pub proof fn lemma_profile_value_fills_gap(
    global: SettingsModel,
    node: SettingsModel,
    profile: SettingsModel,
)
    ensures
        global.ssh_user.is_none() && node.ssh_user.is_none() ==> resolved(
            global,
            node,
            profile,
        ).ssh_user == profile.ssh_user,
        global.profile_user.is_none() && node.profile_user.is_none() ==> resolved(
            global,
            node,
            profile,
        ).profile_user == profile.profile_user,
        global.ssh_opts.is_none() && node.ssh_opts.is_none() ==> resolved(
            global,
            node,
            profile,
        ).ssh_opts == profile.ssh_opts,
        global.fast_connection.is_none() && node.fast_connection.is_none() ==> resolved(
            global,
            node,
            profile,
        ).fast_connection == profile.fast_connection,
        global.auto_rollback.is_none() && node.auto_rollback.is_none() ==> resolved(
            global,
            node,
            profile,
        ).auto_rollback == profile.auto_rollback,
        global.hostname.is_none() && node.hostname.is_none() ==> resolved(
            global,
            node,
            profile,
        ).hostname == profile.hostname,
{
}

/// A field that the global level leaves open and the node sets comes out of
/// the merge as the node has it.
pub proof fn lemma_node_value_fills_gap(
    global: SettingsModel,
    node: SettingsModel,
    profile: SettingsModel,
)
    ensures
        global.ssh_user.is_none() && node.ssh_user.is_some() ==> resolved(
            global,
            node,
            profile,
        ).ssh_user == node.ssh_user,
        global.profile_user.is_none() && node.profile_user.is_some() ==> resolved(
            global,
            node,
            profile,
        ).profile_user == node.profile_user,
        global.ssh_opts.is_none() && node.ssh_opts.is_some() ==> resolved(
            global,
            node,
            profile,
        ).ssh_opts == node.ssh_opts,
        global.fast_connection.is_none() && node.fast_connection.is_some() ==> resolved(
            global,
            node,
            profile,
        ).fast_connection == node.fast_connection,
        global.auto_rollback.is_none() && node.auto_rollback.is_some() ==> resolved(
            global,
            node,
            profile,
        ).auto_rollback == node.auto_rollback,
        global.hostname.is_none() && node.hostname.is_some() ==> resolved(
            global,
            node,
            profile,
        ).hostname == node.hostname,
{
}

} // verus!
