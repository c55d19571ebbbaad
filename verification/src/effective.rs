//! What is handed over for one target: its identity, its payload, and the
//! settings that hold for it once every level and every override is applied.

use crate::data::{DataModel, DeploymentData, Node, Profile};
use crate::overrides::{overridden, CmdOverrides};
use crate::select::{all_targets, lemma_all_targets_are_the_pairs_of_data, SelectError, Target};
use crate::settings::{resolve, resolved, SettingsModel, SettingsRecord};
use vstd::prelude::*;

verus! {

/// One target, ready to be pushed and then deployed.
pub struct EffectiveTarget<'a, P> {
    pub node_name: &'a str,
    pub profile_name: &'a str,
    pub payload: &'a P,
    pub settings: SettingsRecord,
}

/// Mathematical value of an [`EffectiveTarget`].
pub struct EffectiveModel<P> {
    pub node_name: Seq<char>,
    pub profile_name: Seq<char>,
    pub payload: P,
    pub settings: SettingsModel,
}

impl<'a, P> View for EffectiveTarget<'a, P> {
    type V = EffectiveModel<P>;

    open spec fn view(&self) -> EffectiveModel<P> {
        EffectiveModel {
            node_name: self.node_name@,
            profile_name: self.profile_name@,
            payload: *self.payload,
            settings: self.settings@,
        }
    }
}

/// The settings of a target: the three levels merged, then the overrides
/// applied on top.
pub open spec fn effective_settings(
    global: SettingsModel,
    node: SettingsModel,
    profile: SettingsModel,
    overrides: SettingsModel,
) -> SettingsModel {
    overridden(overrides, resolved(global, node, profile))
}

/// What a pair of names stands for in the deployment data: the effective
/// target of the node and the profile of these names, or the name that is
/// missing.
pub open spec fn effective<P>(
    data: DataModel<P>,
    overrides: SettingsModel,
    node_name: Seq<char>,
    profile_name: Seq<char>,
) -> Result<EffectiveModel<P>, SelectError> {
    if !data.node_names().contains(node_name) {
        Err(SelectError::NodeNotFound)
    } else {
        let node = data.nodes[data.node_names().index_of(node_name)].1;
        if !node.profile_names().contains(profile_name) {
            Err(SelectError::ProfileNotFound)
        } else {
            let profile = node.profiles[node.profile_names().index_of(profile_name)].1;
            Ok(
                EffectiveModel {
                    node_name,
                    profile_name,
                    payload: profile.payload,
                    settings: effective_settings(
                        data.settings,
                        node.settings,
                        profile.settings,
                        overrides,
                    ),
                },
            )
        }
    }
}

/// Builds the effective target of one profile of one node.
pub fn make_effective_target<'a, P>(
    global: &SettingsRecord,
    node: &'a Node<P>,
    node_name: &'a str,
    profile: &'a Profile<P>,
    profile_name: &'a str,
    overrides: &CmdOverrides,
) -> (out: EffectiveTarget<'a, P>)
    ensures
        out@ == (EffectiveModel {
            node_name: node_name@,
            profile_name: profile_name@,
            payload: profile.payload,
            settings: effective_settings(global@, node.settings@, profile.settings@, overrides@),
        }),
{
    let mut settings = resolve(global, &node.settings, &profile.settings);
    overrides.apply(&mut settings);
    EffectiveTarget { node_name, profile_name, payload: &profile.payload, settings }
}

/// Looks a target up in the deployment data and builds its effective
/// target. Fails when the node, or the profile on that node, does not exist.
pub fn effective_target<'a, P>(
    data: &'a DeploymentData<P>,
    overrides: &CmdOverrides,
    target: &'a Target,
) -> (out: Result<EffectiveTarget<'a, P>, SelectError>)
    ensures
        match out {
            Ok(found) => effective(data@, overrides@, target.node@, target.profile@) == Ok::<
                EffectiveModel<P>,
                SelectError,
            >(found@),
            Err(e) => effective(data@, overrides@, target.node@, target.profile@) == Err::<
                EffectiveModel<P>,
                SelectError,
            >(e),
        },
{
    assert(data@.node_names() =~= data.nodes.names());
    match data.nodes.get(target.node.as_str()) {
        None => Err(SelectError::NodeNotFound),
        Some(node) => {
            assert(data@.nodes[data@.node_names().index_of(target.node@)].1 == node@);
            assert(node@.profile_names() =~= node.profiles.names());
            match node.profiles.get(target.profile.as_str()) {
                None => Err(SelectError::ProfileNotFound),
                Some(profile) => {
                    assert(node@.profiles[node@.profile_names().index_of(target.profile@)].1
                        == profile@);
                    Ok(
                        make_effective_target(
                            &data.settings,
                            node,
                            target.node.as_str(),
                            profile,
                            target.profile.as_str(),
                            overrides,
                        ),
                    )
                },
            }
        },
    }
}

/// Every pair that a selection without node and profile lists can be looked
/// up: where the nodes have distinct names, its effective target exists.
pub proof fn lemma_selected_targets_resolve<P>(
    data: DataModel<P>,
    overrides: SettingsModel,
    pair: (Seq<char>, Seq<char>),
)
    requires
        data.node_names().no_duplicates(),
        all_targets(data).contains(pair),
    ensures
        effective(data, overrides, pair.0, pair.1) is Ok,
{
    lemma_all_targets_are_the_pairs_of_data(data, pair);
    let i = choose|i: int|
        0 <= i < data.nodes.len() && (#[trigger] data.nodes[i]).0 == pair.0
            && data.nodes[i].1.profile_names().contains(pair.1);
    assert(data.node_names()[i] == pair.0);
    assert(data.node_names().contains(pair.0));
    let j = data.node_names().index_of(pair.0);
    assert(data.node_names()[j] == pair.0);
    assert(i == j);
}

/// The settings of an effective target hold every override that is set.
pub proof fn lemma_override_is_final(
    global: SettingsModel,
    node: SettingsModel,
    profile: SettingsModel,
    overrides: SettingsModel,
)
    ensures
        overrides.ssh_user.is_some() ==> effective_settings(
            global,
            node,
            profile,
            overrides,
        ).ssh_user == overrides.ssh_user,
        overrides.profile_user.is_some() ==> effective_settings(
            global,
            node,
            profile,
            overrides,
        ).profile_user == overrides.profile_user,
        overrides.ssh_opts.is_some() ==> effective_settings(
            global,
            node,
            profile,
            overrides,
        ).ssh_opts == overrides.ssh_opts,
        overrides.fast_connection.is_some() ==> effective_settings(
            global,
            node,
            profile,
            overrides,
        ).fast_connection == overrides.fast_connection,
        overrides.auto_rollback.is_some() ==> effective_settings(
            global,
            node,
            profile,
            overrides,
        ).auto_rollback == overrides.auto_rollback,
        overrides.hostname.is_some() ==> effective_settings(
            global,
            node,
            profile,
            overrides,
        ).hostname == overrides.hostname,
        overrides == SettingsModel::empty() ==> effective_settings(
            global,
            node,
            profile,
            overrides,
        ) == resolved(global, node, profile),
{
}

} // verus!
