//! The deployment description: nodes, their profiles, and the settings given
//! at each level.

use crate::names::NamedList;
use crate::settings::{SettingsModel, SettingsRecord};
use vstd::prelude::*;

verus! {

/// The characters of each string of a sequence.
pub open spec fn texts(strings: Seq<String>) -> Seq<Seq<char>> {
    strings.map_values(|s: String| s@)
}

/// A unit of deployable configuration. The payload is carried through to
/// whoever pushes and activates the profile; nothing here reads it.
pub struct Profile<P> {
    pub settings: SettingsRecord,
    pub payload: P,
}

/// Mathematical value of a [`Profile`].
pub struct ProfileModel<P> {
    pub settings: SettingsModel,
    pub payload: P,
}

impl<P> View for Profile<P> {
    type V = ProfileModel<P>;

    open spec fn view(&self) -> ProfileModel<P> {
        ProfileModel { settings: self.settings@, payload: self.payload }
    }
}

/// A target machine: its profiles by name, the order in which the profiles
/// are to be handled first, and the node's own settings.
pub struct Node<P> {
    pub settings: SettingsRecord,
    pub profiles_order: Vec<String>,
    pub profiles: NamedList<Profile<P>>,
}

/// Mathematical value of a [`Node`].
pub struct NodeModel<P> {
    pub settings: SettingsModel,
    pub profiles_order: Seq<Seq<char>>,
    pub profiles: Seq<(Seq<char>, ProfileModel<P>)>,
}

impl<P> View for Node<P> {
    type V = NodeModel<P>;

    open spec fn view(&self) -> NodeModel<P> {
        NodeModel {
            settings: self.settings@,
            profiles_order: texts(self.profiles_order@),
            profiles: self.profiles@.map_values(
                |e: (Seq<char>, Profile<P>)| (e.0, e.1@),
            ),
        }
    }
}

/// Everything one invocation deploys: the global settings and the nodes by
/// name.
pub struct DeploymentData<P> {
    pub settings: SettingsRecord,
    pub nodes: NamedList<Node<P>>,
}

/// Mathematical value of a [`DeploymentData`].
pub struct DataModel<P> {
    pub settings: SettingsModel,
    pub nodes: Seq<(Seq<char>, NodeModel<P>)>,
}

impl<P> View for DeploymentData<P> {
    type V = DataModel<P>;

    open spec fn view(&self) -> DataModel<P> {
        DataModel {
            settings: self.settings@,
            nodes: self.nodes@.map_values(|e: (Seq<char>, Node<P>)| (e.0, e.1@)),
        }
    }
}

impl<P> NodeModel<P> {
    /// The names of the node's profiles, in the order of the table.
    pub open spec fn profile_names(self) -> Seq<Seq<char>> {
        self.profiles.map_values(|e: (Seq<char>, ProfileModel<P>)| e.0)
    }

    /// The order in which the node's profiles are handled: the names of
    /// `profiles_order` that the node has, as listed, then the profiles that
    /// the list leaves out, in the order of the table.
    pub open spec fn execution_order(self) -> Seq<Seq<char>> {
        let listed = self.profiles_order;
        let present = self.profile_names();
        listed.filter(|name: Seq<char>| present.contains(name)) + present.filter(
            |name: Seq<char>| !listed.contains(name),
        )
    }
}

impl<P> DataModel<P> {
    /// The names of the nodes, in the order of the table.
    pub open spec fn node_names(self) -> Seq<Seq<char>> {
        self.nodes.map_values(|e: (Seq<char>, NodeModel<P>)| e.0)
    }
}

} // verus!
