//! What is decided before anything is evaluated, pushed or deployed: the
//! flake reference is read, and the overrides are held against the scope
//! that it names.

use crate::flake::{parse_flake, parsed, FlakeModel, FlakeTarget, ParseError};
use crate::overrides::{
    needs_node, needs_profile, purity_of, validate, verdict, CmdOverrides, PurityError,
};
use crate::settings::SettingsModel;
use vstd::prelude::*;

verus! {

/// Why an invocation is turned down before it starts.
#[derive(Debug, Clone, Copy, PartialEq, Eq, Structural)]
pub enum Refusal {
    /// The flake reference is malformed.
    Malformed(ParseError),
    /// The overrides are not safe for the scope of the invocation.
    Unsafe(PurityError),
}

/// An invocation that may start.
#[derive(Debug)]
pub struct Admission<'a> {
    /// What to deploy.
    pub flake: FlakeTarget<'a>,
    /// Whether the user is to be warned that the overrides reach several
    /// nodes.
    pub warn: bool,
}

/// Mathematical value of an [`Admission`].
pub struct AdmissionModel {
    pub flake: FlakeModel,
    pub warn: bool,
}

impl<'a> View for Admission<'a> {
    type V = AdmissionModel;

    open spec fn view(&self) -> AdmissionModel {
        AdmissionModel { flake: self.flake@, warn: self.warn }
    }
}

/// Whether a finding of the guard stops the run.
pub open spec fn stops(finding: Option<PurityError>) -> bool {
    finding matches Some(e) && e != PurityError::Warn
}

/// What is decided for an argument and a set of overrides. A malformed
/// reference is turned down; so are overrides that need a node or a profile
/// that the reference does not name. Everything else starts, with a warning
/// where the guard gives one.
pub open spec fn admission(arg: Seq<char>, overrides: SettingsModel) -> Result<
    AdmissionModel,
    Refusal,
> {
    match parsed(arg) {
        Err(e) => Err(Refusal::Malformed(e)),
        Ok(flake) => {
            let finding = verdict(
                purity_of(overrides),
                flake.node.is_some(),
                flake.profile.is_some(),
            );
            if stops(finding) {
                Err(Refusal::Unsafe(finding.unwrap()))
            } else {
                Ok(AdmissionModel { flake, warn: finding.is_some() })
            }
        },
    }
}

/// Reads the flake reference and holds the overrides against the scope it
/// names. Nothing may be evaluated, pushed or deployed unless this returns
/// `Ok`.
pub fn preflight<'a>(flake: &'a str, overrides: &CmdOverrides) -> (out: Result<
    Admission<'a>,
    Refusal,
>)
    ensures
        match out {
            Ok(admitted) => admission(flake@, overrides@) == Ok::<AdmissionModel, Refusal>(
                admitted@,
            ),
            Err(refusal) => admission(flake@, overrides@) == Err::<AdmissionModel, Refusal>(
                refusal,
            ),
        },
{
    let target = match parse_flake(flake) {
        Ok(target) => target,
        Err(e) => {
            return Err(Refusal::Malformed(e));
        },
    };
    match validate(overrides.purity(), target.node, target.profile) {
        None => Ok(Admission { flake: target, warn: false }),
        Some(PurityError::Warn) => Ok(Admission { flake: target, warn: true }),
        Some(e) => Err(Refusal::Unsafe(e)),
    }
}

/// An invocation that overrides what belongs to one machine and names no
/// node does not start, so nothing is evaluated, pushed or deployed for it.
/// The case left out is a profile override with a profile named and no node:
/// there the guard looks at the profile alone.
pub proof fn lemma_node_overrides_without_node_do_not_start(
    arg: Seq<char>,
    overrides: SettingsModel,
)
    requires
        needs_node(overrides),
        parsed(arg) matches Ok(flake) && flake.node.is_none() && !(needs_profile(overrides)
            && flake.profile.is_some()),
    ensures
        admission(arg, overrides) == Err::<AdmissionModel, Refusal>(
            Refusal::Unsafe(
                if needs_profile(overrides) {
                    PurityError::ProfileRequired
                } else {
                    PurityError::NodeRequired
                },
            ),
        ),
{
}

/// Overrides that ask for neither a node nor a profile never keep a
/// well-formed invocation from starting.
pub proof fn lemma_broad_overrides_always_start(arg: Seq<char>, overrides: SettingsModel)
    requires
        parsed(arg) is Ok,
        !needs_node(overrides),
        !needs_profile(overrides),
    ensures
        admission(arg, overrides) is Ok,
{
}

} // verus!
