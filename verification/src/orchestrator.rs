//! The two phases of a run: every target is pushed, then every target is
//! deployed, and the first failure ends the run.
//!
//! The orchestrator decides; the caller does the work. It reads the pending
//! [`Action`], performs it, and reports how it ended.

use crate::select::{pairs, Target};
use vstd::prelude::*;

verus! {

/// The work that failed.
#[derive(Debug, Clone, Copy, PartialEq, Eq, Structural)]
pub enum Failure {
    /// The push of the target at this index.
    Push(usize),
    /// The deployment of the target at this index.
    Deploy(usize),
}

/// What the caller has to do next.
#[derive(Debug, Clone, Copy, PartialEq, Eq, Structural)]
pub enum Action {
    /// Push the target at this index.
    Push(usize),
    /// Deploy the target at this index.
    Deploy(usize),
    /// Every target is pushed and deployed: end the run with success.
    Finish,
    /// End the run with this failure; nothing more is pushed or deployed.
    Abort(Failure),
}

/// How the pending action ended.
#[derive(Debug, Clone, Copy, PartialEq, Eq, Structural)]
pub enum Event {
    Succeeded,
    Failed,
}

/// The first action of a run over `count` targets.
pub open spec fn first_action(count: nat) -> Action {
    if count == 0 {
        Action::Finish
    } else {
        Action::Push(0)
    }
}

/// The action that follows `pending` once the caller has reported `event`
/// for it. A run that has ended stays ended.
pub open spec fn next_action(pending: Action, count: nat, event: Event) -> Action {
    match pending {
        Action::Push(i) => if event == Event::Failed {
            Action::Abort(Failure::Push(i))
        } else if i + 1 < count {
            Action::Push((i + 1) as usize)
        } else {
            Action::Deploy(0)
        },
        Action::Deploy(i) => if event == Event::Failed {
            Action::Abort(Failure::Deploy(i))
        } else if i + 1 < count {
            Action::Deploy((i + 1) as usize)
        } else {
            Action::Finish
        },
        Action::Finish => Action::Finish,
        Action::Abort(failure) => Action::Abort(failure),
    }
}

/// The action that is pending after the caller has reported `events`, one
/// for each action it was given, from the start of the run.
pub open spec fn action_after(count: nat, events: Seq<Event>) -> Action
    decreases events.len(),
{
    if events.len() == 0 {
        first_action(count)
    } else {
        next_action(action_after(count, events.drop_last()), count, events.last())
    }
}

/// The action at place `step` of a run in which nothing fails: the pushes in
/// order, then the deployments in order, then the end.
pub open spec fn schedule(count: nat, step: nat) -> Action {
    if step < count {
        Action::Push(step as usize)
    } else if step < 2 * count {
        Action::Deploy((step - count) as usize)
    } else {
        Action::Finish
    }
}

/// Whether an action asks for work on a target.
pub open spec fn is_work(action: Action) -> bool {
    action is Push || action is Deploy
}

/// Whether the action names a target of a run over `count` targets.
pub open spec fn in_range(action: Action, count: nat) -> bool {
    match action {
        Action::Push(i) => i < count,
        Action::Deploy(i) => i < count,
        Action::Finish => true,
        Action::Abort(Failure::Push(i)) => i < count,
        Action::Abort(Failure::Deploy(i)) => i < count,
    }
}

/// Drives one run over a list of targets.
pub struct Orchestrator {
    targets: Vec<Target>,
    pending: Action,
}

/// Mathematical value of an [`Orchestrator`]: the pairs of the run in the
/// order in which they are handled, and the action that the caller has to
/// perform now.
pub struct RunModel {
    pub targets: Seq<(Seq<char>, Seq<char>)>,
    pub pending: Action,
}

impl View for Orchestrator {
    type V = RunModel;

    closed spec fn view(&self) -> RunModel {
        RunModel { targets: pairs(self.targets@), pending: self.pending }
    }
}

impl Orchestrator {
    #[verifier::type_invariant]
    spec fn well_formed(&self) -> bool {
        in_range(self.pending, self.targets@.len())
    }

    /// Starts a run over `targets`: the first target is to be pushed, or the
    /// run is over at once when there is none.
    pub fn new(targets: Vec<Target>) -> (out: Orchestrator)
        ensures
            out@.targets == pairs(targets@),
            out@.pending == first_action(targets@.len()),
    {
        let pending = if targets.len() == 0 {
            Action::Finish
        } else {
            Action::Push(0)
        };
        Orchestrator { targets, pending }
    }

    /// The targets of the run.
    pub fn targets(&self) -> (out: &Vec<Target>)
        ensures
            pairs(out@) == self@.targets,
    {
        &self.targets
    }

    /// The action to perform now. It names a target of the run.
    pub fn pending(&self) -> (action: Action)
        ensures
            action == self@.pending,
            in_range(action, self@.targets.len()),
    {
        proof {
            use_type_invariant(self);
        }
        self.pending
    }

    /// Takes the outcome of the pending action and returns the next one.
    ///
    /// After a success the run moves to the next target of the phase, from
    /// the last push to the first deployment, and from the last deployment
    /// to the end. After a failure it is aborted. Once the run has ended, a
    /// further report changes nothing.
    pub fn report(&mut self, event: Event) -> (action: Action)
        ensures
            final(self)@.targets == old(self)@.targets,
            final(self)@.pending == next_action(
                old(self)@.pending,
                old(self)@.targets.len(),
                event,
            ),
            action == final(self)@.pending,
            in_range(action, old(self)@.targets.len()),
    {
        proof {
            use_type_invariant(&*self);
        }
        let count = self.targets.len();
        let failed = match event {
            Event::Failed => true,
            Event::Succeeded => false,
        };
        let next = match self.pending {
            Action::Push(i) => {
                if failed {
                    Action::Abort(Failure::Push(i))
                } else if i + 1 < count {
                    Action::Push(i + 1)
                } else {
                    Action::Deploy(0)
                }
            },
            Action::Deploy(i) => {
                if failed {
                    Action::Abort(Failure::Deploy(i))
                } else if i + 1 < count {
                    Action::Deploy(i + 1)
                } else {
                    Action::Finish
                }
            },
            Action::Finish => Action::Finish,
            Action::Abort(failure) => Action::Abort(failure),
        };
        self.pending = next;
        next
    }
}

/// Whether every event of the sequence reports a success.
pub open spec fn all_succeeded(events: Seq<Event>) -> bool {
    forall|k: int| 0 <= k < events.len() ==> events[k] == Event::Succeeded
}

/// While nothing fails, the run follows the schedule: after as many
/// successes as there are targets every target is pushed and the first
/// deployment is due; after twice as many the run is finished.
pub proof fn lemma_run_without_failure(count: nat, events: Seq<Event>)
    requires
        count <= usize::MAX,
        all_succeeded(events),
    ensures
        action_after(count, events) == schedule(count, events.len()),
    decreases events.len(),
{
    if events.len() > 0 {
        lemma_run_without_failure(count, events.drop_last());
    }
}

/// The first failure ends the run for good. When the push of a target
/// fails, the run is aborted with that failure whatever is reported
/// afterwards: no later target is pushed and no target is deployed. When a
/// deployment fails, the run is aborted in the same way and no later target
/// is deployed.
pub proof fn lemma_failure_ends_run(count: nat, events: Seq<Event>, first: int)
    requires
        count <= usize::MAX,
        0 <= first < events.len(),
        events[first] == Event::Failed,
        all_succeeded(events.take(first)),
    ensures
        first < count ==> action_after(count, events) == Action::Abort(
            Failure::Push(first as usize),
        ),
        count <= first < 2 * count ==> action_after(count, events) == Action::Abort(
            Failure::Deploy((first - count) as usize),
        ),
        2 * count <= first ==> action_after(count, events) == Action::Finish,
        !is_work(action_after(count, events)),
    decreases events.len(),
{
    let before = events.drop_last();
    if events.len() == first + 1 {
        assert(before =~= events.take(first));
        lemma_run_without_failure(count, before);
    } else {
        assert(before.take(first) =~= events.take(first));
        lemma_failure_ends_run(count, before, first);
    }
}

/// Work is asked for only while nothing has failed, and then it is the work
/// that the schedule gives. So a deployment is asked for only after every
/// target of the run was pushed with success, and each target is pushed and
/// deployed in the order of the list.
pub proof fn lemma_work_follows_schedule(count: nat, events: Seq<Event>)
    requires
        count <= usize::MAX,
        is_work(action_after(count, events)),
    ensures
        all_succeeded(events),
        action_after(count, events) == schedule(count, events.len()),
        action_after(count, events) is Deploy ==> count <= events.len(),
    decreases events.len(),
{
    if events.len() > 0 {
        let before = events.drop_last();
        lemma_work_follows_schedule(count, before);
        assert forall|k: int| 0 <= k < events.len() implies events[k] == Event::Succeeded by {
            if k < events.len() - 1 {
                assert(before[k] == events[k]);
            }
        }
    }
    lemma_run_without_failure(count, events);
}

} // verus!
