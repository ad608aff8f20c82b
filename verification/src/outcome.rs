//! What came of running the actions on a window.

use vstd::prelude::*;

verus! {

/// What came of a whole run: the window, what happened to each planned action
/// in the order of the plan, and how the window came to be the target.
#[derive(Debug)]
pub struct RunOutcome {
    pub container_id: i64,
    pub actions: Vec<ActionRecord>,
    /// `None` where the window was there already. Only `Launched` says that
    /// the window is known to be this run's own.
    pub launch_ownership: Option<LaunchOwnership>,
}

/// Whether a launched window is known to be this run's own.
#[derive(Copy, Clone, Debug, PartialEq, Eq, Structural)]
pub enum LaunchOwnership {
    Launched,
    Adopted,
}

/// What happened to one planned action. An action that ran is named by its
/// command without the target; one that was left out, by its flag.
#[derive(Debug, PartialEq, Eq)]
pub struct ActionRecord {
    pub action: String,
    pub status: ActionStatus,
}

/// What happened to one planned action. The reason is a short name that does
/// not change.
#[derive(Copy, Clone, Debug, PartialEq, Eq)]
pub enum ActionStatus {
    Changed,
    AlreadySatisfied,
    Unconfirmed,
    Skipped { reason: &'static str },
}

/// What running one action reports: the container, what was observed, and, for
/// a launch, whether the window is known to be this run's own.
#[derive(Copy, Clone, Debug, PartialEq, Eq, Structural)]
pub struct ActionResult {
    pub container_id: i64,
    pub outcome: ActionOutcome,
    pub launch_ownership: Option<LaunchOwnership>,
}

/// What running one action observed.
#[derive(Copy, Clone, Debug, PartialEq, Eq, Structural)]
pub enum ActionOutcome {
    /// The change was seen.
    Changed,
    /// The state held already, so no command was sent.
    AlreadySatisfied,
    /// The command was sent and the wait is over, but the change was not seen.
    Unconfirmed,
}

impl ActionResult {
    /// The result of an action on a container that was known before.
    pub fn acted(container_id: i64, outcome: ActionOutcome) -> (result: ActionResult)
        ensures
            result == (ActionResult { container_id, outcome, launch_ownership: None }),
    {
        ActionResult { container_id, outcome, launch_ownership: None }
    }
}

/// The status that an observation is reported as.
pub open spec fn status_of(outcome: ActionOutcome) -> ActionStatus {
    match outcome {
        ActionOutcome::Changed => ActionStatus::Changed,
        ActionOutcome::AlreadySatisfied => ActionStatus::AlreadySatisfied,
        ActionOutcome::Unconfirmed => ActionStatus::Unconfirmed,
    }
}

/// The status that an observation is reported as.
pub fn action_status(outcome: ActionOutcome) -> (status: ActionStatus)
    ensures
        status == status_of(outcome),
{
    match outcome {
        ActionOutcome::Changed => ActionStatus::Changed,
        ActionOutcome::AlreadySatisfied => ActionStatus::AlreadySatisfied,
        ActionOutcome::Unconfirmed => ActionStatus::Unconfirmed,
    }
}

/// What was observed is what is reported: a change as changed, a state that held
/// as satisfied already, a change that was not seen as unconfirmed; and nothing
/// that ran is reported as left out.
pub proof fn law_what_was_observed_is_reported(outcome: ActionOutcome)
    ensures
        status_of(outcome) is Changed <==> outcome == ActionOutcome::Changed,
        status_of(outcome) is AlreadySatisfied <==> outcome == ActionOutcome::AlreadySatisfied,
        status_of(outcome) is Unconfirmed <==> outcome == ActionOutcome::Unconfirmed,
        !(status_of(outcome) is Skipped),
{
}

} // verus!
