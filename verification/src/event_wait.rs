//! Running an action that an event confirms: subscribe, see whether there is
//! anything to do, send the command, and wait for an event together with the
//! state that was asked for.
//!
//! A run is a sequence of requests to the outside and the events that answer
//! them. The phase of a run says what is asked for next. Points in time are
//! counted from a fixed start of the caller's choice.

use crate::action::SwayAction;
use crate::confirmation::{
    container_gone, tell_event, timeout_reached, WindowEvent, WindowEventMatch,
    STREAM_CLOSED_ERROR,
};
use crate::confirmation;
use crate::ipc::{run_sway_command, Reply};
use crate::ipc;
use crate::outcome::ActionOutcome;
use crate::query::container_exists;
use crate::text;
use crate::time::Duration;
use crate::tree::Node;
use crate::tree;
use vstd::prelude::*;

verus! {

broadcast use vstd::string::group_string_axioms;

/// What came of waiting for an event of the subscription.
#[derive(Debug)]
pub enum Received {
    /// Something happened to a window.
    Window(WindowEvent),
    /// Something else happened.
    OtherEvent,
    /// Nothing happened in time.
    TimedOut,
    /// No more events will come.
    Closed,
    /// The event could not be read; the text says why.
    Unreadable(String),
}

/// How far a run has come. `E` is the type of an error's text.
#[derive(Debug)]
pub enum EventWaitPhase<E> {
    /// To see whether the container is there.
    CheckExists,
    /// To subscribe, so that no event from here on is missed.
    Subscribe,
    /// To see whether there is anything to do.
    CheckState,
    /// To send the command.
    Send,
    /// To see how much time is left.
    Measure { deadline: Duration },
    /// To wait for an event.
    Receive { deadline: Duration, now: Duration },
    /// To see whether a matching event came with the state that was asked for.
    Confirm { deadline: Duration, container_id: i64 },
    /// At the end: the container and what was observed.
    Done { container_id: i64, outcome: ActionOutcome },
    /// At the end, by an error.
    Failed(E),
}

/// What a run asks for. `T` is the type of a text, `D` that of a span of time.
#[derive(Debug)]
pub enum EventWaitRequest<T, D> {
    /// The tree.
    ReadTree,
    /// A subscription to window events.
    Subscribe,
    /// That a command is sent, and then the point in time at which the
    /// action's time limit ends, where there is such a point.
    Send(T),
    /// The time.
    ReadClock,
    /// An event of the subscription, within a span of time.
    Receive(D),
    /// Nothing more: the container and what was observed, or an error.
    Finish(Result<(i64, ActionOutcome), T>),
}

/// What answers a request.
#[derive(Debug)]
pub enum EventWaitEvent {
    Tree(Reply<Node>),
    Subscribed(Result<(), String>),
    Sent { reply: Reply<Vec<Result<(), String>>>, deadline: Option<Duration> },
    Clock(Duration),
    Received(Received),
}

/// A run of an action that an event confirms.
#[derive(Debug)]
pub struct EventWaitRun<'a> {
    pub action: SwayAction<'a>,
    pub phase: EventWaitPhase<String>,
}

impl View for EventWaitPhase<String> {
    type V = EventWaitPhase<Seq<char>>;

    open spec fn view(&self) -> EventWaitPhase<Seq<char>> {
        match *self {
            EventWaitPhase::CheckExists => EventWaitPhase::CheckExists,
            EventWaitPhase::Subscribe => EventWaitPhase::Subscribe,
            EventWaitPhase::CheckState => EventWaitPhase::CheckState,
            EventWaitPhase::Send => EventWaitPhase::Send,
            EventWaitPhase::Measure { deadline } => EventWaitPhase::Measure { deadline },
            EventWaitPhase::Receive { deadline, now } => EventWaitPhase::Receive { deadline, now },
            EventWaitPhase::Confirm { deadline, container_id } => EventWaitPhase::Confirm {
                deadline,
                container_id,
            },
            EventWaitPhase::Done { container_id, outcome } => EventWaitPhase::Done {
                container_id,
                outcome,
            },
            EventWaitPhase::Failed(error) => EventWaitPhase::Failed(error@),
        }
    }
}

impl View for EventWaitRequest<String, Duration> {
    type V = EventWaitRequest<Seq<char>, nat>;

    open spec fn view(&self) -> EventWaitRequest<Seq<char>, nat> {
        match *self {
            EventWaitRequest::ReadTree => EventWaitRequest::ReadTree,
            EventWaitRequest::Subscribe => EventWaitRequest::Subscribe,
            EventWaitRequest::Send(command) => EventWaitRequest::Send(command@),
            EventWaitRequest::ReadClock => EventWaitRequest::ReadClock,
            EventWaitRequest::Receive(span) => EventWaitRequest::Receive(span@),
            EventWaitRequest::Finish(Ok(result)) => EventWaitRequest::Finish(Ok(result)),
            EventWaitRequest::Finish(Err(error)) => EventWaitRequest::Finish(Err(error@)),
        }
    }
}

/// The time from one point to a later one; none where it is not later.
pub open spec fn time_left(deadline: Duration, now: Duration) -> nat {
    if deadline@ >= now@ {
        (deadline@ - now@) as nat
    } else {
        0
    }
}

/// The phase after a look at the container's state.
pub open spec fn after_state(
    action: SwayAction,
    reply: Reply<Node>,
    satisfied: EventWaitPhase<Seq<char>>,
    unsatisfied: EventWaitPhase<Seq<char>>,
) -> EventWaitPhase<Seq<char>> {
    match reply {
        Reply::Answer(tree) => if action.holds_in(tree) {
            satisfied
        } else {
            unsatisfied
        },
        _ => EventWaitPhase::Failed(reply.error()->0),
    }
}

/// The phase after an event. An event that was not asked for changes nothing.
pub open spec fn next_phase(
    action: SwayAction,
    phase: EventWaitPhase<Seq<char>>,
    event: EventWaitEvent,
) -> EventWaitPhase<Seq<char>> {
    let container_id = action.target()->0;
    let timed_out = EventWaitPhase::Failed(confirmation::timeout_error(action.time()@));
    match (phase, event) {
        (EventWaitPhase::CheckExists, EventWaitEvent::Tree(reply)) => match reply {
            Reply::Answer(tree) => if tree::has_id(tree::preorder(tree), container_id) {
                EventWaitPhase::Subscribe
            } else {
                EventWaitPhase::Failed(confirmation::gone_error(container_id as int))
            },
            _ => EventWaitPhase::Failed(reply.error()->0),
        },
        (EventWaitPhase::Subscribe, EventWaitEvent::Subscribed(result)) => match result {
            Ok(()) => if action.skips_if_satisfied() {
                EventWaitPhase::CheckState
            } else {
                EventWaitPhase::Send
            },
            Err(error) => EventWaitPhase::Failed(error@),
        },
        (EventWaitPhase::CheckState, EventWaitEvent::Tree(reply)) => after_state(
            action,
            reply,
            EventWaitPhase::Done { container_id, outcome: ActionOutcome::AlreadySatisfied },
            EventWaitPhase::Send,
        ),
        (EventWaitPhase::Send, EventWaitEvent::Sent { reply, deadline }) => {
            match ipc::command_error(reply, action.command()) {
                Some(error) => EventWaitPhase::Failed(error),
                None => match deadline {
                    Some(deadline) => EventWaitPhase::Measure { deadline },
                    None => timed_out,
                },
            }
        },
        (EventWaitPhase::Measure { deadline }, EventWaitEvent::Clock(now)) => {
            if time_left(deadline, now) == 0 {
                timed_out
            } else {
                EventWaitPhase::Receive { deadline, now }
            }
        },
        (EventWaitPhase::Receive { deadline, .. }, EventWaitEvent::Received(received)) => {
            match received {
                Received::Window(window) => if action.event_match(window) is Ok {
                    EventWaitPhase::Confirm { deadline, container_id: window.container.id }
                } else {
                    EventWaitPhase::Measure { deadline }
                },
                Received::OtherEvent => EventWaitPhase::Measure { deadline },
                Received::TimedOut => timed_out,
                Received::Closed => EventWaitPhase::Failed(STREAM_CLOSED_ERROR@),
                Received::Unreadable(error) => EventWaitPhase::Failed(error@),
            }
        },
        (EventWaitPhase::Confirm { deadline, container_id }, EventWaitEvent::Tree(reply)) => {
            after_state(
                action,
                reply,
                EventWaitPhase::Done { container_id, outcome: ActionOutcome::Changed },
                EventWaitPhase::Measure { deadline },
            )
        },
        _ => phase,
    }
}

/// What is asked for in a phase.
pub open spec fn asked(
    action: SwayAction,
    phase: EventWaitPhase<Seq<char>>,
) -> EventWaitRequest<Seq<char>, nat> {
    match phase {
        EventWaitPhase::CheckExists
        | EventWaitPhase::CheckState
        | EventWaitPhase::Confirm { .. } => EventWaitRequest::ReadTree,
        EventWaitPhase::Subscribe => EventWaitRequest::Subscribe,
        EventWaitPhase::Send => EventWaitRequest::Send(action.command()),
        EventWaitPhase::Measure { .. } => EventWaitRequest::ReadClock,
        EventWaitPhase::Receive { deadline, now } => EventWaitRequest::Receive(
            time_left(deadline, now),
        ),
        EventWaitPhase::Done { container_id, outcome } => EventWaitRequest::Finish(
            Ok((container_id, outcome)),
        ),
        EventWaitPhase::Failed(error) => EventWaitRequest::Finish(Err(error)),
    }
}

/// What is told in a phase before what it asks for is done: nothing unless the
/// action is to be commented on.
pub open spec fn announced(
    action: SwayAction,
    phase: EventWaitPhase<Seq<char>>,
) -> Option<Seq<char>> {
    if action.is_verbose() && phase is Send {
        Some("Sway command: "@ + action.command())
    } else {
        None
    }
}

/// What is told of an event that matched: whether the state that was asked for
/// came with it.
pub open spec fn match_line(action: SwayAction, container_id: i64, in_effect: bool) -> Seq<char> {
    let line = confirmation::event_line(
        "Event match: "@,
        action.confirming_change()->0,
        container_id as int,
        WindowEventMatch::WindowContainerIdMatch.display(),
    );
    if in_effect {
        line
    } else {
        line
            + ", but the requested state is not in effect — another client may be driving this window; waiting for the next event"@
    }
}

/// What is told of an event in a phase: nothing unless the action is to be
/// commented on.
pub open spec fn told(
    action: SwayAction,
    phase: EventWaitPhase<Seq<char>>,
    event: EventWaitEvent,
) -> Option<Seq<char>> {
    if !action.is_verbose() {
        None
    } else {
        match (phase, event) {
            (EventWaitPhase::CheckState, EventWaitEvent::Tree(Reply::Answer(tree))) => {
                if action.holds_in(tree) {
                    Some(
                        text::around(
                            "Already at target, nothing to move (container id: "@,
                            action.target()->0 as int,
                            ")"@,
                        ),
                    )
                } else {
                    None
                }
            },
            (
                EventWaitPhase::Receive { .. },
                EventWaitEvent::Received(Received::Window(window)),
            ) => match action.event_match(window) {
                Ok(_) => None,
                Err(mismatch) => Some(
                    confirmation::event_line(
                        "Event mismatch: "@,
                        window.change,
                        window.container.id as int,
                        mismatch.display(),
                    ),
                ),
            },
            (
                EventWaitPhase::Confirm { container_id, .. },
                EventWaitEvent::Tree(Reply::Answer(tree)),
            ) => Some(match_line(action, container_id, action.holds_in(tree))),
            _ => None,
        }
    }
}

impl<'a> EventWaitRun<'a> {
    /// Whether this run is of an action that is run in this way.
    pub open spec fn well_formed(self) -> bool {
        self.action.has_state()
    }

    /// The run of an action, at its start.
    pub fn start(action: SwayAction<'a>) -> (run: EventWaitRun<'a>)
        requires
            action.has_state(),
        ensures
            run.well_formed(),
            run.action == action,
            run.phase@ == EventWaitPhase::<Seq<char>>::CheckExists,
    {
        EventWaitRun { action, phase: EventWaitPhase::CheckExists }
    }

    /// What this run asks for.
    pub fn request(&self) -> (request: EventWaitRequest<String, Duration>)
        ensures
            request@ == asked(self.action, self.phase@),
    {
        match &self.phase {
            EventWaitPhase::CheckExists
            | EventWaitPhase::CheckState
            | EventWaitPhase::Confirm { .. } => EventWaitRequest::ReadTree,
            EventWaitPhase::Subscribe => EventWaitRequest::Subscribe,
            EventWaitPhase::Send => EventWaitRequest::Send(self.action.sway_command()),
            EventWaitPhase::Measure { .. } => EventWaitRequest::ReadClock,
            EventWaitPhase::Receive { deadline, now } => EventWaitRequest::Receive(
                deadline.saturating_sub(*now),
            ),
            EventWaitPhase::Done { container_id, outcome } => EventWaitRequest::Finish(
                Ok((*container_id, *outcome)),
            ),
            EventWaitPhase::Failed(error) => EventWaitRequest::Finish(Err(error.clone())),
        }
    }

    /// What is told before what this run asks for is done.
    pub fn announce(&self) -> (line: Option<String>)
        ensures
            text::opt_text(line) == announced(self.action, self.phase@),
    {
        match &self.phase {
            EventWaitPhase::Send => if self.action.verbose() {
                Some(text::concat("Sway command: ", self.action.sway_command().as_str()))
            } else {
                None
            },
            _ => None,
        }
    }

    fn tell_match(&self, container_id: i64, in_effect: bool) -> (line: String)
        requires
            self.well_formed(),
        ensures
            line@ == match_line(self.action, container_id, in_effect),
    {
        let changes = self.action.matching_window_change_events().unwrap();
        let line = tell_event(
            "Event match: ",
            changes[0],
            container_id,
            WindowEventMatch::WindowContainerIdMatch.to_string().as_str(),
        );
        if in_effect {
            line
        } else {
            line.concat(
                ", but the requested state is not in effect — another client may be driving this window; waiting for the next event",
            )
        }
    }

    /// What is told of an event.
    pub fn comment(&self, event: &EventWaitEvent) -> (line: Option<String>)
        requires
            self.well_formed(),
        ensures
            text::opt_text(line) == told(self.action, self.phase@, *event),
    {
        if !self.action.verbose() {
            return None;
        }
        match (&self.phase, event) {
            (EventWaitPhase::CheckState, EventWaitEvent::Tree(Reply::Answer(tree))) => {
                if self.action.holds(tree) {
                    Some(
                        text::around_number(
                            "Already at target, nothing to move (container id: ",
                            self.action.container_id().unwrap(),
                            ")",
                        ),
                    )
                } else {
                    None
                }
            },
            (
                EventWaitPhase::Receive { .. },
                EventWaitEvent::Received(Received::Window(window)),
            ) => match self.action.matches_window_event(window) {
                Ok(_) => None,
                Err(mismatch) => Some(
                    tell_event(
                        "Event mismatch: ",
                        window.change,
                        window.container.id,
                        mismatch.to_string().as_str(),
                    ),
                ),
            },
            (
                EventWaitPhase::Confirm { container_id, .. },
                EventWaitEvent::Tree(Reply::Answer(tree)),
            ) => Some(self.tell_match(*container_id, self.action.holds(tree))),
            _ => None,
        }
    }

    fn timed_out(action: SwayAction<'a>) -> (phase: EventWaitPhase<String>)
        ensures
            phase@ == EventWaitPhase::Failed(confirmation::timeout_error(action.time()@)),
    {
        EventWaitPhase::Failed(timeout_reached(action.duration()))
    }

    /// This run after an event.
    pub fn advance(self, event: EventWaitEvent) -> (run: EventWaitRun<'a>)
        requires
            self.well_formed(),
        ensures
            run.well_formed(),
            run.action == self.action,
            run.phase@ == next_phase(self.action, self.phase@, event),
    {
        let action = self.action;
        let target = action.container_id().unwrap();
        let phase = match (self.phase, event) {
            (EventWaitPhase::CheckExists, EventWaitEvent::Tree(reply)) => {
                match container_exists(reply, target) {
                    Ok(true) => EventWaitPhase::Subscribe,
                    Ok(false) => EventWaitPhase::Failed(container_gone(target)),
                    Err(error) => EventWaitPhase::Failed(error),
                }
            },
            (EventWaitPhase::Subscribe, EventWaitEvent::Subscribed(result)) => match result {
                Ok(()) => if action.may_be_satisfied() {
                    EventWaitPhase::CheckState
                } else {
                    EventWaitPhase::Send
                },
                Err(error) => EventWaitPhase::Failed(error),
            },
            (EventWaitPhase::CheckState, EventWaitEvent::Tree(reply)) => {
                match action.state_satisfied(reply) {
                    Ok(true) => EventWaitPhase::Done {
                        container_id: target,
                        outcome: ActionOutcome::AlreadySatisfied,
                    },
                    Ok(false) => EventWaitPhase::Send,
                    Err(error) => EventWaitPhase::Failed(error),
                }
            },
            (EventWaitPhase::Send, EventWaitEvent::Sent { reply, deadline }) => {
                match run_sway_command(action.sway_command().as_str(), reply) {
                    Ok(()) => match deadline {
                        Some(deadline) => EventWaitPhase::Measure { deadline },
                        None => Self::timed_out(action),
                    },
                    Err(error) => EventWaitPhase::Failed(error),
                }
            },
            (EventWaitPhase::Measure { deadline }, EventWaitEvent::Clock(now)) => {
                if deadline.saturating_sub(now).is_zero() {
                    Self::timed_out(action)
                } else {
                    EventWaitPhase::Receive { deadline, now }
                }
            },
            (EventWaitPhase::Receive { deadline, .. }, EventWaitEvent::Received(received)) => {
                match received {
                    Received::Window(window) => match action.matches_window_event(&window) {
                        Ok(_) => EventWaitPhase::Confirm {
                            deadline,
                            container_id: window.container.id,
                        },
                        Err(_) => EventWaitPhase::Measure { deadline },
                    },
                    Received::OtherEvent => EventWaitPhase::Measure { deadline },
                    Received::TimedOut => Self::timed_out(action),
                    Received::Closed => EventWaitPhase::Failed(STREAM_CLOSED_ERROR.to_owned()),
                    Received::Unreadable(error) => EventWaitPhase::Failed(error),
                }
            },
            (EventWaitPhase::Confirm { deadline, container_id }, EventWaitEvent::Tree(reply)) => {
                match action.state_satisfied(reply) {
                    Ok(true) => EventWaitPhase::Done {
                        container_id,
                        outcome: ActionOutcome::Changed,
                    },
                    Ok(false) => EventWaitPhase::Measure { deadline },
                    Err(error) => EventWaitPhase::Failed(error),
                }
            },
            (phase, _) => phase,
        };
        EventWaitRun { action, phase }
    }
}

/// How far along a phase is.
pub open spec fn rank(phase: EventWaitPhase<Seq<char>>) -> nat {
    match phase {
        EventWaitPhase::CheckExists => 0,
        EventWaitPhase::Subscribe => 1,
        EventWaitPhase::CheckState => 2,
        EventWaitPhase::Send => 3,
        EventWaitPhase::Measure { .. }
        | EventWaitPhase::Receive { .. }
        | EventWaitPhase::Confirm { .. } => 4,
        EventWaitPhase::Done { .. } | EventWaitPhase::Failed(_) => 5,
    }
}

/// The phase after a sequence of events, from the start.
pub open spec fn phase_after(action: SwayAction, events: Seq<EventWaitEvent>) -> EventWaitPhase<
    Seq<char>,
>
    decreases events.len(),
{
    if events.len() == 0 {
        EventWaitPhase::CheckExists
    } else {
        next_phase(action, phase_after(action, events.drop_last()), events.last())
    }
}

/// A run never goes back, so that it sends its command once at most, and once
/// at its end it stays there.
pub proof fn law_a_run_never_goes_back(
    action: SwayAction,
    phase: EventWaitPhase<Seq<char>>,
    event: EventWaitEvent,
)
    ensures
        rank(next_phase(action, phase, event)) >= rank(phase),
        phase is Send && next_phase(action, phase, event) != phase ==> rank(
            next_phase(action, phase, event),
        ) > rank(phase),
        phase is Done || phase is Failed ==> next_phase(action, phase, event) == phase,
{
}

/// Whether an event is a tree that shows a container.
pub open spec fn shows_container(event: EventWaitEvent, container_id: i64) -> bool {
    event matches EventWaitEvent::Tree(Reply::Answer(tree)) && tree::has_id(
        tree::preorder(tree),
        container_id,
    )
}

/// A run that is commented on tells of each event that ends it with success, and
/// of each event of a window that does not confirm the action.
pub proof fn law_the_end_of_a_run_is_told(
    action: SwayAction,
    phase: EventWaitPhase<Seq<char>>,
    event: EventWaitEvent,
)
    requires
        action.is_verbose(),
        !(phase is Done),
    ensures
        next_phase(action, phase, event) is Done ==> told(action, phase, event) is Some,
        phase is Receive && (event matches EventWaitEvent::Received(Received::Window(window))
            && action.event_match(window) is Err) ==> told(action, phase, event) is Some,
{
}

/// The container was seen before anything else was done: no subscription is
/// asked for, and no command, but after a tree that shows it. So a compositor
/// that does not answer is noticed before the wait for events, and nothing is
/// sent for a window that is gone.
pub proof fn law_the_container_is_seen_first(action: SwayAction, events: Seq<EventWaitEvent>)
    requires
        action.has_state(),
        1 <= rank(phase_after(action, events)),
        !(phase_after(action, events) is Failed),
    ensures
        exists|i: int|
            0 <= i < events.len() && phase_after(action, #[trigger] events.take(i))
                == EventWaitPhase::<Seq<char>>::CheckExists && shows_container(
                events[i],
                action.target()->0,
            ),
    decreases events.len(),
{
    if events.len() > 0 {
        let init = events.drop_last();
        let last = events.len() - 1;
        let before = phase_after(action, init);
        assert(events.take(last) =~= init);
        if 1 <= rank(before) && !(before is Failed) {
            law_the_container_is_seen_first(action, init);
            let i = choose|i: int|
                0 <= i < init.len() && phase_after(action, #[trigger] init.take(i))
                    == EventWaitPhase::<Seq<char>>::CheckExists && shows_container(
                    init[i],
                    action.target()->0,
                );
            assert(init.take(i) =~= events.take(i));
            assert(events[i] == init[i]);
        } else {
            assert(before == EventWaitPhase::<Seq<char>>::CheckExists);
            assert(phase_after(action, events.take(last)) == before);
        }
    }
}

/// Whether an event is that the subscription was made.
pub open spec fn subscription_made(event: EventWaitEvent) -> bool {
    event matches EventWaitEvent::Subscribed(Ok(_))
}

/// The subscription is open before the state is looked at and before the
/// command is sent, so that a change by someone else shows either in the look
/// or in an event: no phase from the look on is reached but by a subscription
/// that succeeded.
pub proof fn law_subscribed_before_anything_is_decided(
    action: SwayAction,
    events: Seq<EventWaitEvent>,
)
    requires
        action.has_state(),
        2 <= rank(phase_after(action, events)),
        !(phase_after(action, events) is Failed),
    ensures
        exists|i: int|
            0 <= i < events.len() && phase_after(action, #[trigger] events.take(i))
                == EventWaitPhase::<Seq<char>>::Subscribe && subscription_made(events[i]),
    decreases events.len(),
{
    if events.len() > 0 {
        let init = events.drop_last();
        let last = events.len() - 1;
        let before = phase_after(action, init);
        assert(events.take(last) =~= init);
        if 2 <= rank(before) && !(before is Failed) {
            law_subscribed_before_anything_is_decided(action, init);
            let i = choose|i: int|
                0 <= i < init.len() && phase_after(action, #[trigger] init.take(i))
                    == EventWaitPhase::<Seq<char>>::Subscribe && subscription_made(init[i]);
            assert(init.take(i) =~= events.take(i));
            assert(events[i] == init[i]);
        } else {
            assert(before == EventWaitPhase::<Seq<char>>::Subscribe);
            assert(phase_after(action, events.take(last)) == before);
        }
    }
}

/// A change is reported only where an event matched the action and a tree that
/// was read after it shows the state that the action asks for; and nothing but
/// a tree that shows it makes an action be reported as done.
pub proof fn law_an_event_alone_confirms_nothing(
    action: SwayAction,
    phase: EventWaitPhase<Seq<char>>,
    event: EventWaitEvent,
)
    requires
        !(phase is Done),
        next_phase(action, phase, event) is Done,
    ensures
        event matches EventWaitEvent::Tree(Reply::Answer(tree)) && action.holds_in(tree),
        match next_phase(action, phase, event) {
            EventWaitPhase::Done { container_id, outcome: ActionOutcome::Changed } => phase matches
                EventWaitPhase::Confirm { container_id: id, .. } && id == container_id,
            EventWaitPhase::Done { container_id, outcome } => phase is CheckState && outcome
                == ActionOutcome::AlreadySatisfied && action.target() == Some(container_id),
            _ => true,
        },
{
}

/// Only an event that matches the action makes a run look at the state, so
/// that what it then reports is of the action's own container.
pub proof fn law_confirmation_is_of_the_actions_container(
    action: SwayAction,
    events: Seq<EventWaitEvent>,
)
    requires
        action.has_state(),
    ensures
        phase_after(action, events) matches EventWaitPhase::Confirm { container_id, .. }
            ==> action.target() == Some(container_id),
        phase_after(action, events) matches EventWaitPhase::Done { container_id, .. }
            ==> action.target() == Some(container_id),
    decreases events.len(),
{
    if events.len() > 0 {
        law_confirmation_is_of_the_actions_container(action, events.drop_last());
    }
}

/// Once the time limit has passed no event is waited for any more.
pub proof fn law_the_time_limit_is_kept(
    action: SwayAction,
    deadline: Duration,
    now: Duration,
)
    requires
        now@ >= deadline@,
    ensures
        next_phase(action, EventWaitPhase::Measure { deadline }, EventWaitEvent::Clock(now))
            == EventWaitPhase::Failed(confirmation::timeout_error(action.time()@)),
{
}

/// Where the state that an action asks for holds already, right after the
/// subscription, the run ends there: for a workspace, an output, floating,
/// fullscreen, the focus and the scratchpad alike, the state is looked at, no
/// command is asked for, and the container is reported as satisfied already.
pub proof fn law_what_holds_already_ends_a_run(action: SwayAction, first: Node, tree: Node)
    requires
        action is Workspace || action is Output || action is Floating || action is Fullscreen
            || action is Focus || action is Scratchpad,
        tree::has_id(tree::preorder(first), action.target()->0),
        action.holds_in(tree),
    ensures
        ({
            let seen = EventWaitEvent::Tree(Reply::Answer(first));
            let subscribed = EventWaitEvent::Subscribed(Ok(()));
            let looked = EventWaitEvent::Tree(Reply::Answer(tree));
            &&& action.target() is Some
            &&& asked(action, phase_after(action, seq![])) is ReadTree
            &&& asked(action, phase_after(action, seq![seen])) is Subscribe
            &&& asked(action, phase_after(action, seq![seen, subscribed])) is ReadTree
            &&& asked(action, phase_after(action, seq![seen, subscribed, looked])) == EventWaitRequest::<
                Seq<char>,
                nat,
            >::Finish(Ok((action.target()->0, ActionOutcome::AlreadySatisfied)))
        }),
{
    let seen = EventWaitEvent::Tree(Reply::Answer(first));
    let subscribed = EventWaitEvent::Subscribed(Ok(()));
    let looked = EventWaitEvent::Tree(Reply::Answer(tree));
    lemma_phase_after_pushed(action, seq![], seen);
    lemma_phase_after_pushed(action, seq![seen], subscribed);
    lemma_phase_after_pushed(action, seq![seen, subscribed], looked);
    assert(Seq::<EventWaitEvent>::empty().push(seen) =~= seq![seen]);
    assert(seq![seen].push(subscribed) =~= seq![seen, subscribed]);
    assert(seq![seen, subscribed].push(looked) =~= seq![seen, subscribed, looked]);
}

proof fn lemma_phase_after_pushed(
    action: SwayAction,
    events: Seq<EventWaitEvent>,
    event: EventWaitEvent,
)
    ensures
        phase_after(action, events.push(event)) == next_phase(
            action,
            phase_after(action, events),
            event,
        ),
{
    assert(events.push(event).drop_last() =~= events);
}

/// Where the state does not hold yet, and for a mark in any case, the command of
/// the action is what is asked to be sent.
pub proof fn law_what_does_not_hold_yet_is_sent(action: SwayAction, tree: Node)
    requires
        action.has_state(),
    ensures
        action is Mark ==> asked(
            action,
            next_phase(action, EventWaitPhase::Subscribe, EventWaitEvent::Subscribed(Ok(()))),
        ) == EventWaitRequest::<Seq<char>, nat>::Send(action.command()),
        !(action is Mark) && !action.holds_in(tree) ==> asked(
            action,
            next_phase(
                action,
                next_phase(action, EventWaitPhase::Subscribe, EventWaitEvent::Subscribed(Ok(()))),
                EventWaitEvent::Tree(Reply::Answer(tree)),
            ),
        ) == EventWaitRequest::<Seq<char>, nat>::Send(action.command()),
{
}

/// A container that is not in the tree, and a tree that could not be read, end
/// a run before anything is asked for but the tree.
pub proof fn law_a_window_that_is_gone_ends_a_run(action: SwayAction, reply: Reply<Node>)
    requires
        action.has_state(),
    ensures
        ({
            let next = asked(
                action,
                next_phase(action, EventWaitPhase::CheckExists, EventWaitEvent::Tree(reply)),
            );
            match reply {
                Reply::Answer(tree) => if tree::has_id(tree::preorder(tree), action.target()->0) {
                    next is Subscribe
                } else {
                    next == EventWaitRequest::<Seq<char>, nat>::Finish(
                        Err(
                            "container id "@ + text::signed_decimal(action.target()->0 as int)
                                + " no longer exists — window may have closed"@,
                        ),
                    )
                },
                _ => next == EventWaitRequest::<Seq<char>, nat>::Finish(Err(reply.error()->0)),
            }
        }),
{
}

/// Once the command is sent, the wait is for what is left of the time limit: a
/// refused command, or a limit beyond all time, ends the run with its report.
pub proof fn law_a_sent_command_is_waited_for_until_its_time_limit(
    action: SwayAction,
    reply: Reply<Vec<Result<(), String>>>,
    deadline: Option<Duration>,
    now: Duration,
)
    requires
        action.has_state(),
    ensures
        ({
            let sent = next_phase(
                action,
                EventWaitPhase::Send,
                EventWaitEvent::Sent { reply, deadline },
            );
            match ipc::command_error(reply, action.command()) {
                Some(error) => asked(action, sent) == EventWaitRequest::<Seq<char>, nat>::Finish(
                    Err(error),
                ),
                None => match deadline {
                    None => asked(action, sent) == EventWaitRequest::<Seq<char>, nat>::Finish(
                        Err(text::decimal(action.time()@ / 1_000_000_000) + " sec timeout reached"@),
                    ),
                    Some(deadline) => {
                        let measured = next_phase(action, sent, EventWaitEvent::Clock(now));
                        &&& asked(action, sent) is ReadClock
                        &&& now@ < deadline@ ==> asked(action, measured) == EventWaitRequest::<
                            Seq<char>,
                            nat,
                        >::Receive((deadline@ - now@) as nat)
                        &&& now@ >= deadline@ ==> asked(action, measured) == EventWaitRequest::<
                            Seq<char>,
                            nat,
                        >::Finish(
                            Err(
                                text::decimal(action.time()@ / 1_000_000_000)
                                    + " sec timeout reached"@,
                            ),
                        )
                    },
                },
            }
        }),
{
}

/// An event of the action's own kind and container makes the run look at the
/// tree, and what the tree shows decides: a change that is seen ends the run, one
/// that is not is waited for further. Other events are passed over, and an end
/// of the events ends the run with its report.
pub proof fn law_an_event_is_followed_by_a_look(
    action: SwayAction,
    deadline: Duration,
    now: Duration,
    received: Received,
    tree: Node,
)
    requires
        action.has_state(),
    ensures
        ({
            let next = next_phase(
                action,
                EventWaitPhase::Receive { deadline, now },
                EventWaitEvent::Received(received),
            );
            let looked = next_phase(action, next, EventWaitEvent::Tree(Reply::Answer(tree)));
            match received {
                Received::Window(window) => if action.confirming_change() == Some(window.change)
                    && action.target() == Some(window.container.id) {
                    &&& asked(action, next) is ReadTree
                    &&& action.holds_in(tree) ==> asked(action, looked) == EventWaitRequest::<
                        Seq<char>,
                        nat,
                    >::Finish(Ok((window.container.id, ActionOutcome::Changed)))
                    &&& !action.holds_in(tree) ==> looked == (EventWaitPhase::<
                        Seq<char>,
                    >::Measure { deadline })
                } else {
                    next == (EventWaitPhase::<Seq<char>>::Measure { deadline })
                },
                Received::OtherEvent => next == (EventWaitPhase::<Seq<char>>::Measure { deadline }),
                Received::TimedOut => asked(action, next) == EventWaitRequest::<
                    Seq<char>,
                    nat,
                >::Finish(
                    Err(text::decimal(action.time()@ / 1_000_000_000) + " sec timeout reached"@),
                ),
                Received::Closed => asked(action, next) == EventWaitRequest::<Seq<char>, nat>::Finish(
                    Err("Event stream closed unexpectedly"@),
                ),
                Received::Unreadable(error) => asked(action, next) == EventWaitRequest::<
                    Seq<char>,
                    nat,
                >::Finish(Err(error@)),
            }
        }),
{
    assert(STREAM_CLOSED_ERROR@ == "Event stream closed unexpectedly"@);
    if let Received::Window(window) = received {
        confirmation::law_an_event_matches_by_its_kind_and_container(action, window);
    }
}

/// What is told of a run: its command when it is sent; that the state held
/// already; each event that did not match, and why; and each that did, with
/// whether the state came with it.
pub proof fn law_what_is_told_of_a_run(
    action: SwayAction,
    deadline: Duration,
    now: Duration,
    container_id: i64,
    window: WindowEvent,
    tree: Node,
)
    requires
        action.has_state(),
        action.is_verbose(),
    ensures
        announced(action, EventWaitPhase::Send) == Some("Sway command: "@ + action.command()),
        action.holds_in(tree) ==> told(
            action,
            EventWaitPhase::CheckState,
            EventWaitEvent::Tree(Reply::Answer(tree)),
        ) == Some(
            "Already at target, nothing to move (container id: "@ + text::signed_decimal(
                action.target()->0 as int,
            ) + ")"@,
        ),
        action.event_match(window) matches Err(mismatch) ==> told(
            action,
            EventWaitPhase::Receive { deadline, now },
            EventWaitEvent::Received(Received::Window(window)),
        ) == Some(
            "Event mismatch: "@ + window.change.display() + " container id "@ + text::signed_decimal(
                window.container.id as int,
            ) + " ("@ + mismatch.display() + ")"@,
        ),
        ({
            let line = "Event match: "@ + action.confirming_change()->0.display()
                + " container id "@ + text::signed_decimal(container_id as int)
                + " (Window container id match)"@;
            told(
                action,
                EventWaitPhase::Confirm { deadline, container_id },
                EventWaitEvent::Tree(Reply::Answer(tree)),
            ) == Some(
                if action.holds_in(tree) {
                    line
                } else {
                    line
                        + ", but the requested state is not in effect — another client may be driving this window; waiting for the next event"@
                },
            )
        }),
{
    reveal_strlit(" (");
    reveal_strlit(")");
    reveal_strlit(" container id ");
    reveal_strlit("Window container id match");
    reveal_strlit(" (Window container id match)");
    if let Err(mismatch) = action.event_match(window) {
        assert("Event mismatch: "@ + window.change.display() + (" container id "@
            + text::signed_decimal(window.container.id as int) + " ("@) + mismatch.display() + ")"@
            =~= "Event mismatch: "@ + window.change.display() + " container id "@
            + text::signed_decimal(window.container.id as int) + " ("@ + mismatch.display() + ")"@);
    }
    let change = action.confirming_change()->0;
    assert("Event match: "@ + change.display() + (" container id "@ + text::signed_decimal(
        container_id as int,
    ) + " ("@) + "Window container id match"@ + ")"@ =~= "Event match: "@ + change.display()
        + " container id "@ + text::signed_decimal(container_id as int)
        + " (Window container id match)"@);
}

/// Nothing is told of a run that is not to be commented on.
pub proof fn law_a_quiet_run_tells_nothing(
    action: SwayAction,
    phase: EventWaitPhase<Seq<char>>,
    event: EventWaitEvent,
)
    requires
        !action.is_verbose(),
    ensures
        announced(action, phase) is None,
        told(action, phase, event) is None,
{
}

/// What stands in a request, and in the phase of a run, is what is seen of it.
pub proof fn law_a_run_is_seen_as_it_is(
    request: EventWaitRequest<String, Duration>,
    phase: EventWaitPhase<String>,
)
    ensures
        request@ is ReadTree <==> request is ReadTree,
        request@ is Subscribe <==> request is Subscribe,
        request@ is ReadClock <==> request is ReadClock,
        request matches EventWaitRequest::Send(command) ==> request@ == EventWaitRequest::<
            Seq<char>,
            nat,
        >::Send(command@),
        request matches EventWaitRequest::Receive(span) ==> request@ == EventWaitRequest::<
            Seq<char>,
            nat,
        >::Receive(span@),
        request matches EventWaitRequest::Finish(Ok(result)) ==> request@ == EventWaitRequest::<
            Seq<char>,
            nat,
        >::Finish(Ok(result)),
        request matches EventWaitRequest::Finish(Err(error)) ==> request@ == EventWaitRequest::<
            Seq<char>,
            nat,
        >::Finish(Err(error@)),
        phase@ is CheckExists <==> phase is CheckExists,
        phase matches EventWaitPhase::Done { container_id, outcome } ==> phase@ == (
        EventWaitPhase::<Seq<char>>::Done { container_id, outcome }),
        phase matches EventWaitPhase::Failed(error) ==> phase@ == EventWaitPhase::<
            Seq<char>,
        >::Failed(error@),
{
}

/// An event that was not asked for changes nothing.
pub proof fn law_only_what_was_asked_for_counts(
    action: SwayAction,
    phase: EventWaitPhase<Seq<char>>,
    event: EventWaitEvent,
)
    ensures
        ({
            let request = asked(action, phase);
            let answers = match event {
                EventWaitEvent::Tree(_) => request is ReadTree,
                EventWaitEvent::Subscribed(_) => request is Subscribe,
                EventWaitEvent::Sent { .. } => request is Send,
                EventWaitEvent::Clock(_) => request is ReadClock,
                EventWaitEvent::Received(_) => request is Receive,
            };
            !answers ==> next_phase(action, phase, event) == phase
        }),
{
}

/// A tree that could not be read ends a run with the reason, whatever it was
/// read for, and so does a subscription that could not be made.
pub proof fn law_what_cannot_be_read_ends_a_run(
    action: SwayAction,
    phase: EventWaitPhase<Seq<char>>,
    reply: Reply<Node>,
    error: String,
)
    requires
        !(reply is Answer),
    ensures
        asked(action, phase) is ReadTree ==> next_phase(action, phase, EventWaitEvent::Tree(reply))
            == EventWaitPhase::<Seq<char>>::Failed(reply.error()->0),
        asked(action, phase) is Subscribe ==> next_phase(
            action,
            phase,
            EventWaitEvent::Subscribed(Err(error)),
        ) == EventWaitPhase::<Seq<char>>::Failed(error@),
{
}

/// Nothing is announced but a command, and no event is told of but those of a
/// look at the state, of a window and of its confirmation.
pub proof fn law_nothing_else_is_told_of_a_run(
    action: SwayAction,
    phase: EventWaitPhase<Seq<char>>,
    event: EventWaitEvent,
)
    ensures
        !(phase is Send) ==> announced(action, phase) is None,
        !(phase is CheckState || phase is Receive || phase is Confirm) ==> told(
            action,
            phase,
            event,
        ) is None,
        phase is Receive && !(event matches EventWaitEvent::Received(Received::Window(_))) ==> told(
            action,
            phase,
            event,
        ) is None,
        (event matches EventWaitEvent::Received(Received::Window(window)) && action.event_match(
            window,
        ) is Ok) ==> told(action, phase, event) is None,
        (event matches EventWaitEvent::Tree(Reply::Answer(tree)) && phase is CheckState
            && !action.holds_in(tree)) ==> told(action, phase, event) is None,
{
}

} // verus!
