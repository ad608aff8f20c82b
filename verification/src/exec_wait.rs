//! Launching a command and finding its window.
//!
//! Window events go to every client, so a new window that matches by its app
//! id or class need not be the launched command's. The launched command's
//! environment therefore carries a marker, and a window whose process carries
//! it is taken at once. The first window that matches without it is held back:
//! it is the launched one by elimination where the processes can be looked at
//! and none carries the marker any more, and is adopted, not claimed, where
//! nothing better comes in time.
//!
//! A run is a sequence of requests to the outside and the events that answer
//! them. The phase of a run says what is asked for next. Points in time are
//! counted from a fixed start of the caller's choice.

use crate::action::SwayAction;
use crate::confirmation::{tell_event, timeout_reached, WindowChange, STREAM_CLOSED_ERROR};
use crate::confirmation;
use crate::event_wait::Received;
use crate::ipc::{run_sway_command, Reply};
use crate::ipc;
use crate::outcome::LaunchOwnership;
use crate::process_marker::{MarkerScan, PID_MARKER_FALLBACK_GRACE};
use crate::text;
use crate::time::Duration;
use crate::time;
use vstd::prelude::*;

verus! {

broadcast use vstd::string::group_string_axioms;

/// A window that matches without the marker, and when it was first seen.
#[derive(Copy, Clone, Debug, PartialEq, Eq, Structural)]
pub struct Candidate {
    pub container_id: i64,
    pub first_seen: Duration,
}

/// How far a launch has come. `E` is the type of an error's text.
#[derive(Debug)]
pub enum ExecWaitPhase<E> {
    /// To subscribe, so that the window's event is not missed.
    Subscribe,
    /// To send the command.
    Send,
    /// To see how much time is left.
    Measure { deadline: Duration, fallback: Option<Candidate> },
    /// To wait for an event.
    Receive { deadline: Duration, fallback: Option<Candidate>, now: Duration },
    /// To see whether a matching window's process carries the marker.
    Identify {
        deadline: Duration,
        fallback: Option<Candidate>,
        container_id: i64,
        pid: Option<i32>,
    },
    /// To see whether any process carries the marker.
    Scan { deadline: Duration, candidate: Candidate },
    /// At the end: the window, and whether it is known to be the launched one.
    Done { container_id: i64, ownership: LaunchOwnership },
    /// At the end, by an error.
    Failed(E),
}

/// What a launch asks for. `T` is the type of a text, `D` that of a span of
/// time.
#[derive(Debug)]
pub enum ExecWaitRequest<T, D> {
    /// A subscription to window events.
    Subscribe,
    /// That a command is sent, and then the point in time at which the
    /// action's time limit ends, where there is such a point.
    Send(T),
    /// The time.
    ReadClock,
    /// An event of the subscription, within a span of time.
    Receive(D),
    /// Whether a process carries the marker, and the time.
    CheckProcess(Option<i32>),
    /// Whether any process carries the marker.
    ScanProcesses,
    /// Nothing more: the window and whose it is, or an error.
    Finish(Result<(i64, LaunchOwnership), T>),
}

/// What answers a request.
#[derive(Debug)]
pub enum ExecWaitEvent {
    Subscribed(Result<(), String>),
    Sent { reply: Reply<Vec<Result<(), String>>>, deadline: Option<Duration> },
    Clock(Duration),
    Received(Received),
    ProcessChecked { marked: bool, now: Duration },
    ProcessesScanned { scan: MarkerScan },
}

/// A launch.
#[derive(Debug)]
pub struct ExecWaitRun<'a> {
    pub action: SwayAction<'a>,
    pub token: String,
    pub phase: ExecWaitPhase<String>,
}

impl View for ExecWaitPhase<String> {
    type V = ExecWaitPhase<Seq<char>>;

    open spec fn view(&self) -> ExecWaitPhase<Seq<char>> {
        match *self {
            ExecWaitPhase::Subscribe => ExecWaitPhase::Subscribe,
            ExecWaitPhase::Send => ExecWaitPhase::Send,
            ExecWaitPhase::Measure { deadline, fallback } => ExecWaitPhase::Measure {
                deadline,
                fallback,
            },
            ExecWaitPhase::Receive { deadline, fallback, now } => ExecWaitPhase::Receive {
                deadline,
                fallback,
                now,
            },
            ExecWaitPhase::Identify { deadline, fallback, container_id, pid } => {
                ExecWaitPhase::Identify { deadline, fallback, container_id, pid }
            },
            ExecWaitPhase::Scan { deadline, candidate } => ExecWaitPhase::Scan {
                deadline,
                candidate,
            },
            ExecWaitPhase::Done { container_id, ownership } => ExecWaitPhase::Done {
                container_id,
                ownership,
            },
            ExecWaitPhase::Failed(error) => ExecWaitPhase::Failed(error@),
        }
    }
}

impl View for ExecWaitRequest<String, Duration> {
    type V = ExecWaitRequest<Seq<char>, nat>;

    open spec fn view(&self) -> ExecWaitRequest<Seq<char>, nat> {
        match *self {
            ExecWaitRequest::Subscribe => ExecWaitRequest::Subscribe,
            ExecWaitRequest::Send(command) => ExecWaitRequest::Send(command@),
            ExecWaitRequest::ReadClock => ExecWaitRequest::ReadClock,
            ExecWaitRequest::Receive(span) => ExecWaitRequest::Receive(span@),
            ExecWaitRequest::CheckProcess(pid) => ExecWaitRequest::CheckProcess(pid),
            ExecWaitRequest::ScanProcesses => ExecWaitRequest::ScanProcesses,
            ExecWaitRequest::Finish(Ok(result)) => ExecWaitRequest::Finish(Ok(result)),
            ExecWaitRequest::Finish(Err(error)) => ExecWaitRequest::Finish(Err(error@)),
        }
    }
}

/// When the waiting ends: at the time limit, or sooner where a window is held
/// back and its grace is over.
pub open spec fn wait_end(deadline: Duration, fallback: Option<Candidate>) -> nat {
    match fallback {
        Some(candidate) => {
            let capped = candidate.first_seen@ + time::millis_as_nanos(
                PID_MARKER_FALLBACK_GRACE as nat,
            );
            if capped < deadline@ {
                capped
            } else {
                deadline@
            }
        },
        None => deadline@,
    }
}

/// The time left until the waiting ends.
pub open spec fn wait_left(deadline: Duration, fallback: Option<Candidate>, now: Duration) -> nat {
    if wait_end(deadline, fallback) >= now@ {
        (wait_end(deadline, fallback) - now@) as nat
    } else {
        0
    }
}

/// The phase after an event. An event that was not asked for changes nothing.
pub open spec fn next_phase(
    action: SwayAction,
    token: Seq<char>,
    phase: ExecWaitPhase<Seq<char>>,
    event: ExecWaitEvent,
) -> ExecWaitPhase<Seq<char>> {
    let timed_out = ExecWaitPhase::Failed(confirmation::timeout_error(action.time()@));
    match (phase, event) {
        (ExecWaitPhase::Subscribe, ExecWaitEvent::Subscribed(result)) => match result {
            Ok(()) => ExecWaitPhase::Send,
            Err(error) => ExecWaitPhase::Failed(error@),
        },
        (ExecWaitPhase::Send, ExecWaitEvent::Sent { reply, deadline }) => {
            match ipc::command_error(reply, action.marked_command(token)) {
                Some(error) => ExecWaitPhase::Failed(error),
                None => match deadline {
                    Some(deadline) => ExecWaitPhase::Measure { deadline, fallback: None },
                    None => timed_out,
                },
            }
        },
        (ExecWaitPhase::Measure { deadline, fallback }, ExecWaitEvent::Clock(now)) => {
            if wait_left(deadline, fallback, now) > 0 {
                ExecWaitPhase::Receive { deadline, fallback, now }
            } else {
                match fallback {
                    Some(candidate) => ExecWaitPhase::Done {
                        container_id: candidate.container_id,
                        ownership: LaunchOwnership::Adopted,
                    },
                    None => timed_out,
                }
            }
        },
        (ExecWaitPhase::Receive { deadline, fallback, .. }, ExecWaitEvent::Received(received)) => {
            match received {
                Received::Window(window) => if action.event_match(window) is Ok {
                    ExecWaitPhase::Identify {
                        deadline,
                        fallback,
                        container_id: window.container.id,
                        pid: window.container.pid,
                    }
                } else {
                    ExecWaitPhase::Measure { deadline, fallback }
                },
                Received::OtherEvent | Received::TimedOut => ExecWaitPhase::Measure {
                    deadline,
                    fallback,
                },
                Received::Closed => ExecWaitPhase::Failed(STREAM_CLOSED_ERROR@),
                Received::Unreadable(error) => ExecWaitPhase::Failed(error@),
            }
        },
        (
            ExecWaitPhase::Identify { deadline, fallback, container_id, pid },
            ExecWaitEvent::ProcessChecked { marked, now },
        ) => {
            if pid is Some && marked {
                ExecWaitPhase::Done { container_id, ownership: LaunchOwnership::Launched }
            } else {
                ExecWaitPhase::Scan {
                    deadline,
                    candidate: match fallback {
                        Some(candidate) => candidate,
                        None => Candidate { container_id, first_seen: now },
                    },
                }
            }
        },
        (
            ExecWaitPhase::Scan { deadline, candidate },
            ExecWaitEvent::ProcessesScanned { scan },
        ) => match scan {
            MarkerScan::Unmarked => ExecWaitPhase::Done {
                container_id: candidate.container_id,
                ownership: LaunchOwnership::Launched,
            },
            MarkerScan::Marked | MarkerScan::Unreadable | MarkerScan::Unlisted => {
                ExecWaitPhase::Measure { deadline, fallback: Some(candidate) }
            },
        },
        _ => phase,
    }
}

/// What is asked for in a phase.
pub open spec fn asked(
    action: SwayAction,
    token: Seq<char>,
    phase: ExecWaitPhase<Seq<char>>,
) -> ExecWaitRequest<Seq<char>, nat> {
    match phase {
        ExecWaitPhase::Subscribe => ExecWaitRequest::Subscribe,
        ExecWaitPhase::Send => ExecWaitRequest::Send(action.marked_command(token)),
        ExecWaitPhase::Measure { .. } => ExecWaitRequest::ReadClock,
        ExecWaitPhase::Receive { deadline, fallback, now } => ExecWaitRequest::Receive(
            wait_left(deadline, fallback, now),
        ),
        ExecWaitPhase::Identify { pid, .. } => ExecWaitRequest::CheckProcess(pid),
        ExecWaitPhase::Scan { .. } => ExecWaitRequest::ScanProcesses,
        ExecWaitPhase::Done { container_id, ownership } => ExecWaitRequest::Finish(
            Ok((container_id, ownership)),
        ),
        ExecWaitPhase::Failed(error) => ExecWaitRequest::Finish(Err(error)),
    }
}

/// What is told in a phase before what it asks for is done: nothing unless the
/// launch is to be commented on.
pub open spec fn announced(
    action: SwayAction,
    token: Seq<char>,
    phase: ExecWaitPhase<Seq<char>>,
) -> Option<Seq<char>> {
    if action.is_verbose() && phase is Send {
        Some("Sway command: "@ + action.marked_command(token))
    } else {
        None
    }
}

/// What is told of an event in a phase: nothing unless the launch is to be
/// commented on.
pub open spec fn told(
    action: SwayAction,
    phase: ExecWaitPhase<Seq<char>>,
    event: ExecWaitEvent,
) -> Option<Seq<char>> {
    if !action.is_verbose() {
        None
    } else {
        match (phase, event) {
            (
                ExecWaitPhase::Measure { deadline, fallback: Some(candidate) },
                ExecWaitEvent::Clock(now),
            ) => if wait_left(deadline, Some(candidate), now) == 0 {
                Some(
                    text::around(
                        "No PID-marker-confirmed match arrived; using earlier content-matched container id "@,
                        candidate.container_id as int,
                        " (adopted, not confirmed as launched by this run)"@,
                    ),
                )
            } else {
                None
            },
            (
                ExecWaitPhase::Identify { fallback, container_id, pid, .. },
                ExecWaitEvent::ProcessChecked { marked, .. },
            ) => if pid is Some && marked {
                Some(
                    confirmation::event_line(
                        "Event match: "@,
                        WindowChange::New,
                        container_id as int,
                        "PID-marker-confirmed"@,
                    ),
                )
            } else if fallback is None {
                Some(
                    text::around(
                        "Event content-matches but PID marker unconfirmed (container id "@,
                        container_id as int,
                        ") — keeping as a fallback candidate"@,
                    ),
                )
            } else {
                None
            },
            (ExecWaitPhase::Scan { candidate, .. }, ExecWaitEvent::ProcessesScanned { scan }) => {
                match scan {
                    MarkerScan::Marked | MarkerScan::Unreadable => None,
                    MarkerScan::Unmarked => Some(
                        text::around(
                            "Marked process no longer running; using fallback container id "@,
                            candidate.container_id as int,
                            " (nothing marker-confirmed can still arrive, so this window is this run's own)"@,
                        ),
                    ),
                    MarkerScan::Unlisted => Some(
                        "Could not read /proc — PID-marker correlation is degraded on this system"@,
                    ),
                }
            },
            _ => None,
        }
    }
}

/// The time left until the waiting ends.
fn remaining(deadline: Duration, fallback: Option<Candidate>, now: Duration) -> (left: Duration)
    ensures
        left@ == wait_left(deadline, fallback, now),
{
    let end = match fallback {
        Some(candidate) => candidate.first_seen.capped_add(
            Duration::from_millis(PID_MARKER_FALLBACK_GRACE),
            deadline,
        ),
        None => deadline,
    };
    end.saturating_sub(now)
}

impl<'a> ExecWaitRun<'a> {
    /// Whether this run is of a launch.
    pub open spec fn well_formed(self) -> bool {
        self.action.launches()
    }

    /// A launch, at its start. The token marks the launched process.
    pub fn start(action: SwayAction<'a>, token: String) -> (run: ExecWaitRun<'a>)
        requires
            action.launches(),
        ensures
            run.well_formed(),
            run.action == action,
            run.token@ == token@,
            run.phase@ == ExecWaitPhase::<Seq<char>>::Subscribe,
    {
        ExecWaitRun { action, token, phase: ExecWaitPhase::Subscribe }
    }

    /// What this launch asks for.
    pub fn request(&self) -> (request: ExecWaitRequest<String, Duration>)
        requires
            self.well_formed(),
        ensures
            request@ == asked(self.action, self.token@, self.phase@),
    {
        match &self.phase {
            ExecWaitPhase::Subscribe => ExecWaitRequest::Subscribe,
            ExecWaitPhase::Send => ExecWaitRequest::Send(
                self.action.exec_sway_command(self.token.as_str()),
            ),
            ExecWaitPhase::Measure { .. } => ExecWaitRequest::ReadClock,
            ExecWaitPhase::Receive { deadline, fallback, now } => ExecWaitRequest::Receive(
                remaining(*deadline, *fallback, *now),
            ),
            ExecWaitPhase::Identify { pid, .. } => ExecWaitRequest::CheckProcess(*pid),
            ExecWaitPhase::Scan { .. } => ExecWaitRequest::ScanProcesses,
            ExecWaitPhase::Done { container_id, ownership } => ExecWaitRequest::Finish(
                Ok((*container_id, *ownership)),
            ),
            ExecWaitPhase::Failed(error) => ExecWaitRequest::Finish(Err(error.clone())),
        }
    }

    /// What is told before what this launch asks for is done.
    pub fn announce(&self) -> (line: Option<String>)
        requires
            self.well_formed(),
        ensures
            text::opt_text(line) == announced(self.action, self.token@, self.phase@),
    {
        match &self.phase {
            ExecWaitPhase::Send => if self.action.verbose() {
                Some(
                    text::concat(
                        "Sway command: ",
                        self.action.exec_sway_command(self.token.as_str()).as_str(),
                    ),
                )
            } else {
                None
            },
            _ => None,
        }
    }

    /// What is told of an event.
    pub fn comment(&self, event: &ExecWaitEvent) -> (line: Option<String>)
        ensures
            text::opt_text(line) == told(self.action, self.phase@, *event),
    {
        if !self.action.verbose() {
            return None;
        }
        match (&self.phase, event) {
            (ExecWaitPhase::Measure { deadline, fallback }, ExecWaitEvent::Clock(now)) => {
                match fallback {
                    Some(candidate) => if remaining(*deadline, *fallback, *now).is_zero() {
                        Some(
                            text::around_number(
                                "No PID-marker-confirmed match arrived; using earlier content-matched container id ",
                                candidate.container_id,
                                " (adopted, not confirmed as launched by this run)",
                            ),
                        )
                    } else {
                        None
                    },
                    None => None,
                }
            },
            (
                ExecWaitPhase::Identify { fallback, container_id, pid, .. },
                ExecWaitEvent::ProcessChecked { marked, .. },
            ) => if pid.is_some() && *marked {
                Some(
                    tell_event(
                        "Event match: ",
                        WindowChange::New,
                        *container_id,
                        "PID-marker-confirmed",
                    ),
                )
            } else if fallback.is_none() {
                Some(
                    text::around_number(
                        "Event content-matches but PID marker unconfirmed (container id ",
                        *container_id,
                        ") — keeping as a fallback candidate",
                    ),
                )
            } else {
                None
            },
            (ExecWaitPhase::Scan { candidate, .. }, ExecWaitEvent::ProcessesScanned { scan }) => {
                match scan {
                    MarkerScan::Marked | MarkerScan::Unreadable => None,
                    MarkerScan::Unmarked => Some(
                        text::around_number(
                            "Marked process no longer running; using fallback container id ",
                            candidate.container_id,
                            " (nothing marker-confirmed can still arrive, so this window is this run's own)",
                        ),
                    ),
                    MarkerScan::Unlisted => Some(
                        "Could not read /proc — PID-marker correlation is degraded on this system".to_owned(),
                    ),
                }
            },
            _ => None,
        }
    }

    fn timed_out(action: SwayAction<'a>) -> (phase: ExecWaitPhase<String>)
        ensures
            phase@ == ExecWaitPhase::Failed(confirmation::timeout_error(action.time()@)),
    {
        ExecWaitPhase::Failed(timeout_reached(action.duration()))
    }

    /// This launch after an event.
    pub fn advance(self, event: ExecWaitEvent) -> (run: ExecWaitRun<'a>)
        requires
            self.well_formed(),
        ensures
            run.well_formed(),
            run.action == self.action,
            run.token@ == self.token@,
            run.phase@ == next_phase(self.action, self.token@, self.phase@, event),
    {
        let action = self.action;
        let token = self.token;
        let phase = match (self.phase, event) {
            (ExecWaitPhase::Subscribe, ExecWaitEvent::Subscribed(result)) => match result {
                Ok(()) => ExecWaitPhase::Send,
                Err(error) => ExecWaitPhase::Failed(error),
            },
            (ExecWaitPhase::Send, ExecWaitEvent::Sent { reply, deadline }) => {
                match run_sway_command(
                    action.exec_sway_command(token.as_str()).as_str(),
                    reply,
                ) {
                    Ok(()) => match deadline {
                        Some(deadline) => ExecWaitPhase::Measure { deadline, fallback: None },
                        None => Self::timed_out(action),
                    },
                    Err(error) => ExecWaitPhase::Failed(error),
                }
            },
            (ExecWaitPhase::Measure { deadline, fallback }, ExecWaitEvent::Clock(now)) => {
                if !remaining(deadline, fallback, now).is_zero() {
                    ExecWaitPhase::Receive { deadline, fallback, now }
                } else {
                    match fallback {
                        Some(candidate) => ExecWaitPhase::Done {
                            container_id: candidate.container_id,
                            ownership: LaunchOwnership::Adopted,
                        },
                        None => Self::timed_out(action),
                    }
                }
            },
            (
                ExecWaitPhase::Receive { deadline, fallback, .. },
                ExecWaitEvent::Received(received),
            ) => match received {
                Received::Window(window) => match action.matches_window_event(&window) {
                    Ok(_) => ExecWaitPhase::Identify {
                        deadline,
                        fallback,
                        container_id: window.container.id,
                        pid: window.container.pid,
                    },
                    Err(_) => ExecWaitPhase::Measure { deadline, fallback },
                },
                Received::OtherEvent | Received::TimedOut => ExecWaitPhase::Measure {
                    deadline,
                    fallback,
                },
                Received::Closed => ExecWaitPhase::Failed(STREAM_CLOSED_ERROR.to_owned()),
                Received::Unreadable(error) => ExecWaitPhase::Failed(error),
            },
            (
                ExecWaitPhase::Identify { deadline, fallback, container_id, pid },
                ExecWaitEvent::ProcessChecked { marked, now },
            ) => {
                if pid.is_some() && marked {
                    ExecWaitPhase::Done { container_id, ownership: LaunchOwnership::Launched }
                } else {
                    let candidate = match fallback {
                        Some(candidate) => candidate,
                        None => Candidate { container_id, first_seen: now },
                    };
                    ExecWaitPhase::Scan { deadline, candidate }
                }
            },
            (
                ExecWaitPhase::Scan { deadline, candidate },
                ExecWaitEvent::ProcessesScanned { scan },
            ) => match scan {
                MarkerScan::Unmarked => ExecWaitPhase::Done {
                    container_id: candidate.container_id,
                    ownership: LaunchOwnership::Launched,
                },
                MarkerScan::Marked | MarkerScan::Unreadable | MarkerScan::Unlisted => {
                    ExecWaitPhase::Measure { deadline, fallback: Some(candidate) }
                },
            },
            (phase, _) => phase,
        };
        ExecWaitRun { action, token, phase }
    }
}

/// The phase after a sequence of events, from the start.
pub open spec fn phase_after(
    action: SwayAction,
    token: Seq<char>,
    events: Seq<ExecWaitEvent>,
) -> ExecWaitPhase<Seq<char>>
    decreases events.len(),
{
    if events.len() == 0 {
        ExecWaitPhase::Subscribe
    } else {
        next_phase(action, token, phase_after(action, token, events.drop_last()), events.last())
    }
}

/// Whether an event is that the subscription was made.
pub open spec fn subscription_made(event: ExecWaitEvent) -> bool {
    event matches ExecWaitEvent::Subscribed(Ok(_))
}

/// The subscription is open before the command is sent, so that the window's
/// event cannot be missed: no later phase is reached but by a subscription
/// that succeeded.
pub proof fn law_subscribed_before_the_launch(
    action: SwayAction,
    token: Seq<char>,
    events: Seq<ExecWaitEvent>,
)
    requires
        !(phase_after(action, token, events) is Subscribe),
        !(phase_after(action, token, events) is Failed),
    ensures
        exists|i: int|
            0 <= i < events.len() && phase_after(action, token, #[trigger] events.take(i))
                == ExecWaitPhase::<Seq<char>>::Subscribe && subscription_made(events[i]),
    decreases events.len(),
{
    if events.len() > 0 {
        let init = events.drop_last();
        let last = events.len() - 1;
        let before = phase_after(action, token, init);
        assert(events.take(last) =~= init);
        if before is Subscribe {
            assert(phase_after(action, token, events.take(last)) == before);
        } else {
            law_subscribed_before_the_launch(action, token, init);
            let i = choose|i: int|
                0 <= i < init.len() && phase_after(action, token, #[trigger] init.take(i))
                    == ExecWaitPhase::<Seq<char>>::Subscribe && subscription_made(init[i]);
            assert(init.take(i) =~= events.take(i));
            assert(events[i] == init[i]);
        }
    }
}

/// The command is sent once at most, and a launch stays at its end.
pub proof fn law_a_launch_is_sent_once(
    action: SwayAction,
    token: Seq<char>,
    phase: ExecWaitPhase<Seq<char>>,
    event: ExecWaitEvent,
)
    ensures
        next_phase(action, token, phase, event) is Subscribe ==> phase is Subscribe,
        next_phase(action, token, phase, event) is Send ==> phase is Subscribe || phase is Send,
        phase is Done || phase is Failed ==> next_phase(action, token, phase, event) == phase,
{
}

/// The window that a phase is about to report, holds back or reports.
pub open spec fn windows_in(phase: ExecWaitPhase<Seq<char>>) -> Set<i64> {
    match phase {
        ExecWaitPhase::Measure { fallback: Some(candidate), .. } => set![candidate.container_id],
        ExecWaitPhase::Receive { fallback: Some(candidate), .. } => set![candidate.container_id],
        ExecWaitPhase::Identify { fallback, container_id, .. } => match fallback {
            Some(candidate) => set![candidate.container_id, container_id],
            None => set![container_id],
        },
        ExecWaitPhase::Scan { candidate, .. } => set![candidate.container_id],
        ExecWaitPhase::Done { container_id, .. } => set![container_id],
        _ => set![],
    }
}

/// Whether an event is of a window with an id that matches an action.
pub open spec fn matching_window(
    action: SwayAction,
    event: ExecWaitEvent,
    container_id: i64,
) -> bool {
    event matches ExecWaitEvent::Received(Received::Window(window)) && window.container.id
        == container_id && action.event_match(window) is Ok
}

/// Every window that a launch holds back or reports is one whose event was
/// received and matches what was launched: a new window, with the app id or
/// the class that was asked for.
pub proof fn law_only_matching_windows_are_reported(
    action: SwayAction,
    token: Seq<char>,
    events: Seq<ExecWaitEvent>,
    container_id: i64,
)
    requires
        windows_in(phase_after(action, token, events)).contains(container_id),
    ensures
        exists|i: int|
            0 <= i < events.len() && matching_window(action, #[trigger] events[i], container_id),
    decreases events.len(),
{
    if events.len() > 0 {
        let init = events.drop_last();
        let before = phase_after(action, token, init);
        if windows_in(before).contains(container_id) {
            law_only_matching_windows_are_reported(action, token, init, container_id);
            let i = choose|i: int|
                0 <= i < init.len() && matching_window(action, #[trigger] init[i], container_id);
            assert(events[i] == init[i]);
        } else {
            assert(matching_window(action, events[events.len() - 1], container_id));
        }
    }
}

/// A window is reported as launched only where its process carries the marker,
/// or where processes could be looked at and none of them does any more; it is
/// reported as adopted only where its grace or the time limit is over.
pub proof fn law_ownership_is_claimed_on_evidence(
    action: SwayAction,
    token: Seq<char>,
    phase: ExecWaitPhase<Seq<char>>,
    event: ExecWaitEvent,
    container_id: i64,
    ownership: LaunchOwnership,
)
    requires
        !(phase is Done),
        next_phase(action, token, phase, event) == (ExecWaitPhase::<Seq<char>>::Done {
            container_id,
            ownership,
        }),
    ensures
        ownership == LaunchOwnership::Launched ==> {
            ||| event matches ExecWaitEvent::ProcessChecked { marked: true, .. }
            ||| event == (ExecWaitEvent::ProcessesScanned { scan: MarkerScan::Unmarked })
        },
        ownership == LaunchOwnership::Adopted ==> {
            &&& phase matches ExecWaitPhase::Measure { deadline, fallback }
            &&& event matches ExecWaitEvent::Clock(now)
            &&& fallback is Some
            &&& now@ >= wait_end(deadline, fallback)
        },
{
}

/// Whether an event shows whose a window is: its process carries the marker, or
/// processes could be looked at and none carries it any more.
pub open spec fn is_evidence(event: ExecWaitEvent) -> bool {
    match event {
        ExecWaitEvent::ProcessChecked { marked, .. } => marked,
        ExecWaitEvent::ProcessesScanned { scan } => scan == MarkerScan::Unmarked,
        _ => false,
    }
}

/// A window that could not be confirmed is never claimed: without an event
/// that shows whose it is, as where no process can be looked at, a launch never
/// ends with a window that is reported as launched.
pub proof fn law_an_unconfirmed_window_is_never_claimed(
    action: SwayAction,
    token: Seq<char>,
    events: Seq<ExecWaitEvent>,
)
    requires
        forall|i: int| 0 <= i < events.len() ==> !is_evidence(#[trigger] events[i]),
    ensures
        phase_after(action, token, events) matches ExecWaitPhase::Done { ownership, .. }
            ==> ownership == LaunchOwnership::Adopted,
    decreases events.len(),
{
    if events.len() > 0 {
        let init = events.drop_last();
        assert forall|i: int| 0 <= i < init.len() implies !is_evidence(#[trigger] init[i]) by {
            assert(init[i] == events[i]);
        }
        law_an_unconfirmed_window_is_never_claimed(action, token, init);
        assert(!is_evidence(events[events.len() - 1]));
    }
}

/// A window that is held back is not lost to the clock: once its time is over
/// it is adopted, whether or not it could be confirmed.
pub proof fn law_a_window_held_back_is_adopted_in_the_end(
    action: SwayAction,
    token: Seq<char>,
    deadline: Duration,
    candidate: Candidate,
    now: Duration,
)
    ensures
        ({
            let next = next_phase(
                action,
                token,
                ExecWaitPhase::Measure { deadline, fallback: Some(candidate) },
                ExecWaitEvent::Clock(now),
            );
            if now@ >= wait_end(deadline, Some(candidate)) {
                next == (ExecWaitPhase::<Seq<char>>::Done {
                    container_id: candidate.container_id,
                    ownership: LaunchOwnership::Adopted,
                })
            } else {
                next == (ExecWaitPhase::<Seq<char>>::Receive {
                    deadline,
                    fallback: Some(candidate),
                    now,
                })
            }
        }),
{
}

/// A launch that is commented on tells of each event that ends it with a window
/// how it came by that window.
pub proof fn law_the_end_of_a_launch_is_told(
    action: SwayAction,
    token: Seq<char>,
    phase: ExecWaitPhase<Seq<char>>,
    event: ExecWaitEvent,
)
    requires
        action.is_verbose(),
        !(phase is Done),
        next_phase(action, token, phase, event) is Done,
    ensures
        told(action, phase, event) is Some,
{
}

/// A window whose process carries the marker is taken over any that is held
/// back.
pub proof fn law_a_marked_window_comes_first(
    action: SwayAction,
    token: Seq<char>,
    deadline: Duration,
    fallback: Option<Candidate>,
    container_id: i64,
    pid: i32,
    now: Duration,
)
    ensures
        next_phase(
            action,
            token,
            ExecWaitPhase::Identify { deadline, fallback, container_id, pid: Some(pid) },
            ExecWaitEvent::ProcessChecked { marked: true, now },
        ) == (ExecWaitPhase::<Seq<char>>::Done {
            container_id,
            ownership: LaunchOwnership::Launched,
        }),
{
}

/// Holding a window back never makes a launch wait longer than its time limit,
/// nor longer than the grace from when the window was first seen.
pub proof fn law_holding_back_is_bounded(deadline: Duration, candidate: Candidate)
    ensures
        wait_end(deadline, Some(candidate)) <= deadline@,
        wait_end(deadline, Some(candidate)) <= candidate.first_seen@ + time::millis_as_nanos(
            PID_MARKER_FALLBACK_GRACE as nat,
        ),
{
}

/// What stands in a request, and in the phase of a launch, is what is seen of
/// it.
pub proof fn law_a_launch_is_seen_as_it_is(
    request: ExecWaitRequest<String, Duration>,
    phase: ExecWaitPhase<String>,
)
    ensures
        request@ is Subscribe <==> request is Subscribe,
        request@ is ReadClock <==> request is ReadClock,
        request@ is ScanProcesses <==> request is ScanProcesses,
        request matches ExecWaitRequest::Send(command) ==> request@ == ExecWaitRequest::<
            Seq<char>,
            nat,
        >::Send(command@),
        request matches ExecWaitRequest::Receive(span) ==> request@ == ExecWaitRequest::<
            Seq<char>,
            nat,
        >::Receive(span@),
        request matches ExecWaitRequest::CheckProcess(pid) ==> request@ == ExecWaitRequest::<
            Seq<char>,
            nat,
        >::CheckProcess(pid),
        request matches ExecWaitRequest::Finish(Ok(result)) ==> request@ == ExecWaitRequest::<
            Seq<char>,
            nat,
        >::Finish(Ok(result)),
        request matches ExecWaitRequest::Finish(Err(error)) ==> request@ == ExecWaitRequest::<
            Seq<char>,
            nat,
        >::Finish(Err(error@)),
        phase@ is Subscribe <==> phase is Subscribe,
        phase matches ExecWaitPhase::Done { container_id, ownership } ==> phase@ == (
        ExecWaitPhase::<Seq<char>>::Done { container_id, ownership }),
        phase matches ExecWaitPhase::Failed(error) ==> phase@ == ExecWaitPhase::<
            Seq<char>,
        >::Failed(error@),
{
}

/// A launch asks for a subscription first, and then for the user's command to
/// be sent, whole, with the marker in front of it; a subscription or a command
/// that fails ends it with its report, and so does a time limit beyond all time.
pub proof fn law_a_launch_subscribes_and_sends_the_command(
    action: SwayAction,
    command: Seq<char>,
    token: Seq<char>,
    subscribed: Result<(), String>,
    reply: Reply<Vec<Result<(), String>>>,
    deadline: Option<Duration>,
)
    requires
        action matches SwayAction::Exec { command: launched, .. } && launched@ == command,
    ensures
        asked(action, token, phase_after(action, token, seq![])) is Subscribe,
        ({
            let next = asked(
                action,
                token,
                next_phase(
                    action,
                    token,
                    ExecWaitPhase::Subscribe,
                    ExecWaitEvent::Subscribed(subscribed),
                ),
            );
            match subscribed {
                Ok(()) => next == ExecWaitRequest::<Seq<char>, nat>::Send(
                    "exec env SWAY_LAUNCH_PID_MARKER="@ + token + " "@ + command,
                ),
                Err(error) => next == ExecWaitRequest::<Seq<char>, nat>::Finish(Err(error@)),
            }
        }),
        ({
            let sent = next_phase(
                action,
                token,
                ExecWaitPhase::Send,
                ExecWaitEvent::Sent { reply, deadline },
            );
            match ipc::command_error(
                reply,
                "exec env SWAY_LAUNCH_PID_MARKER="@ + token + " "@ + command,
            ) {
                Some(error) => asked(action, token, sent) == ExecWaitRequest::<
                    Seq<char>,
                    nat,
                >::Finish(Err(error)),
                None => match deadline {
                    Some(deadline) => sent == (ExecWaitPhase::<Seq<char>>::Measure {
                        deadline,
                        fallback: None,
                    }),
                    None => asked(action, token, sent) == ExecWaitRequest::<Seq<char>, nat>::Finish(
                        Err(text::decimal(action.time()@ / 1_000_000_000) + " sec timeout reached"@),
                    ),
                },
            }
        }),
{
    crate::action::law_a_launch_sends_the_whole_command(action, token, command);
}

/// The wait for an event goes on until the time limit, or, where a window is
/// held back, until two seconds after it was first seen if that is sooner. Then
/// a window that is held back is adopted, and without one the time limit is
/// reported.
pub proof fn law_a_launch_waits_until_its_time_is_over(
    action: SwayAction,
    token: Seq<char>,
    deadline: Duration,
    fallback: Option<Candidate>,
    now: Duration,
)
    ensures
        ({
            let grace_end = fallback->0.first_seen@ + 2_000_000_000;
            let end = if fallback is Some && grace_end < deadline@ {
                grace_end as int
            } else {
                deadline@ as int
            };
            let next = asked(
                action,
                token,
                next_phase(
                    action,
                    token,
                    ExecWaitPhase::Measure { deadline, fallback },
                    ExecWaitEvent::Clock(now),
                ),
            );
            &&& asked(action, token, ExecWaitPhase::Measure { deadline, fallback }) is ReadClock
            &&& now@ < end ==> next == ExecWaitRequest::<Seq<char>, nat>::Receive(
                (end - now@) as nat,
            )
            &&& now@ >= end ==> match fallback {
                Some(candidate) => next == ExecWaitRequest::<Seq<char>, nat>::Finish(
                    Ok((candidate.container_id, LaunchOwnership::Adopted)),
                ),
                None => next == ExecWaitRequest::<Seq<char>, nat>::Finish(
                    Err(text::decimal(action.time()@ / 1_000_000_000) + " sec timeout reached"@),
                ),
            }
        }),
{
}

/// A new window that has what was asked for makes the launch look at its own
/// process; every other event is passed over, with what is held back kept; and
/// an end of the events ends the launch with its report.
pub proof fn law_a_matching_window_is_looked_into(
    action: SwayAction,
    token: Seq<char>,
    deadline: Duration,
    fallback: Option<Candidate>,
    now: Duration,
    received: Received,
)
    requires
        action is Exec,
    ensures
        ({
            let next = next_phase(
                action,
                token,
                ExecWaitPhase::Receive { deadline, fallback, now },
                ExecWaitEvent::Received(received),
            );
            match received {
                Received::Window(window) => if action.event_match(window) is Ok {
                    &&& next == (ExecWaitPhase::<Seq<char>>::Identify {
                        deadline,
                        fallback,
                        container_id: window.container.id,
                        pid: window.container.pid,
                    })
                    &&& asked(action, token, next) == ExecWaitRequest::<
                        Seq<char>,
                        nat,
                    >::CheckProcess(window.container.pid)
                } else {
                    next == (ExecWaitPhase::<Seq<char>>::Measure { deadline, fallback })
                },
                Received::OtherEvent | Received::TimedOut => next == (ExecWaitPhase::<
                    Seq<char>,
                >::Measure { deadline, fallback }),
                Received::Closed => asked(action, token, next) == ExecWaitRequest::<
                    Seq<char>,
                    nat,
                >::Finish(Err("Event stream closed unexpectedly"@)),
                Received::Unreadable(error) => asked(action, token, next) == ExecWaitRequest::<
                    Seq<char>,
                    nat,
                >::Finish(Err(error@)),
            }
        }),
{
    assert(STREAM_CLOSED_ERROR@ == "Event stream closed unexpectedly"@);
}

/// A window whose process carries the marker is the launched one. Otherwise all
/// processes are looked at: the first window that matched, and no later one, is
/// the launched one where none carries the marker any more; where one does, or
/// nothing is known, that first window is held back and the wait goes on.
pub proof fn law_the_first_window_is_the_one_held_back(
    action: SwayAction,
    token: Seq<char>,
    deadline: Duration,
    fallback: Option<Candidate>,
    container_id: i64,
    pid: Option<i32>,
    marked: bool,
    now: Duration,
    scan: MarkerScan,
)
    ensures
        ({
            let checked = next_phase(
                action,
                token,
                ExecWaitPhase::Identify { deadline, fallback, container_id, pid },
                ExecWaitEvent::ProcessChecked { marked, now },
            );
            let first = match fallback {
                Some(candidate) => candidate,
                None => Candidate { container_id, first_seen: now },
            };
            let scanned = next_phase(
                action,
                token,
                checked,
                ExecWaitEvent::ProcessesScanned { scan },
            );
            &&& pid is Some && marked ==> asked(action, token, checked) == ExecWaitRequest::<
                Seq<char>,
                nat,
            >::Finish(Ok((container_id, LaunchOwnership::Launched)))
            &&& !(pid is Some && marked) ==> {
                &&& asked(action, token, checked) is ScanProcesses
                &&& scan == MarkerScan::Unmarked ==> asked(action, token, scanned)
                    == ExecWaitRequest::<Seq<char>, nat>::Finish(
                    Ok((first.container_id, LaunchOwnership::Launched)),
                )
                &&& scan == MarkerScan::Marked || scan == MarkerScan::Unreadable || scan
                    == MarkerScan::Unlisted ==> scanned == (ExecWaitPhase::<Seq<char>>::Measure {
                    deadline,
                    fallback: Some(first),
                })
            }
        }),
{
}

/// What is told of a launch: its command when it is sent, and of each window how
/// it came to be taken, held back or adopted.
pub proof fn law_what_is_told_of_a_launch(
    action: SwayAction,
    token: Seq<char>,
    deadline: Duration,
    fallback: Option<Candidate>,
    candidate: Candidate,
    container_id: i64,
    pid: Option<i32>,
    marked: bool,
    now: Duration,
)
    requires
        action.is_verbose(),
    ensures
        announced(action, token, ExecWaitPhase::Send) == Some(
            "Sway command: "@ + action.marked_command(token),
        ),
        ({
            let line = told(
                action,
                ExecWaitPhase::Identify { deadline, fallback, container_id, pid },
                ExecWaitEvent::ProcessChecked { marked, now },
            );
            if pid is Some && marked {
                line == Some(
                    "Event match: New container id "@ + text::signed_decimal(container_id as int)
                        + " (PID-marker-confirmed)"@,
                )
            } else if fallback is None {
                line == Some(
                    "Event content-matches but PID marker unconfirmed (container id "@
                        + text::signed_decimal(container_id as int)
                        + ") — keeping as a fallback candidate"@,
                )
            } else {
                line is None
            }
        }),
        told(
            action,
            ExecWaitPhase::Scan { deadline, candidate },
            ExecWaitEvent::ProcessesScanned { scan: MarkerScan::Unmarked },
        ) == Some(
            "Marked process no longer running; using fallback container id "@
                + text::signed_decimal(candidate.container_id as int)
                + " (nothing marker-confirmed can still arrive, so this window is this run's own)"@,
        ),
        told(
            action,
            ExecWaitPhase::Scan { deadline, candidate },
            ExecWaitEvent::ProcessesScanned { scan: MarkerScan::Unlisted },
        ) == Some("Could not read /proc — PID-marker correlation is degraded on this system"@),
        next_phase(
            action,
            token,
            ExecWaitPhase::Measure { deadline, fallback: Some(candidate) },
            ExecWaitEvent::Clock(now),
        ) is Done ==> told(
            action,
            ExecWaitPhase::Measure { deadline, fallback: Some(candidate) },
            ExecWaitEvent::Clock(now),
        ) == Some(
            "No PID-marker-confirmed match arrived; using earlier content-matched container id "@
                + text::signed_decimal(candidate.container_id as int)
                + " (adopted, not confirmed as launched by this run)"@,
        ),
{
    reveal_strlit("New");
    reveal_strlit("Event match: ");
    reveal_strlit(" container id ");
    reveal_strlit("Event match: New container id ");
    reveal_strlit(" (");
    reveal_strlit(")");
    reveal_strlit("PID-marker-confirmed");
    reveal_strlit(" (PID-marker-confirmed)");
    assert("Event match: "@ + "New"@ + (" container id "@ + text::signed_decimal(
        container_id as int,
    ) + " ("@) + "PID-marker-confirmed"@ + ")"@ =~= "Event match: New container id "@
        + text::signed_decimal(container_id as int) + " (PID-marker-confirmed)"@);
}

/// Nothing is told of a launch that is not to be commented on.
pub proof fn law_a_quiet_launch_tells_nothing(
    action: SwayAction,
    token: Seq<char>,
    phase: ExecWaitPhase<Seq<char>>,
    event: ExecWaitEvent,
)
    requires
        !action.is_verbose(),
    ensures
        announced(action, token, phase) is None,
        told(action, phase, event) is None,
{
}

/// An event that was not asked for changes nothing.
pub proof fn law_only_what_was_asked_for_counts(
    action: SwayAction,
    token: Seq<char>,
    phase: ExecWaitPhase<Seq<char>>,
    event: ExecWaitEvent,
)
    ensures
        ({
            let request = asked(action, token, phase);
            let answers = match event {
                ExecWaitEvent::Subscribed(_) => request is Subscribe,
                ExecWaitEvent::Sent { .. } => request is Send,
                ExecWaitEvent::Clock(_) => request is ReadClock,
                ExecWaitEvent::Received(_) => request is Receive,
                ExecWaitEvent::ProcessChecked { .. } => request is CheckProcess,
                ExecWaitEvent::ProcessesScanned { .. } => request is ScanProcesses,
            };
            !answers ==> next_phase(action, token, phase, event) == phase
        }),
{
}

/// Nothing is announced but the command, and nothing is told of an event that
/// neither finds, nor holds back, nor adopts a window, nor shows that the
/// processes cannot be listed.
pub proof fn law_nothing_else_is_told_of_a_launch(
    action: SwayAction,
    token: Seq<char>,
    phase: ExecWaitPhase<Seq<char>>,
    event: ExecWaitEvent,
)
    ensures
        !(phase is Send) ==> announced(action, token, phase) is None,
        !(phase is Measure || phase is Identify || phase is Scan) ==> told(
            action,
            phase,
            event,
        ) is None,
        phase is Measure && !(next_phase(action, token, phase, event) is Done) ==> told(
            action,
            phase,
            event,
        ) is None,
        event == (ExecWaitEvent::ProcessesScanned { scan: MarkerScan::Marked }) || event == (
        ExecWaitEvent::ProcessesScanned { scan: MarkerScan::Unreadable }) ==> told(
            action,
            phase,
            event,
        ) is None,
{
}

} // verus!
