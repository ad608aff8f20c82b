//! Running an action that no event confirms: wait, send the command, and poll
//! the tree for its effect or wait once more.
//!
//! A run is a sequence of requests to the outside and the events that answer
//! them. The phase of a run says what is asked for next.

use crate::action::SwayAction;
use crate::confirmation::{container_gone, WAIT_TIME_POLL_INTERVAL};
use crate::confirmation;
use crate::ipc::{run_sway_command, Reply};
use crate::ipc;
use crate::query::container_exists;
use crate::text;
use crate::time::Duration;
use crate::time;
use crate::tree::{Node, Output, Rect};
use crate::tree;
use vstd::prelude::*;

verus! {

broadcast use vstd::string::group_string_axioms;

/// How far a run has come. `E` is the type of an error's text.
#[derive(Debug)]
pub enum WaitTimePhase<E> {
    /// To see whether the container is there before anything is waited for.
    CheckBefore,
    /// To let others finish first.
    Pause,
    /// To see whether the container is still there.
    CheckAfter,
    /// To get a connection for polling, and what a move is to be told from.
    Connect,
    /// To send the command.
    Send { connected: bool, baseline: Option<Rect> },
    /// To look for the effect.
    Poll { baseline: Option<Rect> },
    /// To pause between two looks.
    PollPause { baseline: Option<Rect> },
    /// To see how long the looking took altogether.
    Measure,
    /// To wait for what is left of the time to wait.
    Rest { elapsed: Duration },
    /// To wait for an effect that cannot be looked for.
    Settle,
    /// At the end: whether the effect was seen.
    Done { confirmed: bool },
    /// At the end, by an error.
    Failed(E),
}

/// What a run asks for. `T` is the type of a text, `D` that of a span of time.
#[derive(Debug)]
pub enum WaitTimeRequest<T, D> {
    /// The tree.
    ReadTree,
    /// That time passes.
    Sleep(D),
    /// A connection for polling, and the tree through it if asked for.
    Connect { read_tree: bool },
    /// That a command is sent.
    Send(T),
    /// The tree through the connection for polling, the outputs if asked for,
    /// and the time since the first such request.
    Poll { read_outputs: bool },
    /// The time since the first request to poll.
    ReadClock,
    /// Nothing more: the container and whether the effect was seen, or an
    /// error.
    Finish(Result<(i64, bool), T>),
}

/// What answers a request.
#[derive(Debug)]
pub enum WaitTimeEvent {
    Tree(Reply<Node>),
    Slept,
    Connected { connected: bool, first_tree: Option<Reply<Node>> },
    Sent(Reply<Vec<Result<(), String>>>),
    Polled { tree: Reply<Node>, outputs: Option<Reply<Vec<Output>>>, elapsed: Duration },
    Clock { elapsed: Duration },
}

/// A run of an action that no event confirms.
#[derive(Debug)]
pub struct WaitTimeRun<'a> {
    pub action: SwayAction<'a>,
    pub phase: WaitTimePhase<String>,
}

impl View for WaitTimePhase<String> {
    type V = WaitTimePhase<Seq<char>>;

    open spec fn view(&self) -> WaitTimePhase<Seq<char>> {
        match *self {
            WaitTimePhase::CheckBefore => WaitTimePhase::CheckBefore,
            WaitTimePhase::Pause => WaitTimePhase::Pause,
            WaitTimePhase::CheckAfter => WaitTimePhase::CheckAfter,
            WaitTimePhase::Connect => WaitTimePhase::Connect,
            WaitTimePhase::Send { connected, baseline } => WaitTimePhase::Send {
                connected,
                baseline,
            },
            WaitTimePhase::Poll { baseline } => WaitTimePhase::Poll { baseline },
            WaitTimePhase::PollPause { baseline } => WaitTimePhase::PollPause { baseline },
            WaitTimePhase::Measure => WaitTimePhase::Measure,
            WaitTimePhase::Rest { elapsed } => WaitTimePhase::Rest { elapsed },
            WaitTimePhase::Settle => WaitTimePhase::Settle,
            WaitTimePhase::Done { confirmed } => WaitTimePhase::Done { confirmed },
            WaitTimePhase::Failed(error) => WaitTimePhase::Failed(error@),
        }
    }
}

impl View for WaitTimeRequest<String, Duration> {
    type V = WaitTimeRequest<Seq<char>, nat>;

    open spec fn view(&self) -> WaitTimeRequest<Seq<char>, nat> {
        match *self {
            WaitTimeRequest::ReadTree => WaitTimeRequest::ReadTree,
            WaitTimeRequest::Sleep(span) => WaitTimeRequest::Sleep(span@),
            WaitTimeRequest::Connect { read_tree } => WaitTimeRequest::Connect { read_tree },
            WaitTimeRequest::Send(command) => WaitTimeRequest::Send(command@),
            WaitTimeRequest::Poll { read_outputs } => WaitTimeRequest::Poll { read_outputs },
            WaitTimeRequest::ReadClock => WaitTimeRequest::ReadClock,
            WaitTimeRequest::Finish(Ok(result)) => WaitTimeRequest::Finish(Ok(result)),
            WaitTimeRequest::Finish(Err(error)) => WaitTimeRequest::Finish(Err(error@)),
        }
    }
}

/// Whether an action is one that is run in this way.
pub open spec fn runs_by_wait_time(action: SwayAction) -> bool {
    action.target() is Some && action.confirming_change() is None
}

/// The phase after a look for the container: `present` where it is there.
pub open spec fn after_check(
    container_id: i64,
    reply: Reply<Node>,
    present: WaitTimePhase<Seq<char>>,
) -> WaitTimePhase<Seq<char>> {
    match reply {
        Reply::Answer(tree) => if tree::has_id(tree::preorder(tree), container_id) {
            present
        } else {
            WaitTimePhase::Failed(confirmation::gone_error(container_id as int))
        },
        _ => WaitTimePhase::Failed(reply.error()->0),
    }
}

/// How long an action's effect is looked for: its own grace, and no longer than
/// its time to wait.
pub open spec fn poll_limit(action: SwayAction) -> nat {
    if action.grace() <= action.time()@ {
        action.grace()
    } else {
        action.time()@
    }
}

/// The phase after an event. An event that was not asked for changes nothing.
pub open spec fn next_phase(
    action: SwayAction,
    phase: WaitTimePhase<Seq<char>>,
    event: WaitTimeEvent,
) -> WaitTimePhase<Seq<char>> {
    let container_id = action.target()->0;
    match (phase, event) {
        (WaitTimePhase::CheckBefore, WaitTimeEvent::Tree(reply)) => after_check(
            container_id,
            reply,
            WaitTimePhase::Pause,
        ),
        (WaitTimePhase::Pause, WaitTimeEvent::Slept) => WaitTimePhase::CheckAfter,
        (WaitTimePhase::CheckAfter, WaitTimeEvent::Tree(reply)) => after_check(
            container_id,
            reply,
            WaitTimePhase::Connect,
        ),
        (WaitTimePhase::Connect, WaitTimeEvent::Connected { connected, first_tree }) => {
            WaitTimePhase::Send {
                connected,
                baseline: match first_tree {
                    Some(tree) => if connected {
                        action.baseline_in(tree, container_id)
                    } else {
                        None
                    },
                    None => None,
                },
            }
        },
        (WaitTimePhase::Send { connected, baseline }, WaitTimeEvent::Sent(reply)) => {
            match ipc::command_error(reply, action.command()) {
                Some(error) => WaitTimePhase::Failed(error),
                None => if connected && action.is_polled(baseline) {
                    WaitTimePhase::Poll { baseline }
                } else {
                    WaitTimePhase::Settle
                },
            }
        },
        (WaitTimePhase::Poll { baseline }, WaitTimeEvent::Polled { tree, outputs, elapsed }) => {
            if action.visible_in(tree, outputs, container_id, baseline) {
                WaitTimePhase::Done { confirmed: true }
            } else if elapsed@ >= poll_limit(action) {
                WaitTimePhase::Measure
            } else {
                WaitTimePhase::PollPause { baseline }
            }
        },
        (WaitTimePhase::PollPause { baseline }, WaitTimeEvent::Slept) => WaitTimePhase::Poll {
            baseline,
        },
        (WaitTimePhase::Measure, WaitTimeEvent::Clock { elapsed }) => WaitTimePhase::Rest {
            elapsed,
        },
        (WaitTimePhase::Rest { .. }, WaitTimeEvent::Slept) => WaitTimePhase::Done {
            confirmed: false,
        },
        (WaitTimePhase::Settle, WaitTimeEvent::Slept) => WaitTimePhase::Done { confirmed: false },
        _ => phase,
    }
}

/// What is asked for in a phase.
pub open spec fn asked(
    action: SwayAction,
    phase: WaitTimePhase<Seq<char>>,
) -> WaitTimeRequest<Seq<char>, nat> {
    match phase {
        WaitTimePhase::CheckBefore | WaitTimePhase::CheckAfter => WaitTimeRequest::ReadTree,
        WaitTimePhase::Pause | WaitTimePhase::Settle => WaitTimeRequest::Sleep(action.time()@),
        WaitTimePhase::Connect => WaitTimeRequest::Connect { read_tree: action.moves() },
        WaitTimePhase::Send { .. } => WaitTimeRequest::Send(action.command()),
        WaitTimePhase::Poll { .. } => WaitTimeRequest::Poll {
            read_outputs: action.reads_outputs(),
        },
        WaitTimePhase::PollPause { .. } => WaitTimeRequest::Sleep(
            time::millis_as_nanos(WAIT_TIME_POLL_INTERVAL as nat),
        ),
        WaitTimePhase::Measure => WaitTimeRequest::ReadClock,
        WaitTimePhase::Rest { elapsed } => WaitTimeRequest::Sleep(
            if action.time()@ >= elapsed@ {
                (action.time()@ - elapsed@) as nat
            } else {
                0
            },
        ),
        WaitTimePhase::Done { confirmed } => WaitTimeRequest::Finish(
            Ok((action.target()->0, confirmed)),
        ),
        WaitTimePhase::Failed(error) => WaitTimeRequest::Finish(Err(error)),
    }
}

/// What is told in a phase before what it asks for is done: nothing unless the
/// action is to be commented on.
pub open spec fn announced(
    action: SwayAction,
    phase: WaitTimePhase<Seq<char>>,
) -> Option<Seq<char>> {
    let container_id = action.target()->0 as int;
    if !action.is_verbose() {
        None
    } else {
        match phase {
            WaitTimePhase::CheckBefore => Some(
                "No matching event types for action. Will run Sway command and wait "@
                    + text::decimal(action.time()@ / 1_000_000) + " ms."@,
            ),
            WaitTimePhase::Send { .. } => Some("Sway command: "@ + action.command()),
            WaitTimePhase::Measure => Some(
                text::around(
                    "Poll grace period elapsed without confirmation, falling back to wait-time (container id: "@,
                    container_id,
                    ")"@,
                ),
            ),
            WaitTimePhase::Done { confirmed: true } => Some(
                text::around("Confirmed via poll (container id: "@, container_id, ")"@),
            ),
            _ => None,
        }
    }
}

impl<'a> WaitTimeRun<'a> {
    /// Whether this run is of an action that is run in this way.
    pub open spec fn well_formed(self) -> bool {
        runs_by_wait_time(self.action)
    }

    /// Whether the arithmetic that an event leads to fits in an `i32`.
    pub open spec fn can_take(self, event: WaitTimeEvent) -> bool {
        event matches WaitTimeEvent::Polled { tree, outputs, .. } ==> self.action.poll_fits(
            tree,
            outputs,
            self.action.target()->0,
        )
    }

    /// The run of an action, at its start.
    pub fn start(action: SwayAction<'a>) -> (run: WaitTimeRun<'a>)
        requires
            runs_by_wait_time(action),
        ensures
            run.well_formed(),
            run.action == action,
            run.phase@ == WaitTimePhase::<Seq<char>>::CheckBefore,
    {
        WaitTimeRun { action, phase: WaitTimePhase::CheckBefore }
    }

    /// What this run asks for.
    pub fn request(&self) -> (request: WaitTimeRequest<String, Duration>)
        requires
            self.well_formed(),
        ensures
            request@ == asked(self.action, self.phase@),
    {
        match &self.phase {
            WaitTimePhase::CheckBefore | WaitTimePhase::CheckAfter => WaitTimeRequest::ReadTree,
            WaitTimePhase::Pause | WaitTimePhase::Settle => WaitTimeRequest::Sleep(
                self.action.duration(),
            ),
            WaitTimePhase::Connect => WaitTimeRequest::Connect {
                read_tree: self.action.needs_baseline(),
            },
            WaitTimePhase::Send { .. } => WaitTimeRequest::Send(self.action.sway_command()),
            WaitTimePhase::Poll { .. } => WaitTimeRequest::Poll {
                read_outputs: self.action.polls_outputs(),
            },
            WaitTimePhase::PollPause { .. } => WaitTimeRequest::Sleep(
                Duration::from_millis(WAIT_TIME_POLL_INTERVAL),
            ),
            WaitTimePhase::Measure => WaitTimeRequest::ReadClock,
            WaitTimePhase::Rest { elapsed } => WaitTimeRequest::Sleep(
                self.action.duration().saturating_sub(*elapsed),
            ),
            WaitTimePhase::Done { confirmed } => WaitTimeRequest::Finish(
                Ok((self.action.container_id().unwrap(), *confirmed)),
            ),
            WaitTimePhase::Failed(error) => WaitTimeRequest::Finish(Err(error.clone())),
        }
    }

    /// What is told before what this run asks for is done.
    pub fn announce(&self) -> (line: Option<String>)
        requires
            self.well_formed(),
        ensures
            text::opt_text(line) == announced(self.action, self.phase@),
    {
        if !self.action.verbose() {
            return None;
        }
        let container_id = self.action.container_id().unwrap();
        match &self.phase {
            WaitTimePhase::CheckBefore => Some(
                text::concat3(
                    "No matching event types for action. Will run Sway command and wait ",
                    text::decimal_text(self.action.duration().as_millis()).as_str(),
                    " ms.",
                ),
            ),
            WaitTimePhase::Send { .. } => Some(
                text::concat("Sway command: ", self.action.sway_command().as_str()),
            ),
            WaitTimePhase::Measure => Some(
                text::around_number(
                    "Poll grace period elapsed without confirmation, falling back to wait-time (container id: ",
                    container_id,
                    ")",
                ),
            ),
            WaitTimePhase::Done { confirmed } => if *confirmed {
                Some(text::around_number("Confirmed via poll (container id: ", container_id, ")"))
            } else {
                None
            },
            _ => None,
        }
    }

    fn check(container_id: i64, reply: Reply<Node>, present: WaitTimePhase<String>) -> (phase:
        WaitTimePhase<String>)
        ensures
            phase@ == after_check(container_id, reply, present@),
    {
        match container_exists(reply, container_id) {
            Ok(true) => present,
            Ok(false) => WaitTimePhase::Failed(container_gone(container_id)),
            Err(error) => WaitTimePhase::Failed(error),
        }
    }

    /// This run after an event.
    pub fn advance(self, event: WaitTimeEvent) -> (run: WaitTimeRun<'a>)
        requires
            self.well_formed(),
            self.can_take(event),
        ensures
            run.well_formed(),
            run.action == self.action,
            run.phase@ == next_phase(self.action, self.phase@, event),
    {
        let action = self.action;
        let container_id = action.container_id().unwrap();
        let phase = match (self.phase, event) {
            (WaitTimePhase::CheckBefore, WaitTimeEvent::Tree(reply)) => Self::check(
                container_id,
                reply,
                WaitTimePhase::Pause,
            ),
            (WaitTimePhase::Pause, WaitTimeEvent::Slept) => WaitTimePhase::CheckAfter,
            (WaitTimePhase::CheckAfter, WaitTimeEvent::Tree(reply)) => Self::check(
                container_id,
                reply,
                WaitTimePhase::Connect,
            ),
            (WaitTimePhase::Connect, WaitTimeEvent::Connected { connected, first_tree }) => {
                let baseline = match &first_tree {
                    Some(tree) => if connected {
                        action.poll_baseline(tree, container_id)
                    } else {
                        None
                    },
                    None => None,
                };
                WaitTimePhase::Send { connected, baseline }
            },
            (WaitTimePhase::Send { connected, baseline }, WaitTimeEvent::Sent(reply)) => {
                match run_sway_command(action.sway_command().as_str(), reply) {
                    Ok(()) => if connected && action.polls(baseline) {
                        WaitTimePhase::Poll { baseline }
                    } else {
                        WaitTimePhase::Settle
                    },
                    Err(error) => WaitTimePhase::Failed(error),
                }
            },
            (
                WaitTimePhase::Poll { baseline },
                WaitTimeEvent::Polled { tree, outputs, elapsed },
            ) => {
                let grace = action.poll_grace().min(action.duration());
                if action.poll_matches(&tree, &outputs, container_id, baseline) {
                    WaitTimePhase::Done { confirmed: true }
                } else if elapsed.at_least(grace) {
                    WaitTimePhase::Measure
                } else {
                    WaitTimePhase::PollPause { baseline }
                }
            },
            (WaitTimePhase::PollPause { baseline }, WaitTimeEvent::Slept) => {
                WaitTimePhase::Poll { baseline }
            },
            (WaitTimePhase::Measure, WaitTimeEvent::Clock { elapsed }) => WaitTimePhase::Rest {
                elapsed,
            },
            (WaitTimePhase::Rest { .. }, WaitTimeEvent::Slept) => WaitTimePhase::Done {
                confirmed: false,
            },
            (WaitTimePhase::Settle, WaitTimeEvent::Slept) => WaitTimePhase::Done {
                confirmed: false,
            },
            (phase, _) => phase,
        };
        WaitTimeRun { action, phase }
    }
}

/// How far along a phase is.
pub open spec fn rank(phase: WaitTimePhase<Seq<char>>) -> nat {
    match phase {
        WaitTimePhase::CheckBefore => 0,
        WaitTimePhase::Pause => 1,
        WaitTimePhase::CheckAfter => 2,
        WaitTimePhase::Connect => 3,
        WaitTimePhase::Send { .. } => 4,
        WaitTimePhase::Poll { .. } | WaitTimePhase::PollPause { .. } => 5,
        WaitTimePhase::Measure => 6,
        WaitTimePhase::Rest { .. } | WaitTimePhase::Settle => 7,
        WaitTimePhase::Done { .. } | WaitTimePhase::Failed(_) => 8,
    }
}

/// The phase after a sequence of events, from the start.
pub open spec fn phase_after(action: SwayAction, events: Seq<WaitTimeEvent>) -> WaitTimePhase<
    Seq<char>,
>
    decreases events.len(),
{
    if events.len() == 0 {
        WaitTimePhase::CheckBefore
    } else {
        next_phase(action, phase_after(action, events.drop_last()), events.last())
    }
}

/// A run never goes back, so that it sends its command once at most, and once
/// at its end it stays there.
pub proof fn law_a_run_never_goes_back(
    action: SwayAction,
    phase: WaitTimePhase<Seq<char>>,
    event: WaitTimeEvent,
)
    ensures
        rank(next_phase(action, phase, event)) >= rank(phase),
        phase is Send && next_phase(action, phase, event) != phase ==> rank(
            next_phase(action, phase, event),
        ) > rank(phase),
        phase is Done || phase is Failed ==> next_phase(action, phase, event) == phase,
{
}

/// Whether an event is a tree that shows a container.
pub open spec fn shows_container(event: WaitTimeEvent, container_id: i64) -> bool {
    event matches WaitTimeEvent::Tree(Reply::Answer(tree)) && tree::has_id(
        tree::preorder(tree),
        container_id,
    )
}

/// Whether some event of a sequence was a tree that shows the action's
/// container, handed over in the given phase.
pub open spec fn saw_container(
    action: SwayAction,
    events: Seq<WaitTimeEvent>,
    phase: WaitTimePhase<Seq<char>>,
) -> bool {
    exists|i: int|
        0 <= i < events.len() && phase_after(action, #[trigger] events.take(i)) == phase
            && shows_container(events[i], action.target()->0)
}

/// A run asks for its command to be sent only after the container was seen
/// twice: before the first wait and after it.
pub proof fn law_no_command_for_a_closed_window(action: SwayAction, events: Seq<WaitTimeEvent>)
    requires
        runs_by_wait_time(action),
    ensures
        rank(phase_after(action, events)) >= 1 && !(phase_after(action, events) is Failed)
            ==> saw_container(action, events, WaitTimePhase::CheckBefore),
        rank(phase_after(action, events)) >= 3 && !(phase_after(action, events) is Failed)
            ==> saw_container(action, events, WaitTimePhase::CheckAfter),
    decreases events.len(),
{
    if events.len() > 0 {
        let init = events.drop_last();
        law_no_command_for_a_closed_window(action, init);
        let before = phase_after(action, init);
        let last = events.len() - 1;
        assert(events.take(last) =~= init);
        assert forall|phase: WaitTimePhase<Seq<char>>|
            saw_container(action, init, phase) implies saw_container(action, events, phase) by {
            let i = choose|i: int|
                0 <= i < init.len() && phase_after(action, #[trigger] init.take(i)) == phase
                    && shows_container(init[i], action.target()->0);
            assert(init.take(i) =~= events.take(i));
            assert(events[i] == init[i]);
        }
        assert(phase_after(action, events.take(last)) == before);
    }
}

/// An effect is reported as seen only where a tree that was read after the
/// command shows it.
pub proof fn law_confirmed_only_if_seen(
    action: SwayAction,
    phase: WaitTimePhase<Seq<char>>,
    event: WaitTimeEvent,
)
    requires
        !(phase is Done),
        next_phase(action, phase, event) == (WaitTimePhase::<Seq<char>>::Done { confirmed: true }),
    ensures
        phase matches WaitTimePhase::Poll { baseline } && event matches WaitTimeEvent::Polled {
            tree,
            outputs,
            ..
        } && action.visible_in(tree, outputs, action.target()->0, baseline),
{
}

/// Once the command is sent, nothing that is seen or not seen makes a run fail:
/// looking for the effect only makes it end sooner.
pub proof fn law_looking_never_fails(
    action: SwayAction,
    phase: WaitTimePhase<Seq<char>>,
    event: WaitTimeEvent,
)
    requires
        rank(phase) > rank(WaitTimePhase::Send { connected: true, baseline: None }),
        !(phase is Failed),
    ensures
        !(next_phase(action, phase, event) is Failed),
{
}

/// The looking ends no later than with the first look after the time to wait,
/// and the wait that follows it is no longer than that time.
pub proof fn law_the_fallback_is_bounded_by_the_wait_time(
    action: SwayAction,
    baseline: Option<Rect>,
    tree: Reply<Node>,
    outputs: Option<Reply<Vec<Output>>>,
    elapsed: Duration,
)
    ensures
        poll_limit(action) <= action.time()@,
        elapsed@ >= action.time()@ ==> rank(
            next_phase(
                action,
                WaitTimePhase::Poll { baseline },
                WaitTimeEvent::Polled { tree, outputs, elapsed },
            ),
        ) > 5,
        asked(action, WaitTimePhase::Rest { elapsed }) matches WaitTimeRequest::Sleep(rest) && rest
            <= action.time()@,
{
}

/// What stands in a request, and in the phase of a run, is what is seen of it.
pub proof fn law_a_run_is_seen_as_it_is(
    request: WaitTimeRequest<String, Duration>,
    phase: WaitTimePhase<String>,
)
    ensures
        request@ is ReadTree <==> request is ReadTree,
        request@ is ReadClock <==> request is ReadClock,
        request matches WaitTimeRequest::Sleep(span) ==> request@ == WaitTimeRequest::<
            Seq<char>,
            nat,
        >::Sleep(span@),
        request matches WaitTimeRequest::Connect { read_tree } ==> request@ == (WaitTimeRequest::<
            Seq<char>,
            nat,
        >::Connect { read_tree }),
        request matches WaitTimeRequest::Send(command) ==> request@ == WaitTimeRequest::<
            Seq<char>,
            nat,
        >::Send(command@),
        request matches WaitTimeRequest::Poll { read_outputs } ==> request@ == (WaitTimeRequest::<
            Seq<char>,
            nat,
        >::Poll { read_outputs }),
        request matches WaitTimeRequest::Finish(Ok(result)) ==> request@ == WaitTimeRequest::<
            Seq<char>,
            nat,
        >::Finish(Ok(result)),
        request matches WaitTimeRequest::Finish(Err(error)) ==> request@ == WaitTimeRequest::<
            Seq<char>,
            nat,
        >::Finish(Err(error@)),
        phase@ is CheckBefore <==> phase is CheckBefore,
        phase matches WaitTimePhase::Done { confirmed } ==> phase@ == (WaitTimePhase::<
            Seq<char>,
        >::Done { confirmed }),
        phase matches WaitTimePhase::Failed(error) ==> phase@ == WaitTimePhase::<
            Seq<char>,
        >::Failed(error@),
{
}

/// What a run does before its command: it looks for the container, waits for
/// the whole time to wait, looks for the container once more, and gets ready to
/// look for the effect; for a move, with a tree to tell it from. Then it sends
/// the command of its action.
pub proof fn law_a_run_waits_before_it_sends_its_command(
    action: SwayAction,
    first: Node,
    second: Node,
    connected: bool,
    first_tree: Option<Reply<Node>>,
)
    requires
        runs_by_wait_time(action),
        tree::has_id(tree::preorder(first), action.target()->0),
        tree::has_id(tree::preorder(second), action.target()->0),
    ensures
        ({
            let seen = next_phase(
                action,
                WaitTimePhase::CheckBefore,
                WaitTimeEvent::Tree(Reply::Answer(first)),
            );
            let slept = next_phase(action, seen, WaitTimeEvent::Slept);
            let seen_again = next_phase(
                action,
                slept,
                WaitTimeEvent::Tree(Reply::Answer(second)),
            );
            let ready = next_phase(
                action,
                seen_again,
                WaitTimeEvent::Connected { connected, first_tree },
            );
            &&& asked(action, phase_after(action, seq![])) is ReadTree
            &&& asked(action, seen) == WaitTimeRequest::<Seq<char>, nat>::Sleep(action.time()@)
            &&& asked(action, slept) is ReadTree
            &&& asked(action, seen_again) == (WaitTimeRequest::<Seq<char>, nat>::Connect {
                read_tree: action is NewColumn || action is NewRow,
            })
            &&& asked(action, ready) == WaitTimeRequest::<Seq<char>, nat>::Send(action.command())
            &&& ready matches WaitTimePhase::Send { connected: usable, baseline }
            &&& usable == connected
            &&& baseline == match first_tree {
                Some(tree) => if connected {
                    action.baseline_in(tree, action.target()->0)
                } else {
                    None
                },
                None => None,
            }
        }),
{
}

/// A container that is not in the tree, and a tree that could not be read, end
/// a run, before the wait as well as after it.
pub proof fn law_a_window_that_is_gone_ends_a_run(action: SwayAction, reply: Reply<Node>)
    requires
        runs_by_wait_time(action),
        !(reply matches Reply::Answer(tree) && tree::has_id(
            tree::preorder(tree),
            action.target()->0,
        )),
    ensures
        ({
            let report = match reply {
                Reply::Answer(_) => "container id "@ + text::signed_decimal(
                    action.target()->0 as int,
                ) + " no longer exists — window may have closed"@,
                _ => reply.error()->0,
            };
            let before = next_phase(
                action,
                WaitTimePhase::CheckBefore,
                WaitTimeEvent::Tree(reply),
            );
            let after = next_phase(action, WaitTimePhase::CheckAfter, WaitTimeEvent::Tree(reply));
            &&& asked(action, before) == WaitTimeRequest::<Seq<char>, nat>::Finish(Err(report))
            &&& asked(action, after) == WaitTimeRequest::<Seq<char>, nat>::Finish(Err(report))
        }),
{
}

/// What a run does after its command: it looks for the effect where it can, and
/// else waits for the whole time to wait once more and is not confirmed. A
/// command that was refused ends it with its report.
pub proof fn law_an_effect_is_looked_for_where_it_can_be(
    action: SwayAction,
    connected: bool,
    baseline: Option<Rect>,
    reply: Reply<Vec<Result<(), String>>>,
)
    requires
        runs_by_wait_time(action),
    ensures
        ({
            let sent = next_phase(
                action,
                WaitTimePhase::Send { connected, baseline },
                WaitTimeEvent::Sent(reply),
            );
            match ipc::command_error(reply, action.command()) {
                Some(error) => asked(action, sent) == WaitTimeRequest::<Seq<char>, nat>::Finish(
                    Err(error),
                ),
                None => if connected && action.is_polled(baseline) {
                    &&& sent == (WaitTimePhase::<Seq<char>>::Poll { baseline })
                    &&& asked(action, sent) == (WaitTimeRequest::<Seq<char>, nat>::Poll {
                        read_outputs: action.reads_outputs(),
                    })
                } else {
                    &&& asked(action, sent) == WaitTimeRequest::<Seq<char>, nat>::Sleep(
                        action.time()@,
                    )
                    &&& asked(action, next_phase(action, sent, WaitTimeEvent::Slept))
                        == WaitTimeRequest::<Seq<char>, nat>::Finish(
                        Ok((action.target()->0, false)),
                    )
                },
            }
        }),
{
}

/// A look that shows the effect ends a run as confirmed. One that does not is
/// repeated after ten milliseconds while it is less than the grace and the time
/// to wait since the first look; then what is left of the time to wait is waited
/// for, and the run ends unconfirmed.
pub proof fn law_a_look_is_repeated_until_the_grace_is_over(
    action: SwayAction,
    baseline: Option<Rect>,
    tree: Reply<Node>,
    outputs: Option<Reply<Vec<Output>>>,
    elapsed: Duration,
    total: Duration,
)
    requires
        runs_by_wait_time(action),
    ensures
        ({
            let looked = next_phase(
                action,
                WaitTimePhase::Poll { baseline },
                WaitTimeEvent::Polled { tree, outputs, elapsed },
            );
            let measured = next_phase(action, looked, WaitTimeEvent::Clock { elapsed: total });
            if action.visible_in(tree, outputs, action.target()->0, baseline) {
                asked(action, looked) == WaitTimeRequest::<Seq<char>, nat>::Finish(
                    Ok((action.target()->0, true)),
                )
            } else if elapsed@ < action.grace() && elapsed@ < action.time()@ {
                &&& asked(action, looked) == WaitTimeRequest::<Seq<char>, nat>::Sleep(10_000_000)
                &&& next_phase(action, looked, WaitTimeEvent::Slept) == (WaitTimePhase::<
                    Seq<char>,
                >::Poll { baseline })
            } else {
                &&& asked(action, looked) is ReadClock
                &&& asked(action, measured) matches WaitTimeRequest::Sleep(rest)
                &&& total@ <= action.time()@ ==> rest + total@ == action.time()@
                &&& total@ > action.time()@ ==> rest == 0
                &&& asked(action, next_phase(action, measured, WaitTimeEvent::Slept))
                    == WaitTimeRequest::<Seq<char>, nat>::Finish(Ok((action.target()->0, false)))
            }
        }),
{
}

/// What is told of a run: how long it will wait, in whole milliseconds, its
/// command when it is sent, and whether its effect was seen in time.
pub proof fn law_what_is_told_of_a_run(
    action: SwayAction,
    millis: nat,
    nanos: nat,
    connected: bool,
    baseline: Option<Rect>,
)
    requires
        runs_by_wait_time(action),
        action.is_verbose(),
        nanos < 1_000_000,
        action.time()@ == millis * 1_000_000 + nanos,
    ensures
        announced(action, WaitTimePhase::CheckBefore) == Some(
            "No matching event types for action. Will run Sway command and wait "@ + text::decimal(
                millis,
            ) + " ms."@,
        ),
        announced(action, WaitTimePhase::Send { connected, baseline }) == Some(
            "Sway command: "@ + action.command(),
        ),
        announced(action, WaitTimePhase::Measure) == Some(
            "Poll grace period elapsed without confirmation, falling back to wait-time (container id: "@
                + text::signed_decimal(action.target()->0 as int) + ")"@,
        ),
        announced(action, WaitTimePhase::Done { confirmed: true }) == Some(
            "Confirmed via poll (container id: "@ + text::signed_decimal(action.target()->0 as int)
                + ")"@,
        ),
        announced(action, WaitTimePhase::Done { confirmed: false }) is None,
{
    assert((millis * 1_000_000 + nanos) / 1_000_000 == millis) by (nonlinear_arith)
        requires
            nanos < 1_000_000,
    ;
}

/// Nothing is told of a run that is not to be commented on.
pub proof fn law_a_quiet_run_tells_nothing(action: SwayAction, phase: WaitTimePhase<Seq<char>>)
    requires
        !action.is_verbose(),
    ensures
        announced(action, phase) is None,
{
}

/// An action is run by the clock exactly where it is on a container and no event
/// confirms it.
pub proof fn law_which_actions_are_run_by_the_clock(action: SwayAction)
    ensures
        runs_by_wait_time(action) <==> action is Split || action is Sticky || action is NewColumn
            || action is NewRow || action is Height || action is Width || action is Position,
{
}

/// An event that was not asked for changes nothing.
pub proof fn law_only_what_was_asked_for_counts(
    action: SwayAction,
    phase: WaitTimePhase<Seq<char>>,
    event: WaitTimeEvent,
)
    ensures
        ({
            let request = asked(action, phase);
            let answers = match event {
                WaitTimeEvent::Tree(_) => request is ReadTree,
                WaitTimeEvent::Slept => request is Sleep,
                WaitTimeEvent::Connected { .. } => request is Connect,
                WaitTimeEvent::Sent(_) => request is Send,
                WaitTimeEvent::Polled { .. } => request is Poll,
                WaitTimeEvent::Clock { .. } => request is ReadClock,
            };
            !answers ==> next_phase(action, phase, event) == phase
        }),
{
}

/// Nothing else is announced of a run than its start, its command, and whether
/// its effect was seen in time.
pub proof fn law_nothing_else_is_told_of_a_run(
    action: SwayAction,
    phase: WaitTimePhase<Seq<char>>,
)
    requires
        !(phase is CheckBefore || phase is Send || phase is Measure || phase is Done),
    ensures
        announced(action, phase) is None,
{
}

} // verus!
