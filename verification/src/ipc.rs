//! What goes over Sway's IPC socket: how a command is phrased, how a value is
//! quoted in it, and what a reply amounts to.

use crate::text;
use vstd::prelude::*;

verus! {

broadcast use vstd::string::group_string_axioms;

/// How long one request and its response may take, in seconds.
pub const IPC_ROUND_TRIP_TIMEOUT: u64 = 10;

/// The kinds of input and output failure that are told apart.
#[derive(Copy, Clone, Debug, PartialEq, Eq, Structural)]
pub enum IoErrorKind {
    WouldBlock,
    TimedOut,
    Other,
}

/// A failed exchange with the compositor. The message is the failure's own
/// wording.
#[derive(Debug)]
pub enum IpcFailure {
    Io { kind: IoErrorKind, message: String },
    Other { message: String },
}

/// What came of a request to the compositor.
#[derive(Debug)]
pub enum Reply<T> {
    /// No connection could be opened; the text says why.
    NoConnection(String),
    /// The exchange failed.
    Failed(IpcFailure),
    /// The compositor answered.
    Answer(T),
}

impl IpcFailure {
    /// Whether the exchange ran into the socket's time limit.
    pub open spec fn timed_out(self) -> bool {
        self matches IpcFailure::Io { kind, .. } && kind != IoErrorKind::Other
    }

    /// The failure's own wording.
    pub open spec fn message(self) -> Seq<char> {
        match self {
            IpcFailure::Io { message, .. } => message@,
            IpcFailure::Other { message } => message@,
        }
    }

    /// What is reported of this failure.
    pub open spec fn report(self) -> Seq<char> {
        if self.timed_out() {
            "Sway IPC did not respond within "@ + text::decimal(IPC_ROUND_TRIP_TIMEOUT as nat)
                + " sec — the compositor accepted the connection but stopped answering (this bounds one request/response exchange, and is separate from --timeout)"@
        } else {
            self.message()
        }
    }
}

/// Words a failed exchange. One that ran into the socket's time limit is named
/// as such; every other failure keeps its own wording.
pub fn ipc_error(error: IpcFailure) -> (report: String)
    ensures
        report@ == error.report(),
{
    match error {
        IpcFailure::Io { kind, message } => {
            if kind == IoErrorKind::WouldBlock || kind == IoErrorKind::TimedOut {
                text::concat3(
                    "Sway IPC did not respond within ",
                    text::decimal_text(IPC_ROUND_TRIP_TIMEOUT as u128).as_str(),
                    " sec — the compositor accepted the connection but stopped answering (this bounds one request/response exchange, and is separate from --timeout)",
                )
            } else {
                message
            }
        },
        IpcFailure::Other { message } => message,
    }
}

impl<T> Reply<T> {
    /// Why there is no answer.
    pub open spec fn error(self) -> Option<Seq<char>> {
        match self {
            Reply::NoConnection(error) => Some(error@),
            Reply::Failed(failure) => Some(failure.report()),
            Reply::Answer(_) => None,
        }
    }

    /// The answer, or the report of why there is none.
    pub fn into_result(self) -> (result: Result<T, String>)
        ensures
            match result {
                Ok(answer) => self == Reply::Answer(answer),
                Err(error) => self.error() == Some(error@),
            },
    {
        match self {
            Reply::NoConnection(error) => Err(error),
            Reply::Failed(failure) => Err(ipc_error(failure)),
            Reply::Answer(answer) => Ok(answer),
        }
    }
}

/// The first failure among the outcomes of a command's parts.
pub open spec fn first_failure(outcomes: Seq<Result<(), String>>) -> Option<Seq<char>>
    decreases outcomes.len(),
{
    if outcomes.len() == 0 {
        None
    } else {
        match outcomes[0] {
            Err(error) => Some(error@),
            Ok(()) => first_failure(outcomes.drop_first()),
        }
    }
}

/// What is wrong with the outcomes of a command: that there are none, or else
/// the first failure among them.
pub open spec fn outcome_error(outcomes: Seq<Result<(), String>>, command: Seq<char>) -> Option<
    Seq<char>,
> {
    if outcomes.len() == 0 {
        Some(command + " command failed"@)
    } else {
        first_failure(outcomes)
    }
}

/// Sway splits a command at each unquoted `,` or `;`, so one command can have
/// several outcomes. Reports the first failure among them.
pub fn first_outcome_error(outcomes: Vec<Result<(), String>>, command: &str) -> (result: Result<
    (),
    String,
>)
    ensures
        match result {
            Ok(()) => outcome_error(outcomes@, command@) is None,
            Err(error) => outcome_error(outcomes@, command@) == Some(error@),
        },
{
    if outcomes.len() == 0 {
        return Err(text::concat(command, " command failed"));
    }
    let mut i: usize = 0;
    proof {
        assert(outcomes@.skip(0) =~= outcomes@);
    }
    while i < outcomes.len()
        invariant
            outcomes.len() > 0,
            i <= outcomes.len(),
            first_failure(outcomes@) == first_failure(outcomes@.skip(i as int)),
        decreases outcomes.len() - i,
    {
        if let Err(error) = &outcomes[i] {
            return Err(error.clone());
        }
        proof {
            assert(outcomes@.skip(i as int).drop_first() =~= outcomes@.skip(i + 1));
        }
        i += 1;
    }
    Ok(())
}

/// A command succeeds exactly where it has an outcome and no outcome is a
/// failure.
pub proof fn law_command_succeeds_iff_every_outcome_does(
    outcomes: Seq<Result<(), String>>,
    command: Seq<char>,
)
    ensures
        outcome_error(outcomes, command) is None <==> outcomes.len() > 0 && forall|i: int|
            0 <= i < outcomes.len() ==> (#[trigger] outcomes[i]) is Ok,
{
    lemma_first_failure(outcomes);
}

proof fn lemma_first_failure(outcomes: Seq<Result<(), String>>)
    ensures
        first_failure(outcomes) is None <==> forall|i: int|
            0 <= i < outcomes.len() ==> (#[trigger] outcomes[i]) is Ok,
    decreases outcomes.len(),
{
    if outcomes.len() > 0 {
        let rest = outcomes.drop_first();
        lemma_first_failure(rest);
        if outcomes[0] is Ok && first_failure(rest) is None {
            assert forall|i: int| 0 <= i < outcomes.len() implies (#[trigger] outcomes[i]) is Ok by {
                if i > 0 {
                    assert(rest[i - 1] is Ok);
                }
            }
        }
        if forall|i: int| 0 <= i < outcomes.len() ==> (#[trigger] outcomes[i]) is Ok {
            assert forall|i: int| 0 <= i < rest.len() implies (#[trigger] rest[i]) is Ok by {
                assert(outcomes[i + 1] is Ok);
            }
        }
    }
}

/// What is wrong with the reply to a command.
pub open spec fn command_error(reply: Reply<Vec<Result<(), String>>>, command: Seq<char>) -> Option<
    Seq<char>,
> {
    match reply {
        Reply::Answer(outcomes) => outcome_error(outcomes@, command),
        _ => reply.error(),
    }
}

/// What the reply to a command amounts to.
pub fn run_sway_command(command: &str, reply: Reply<Vec<Result<(), String>>>) -> (result: Result<
    (),
    String,
>)
    ensures
        match result {
            Ok(()) => command_error(reply, command@) is None,
            Err(error) => command_error(reply, command@) == Some(error@),
        },
{
    match reply.into_result() {
        Ok(outcomes) => first_outcome_error(outcomes, command),
        Err(error) => Err(error),
    }
}

/// A command directed at one container.
pub open spec fn directed(container_id: int, verb: Seq<char>) -> Seq<char> {
    "[con_id="@ + text::signed_decimal(container_id) + "] "@ + verb
}

/// A command directed at one container.
pub fn directed_command(container_id: i64, verb: &str) -> (command: String)
    ensures
        command@ == directed(container_id as int, verb@),
{
    text::concat3(
        "[con_id=",
        text::signed_decimal_text(container_id).as_str(),
        "] ",
    ).concat(verb)
}

/// The command that kills a container.
pub fn kill_command(container_id: i64) -> (command: String)
    ensures
        command@ == directed(container_id as int, "kill"@),
{
    directed_command(container_id, "kill")
}

/// Kills a container: what the reply to the command that does so amounts to.
pub fn kill_container(container_id: i64, reply: Reply<Vec<Result<(), String>>>) -> (result: Result<
    (),
    String,
>)
    ensures
        match result {
            Ok(()) => command_error(reply, directed(container_id as int, "kill"@)) is None,
            Err(error) => command_error(reply, directed(container_id as int, "kill"@)) == Some(
                error@,
            ),
        },
{
    run_sway_command(kill_command(container_id).as_str(), reply)
}

/// A character as it stands inside a quoted string.
pub open spec fn escaped_char(c: char) -> Seq<char> {
    if c == '"' || c == '\\' {
        seq!['\\', c]
    } else {
        seq![c]
    }
}

/// A text as it stands inside a quoted string: a backslash in front of each
/// double quote and each backslash.
pub open spec fn escaped(s: Seq<char>) -> Seq<char>
    decreases s.len(),
{
    if s.len() == 0 {
        Seq::empty()
    } else {
        escaped_char(s[0]) + escaped(s.drop_first())
    }
}

/// A text as a quoted string.
pub open spec fn quoted(s: Seq<char>) -> Seq<char> {
    seq!['"'] + escaped(s) + seq!['"']
}

/// Quotes a value, so that it is one argument of a command whatever
/// separators are in it.
pub fn quote_sway_string(value: &str) -> (result: String)
    ensures
        result@ == quoted(value@),
{
    proof {
        reveal_strlit("\"");
        reveal_strlit("\\");
        assert("\""@ =~= seq!['"']);
        assert("\\"@ =~= seq!['\\']);
        assert(value@.skip(0) =~= value@);
        assert("\""@ + escaped(value@) =~= seq!['"'] + escaped(value@));
    }
    let chars = text::chars_of(value);
    let mut result = "\"".to_owned();
    let mut i: usize = 0;
    while i < chars.len()
        invariant
            i <= chars.len(),
            chars@ == value@,
            "\\"@ == seq!['\\'],
            result@ + escaped(value@.skip(i as int)) == seq!['"'] + escaped(value@),
        decreases chars.len() - i,
    {
        let c = chars[i];
        let ghost before = result@;
        if c == '"' || c == '\\' {
            result.append("\\");
        }
        result.append(value.substring_char(i, i + 1));
        proof {
            assert(value@.subrange(i as int, i + 1) =~= seq![c]);
            assert(result@ =~= before + escaped_char(c));
            assert(value@.skip(i as int).drop_first() =~= value@.skip(i + 1));
            assert(before + (escaped_char(c) + escaped(value@.skip(i + 1))) =~= result@ + escaped(
                value@.skip(i + 1),
            ));
        }
        i += 1;
    }
    proof {
        assert(value@.skip(i as int) =~= Seq::<char>::empty());
        assert(result@ + Seq::<char>::empty() =~= result@);
    }
    result.concat("\"")
}

/// What the inside of a quoted string stands for, where a backslash makes the
/// character behind it literal: nothing where a double quote ends the string
/// early, or where a backslash has nothing behind it.
pub open spec fn unescaped(s: Seq<char>) -> Option<Seq<char>>
    decreases s.len(),
{
    if s.len() == 0 {
        Some(Seq::empty())
    } else if s[0] == '"' {
        None
    } else if s[0] == '\\' {
        if s.len() < 2 {
            None
        } else {
            match unescaped(s.skip(2)) {
                Some(rest) => Some(seq![s[1]] + rest),
                None => None,
            }
        }
    } else {
        match unescaped(s.drop_first()) {
            Some(rest) => Some(seq![s[0]] + rest),
            None => None,
        }
    }
}

/// No value ends its quoted string early, so none can add a command of its
/// own: between the quotes stands the value and nothing else.
pub proof fn law_quoted_string_holds_the_value(s: Seq<char>)
    ensures
        quoted(s).len() >= 2,
        quoted(s)[0] == '"',
        quoted(s).last() == '"',
        unescaped(quoted(s).subrange(1, quoted(s).len() - 1)) == Some(s),
{
    assert(quoted(s).subrange(1, quoted(s).len() - 1) =~= escaped(s));
    lemma_unescaped_escaped(s);
}

proof fn lemma_unescaped_escaped(s: Seq<char>)
    ensures
        unescaped(escaped(s)) == Some(s),
    decreases s.len(),
{
    if s.len() > 0 {
        let rest = s.drop_first();
        lemma_unescaped_escaped(rest);
        let e = escaped(s);
        if s[0] == '"' || s[0] == '\\' {
            assert(e.skip(2) =~= escaped(rest));
        } else {
            assert(e.drop_first() =~= escaped(rest));
        }
        assert(seq![s[0]] + rest =~= s);
    } else {
        assert(s =~= Seq::<char>::empty());
    }
}

/// A value without double quotes and backslashes stands between the quotes as
/// it is, which is what makes it read back as it was written.
pub proof fn law_accepted_value_is_quoted_verbatim(s: Seq<char>)
    requires
        !s.contains('"'),
        !s.contains('\\'),
    ensures
        quoted(s) == seq!['"'] + s + seq!['"'],
    decreases s.len(),
{
    if s.len() > 0 {
        let rest = s.drop_first();
        assert forall|i: int| 0 <= i < rest.len() implies rest[i] != '"' && rest[i] != '\\' by {
            assert(rest[i] == s[i + 1]);
            assert(s.contains(s[i + 1]));
        }
        assert(s.contains(s[0]));
        law_accepted_value_is_quoted_verbatim(rest);
        assert(quoted(rest).subrange(1, quoted(rest).len() - 1) =~= escaped(rest));
        assert((seq!['"'] + rest + seq!['"']).subrange(1, rest.len() as int + 1) =~= rest);
        assert(escaped(s) =~= s);
    } else {
        assert(s =~= Seq::<char>::empty());
    }
}

/// The failure of a command that is reported is its first: the one that no other
/// comes before. A command without any outcome is reported itself.
pub proof fn law_the_first_failure_is_reported(
    outcomes: Seq<Result<(), String>>,
    command: Seq<char>,
    i: int,
)
    ensures
        outcomes.len() == 0 ==> outcome_error(outcomes, command) == Some(
            command + " command failed"@,
        ),
        0 <= i < outcomes.len() && outcomes[i] is Err && (forall|j: int|
            0 <= j < i ==> (#[trigger] outcomes[j]) is Ok) ==> outcome_error(outcomes, command)
            == Some(outcomes[i]->Err_0@),
    decreases outcomes.len(),
{
    if 0 < i < outcomes.len() && (forall|j: int| 0 <= j < i ==> (#[trigger] outcomes[j]) is Ok) {
        let rest = outcomes.drop_first();
        assert(outcomes[0] is Ok);
        assert forall|j: int| 0 <= j < i - 1 implies (#[trigger] rest[j]) is Ok by {
            assert(outcomes[j + 1] is Ok);
        }
        law_the_first_failure_is_reported(rest, command, i - 1);
    }
}

/// Why there is no answer: a failure to connect in its own words, an exchange
/// that ran into the time limit as that, and any other failure in its own words.
pub proof fn law_why_there_is_no_answer<T>(reply: Reply<T>)
    ensures
        reply is Answer <==> reply.error() is None,
        reply matches Reply::NoConnection(error) ==> reply.error() == Some(error@),
        reply matches Reply::Failed(IpcFailure::Other { message }) ==> reply.error() == Some(
            message@,
        ),
        reply matches Reply::Failed(IpcFailure::Io { kind: IoErrorKind::Other, message })
            ==> reply.error() == Some(message@),
        (reply matches Reply::Failed(IpcFailure::Io { kind, .. }) && (kind
            == IoErrorKind::WouldBlock || kind == IoErrorKind::TimedOut)) ==> reply.error() == Some(
            "Sway IPC did not respond within "@ + text::decimal(10)
                + " sec — the compositor accepted the connection but stopped answering (this bounds one request/response exchange, and is separate from --timeout)"@,
        ),
{
    if let Reply::Failed(IpcFailure::Io { kind, .. }) = reply {
        match kind {
            IoErrorKind::WouldBlock => {},
            IoErrorKind::TimedOut => {},
            IoErrorKind::Other => {},
        }
    }
}

/// The reply to a command is a success exactly where it is an answer with at
/// least one outcome and every outcome is a success.
pub proof fn law_a_command_succeeds_by_its_reply(
    reply: Reply<Vec<Result<(), String>>>,
    command: Seq<char>,
)
    ensures
        command_error(reply, command) is None <==> (reply matches Reply::Answer(outcomes)
            && outcomes@.len() > 0 && forall|i: int|
            0 <= i < outcomes@.len() ==> (#[trigger] outcomes@[i]) is Ok),
        reply matches Reply::Answer(outcomes) ==> command_error(reply, command) == outcome_error(
            outcomes@,
            command,
        ),
        !(reply is Answer) ==> command_error(reply, command) == reply.error(),
{
    if let Reply::Answer(outcomes) = reply {
        law_command_succeeds_iff_every_outcome_does(outcomes@, command);
    }
}

/// A command that is directed at a container names the container in front and
/// is itself whole behind it.
pub proof fn law_a_directed_command_is_whole(container_id: int, verb: Seq<char>)
    ensures
        directed(container_id, verb) == "[con_id="@ + text::signed_decimal(container_id) + "] "@
            + verb,
        directed(container_id, verb).skip(directed(container_id, verb).len() - verb.len()) == verb,
{
    let command = directed(container_id, verb);
    assert(command.skip(command.len() - verb.len()) =~= verb);
}

/// A double quote and a backslash each have a backslash in front of them inside
/// a quoted string, and every other character stands there as it is.
pub proof fn law_only_quotes_and_backslashes_are_escaped(s: Seq<char>, c: char)
    ensures
        quoted(Seq::empty()) == seq!['"', '"'],
        quoted(s.push(c)) == quoted(s).drop_last() + if c == '"' || c == '\\' {
            seq!['\\', c]
        } else {
            seq![c]
        } + seq!['"'],
{
    assert(quoted(Seq::empty()) =~= seq!['"', '"']);
    lemma_escaped_push(s, c);
    assert(quoted(s).drop_last() =~= seq!['"'] + escaped(s));
    assert(quoted(s.push(c)) =~= quoted(s).drop_last() + escaped_char(c) + seq!['"']);
}

proof fn lemma_escaped_push(s: Seq<char>, c: char)
    ensures
        escaped(s.push(c)) == escaped(s) + escaped_char(c),
    decreases s.len(),
{
    reveal_with_fuel(escaped, 2);
    if s.len() == 0 {
        assert(s.push(c).drop_first() =~= Seq::<char>::empty());
        assert(escaped(s.push(c)) =~= escaped(s) + escaped_char(c));
    } else {
        lemma_escaped_push(s.drop_first(), c);
        assert(s.push(c).drop_first() =~= s.drop_first().push(c));
        assert(escaped(s.push(c)) =~= escaped(s) + escaped_char(c));
    }
}

/// One request and its response may take ten seconds.
pub proof fn law_how_long_an_exchange_may_take()
    ensures
        IPC_ROUND_TRIP_TIMEOUT == 10,
{
}

} // verus!
