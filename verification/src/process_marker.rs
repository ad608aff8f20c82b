//! Telling whether a window belongs to the process that was launched: the
//! launched command's environment carries a marker, and a process whose
//! environment holds that marker is the launched one or comes from it.

use crate::text;
use vstd::prelude::*;

verus! {

broadcast use vstd::string::group_string_axioms;

/// The environment variable that carries the marker.
pub const PID_MARKER_VAR: &'static str = "SWAY_LAUNCH_PID_MARKER";

/// How long a window that matches but is not confirmed is held back in favour
/// of a confirmed one, in milliseconds.
pub const PID_MARKER_FALLBACK_GRACE: u64 = 2000;

/// The marker of a launch: the launching process and the moment, so that
/// neither two processes nor two launches of one process share it.
pub open spec fn pid_marker_token(pid: nat, nanos: nat) -> Seq<char> {
    text::decimal(pid) + "-"@ + text::decimal(nanos)
}

/// The marker of a launch, from the launching process's id and the current
/// time in nanoseconds.
pub fn generate_pid_marker_token(pid: u32, nanos: u128) -> (token: String)
    ensures
        token@ == pid_marker_token(pid as nat, nanos as nat),
{
    text::concat3(
        text::decimal_text(pid as u128).as_str(),
        "-",
        text::decimal_text(nanos).as_str(),
    )
}

/// Launches by two processes, and launches by one process at two moments, have
/// different markers.
pub proof fn law_markers_are_distinct(pid: nat, nanos: nat, other_pid: nat, other_nanos: nat)
    requires
        pid_marker_token(pid, nanos) == pid_marker_token(other_pid, other_nanos),
    ensures
        pid == other_pid,
        nanos == other_nanos,
{
    reveal_strlit("-");
    assert("-"@ =~= seq!['-']);
    text::lemma_decimal_value(pid);
    text::lemma_decimal_value(nanos);
    text::lemma_decimal_value(other_pid);
    text::lemma_decimal_value(other_nanos);
    text::lemma_split_on_pair(text::decimal(pid), text::decimal(nanos), '-');
    text::lemma_split_on_pair(text::decimal(other_pid), text::decimal(other_nanos), '-');
    let parts = text::split_on(pid_marker_token(pid, nanos), '-');
    assert(parts[0] == text::decimal(pid) && parts[0] == text::decimal(other_pid));
    assert(parts[1] == text::decimal(nanos) && parts[1] == text::decimal(other_nanos));
}

/// Whether an environment holds an entry: the bytes between two neighbouring
/// zero bytes, or between one and an end of the environment.
pub open spec fn environment_holds(environ: Seq<u8>, entry: Seq<u8>) -> bool {
    exists|start: int| #[trigger] entry_at(environ, entry, start)
}

/// Whether an entry stands at a place in an environment.
pub open spec fn entry_at(environ: Seq<u8>, entry: Seq<u8>, start: int) -> bool {
    let end = start + entry.len();
    &&& 0 <= start
    &&& end <= environ.len()
    &&& environ.subrange(start, end) == entry
    &&& !entry.contains(0)
    &&& start == 0 || environ[start - 1] == 0
    &&& end == environ.len() || environ[end] == 0
}

/// Whether the bytes from `start` to `end` are an entry.
fn is_entry(environ: &Vec<u8>, start: usize, end: usize, entry: &Vec<u8>) -> (same: bool)
    requires
        start <= end <= environ.len(),
    ensures
        same == (environ@.subrange(start as int, end as int) == entry@),
{
    if end - start != entry.len() {
        assert(environ@.subrange(start as int, end as int).len() == end - start);
        return false;
    }
    let mut i: usize = 0;
    while i < entry.len()
        invariant
            i <= entry.len(),
            start + entry.len() == end,
            end <= environ.len(),
            forall|j: int| 0 <= j < i ==> environ@[start + j] == #[trigger] entry@[j],
        decreases entry.len() - i,
    {
        if environ[start + i] != entry[i] {
            assert(environ@.subrange(start as int, end as int)[i as int] == environ@[start + i]);
            return false;
        }
        i += 1;
    }
    assert(environ@.subrange(start as int, end as int) =~= entry@);
    true
}

/// The entry by which an environment sets a variable to a value.
pub open spec fn env_entry(var_name: Seq<char>, value: Seq<char>) -> Seq<u8> {
    vstd::utf8::encode_utf8(var_name + "="@ + value)
}

/// Whether a process's environment sets a variable to a value. An environment
/// that could not be read sets nothing.
pub fn process_has_env_var(
    environ: &Option<Vec<u8>>,
    var_name: &str,
    expected_value: &str,
) -> (set: bool)
    ensures
        set == (*environ matches Some(environ) && environment_holds(
            environ@,
            env_entry(var_name@, expected_value@),
        )),
{
    match environ {
        Some(environ) => {
            let needle = text::concat3(var_name, "=", expected_value);
            environment_holds_bytes(environ, &needle.as_str().as_bytes_vec())
        },
        None => false,
    }
}

/// Whether some environment that could be read sets a variable to a value.
pub open spec fn some_process_has_env_var(
    environs: Seq<Option<Vec<u8>>>,
    var_name: Seq<char>,
    value: Seq<char>,
) -> bool {
    exists|i: int|
        0 <= i < environs.len() && #[trigger] environs[i] is Some && environment_holds(
            environs[i]->0@,
            env_entry(var_name, value),
        )
}

/// Whether some environment could be read.
pub open spec fn some_process_readable(environs: Seq<Option<Vec<u8>>>) -> bool {
    exists|i: int| 0 <= i < environs.len() && #[trigger] environs[i] is Some
}

/// Whether some process's environment sets a variable to a value. An
/// environment that could not be read sets nothing: where none could be read,
/// this does not show that no process carries the variable.
pub fn any_process_has_env_var(
    environs: &Vec<Option<Vec<u8>>>,
    var_name: &str,
    expected_value: &str,
) -> (set: bool)
    ensures
        set == some_process_has_env_var(environs@, var_name@, expected_value@),
{
    let mut i: usize = 0;
    while i < environs.len()
        invariant
            i <= environs.len(),
            forall|j: int|
                0 <= j < i && #[trigger] environs@[j] is Some ==> !environment_holds(
                    environs@[j]->0@,
                    env_entry(var_name@, expected_value@),
                ),
        decreases environs.len() - i,
    {
        if process_has_env_var(&environs[i], var_name, expected_value) {
            assert(environs@[i as int] is Some);
            return true;
        }
        i += 1;
    }
    false
}

/// What looking for a marker in the environments of the processes showed.
#[derive(Copy, Clone, Debug, PartialEq, Eq, Structural)]
pub enum MarkerScan {
    /// Some process carries the marker.
    Marked,
    /// Processes could be looked at, and none of those carries the marker.
    Unmarked,
    /// No process could be looked at, so nothing is known.
    Unreadable,
    /// The processes could not even be listed, so nothing is known.
    Unlisted,
}

/// What the environments of the processes show of a marker.
pub open spec fn marker_scan(
    environs: Seq<Option<Vec<u8>>>,
    var_name: Seq<char>,
    value: Seq<char>,
) -> MarkerScan {
    if some_process_has_env_var(environs, var_name, value) {
        MarkerScan::Marked
    } else if some_process_readable(environs) {
        MarkerScan::Unmarked
    } else {
        MarkerScan::Unreadable
    }
}

/// Looks for a marker in the environments of the processes. That none could be
/// read is told apart from that none carries the marker.
pub fn scan_for_marker(
    environs: &Vec<Option<Vec<u8>>>,
    var_name: &str,
    expected_value: &str,
) -> (scan: MarkerScan)
    ensures
        scan == marker_scan(environs@, var_name@, expected_value@),
{
    if any_process_has_env_var(environs, var_name, expected_value) {
        return MarkerScan::Marked;
    }
    let mut i: usize = 0;
    while i < environs.len()
        invariant
            i <= environs.len(),
            !some_process_has_env_var(environs@, var_name@, expected_value@),
            forall|j: int| 0 <= j < i ==> !(#[trigger] environs@[j] is Some),
        decreases environs.len() - i,
    {
        if environs[i].is_some() {
            assert(environs@[i as int] is Some);
            return MarkerScan::Unmarked;
        }
        i += 1;
    }
    MarkerScan::Unreadable
}

fn environment_holds_bytes(environ: &Vec<u8>, entry: &Vec<u8>) -> (held: bool)
    ensures
        held == environment_holds(environ@, entry@),
{
    let mut start: usize = 0;
    let mut i: usize = 0;
    while i < environ.len()
        invariant
            start <= i <= environ.len(),
            start == 0 || environ@[start - 1] == 0,
            forall|j: int| start <= j < i ==> environ@[j] != 0,
            forall|j: int| 0 <= j < start ==> !#[trigger] entry_at(environ@, entry@, j),
        decreases environ.len() - i,
    {
        if environ[i] == 0 {
            let found = is_entry(environ, start, i, entry);
            proof {
                lemma_entry_in_segment(environ@, entry@, start as int, i as int);
            }
            if found {
                assert(entry_at(environ@, entry@, start as int));
                return true;
            }
            start = i + 1;
        }
        i += 1;
    }
    let found = is_entry(environ, start, i, entry);
    proof {
        lemma_entry_in_segment(environ@, entry@, start as int, i as int);
        if found {
            assert(entry_at(environ@, entry@, start as int));
        } else {
            assert forall|j: int| !#[trigger] entry_at(environ@, entry@, j) by {}
        }
    }
    found
}

/// Between two zero bytes an entry can only stand as a whole.
proof fn lemma_entry_in_segment(environ: Seq<u8>, entry: Seq<u8>, start: int, end: int)
    requires
        0 <= start <= end <= environ.len(),
        start == 0 || environ[start - 1] == 0,
        forall|j: int| start <= j < end ==> environ[j] != 0,
        end == environ.len() || environ[end] == 0,
    ensures
        entry_at(environ, entry, start) <==> environ.subrange(start, end) == entry,
        forall|j: int| start < j <= end ==> !#[trigger] entry_at(environ, entry, j),
{
    let segment = environ.subrange(start, end);
    if segment == entry {
        assert forall|k: int| 0 <= k < entry.len() implies entry[k] != 0 by {
            assert(entry[k] == environ[start + k]);
        }
    }
    if entry_at(environ, entry, start) {
        let stop = start + entry.len();
        if stop < end {
            assert(environ[stop] != 0);
        } else if stop > end {
            assert(environ.subrange(start, stop)[end - start] == environ[end]);
            assert(entry.contains(0));
        }
        assert(stop == end);
    }
    assert forall|j: int| start < j <= end implies !#[trigger] entry_at(environ, entry, j) by {
        assert(environ[j - 1] != 0);
    }
}

/// An environment holds an entry exactly where the entry stands in it as a
/// whole: between zero bytes, or between one and an end.
pub proof fn law_an_entry_stands_between_zero_bytes(environ: Seq<u8>, entry: Seq<u8>)
    ensures
        forall|before: Seq<u8>, after: Seq<u8>|
            environ == #[trigger] (before + entry + after) && !entry.contains(0) && (before.len()
                == 0 || before.last() == 0) && (after.len() == 0 || after[0] == 0)
                ==> environment_holds(environ, entry),
        environment_holds(environ, entry) ==> exists|before: Seq<u8>, after: Seq<u8>|
            environ == #[trigger] (before + entry + after) && !entry.contains(0) && (before.len()
                == 0 || before.last() == 0) && (after.len() == 0 || after[0] == 0),
{
    assert forall|before: Seq<u8>, after: Seq<u8>|
        environ == #[trigger] (before + entry + after) && !entry.contains(0) && (before.len() == 0
            || before.last() == 0) && (after.len() == 0 || after[0] == 0) implies environment_holds(
        environ,
        entry,
    ) by {
        let start = before.len() as int;
        assert(environ.subrange(start, start + entry.len()) =~= entry);
        assert(entry_at(environ, entry, start));
    }
    if environment_holds(environ, entry) {
        let start = choose|start: int| #[trigger] entry_at(environ, entry, start);
        let before = environ.take(start);
        let after = environ.skip(start + entry.len());
        assert(environ =~= before + entry + after);
    }
}

/// A variable is set by its name, an equals sign and its value.
pub proof fn law_a_variable_is_set_by_name_and_value(var_name: Seq<char>, value: Seq<char>)
    ensures
        env_entry(var_name, value) == vstd::utf8::encode_utf8(var_name + seq!['='] + value),
{
    reveal_strlit("=");
    assert("="@ =~= seq!['=']);
}

/// What looking at the processes shows: that one carries the marker where some
/// environment that could be read sets it; else that none does where some could
/// be read; else nothing.
pub proof fn law_what_the_processes_show(
    environs: Seq<Option<Vec<u8>>>,
    var_name: Seq<char>,
    value: Seq<char>,
)
    ensures
        ({
            let sets = |environ: Option<Vec<u8>>| environ matches Some(bytes) && environment_holds(
                bytes@,
                env_entry(var_name, value),
            );
            let scan = marker_scan(environs, var_name, value);
            &&& scan is Marked <==> exists|i: int| 0 <= i < environs.len() && sets(
                #[trigger] environs[i],
            )
            &&& scan is Unmarked <==> (exists|i: int|
                0 <= i < environs.len() && (#[trigger] environs[i]) is Some) && forall|i: int|
                0 <= i < environs.len() ==> !sets(#[trigger] environs[i])
            &&& scan is Unreadable <==> forall|i: int|
                0 <= i < environs.len() ==> (#[trigger] environs[i]) is None
        }),
{
}

/// A marker is made of the launching process and the moment.
pub proof fn law_a_marker_names_process_and_moment(pid: nat, nanos: nat)
    ensures
        pid_marker_token(pid, nanos) == text::decimal(pid) + seq!['-'] + text::decimal(nanos),
{
    reveal_strlit("-");
    assert("-"@ =~= seq!['-']);
}

} // verus!
