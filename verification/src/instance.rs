//! The marks by which a running daemon is known: its PID file, its socket and its lock.
use crate::text;
use crate::text::{
    chars_of, decimal_text, ends_with, join2, join3, join5, parse_number, same, starts_with,
    trim,
};
use crate::words;
use crate::words::token_spans;
use vstd::prelude::*;

verus! {

/// What a PID file says.
#[derive(Clone, Copy, PartialEq, Eq, Structural, Debug)]
pub enum PidFileState {
    Missing,
    Running(u32),
    Dead(u32),
    Malformed,
}

/// The process that a PID file names.
pub open spec fn named_pid(content: Seq<char>) -> Option<u32> {
    match text::parsed_number(text::trimmed(content), u32::MAX as nat) {
        Some(pid) => Some(pid as u32),
        None => None,
    }
}

/// The process that a PID file names.
pub fn marker_pid(content: &str) -> (pid: Option<u32>)
    ensures
        pid == named_pid(content@),
{
    match parse_number(trim(content), u32::MAX as u64) {
        Some(pid) => Some(pid as u32),
        None => None,
    }
}

/// What a PID file says. There is no content where there is no file; `alive` says whether the
/// process that it names, if it names one, is alive.
pub fn inspect_pid_file_with(content: Option<&str>, alive: bool) -> (state: PidFileState)
    ensures
        state == match content {
            None => PidFileState::Missing,
            Some(content) => match named_pid(content@) {
                None => PidFileState::Malformed,
                Some(pid) => if alive {
                    PidFileState::Running(pid)
                } else {
                    PidFileState::Dead(pid)
                },
            },
        },
{
    match content {
        None => PidFileState::Missing,
        Some(content) => match marker_pid(content) {
            None => PidFileState::Malformed,
            Some(pid) => if alive {
                PidFileState::Running(pid)
            } else {
                PidFileState::Dead(pid)
            },
        },
    }
}

/// What `cued status` says.
pub open spec fn status_text(state: PidFileState, socket_ready: bool, socket: Seq<char>) -> Seq<
    char,
> {
    match state {
        PidFileState::Running(pid) => if socket_ready {
            "cued is running (pid "@ + text::decimal(pid as nat) + ", socket "@ + socket
                + " reachable)"@
        } else {
            "cued process is running (pid "@ + text::decimal(pid as nat) + ") but socket "@ + socket
                + " is not reachable"@
        },
        PidFileState::Dead(pid) => if socket_ready {
            "cued is running (socket "@ + socket + " reachable, PID file points to dead pid "@
                + text::decimal(pid as nat) + ")"@
        } else {
            "cued: stale PID file (pid "@ + text::decimal(pid as nat) + " not running)"@
        },
        PidFileState::Malformed => if socket_ready {
            "cued is running (socket "@ + socket + " reachable, PID file is malformed)"@
        } else {
            "cued: stale PID file (malformed)"@
        },
        PidFileState::Missing => if socket_ready {
            "cued is running (socket "@ + socket + " reachable, PID file is missing)"@
        } else {
            "cued is not running"@
        },
    }
}

/// What `cued status` says.
pub fn daemon_status_message(state: PidFileState, socket_ready: bool, socket: &str) -> (message:
    String)
    ensures
        message@ == status_text(state, socket_ready, socket@),
{
    match state {
        PidFileState::Running(pid) => {
            let id = decimal_text(pid as u64);
            if socket_ready {
                join5("cued is running (pid ", id.as_str(), ", socket ", socket, " reachable)")
            } else {
                join5(
                    "cued process is running (pid ",
                    id.as_str(),
                    ") but socket ",
                    socket,
                    " is not reachable",
                )
            }
        },
        PidFileState::Dead(pid) => {
            let id = decimal_text(pid as u64);
            if socket_ready {
                join5(
                    "cued is running (socket ",
                    socket,
                    " reachable, PID file points to dead pid ",
                    id.as_str(),
                    ")",
                )
            } else {
                join3("cued: stale PID file (pid ", id.as_str(), " not running)")
            }
        },
        PidFileState::Malformed => {
            if socket_ready {
                join3("cued is running (socket ", socket, " reachable, PID file is malformed)")
            } else {
                "cued: stale PID file (malformed)".to_owned()
            }
        },
        PidFileState::Missing => {
            if socket_ready {
                join3("cued is running (socket ", socket, " reachable, PID file is missing)")
            } else {
                "cued is not running".to_owned()
            }
        },
    }
}

/// The socket answers, so nothing that belongs to it is stale.
pub open spec fn live_socket_fault(socket: Seq<char>, reason: Seq<char>) -> Seq<char> {
    "cued socket "@ + socket + " is reachable but "@ + reason + "; run `cued stop --socket "@
        + socket + "` first"@
}

/// Refuses to go on while a daemon answers on the socket.
pub fn ensure_socket_not_live_with(socket_ready: bool, socket: &str, reason: &str) -> (result:
    Result<(), String>)
    ensures
        match result {
            Ok(()) => !socket_ready,
            Err(message) => socket_ready && message@ == live_socket_fault(socket@, reason@),
        },
{
    if socket_ready {
        let mut message = join5(
            "cued socket ",
            socket,
            " is reachable but ",
            reason,
            "; run `cued stop --socket ",
        );
        message.append(socket);
        message.append("` first");
        return Err(message);
    }
    Ok(())
}

/// Why the PID file is stale.
pub open spec fn stale_reason(state: PidFileState) -> Option<Seq<char>> {
    match state {
        PidFileState::Dead(pid) => Some(
            "PID file points to dead pid "@ + text::decimal(pid as nat),
        ),
        PidFileState::Malformed => Some("PID file is malformed"@),
        _ => None,
    }
}

/// Whether the PID file and the socket are stale and have to go before a daemon starts. The
/// daemon does not start where the process of the PID file runs, or where the PID file is stale
/// and a daemon answers on the socket nevertheless.
pub fn check_pid_marker(
    state: PidFileState,
    socket_ready: bool,
    pid_path: &str,
    socket: &str,
) -> (result: Result<bool, String>)
    ensures
        match state {
            PidFileState::Running(pid) => result matches Err(message) && message@
                == "cued already running (pid "@ + text::decimal(pid as nat)
                + "). If stale, remove "@ + pid_path@ + " and retry."@,
            PidFileState::Missing => result == Ok::<bool, String>(false),
            _ => match result {
                Ok(stale) => stale && !socket_ready,
                Err(message) => socket_ready && message@ == live_socket_fault(
                    socket@,
                    stale_reason(state)->0,
                ),
            },
        },
{
    let reason = match state {
        PidFileState::Running(pid) => {
            let id = decimal_text(pid as u64);
            return Err(
                join5(
                    "cued already running (pid ",
                    id.as_str(),
                    "). If stale, remove ",
                    pid_path,
                    " and retry.",
                ),
            );
        },
        PidFileState::Missing => {
            return Ok(false);
        },
        PidFileState::Dead(pid) => {
            let id = decimal_text(pid as u64);
            join2("PID file points to dead pid ", id.as_str())
        },
        PidFileState::Malformed => "PID file is malformed".to_owned(),
    };
    match ensure_socket_not_live_with(socket_ready, socket, reason.as_str()) {
        Ok(()) => Ok(true),
        Err(message) => Err(message),
    }
}

/// Whether a socket that is left over may be removed before a daemon starts.
pub fn check_socket_marker(socket_ready: bool, socket: &str) -> (result: Result<(), String>)
    ensures
        match result {
            Ok(()) => !socket_ready,
            Err(message) => socket_ready && message@ == "cued already running on socket "@ + socket@,
        },
{
    if socket_ready {
        return Err(join2("cued already running on socket ", socket));
    }
    Ok(())
}

/// How a daemon is stopped by force.
#[derive(Clone, Copy, PartialEq, Eq, Structural, Debug)]
pub enum ForceStop {
    /// Nothing runs.
    Nothing,
    /// Ask the daemon that answers on the socket to stop.
    RequestShutdown,
    /// Signal the process of the PID file once it is shown to be the daemon.
    Terminate(u32),
}

/// How a daemon is stopped by force.
pub fn force_stop(state: PidFileState, socket_ready: bool) -> (stop: ForceStop)
    ensures
        stop == if socket_ready {
            ForceStop::RequestShutdown
        } else {
            match state {
                PidFileState::Running(pid) => ForceStop::Terminate(pid),
                _ => ForceStop::Nothing,
            }
        },
{
    if socket_ready {
        ForceStop::RequestShutdown
    } else {
        match state {
            PidFileState::Running(pid) => ForceStop::Terminate(pid),
            _ => ForceStop::Nothing,
        }
    }
}

/// The head of every refusal to signal a process.
pub open spec fn refusal_head(pid: u32, pid_path: Seq<char>) -> Seq<char> {
    "refusing --force: PID marker "@ + pid_path + " names live pid "@ + text::decimal(pid as nat)
        + ", but "@
}

fn refusal(pid: u32, pid_path: &str, why: &str) -> (message: String)
    ensures
        message@ == refusal_head(pid, pid_path@) + why@,
{
    let id = decimal_text(pid as u64);
    let mut message = join5(
        "refusing --force: PID marker ",
        pid_path,
        " names live pid ",
        id.as_str(),
        ", but ",
    );
    message.append(why);
    message
}

/// Refuses to signal a process of which nothing could be found out.
pub fn unconfirmed_refusal(pid: u32, pid_path: &str, socket: &str) -> (message: String)
    ensures
        message@ == refusal_head(pid, pid_path@) + ("socket "@ + socket@
            + " cannot be confirmed as cued"@),
{
    let why = join3("socket ", socket, " cannot be confirmed as cued");
    refusal(pid, pid_path, why.as_str())
}

/// Whether a live process that does not answer may be signalled: only one that runs this program
/// and holds the daemon's lock.
pub fn verify_unreachable_daemon(
    pid: u32,
    runs_this_program: bool,
    holds_lock: bool,
    pid_path: &str,
    lock_path: &str,
) -> (result: Result<(), String>)
    ensures
        match result {
            Ok(()) => runs_this_program && holds_lock,
            Err(message) => if !runs_this_program {
                message@ == refusal_head(pid, pid_path@)
                    + "that process is not this cued executable"@
            } else {
                !holds_lock && message@ == refusal_head(pid, pid_path@) + (
                "that process does not hold daemon lock "@ + lock_path@)
            },
        },
{
    if !runs_this_program {
        return Err(refusal(pid, pid_path, "that process is not this cued executable"));
    }
    if !holds_lock {
        let why = join2("that process does not hold daemon lock ", lock_path);
        return Err(refusal(pid, pid_path, why.as_str()));
    }
    Ok(())
}

/// A program's path without the mark that the system puts behind it once the file is gone.
pub open spec fn live_program_path(path: Seq<char>) -> Seq<char> {
    if " (deleted)"@.is_suffix_of(path) {
        path.take(path.len() - " (deleted)"@.len())
    } else {
        path
    }
}

/// A program's path without the mark that the system puts behind it once the file is gone.
pub fn normalize_proc_exe_path(path: &str) -> (result: &str)
    ensures
        result@ == live_program_path(path@),
{
    if ends_with(path, " (deleted)") {
        let length = chars_of(path).len();
        let mark = chars_of(" (deleted)").len();
        let result = path.substring_char(0, length - mark);
        assert(result@ =~= path@.take(path@.len() - " (deleted)"@.len()));
        result
    } else {
        path
    }
}

/// A line that tells of a write lock of the process: it begins with `lock:`, and its words hold
/// `WRITE` with the process id behind it.
pub open spec fn tells_write_lock(line: Seq<char>, pid: u32) -> bool {
    &&& "lock:"@.is_prefix_of(line)
    &&& exists|i: int|
        0 <= i && i + 1 < words::words(line).len() && #[trigger] words::words(line)[i]
            == "WRITE"@ && words::words(line)[i + 1] == text::decimal(pid as nat)
}

/// One of the lines from `i` on tells of a write lock of the process.
pub open spec fn some_line_tells_write_lock(s: Seq<char>, pid: u32, i: int) -> bool
    decreases s.len() + 1 - i,
{
    if i < 0 || i > s.len() {
        false
    } else {
        proof {
            text::lemma_line_end(s, i);
        }
        tells_write_lock(s.subrange(i, text::line_end(s, i)), pid) || some_line_tells_write_lock(
            s,
            pid,
            text::line_end(s, i) + 1,
        )
    }
}

fn line_tells_write_lock(line: &str, pid: u32) -> (result: bool)
    ensures
        result == tells_write_lock(line@, pid),
{
    if !starts_with(line, "lock:") {
        return false;
    }
    let id = decimal_text(pid as u64);
    let chars = chars_of(line);
    let spans = token_spans(&chars);
    proof {
        words::lemma_spans_in_range(line@, 0);
        assert(words::spans_view(spans@).len() == spans@.len());
    }
    let mut i: usize = 0;
    while i < spans.len()
        invariant
            "lock:"@.is_prefix_of(line@),
            words::words(line@).len() == spans@.len(),
            chars@ == line@,
            id@ == text::decimal(pid as nat),
            words::spans_view(spans@) == words::word_spans(line@),
            forall|k: int|
                0 <= k < spans@.len() ==> (#[trigger] spans@[k]).0 <= spans@[k].1 <= chars.len(),
            forall|j: int|
                0 <= j < i && j + 1 < words::words(line@).len() ==> !(
                #[trigger] words::words(line@)[j] == "WRITE"@ && words::words(line@)[j + 1]
                    == text::decimal(pid as nat)),
        decreases spans.len() - i,
    {
        if spans.len() - i >= 2 {
            let first = line.substring_char(spans[i].0, spans[i].1);
            let second = line.substring_char(spans[i + 1].0, spans[i + 1].1);
            assert(words::word_spans(line@)[i as int] == (
                spans@[i as int].0 as int,
                spans@[i as int].1 as int,
            ));
            assert(words::word_spans(line@)[i + 1] == (
                spans@[i + 1].0 as int,
                spans@[i + 1].1 as int,
            ));
            assert(words::words(line@)[i as int] == first@);
            assert(words::words(line@)[i + 1] == second@);
            if same(first, "WRITE") && same(second, id.as_str()) {
                return true;
            }
        }
        i = i + 1;
    }
    false
}

/// Whether the system's description of an open file tells of a write lock of the process.
pub fn fdinfo_tells_write_lock(fdinfo: &str, pid: u32) -> (result: bool)
    ensures
        result == some_line_tells_write_lock(fdinfo@, pid, 0),
{
    let chars = chars_of(fdinfo);
    let mut start: usize = 0;
    loop
        invariant
            chars@ == fdinfo@,
            start <= chars.len(),
            some_line_tells_write_lock(fdinfo@, pid, 0) == some_line_tells_write_lock(
                fdinfo@,
                pid,
                start as int,
            ),
        decreases chars.len() - start,
    {
        let mut end: usize = start;
        while end < chars.len() && chars[end] != '\n'
            invariant
                chars@ == fdinfo@,
                start <= end <= chars.len(),
                text::line_end(fdinfo@, start as int) == text::line_end(fdinfo@, end as int),
            decreases chars.len() - end,
        {
            end = end + 1;
        }
        if line_tells_write_lock(fdinfo.substring_char(start, end), pid) {
            return true;
        }
        if end >= chars.len() {
            assert(!some_line_tells_write_lock(fdinfo@, pid, end + 1));
            return false;
        }
        start = end + 1;
    }
}

/// Whether a PID file is that of the process, and may be removed by it.
pub fn owns_pid_file(content: &str, owner_pid: u32) -> (result: bool)
    ensures
        result == (named_pid(content@) == Some(owner_pid)),
{
    match marker_pid(content) {
        Some(pid) => pid == owner_pid,
        None => false,
    }
}

/// What is done in one round of a wait for the previous daemon.
#[derive(Clone, PartialEq, Eq, Debug)]
pub enum ReleaseStep {
    /// It is gone.
    Released,
    /// Look again later.
    Wait,
    GiveUp { message: String },
}

/// How often is looked for the end of the previous daemon.
pub const RELEASE_ATTEMPTS: u32 = 50;

/// Decides on round `attempt` (from zero) of a wait for the previous daemon: it is gone when its
/// socket does not answer and its lock can be taken.
pub fn wait_for_daemon_release(
    attempt: u32,
    responding: bool,
    lock_free: bool,
    socket: &str,
) -> (step: ReleaseStep)
    ensures
        if attempt >= RELEASE_ATTEMPTS {
            step matches ReleaseStep::GiveUp { message } && message@ == "confirmed cued daemon on "@
                + socket@ + " did not release its socket and lock within 5 s"@
        } else if !responding && lock_free {
            step == ReleaseStep::Released
        } else {
            step == ReleaseStep::Wait
        },
{
    if attempt >= RELEASE_ATTEMPTS {
        ReleaseStep::GiveUp {
            message: join3(
                "confirmed cued daemon on ",
                socket,
                " did not release its socket and lock within 5 s",
            ),
        }
    } else if !responding && lock_free {
        ReleaseStep::Released
    } else {
        ReleaseStep::Wait
    }
}

/// A PID file is missing exactly where there is no content, and malformed exactly where its content
/// is not the number of a process; otherwise it names that process, which runs or is dead as it is
/// alive or not.
pub proof fn pid_file_names_a_process(content: Option<&str>, alive: bool, state: PidFileState)
    requires
        call_ensures(inspect_pid_file_with, (content, alive), state),
    ensures
        state is Missing <==> content is None,
        state is Running ==> alive,
        state is Dead ==> !alive,
        content matches Some(file) ==> (state is Malformed <==> text::parsed_number(
            text::trimmed(file@),
            0xffff_ffff,
        ) is None),
        content matches Some(file) ==> (state matches PidFileState::Running(pid)
            ==> text::parsed_number(text::trimmed(file@), 0xffff_ffff) == Some(pid as nat)),
        content matches Some(file) ==> (state matches PidFileState::Dead(pid)
            ==> text::parsed_number(text::trimmed(file@), 0xffff_ffff) == Some(pid as nat)),
{
}

/// A process owns a PID file exactly where the file names it: the file of another process, and one that
/// names none, stay.
pub proof fn only_the_owner_removes_its_pid_file(
    content: &str,
    owner_pid: u32,
    owns: bool,
    pid: Option<u32>,
    state: PidFileState,
)
    requires
        call_ensures(owns_pid_file, (content, owner_pid), owns),
        call_ensures(marker_pid, (content,), pid),
        call_ensures(inspect_pid_file_with, (Some(content), true), state),
    ensures
        owns <==> pid == Some(owner_pid),
        owns <==> state == PidFileState::Running(owner_pid),
{
}

/// The status says that the daemon runs exactly where it can be reached, whatever the PID file says;
/// a process that lives without being reached is told of, and everything else is not running.
pub proof fn status_goes_by_the_socket(
    state: PidFileState,
    socket_ready: bool,
    socket: &str,
    message: String,
)
    requires
        call_ensures(daemon_status_message, (state, socket_ready, socket), message),
    ensures
        "cued is running ("@.is_prefix_of(message@) <==> socket_ready,
        "cued process is running (pid "@.is_prefix_of(message@) <==> !socket_ready && state
            is Running,
        "cued: stale PID file ("@.is_prefix_of(message@) <==> !socket_ready && (state is Dead
            || state is Malformed),
        message@ == "cued is not running"@ <==> !socket_ready && state is Missing,
{
    reveal_strlit("cued is running (");
    reveal_strlit("cued is running (pid ");
    reveal_strlit("cued is running (socket ");
    reveal_strlit("cued process is running (pid ");
    reveal_strlit("cued: stale PID file (");
    reveal_strlit("cued: stale PID file (pid ");
    reveal_strlit("cued: stale PID file (malformed)");
    reveal_strlit("cued is not running");
    let m = message@;
    assert("cued is running (pid "@.take(17) =~= "cued is running ("@);
    assert("cued is running (socket "@.take(17) =~= "cued is running ("@);
    assert("cued: stale PID file (pid "@.take(22) =~= "cued: stale PID file ("@);
    assert("cued: stale PID file (malformed)"@.take(22) =~= "cued: stale PID file ("@);
    if socket_ready {
        assert(m.take(17) =~= "cued is running ("@);
        assert(m[5] == 'i' && m[8] == 'r');
    } else if state is Running {
        assert(m.take(29) =~= "cued process is running (pid "@);
        assert(m[5] == 'p');
    } else if state is Dead || state is Malformed {
        assert(m.take(22) =~= "cued: stale PID file ("@);
        assert(m[4] == ':');
    } else {
        assert(m[8] == 'n');
    }
    lemma_prefix_char(m, "cued is running ("@, 5);
    lemma_prefix_char(m, "cued is running ("@, 8);
    lemma_prefix_char(m, "cued is running ("@, 4);
    lemma_prefix_char(m, "cued process is running (pid "@, 5);
    lemma_prefix_char(m, "cued process is running (pid "@, 4);
    lemma_prefix_char(m, "cued: stale PID file ("@, 4);
}

proof fn lemma_prefix_char(s: Seq<char>, prefix: Seq<char>, i: int)
    requires
        0 <= i < prefix.len(),
    ensures
        prefix.is_prefix_of(s) ==> i < s.len() && s[i] == prefix[i],
{
    if prefix.is_prefix_of(s) {
        assert(s.take(prefix.len() as int)[i] == prefix[i]);
    }
}

/// A daemon is started over stale marks only where nothing answers on the socket. A process that lives
/// is never taken for stale, and without a PID file there is nothing to clear away.
pub proof fn live_daemon_is_never_cleared_away(
    state: PidFileState,
    socket_ready: bool,
    pid_path: &str,
    socket: &str,
    reason: &str,
    marker: Result<bool, String>,
    left_over: Result<(), String>,
    silent: Result<(), String>,
)
    requires
        call_ensures(check_pid_marker, (state, socket_ready, pid_path, socket), marker),
        call_ensures(check_socket_marker, (socket_ready, socket), left_over),
        call_ensures(ensure_socket_not_live_with, (socket_ready, socket, reason), silent),
    ensures
        state is Running ==> marker is Err,
        state is Missing ==> marker == Ok::<bool, String>(false),
        state is Dead || state is Malformed ==> (marker is Err <==> socket_ready) && (marker is Ok
            ==> marker == Ok::<bool, String>(true)),
        left_over is Err <==> socket_ready,
        silent is Err <==> socket_ready,
{
}

/// A daemon that answers is asked to stop; a process is signalled only where none answers and it
/// lives, and then it is the one of the PID file.
pub proof fn only_a_silent_process_is_signalled(
    state: PidFileState,
    socket_ready: bool,
    stop: ForceStop,
)
    requires
        call_ensures(force_stop, (state, socket_ready), stop),
    ensures
        stop is RequestShutdown <==> socket_ready,
        stop is Terminate <==> !socket_ready && state is Running,
        stop matches ForceStop::Terminate(pid) ==> state == PidFileState::Running(pid),
{
}

/// A process is signalled only if it runs this program and holds the daemon's lock.
pub proof fn stranger_is_never_signalled(
    pid: u32,
    runs_this_program: bool,
    holds_lock: bool,
    pid_path: &str,
    lock_path: &str,
    result: Result<(), String>,
)
    requires
        call_ensures(
            verify_unreachable_daemon,
            (pid, runs_this_program, holds_lock, pid_path, lock_path),
            result,
        ),
    ensures
        result is Ok ==> runs_this_program,
        result is Ok ==> holds_lock,
        runs_this_program && holds_lock ==> result is Ok,
{
}

/// The mark of a program whose file is gone is taken off once, and a path without it stays.
pub proof fn mark_of_a_deleted_program_is_taken_off(
    path: &str,
    plain: Seq<char>,
    result: &str,
)
    requires
        call_ensures(normalize_proc_exe_path, (path,), result),
    ensures
        path@ == plain + " (deleted)"@ ==> result@ == plain,
        path@.len() > 0 && path@.last() != ')' ==> result@ == path@,
{
    reveal_strlit(" (deleted)");
    if path@ == plain + " (deleted)"@ {
        assert(path@.skip(path@.len() - 10) =~= " (deleted)"@);
        assert(path@.subrange(path@.len() - 10, path@.len() as int) =~= " (deleted)"@);
        assert(path@.take(plain.len() as int) =~= plain);
    }
    if path@.len() > 0 && path@.last() != ')' {
        if " (deleted)"@.is_suffix_of(path@) {
            assert(path@.subrange(path@.len() - 10, path@.len() as int)[9] == path@.last());
        }
    }
}

/// The previous daemon is gone exactly where its socket is silent and its lock is free, within fifty
/// rounds; a wait does not give up before and does not go on after.
pub proof fn release_needs_socket_and_lock(
    attempt: u32,
    responding: bool,
    lock_free: bool,
    socket: &str,
    step: ReleaseStep,
)
    requires
        call_ensures(wait_for_daemon_release, (attempt, responding, lock_free, socket), step),
    ensures
        step is GiveUp <==> attempt >= 50,
        step is Released <==> attempt < 50 && !responding && lock_free,
        step is Wait <==> attempt < 50 && (responding || !lock_free),
{
}

proof fn lemma_line_of(s: Seq<char>, i: int, n: int)
    requires
        0 <= i <= n <= s.len(),
        forall|k: int| i <= k < n ==> #[trigger] s[k] != '\n',
        n == s.len() || s[n] == '\n',
    ensures
        text::line_end(s, i) == n,
    decreases n - i,
{
    if i < n {
        lemma_line_of(s, i + 1, n);
    }
}

proof fn lemma_some_line(s: Seq<char>, pid: u32, i: int, start: int, end: int)
    requires
        0 <= i <= start <= end <= s.len(),
        start == i || s[start - 1] == '\n',
        forall|k: int| start <= k < end ==> #[trigger] s[k] != '\n',
        end == s.len() || s[end] == '\n',
        tells_write_lock(s.subrange(start, end), pid),
    ensures
        some_line_tells_write_lock(s, pid, i),
    decreases start - i,
{
    text::lemma_line_end(s, i);
    if start == i {
        lemma_line_of(s, i, end);
    } else {
        let e = text::line_end(s, i);
        assert(e < start) by {
            lemma_line_end_is_first(s, i, start - 1);
        }
        lemma_some_line(s, pid, e + 1, start, end);
    }
}

proof fn lemma_line_end_is_first(s: Seq<char>, i: int, at: int)
    requires
        0 <= i <= at < s.len(),
        s[at] == '\n',
    ensures
        text::line_end(s, i) <= at,
    decreases at - i,
{
    if i < at && s[i] != '\n' {
        lemma_line_end_is_first(s, i + 1, at);
    }
}

proof fn lemma_told_by_a_line(s: Seq<char>, pid: u32, i: int) -> (line: (int, int))
    requires
        some_line_tells_write_lock(s, pid, i),
    ensures
        0 <= line.0 <= line.1 <= s.len(),
        tells_write_lock(s.subrange(line.0, line.1), pid),
    decreases s.len() + 1 - i,
{
    text::lemma_line_end(s, i);
    if tells_write_lock(s.subrange(i, text::line_end(s, i)), pid) {
        (i, text::line_end(s, i))
    } else {
        lemma_told_by_a_line(s, pid, text::line_end(s, i) + 1)
    }
}

/// A write lock of the process is found in whichever line it stands: one that begins with `lock:` and
/// holds the word `WRITE` with the number of the process behind it. Without any of the two there is
/// none.
pub proof fn write_lock_is_found_in_any_line(
    fdinfo: &str,
    pid: u32,
    result: bool,
    before: Seq<char>,
    line: Seq<char>,
    after: Seq<char>,
    at: int,
)
    requires
        call_ensures(fdinfo_tells_write_lock, (fdinfo, pid), result),
        fdinfo@ == before + line + after,
        before.len() > 0 ==> before.last() == '\n',
        after.len() > 0 ==> after[0] == '\n',
        forall|k: int| 0 <= k < line.len() ==> #[trigger] line[k] != '\n',
    ensures
        "lock:"@.is_prefix_of(line) && 0 <= at < words::words(line).len() - 1 && words::words(
            line,
        )[at] == "WRITE"@ && words::words(line)[at + 1] == text::decimal(pid as nat) ==> result,
        result ==> text::holds(fdinfo@, "lock:"@),
        result ==> text::holds(fdinfo@, "WRITE"@),
        result ==> text::holds(fdinfo@, text::decimal(pid as nat)),
{
    let s = fdinfo@;
    let start = before.len() as int;
    let end = start + line.len();
    assert(s.subrange(start, end) =~= line);
    assert forall|k: int| start <= k < end implies #[trigger] s[k] != '\n' by {
        assert(s[k] == line[k - start]);
    }
    if tells_write_lock(line, pid) {
        lemma_some_line(s, pid, 0, start, end);
    }
    if result {
        let (from, to) = lemma_told_by_a_line(s, pid, 0);
        let told = s.subrange(from, to);
        reveal_strlit("lock:");
        assert(s.subrange(from, from + 5) =~= told.take(5));
        assert(text::occurs_at(s, "lock:"@, from));
        let i = choose|i: int|
            0 <= i && i + 1 < words::words(told).len() && #[trigger] words::words(told)[i]
                == "WRITE"@ && words::words(told)[i + 1] == text::decimal(pid as nat);
        lemma_word_is_held(s, from, to, i);
        lemma_word_is_held(s, from, to, i + 1);
    }
}

proof fn lemma_word_is_held(s: Seq<char>, from: int, to: int, i: int)
    requires
        0 <= from <= to <= s.len(),
        0 <= i < words::words(s.subrange(from, to)).len(),
    ensures
        text::holds(s, words::words(s.subrange(from, to))[i]),
{
    let part = s.subrange(from, to);
    let word = words::words(part)[i];
    words::lemma_spans_in_range(part, 0);
    let span = words::word_spans(part)[i];
    assert(0 <= span.0 <= span.1 <= part.len());
    assert(word == part.subrange(span.0, span.1));
    assert(s.subrange(from + span.0, from + span.0 + word.len()) =~= word);
    assert(text::occurs_at(s, word, from + span.0));
}

} // verus!
