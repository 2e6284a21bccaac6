//! The daemon's command line. An argument is its bytes.
use crate::bytes;
use crate::bytes::push_blob;
use crate::dirs::{lock_path_for_socket, pid_path_for_socket, with_suffix};
use crate::lifecycle::RestartRecord;
use crate::text;
use crate::text::{as_utf8, blank, chars_of, decimal_text, has_padding, join2, same, starts_with};
use vstd::prelude::*;

verus! {

/// The text of an argument, if it is UTF-8.
pub open spec fn arg_text(arg: Seq<u8>) -> Option<Seq<char>> {
    text::decoded(arg)
}

/// A subcommand, or a flag that stands for itself.
pub open spec fn is_command(arg: Seq<u8>) -> bool {
    ||| arg_text(arg) == Some("start"@)
    ||| arg_text(arg) == Some("stop"@)
    ||| arg_text(arg) == Some("status"@)
    ||| arg_text(arg) == Some("gateway"@)
    ||| arg_text(arg) == Some("install"@)
    ||| arg_text(arg) == Some("uninstall"@)
    ||| arg_text(arg) == Some("upgrade"@)
    ||| arg_text(arg) == Some("-h"@)
    ||| arg_text(arg) == Some("restart"@)
    ||| arg_text(arg) == Some("__restart-successor"@)
    ||| arg_text(arg) == Some("--help"@)
    ||| arg_text(arg) == Some("-V"@)
    ||| arg_text(arg) == Some("--version"@)
}

/// A flag of `start`.
pub open spec fn is_start_flag(arg: Seq<u8>) -> bool {
    ||| arg_text(arg) == Some("-f"@)
    ||| arg_text(arg) == Some("--fg"@)
    ||| arg_text(arg) == Some("-F"@)
    ||| arg_text(arg) == Some("--force"@)
    ||| arg_text(arg) matches Some(s) && "--socket="@.is_prefix_of(s)
}

/// From `i` on there is nothing but what `start` takes: flags, and `--socket` with a path, which
/// may be anything.
pub open spec fn only_start_args(args: Seq<Seq<u8>>, i: int) -> bool
    decreases args.len() - i,
{
    if i >= args.len() {
        true
    } else if i < 0 {
        false
    } else if is_start_flag(args[i]) {
        only_start_args(args, i + 1)
    } else if arg_text(args[i]) == Some("--socket"@) {
        i + 1 < args.len() && only_start_args(args, i + 2)
    } else {
        false
    }
}

/// The arguments leave `start` out.
pub open spec fn leaves_start_out(args: Seq<Seq<u8>>) -> bool {
    args.len() > 0 && !is_command(args[0]) && only_start_args(args, 0)
}

/// The arguments with `start` put in front where it was left out.
pub open spec fn normalized(args: Seq<Seq<u8>>) -> Seq<Seq<u8>> {
    if leaves_start_out(args) {
        args.insert(0, text::utf8("start"@))
    } else {
        args
    }
}

fn command_arg(arg: &Vec<u8>) -> (result: bool)
    ensures
        result == is_command(arg@),
{
    match as_utf8(arg.as_slice()) {
        Some(s) => same(s, "start") || same(s, "stop") || same(s, "status") || same(s, "gateway")
            || same(s, "install") || same(s, "uninstall") || same(s, "upgrade") || same(s, "-h")
            || same(s, "restart") || same(s, "__restart-successor") || same(s, "--help") || same(
            s,
            "-V",
        ) || same(s, "--version"),
        None => false,
    }
}

fn implicit_start_args_only(args: &Vec<Vec<u8>>) -> (result: bool)
    ensures
        result == only_start_args(bytes::blobs(args@), 0),
{
    let ghost views = bytes::blobs(args@);
    let mut i: usize = 0;
    while i < args.len()
        invariant
            views == bytes::blobs(args@),
            i <= args.len(),
            only_start_args(views, 0) == only_start_args(views, i as int),
        decreases args.len() - i,
    {
        assert(views[i as int] == args@[i as int]@);
        let arg = match as_utf8(args[i].as_slice()) {
            Some(arg) => arg,
            None => return false,
        };
        if same(arg, "-f") || same(arg, "--fg") || same(arg, "-F") || same(arg, "--force")
            || starts_with(arg, "--socket=") {
            i = i + 1;
        } else if same(arg, "--socket") {
            if args.len() - i < 2 {
                return false;
            }
            i = i + 2;
        } else {
            return false;
        }
    }
    true
}

/// Whether the arguments leave `start` out.
pub fn should_insert_start(args: &Vec<Vec<u8>>) -> (result: bool)
    ensures
        result == leaves_start_out(bytes::blobs(args@)),
{
    if args.len() == 0 {
        return false;
    }
    assert(bytes::blobs(args@)[0] == args@[0]@);
    !command_arg(&args[0]) && implicit_start_args_only(args)
}

fn bytes_of(s: &str) -> (bytes: Vec<u8>)
    ensures
        bytes@ == text::utf8(s@),
{
    let none: Vec<u8> = Vec::new();
    let bytes = with_suffix(&none, s);
    assert(bytes@ =~= text::utf8(s@));
    bytes
}

/// Puts `start` in front of arguments that leave it out.
pub fn normalize_cli_args_vec(args: Vec<Vec<u8>>) -> (result: Vec<Vec<u8>>)
    ensures
        bytes::blobs(result@) == normalized(bytes::blobs(args@)),
{
    let mut args = args;
    if should_insert_start(&args) {
        let ghost before = bytes::blobs(args@);
        let start = bytes_of("start");
        args.insert(0, start);
        assert(bytes::blobs(args@) =~= before.insert(0, text::utf8("start"@)));
    }
    args
}

/// Arguments that were normalized stay as they are.
pub proof fn normalized_args_stay(args: Seq<Seq<u8>>)
    ensures
        normalized(normalized(args)) == normalized(args),
        args.len() > 0 && is_command(args[0]) ==> normalized(args) == args,
{
    text::lemma_decoded("start"@);
    if leaves_start_out(args) {
        assert(normalized(args)[0] == text::utf8("start"@));
    }
}

/// Why a socket path is refused.
pub open spec fn socket_path_fault(field: Seq<char>, path: Seq<u8>) -> Option<Seq<char>> {
    match text::decoded(path) {
        None => Some(field + " must be valid UTF-8"@),
        Some(s) => if text::is_blank(s) {
            Some(field + " must not be empty"@)
        } else if text::is_padded(s) {
            Some(field + " must not have leading or trailing whitespace"@)
        } else {
            None
        },
    }
}

/// Checks a socket path.
pub fn validate_daemon_socket_path(field: &str, path: &Vec<u8>) -> (result: Result<(), String>)
    ensures
        match result {
            Ok(()) => socket_path_fault(field@, path@) is None,
            Err(message) => socket_path_fault(field@, path@) == Some(message@),
        },
{
    match as_utf8(path.as_slice()) {
        None => Err(join2(field, " must be valid UTF-8")),
        Some(s) => {
            if blank(s) {
                Err(join2(field, " must not be empty"))
            } else if has_padding(s) {
                Err(join2(field, " must not have leading or trailing whitespace"))
            } else {
                Ok(())
            }
        },
    }
}

/// The socket of the daemon: the one that was asked for, or the default.
pub fn daemon_socket_path(socket_override: Option<Vec<u8>>, default: Vec<u8>) -> (result: Result<
    Vec<u8>,
    String,
>)
    ensures
        match socket_override {
            Some(path) => match result {
                Ok(socket) => socket_path_fault("--socket"@, path@) is None && socket == path,
                Err(message) => socket_path_fault("--socket"@, path@) == Some(message@),
            },
            None => result == Ok::<Vec<u8>, String>(default),
        },
{
    match socket_override {
        Some(path) => match validate_daemon_socket_path("--socket", &path) {
            Ok(()) => Ok(path),
            Err(message) => Err(message),
        },
        None => Ok(default),
    }
}

/// The socket of a daemon with the markers that belong to it.
#[derive(Clone, PartialEq, Eq, Debug)]
pub struct DaemonRuntimePaths {
    pub socket: Vec<u8>,
    pub pid: Vec<u8>,
    pub lock: Vec<u8>,
}

/// The socket of the daemon with the markers that belong to it.
pub fn daemon_runtime_paths(socket_override: Option<Vec<u8>>, default: Vec<u8>) -> (result: Result<
    DaemonRuntimePaths,
    String,
>)
    ensures
        match result {
            Ok(paths) => {
                &&& match socket_override {
                    Some(path) => socket_path_fault("--socket"@, path@) is None && paths.socket
                        == path,
                    None => paths.socket == default,
                }
                &&& paths.pid@ == paths.socket@ + text::utf8(".cued.pid"@)
                &&& paths.lock@ == paths.socket@ + text::utf8(".cued.lock"@)
            },
            Err(message) => socket_override matches Some(path) && socket_path_fault(
                "--socket"@,
                path@,
            ) == Some(message@),
        },
{
    match daemon_socket_path(socket_override, default) {
        Ok(socket) => {
            let pid = pid_path_for_socket(&socket);
            let lock = lock_path_for_socket(&socket);
            Ok(DaemonRuntimePaths { socket, pid, lock })
        },
        Err(message) => Err(message),
    }
}

/// The arguments of a daemon that is started in the background.
pub open spec fn background_args(preserve_restart_fence: bool, socket: Option<Seq<u8>>) -> Seq<
    Seq<u8>,
> {
    let base = seq![text::utf8("start"@), text::utf8("--fg"@)];
    let fenced = if preserve_restart_fence {
        base.push(text::utf8("--preserve-restart-fence"@))
    } else {
        base
    };
    match socket {
        Some(path) => fenced.push(text::utf8("--socket"@)).push(path),
        None => fenced,
    }
}

/// The arguments of a daemon that is started in the background.
pub fn background_start_args(preserve_restart_fence: bool, socket: Option<Vec<u8>>) -> (args: Vec<
    Vec<u8>,
>)
    ensures
        bytes::blobs(args@) == background_args(
            preserve_restart_fence,
            match socket {
                Some(path) => Some(path@),
                None => None,
            },
        ),
{
    let mut args: Vec<Vec<u8>> = Vec::new();
    push_blob(&mut args, bytes_of("start"));
    push_blob(&mut args, bytes_of("--fg"));
    assert(bytes::blobs(args@) =~= seq![text::utf8("start"@), text::utf8("--fg"@)]);
    if preserve_restart_fence {
        push_blob(&mut args, bytes_of("--preserve-restart-fence"));
    }
    if let Some(path) = socket {
        push_blob(&mut args, bytes_of("--socket"));
        push_blob(&mut args, path);
    }
    args
}

/// The arguments of the helper that waits for a restart's successor.
pub open spec fn helper_args(socket: Seq<u8>, record: RestartRecord, handoff_fd: u32) -> Seq<
    Seq<u8>,
> {
    seq![
        text::utf8("__restart-successor"@),
        text::utf8("--socket"@),
        socket,
        text::utf8("--restart-id"@),
        text::utf8(record.restart_id@),
        text::utf8("--predecessor-instance-id"@),
        text::utf8(record.daemon_instance_id@),
        text::utf8("--target-generation"@),
        text::utf8(record.target_generation@),
        text::utf8("--protocol-version"@),
        text::utf8(text::decimal(record.protocol_version as nat)),
        text::utf8("--handoff-fd"@),
        text::utf8(text::decimal(handoff_fd as nat)),
    ]
}

/// The arguments of the helper that waits for a restart's successor. It gets the descriptor of its
/// end of the handoff channel.
pub fn restart_successor_args(socket: Vec<u8>, record: &RestartRecord, handoff_fd: u32) -> (args:
    Vec<Vec<u8>>)
    ensures
        bytes::blobs(args@) == helper_args(socket@, *record, handoff_fd),
{
    let ghost path = socket@;
    let mut args: Vec<Vec<u8>> = Vec::new();
    push_blob(&mut args, bytes_of("__restart-successor"));
    push_blob(&mut args, bytes_of("--socket"));
    push_blob(&mut args, socket);
    push_blob(&mut args, bytes_of("--restart-id"));
    push_blob(&mut args, bytes_of(record.restart_id.as_str()));
    push_blob(&mut args, bytes_of("--predecessor-instance-id"));
    push_blob(&mut args, bytes_of(record.daemon_instance_id.as_str()));
    push_blob(&mut args, bytes_of("--target-generation"));
    push_blob(&mut args, bytes_of(record.target_generation.as_str()));
    push_blob(&mut args, bytes_of("--protocol-version"));
    let version = decimal_text(record.protocol_version as u64);
    push_blob(&mut args, bytes_of(version.as_str()));
    push_blob(&mut args, bytes_of("--handoff-fd"));
    let fd = decimal_text(handoff_fd as u64);
    push_blob(&mut args, bytes_of(fd.as_str()));
    assert(bytes::blobs(args@) =~= helper_args(path, *record, handoff_fd));
    args
}

/// The variable that selects what is logged.
pub const RUST_LOG_ENV: &'static str = "RUST_LOG";

/// A directive that selects what is logged can be read.
pub uninterp spec fn accepts_directive(directive: Seq<char>) -> bool;

/// Where the piece that begins at `i` ends: at a comma or at the end.
pub open spec fn piece_end(s: Seq<char>, i: int) -> int
    decreases s.len() - i,
{
    if 0 <= i < s.len() && s[i] != ',' {
        piece_end(s, i + 1)
    } else {
        i
    }
}

/// A piece of a directive that can be cut at its signs: it does not begin with white space, or is
/// ASCII, or has no sign at which it is cut.
pub open spec fn is_divisible(piece: Seq<char>) -> bool {
    ||| piece.len() == 0
    ||| !text::is_space(piece[0])
    ||| forall|i: int| 0 <= i < piece.len() ==> (#[trigger] piece[i]) as u32 <= 0x7f
    ||| forall|i: int| 0 <= i < piece.len() ==> #[trigger] piece[i] != '=' && piece[i] != '['
}

/// Every piece from `i` on can be cut at its signs.
pub open spec fn is_divisible_from(s: Seq<char>, i: int) -> bool
    decreases s.len() + 1 - i,
{
    if i < 0 || i > s.len() {
        true
    } else {
        proof {
            lemma_piece_end(s, i);
        }
        is_divisible(s.subrange(i, piece_end(s, i))) && is_divisible_from(s, piece_end(s, i) + 1)
    }
}

/// Every piece of a directive between commas can be cut at its signs.
pub open spec fn is_parsable(directive: Seq<char>) -> bool {
    is_divisible_from(directive, 0)
}

pub proof fn lemma_piece_end(s: Seq<char>, i: int)
    requires
        0 <= i <= s.len(),
    ensures
        i <= piece_end(s, i) <= s.len(),
    decreases s.len() - i,
{
    if i < s.len() && s[i] != ',' {
        lemma_piece_end(s, i + 1);
    }
}

/// Whether every piece of a directive between commas can be cut at its signs. The parser of
/// directives panics on some of those for which this does not hold.
pub fn directive_is_parsable(directive: &str) -> (result: bool)
    ensures
        result == is_parsable(directive@),
{
    let chars = chars_of(directive);
    let mut start: usize = 0;
    loop
        invariant
            chars@ == directive@,
            start <= chars.len(),
            is_parsable(directive@) == is_divisible_from(directive@, start as int),
        decreases chars.len() - start,
    {
        let mut end: usize = start;
        let mut ascii = true;
        let mut whole = true;
        while end < chars.len() && chars[end] != ','
            invariant
                chars@ == directive@,
                start <= end <= chars.len(),
                piece_end(directive@, start as int) == piece_end(directive@, end as int),
                ascii == forall|k: int|
                    start <= k < end ==> (#[trigger] directive@[k]) as u32 <= 0x7f,
                whole == forall|k: int|
                    start <= k < end ==> #[trigger] directive@[k] != '=' && directive@[k] != '[',
            decreases chars.len() - end,
        {
            let c = chars[end];
            assert(directive@[end as int] == c);
            ascii = ascii && c as u32 <= 0x7f;
            whole = whole && c != '=' && c != '[';
            end = end + 1;
        }
        let ghost piece = directive@.subrange(start as int, end as int);
        proof {
            assert forall|k: int| 0 <= k < piece.len() implies #[trigger] piece[k]
                == directive@[start + k] by {}
            if forall|i: int| 0 <= i < piece.len() ==> (#[trigger] piece[i]) as u32 <= 0x7f {
                assert forall|k: int| start <= k < end implies (
                #[trigger] directive@[k]) as u32 <= 0x7f by {
                    assert(piece[k - start] == directive@[k]);
                }
            }
            if forall|i: int|
                0 <= i < piece.len() ==> #[trigger] piece[i] != '=' && piece[i] != '[' {
                assert forall|k: int| start <= k < end implies #[trigger] directive@[k] != '='
                    && directive@[k] != '[' by {
                    assert(piece[k - start] == directive@[k]);
                }
            }
        }
        if start < end && text::is_whitespace(chars[start]) && !ascii && !whole {
            return false;
        }
        assert(is_divisible(piece));
        if end >= chars.len() {
            assert(is_divisible_from(directive@, end + 1));
            return true;
        }
        start = end + 1;
    }
}

/// Whether a directive that selects what is logged can be read.
///
/// Calls `tracing_subscriber::EnvFilter::try_new` and tells whether it gave a filter. That depends
/// on the directive alone; which directives are read is not stated. The function cuts each piece of
/// the directive at places that it has counted without the white space in front of the piece. Such a
/// place may lie inside a character, which makes it panic. It does not where the piece does not
/// begin with white space, is ASCII, or has no sign at which it is cut.
#[verifier::external_body]
fn directive_is_valid(directive: &str) -> (result: bool)
    requires
        is_parsable(directive@),
    ensures
        result == accepts_directive(directive@),
{
    tracing_subscriber::EnvFilter::try_new(directive).is_ok()
}

/// What selects what is logged, before it is read: the variable's value, or else the default.
pub open spec fn chosen_directive(default_directive: Seq<char>, rust_log: Option<Seq<u8>>)
    -> Result<Seq<char>, Seq<char>> {
    match rust_log {
        None => Ok(default_directive),
        Some(value) => if value.len() == 0 {
            Err(RUST_LOG_ENV@ + " must not be empty"@)
        } else {
            match text::decoded(value) {
                None => Err(RUST_LOG_ENV@ + " must be valid UTF-8"@),
                Some(directive) => Ok(directive),
            }
        },
    }
}

/// Why a directive cannot be used.
pub open spec fn directive_fault(directive: Seq<char>, from_env: bool) -> Seq<char> {
    if from_env {
        "parse "@ + RUST_LOG_ENV@ + " `"@ + directive + "`"@
    } else {
        "parse default tracing directive `"@ + directive + "`"@
    }
}

/// What becomes of a directive once it is known whether it can be read.
pub fn checked_directive(directive: &str, from_env: bool, valid: bool) -> (result: Result<
    String,
    String,
>)
    ensures
        match result {
            Ok(checked) => valid && checked@ == directive@,
            Err(message) => !valid && message@ == directive_fault(directive@, from_env),
        },
{
    if valid {
        return Ok(directive.to_owned());
    }
    if from_env {
        Err(text::join5("parse ", RUST_LOG_ENV, " `", directive, "`"))
    } else {
        Err(text::join3("parse default tracing directive `", directive, "`"))
    }
}

/// Whether the directive that is chosen is one that the parser can cut, or none is chosen.
pub fn chosen_directive_is_parsable(default_directive: &str, rust_log: &Option<Vec<u8>>) -> (result:
    bool)
    ensures
        result == (chosen_directive(default_directive@, bytes::optional_blob(*rust_log)) matches Ok(
            directive,
        ) ==> is_parsable(directive)),
{
    match rust_log {
        None => directive_is_parsable(default_directive),
        Some(value) => {
            if value.len() == 0 {
                return true;
            }
            match as_utf8(value.as_slice()) {
                None => true,
                Some(directive) => directive_is_parsable(directive),
            }
        },
    }
}

/// The directive that selects what is logged. A value of the variable that cannot be used is an
/// error: it does not make way for the default.
///
/// The directive that is chosen has to be one that the parser can cut.
pub fn env_filter_from_env(default_directive: &str, rust_log: Option<Vec<u8>>) -> (result: Result<
    String,
    String,
>)
    requires
        chosen_directive(default_directive@, bytes::optional_blob(rust_log)) matches Ok(directive)
            ==> is_parsable(directive),
    ensures
        match chosen_directive(default_directive@, bytes::optional_blob(rust_log)) {
            Ok(directive) => match result {
                Ok(checked) => accepts_directive(directive) && checked@ == directive,
                Err(message) => !accepts_directive(directive) && message@ == directive_fault(
                    directive,
                    rust_log is Some,
                ),
            },
            Err(fault) => result matches Err(message) && message@ == fault,
        },
{
    match rust_log {
        None => checked_directive(
            default_directive,
            false,
            directive_is_valid(default_directive),
        ),
        Some(value) => {
            if value.len() == 0 {
                return Err(join2(RUST_LOG_ENV, " must not be empty"));
            }
            match as_utf8(value.as_slice()) {
                None => Err(join2(RUST_LOG_ENV, " must be valid UTF-8")),
                Some(directive) => checked_directive(
                    directive,
                    true,
                    directive_is_valid(directive),
                ),
            }
        },
    }
}

/// The words that the command line knows are taken as written, whatever stands behind them: `start`, for
/// one, is never put in front of another command.
pub proof fn commands_are_taken_as_written(
    args: Vec<Vec<u8>>,
    result: Vec<Vec<u8>>,
    command: Seq<char>,
)
    requires
        call_ensures(normalize_cli_args_vec, (args,), result),
        args@.len() > 0,
        args@[0]@ == text::utf8(command),
        command == "start"@ || command == "stop"@ || command == "status"@ || command == "restart"@
            || command == "gateway"@ || command == "install"@ || command == "uninstall"@ || command
            == "upgrade"@ || command == "__restart-successor"@ || command == "-h"@ || command
            == "--help"@ || command == "-V"@ || command == "--version"@,
    ensures
        bytes::blobs(result@) == bytes::blobs(args@),
{
    text::lemma_decoded(command);
    assert(bytes::blobs(args@)[0] == args@[0]@);
}

proof fn lemma_flags_only(args: Seq<Seq<u8>>, i: int)
    requires
        0 <= i <= args.len(),
        forall|k: int| i <= k < args.len() ==> is_start_flag(#[trigger] args[k]),
    ensures
        only_start_args(args, i),
    decreases args.len() - i,
{
    if i < args.len() {
        assert(is_start_flag(args[i]));
        lemma_flags_only(args, i + 1);
    }
}

proof fn lemma_flags_are_no_commands()
    ensures
        "-f"@ != "-h"@ && "-f"@ != "-V"@ && "-F"@ != "-h"@ && "-F"@ != "-V"@,
        "-f"@.len() == 2 && "-F"@.len() == 2 && "--fg"@.len() == 4 && "--force"@.len() == 7
            && "--socket"@.len() == 8 && "--socket="@.len() == 9 && "-h"@.len() == 2 && "-V"@.len()
            == 2 && "--help"@.len() == 6 && "--version"@.len() == 9,
        "--force"@[0] == '-' && "--fg"@[0] == '-' && "--socket"@[0] == '-' && "-f"@[0] == '-'
            && "-F"@[0] == '-' && "--socket="@[0] == '-' && "--socket="@[2] == 's',
        "--version"@[2] == 'v',
        "start"@[0] == 's' && "stop"@[0] == 's' && "status"@[0] == 's' && "gateway"@[0] == 'g'
            && "install"@[0] == 'i' && "uninstall"@[0] == 'u' && "upgrade"@[0] == 'u'
            && "restart"@[0] == 'r' && "__restart-successor"@[0] == '_',
{
    reveal_strlit("-f");
    reveal_strlit("-F");
    reveal_strlit("-h");
    reveal_strlit("-V");
    reveal_strlit("--fg");
    reveal_strlit("--force");
    reveal_strlit("--socket");
    reveal_strlit("--socket=");
    reveal_strlit("--help");
    reveal_strlit("--version");
    reveal_strlit("start");
    reveal_strlit("stop");
    reveal_strlit("status");
    reveal_strlit("gateway");
    reveal_strlit("install");
    reveal_strlit("uninstall");
    reveal_strlit("upgrade");
    reveal_strlit("restart");
    reveal_strlit("__restart-successor");
    assert("-f"@[1] == 'f');
    assert("-F"@[1] == 'F');
    assert("-h"@[1] == 'h');
    assert("-V"@[1] == 'V');
}

/// Flags of `start` alone mean `start`: it is put in front of them, and they stay.
pub proof fn flags_alone_mean_start(
    args: Vec<Vec<u8>>,
    result: Vec<Vec<u8>>,
    texts: Seq<Seq<char>>,
)
    requires
        call_ensures(normalize_cli_args_vec, (args,), result),
        args@.len() > 0,
        texts.len() == args@.len(),
        forall|i: int|
            0 <= i < texts.len() ==> (#[trigger] args@[i])@ == text::utf8(texts[i]) && (texts[i]
                == "-f"@ || texts[i] == "--fg"@ || texts[i] == "-F"@ || texts[i] == "--force"@
                || "--socket="@.is_prefix_of(texts[i])),
    ensures
        bytes::blobs(result@) == seq![text::utf8("start"@)] + bytes::blobs(args@),
{
    let views = bytes::blobs(args@);
    assert forall|i: int| 0 <= i < views.len() implies is_start_flag(#[trigger] views[i]) by {
        assert(views[i] == args@[i]@);
        text::lemma_decoded(texts[i]);
    }
    lemma_flags_only(views, 0);
    assert(views[0] == args@[0]@);
    text::lemma_decoded(texts[0]);
    lemma_flags_are_no_commands();
    let first = texts[0];
    if "--socket="@.is_prefix_of(first) {
        assert(first[0] == "--socket="@[0]);
        assert(first[2] == "--socket="@[2]);
    }
    assert(!is_command(views[0]));
    assert(views.insert(0, text::utf8("start"@)) =~= seq![text::utf8("start"@)] + views);
}

/// `--socket` takes the argument behind it, whatever that is, and means `start` with it. Without one
/// nothing is put in front.
pub proof fn socket_takes_what_follows(args: Vec<Vec<u8>>, result: Vec<Vec<u8>>)
    requires
        call_ensures(normalize_cli_args_vec, (args,), result),
        args@.len() > 0,
        args@[0]@ == text::utf8("--socket"@),
    ensures
        args@.len() == 1 ==> bytes::blobs(result@) == bytes::blobs(args@),
        args@.len() == 2 ==> bytes::blobs(result@) == seq![
            text::utf8("start"@),
            args@[0]@,
            args@[1]@,
        ],
{
    let views = bytes::blobs(args@);
    text::lemma_decoded("--socket"@);
    lemma_flags_are_no_commands();
    assert(views[0] == args@[0]@);
    assert(!is_command(views[0]));
    assert(!is_start_flag(views[0])) by {
        if "--socket="@.is_prefix_of("--socket"@) {
            assert("--socket="@.len() <= "--socket"@.len());
        }
    }
    if args@.len() == 2 {
        assert(views[1] == args@[1]@);
        assert(only_start_args(views, 2));
        assert(only_start_args(views, 0));
        assert(views.insert(0, text::utf8("start"@)) =~= seq![
            text::utf8("start"@),
            args@[0]@,
            args@[1]@,
        ]);
    }
}

/// Arguments that begin with anything else stay as they are, as do none.
pub proof fn other_arguments_stay(args: Vec<Vec<u8>>, result: Vec<Vec<u8>>, first: Seq<char>)
    requires
        call_ensures(normalize_cli_args_vec, (args,), result),
        args@.len() > 0 ==> args@[0]@ == text::utf8(first) && first != "-f"@ && first != "--fg"@
            && first != "-F"@ && first != "--force"@ && first != "--socket"@
            && !"--socket="@.is_prefix_of(first),
    ensures
        bytes::blobs(result@) == bytes::blobs(args@),
{
    if args@.len() > 0 {
        text::lemma_decoded(first);
        assert(bytes::blobs(args@)[0] == args@[0]@);
        assert(!only_start_args(bytes::blobs(args@), 0));
    }
}

/// A socket path is accepted exactly where it is text that begins and ends with something else than
/// white space.
pub proof fn socket_path_has_no_white_space_around(
    field: &str,
    path: &Vec<u8>,
    result: Result<(), String>,
    written: Seq<char>,
)
    requires
        call_ensures(validate_daemon_socket_path, (field, path), result),
    ensures
        result is Ok ==> text::decoded(path@) is Some,
        path@ == text::utf8(written) ==> (result is Ok <==> written.len() > 0 && !text::is_space(
            written[0],
        ) && !text::is_space(written.last())),
        result matches Err(message) ==> field@.is_prefix_of(message@),
{
    text::lemma_decoded(written);
    if path@ == text::utf8(written) {
        if written.len() > 0 && !text::is_space(written[0]) {
            assert(!text::is_blank(written));
        }
        if text::is_blank(written) && written.len() > 0 {
            assert(text::is_space(written[0]));
        }
    }
    if let Err(message) = result {
        assert(message@.take(field@.len() as int) =~= field@);
    }
}

/// The socket that was asked for is used, or nothing is; only without one the default is. Its markers
/// stand beside it, each under a name of its own.
pub proof fn asked_socket_is_used(
    socket_override: Option<Vec<u8>>,
    default: Vec<u8>,
    socket: Result<Vec<u8>, String>,
    paths: Result<DaemonRuntimePaths, String>,
)
    requires
        call_ensures(daemon_socket_path, (socket_override, default), socket),
        call_ensures(daemon_runtime_paths, (socket_override, default), paths),
    ensures
        socket_override is None ==> socket == Ok::<Vec<u8>, String>(default),
        socket_override matches Some(path) ==> (socket is Ok ==> socket == Ok::<Vec<u8>, String>(
            path,
        )),
        socket is Ok <==> paths is Ok,
        paths matches Ok(paths) ==> socket == Ok::<Vec<u8>, String>(paths.socket),
        paths matches Ok(paths) ==> paths.pid@ == paths.socket@ + text::utf8(".cued.pid"@)
            && paths.lock@ == paths.socket@ + text::utf8(".cued.lock"@),
{
}

/// A daemon in the background is started in the foreground of its process. It is told to keep the
/// restart's mark exactly where it has to, and of the socket exactly where there is one, in the two
/// last arguments.
pub proof fn background_start_is_told_everything(
    preserve_restart_fence: bool,
    socket: Option<Vec<u8>>,
    args: Vec<Vec<u8>>,
)
    requires
        call_ensures(background_start_args, (preserve_restart_fence, socket), args),
    ensures
        ({
            let views = bytes::blobs(args@);
            &&& views.len() == 2 + if preserve_restart_fence {
                1int
            } else {
                0int
            } + if socket is Some {
                2int
            } else {
                0int
            }
            &&& views[0] == text::utf8("start"@)
            &&& views[1] == text::utf8("--fg"@)
            &&& preserve_restart_fence ==> views[2] == text::utf8("--preserve-restart-fence"@)
            &&& socket matches Some(path) ==> views[views.len() - 2] == text::utf8("--socket"@)
                && views[views.len() - 1] == path@
        }),
{
}

/// The helper of a restart is told the socket, the restart, the daemon that leaves, the generation that
/// comes, the protocol and its descriptor, each behind the flag of its name.
pub proof fn helper_is_told_everything(
    socket: Vec<u8>,
    record: &RestartRecord,
    handoff_fd: u32,
    args: Vec<Vec<u8>>,
)
    requires
        call_ensures(restart_successor_args, (socket, record, handoff_fd), args),
    ensures
        ({
            let views = bytes::blobs(args@);
            &&& views.len() == 13
            &&& views[0] == text::utf8("__restart-successor"@)
            &&& views[1] == text::utf8("--socket"@) && views[2] == socket@
            &&& views[3] == text::utf8("--restart-id"@) && views[4] == text::utf8(
                record.restart_id@,
            )
            &&& views[5] == text::utf8("--predecessor-instance-id"@) && views[6] == text::utf8(
                record.daemon_instance_id@,
            )
            &&& views[7] == text::utf8("--target-generation"@) && views[8] == text::utf8(
                record.target_generation@,
            )
            &&& views[9] == text::utf8("--protocol-version"@) && views[10] == text::utf8(
                text::decimal(record.protocol_version as nat),
            )
            &&& views[11] == text::utf8("--handoff-fd"@) && views[12] == text::utf8(
                text::decimal(handoff_fd as nat),
            )
        }),
{
}

/// The variable decides on what is logged wherever it is set. A value that cannot be used is an error
/// and never makes way for the default, which counts only without the variable.
pub proof fn log_variable_comes_before_the_default(
    default_directive: &str,
    other_default: &str,
    rust_log: Option<Vec<u8>>,
    result: Result<String, String>,
    other: Result<String, String>,
    written: Seq<char>,
)
    requires
        call_ensures(env_filter_from_env, (default_directive, rust_log), result),
        call_ensures(env_filter_from_env, (other_default, rust_log), other),
    ensures
        rust_log is Some ==> (result is Ok <==> other is Ok) && (result is Ok ==> result->Ok_0@
            == other->Ok_0@) && (result is Err ==> result->Err_0@ == other->Err_0@),
        rust_log matches Some(value) ==> (value@.len() == 0 ==> result is Err),
        rust_log matches Some(value) ==> (value@.len() > 0 && value@ == text::utf8(written) ==> (
        result is Ok <==> accepts_directive(written)) && (result is Ok ==> result->Ok_0@
            == written)),
        rust_log is None ==> (result is Ok <==> accepts_directive(default_directive@)) && (
        result is Ok ==> result->Ok_0@ == default_directive@),
{
    text::lemma_decoded(written);
}

/// A directive that can be read is used as it stands, and one that cannot never is.
pub proof fn checked_directive_is_the_given_one(
    directive: &str,
    from_env: bool,
    valid: bool,
    result: Result<String, String>,
)
    requires
        call_ensures(checked_directive, (directive, from_env, valid), result),
    ensures
        result is Ok <==> valid,
        result matches Ok(checked) ==> checked@ == directive@,
{
}

/// A directive in ASCII can always be cut, and so can one without signs, and one without white space.
pub proof fn plain_directives_can_be_cut(directive: &str, result: bool)
    requires
        call_ensures(directive_is_parsable, (directive,), result),
    ensures
        (forall|i: int| 0 <= i < directive@.len() ==> (#[trigger] directive@[i]) as u32 <= 0x7f)
            ==> result,
        (forall|i: int|
            0 <= i < directive@.len() ==> #[trigger] directive@[i] != '=' && directive@[i] != '[')
            ==> result,
        (forall|i: int| 0 <= i < directive@.len() ==> !text::is_space(#[trigger] directive@[i]))
            ==> result,
{
    if (forall|i: int| 0 <= i < directive@.len() ==> (#[trigger] directive@[i]) as u32 <= 0x7f) || (
    forall|i: int|
        0 <= i < directive@.len() ==> #[trigger] directive@[i] != '=' && directive@[i] != '[') || (
    forall|i: int| 0 <= i < directive@.len() ==> !text::is_space(#[trigger] directive@[i])) {
        lemma_plain_pieces(directive@, 0);
    }
}

proof fn lemma_plain_pieces(s: Seq<char>, i: int)
    requires
        0 <= i,
        (forall|k: int| 0 <= k < s.len() ==> (#[trigger] s[k]) as u32 <= 0x7f) || (forall|k: int|
            0 <= k < s.len() ==> #[trigger] s[k] != '=' && s[k] != '[') || (forall|k: int|
            0 <= k < s.len() ==> !text::is_space(#[trigger] s[k])),
    ensures
        is_divisible_from(s, i),
    decreases s.len() + 1 - i,
{
    if i <= s.len() {
        lemma_piece_end(s, i);
        let piece = s.subrange(i, piece_end(s, i));
        assert forall|k: int| 0 <= k < piece.len() implies #[trigger] piece[k] == s[i + k] by {}
        assert(is_divisible(piece));
        lemma_plain_pieces(s, piece_end(s, i) + 1);
    }
}

/// `start` is put in front exactly where it was left out.
pub proof fn start_is_inserted_where_it_is_missing(
    args: Vec<Vec<u8>>,
    missing: bool,
    result: Vec<Vec<u8>>,
)
    requires
        call_ensures(should_insert_start, (&args,), missing),
        call_ensures(normalize_cli_args_vec, (args,), result),
    ensures
        missing ==> bytes::blobs(result@) == seq![text::utf8("start"@)] + bytes::blobs(args@),
        !missing ==> bytes::blobs(result@) == bytes::blobs(args@),
{
    let views = bytes::blobs(args@);
    assert(views.insert(0, text::utf8("start"@)) =~= seq![text::utf8("start"@)] + views);
}

} // verus!
