//! The service manager that starts the daemon at login.
//!
//! - macOS: `launchd` via `~/Library/LaunchAgents/com.cue-shell.cued.plist`
//! - Linux: `systemd --user` via `~/.config/systemd/user/cued.service`
//!
//! A normal shutdown of the daemon (exit code 0) does not make the service manager start it again,
//! while a crash does.
use crate::dirs;
use crate::dirs::home_dir_from_env;
use crate::text;
use crate::text::{
    chars_of, contains, decimal_text, join2, join3, join4, join5, parse_number, starts_with, trim,
};
use vstd::prelude::*;

verus! {

pub const SERVICE_LABEL: &'static str = "com.cue-shell.cued";

/// A service manager.
#[derive(Clone, Copy, PartialEq, Eq, Structural, Debug)]
pub enum ServiceManager {
    /// `systemd --user` on Linux.
    Systemd,
    /// `launchd` on macOS, for the user of the given id.
    Launchd { uid: u32 },
}

/// What the service manager says about the daemon's process.
#[derive(Clone, Copy, PartialEq, Eq, Structural, Debug)]
pub enum ServiceProcessState {
    Active(u32),
    Inactive,
    Unknown,
}

/// Whether the service manager runs this process.
#[derive(Clone, Copy, PartialEq, Eq, Structural, Debug)]
pub enum CurrentProcessOwnership {
    Managed,
    NotManaged,
    Unknown,
}

/// Whether the service manager runs the process `current_pid`: only if that is the very process
/// that it names.
pub fn current_process_ownership_from_state(state: ServiceProcessState, current_pid: u32) -> (result:
    CurrentProcessOwnership)
    ensures
        result == match state {
            ServiceProcessState::Active(pid) => if pid == current_pid {
                CurrentProcessOwnership::Managed
            } else {
                CurrentProcessOwnership::NotManaged
            },
            ServiceProcessState::Inactive => CurrentProcessOwnership::NotManaged,
            ServiceProcessState::Unknown => CurrentProcessOwnership::Unknown,
        },
{
    match state {
        ServiceProcessState::Active(pid) => {
            if pid == current_pid {
                CurrentProcessOwnership::Managed
            } else {
                CurrentProcessOwnership::NotManaged
            }
        },
        ServiceProcessState::Inactive => CurrentProcessOwnership::NotManaged,
        ServiceProcessState::Unknown => CurrentProcessOwnership::Unknown,
    }
}

/// An ASCII upper case letter as lower case; anything else as it is.
pub open spec fn lower(c: char) -> char {
    if 'A' <= c && c <= 'Z' {
        ((c as u32) + 32) as char
    } else {
        c
    }
}

/// A text with its ASCII letters in lower case.
pub open spec fn lowered(s: Seq<char>) -> Seq<char> {
    s.map_values(|c: char| lower(c))
}

fn to_ascii_lowercase(s: &str) -> (result: String)
    ensures
        result@ == lowered(s@),
{
    let chars = chars_of(s);
    let mut result = String::new();
    assert(lowered(s@.take(0)) =~= Seq::<char>::empty());
    for i in 0..chars.len()
        invariant
            chars@ == s@,
            result@ == lowered(s@.take(i as int)),
    {
        let c = chars[i];
        assert(lowered(s@.take(i + 1)) =~= lowered(s@.take(i as int)).push(lower(c)));
        if 'A' <= c && c <= 'Z' {
            result.push(((c as u8) + 32) as char);
        } else {
            result.push(c);
        }
    }
    assert(s@.take(s@.len() as int) =~= s@);
    result
}

/// A failure that says that there is no unit of the daemon.
pub open spec fn says_unit_is_missing(failure: Seq<char>) -> bool {
    &&& text::holds(failure, "cued.service"@) || text::holds(failure, "unit cued"@)
    &&& {
        ||| text::holds(failure, "not found"@)
        ||| text::holds(failure, "not loaded"@)
        ||| text::holds(failure, "no such unit"@)
        ||| text::holds(failure, "could not be found"@)
    }
}

/// What systemd's answer to a question for the daemon's main process means.
pub open spec fn systemd_state(success: bool, stdout: Seq<char>, stderr: Seq<char>)
    -> ServiceProcessState {
    if success {
        match text::parsed_number(text::trimmed(stdout), u32::MAX as nat) {
            Some(pid) => if pid == 0 {
                ServiceProcessState::Inactive
            } else {
                ServiceProcessState::Active(pid as u32)
            },
            None => ServiceProcessState::Unknown,
        }
    } else if says_unit_is_missing(lowered(stdout + "\n"@ + stderr)) {
        ServiceProcessState::Inactive
    } else {
        ServiceProcessState::Unknown
    }
}

/// What systemd's answer to a question for the daemon's main process means, as text.
pub fn systemd_process_state_from_text(success: bool, stdout: &str, stderr: &str) -> (state:
    ServiceProcessState)
    ensures
        state == systemd_state(success, stdout@, stderr@),
{
    if success {
        return match parse_number(trim(stdout), u32::MAX as u64) {
            Some(pid) => if pid == 0 {
                ServiceProcessState::Inactive
            } else {
                ServiceProcessState::Active(pid as u32)
            },
            None => ServiceProcessState::Unknown,
        };
    }
    let said = join3(stdout, "\n", stderr);
    let lowercase = to_ascii_lowercase(said.as_str());
    let failure = lowercase.as_str();
    let names_cued_unit = contains(failure, "cued.service") || contains(failure, "unit cued");
    if names_cued_unit && (contains(failure, "not found") || contains(failure, "not loaded")
        || contains(failure, "no such unit") || contains(failure, "could not be found")) {
        ServiceProcessState::Inactive
    } else {
        ServiceProcessState::Unknown
    }
}

/// Bytes read as UTF-8, with what is not UTF-8 replaced.
pub uninterp spec fn lossy_text(bytes: Seq<u8>) -> Seq<char>;

/// Reads bytes as UTF-8.
///
/// Calls `String::from_utf8_lossy` of the standard library. The text depends on the bytes alone,
/// and of bytes that are valid UTF-8 it is the text that they encode; how other bytes are replaced
/// is not stated.
#[verifier::external_body]
fn utf8_lossy(bytes: &[u8]) -> (result: String)
    ensures
        result@ == lossy_text(bytes@),
        vstd::utf8::valid_utf8(bytes@) ==> text::utf8(result@) == bytes@,
{
    String::from_utf8_lossy(bytes).into_owned()
}

/// Reads bytes as UTF-8, and tells that they are the text that they encode, if they are.
fn read_text(bytes: &[u8]) -> (result: String)
    ensures
        result@ == lossy_text(bytes@),
        text::decoded(bytes@) matches Some(decoded) ==> result@ == decoded,
{
    let result = utf8_lossy(bytes);
    proof {
        text::lemma_decoded(result@);
    }
    result
}

/// What systemd's answer to a question for the daemon's main process means.
pub fn systemd_process_state_from_output(success: bool, stdout: &[u8], stderr: &[u8]) -> (state:
    ServiceProcessState)
    ensures
        state == systemd_state(success, lossy_text(stdout@), lossy_text(stderr@)),
        text::decoded(stdout@) matches Some(out) ==> text::decoded(stderr@) matches Some(err)
            ==> state == systemd_state(success, out, err),
{
    let stdout = read_text(stdout);
    let stderr = read_text(stderr);
    systemd_process_state_from_text(success, stdout.as_str(), stderr.as_str())
}

/// The line that begins at `i`, without white space around it.
pub open spec fn trimmed_line(s: Seq<char>, i: int) -> Seq<char> {
    text::trimmed(s.subrange(i, text::line_end(s, i)))
}

/// What the first line from `i` on that begins with `pid = ` says behind that.
pub open spec fn pid_text(s: Seq<char>, i: int) -> Option<Seq<char>>
    decreases s.len() + 1 - i,
{
    if i < 0 || i > s.len() {
        None
    } else if "pid = "@.is_prefix_of(trimmed_line(s, i)) {
        Some(trimmed_line(s, i).skip("pid = "@.len() as int))
    } else {
        proof {
            text::lemma_line_end(s, i);
        }
        pid_text(s, text::line_end(s, i) + 1)
    }
}

/// What launchd's description of the daemon's job means. `summary` describes a failure.
pub open spec fn launchd_state(success: bool, stdout: Seq<char>, summary: Seq<char>)
    -> ServiceProcessState {
    if !success {
        if text::holds(lowered(summary), "could not find service"@) || text::holds(
            lowered(summary),
            "not found"@,
        ) {
            ServiceProcessState::Inactive
        } else {
            ServiceProcessState::Unknown
        }
    } else {
        match pid_text(stdout, 0) {
            Some(pid) => match text::parsed_number(text::trimmed(pid), u32::MAX as nat) {
                Some(pid) => if pid == 0 {
                    ServiceProcessState::Inactive
                } else {
                    ServiceProcessState::Active(pid as u32)
                },
                None => ServiceProcessState::Inactive,
            },
            None => ServiceProcessState::Inactive,
        }
    }
}

fn find_pid_text(s: &str) -> (result: Option<String>)
    ensures
        match result {
            Some(found) => pid_text(s@, 0) == Some(found@),
            None => pid_text(s@, 0) is None,
        },
{
    let chars = chars_of(s);
    let marker = chars_of("pid = ");
    let mut start: usize = 0;
    loop
        invariant
            chars@ == s@,
            marker@ == "pid = "@,
            start <= chars.len(),
            pid_text(s@, 0) == pid_text(s@, start as int),
        decreases chars.len() - start,
    {
        let mut end: usize = start;
        while end < chars.len() && chars[end] != '\n'
            invariant
                chars@ == s@,
                start <= end <= chars.len(),
                text::line_end(s@, start as int) == text::line_end(s@, end as int),
            decreases chars.len() - end,
        {
            end = end + 1;
        }
        let line = trim(s.substring_char(start, end));
        if starts_with(line, "pid = ") {
            let found = line.substring_char(marker.len(), chars_of(line).len());
            assert(found@ =~= line@.skip("pid = "@.len() as int));
            return Some(found.to_owned());
        }
        if end >= chars.len() {
            assert(pid_text(s@, end + 1) is None);
            return None;
        }
        start = end + 1;
    }
}

/// What launchd's description of the daemon's job means. `summary` describes a failure.
pub fn launchd_process_state(success: bool, stdout: &str, summary: &str) -> (state:
    ServiceProcessState)
    ensures
        state == launchd_state(success, stdout@, summary@),
{
    if !success {
        let lowercase = to_ascii_lowercase(summary);
        return if contains(lowercase.as_str(), "could not find service") || contains(
            lowercase.as_str(),
            "not found",
        ) {
            ServiceProcessState::Inactive
        } else {
            ServiceProcessState::Unknown
        };
    }
    match find_pid_text(stdout) {
        Some(pid) => match parse_number(trim(pid.as_str()), u32::MAX as u64) {
            Some(pid) => if pid == 0 {
                ServiceProcessState::Inactive
            } else {
                ServiceProcessState::Active(pid as u32)
            },
            None => ServiceProcessState::Inactive,
        },
        None => ServiceProcessState::Inactive,
    }
}

/// What launchd's description of the daemon's job means, as it came. `summary` describes a failure.
pub fn launchd_process_state_from_output(success: bool, stdout: &[u8], summary: &str) -> (state:
    ServiceProcessState)
    ensures
        state == launchd_state(success, lossy_text(stdout@), summary@),
        text::decoded(stdout@) matches Some(out) ==> state == launchd_state(
            success,
            out,
            summary@,
        ),
{
    let stdout = read_text(stdout);
    launchd_process_state(success, stdout.as_str(), summary)
}

/// A program to run with its arguments.
#[derive(Clone, PartialEq, Eq, Debug)]
pub struct ServiceCommand {
    pub program: String,
    pub args: Vec<String>,
}

/// A program and its arguments, parted by spaces.
pub open spec fn command_line(program: Seq<char>, args: Seq<Seq<char>>) -> Seq<char>
    decreases args.len(),
{
    if args.len() == 0 {
        program
    } else {
        command_line(program, args.drop_last()) + " "@ + args.last()
    }
}

impl ServiceCommand {
    /// The command runs the program with the arguments.
    pub open spec fn is(&self, program: Seq<char>, args: Seq<Seq<char>>) -> bool {
        self.program@ == program && text::texts(self.args@) == args
    }

    fn new(program: &str) -> (command: Self)
        ensures
            command.is(program@, Seq::empty()),
    {
        let args: Vec<String> = Vec::new();
        assert(text::texts(args@) =~= Seq::<Seq<char>>::empty());
        ServiceCommand { program: program.to_owned(), args }
    }

    fn arg(self, arg: &str) -> (command: Self)
        ensures
            command.is(self.program@, text::texts(self.args@).push(arg@)),
    {
        let ServiceCommand { program, args } = self;
        let mut args = args;
        let ghost before = args@;
        args.push(arg.to_owned());
        assert(text::texts(args@) =~= text::texts(before).push(arg@));
        ServiceCommand { program, args }
    }

    /// The command as it is shown.
    pub fn display(&self) -> (line: String)
        ensures
            line@ == command_line(self.program@, text::texts(self.args@)),
    {
        let mut line = self.program.clone();
        let ghost all = text::texts(self.args@);
        assert(all.take(0) =~= Seq::<Seq<char>>::empty());
        for i in 0..self.args.len()
            invariant
                all == text::texts(self.args@),
                line@ == command_line(self.program@, all.take(i as int)),
        {
            assert(all.take(i + 1).drop_last() =~= all.take(i as int));
            line = join3(line.as_str(), " ", self.args[i].as_str());
        }
        assert(all.take(all.len() as int) =~= all);
        line
    }
}

/// The place of launchd's jobs for a user.
pub open spec fn launchd_domain(uid: u32) -> Seq<char> {
    "gui/"@ + text::decimal(uid as nat)
}

/// The daemon's job in launchd.
pub open spec fn launchd_job(uid: u32) -> Seq<char> {
    "gui/"@ + text::decimal(uid as nat) + "/"@ + SERVICE_LABEL@
}

fn launchd_target(uid: u32) -> (target: String)
    ensures
        target@ == launchd_domain(uid),
{
    let id = decimal_text(uid as u64);
    join2("gui/", id.as_str())
}

fn launchd_service(uid: u32) -> (service: String)
    ensures
        service@ == launchd_job(uid),
{
    let id = decimal_text(uid as u64);
    join4("gui/", id.as_str(), "/", SERVICE_LABEL)
}

/// The command that starts the installed job without replacing a process that may already be the
/// exact restart successor.
pub fn start_service_command(manager: ServiceManager) -> (command: ServiceCommand)
    ensures
        match manager {
            ServiceManager::Systemd => command.is("systemctl"@, seq!["--user"@, "start"@, "cued"@]),
            ServiceManager::Launchd { uid } => command.is(
                "launchctl"@,
                seq!["kickstart"@, launchd_job(uid)],
            ),
        },
{
    match manager {
        ServiceManager::Systemd => {
            let command = ServiceCommand::new("systemctl").arg("--user").arg("start").arg("cued");
            assert(text::texts(command.args@) =~= seq!["--user"@, "start"@, "cued"@]);
            command
        },
        ServiceManager::Launchd { uid } => {
            let service = launchd_service(uid);
            let command = ServiceCommand::new("launchctl").arg("kickstart").arg(service.as_str());
            assert(text::texts(command.args@) =~= seq!["kickstart"@, launchd_job(uid)]);
            command
        },
    }
}

/// The command that restarts the managed service.
pub fn restart_service_command(manager: ServiceManager) -> (command: ServiceCommand)
    ensures
        match manager {
            ServiceManager::Systemd => command.is(
                "systemctl"@,
                seq!["--user"@, "restart"@, "cued"@],
            ),
            ServiceManager::Launchd { uid } => command.is(
                "launchctl"@,
                seq!["kickstart"@, "-k"@, launchd_job(uid)],
            ),
        },
{
    match manager {
        ServiceManager::Systemd => {
            let command = ServiceCommand::new("systemctl").arg("--user").arg("restart").arg("cued");
            assert(text::texts(command.args@) =~= seq!["--user"@, "restart"@, "cued"@]);
            command
        },
        ServiceManager::Launchd { uid } => {
            let service = launchd_service(uid);
            let command = ServiceCommand::new("launchctl").arg("kickstart").arg("-k").arg(
                service.as_str(),
            );
            assert(text::texts(command.args@) =~= seq!["kickstart"@, "-k"@, launchd_job(uid)]);
            command
        },
    }
}

/// The command that asks for the daemon's main process.
pub fn process_state_command(manager: ServiceManager) -> (command: ServiceCommand)
    ensures
        match manager {
            ServiceManager::Systemd => command.is(
                "systemctl"@,
                seq!["--user"@, "show"@, "--property=MainPID"@, "--value"@, "cued"@],
            ),
            ServiceManager::Launchd { uid } => command.is(
                "launchctl"@,
                seq!["print"@, launchd_job(uid)],
            ),
        },
{
    match manager {
        ServiceManager::Systemd => {
            let command = ServiceCommand::new("systemctl").arg("--user").arg("show").arg(
                "--property=MainPID",
            ).arg("--value").arg("cued");
            assert(text::texts(command.args@) =~= seq![
                "--user"@,
                "show"@,
                "--property=MainPID"@,
                "--value"@,
                "cued"@,
            ]);
            command
        },
        ServiceManager::Launchd { uid } => {
            let service = launchd_service(uid);
            let command = ServiceCommand::new("launchctl").arg("print").arg(service.as_str());
            assert(text::texts(command.args@) =~= seq!["print"@, launchd_job(uid)]);
            command
        },
    }
}

/// Commands that run a program with arguments, in order.
pub open spec fn commands_are(
    commands: Seq<ServiceCommand>,
    expected: Seq<(Seq<char>, Seq<Seq<char>>)>,
) -> bool {
    &&& commands.len() == expected.len()
    &&& forall|i: int|
        0 <= i < commands.len() ==> (#[trigger] commands[i]).is(expected[i].0, expected[i].1)
}

/// The command that makes systemd read its unit files again.
fn reload_command() -> (command: ServiceCommand)
    ensures
        command.is("systemctl"@, seq!["--user"@, "daemon-reload"@]),
{
    let command = ServiceCommand::new("systemctl").arg("--user").arg("daemon-reload");
    assert(text::texts(command.args@) =~= seq!["--user"@, "daemon-reload"@]);
    command
}

/// The commands that activate the installed service. `file` is the service file as it is shown.
/// Each has to succeed before the next is run.
pub fn activate_commands(manager: ServiceManager, file: &str) -> (commands: Vec<ServiceCommand>)
    ensures
        match manager {
            ServiceManager::Systemd => commands_are(
                commands@,
                seq![
                    ("systemctl"@, seq!["--user"@, "daemon-reload"@]),
                    ("systemctl"@, seq!["--user"@, "enable"@, "--now"@, "cued"@]),
                ],
            ),
            ServiceManager::Launchd { uid } => commands_are(
                commands@,
                seq![("launchctl"@, seq!["bootstrap"@, launchd_domain(uid), file@])],
            ),
        },
{
    let mut commands: Vec<ServiceCommand> = Vec::new();
    match manager {
        ServiceManager::Systemd => {
            commands.push(reload_command());
            let enable = ServiceCommand::new("systemctl").arg("--user").arg("enable").arg(
                "--now",
            ).arg("cued");
            assert(text::texts(enable.args@) =~= seq!["--user"@, "enable"@, "--now"@, "cued"@]);
            commands.push(enable);
        },
        ServiceManager::Launchd { uid } => {
            let target = launchd_target(uid);
            let bootstrap = ServiceCommand::new("launchctl").arg("bootstrap").arg(
                target.as_str(),
            ).arg(file);
            assert(text::texts(bootstrap.args@) =~= seq![
                "bootstrap"@,
                launchd_domain(uid),
                file@,
            ]);
            commands.push(bootstrap);
        },
    }
    commands
}

/// The commands that deactivate the installed service. All are run, whatever becomes of them.
pub fn deactivate_commands(manager: ServiceManager, file: &str) -> (commands: Vec<ServiceCommand>)
    ensures
        match manager {
            ServiceManager::Systemd => commands_are(
                commands@,
                seq![
                    ("systemctl"@, seq!["--user"@, "disable"@, "--now"@, "cued"@]),
                    ("systemctl"@, seq!["--user"@, "daemon-reload"@]),
                ],
            ),
            ServiceManager::Launchd { uid } => commands_are(
                commands@,
                seq![("launchctl"@, seq!["bootout"@, launchd_domain(uid), file@])],
            ),
        },
{
    let mut commands: Vec<ServiceCommand> = Vec::new();
    match manager {
        ServiceManager::Systemd => {
            let disable = ServiceCommand::new("systemctl").arg("--user").arg("disable").arg(
                "--now",
            ).arg("cued");
            assert(text::texts(disable.args@) =~= seq!["--user"@, "disable"@, "--now"@, "cued"@]);
            commands.push(disable);
            commands.push(reload_command());
        },
        ServiceManager::Launchd { uid } => {
            let target = launchd_target(uid);
            let bootout = ServiceCommand::new("launchctl").arg("bootout").arg(target.as_str()).arg(
                file,
            );
            assert(text::texts(bootout.args@) =~= seq!["bootout"@, launchd_domain(uid), file@]);
            commands.push(bootout);
        },
    }
    commands
}

/// Lines below each other.
pub open spec fn lines(all: Seq<Seq<char>>) -> Seq<char>
    decreases all.len(),
{
    if all.len() == 0 {
        Seq::empty()
    } else if all.len() == 1 {
        all[0]
    } else {
        lines(all.drop_last()) + "\n"@ + all.last()
    }
}

/// The warning about commands that did not confirm the deactivation.
pub fn deactivation_warning(failures: &Vec<String>) -> (warning: Option<String>)
    ensures
        match warning {
            Some(message) => failures@.len() > 0 && message@
                == "cued: warning: service manager did not confirm deactivation; removing the service file anyway\n"@
                + lines(text::texts(failures@)),
            None => failures@.len() == 0,
        },
{
    if failures.len() == 0 {
        return None;
    }
    let ghost all = text::texts(failures@);
    let mut told = failures[0].clone();
    assert(all.take(1)[0] == all[0]);
    for i in 1..failures.len()
        invariant
            all == text::texts(failures@),
            failures@.len() > 0,
            told@ == lines(all.take(i as int)),
    {
        assert(all.take(i + 1).drop_last() =~= all.take(i as int));
        assert(all.take(i + 1).last() == failures@[i as int]@);
        told = join3(told.as_str(), "\n", failures[i].as_str());
    }
    assert(all.take(all.len() as int) =~= all);
    Some(
        join2(
            "cued: warning: service manager did not confirm deactivation; removing the service file anyway\n",
            told.as_str(),
        ),
    )
}

/// What is told of a command that could not be run.
pub fn command_error(command: &ServiceCommand, error: &str) -> (message: String)
    ensures
        message@ == "`"@ + command_line(command.program@, text::texts(command.args@))
            + "` failed to run: "@ + error@,
{
    let line = command.display();
    join4("`", line.as_str(), "` failed to run: ", error)
}

/// What is told of an activation that failed. `file` is the service file as it is shown, `summary`
/// what is told of the command that failed.
pub fn activation_error(manager: ServiceManager, file: &str, summary: &str) -> (message: String)
    ensures
        message@ == match manager {
            ServiceManager::Systemd => summary@,
            ServiceManager::Launchd { .. } => "launchctl bootstrap failed — check the plist at "@
                + file@ + "\n"@ + summary@,
        },
{
    match manager {
        ServiceManager::Systemd => summary.to_owned(),
        ServiceManager::Launchd { .. } => {
            join4("launchctl bootstrap failed — check the plist at ", file, "\n", summary)
        },
    }
}

/// Where the service file stands below the home directory.
pub open spec fn service_file_place(manager: ServiceManager) -> Seq<char> {
    match manager {
        ServiceManager::Systemd => ".config/systemd/user/cued.service"@,
        ServiceManager::Launchd { .. } => "Library/LaunchAgents/com.cue-shell.cued.plist"@,
    }
}

/// The service file.
pub fn service_file_path(manager: ServiceManager, home: &Option<Vec<u8>>) -> (result: Result<
    Vec<u8>,
    String,
>)
    ensures
        dirs::resolves(
            dirs::under(dirs::set_value(*home), service_file_place(manager)),
            "HOME"@,
            result,
        ),
{
    match home_dir_from_env(home, "HOME") {
        Ok(home) => Ok(
            match manager {
                ServiceManager::Systemd => dirs::join(&home, ".config/systemd/user/cued.service"),
                ServiceManager::Launchd { .. } => dirs::join(
                    &home,
                    "Library/LaunchAgents/com.cue-shell.cued.plist",
                ),
            },
        ),
        Err(message) => Err(message),
    }
}

pub const UNIT_HEAD: &'static str = "[Unit]\nDescription=cued — background daemon for cue-shell\nAfter=default.target\nStartLimitIntervalSec=30\nStartLimitBurst=5\n\n[Service]\nExecStart=";

pub const UNIT_TAIL: &'static str = " start --fg --preserve-restart-fence\nRestart=on-failure\nRestartSec=250ms\n\n[Install]\nWantedBy=default.target\n";

pub const PLIST_HEAD: &'static str = "<?xml version=\"1.0\" encoding=\"UTF-8\"?>
<!DOCTYPE plist PUBLIC \"-//Apple//DTD PLIST 1.0//EN\"
    \"http://www.apple.com/DTDs/PropertyList-1.0.dtd\">
<plist version=\"1.0\">
<dict>
    <key>Label</key>
    <string>com.cue-shell.cued</string>
    <key>ProgramArguments</key>
    <array>
        <string>";

pub const PLIST_MIDDLE: &'static str = "</string>
        <string>start</string>
        <string>--fg</string>
        <string>--preserve-restart-fence</string>
    </array>
    <key>RunAtLoad</key>
    <true/>
    <key>KeepAlive</key>
    <dict>
        <key>SuccessfulExit</key>
        <false/>
    </dict>
    <key>StandardErrorPath</key>
    <string>";

pub const PLIST_TAIL: &'static str = "</string>
</dict>
</plist>
";

/// What the service file says. `exe` is the daemon's program with all links resolved and `log` its
/// log, as they are shown.
pub fn service_file_content(manager: ServiceManager, exe: &str, log: &str) -> (content: String)
    ensures
        content@ == match manager {
            ServiceManager::Systemd => UNIT_HEAD@ + exe@ + UNIT_TAIL@,
            ServiceManager::Launchd { .. } => PLIST_HEAD@ + exe@ + PLIST_MIDDLE@ + log@
                + PLIST_TAIL@,
        },
{
    match manager {
        ServiceManager::Systemd => join3(UNIT_HEAD, exe, UNIT_TAIL),
        ServiceManager::Launchd { .. } => join5(PLIST_HEAD, exe, PLIST_MIDDLE, log, PLIST_TAIL),
    }
}

/// The service manager runs this process exactly where it names it. Another process, and none, are no
/// reason to count on it, and what is not known stays unknown.
pub proof fn only_the_named_process_is_managed(
    state: ServiceProcessState,
    current_pid: u32,
    result: CurrentProcessOwnership,
)
    requires
        call_ensures(current_process_ownership_from_state, (state, current_pid), result),
    ensures
        result == CurrentProcessOwnership::Managed <==> state == ServiceProcessState::Active(
            current_pid,
        ),
        result == CurrentProcessOwnership::Unknown <==> state == ServiceProcessState::Unknown,
{
}

/// Systemd tells of a running daemon by the number of its process: any number but zero, with white
/// space around it. Zero means that none runs, and anything that is no number tells nothing.
pub proof fn systemd_tells_the_process_number(
    before: Seq<char>,
    after: Seq<char>,
    pid: u32,
    stdout: &str,
    stderr: &str,
    state: ServiceProcessState,
)
    requires
        call_ensures(systemd_process_state_from_text, (true, stdout, stderr), state),
        forall|i: int| 0 <= i < before.len() ==> text::is_space(#[trigger] before[i]),
        forall|i: int| 0 <= i < after.len() ==> text::is_space(#[trigger] after[i]),
        stdout@ == before + text::decimal(pid as nat) + after,
    ensures
        state == if pid == 0 {
            ServiceProcessState::Inactive
        } else {
            ServiceProcessState::Active(pid)
        },
{
    text::lemma_decimal_value(pid as nat);
    text::lemma_trimmed_inner(before, text::decimal(pid as nat), after);
}

/// A question that failed never tells of a running daemon.
pub proof fn failed_question_tells_of_no_process(
    stdout: &str,
    stderr: &str,
    summary: &str,
    systemd: ServiceProcessState,
    launchd: ServiceProcessState,
)
    requires
        call_ensures(systemd_process_state_from_text, (false, stdout, stderr), systemd),
        call_ensures(launchd_process_state, (false, stdout, summary), launchd),
    ensures
        !(systemd is Active),
        !(launchd is Active),
{
}

/// Systemd's complaint that there is no unit of the daemon means that none runs, on whichever of the two
/// outputs it stands and however it is phrased. A complaint that names no unit of the daemon means
/// nothing.
pub proof fn missing_unit_means_inactive(
    stdout: &str,
    stderr: &str,
    state: ServiceProcessState,
    phrase: Seq<char>,
)
    requires
        call_ensures(systemd_process_state_from_text, (false, stdout, stderr), state),
        phrase == "not found"@ || phrase == "not loaded"@ || phrase == "no such unit"@ || phrase
            == "could not be found"@,
    ensures
        ({
            let said = lowered(stdout@ + "\n"@ + stderr@);
            &&& text::holds(said, "cued.service"@) && text::holds(said, phrase) ==> state
                == ServiceProcessState::Inactive
            &&& text::holds(said, "unit cued"@) && text::holds(said, phrase) ==> state
                == ServiceProcessState::Inactive
            &&& !text::holds(said, "cued"@) ==> state == ServiceProcessState::Unknown
            &&& !text::holds(said, "no"@) ==> state == ServiceProcessState::Unknown
        }),
{
    reveal_strlit("cued");
    reveal_strlit("cued.service");
    reveal_strlit("unit cued");
    reveal_strlit("no");
    reveal_strlit("not found");
    reveal_strlit("not loaded");
    reveal_strlit("no such unit");
    reveal_strlit("could not be found");
    let said = lowered(stdout@ + "\n"@ + stderr@);
    assert("cued.service"@.subrange(0, 4) =~= "cued"@);
    assert("unit cued"@.subrange(5, 9) =~= "cued"@);
    assert("not found"@.subrange(0, 2) =~= "no"@);
    assert("not loaded"@.subrange(0, 2) =~= "no"@);
    assert("no such unit"@.subrange(0, 2) =~= "no"@);
    assert("could not be found"@.subrange(6, 8) =~= "no"@);
    lemma_inner(said, "cued.service"@, "cued"@, 0);
    lemma_inner(said, "unit cued"@, "cued"@, 5);
    lemma_inner(said, "not found"@, "no"@, 0);
    lemma_inner(said, "not loaded"@, "no"@, 0);
    lemma_inner(said, "no such unit"@, "no"@, 0);
    lemma_inner(said, "could not be found"@, "no"@, 6);
}

proof fn lemma_inner(whole: Seq<char>, part: Seq<char>, inner: Seq<char>, at: int)
    requires
        text::occurs_at(part, inner, at),
    ensures
        text::holds(whole, part) ==> text::holds(whole, inner),
{
    if text::holds(whole, part) {
        let i = choose|i: int| text::occurs_at(whole, part, i);
        assert(whole.subrange(i + at, i + at + inner.len()) =~= part.subrange(
            at,
            at + inner.len(),
        ));
        assert(text::occurs_at(whole, inner, i + at));
    }
}

/// The case of ASCII letters has no part in a complaint: an upper case letter counts as the lower case
/// one, and every other character as itself.
pub proof fn complaints_are_read_in_any_case(c: char)
    ensures
        65 <= c as int <= 90 ==> lower(c) as int == c as int + 32,
        !(65 <= c as int <= 90) ==> lower(c) == c,
{
}

/// Launchd tells of a running daemon by a line with the number of its process; without such a line, or
/// with zero there, none runs.
pub proof fn launchd_tells_the_process_number(
    pid: u32,
    rest: Seq<char>,
    stdout: &str,
    summary: &str,
    state: ServiceProcessState,
)
    requires
        call_ensures(launchd_process_state, (true, stdout, summary), state),
        stdout@ == "pid = "@ + text::decimal(pid as nat) + "\n"@ + rest,
    ensures
        state == if pid == 0 {
            ServiceProcessState::Inactive
        } else {
            ServiceProcessState::Active(pid)
        },
{
    reveal_strlit("pid = ");
    reveal_strlit("\n");
    let number = text::decimal(pid as nat);
    text::lemma_decimal_value(pid as nat);
    let s = stdout@;
    let line = "pid = "@ + number;
    let end = line.len() as int;
    assert forall|i: int| 0 <= i < end implies #[trigger] s[i] != '\n' by {
        if i >= 6 {
            assert(s[i] == number[i - 6]);
            assert(text::is_digit(number[i - 6]));
        }
    }
    assert(s[end] == '\n');
    lemma_line_ends(s, 0, end);
    assert(s.subrange(0, end) =~= line);
    assert(line.last() == number.last());
    assert(!text::is_space(line[0]));
    let none = Seq::<char>::empty();
    assert(none + line + none =~= line);
    text::lemma_trimmed_inner(none, line, none);
    assert(line.take(6) =~= "pid = "@);
    assert(line.skip(6) =~= number);
    assert(none + number + none =~= number);
    text::lemma_trimmed_inner(none, number, none);
}

proof fn lemma_line_ends(s: Seq<char>, i: int, n: int)
    requires
        0 <= i <= n < s.len(),
        forall|k: int| i <= k < n ==> #[trigger] s[k] != '\n',
        s[n] == '\n',
    ensures
        text::line_end(s, i) == n,
    decreases n - i,
{
    if i < n {
        lemma_line_ends(s, i + 1, n);
    }
}

/// A failed question about the job means that none runs exactly where launchd says that it does not
/// know the job.
pub proof fn unknown_job_means_inactive(
    stdout: &str,
    summary: &str,
    state: ServiceProcessState,
)
    requires
        call_ensures(launchd_process_state, (false, stdout, summary), state),
    ensures
        state == ServiceProcessState::Inactive <==> text::holds(
            lowered(summary@),
            "could not find service"@,
        ) || text::holds(lowered(summary@), "not found"@),
        state == ServiceProcessState::Inactive || state == ServiceProcessState::Unknown,
{
}

/// Starting the service never replaces a process that runs, and restarting it does: the two commands
/// speak of the same service, and differ in that alone.
pub proof fn starting_never_replaces(
    manager: ServiceManager,
    start: ServiceCommand,
    restart: ServiceCommand,
)
    requires
        call_ensures(start_service_command, (manager,), start),
        call_ensures(restart_service_command, (manager,), restart),
    ensures
        start.program@ == restart.program@,
        start.args@.last()@ == restart.args@.last()@,
        manager is Systemd ==> start.program@ == "systemctl"@ && start.args@[0]@ == "--user"@
            && start.args@[1]@ == "start"@ && restart.args@[0]@ == "--user"@ && restart.args@[1]@
            == "restart"@ && start.args@.last()@ == "cued"@,
        manager is Launchd ==> start.program@ == "launchctl"@ && start.args@[0]@ == "kickstart"@
            && restart.args@[0]@ == "kickstart"@ && restart.args@[1]@ == "-k"@ && start.args@.len()
            == 2 && restart.args@.len() == 3,
        manager matches ServiceManager::Launchd { uid } ==> start.args@.last()@ == "gui/"@
            + text::decimal(uid as nat) + "/com.cue-shell.cued"@,
        manager is Systemd ==> start.args@.len() == 3 && restart.args@.len() == 3,
{
    let a = text::texts(start.args@);
    let b = text::texts(restart.args@);
    assert(a.len() == start.args@.len() && b.len() == restart.args@.len());
    assert(a.last() == start.args@.last()@ && b.last() == restart.args@.last()@);
    assert(a[0] == start.args@[0]@ && a[1] == start.args@[1]@);
    assert(b[0] == restart.args@[0]@ && b[1] == restart.args@[1]@);
    reveal_strlit("/");
    reveal_strlit("com.cue-shell.cued");
    reveal_strlit("/com.cue-shell.cued");
    if let ServiceManager::Launchd { uid } = manager {
        let head = "gui/"@ + text::decimal(uid as nat);
        assert("/"@ + "com.cue-shell.cued"@ =~= "/com.cue-shell.cued"@);
        assert(head + "/"@ + SERVICE_LABEL@ =~= head + "/com.cue-shell.cued"@);
    }
}

/// Asking for the daemon's process changes nothing: it shows one property of the unit, or prints the
/// job.
pub proof fn asking_changes_nothing(manager: ServiceManager, command: ServiceCommand)
    requires
        call_ensures(process_state_command, (manager,), command),
    ensures
        manager is Systemd ==> command.program@ == "systemctl"@ && command.args@[1]@ == "show"@
            && command.args@[2]@ == "--property=MainPID"@ && command.args@.last()@ == "cued"@,
        manager is Launchd ==> command.program@ == "launchctl"@ && command.args@[0]@ == "print"@,
{
    let a = text::texts(command.args@);
    assert(a.len() == command.args@.len());
    assert(a.last() == command.args@.last()@);
    assert(a[0] == command.args@[0]@ && a[1] == command.args@[1]@);
    if manager is Systemd {
        assert(a[2] == command.args@[2]@);
    }
}

/// Activation and deactivation are each other's reverse: what the one enables the other disables, both
/// at once, and systemd reads its units before the one and after the other.
pub proof fn deactivation_reverses_activation(
    manager: ServiceManager,
    file: &str,
    activate: Vec<ServiceCommand>,
    deactivate: Vec<ServiceCommand>,
)
    requires
        call_ensures(activate_commands, (manager, file), activate),
        call_ensures(deactivate_commands, (manager, file), deactivate),
    ensures
        activate@.len() == deactivate@.len(),
        manager is Systemd ==> {
            &&& activate@.len() == 2
            &&& text::texts(activate@[0].args@) == text::texts(deactivate@[1].args@)
            &&& text::texts(activate@[0].args@) == seq!["--user"@, "daemon-reload"@]
            &&& text::texts(activate@[1].args@) == text::texts(deactivate@[0].args@).update(
                1,
                "enable"@,
            )
            &&& text::texts(deactivate@[0].args@)[1] == "disable"@
            &&& text::texts(activate@[1].args@).contains("--now"@)
            &&& text::texts(activate@[1].args@).last() == "cued"@
        },
        manager is Launchd ==> {
            &&& activate@.len() == 1
            &&& text::texts(activate@[0].args@) == text::texts(deactivate@[0].args@).update(
                0,
                "bootstrap"@,
            )
            &&& text::texts(deactivate@[0].args@)[0] == "bootout"@
            &&& text::texts(activate@[0].args@).last() == file@
        },
{
    if manager is Systemd {
        let on = text::texts(activate@[1].args@);
        let off = text::texts(deactivate@[0].args@);
        assert(activate@[0].is("systemctl"@, seq!["--user"@, "daemon-reload"@]));
        assert(deactivate@[1].is("systemctl"@, seq!["--user"@, "daemon-reload"@]));
        assert(activate@[1].is("systemctl"@, seq!["--user"@, "enable"@, "--now"@, "cued"@]));
        assert(deactivate@[0].is("systemctl"@, seq!["--user"@, "disable"@, "--now"@, "cued"@]));
        assert(on =~= off.update(1, "enable"@));
        assert(on[2] == "--now"@);
    } else if let ServiceManager::Launchd { uid } = manager {
        let on = text::texts(activate@[0].args@);
        let off = text::texts(deactivate@[0].args@);
        assert(activate@[0].is("launchctl"@, seq!["bootstrap"@, launchd_domain(uid), file@]));
        assert(deactivate@[0].is("launchctl"@, seq!["bootout"@, launchd_domain(uid), file@]));
        assert(on =~= off.update(0, "bootstrap"@));
    }
}

proof fn lemma_lines_hold(all: Seq<Seq<char>>, i: int)
    requires
        0 <= i < all.len(),
    ensures
        text::holds(lines(all), all[i]),
    decreases all.len(),
{
    if all.len() == 1 {
        assert(all[0].subrange(0, all[0].len() as int) =~= all[0]);
        assert(text::occurs_at(all[0], all[0], 0));
    } else {
        let whole = lines(all);
        if i == all.len() - 1 {
            let at = whole.len() - all[i].len();
            assert(whole.subrange(at, at + all[i].len()) =~= all[i]);
            assert(text::occurs_at(whole, all[i], at));
        } else {
            lemma_lines_hold(all.drop_last(), i);
            let short = lines(all.drop_last());
            let at = choose|at: int| text::occurs_at(short, all[i], at);
            assert(whole.subrange(at, at + all[i].len()) =~= short.subrange(
                at,
                at + all[i].len(),
            ));
            assert(text::occurs_at(whole, all[i], at));
        }
    }
}

/// A warning is given exactly where a command failed, and it tells of every one that did.
pub proof fn every_failure_is_told(failures: &Vec<String>, warning: Option<String>, i: int)
    requires
        call_ensures(deactivation_warning, (failures,), warning),
    ensures
        warning is Some <==> failures@.len() > 0,
        0 <= i < failures@.len() ==> text::holds(warning->0@, failures@[i]@),
{
    if 0 <= i < failures@.len() {
        let all = text::texts(failures@);
        assert(all[i] == failures@[i]@);
        lemma_lines_hold(all, i);
        let told = lines(all);
        let whole = warning->0@;
        let head = whole.len() - told.len();
        let at = choose|at: int| text::occurs_at(told, all[i], at);
        assert(whole.subrange(head + at, head + at + all[i].len()) =~= told.subrange(
            at,
            at + all[i].len(),
        ));
        assert(text::occurs_at(whole, all[i], head + at));
    }
}

/// A command is shown as its program and its arguments with a blank between any two: another argument
/// adds a blank and itself.
pub proof fn command_is_shown_with_blanks(
    short: &ServiceCommand,
    long: &ServiceCommand,
    last: String,
    shown: String,
    shown_long: String,
)
    requires
        call_ensures(ServiceCommand::display, (short,), shown),
        call_ensures(ServiceCommand::display, (long,), shown_long),
        long.program == short.program,
        long.args@ == short.args@.push(last),
    ensures
        shown_long@ == shown@ + " "@ + last@,
        short.args@.len() == 0 ==> shown@ == short.program@,
{
    let a = text::texts(short.args@);
    let b = text::texts(long.args@);
    assert(b.drop_last() =~= a);
    assert(b.last() == last@);
}

/// The service file stands below the home directory, at the place that the service manager reads.
pub proof fn service_file_stands_below_the_home(
    manager: ServiceManager,
    home: &Option<Vec<u8>>,
    result: Result<Vec<u8>, String>,
)
    requires
        call_ensures(service_file_path, (manager, home), result),
    ensures
        result is Ok <==> (*home matches Some(home) && home@.len() > 0),
        result is Ok ==> result->Ok_0@ == dirs::joined(
            (*home)->0@,
            if manager is Systemd {
                ".config/systemd/user/cued.service"@
            } else {
                "Library/LaunchAgents/com.cue-shell.cued.plist"@
            },
        ),
{
}

/// The unit makes systemd run the given program in the foreground, and start it again after a failure
/// only: a normal end is the end.
pub proof fn unit_restarts_after_failures_only(exe: &str, log: &str, content: String)
    requires
        call_ensures(service_file_content, (ServiceManager::Systemd, exe, log), content),
    ensures
        text::holds(
            content@,
            "ExecStart="@ + exe@
                + " start --fg --preserve-restart-fence\nRestart=on-failure\n"@,
        ),
{
    reveal_strlit("ExecStart=");
    reveal_strlit(" start --fg --preserve-restart-fence\nRestart=on-failure\n");
    reveal_strlit(
        "[Unit]\nDescription=cued — background daemon for cue-shell\nAfter=default.target\nStartLimitIntervalSec=30\nStartLimitBurst=5\n\n[Service]\nExecStart=",
    );
    reveal_strlit(
        " start --fg --preserve-restart-fence\nRestart=on-failure\nRestartSec=250ms\n\n[Install]\nWantedBy=default.target\n",
    );
    let first = "ExecStart="@;
    let last = " start --fg --preserve-restart-fence\nRestart=on-failure\n"@;
    let part = first + exe@ + last;
    let at = UNIT_HEAD@.len() - first.len();
    assert(UNIT_HEAD@.subrange(at, UNIT_HEAD@.len() as int) =~= first);
    assert(UNIT_TAIL@.subrange(0, last.len() as int) =~= last);
    assert forall|i: int| 0 <= i < part.len() implies content@[at + i] == #[trigger] part[i] by {
        if i < first.len() {
            assert(content@[at + i] == UNIT_HEAD@[at + i]);
            assert(UNIT_HEAD@.subrange(at, UNIT_HEAD@.len() as int)[i] == first[i]);
        } else if i < first.len() + exe@.len() {
            assert(content@[at + i] == exe@[i - first.len()]);
        } else {
            let k = i - first.len() - exe@.len();
            assert(content@[at + i] == UNIT_TAIL@[k]);
            assert(UNIT_TAIL@.subrange(0, last.len() as int)[k] == last[k]);
        }
    }
    assert(content@.subrange(at, at + part.len()) =~= part);
    assert(text::occurs_at(content@, part, at));
}

/// What is told of a failure ends with what is known of it. Where launchd did not take the file, the file
/// is named.
pub proof fn failures_are_told_with_their_reason(
    manager: ServiceManager,
    file: &str,
    summary: &str,
    message: String,
    command: &ServiceCommand,
    error: &str,
    not_run: String,
)
    requires
        call_ensures(activation_error, (manager, file, summary), message),
        call_ensures(command_error, (command, error), not_run),
    ensures
        summary@.is_suffix_of(message@),
        error@.is_suffix_of(not_run@),
        manager is Systemd ==> message@ == summary@,
        manager is Launchd ==> text::holds(message@, file@),
{
    let m = message@;
    assert(m.subrange(m.len() - summary@.len(), m.len() as int) =~= summary@);
    let n = not_run@;
    assert(n.subrange(n.len() - error@.len(), n.len() as int) =~= error@);
    if manager is Launchd {
        let head = "launchctl bootstrap failed — check the plist at "@;
        let at = head.len() as int;
        assert(m.subrange(at, at + file@.len()) =~= file@);
        assert(text::occurs_at(m, file@, at));
    }
}

} // verus!
