//! Where the daemon keeps its files. A path is the bytes of its name.
//!
//! ```text
//! Runtime:  $XDG_RUNTIME_DIR/cue-shell/  (socket, pid)
//! Data:     $XDG_DATA_HOME/cue-shell/    (db, output)
//! State:    $XDG_STATE_HOME/cue-shell/   (logs)
//! Config:   $XDG_CONFIG_HOME/cue-shell/  (config)
//! ```
use crate::bytes;
use crate::bytes::copy_blob;
use crate::text;
use crate::text::join3;
use vstd::prelude::*;

verus! {

pub const APP_DIR: &'static str = "cue-shell";

/// The mode of directories that only their owner may use.
pub const PRIVATE_DIR_MODE: u32 = 0o700;

/// The mode of files that only their owner may use.
pub const PRIVATE_FILE_MODE: u32 = 0o600;

/// A path with a suffix behind its last component.
pub fn with_suffix(path: &Vec<u8>, suffix: &str) -> (result: Vec<u8>)
    ensures
        result@ == path@ + text::utf8(suffix@),
{
    let mut result: Vec<u8> = copy_blob(path);
    result.extend_from_slice(suffix.as_bytes());
    assert(result@ =~= path@ + text::utf8(suffix@));
    result
}

/// A path that leads on from another. The two are parted by one slash.
pub open spec fn joined(path: Seq<u8>, relative: Seq<char>) -> Seq<u8> {
    if path.len() == 0 || path.last() == 47 {
        path + text::utf8(relative)
    } else {
        path.push(47) + text::utf8(relative)
    }
}

/// A path that leads on from another, along a path that does not begin with a slash.
pub(crate) fn join(path: &Vec<u8>, relative: &str) -> (result: Vec<u8>)
    ensures
        result@ == joined(path@, relative@),
{
    let mut result: Vec<u8> = copy_blob(path);
    if path.len() > 0 && path[path.len() - 1] != 47 {
        result.push(47);
    }
    with_suffix(&result, relative)
}

/// The value of an environment variable, unless it is missing or empty.
pub open spec fn set_value(value: Option<Vec<u8>>) -> Option<Seq<u8>> {
    match value {
        Some(value) => if value@.len() > 0 {
            Some(value@)
        } else {
            None
        },
        None => None,
    }
}

/// The value of an environment variable, unless it is missing or empty.
pub fn non_empty_env(value: &Option<Vec<u8>>) -> (result: Option<Vec<u8>>)
    ensures
        match result {
            Some(found) => set_value(*value) == Some(found@),
            None => set_value(*value) is None,
        },
{
    match value {
        Some(value) => if value.len() > 0 {
            Some(copy_blob(value))
        } else {
            None
        },
        None => None,
    }
}

/// The directory of the socket and what belongs to it.
pub open spec fn runtime_path(xdg_runtime_dir: Option<Vec<u8>>, temp_dir: Seq<u8>) -> Seq<u8> {
    match set_value(xdg_runtime_dir) {
        Some(dir) => joined(dir, APP_DIR@),
        None => joined(temp_dir, APP_DIR@),
    }
}

/// The directory of the socket and what belongs to it: under `XDG_RUNTIME_DIR`, or else under the
/// directory for temporary files.
pub fn runtime_dir_from_env(xdg_runtime_dir: &Option<Vec<u8>>, temp_dir: &Vec<u8>) -> (dir: Vec<u8>)
    ensures
        dir@ == runtime_path(*xdg_runtime_dir, temp_dir@),
{
    match non_empty_env(xdg_runtime_dir) {
        Some(dir) => join(&dir, APP_DIR),
        None => join(temp_dir, APP_DIR),
    }
}

/// Path to the Unix domain socket: `$XDG_RUNTIME_DIR/cue-shell/cued.sock`.
pub fn socket_path(xdg_runtime_dir: &Option<Vec<u8>>, temp_dir: &Vec<u8>) -> (path: Vec<u8>)
    ensures
        path@ == joined(runtime_path(*xdg_runtime_dir, temp_dir@), "cued.sock"@),
{
    let dir = runtime_dir_from_env(xdg_runtime_dir, temp_dir);
    join(&dir, "cued.sock")
}

/// PID marker paired with a daemon socket.
///
/// Custom sockets must never share the default daemon's ownership markers.
pub fn pid_path_for_socket(socket_path: &Vec<u8>) -> (path: Vec<u8>)
    ensures
        path@ == socket_path@ + text::utf8(".cued.pid"@),
{
    with_suffix(socket_path, ".cued.pid")
}

/// Advisory single-instance lock paired with a daemon socket.
pub fn lock_path_for_socket(socket_path: &Vec<u8>) -> (path: Vec<u8>)
    ensures
        path@ == socket_path@ + text::utf8(".cued.lock"@),
{
    with_suffix(socket_path, ".cued.lock")
}

/// Sockets of different names have different markers, whatever the marker is called.
pub proof fn sockets_do_not_share_markers(first: Seq<u8>, second: Seq<u8>, suffix: Seq<u8>)
    requires
        first != second,
    ensures
        first + suffix != second + suffix,
{
    if first + suffix == second + suffix {
        assert(first.len() == second.len()) by {
            assert((first + suffix).len() == (second + suffix).len());
        }
        assert forall|i: int| 0 <= i < first.len() implies first[i] == second[i] by {
            assert((first + suffix)[i] == first[i]);
            assert((second + suffix)[i] == second[i]);
        }
        assert(first =~= second);
    }
}

/// The runtime-owned directory for sandboxes.
pub fn runtime_sandbox_dir(xdg_runtime_dir: &Option<Vec<u8>>, temp_dir: &Vec<u8>) -> (path: Vec<u8>)
    ensures
        path@ == joined(runtime_path(*xdg_runtime_dir, temp_dir@), "sandbox"@),
{
    let dir = runtime_dir_from_env(xdg_runtime_dir, temp_dir);
    join(&dir, "sandbox")
}

/// Why a path cannot be resolved.
pub open spec fn home_fault(xdg_override: Seq<char>) -> Seq<char> {
    "HOME is not set; set HOME or "@ + xdg_override + " to resolve cued paths"@
}

/// The home directory. `xdg_override` names the variable that would have done without it.
pub fn home_dir_from_env(home: &Option<Vec<u8>>, xdg_override: &str) -> (result: Result<
    Vec<u8>,
    String,
>)
    ensures
        match result {
            Ok(dir) => set_value(*home) == Some(dir@),
            Err(message) => set_value(*home) is None && message@ == home_fault(xdg_override@),
        },
{
    match non_empty_env(home) {
        Some(dir) => Ok(dir),
        None => Err(
            join3("HOME is not set; set HOME or ", xdg_override, " to resolve cued paths"),
        ),
    }
}

/// A directory of the daemon: under the directory that a variable names, or else under a directory
/// of the home directory.
pub open spec fn app_path(
    xdg_value: Option<Vec<u8>>,
    home: Option<Vec<u8>>,
    fallback: Seq<char>,
) -> Option<Seq<u8>> {
    match set_value(xdg_value) {
        Some(dir) => Some(joined(dir, APP_DIR@)),
        None => match set_value(home) {
            Some(home) => Some(joined(joined(home, fallback), APP_DIR@)),
            None => None,
        },
    }
}

fn app_dir(
    xdg_value: &Option<Vec<u8>>,
    home: &Option<Vec<u8>>,
    xdg_name: &str,
    fallback: &str,
) -> (result: Result<Vec<u8>, String>)
    ensures
        resolves(app_path(*xdg_value, *home, fallback@), xdg_name@, result),
{
    match non_empty_env(xdg_value) {
        Some(dir) => Ok(join(&dir, APP_DIR)),
        None => match home_dir_from_env(home, xdg_name) {
            Ok(home) => {
                let base = join(&home, fallback);
                Ok(join(&base, APP_DIR))
            },
            Err(message) => Err(message),
        },
    }
}

/// A path is found, or it is told which variable is missing.
pub open spec fn resolves(
    path: Option<Seq<u8>>,
    xdg_name: Seq<char>,
    result: Result<Vec<u8>, String>,
) -> bool {
    match result {
        Ok(found) => path == Some(found@),
        Err(message) => path is None && message@ == home_fault(xdg_name),
    }
}

/// `$XDG_DATA_HOME/cue-shell` (fallback `~/.local/share/cue-shell`).
pub fn data_dir_from_env(xdg_data_home: &Option<Vec<u8>>, home: &Option<Vec<u8>>) -> (result:
    Result<Vec<u8>, String>)
    ensures
        resolves(app_path(*xdg_data_home, *home, ".local/share"@), "XDG_DATA_HOME"@, result),
{
    app_dir(xdg_data_home, home, "XDG_DATA_HOME", ".local/share")
}

/// A path under another, if that is known.
pub open spec fn under(path: Option<Seq<u8>>, relative: Seq<char>) -> Option<Seq<u8>> {
    match path {
        Some(path) => Some(joined(path, relative)),
        None => None,
    }
}

/// SQLite database path: `<data_dir>/cued.db`.
pub fn db_path(xdg_data_home: &Option<Vec<u8>>, home: &Option<Vec<u8>>) -> (result: Result<
    Vec<u8>,
    String,
>)
    ensures
        resolves(
            under(app_path(*xdg_data_home, *home, ".local/share"@), "cued.db"@),
            "XDG_DATA_HOME"@,
            result,
        ),
{
    match data_dir_from_env(xdg_data_home, home) {
        Ok(dir) => Ok(join(&dir, "cued.db")),
        Err(message) => Err(message),
    }
}

/// Output spool directory: `<data_dir>/output`.
pub fn output_dir(xdg_data_home: &Option<Vec<u8>>, home: &Option<Vec<u8>>) -> (result: Result<
    Vec<u8>,
    String,
>)
    ensures
        resolves(
            under(app_path(*xdg_data_home, *home, ".local/share"@), "output"@),
            "XDG_DATA_HOME"@,
            result,
        ),
{
    match data_dir_from_env(xdg_data_home, home) {
        Ok(dir) => Ok(join(&dir, "output")),
        Err(message) => Err(message),
    }
}

/// `$XDG_STATE_HOME/cue-shell` (fallback `~/.local/state/cue-shell`).
pub fn state_dir_from_env(xdg_state_home: &Option<Vec<u8>>, home: &Option<Vec<u8>>) -> (result:
    Result<Vec<u8>, String>)
    ensures
        resolves(app_path(*xdg_state_home, *home, ".local/state"@), "XDG_STATE_HOME"@, result),
{
    app_dir(xdg_state_home, home, "XDG_STATE_HOME", ".local/state")
}

/// Log file path: `<state_dir>/cued.log`.
pub fn log_path(xdg_state_home: &Option<Vec<u8>>, home: &Option<Vec<u8>>) -> (result: Result<
    Vec<u8>,
    String,
>)
    ensures
        resolves(
            under(app_path(*xdg_state_home, *home, ".local/state"@), "cued.log"@),
            "XDG_STATE_HOME"@,
            result,
        ),
{
    match state_dir_from_env(xdg_state_home, home) {
        Ok(dir) => Ok(join(&dir, "cued.log")),
        Err(message) => Err(message),
    }
}

/// `$XDG_CONFIG_HOME/cue-shell` (fallback `~/.config/cue-shell`).
pub fn config_dir_from_env(xdg_config_home: &Option<Vec<u8>>, home: &Option<Vec<u8>>) -> (result:
    Result<Vec<u8>, String>)
    ensures
        resolves(app_path(*xdg_config_home, *home, ".config"@), "XDG_CONFIG_HOME"@, result),
{
    app_dir(xdg_config_home, home, "XDG_CONFIG_HOME", ".config")
}

/// A file that belongs to a database.
pub fn database_sidecar_path(path: &Vec<u8>, suffix: &str) -> (result: Vec<u8>)
    ensures
        result@ == path@ + text::utf8(suffix@),
{
    with_suffix(path, suffix)
}

/// What the environment says about the daemon's directories.
#[derive(Clone, PartialEq, Eq, Debug)]
pub struct DirEnv {
    pub xdg_runtime_dir: Option<Vec<u8>>,
    pub temp_dir: Vec<u8>,
    pub xdg_data_home: Option<Vec<u8>>,
    pub xdg_state_home: Option<Vec<u8>>,
    pub xdg_config_home: Option<Vec<u8>>,
    pub home: Option<Vec<u8>>,
}

/// The directories of the daemon.
#[derive(Clone, PartialEq, Eq, Debug)]
pub struct DirectoryLayout {
    pub runtime: Vec<u8>,
    pub sandbox: Vec<u8>,
    pub data: Vec<u8>,
    pub output: Vec<u8>,
    pub state: Vec<u8>,
    pub config: Vec<u8>,
}

/// The first variable that is missing for the daemon's directories.
pub open spec fn missing_variable(env: DirEnv) -> Option<Seq<char>> {
    if app_path(env.xdg_data_home, env.home, ".local/share"@) is None {
        Some("XDG_DATA_HOME"@)
    } else if app_path(env.xdg_state_home, env.home, ".local/state"@) is None {
        Some("XDG_STATE_HOME"@)
    } else if app_path(env.xdg_config_home, env.home, ".config"@) is None {
        Some("XDG_CONFIG_HOME"@)
    } else {
        None
    }
}

/// The directories that the daemon needs.
pub fn directory_layout(env: &DirEnv) -> (result: Result<DirectoryLayout, String>)
    ensures
        match result {
            Ok(layout) => {
                let data = app_path(env.xdg_data_home, env.home, ".local/share"@);
                let state = app_path(env.xdg_state_home, env.home, ".local/state"@);
                let config = app_path(env.xdg_config_home, env.home, ".config"@);
                &&& missing_variable(*env) is None
                &&& layout.runtime@ == runtime_path(env.xdg_runtime_dir, env.temp_dir@)
                &&& layout.sandbox@ == joined(layout.runtime@, "sandbox"@)
                &&& data == Some(layout.data@)
                &&& layout.output@ == joined(layout.data@, "output"@)
                &&& state == Some(layout.state@)
                &&& config == Some(layout.config@)
            },
            Err(message) => missing_variable(*env) matches Some(name) && message@ == home_fault(
                name,
            ),
        },
{
    let runtime = runtime_dir_from_env(&env.xdg_runtime_dir, &env.temp_dir);
    let sandbox = runtime_sandbox_dir(&env.xdg_runtime_dir, &env.temp_dir);
    let data = match data_dir_from_env(&env.xdg_data_home, &env.home) {
        Ok(dir) => dir,
        Err(message) => return Err(message),
    };
    let output = match output_dir(&env.xdg_data_home, &env.home) {
        Ok(dir) => dir,
        Err(message) => return Err(message),
    };
    let state = match state_dir_from_env(&env.xdg_state_home, &env.home) {
        Ok(dir) => dir,
        Err(message) => return Err(message),
    };
    let config = match config_dir_from_env(&env.xdg_config_home, &env.home) {
        Ok(dir) => dir,
        Err(message) => return Err(message),
    };
    Ok(DirectoryLayout { runtime, sandbox, data, output, state, config })
}

impl DirectoryLayout {
    /// The directories, in the order in which they are made.
    pub open spec fn directory_paths(&self) -> Seq<Seq<u8>> {
        seq![self.runtime@, self.sandbox@, self.data@, self.output@, self.state@, self.config@]
    }

    /// The files that are made private where they exist.
    pub open spec fn file_paths(&self) -> Seq<Seq<u8>> {
        let socket = joined(self.runtime@, "cued.sock"@);
        let database = joined(self.data@, "cued.db"@);
        seq![
            joined(self.runtime@, "cued.pid"@),
            socket + text::utf8(".cued.pid"@),
            socket + text::utf8(".cued.lock"@),
            database,
            database + text::utf8("-wal"@),
            database + text::utf8("-shm"@),
            joined(self.data@, "input-history.json"@),
            joined(self.state@, "cued.log"@),
            joined(self.config@, "daemon.toml"@),
        ]
    }

    /// The directories that are made, and made private, in order.
    pub fn private_directories(&self) -> (paths: Vec<Vec<u8>>)
        ensures
            bytes::blobs(paths@) == self.directory_paths(),
    {
        let mut paths: Vec<Vec<u8>> = Vec::new();
        paths.push(copy_blob(&self.runtime));
        paths.push(copy_blob(&self.sandbox));
        paths.push(copy_blob(&self.data));
        paths.push(copy_blob(&self.output));
        paths.push(copy_blob(&self.state));
        paths.push(copy_blob(&self.config));
        assert(bytes::blobs(paths@) =~= self.directory_paths());
        paths
    }

    /// The files that are made private where they exist, besides those of the output directory.
    pub fn private_files(&self) -> (paths: Vec<Vec<u8>>)
        ensures
            bytes::blobs(paths@) == self.file_paths(),
    {
        let socket = join(&self.runtime, "cued.sock");
        let database = join(&self.data, "cued.db");
        let mut paths: Vec<Vec<u8>> = Vec::new();
        paths.push(join(&self.runtime, "cued.pid"));
        paths.push(pid_path_for_socket(&socket));
        paths.push(lock_path_for_socket(&socket));
        paths.push(copy_blob(&database));
        paths.push(database_sidecar_path(&database, "-wal"));
        paths.push(database_sidecar_path(&database, "-shm"));
        paths.push(join(&self.data, "input-history.json"));
        paths.push(join(&self.state, "cued.log"));
        paths.push(join(&self.config, "daemon.toml"));
        assert(bytes::blobs(paths@) =~= self.file_paths());
        paths
    }
}

/// The files of a database that are made private: itself and its two sidecars.
pub fn database_files(path: &Vec<u8>) -> (paths: Vec<Vec<u8>>)
    ensures
        bytes::blobs(paths@) == seq![
            path@,
            path@ + text::utf8("-wal"@),
            path@ + text::utf8("-shm"@),
        ],
{
    let mut paths: Vec<Vec<u8>> = Vec::new();
    paths.push(copy_blob(path));
    paths.push(database_sidecar_path(path, "-wal"));
    paths.push(database_sidecar_path(path, "-shm"));
    assert(bytes::blobs(paths@) =~= seq![
        path@,
        path@ + text::utf8("-wal"@),
        path@ + text::utf8("-shm"@),
    ]);
    paths
}

/// What may stand where a private file is expected.
#[derive(Clone, Copy, PartialEq, Eq, Structural, Debug)]
pub enum PathKind {
    Missing,
    Symlink,
    Other,
}

/// What is done about a file that is to be private.
#[derive(Clone, PartialEq, Eq, Debug)]
pub enum SecureFile {
    /// There is nothing to secure.
    Skip,
    /// Give it the private mode.
    Restrict,
    Refuse { message: String },
}

/// Decides what is done about a file that is to be private. A symbolic link is refused: it may lead
/// to a file of someone else.
pub fn secure_private_file(kind: PathKind, shown: &str) -> (step: SecureFile)
    ensures
        match kind {
            PathKind::Missing => step == SecureFile::Skip,
            PathKind::Other => step == SecureFile::Restrict,
            PathKind::Symlink => step matches SecureFile::Refuse { message } && message@
                == "refusing to use symlinked private path "@ + shown@,
        },
{
    match kind {
        PathKind::Missing => SecureFile::Skip,
        PathKind::Other => SecureFile::Restrict,
        PathKind::Symlink => SecureFile::Refuse {
            message: text::join2("refusing to use symlinked private path ", shown),
        },
    }
}

/// A variable counts as set exactly where it has a value that is not empty, and then that counts.
pub proof fn empty_variable_is_not_set(value: &Option<Vec<u8>>, result: Option<Vec<u8>>)
    requires
        call_ensures(non_empty_env, (value,), result),
    ensures
        result is Some <==> (*value matches Some(set) && set@.len() > 0),
        result is Some ==> result->0@ == (*value)->0@,
{
}

/// A path leads on from a directory behind exactly one slash.
pub proof fn joined_path_has_one_slash(path: Seq<u8>, relative: Seq<char>)
    requires
        path.len() > 0,
    ensures
        joined(path, relative) == if path.last() == 47 {
            path
        } else {
            path.push(47)
        } + text::utf8(relative),
        joined(path, relative) == joined(
            if path.last() == 47 {
                path
            } else {
                path.push(47)
            },
            relative,
        ),
{
}

/// The directory of the socket stands under the runtime directory of the user, if that is set, and
/// under the directory for temporary files otherwise. What belongs to a socket stands beside it.
pub proof fn runtime_files_stand_together(
    xdg_runtime_dir: &Option<Vec<u8>>,
    temp_dir: &Vec<u8>,
    dir: Vec<u8>,
    socket: Vec<u8>,
    pid: Vec<u8>,
    lock: Vec<u8>,
    sandbox: Vec<u8>,
)
    requires
        call_ensures(runtime_dir_from_env, (xdg_runtime_dir, temp_dir), dir),
        call_ensures(socket_path, (xdg_runtime_dir, temp_dir), socket),
        call_ensures(pid_path_for_socket, (&socket,), pid),
        call_ensures(lock_path_for_socket, (&socket,), lock),
        call_ensures(runtime_sandbox_dir, (xdg_runtime_dir, temp_dir), sandbox),
    ensures
        dir@ == joined(
            if *xdg_runtime_dir is Some && (*xdg_runtime_dir)->0@.len() > 0 {
                (*xdg_runtime_dir)->0@
            } else {
                temp_dir@
            },
            "cue-shell"@,
        ),
        socket@ == joined(dir@, "cued.sock"@),
        sandbox@ == joined(dir@, "sandbox"@),
        pid@.skip(socket@.len() as int) == text::utf8(".cued.pid"@),
        lock@.skip(socket@.len() as int) == text::utf8(".cued.lock"@),
        pid@.take(socket@.len() as int) == socket@,
        lock@.take(socket@.len() as int) == socket@,
{
    let n = socket@.len() as int;
    assert(pid@.skip(n) =~= text::utf8(".cued.pid"@));
    assert(lock@.skip(n) =~= text::utf8(".cued.lock"@));
    assert(pid@.take(n) =~= socket@);
    assert(lock@.take(n) =~= socket@);
}

/// A variable that names a directory decides, whatever the home directory is. Without it the
/// directory stands at its own place under the home directory, and without that too there is none.
pub proof fn variable_decides_before_the_home(
    xdg: &Option<Vec<u8>>,
    home: &Option<Vec<u8>>,
    data: Result<Vec<u8>, String>,
    state: Result<Vec<u8>, String>,
    config: Result<Vec<u8>, String>,
)
    requires
        call_ensures(data_dir_from_env, (xdg, home), data),
        call_ensures(state_dir_from_env, (xdg, home), state),
        call_ensures(config_dir_from_env, (xdg, home), config),
    ensures
        ({
            let given = *xdg is Some && (*xdg)->0@.len() > 0;
            let housed = *home is Some && (*home)->0@.len() > 0;
            &&& data is Ok <==> given || housed
            &&& state is Ok <==> given || housed
            &&& config is Ok <==> given || housed
            &&& given ==> data->Ok_0@ == joined((*xdg)->0@, "cue-shell"@) && state->Ok_0@
                == data->Ok_0@ && config->Ok_0@ == data->Ok_0@
            &&& !given && housed ==> data->Ok_0@ == joined(
                joined((*home)->0@, ".local/share"@),
                "cue-shell"@,
            )
            &&& !given && housed ==> state->Ok_0@ == joined(
                joined((*home)->0@, ".local/state"@),
                "cue-shell"@,
            )
            &&& !given && housed ==> config->Ok_0@ == joined(
                joined((*home)->0@, ".config"@),
                "cue-shell"@,
            )
        }),
{
}

/// The database and the output stand in the directory for data, and the log in that for state; each is
/// found exactly where its directory is.
pub proof fn files_stand_in_their_directories(
    xdg: &Option<Vec<u8>>,
    home: &Option<Vec<u8>>,
    data: Result<Vec<u8>, String>,
    state: Result<Vec<u8>, String>,
    database: Result<Vec<u8>, String>,
    output: Result<Vec<u8>, String>,
    log: Result<Vec<u8>, String>,
)
    requires
        call_ensures(data_dir_from_env, (xdg, home), data),
        call_ensures(state_dir_from_env, (xdg, home), state),
        call_ensures(db_path, (xdg, home), database),
        call_ensures(output_dir, (xdg, home), output),
        call_ensures(log_path, (xdg, home), log),
    ensures
        database is Ok <==> data is Ok,
        output is Ok <==> data is Ok,
        log is Ok <==> state is Ok,
        data is Ok ==> database->Ok_0@ == joined(data->Ok_0@, "cued.db"@),
        data is Ok ==> output->Ok_0@ == joined(data->Ok_0@, "output"@),
        state is Ok ==> log->Ok_0@ == joined(state->Ok_0@, "cued.log"@),
{
}

/// The layout of the daemon is what its directories are one by one, and there is none exactly where one
/// of them is missing.
pub proof fn layout_gathers_the_directories(
    env: &DirEnv,
    result: Result<DirectoryLayout, String>,
    runtime: Vec<u8>,
    data: Result<Vec<u8>, String>,
    state: Result<Vec<u8>, String>,
    config: Result<Vec<u8>, String>,
)
    requires
        call_ensures(directory_layout, (env,), result),
        call_ensures(runtime_dir_from_env, (&env.xdg_runtime_dir, &env.temp_dir), runtime),
        call_ensures(data_dir_from_env, (&env.xdg_data_home, &env.home), data),
        call_ensures(state_dir_from_env, (&env.xdg_state_home, &env.home), state),
        call_ensures(config_dir_from_env, (&env.xdg_config_home, &env.home), config),
    ensures
        result is Ok <==> data is Ok && state is Ok && config is Ok,
        result matches Ok(layout) ==> layout.runtime@ == runtime@ && layout.data@ == data->Ok_0@
            && layout.state@ == state->Ok_0@ && layout.config@ == config->Ok_0@ && layout.sandbox@
            == joined(runtime@, "sandbox"@) && layout.output@ == joined(data->Ok_0@, "output"@),
{
}

/// Every directory of the layout is made private, and so are the files that hold what others must not
/// read: the database with its sidecars, the markers of the socket, the log and the configuration.
pub proof fn everything_of_the_layout_is_private(
    layout: &DirectoryLayout,
    directories: Vec<Vec<u8>>,
    files: Vec<Vec<u8>>,
)
    requires
        call_ensures(DirectoryLayout::private_directories, (layout,), directories),
        call_ensures(DirectoryLayout::private_files, (layout,), files),
    ensures
        ({
            let made = bytes::blobs(directories@);
            &&& made.contains(layout.runtime@)
            &&& made.contains(layout.sandbox@)
            &&& made.contains(layout.data@)
            &&& made.contains(layout.output@)
            &&& made.contains(layout.state@)
            &&& made.contains(layout.config@)
            &&& made.len() == 6
        }),
        ({
            let secured = bytes::blobs(files@);
            let socket = joined(layout.runtime@, "cued.sock"@);
            let database = joined(layout.data@, "cued.db"@);
            &&& secured.contains(database)
            &&& secured.contains(database + text::utf8("-wal"@))
            &&& secured.contains(database + text::utf8("-shm"@))
            &&& secured.contains(socket + text::utf8(".cued.pid"@))
            &&& secured.contains(socket + text::utf8(".cued.lock"@))
            &&& secured.contains(joined(layout.runtime@, "cued.pid"@))
            &&& secured.contains(joined(layout.data@, "input-history.json"@))
            &&& secured.contains(joined(layout.state@, "cued.log"@))
            &&& secured.contains(joined(layout.config@, "daemon.toml"@))
        }),
{
    let made = bytes::blobs(directories@);
    assert(made[0] == layout.runtime@ && made[1] == layout.sandbox@ && made[2] == layout.data@);
    assert(made[3] == layout.output@ && made[4] == layout.state@ && made[5] == layout.config@);
    let secured = bytes::blobs(files@);
    let socket = joined(layout.runtime@, "cued.sock"@);
    let database = joined(layout.data@, "cued.db"@);
    assert(secured[0] == joined(layout.runtime@, "cued.pid"@));
    assert(secured[1] == socket + text::utf8(".cued.pid"@));
    assert(secured[2] == socket + text::utf8(".cued.lock"@));
    assert(secured[3] == database);
    assert(secured[4] == database + text::utf8("-wal"@));
    assert(secured[5] == database + text::utf8("-shm"@));
    assert(secured[6] == joined(layout.data@, "input-history.json"@));
    assert(secured[7] == joined(layout.state@, "cued.log"@));
    assert(secured[8] == joined(layout.config@, "daemon.toml"@));
}

/// A database is secured together with its two sidecars.
pub proof fn database_is_secured_with_its_sidecars(path: &Vec<u8>, paths: Vec<Vec<u8>>)
    requires
        call_ensures(database_files, (path,), paths),
    ensures
        paths@.len() == 3,
        bytes::blobs(paths@).contains(path@),
        bytes::blobs(paths@).contains(path@ + text::utf8("-wal"@)),
        bytes::blobs(paths@).contains(path@ + text::utf8("-shm"@)),
{
    let all = bytes::blobs(paths@);
    assert(all[0] == path@);
    assert(all[1] == path@ + text::utf8("-wal"@));
    assert(all[2] == path@ + text::utf8("-shm"@));
    assert(all.len() == paths@.len());
}

/// A symbolic link is never followed to make a file private; what is there otherwise is restricted, and
/// nothing is made where there is nothing.
pub proof fn links_are_never_followed(kind: PathKind, shown: &str, step: SecureFile)
    requires
        call_ensures(secure_private_file, (kind, shown), step),
    ensures
        step is Refuse <==> kind is Symlink,
        step is Skip <==> kind is Missing,
        step is Restrict <==> kind is Other,
{
}

/// Private means that only the owner may read and write, and enter a directory; nobody else may do
/// anything.
pub proof fn private_modes_are_for_the_owner()
    ensures
        PRIVATE_DIR_MODE % 64 == 0,
        PRIVATE_FILE_MODE % 64 == 0,
        PRIVATE_DIR_MODE / 64 == 4 + 2 + 1,
        PRIVATE_FILE_MODE / 64 == 4 + 2,
{
}

} // verus!
