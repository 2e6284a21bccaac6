use cue_daemon::dirs::{
    config_dir_from_env, data_dir_from_env, database_files, database_sidecar_path, db_path,
    directory_layout, home_dir_from_env, lock_path_for_socket, log_path, non_empty_env,
    output_dir, pid_path_for_socket, runtime_dir_from_env, runtime_sandbox_dir,
    secure_private_file, socket_path, state_dir_from_env, DirEnv, PathKind, SecureFile, APP_DIR,
    PRIVATE_DIR_MODE, PRIVATE_FILE_MODE,
};
use cue_daemon::paths::same_path;

fn bytes(text: &str) -> Vec<u8> {
    text.as_bytes().to_vec()
}

fn env(text: &str) -> Option<Vec<u8>> {
    Some(bytes(text))
}

fn default_socket() -> Vec<u8> {
    socket_path(&None, &bytes("/tmp"))
}

#[test]
fn socket_path_ends_with_sock() {
    let path = default_socket();
    assert!(path.ends_with(b"/cued.sock"), "got: {path:?}");
    assert_eq!(path, bytes("/tmp/cue-shell/cued.sock"));
}

#[test]
fn pid_path_sibling_of_socket() {
    let socket = default_socket();
    let pid = pid_path_for_socket(&socket);
    let cut = |path: &[u8]| path.iter().rposition(|byte| *byte == b'/').expect("a directory");
    assert_eq!(socket[..cut(&socket)], pid[..cut(&pid)]);
    assert_eq!(pid[cut(&pid) + 1..].to_vec(), bytes("cued.sock.cued.pid"));
}

#[test]
fn custom_socket_gets_isolated_pid_and_lock_paths() {
    let socket = bytes("/tmp/cue-tests/custom-worker.sock");

    assert_eq!(
        pid_path_for_socket(&socket),
        bytes("/tmp/cue-tests/custom-worker.sock.cued.pid")
    );
    assert_eq!(
        lock_path_for_socket(&socket),
        bytes("/tmp/cue-tests/custom-worker.sock.cued.lock")
    );
    assert_ne!(
        pid_path_for_socket(&socket),
        pid_path_for_socket(&default_socket())
    );
}

#[test]
fn marker_paths_preserve_the_full_socket_filename() {
    let first = bytes("/tmp/cue-tests/foo.sock");
    let second = bytes("/tmp/cue-tests/foo.other");

    assert_ne!(pid_path_for_socket(&first), pid_path_for_socket(&second));
    assert_ne!(lock_path_for_socket(&first), lock_path_for_socket(&second));
}

#[test]
fn db_inside_data_dir() {
    let data = data_dir_from_env(&None, &env("/home/test")).unwrap();
    let db = db_path(&None, &env("/home/test")).unwrap();
    assert!(db.starts_with(&data), "db={db:?}, data={data:?}");
    assert_eq!(db, bytes("/home/test/.local/share/cue-shell/cued.db"));
    assert_eq!(
        output_dir(&None, &env("/home/test")).unwrap(),
        bytes("/home/test/.local/share/cue-shell/output")
    );
}

#[test]
fn xdg_overrides() {
    assert_eq!(
        runtime_dir_from_env(&env("/runtime"), &bytes("/tmp")),
        bytes(&format!("/runtime/{APP_DIR}"))
    );
    assert_eq!(
        data_dir_from_env(&env("/data"), &None).unwrap(),
        bytes(&format!("/data/{APP_DIR}"))
    );
    assert_eq!(
        state_dir_from_env(&env("/state"), &None).unwrap(),
        bytes(&format!("/state/{APP_DIR}"))
    );
    assert_eq!(
        config_dir_from_env(&env("/config"), &None).unwrap(),
        bytes(&format!("/config/{APP_DIR}"))
    );
}

#[test]
fn home_gives_the_defaults() {
    assert_eq!(
        state_dir_from_env(&None, &env("/home/test")).unwrap(),
        bytes("/home/test/.local/state/cue-shell")
    );
    assert_eq!(
        log_path(&None, &env("/home/test")).unwrap(),
        bytes("/home/test/.local/state/cue-shell/cued.log")
    );
    assert_eq!(
        config_dir_from_env(&env(""), &env("/home/test")).unwrap(),
        bytes("/home/test/.config/cue-shell")
    );
    assert_eq!(
        data_dir_from_env(&env("/data/"), &None).unwrap(),
        bytes("/data/cue-shell")
    );
}

#[test]
fn runtime_dir_uses_temp_dir_when_xdg_runtime_is_missing_or_empty() {
    assert_eq!(
        runtime_dir_from_env(&None, &bytes("/tmp")),
        bytes(&format!("/tmp/{APP_DIR}"))
    );
    assert_eq!(
        runtime_dir_from_env(&env(""), &bytes("/tmp")),
        bytes(&format!("/tmp/{APP_DIR}"))
    );
    assert_eq!(
        runtime_sandbox_dir(&None, &bytes("/tmp")),
        bytes("/tmp/cue-shell/sandbox")
    );
    assert_eq!(non_empty_env(&env("")), None);
    assert_eq!(non_empty_env(&env("a")), env("a"));
}

#[test]
fn persistent_dirs_require_home_when_xdg_override_is_missing() {
    let data_error = data_dir_from_env(&None, &None).expect_err("missing data base should fail");
    let state_error =
        state_dir_from_env(&None, &None).expect_err("missing state base should fail");
    let config_error =
        config_dir_from_env(&None, &None).expect_err("missing config base should fail");

    assert!(data_error.contains("XDG_DATA_HOME"));
    assert!(state_error.contains("XDG_STATE_HOME"));
    assert!(config_error.contains("XDG_CONFIG_HOME"));
}

#[test]
fn persistent_dirs_reject_empty_home() {
    let error = home_dir_from_env(&env(""), "XDG_DATA_HOME").expect_err("empty HOME should fail");

    assert!(error.contains("HOME is not set"));
    assert_eq!(
        home_dir_from_env(&env("/home/test"), "XDG_DATA_HOME"),
        Ok(bytes("/home/test"))
    );
}

#[test]
fn layout_names_what_is_kept_private() {
    let layout = directory_layout(&DirEnv {
        xdg_runtime_dir: env("/runtime"),
        temp_dir: bytes("/tmp"),
        xdg_data_home: env("/data"),
        xdg_state_home: env("/state"),
        xdg_config_home: env("/config"),
        home: None,
    })
    .unwrap();
    assert_eq!(
        layout.private_directories(),
        vec![
            bytes("/runtime/cue-shell"),
            bytes("/runtime/cue-shell/sandbox"),
            bytes("/data/cue-shell"),
            bytes("/data/cue-shell/output"),
            bytes("/state/cue-shell"),
            bytes("/config/cue-shell"),
        ]
    );
    let files = layout.private_files();
    for file in [
        "/runtime/cue-shell/cued.pid",
        "/runtime/cue-shell/cued.sock.cued.pid",
        "/runtime/cue-shell/cued.sock.cued.lock",
        "/data/cue-shell/cued.db",
        "/data/cue-shell/cued.db-wal",
        "/data/cue-shell/cued.db-shm",
        "/data/cue-shell/input-history.json",
        "/state/cue-shell/cued.log",
        "/config/cue-shell/daemon.toml",
    ] {
        assert!(files.contains(&bytes(file)), "{file}");
    }
    assert_eq!(PRIVATE_DIR_MODE, 0o700);
    assert_eq!(PRIVATE_FILE_MODE, 0o600);
}

#[test]
fn layout_needs_every_base() {
    let mut dirs = DirEnv {
        xdg_runtime_dir: None,
        temp_dir: bytes("/tmp"),
        xdg_data_home: env("/data"),
        xdg_state_home: None,
        xdg_config_home: env("/config"),
        home: None,
    };
    assert!(directory_layout(&dirs).unwrap_err().contains("XDG_STATE_HOME"));
    dirs.home = env("/home/test");
    assert_eq!(
        directory_layout(&dirs).unwrap().state,
        bytes("/home/test/.local/state/cue-shell")
    );
}

#[test]
fn database_has_its_sidecars() {
    let db = bytes("/data/cued.db");
    assert_eq!(database_sidecar_path(&db, "-wal"), bytes("/data/cued.db-wal"));
    assert_eq!(
        database_files(&db),
        vec![
            bytes("/data/cued.db"),
            bytes("/data/cued.db-wal"),
            bytes("/data/cued.db-shm"),
        ]
    );
}

#[test]
fn private_files_are_never_reached_through_links() {
    assert_eq!(secure_private_file(PathKind::Missing, "/a"), SecureFile::Skip);
    assert_eq!(secure_private_file(PathKind::Other, "/a"), SecureFile::Restrict);
    match secure_private_file(PathKind::Symlink, "/a") {
        SecureFile::Refuse { message } => assert!(message.contains("/a"), "{message}"),
        other => panic!("{other:?}"),
    }
}

#[test]
fn paths_are_compared_by_component() {
    assert!(same_path(&bytes("/tmp/a"), &bytes("/tmp//a/")));
    assert!(same_path(&bytes("/tmp/./a"), &bytes("/tmp/a")));
    assert!(!same_path(&bytes("/tmp/a"), &bytes("tmp/a")));
    assert!(!same_path(&bytes("/tmp/a"), &bytes("/tmp/b")));
    assert!(!same_path(&bytes("/tmp/x/../a"), &bytes("/tmp/a")));
}
