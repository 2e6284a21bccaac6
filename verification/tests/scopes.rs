use cue_daemon::digest::Digest;
use cue_daemon::ordered_map::OrderedMap;
use cue_daemon::scope_store::{
    create_and_persist_root_scope, load_initial_scope, HeadChange, NamedScope, ScopeInfo,
    ScopeStore, SCOPES_CHANNEL,
};
use cue_daemon::storage::scopes::{EnvSnapshot, Scope};

fn digest(byte: u8) -> Digest {
    Digest { bytes: [byte; 32] }
}

fn named(byte: u8, parent: Option<u8>, cwd: &str) -> NamedScope {
    let mut env = OrderedMap::new();
    env.insert("PATH".to_string(), "/usr/bin".to_string());
    NamedScope {
        scope: Scope {
            hash: digest(byte),
            parent: parent.map(digest),
            delta: None,
            snapshot: Some(EnvSnapshot {
                env,
                cwd: cwd.to_string(),
            }),
        },
        name: format!("S{byte}"),
        parent_name: parent.map(|parent| format!("S{parent}")),
    }
}

fn without_snapshot(byte: u8) -> NamedScope {
    let mut scope = named(byte, None, "/tmp");
    scope.scope.snapshot = None;
    scope
}

fn store() -> ScopeStore {
    create_and_persist_root_scope(named(1, None, "/tmp/root"), Ok(())).expect("a root scope")
}

#[test]
fn load_initial_scope_restores_persisted_head() {
    let store = load_initial_scope(
        Some((digest(5), "S5".into())),
        Some(named(5, None, "/tmp/persisted")),
    )
    .unwrap()
    .expect("restored");

    assert_eq!(store.head(), digest(5));
    let restored = store.cached(&digest(5)).expect("restored scope in cache");
    assert_eq!(restored.scope.hash, digest(5));
    let snapshot = store.head_snapshot().expect("a snapshot");
    assert_eq!(snapshot.cwd, "/tmp/persisted");
    assert_eq!(snapshot.env.get("PATH"), Some(&"/usr/bin".to_string()));
}

#[test]
fn load_initial_scope_without_a_head_restores_nothing() {
    assert!(load_initial_scope(None, None).unwrap().is_none());
}

#[test]
fn load_initial_scope_rejects_missing_persisted_head() {
    let error = load_initial_scope(Some((digest(7), "S7".into())), None)
        .expect_err("missing persisted head should fail");

    assert!(error.contains("persisted head scope"));
    assert!(error.contains("is missing"));
}

#[test]
fn load_initial_scope_rejects_head_without_snapshot() {
    let error = load_initial_scope(Some((digest(8), "S8".into())), Some(without_snapshot(8)))
        .expect_err("snapshotless persisted head should fail");

    assert!(error.contains("has no snapshot"));
}

#[test]
fn fork_reports_persist_error_without_advancing_head() {
    let mut store = store();
    let original_head = store.head();
    assert_eq!(store.fork_base().unwrap().cwd, "/tmp/root");

    let error = store
        .fork_stored(named(2, Some(1), "/tmp/root"), Err("no such table: scopes".into()))
        .expect_err("fork should report persistence failure");

    assert_eq!(error, "persist forked scope S2: no such table: scopes");
    assert_eq!(store.head(), original_head);
    assert!(store.cached(&digest(2)).is_none());
}

#[test]
fn stored_fork_becomes_the_head() {
    let mut store = store();
    let change = store
        .fork_stored(named(2, Some(1), "/tmp/child"), Ok(()))
        .unwrap();

    assert_eq!(
        change,
        HeadChange {
            old_hash: "S1".into(),
            new_hash: "S2".into(),
        }
    );
    assert_eq!(store.head(), digest(2));
    assert_eq!(store.head_snapshot().unwrap().cwd, "/tmp/child");
    assert!(store.cached(&digest(1)).is_some());
}

#[test]
fn get_scope_reports_storage_errors() {
    let mut store = store();
    let error = store
        .scope_loaded(Err("no such table: scopes".into()))
        .expect_err("storage failure should be reported");

    assert!(error.contains("no such table"));
    assert_eq!(store.scope_loaded(Ok(None)), Ok(None));
    assert_eq!(
        store.scope_loaded(Ok(Some(named(9, None, "/tmp")))),
        Ok(Some(digest(9)))
    );
    assert!(store.cached(&digest(9)).is_some());
    assert_eq!(store.head(), digest(1));
}

#[test]
fn new_root_replaces_the_head_once_it_is_stored() {
    let mut store = store();
    assert_eq!(
        store.root_stored(named(3, None, "/tmp"), Err("disk full".into())),
        Err("persist root scope S3: disk full".to_string())
    );
    assert_eq!(store.head(), digest(1));

    let change = store.root_stored(named(3, None, "/tmp"), Ok(())).unwrap();
    assert_eq!(change.old_hash, "S1");
    assert_eq!(change.new_hash, "S3");
    assert_eq!(store.head(), digest(3));
}

#[test]
fn derived_scopes_leave_the_head() {
    let mut store = store();
    assert_eq!(
        store.derive_base(&digest(6), "S6", Ok(None)),
        Err("scope S6 not found".to_string())
    );
    assert_eq!(
        store.derive_base(&digest(6), "S6", Ok(Some(without_snapshot(6)))),
        Err("scope S6 has no snapshot".to_string())
    );
    assert_eq!(store.derive_base(&digest(1), "S1", Ok(None)), Ok(digest(1)));

    assert_eq!(
        store.derived_stored(named(4, Some(1), "/tmp"), Err("disk full".into())),
        Err("persist derived scope S4: disk full".to_string())
    );
    assert_eq!(
        store.derived_stored(named(4, Some(1), "/tmp"), Ok(())),
        Ok(digest(4))
    );
    assert_eq!(store.head(), digest(1));
    assert!(store.cached(&digest(4)).is_some());
}

#[test]
fn scopes_are_listed_in_the_order_of_their_names() {
    let mut store = create_and_persist_root_scope(named(3, None, "/tmp/c"), Ok(())).unwrap();
    store.fork_stored(named(1, Some(3), "/tmp/a"), Ok(())).unwrap();
    store.scope_loaded(Ok(Some(without_snapshot(2)))).unwrap();

    let infos = store.list_scopes();
    let names: Vec<&str> = infos.iter().map(|info| info.hash.as_str()).collect();
    assert_eq!(names, vec!["S1", "S2", "S3"]);
    assert_eq!(
        infos[0],
        ScopeInfo {
            hash: "S1".into(),
            parent: Some("S3".into()),
            cwd: "/tmp/a".into(),
            env_count: 1,
        }
    );
    assert_eq!(
        infos[1],
        ScopeInfo {
            hash: "S2".into(),
            parent: None,
            cwd: String::new(),
            env_count: 0,
        }
    );
    assert_eq!(SCOPES_CHANNEL, "scopes");
}
