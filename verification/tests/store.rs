use holdfast::store::{
    check_size, default_path, frame, unframe, v1_state_path, BoundedState, Change, ServerRecord,
    ShellRecord, Store, StoreData, StoreError, V1Shell, V1State, MAX_STATE_BYTES, STORE_VERSION,
    UPGRADE_WARNING,
};

fn new_store() -> Store {
    let loaded = Store::load(None, false, false).ok().unwrap();
    assert!(loaded.warning.is_none());
    loaded.store
}

/// Writes a change to the disk, which is what is kept here, and takes it over.
fn write(store: &mut Store, disk: &mut Option<StoreData>, change: Change) {
    *disk = Some(change.to_write());
    store.settle(change, true).unwrap();
}

fn reload(disk: &Option<StoreData>) -> Store {
    Store::load(disk.clone(), false, false).ok().unwrap().store
}

fn record() -> ServerRecord {
    ServerRecord {
        url: "https://example.test".into(),
        display_name: "example".into(),
        username: Some("alice".into()),
        ssh_key_path: Some("id_ed25519_sk".into()),
        remember_login: false,
        grant: None,
        shells: Vec::new(),
        pending_opens: Vec::new(),
    }
}

fn shell<'a>(server: &'a ServerRecord, id: &str) -> Option<&'a ShellRecord> {
    server.shells.iter().find(|(key, _)| key == id).map(|(_, shell)| shell)
}

#[test]
fn round_trip_add_update_remove() {
    let mut store = new_store();
    let mut disk = None;
    let (key, change) = store.add_server(ServerRecord {
        url: "https://a".into(),
        display_name: "a".into(),
        username: Some("alice".into()),
        ssh_key_path: None,
        remember_login: false,
        grant: None,
        shells: Vec::new(),
        pending_opens: Vec::new(),
    });
    write(&mut store, &mut disk, change);
    let change = store.push_pending_open(&key, "00ff", "build shell").ok().unwrap();
    write(&mut store, &mut disk, change);
    let change = store.resolve_pending_open(&key, "00ff", "aabb", b"tok", 42).ok().unwrap();
    write(&mut store, &mut disk, change);
    let change = store.update_token(&key, "aabb", b"tok2", 43).ok().unwrap();
    write(&mut store, &mut disk, change);

    let mut reloaded = reload(&disk);
    let server = reloaded.server(&key).unwrap();
    assert!(server.pending_opens.is_empty());
    let shell = shell(&server, "aabb").unwrap();
    assert_eq!(shell.name, "build shell");
    assert_eq!(shell.idempotency_key.as_deref(), Some("00ff"));
    assert_eq!(shell.last_attached_at_ms, 43);
    assert_eq!(shell.token, "dG9rMg==");

    let change = reloaded.remove_shell(&key, "aabb").ok().unwrap();
    write(&mut reloaded, &mut disk, change);
    let change = reloaded.remove_server(&key);
    write(&mut reloaded, &mut disk, change);
    assert!(reload(&disk).snapshot().servers.is_empty());
}

#[test]
fn newer_schema_is_refused() {
    let newer = StoreData { version: 99, servers: Vec::new() };
    assert!(matches!(
        Store::load(Some(newer), false, false),
        Err(StoreError::NewerSchema { version: 99 })
    ));
}

#[test]
fn v1_import_brings_over_shells_without_grants_once() {
    let mut store = new_store();
    let v1 = V1State {
        servers: vec![(
            "https://old".to_string(),
            vec![(
                "aa".to_string(),
                V1Shell {
                    token: "dG9r".to_string(),
                    name: "n".to_string(),
                    idempotency_key: Some("00ff".to_string()),
                },
            )],
        )],
        grants: vec!["https://old".to_string()],
    };
    let (count, change) = store.import_v1(&v1);
    assert_eq!(count, 1);
    store.settle(change.unwrap(), true).unwrap();
    let snap = store.snapshot();
    let (_, server) = snap.servers.iter().next().unwrap();
    assert_eq!(server.url, "https://old");
    assert!(server.grant.is_none());
    assert_eq!(shell(server, "aa").unwrap().idempotency_key.as_deref(), Some("00ff"));
    // Second import is a no-op (store no longer empty).
    assert_eq!(store.import_v1(&v1).0, 0);
}

#[test]
fn grant_is_available_for_reconnect_but_not_app_restart() {
    let mut store = new_store();
    let mut disk = None;
    let (key, change) = store.add_server(record());
    write(&mut store, &mut disk, change);
    let change = store.set_grant(&key, b"secret-grant").ok().unwrap();
    write(&mut store, &mut disk, change);
    assert!(store.server(&key).unwrap().grant.is_some());
    // Subsequent shell updates must not accidentally persist the runtime grant.
    let change = store.push_pending_open(&key, "recovery-secret", "build").ok().unwrap();
    write(&mut store, &mut disk, change);
    assert!(reload(&disk).server(&key).unwrap().grant.is_none());
}

#[test]
fn remembering_is_opt_in_and_disabling_removes_disk_grant_immediately() {
    let mut store = new_store();
    let mut disk = None;
    let (key, change) = store.add_server(record());
    write(&mut store, &mut disk, change);
    let change = store.set_grant(&key, b"secret-grant").ok().unwrap();
    write(&mut store, &mut disk, change);
    let change = store.set_remember_login(&key, true).ok().unwrap();
    write(&mut store, &mut disk, change);
    assert!(reload(&disk).server(&key).unwrap().grant.is_some());
    let change = store.set_remember_login(&key, false).ok().unwrap();
    write(&mut store, &mut disk, change);
    assert!(store.server(&key).unwrap().grant.is_some(), "in-process reconnect retained");
    assert!(reload(&disk).server(&key).unwrap().grant.is_none());
}

#[test]
fn legacy_grant_is_discarded_before_use_and_shell_recovery_survives() {
    let legacy = StoreData {
        version: 2,
        servers: vec![(
            "a".to_string(),
            ServerRecord {
                remember_login: true,
                grant: Some("legacy-secret".to_string()),
                shells: vec![(
                    "s".to_string(),
                    ShellRecord {
                        token: "shell-secret".to_string(),
                        idempotency_key: Some("recovery-secret".to_string()),
                        name: "build".to_string(),
                        last_attached_at_ms: 1,
                    },
                )],
                ..record()
            },
        )],
    };
    let loaded = Store::load(Some(legacy), true, false).ok().unwrap();
    assert_eq!(loaded.warning.as_deref(), Some(UPGRADE_WARNING));
    let server = loaded.store.server("a").unwrap();
    assert!(!server.remember_login);
    assert!(server.grant.is_none());
    assert_eq!(
        shell(&server, "s").unwrap().idempotency_key.as_deref(),
        Some("recovery-secret")
    );
    let disk = loaded.store.snapshot().persisted();
    assert_eq!(disk.version, STORE_VERSION);
    assert!(!format!("{disk:?}").contains("legacy-secret"));
    assert!(Store::load(Some(disk), true, true).ok().unwrap().warning.is_none());
}

#[test]
fn oversized_input_and_failed_preference_save_are_refused() {
    let mut store = new_store();
    let mut disk = None;
    let (key, change) = store.add_server(record());
    write(&mut store, &mut disk, change);
    // A write that fails leaves the current state untouched.
    let change = store.set_remember_login(&key, true).ok().unwrap();
    assert_eq!(store.settle(change, false), Err(StoreError::NotWritten));
    assert!(!store.server(&key).unwrap().remember_login);
    assert!(!reload(&disk).server(&key).unwrap().remember_login);
    assert_eq!(check_size(MAX_STATE_BYTES as u64 + 1), Err(StoreError::TooLarge));
    assert_eq!(check_size(MAX_STATE_BYTES as u64), Ok(()));
    let mut writer = BoundedState::new();
    assert_eq!(writer.write(&vec![0; MAX_STATE_BYTES]), Ok(MAX_STATE_BYTES));
    assert!(writer.write(b"x").is_err());
    assert_eq!(writer.into_bytes().len(), MAX_STATE_BYTES);
}

#[test]
fn an_unprotected_file_of_this_version_is_refused_where_files_are_protected() {
    let data = StoreData { version: STORE_VERSION, servers: Vec::new() };
    assert!(matches!(Store::load(Some(data.clone()), true, false), Err(StoreError::Unprotected)));
    assert!(Store::load(Some(data.clone()), true, true).is_ok());
    assert!(Store::load(Some(data), false, false).is_ok());
    let file = frame(&[1, 2, 3]).unwrap();
    assert!(file.starts_with(b"HOLDFAST-DPAPI-1\n"));
    assert_eq!(unframe(&file), Some(vec![1, 2, 3]));
    assert_eq!(unframe(b"{\"version\":3}"), None);
}

#[test]
fn unknown_servers_are_refused() {
    let store = new_store();
    assert!(matches!(store.set_remember_login("x", true), Err(StoreError::UnknownServer)));
    assert!(matches!(store.set_grant("x", b"g"), Err(StoreError::UnknownServer)));
    assert!(matches!(store.rename_shell("x", "s", "n"), Err(StoreError::UnknownServer)));
    assert!(store.server("x").is_none());
    assert!(store.shell("x", "s").is_none());
}

#[test]
fn pending_opens_come_and_go() {
    let mut store = new_store();
    let change = store.add_server_as("k", record());
    store.settle(change, true).unwrap();
    let change = store.push_pending_open("k", "01", "one").ok().unwrap();
    store.settle(change, true).unwrap();
    let change = store.push_pending_open("k", "02", "two").ok().unwrap();
    store.settle(change, true).unwrap();
    let change = store.drop_pending_open("k", "01").ok().unwrap();
    store.settle(change, true).unwrap();
    let left = store.server("k").unwrap().pending_opens;
    assert_eq!(left.len(), 1);
    assert_eq!(left[0].name, "two");
    let change = store.resolve_pending_open("k", "03", "aa", b"t", 1).ok().unwrap();
    store.settle(change, true).unwrap();
    assert_eq!(store.shell("k", "aa").unwrap().name, "shell");
    let change = store.rename_shell("k", "aa", "renamed").ok().unwrap();
    store.settle(change, true).unwrap();
    assert_eq!(store.shell("k", "aa").unwrap().name, "renamed");
    let change = store.set_grant("k", b"").ok().unwrap();
    store.settle(change, true).unwrap();
    assert!(store.server("k").unwrap().grant.is_none());
}

#[test]
fn paths_follow_the_environment() {
    assert_eq!(default_path(Some("/tmp/s.json"), Some("/c")).unwrap(), "/tmp/s.json");
    assert_eq!(default_path(Some(""), Some("/c")).unwrap(), "/c/holdfast/desktop.json");
    assert_eq!(default_path(None, None), None);
    assert_eq!(v1_state_path(None, Some("/c/")).unwrap(), "/c/holdfast/state.json");
}
