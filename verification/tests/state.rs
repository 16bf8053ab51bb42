use simple_sandbox::policy::{MechanismKind, PolicyError, SandboxPolicy};
use simple_sandbox::state::{SandboxRecord, SandboxState, StateError, Store, Timestamp};

fn record(id: &str, name: &str) -> SandboxRecord {
    SandboxRecord {
        id: id.to_string(),
        name: name.to_string(),
        mechanism: MechanismKind::Podman,
        runtime_id: format!("rt-{}", name),
        policy_hash: "h".to_string(),
        workdir: "/w".to_string(),
        created_at: Timestamp { seconds: 0, nanos: 0 },
        proxy_port: None,
        log_path: None,
        ephemeral: false,
    }
}

fn store() -> Store {
    Store::open("/state".to_string())
}

fn filled(names: &[&str]) -> SandboxState {
    let mut state = SandboxState::default();
    for name in names {
        store().insert(&mut state, record(&format!("id-{}", name), name)).unwrap();
    }
    state
}

fn is_v4(id: &str) -> bool {
    let groups: Vec<usize> = id.split('-').map(|g| g.len()).collect();
    groups == vec![8, 4, 4, 4, 12]
        && id.as_bytes()[14] == b'4'
        && id.chars().all(|c| c == '-' || c.is_ascii_hexdigit())
}

#[test]
fn store_layout() {
    let store = store();
    assert_eq!(store.root(), "/state");
    assert_eq!(
        store.directories(),
        vec!["/state", "/state/sandboxes", "/state/logs", "/state/policies"]
    );
    assert_eq!(store.index_path(), "/state/index.json");
    assert_eq!(store.policy_path("a"), "/state/policies/a.yaml");
    assert_eq!(store.log_path_for("a"), "/state/logs/a.log");
    assert_eq!(store.initial_index(false), Some(SandboxState::default()));
    assert_eq!(store.initial_index(true), None);
}

#[test]
fn added_sandboxes_are_found() {
    let state = filled(&["a", "b"]);
    assert_eq!(store().get(&state, "a").unwrap().runtime_id, "rt-a");
    assert_eq!(store().get(&state, "id-b").unwrap().name, "b");
    assert_eq!(
        store().get(&state, "c").unwrap_err(),
        StateError::NotFound("c".to_string())
    );
    assert_eq!(state.last_used, Some("b".to_string()));
    assert_eq!(store().list(state).len(), 2);
}

#[test]
fn names_are_taken_once() {
    let mut state = filled(&["a"]);
    let err = store().insert(&mut state, record("x", "a")).unwrap_err();
    assert_eq!(err.message(), "sandbox already exists: a");
    assert_eq!(state, filled(&["a"]));
}

#[test]
fn fresh_ids() {
    let mut state = SandboxState::default();
    let a = store().insert(&mut state, record("", "a")).unwrap();
    let b = store().insert(&mut state, record("", "b")).unwrap();
    assert!(is_v4(&a.id), "{}", a.id);
    assert!(is_v4(&b.id), "{}", b.id);
    assert_ne!(a.id, b.id);
    let c = store().insert_with_id(&mut state, record("", "c"), "given".to_string()).unwrap();
    assert_eq!(c.id, "given");
    let d = store().insert_with_id(&mut state, record("own", "d"), "given".to_string()).unwrap();
    assert_eq!(d.id, "own");
}

#[test]
fn sandbox_without_a_name_is_the_last_one() {
    let store = store();
    let mut state = filled(&["a", "b", "c"]);
    assert_eq!(store.get_or_last(&state, None).unwrap().name, "c");
    store.touch_last_used(&mut state, "a");
    assert_eq!(store.get_or_last(&state, None).unwrap().name, "a");
    state.last_used = Some("gone".to_string());
    assert_eq!(store.get_or_last(&state, None).unwrap().name, "c");
    assert_eq!(store.get_or_last(&state, Some("b")).unwrap().name, "b");
    assert_eq!(
        store.get_or_last(&SandboxState::default(), None).unwrap_err().message(),
        "sandbox not found: (no sandboxes)"
    );
}

#[test]
fn removing_undoes_adding() {
    let store = store();
    let mut state = filled(&["a", "b"]);
    store.insert(&mut state, record("id-c", "c")).unwrap();
    assert_eq!(store.remove(&mut state, "id-c").unwrap().name, "c");
    assert_eq!(state, filled(&["a", "b"]));
    store.touch_last_used(&mut state, "b");
    assert_eq!(store.remove(&mut state, "a").unwrap().name, "a");
    assert_eq!(state.last_used, Some("b".to_string()));
    store.remove(&mut state, "b").unwrap();
    assert_eq!(state, SandboxState::default());
    assert!(store.remove(&mut state, "b").is_err());
    store.insert(&mut state, record("id-b", "b")).unwrap();
}

#[test]
fn policies_are_updated() {
    let store = store();
    let mut state = filled(&["a", "b"]);
    store.update_policy(&mut state, "a", Ok("abc".to_string())).unwrap();
    assert_eq!(
        state.sandboxes[0].policy_hash,
        "ba7816bf8f01cfea414140de5dae2223b00361a396177a9cb410ff61f20015ad"
    );
    assert_eq!(state.sandboxes[1], filled(&["a", "b"]).sandboxes[1]);
    assert_eq!(state.last_used, Some("a".to_string()));
    assert_eq!(
        store.update_policy(&mut state, "id-a", Ok("abc".to_string())).unwrap_err(),
        StateError::NotFound("id-a".to_string())
    );
    assert_eq!(
        store
            .update_policy(&mut state, "a", Err(PolicyError::Invalid("x".to_string())))
            .unwrap_err()
            .message(),
        "io error: invalid policy: x"
    );
}

#[test]
fn policy_files() {
    let store = store();
    assert_eq!(store.policy_text(Ok("y".to_string())), Ok("y".to_string()));
    assert!(matches!(
        store.policy_text(Err(PolicyError::Yaml("y".to_string()))),
        Err(StateError::Io(_))
    ));
    assert_eq!(
        store.loaded_policy(Ok(SandboxPolicy::default())),
        Ok(SandboxPolicy::default())
    );
    assert_eq!(
        store.loaded_policy(Err("l".to_string())).unwrap_err(),
        StateError::Io("yaml parse error: l".to_string())
    );
    let mut bad = SandboxPolicy::default();
    bad.version = 9;
    assert!(store.loaded_policy(Ok(bad)).is_err());
}

#[test]
fn new_records() {
    let rec = Store::new_record(
        "a",
        MechanismKind::Mac,
        "mac:/p",
        Ok("abc".to_string()),
        "/w",
        true,
        Some(7),
    )
    .unwrap();
    assert!(is_v4(&rec.id));
    assert!(rec.created_at.seconds > 1_600_000_000);
    assert!(rec.created_at.nanos < 1_000_000_000);
    assert_eq!(rec.mechanism, MechanismKind::Mac);
    assert_eq!(rec.proxy_port, Some(7));
    assert!(rec.ephemeral);
    assert_eq!(
        Store::record(
            "i".to_string(),
            Timestamp { seconds: 5, nanos: 6 },
            "a",
            MechanismKind::Mac,
            "r",
            Err(PolicyError::Invalid("x".to_string())),
            "/w",
            false,
            None,
        )
        .unwrap_err(),
        StateError::Io("invalid policy: x".to_string())
    );
}

#[test]
fn store_error_sentences() {
    assert_eq!(StateError::Json("j".to_string()).message(), "json error: j");
    assert_eq!(StateError::Yaml("y".to_string()).message(), "yaml error: y");
    assert_eq!(StateError::Io("i".to_string()).message(), "io error: i");
}
