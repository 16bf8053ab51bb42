use simple_sandbox::cli::{
    add_items, add_planned, begin_exec, begin_logs, begin_policy_set, begin_rm, begin_shell,
    created_line,
    created_record, cut_id, doctor_kinds, doctor_line, exec_status, exit_byte, ls_line, ls_row,
    mech_box, no_sandboxes_line, removed_line, run_status, shell_command, updated_line, Backend,
    SetError,
};
use simple_sandbox::mechanism::{CreateResult, DoctorItem, ExecResult, HostOs};
use simple_sandbox::policy::{
    HostCapacity, MechanismKind, PolicyError, PoolClaim, SandboxPolicy,
};
use simple_sandbox::state::{SandboxRecord, SandboxState, StateError, Store, Timestamp};

fn record(name: &str, mechanism: MechanismKind) -> SandboxRecord {
    SandboxRecord {
        id: format!("id-{}", name),
        name: name.to_string(),
        mechanism,
        runtime_id: "0123456789abcdef0123".to_string(),
        policy_hash: String::new(),
        workdir: "/w".to_string(),
        created_at: Timestamp { seconds: 1_431_648_000, nanos: 0 },
        proxy_port: None,
        log_path: None,
        ephemeral: false,
    }
}

fn store() -> Store {
    Store::open("/state".to_string())
}

fn two() -> SandboxState {
    SandboxState {
        last_used: Some("b".to_string()),
        sandboxes: vec![record("a", MechanismKind::Podman), record("b", MechanismKind::Mac)],
    }
}

fn result(exit_code: Option<i32>) -> CreateResult {
    CreateResult {
        name: "n".to_string(),
        mechanism: MechanismKind::Podman,
        runtime_id: "r".to_string(),
        proxy_port: Some(5),
        log_path: None,
        exit_code,
    }
}

fn item(name: &str, ok: bool, detail: &str) -> DoctorItem {
    DoctorItem { name: name.to_string(), ok, detail: detail.to_string() }
}

#[test]
fn exit_statuses() {
    for code in vec![0, 1, 127, 255, 256, 300, -1, -256, i32::MIN, i32::MAX] {
        assert_eq!(exit_byte(code), code as u8);
    }
    assert_eq!(run_status(&result(Some(3))), 3);
    assert_eq!(run_status(&result(None)), 0);
    assert_eq!(exec_status(&ExecResult { code: Some(258) }), 2);
    assert_eq!(exec_status(&ExecResult { code: None }), 1);
}

#[test]
fn backends_of_kinds() {
    assert_eq!(mech_box(MechanismKind::Auto, HostOs::Linux, "/r").name(), "linux_podman");
    assert_eq!(mech_box(MechanismKind::Krun, HostOs::Linux, "/r").name(), "linux_libkrun");
    match mech_box(MechanismKind::Auto, HostOs::Other, "/r") {
        Backend::Mac(m) => assert_eq!(m.state_dir, Some("/r/mac".to_string())),
        other => panic!("{:?}", other),
    }
}

#[test]
fn exec_uses_the_last_sandbox() {
    let mut state = two();
    let command = vec!["ls".to_string()];
    let (backend, req) = begin_exec(&store(), &mut state, None, command, HostOs::MacOs).unwrap();
    assert_eq!(backend.name(), "mac_seatbelt");
    assert_eq!(req.name, "b");
    assert_eq!(req.runtime_id, "0123456789abcdef0123");
    assert_eq!(req.command, vec!["ls".to_string()]);
    assert_eq!(req.env, vec![]);
    assert!(req.tty);
    assert_eq!(req.cwd, Some("/workspace".to_string()));
    begin_exec(&store(), &mut state, Some("id-a"), vec![], HostOs::MacOs).unwrap();
    assert_eq!(state.last_used, Some("a".to_string()));
    let err = begin_exec(&store(), &mut state, Some("c"), vec![], HostOs::MacOs).unwrap_err();
    assert_eq!(err, StateError::NotFound("c".to_string()));
    assert_eq!(state.last_used, Some("a".to_string()));
}

#[test]
fn shells_of_sandboxes() {
    assert_eq!(shell_command(MechanismKind::Podman, HostOs::MacOs), vec!["sh", "-i"]);
    assert_eq!(shell_command(MechanismKind::Mac, HostOs::MacOs), vec!["/bin/zsh", "-i"]);
    assert_eq!(shell_command(MechanismKind::Mac, HostOs::Linux), vec!["/bin/sh", "-i"]);
    let mut state = two();
    let (_, req) = begin_shell(&store(), &mut state, Some("a"), HostOs::Linux).unwrap();
    assert_eq!(req.command, vec!["sh", "-i"]);
    assert_eq!(state.last_used, Some("a".to_string()));
    let mut empty = SandboxState::default();
    assert!(begin_shell(&store(), &mut empty, None, HostOs::Linux).is_err());
}

#[test]
fn removal_and_logs() {
    let mut state = two();
    let (backend, id) = begin_logs(&store(), &state, None, HostOs::Linux).unwrap();
    assert_eq!((backend.name(), id.len()), ("mac_seatbelt", 20));
    let (backend, rec) = begin_rm(&store(), &mut state, "b", HostOs::Linux).unwrap();
    assert_eq!(rec, record("b", MechanismKind::Mac));
    assert_eq!(backend.name(), "mac_seatbelt");
    assert_eq!(state.last_used, Some("a".to_string()));
    assert_eq!(state.sandboxes.len(), 1);
    assert!(begin_rm(&store(), &mut state, "b", HostOs::Linux).is_err());
    assert!(begin_logs(&store(), &state, Some("b"), HostOs::Linux).is_err());
}

#[test]
fn records_of_created_sandboxes() {
    let rec = created_record(
        &store(),
        "n",
        MechanismKind::Podman,
        &result(None),
        Ok("abc".to_string()),
        "/w",
    )
    .unwrap();
    assert_eq!(rec.runtime_id, "r");
    assert_eq!(rec.proxy_port, Some(5));
    assert_eq!(rec.log_path, Some("/state/logs/n.log".to_string()));
    assert!(!rec.ephemeral);
    assert!(rec.created_at.seconds > 1_600_000_000);
    assert!(rec.created_at.nanos < 1_000_000_000);
}

#[test]
fn lines_of_commands() {
    let backend = mech_box(MechanismKind::Podman, HostOs::Linux, "/r");
    assert_eq!(
        created_line("n", &backend, "r"),
        "created sandbox 'n' via linux_podman (r)"
    );
    assert_eq!(updated_line("n"), "updated policy for 'n'");
    assert_eq!(removed_line("n"), "removed 'n'");
    assert_eq!(no_sandboxes_line(), "(no sandboxes)");
}

#[test]
fn list_of_sandboxes() {
    let rec = record("a", MechanismKind::Podman);
    assert_eq!(
        ls_line(&rec),
        Some("a\tpodman\t0123456789abcdef\t2015-05-15T00:00:00+00:00".to_string())
    );
    assert_eq!(ls_row(&rec, "then"), "a\tpodman\t0123456789abcdef\tthen");
    assert_eq!(cut_id("short"), "short");
    assert_eq!(cut_id("ääääääääää"), "ääääääää");
    let mut far = record("a", MechanismKind::Podman);
    far.created_at = Timestamp { seconds: i64::MAX, nanos: 0 };
    assert_eq!(ls_line(&far), None);
    far.created_at = Timestamp { seconds: 1, nanos: 500_000_000 };
    assert!(ls_line(&far).unwrap().ends_with("\t1970-01-01T00:00:01.500+00:00"));
}

#[test]
fn doctor_reports() {
    assert_eq!(
        doctor_kinds(None, HostOs::Linux),
        vec![MechanismKind::Podman, MechanismKind::Mac, MechanismKind::Krun]
    );
    assert_eq!(doctor_kinds(Some(MechanismKind::Auto), HostOs::Other), vec![MechanismKind::Mac]);
    let mut all = Vec::new();
    add_items(&mut all, "m", &vec![item("x", true, "d"), item("y", false, "e")]);
    add_planned(&mut all);
    let lines: Vec<String> = all.iter().map(doctor_line).collect();
    assert_eq!(
        lines,
        vec![
            "[ok] m/x: d",
            "[FAIL] m/y: e",
            "[ok] future/linux-bwrap: planned: linux host with rootless podman + bubblewrap (not in mac-first v1)",
        ]
    );
}

#[test]
fn policies_are_checked_before_they_are_set() {
    let state = two();
    let host = HostCapacity::default();
    let honest = |claim: PoolClaim| {
        if claim.amount <= claim.capacity { Ok(()) } else { Err(claim.pool.name().to_string()) }
    };
    let set = |name: Option<&str>, loaded: Result<SandboxPolicy, PolicyError>| {
        begin_policy_set(&store(), &state, name, loaded, &host, honest)
    };
    let good = SandboxPolicy::default();
    assert_eq!(set(None, Ok(good.clone())), Ok(("b".to_string(), good.clone())));
    assert_eq!(set(Some("id-a"), Ok(good.clone())), Ok(("a".to_string(), good.clone())));
    let missing = PolicyError::Io("No such file".to_string());
    assert_eq!(
        set(Some("c"), Err(missing.clone())).unwrap_err().message(),
        "sandbox not found: c"
    );
    assert_eq!(set(None, Err(missing.clone())), Err(SetError::Policy(missing)));
    let mut large = good.clone();
    large.resources.memory = "9G".to_string();
    assert_eq!(
        set(None, Ok(large)).unwrap_err().message(),
        "resource preflight failed: RAM"
    );
    let mut bad = good;
    bad.version = 2;
    assert_eq!(
        set(None, Ok(bad)),
        Err(SetError::Policy(PolicyError::Invalid("unsupported policy version 2".to_string())))
    );
}
