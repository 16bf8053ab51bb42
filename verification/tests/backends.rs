use simple_sandbox::krun::KrunMechanism;
use simple_sandbox::mac::{
    parse_mac_runtime, rlimits, sandbox_exec_candidates, spawn_outcome, spawn_plan,
    stored_policy, stored_workdir, which_sandbox_exec, CreatePlan, KeptFile, MacMechanism,
    Rlimits,
};
use simple_sandbox::mechanism::{
    config_dir_by, config_dir_under, default_config_dir, resolve_mechanism, ControlError, CreateRequest,
    DoctorItem, ExecRequest, HostOs, Mechanism, MechanismError,
};
use simple_sandbox::podman::{
    arch_args, arch_result, choose_runtime, container_name, logs_text, mount_candidates,
    mount_spec, ping_args, ping_result, run_failure, runtime_by, CommandOutput,
    ContainerOutcome, ContainerPlan, HostFacts, PodmanMechanism,
};
use simple_sandbox::policy::{
    CpuLimit, MechanismKind, NetworkEndpoint, NetworkMode, PolicyError, SandboxPolicy,
};
use simple_sandbox::seatbelt::generate_seatbelt_profile;

fn texts(list: &[&str]) -> Vec<String> {
    list.iter().map(|s| s.to_string()).collect()
}

fn request(policy: SandboxPolicy, ephemeral: bool, command: &[&str]) -> CreateRequest {
    CreateRequest {
        name: "demo".to_string(),
        policy,
        workdir: "/home/me".to_string(),
        ephemeral,
        command: texts(command),
        env: vec![("A".to_string(), "1".to_string())],
    }
}

fn facts(existing: &[&str], port: Option<&str>) -> HostFacts {
    HostFacts {
        workdir: "/real/me".to_string(),
        existing: texts(existing),
        proxy_port: port.map(|p| p.to_string()),
    }
}

fn output(success: bool, stdout: &str, stderr: &str) -> CommandOutput {
    CommandOutput { success, stdout: stdout.to_string(), stderr: stderr.to_string() }
}

fn item(name: &str, ok: bool, detail: &str) -> DoctorItem {
    DoctorItem { name: name.to_string(), ok, detail: detail.to_string() }
}

#[test]
fn profile_contains_workdir_and_deny_network() {
    let policy = SandboxPolicy::default();
    let profile = generate_seatbelt_profile(&policy, "/tmp").unwrap();
    assert!(profile.contains("deny default"));
    assert!(profile.contains("deny network"));
    assert!(profile.contains("allow file-write*"));
}

#[test]
fn profile_is_written_rule_by_rule() {
    let mut policy = SandboxPolicy::default();
    policy.filesystem.read_only = texts(&["docs"]);
    policy.filesystem.read_write = texts(&["/data"]);
    let profile = generate_seatbelt_profile(&policy, "/w").unwrap();
    let head = "(version 1)\n(deny default)\n(allow process*)\n(allow sysctl*)\n(allow mach*)\n(allow ipc*)\n(allow signal)\n(allow file-read-metadata)\n(allow file-read* (subpath \"/usr\"))\n";
    assert!(profile.starts_with(head));
    let tail = "(allow file-write* (literal \"/dev/dtracehelper\"))\n(allow file-read* (subpath \"/w\"))\n(allow file-write* (subpath \"/w\"))\n(allow file-read* (subpath \"/w/docs\"))\n(allow file-read* (subpath \"/data\"))\n(allow file-write* (subpath \"/data\"))\n(allow file-write* (subpath \"/tmp\"))\n(allow file-write* (subpath \"/private/tmp\"))\n(allow file-write* (subpath \"/var/folders\"))\n(allow file-write* (subpath \"/private/var/folders\"))\n(deny network*)\n";
    assert!(profile.ends_with(tail), "{}", profile);
    assert_eq!(profile.lines().count(), 8 + 12 + 4 + 2 + 1 + 2 + 4 + 1);
}

#[test]
fn profile_reads_only_what_is_granted() {
    let mut policy = SandboxPolicy::default();
    policy.filesystem.read_only = texts(&["docs"]);
    policy.filesystem.read_write = texts(&["/data"]);
    let profile = generate_seatbelt_profile(&policy, "/w/inside").unwrap();
    let reads = |p: &str| {
        let rule = format!("(allow file-read* (subpath \"{}\"))", p);
        profile.lines().any(|line| line == rule)
    };
    for p in vec!["/usr", "/Applications", "/w/inside", "/w/inside/docs", "/data"] {
        assert!(reads(p), "{}", p);
    }
    for p in vec!["/w", "/w/outside", "/w/outside/secret.txt", "/", "/var/folders"] {
        assert!(!reads(p), "{}", p);
    }
    policy.filesystem.workdir = false;
    let unbound = generate_seatbelt_profile(&policy, "/w/inside").unwrap();
    assert!(!unbound.contains("(subpath \"/w/inside\")"));
}

#[test]
fn profile_network_follows_the_mode() {
    let mut policy = SandboxPolicy::default();
    policy.network.mode = NetworkMode::Unrestricted;
    let open = generate_seatbelt_profile(&policy, "/w").unwrap();
    assert!(open.ends_with("(allow network*)\n"));
    policy.network.mode = NetworkMode::Allowlist;
    policy.network.endpoints =
        vec![NetworkEndpoint { host: "example.com".to_string(), port: 443 }];
    let local = generate_seatbelt_profile(&policy, "/w").unwrap();
    assert!(local.ends_with(
        "(allow network* (remote ip \"localhost:*\"))\n(allow network-bind (local ip \"localhost:*\"))\n"
    ));
    assert!(!local.contains("example.com"));
}

#[test]
fn container_without_network() {
    let podman = PodmanMechanism::new();
    let mut policy = SandboxPolicy::default();
    policy.filesystem.read_only = texts(&["/etc", "/gone", "docs"]);
    policy.filesystem.read_write = texts(&["/workspace", "/tmp", "out"]);
    let req = request(policy, false, &[]);
    let host = facts(&["/etc", "/home/me/docs", "/home/me/out"], Some("8080"));
    assert_eq!(
        podman.create_args(&req, &host).unwrap(),
        texts(&[
            "run", "-d", "--name", "ssbx-demo", "--cpus=2", "--memory=2147483648", "--network",
            "none", "-v", "/real/me:/workspace:rw", "-w", "/workspace", "-v", "/etc:/mnt/etc:ro",
            "-v", "/home/me/docs:/mnt/docs:ro", "-v", "/home/me/out:/mnt/out:rw", "--tmpfs",
            "/tmp:rw,size=64m", "-e", "A=1", "docker.io/library/alpine:3.20", "sleep", "infinity",
        ])
    );
    assert_eq!(
        mount_candidates(&req.policy.filesystem, "/home/me"),
        texts(&["/etc", "/gone", "/home/me/docs", "/tmp", "/home/me/out"])
    );
}

#[test]
fn container_behind_the_proxy() {
    let podman = PodmanMechanism::new();
    let mut policy = SandboxPolicy::default();
    policy.filesystem.workdir = false;
    policy.network.mode = NetworkMode::Allowlist;
    policy.network.endpoints =
        vec![NetworkEndpoint { host: "example.com".to_string(), port: 443 }];
    let req = request(policy, true, &["echo", "hi"]);
    let args = podman.create_args(&req, &facts(&[], Some("8080"))).unwrap();
    assert_eq!(
        args,
        texts(&[
            "run", "--add-host", "host.docker.internal:host-gateway", "--rm", "--name",
            "ssbx-demo", "--cpus=2", "--memory=2147483648", "--tmpfs", "/tmp:rw,size=64m", "-e",
            "A=1", "-e", "NO_PROXY=localhost,127.0.0.1", "-e",
            "http_proxy=http://host.docker.internal:8080", "-e",
            "https_proxy=http://host.docker.internal:8080", "-e",
            "HTTP_PROXY=http://host.docker.internal:8080", "-e",
            "HTTPS_PROXY=http://host.docker.internal:8080", "docker.io/library/alpine:3.20",
            "echo", "hi",
        ])
    );
    let bare = podman.create_args(&req, &facts(&[], None)).unwrap();
    assert!(!bare.iter().any(|a| a.contains("PROXY")));
}

#[test]
fn container_with_a_bad_size_is_refused() {
    let podman = PodmanMechanism::default();
    let mut policy = SandboxPolicy::default();
    policy.resources.memory = "much".to_string();
    assert_eq!(
        podman.create_args(&request(policy, true, &[]), &facts(&[], None)).unwrap_err(),
        MechanismError::Message("invalid policy: invalid memory size 'much'".to_string())
    );
}

#[test]
fn mounts() {
    let existing = texts(&["/data", "/home/me/x/..", "/"]);
    let spec = |p: &str, ro: bool| mount_spec(p, "/home/me", ro, &existing);
    assert_eq!(spec("/data", true), Some("/data:/mnt/data:ro".to_string()));
    assert_eq!(spec("/data", false), Some("/data:/mnt/data:rw".to_string()));
    assert_eq!(spec("/nope", true), None);
    assert_eq!(spec("/workspace/x", true), None);
    assert_eq!(spec("x/..", true), None);
    assert_eq!(spec("/", true), None);
}

#[test]
fn container_runtime_is_podman_before_docker() {
    let some = |s: &str| Some(s.to_string());
    assert_eq!(choose_runtime(&some("/x"), some("/p"), some("/d")), Ok("/x".to_string()));
    assert_eq!(choose_runtime(&None, some("/p"), some("/d")), Ok("/p".to_string()));
    assert_eq!(choose_runtime(&None, None, some("/d")), Ok("/d".to_string()));
    assert_eq!(
        choose_runtime(&None, None, None).unwrap_err().message(),
        "mechanism not available: neither podman nor docker found on PATH (install Podman Machine or Colima)"
    );
    let asked = std::cell::RefCell::new(Vec::new());
    let find = |name: &str| {
        asked.borrow_mut().push(name.to_string());
        if name == "docker" { Some("/d".to_string()) } else { None }
    };
    assert_eq!(runtime_by(&some("/x"), find), Ok("/x".to_string()));
    assert_eq!(asked.borrow().len(), 0);
    assert_eq!(runtime_by(&None, find), Ok("/d".to_string()));
    assert_eq!(*asked.borrow(), texts(&["podman", "docker"]));
    let both = |name: &str| Some(format!("/{}", name));
    assert_eq!(runtime_by(&None, both), Ok("/podman".to_string()));
    assert!(runtime_by(&None, |_: &str| None).is_err());
    let set = PodmanMechanism { binary: some("/opt/engine"), image: "i".to_string() };
    assert_eq!(set.runtime_bin(), Ok("/opt/engine".to_string()));
    match PodmanMechanism::new().runtime_bin() {
        Ok(path) => assert!(path.ends_with("/podman") || path.ends_with("/docker")),
        Err(e) => assert!(matches!(e, MechanismError::Unavailable(_))),
    }
}

#[test]
fn container_engine_answers() {
    assert_eq!(ping_args(), texts(&["ps", "-q"]));
    assert_eq!(arch_args(), texts(&["version", "--format", "{{.Server.Arch}}"]));
    assert_eq!(ping_result("/p", Ok(output(true, "", ""))), Ok(()));
    assert_eq!(
        ping_result("/p", Ok(output(false, "", "boom"))).unwrap_err(),
        MechanismError::Unavailable(
            "/p not usable (is the machine/VM running?): boom".to_string()
        )
    );
    assert_eq!(
        ping_result("/p", Err("ENOENT".to_string())).unwrap_err().message(),
        "ENOENT"
    );
    assert_eq!(arch_result(&Some(output(true, " arm64\n", "")), "x86_64"), "arm64");
    assert_eq!(arch_result(&Some(output(true, " \n", "")), "x86_64"), "x86_64");
    assert_eq!(arch_result(&Some(output(false, "arm64", "")), "x86_64"), "x86_64");
    assert_eq!(arch_result(&None, "x86_64"), "x86_64");
    assert_eq!(run_failure("/p", "why").message(), "failed to run /p: why");
}

#[test]
fn container_doctor() {
    let podman = PodmanMechanism::new();
    assert_eq!(podman.kind(), MechanismKind::Podman);
    assert_eq!(podman.name(), "linux_podman");
    let good = podman.doctor(&Ok("/p".to_string()), &Ok("arm64".to_string()), "aarch64");
    assert_eq!(
        good,
        vec![
            item("runtime-binary", true, "/p"),
            item("runtime-engine", true, "reachable, arch=arm64"),
            item("host-arch", true, "aarch64 (arm64 Mac preferred for linux arm64 guests)"),
            item("default-image", true, "docker.io/library/alpine:3.20"),
        ]
    );
    let down = MechanismError::Message("down".to_string());
    let engine = podman.doctor(&Ok("/p".to_string()), &Err(down), "x86_64");
    assert_eq!(engine[1], item("runtime-engine", false, "down"));
    assert!(!engine[2].ok);
    let none = MechanismError::Unavailable("none".to_string());
    let missing = podman.doctor(&Err(none), &Ok("arm64".to_string()), "x86_64");
    assert_eq!(missing.len(), 3);
    assert_eq!(missing[0], item("runtime-binary", false, "mechanism not available: none"));
}

#[test]
fn container_results() {
    let podman = PodmanMechanism::new();
    let req = request(SandboxPolicy::default(), true, &["true"]);
    let run = podman.run_result(&req, &Some("8080".to_string()), Some(3));
    assert_eq!(run.runtime_id, "ephemeral:demo");
    assert_eq!(run.proxy_port, Some(8080));
    assert_eq!(run.exit_code, Some(3));
    let made = podman.create_result(&req, &output(true, "abc\n", ""), &None).unwrap();
    assert_eq!((made.runtime_id.as_str(), made.exit_code), ("abc", None));
    let unnamed = podman.create_result(&req, &output(true, "\n", ""), &None).unwrap();
    assert_eq!(unnamed.runtime_id, "ssbx-demo");
    assert_eq!(
        podman.create_result(&req, &output(false, "", "taken"), &None).unwrap_err().message(),
        "create failed: taken"
    );
    assert_eq!(podman.remove_args("ephemeral:demo"), None);
    assert_eq!(podman.remove_args("abc"), Some(texts(&["rm", "-f", "abc"])));
    assert_eq!(podman.remove_again_args("abc", true), None);
    assert_eq!(podman.remove_again_args("abc", false), Some(texts(&["rm", "-f", "ssbx-abc"])));
    assert_eq!(podman.logs_args("abc", 100), texts(&["logs", "--tail", "100", "abc"]));
    assert_eq!(podman.logs_again_args("abc", 0, true), None);
    assert_eq!(
        podman.logs_again_args("abc", 0, false),
        Some(texts(&["logs", "--tail", "0", "ssbx-abc"]))
    );
    assert_eq!(logs_text(&output(true, "o", "e")), "oe");
    assert_eq!(
        podman.inspect_args(),
        texts(&["image", "inspect", "docker.io/library/alpine:3.20"])
    );
    assert_eq!(podman.pull_args(true), None);
    assert_eq!(
        podman.pull_args(false),
        Some(texts(&["pull", "docker.io/library/alpine:3.20"]))
    );
    assert_eq!(podman.pull_result(true), Ok(()));
    assert_eq!(
        podman.pull_result(false).unwrap_err().message(),
        "failed to pull docker.io/library/alpine:3.20"
    );
    assert_eq!(container_name("x"), "ssbx-x");
}

#[test]
fn container_plans() {
    let podman = PodmanMechanism::new();
    let once = request(SandboxPolicy::default(), true, &["true"]);
    let host = facts(&[], None);
    assert_eq!(
        podman.create_plan(&once, &host),
        Ok(ContainerPlan::Run(podman.create_args(&once, &host).unwrap()))
    );
    let stays = request(SandboxPolicy::default(), false, &["true"]);
    assert_eq!(
        podman.create_plan(&stays, &host),
        Ok(ContainerPlan::Keep(podman.create_args(&stays, &host).unwrap()))
    );
    let mut bad = once.clone();
    bad.policy.resources.memory = "x".to_string();
    assert!(podman.create_plan(&bad, &host).is_err());
    let port = Some("8080".to_string());
    assert_eq!(
        podman.created(&once, &ContainerOutcome::Ended(Some(3)), &port),
        Ok(podman.run_result(&once, &port, Some(3)))
    );
    let made = ContainerOutcome::Told(output(true, "abc\n", ""));
    assert_eq!(podman.created(&stays, &made, &port).unwrap().runtime_id, "abc");
    let failed = ContainerOutcome::Told(output(false, "", "taken"));
    assert_eq!(
        podman.created(&stays, &failed, &port).unwrap_err().message(),
        "create failed: taken"
    );
    assert_eq!(
        podman.created(&stays, &ContainerOutcome::NotRun("ENOENT".to_string()), &port),
        Err(MechanismError::Message("ENOENT".to_string()))
    );
}

#[test]
fn seatbelt_files() {
    let mac = MacMechanism { state_dir: Some("/state".to_string()) };
    let keep = request(SandboxPolicy::default(), false, &[]);
    let files = match mac.create_plan(&keep, HostOs::MacOs, "/f").unwrap() {
        CreatePlan::Keep(files) => files,
        other => panic!("{:?}", other),
    };
    let file = |path: &str, text: &str, needed: bool| KeptFile {
        path: path.to_string(),
        text: text.to_string(),
        needed,
    };
    let profile = generate_seatbelt_profile(&keep.policy, "/real/me").unwrap();
    let bare = vec![
        file("/state/instances/demo/profile.sb", &profile, true),
        file("/state/instances/demo/workdir", "/home/me", true),
    ];
    let mut all = bare.clone();
    all.push(file("/state/instances/demo/policy.yaml", "version: 1\n", false));
    assert_eq!(mac.kept_files(&files, &keep, "/real/me", Ok("version: 1\n".to_string())), Ok(all));
    let fault = PolicyError::Yaml("y".to_string());
    assert_eq!(mac.kept_files(&files, &keep, "/real/me", Err(fault)), Ok(bare));
}

#[test]
fn container_exec() {
    let podman = PodmanMechanism::new();
    let mut req = ExecRequest {
        name: "demo".to_string(),
        runtime_id: "short".to_string(),
        command: vec![],
        env: vec![("K".to_string(), "v".to_string())],
        tty: true,
        cwd: Some("/workspace".to_string()),
    };
    assert_eq!(
        podman.exec_args(&req),
        texts(&["exec", "-it", "-e", "K=v", "-w", "/workspace", "ssbx-demo", "sh"])
    );
    req.runtime_id = "0123456789ab".to_string();
    req.tty = false;
    req.cwd = None;
    req.command = texts(&["ls", "-l"]);
    assert_eq!(
        podman.exec_args(&req),
        texts(&["exec", "-e", "K=v", "0123456789ab", "ls", "-l"])
    );
}

#[test]
fn seatbelt_program_is_looked_for() {
    let places = sandbox_exec_candidates();
    assert_eq!(places, texts(&["/usr/bin/sandbox-exec", "/usr/local/bin/sandbox-exec"]));
    assert_eq!(which_sandbox_exec(&places), Some("/usr/bin/sandbox-exec".to_string()));
    assert_eq!(
        which_sandbox_exec(&texts(&["/usr/local/bin/sandbox-exec"])),
        Some("/usr/local/bin/sandbox-exec".to_string())
    );
    assert_eq!(which_sandbox_exec(&vec![]), None);
    assert!(MacMechanism::sandbox_exec_available(&places));
    assert!(!MacMechanism::sandbox_exec_available(&vec![]));
}

#[test]
fn seatbelt_doctor() {
    let mac = MacMechanism::new();
    assert_eq!(mac.kind(), MechanismKind::Mac);
    assert_eq!(mac.name(), "mac_seatbelt");
    let rest = item("rlimits", true, "setrlimit AS/DATA/CPU (soft; weaker than Linux cgroups)");
    assert_eq!(
        mac.doctor(&texts(&["/usr/bin/sandbox-exec"]), HostOs::MacOs, "macos"),
        vec![
            item("sandbox-exec", true, "/usr/bin/sandbox-exec"),
            item("platform", true, "macos"),
            rest,
        ]
    );
    let linux = mac.doctor(&vec![], HostOs::Linux, "linux");
    assert_eq!(linux[0], item("sandbox-exec", false, "not found — macOS host required"));
    assert_eq!(linux[1], item("platform", false, "linux"));
}

#[test]
fn seatbelt_creation() {
    let mac = MacMechanism { state_dir: Some("/state".to_string()) };
    let run = request(SandboxPolicy::default(), true, &["true"]);
    assert_eq!(
        mac.create_plan(&run, HostOs::Linux, "/f").unwrap_err().message(),
        "mechanism not available: mac_seatbelt requires macOS"
    );
    assert_eq!(mac.create_plan(&run, HostOs::MacOs, "/f"), Ok(CreatePlan::Run));
    let with_command = request(SandboxPolicy::default(), false, &["true"]);
    assert_eq!(mac.create_plan(&with_command, HostOs::MacOs, "/f"), Ok(CreatePlan::Run));
    let keep = request(SandboxPolicy::default(), false, &[]);
    let files = match mac.create_plan(&keep, HostOs::MacOs, "/f").unwrap() {
        CreatePlan::Keep(files) => files,
        other => panic!("{:?}", other),
    };
    assert_eq!(files.dir, "/state/instances/demo");
    assert_eq!(files.profile, "/state/instances/demo/profile.sb");
    let kept = mac.kept_result(&keep, &files, &None);
    assert_eq!(kept.runtime_id, "mac:/state/instances/demo/profile.sb");
    let runtime = parse_mac_runtime(&kept.runtime_id).unwrap();
    assert_eq!(runtime.dir, files.dir);
    assert_eq!(runtime.profile, files.profile);
    assert_eq!(runtime.workdir_file, files.workdir);
    assert_eq!(runtime.policy_file, files.policy);
    assert_eq!(mac.removal_dir(&kept.runtime_id), Some(files.dir));
    let ran = mac.run_result(&run, &Some("x".to_string()), None);
    assert_eq!(ran.runtime_id, "mac-ephemeral:demo");
    assert_eq!(ran.proxy_port, None);
    assert_eq!(mac.removal_dir(&ran.runtime_id), None);
    let loose = MacMechanism::default();
    match loose.create_plan(&keep, HostOs::MacOs, "/f").unwrap() {
        CreatePlan::Keep(files) => assert_eq!(files.dir, "/f/instances/demo"),
        other => panic!("{:?}", other),
    }
}

#[test]
fn seatbelt_runtime_ids_are_checked() {
    assert_eq!(
        parse_mac_runtime("ssbx-1").unwrap_err(),
        MechanismError::Message("not a mac runtime id: ssbx-1".to_string())
    );
    assert_eq!(
        parse_mac_runtime("mac:/").unwrap_err(),
        MechanismError::Message("invalid mac runtime id".to_string())
    );
    assert_eq!(stored_workdir(None), ".");
    assert_eq!(stored_workdir(Some("/w".to_string())), "/w");
    assert_eq!(stored_policy(None), SandboxPolicy::default());
}

#[test]
fn seatbelt_spawning() {
    let mut policy = SandboxPolicy::default();
    let env = vec![("A".to_string(), "1".to_string())];
    let port = Some("9".to_string());
    let plan =
        spawn_plan(Some("/se".to_string()), "/p.sb", &policy, &vec![], &env, &port).unwrap();
    assert_eq!(plan.argv, texts(&["/se", "-f", "/p.sb", "/bin/zsh", "-i"]));
    assert_eq!(plan.env, env);
    policy.network.mode = NetworkMode::Allowlist;
    let plan =
        spawn_plan(Some("/se".to_string()), "/p.sb", &policy, &texts(&["ls"]), &env, &port)
            .unwrap();
    assert_eq!(plan.argv, texts(&["/se", "-f", "/p.sb", "ls"]));
    assert_eq!(plan.env.len(), 6);
    assert_eq!(plan.env[1], ("HTTP_PROXY".to_string(), "http://127.0.0.1:9".to_string()));
    assert_eq!(
        spawn_plan(None, "/p.sb", &policy, &vec![], &env, &port).unwrap_err(),
        MechanismError::Unavailable("sandbox-exec not found (macOS only)".to_string())
    );
    assert_eq!(spawn_outcome(Ok(Some(4))), Ok(Some(4)));
    assert_eq!(
        spawn_outcome(Err("x".to_string())).unwrap_err().message(),
        "sandbox-exec failed: x"
    );
}

#[test]
fn seatbelt_limits() {
    let mut policy = SandboxPolicy::default();
    assert_eq!(rlimits(&policy), Ok(Rlimits { memory: 2 << 30, cpu_seconds: 7200 }));
    policy.resources.cpus = CpuLimit {
        text: "0.001".to_string(),
        zero_or_less: false,
        millicores: 1,
        hour_seconds: 4,
    };
    assert_eq!(rlimits(&policy), Ok(Rlimits { memory: 2 << 30, cpu_seconds: 60 }));
    policy.resources.memory = "x".to_string();
    assert!(rlimits(&policy).is_err());
}

#[test]
fn krun_is_not_there_yet() {
    let krun = KrunMechanism::new();
    assert_eq!(krun.kind(), MechanismKind::Krun);
    assert_eq!(krun.name(), "linux_libkrun");
    assert!(krun.doctor().iter().all(|i| !i.ok));
    assert_eq!(
        krun.create(&request(SandboxPolicy::default(), true, &[])).unwrap_err().message(),
        "not implemented: linux_libkrun is a stub in v1; use podman or mac"
    );
    assert!(krun.remove("x").is_err());
    assert_eq!(krun.logs("x", 1), Ok(String::new()));
}

#[test]
fn auto_is_resolved_by_the_host() {
    assert_eq!(resolve_mechanism(MechanismKind::Auto, HostOs::MacOs), MechanismKind::Podman);
    assert_eq!(resolve_mechanism(MechanismKind::Auto, HostOs::Linux), MechanismKind::Podman);
    assert_eq!(resolve_mechanism(MechanismKind::Auto, HostOs::Other), MechanismKind::Mac);
    assert_eq!(resolve_mechanism(MechanismKind::Krun, HostOs::Other), MechanismKind::Krun);
}

#[test]
fn state_directory() {
    assert_eq!(config_dir_under(Some("/home/me".to_string())), "/home/me/.config/simple-sandbox");
    assert_eq!(config_dir_under(None), "./simple-sandbox");
    assert_eq!(config_dir_by(|| Some("/h".to_string())), "/h/.config/simple-sandbox");
    assert_eq!(config_dir_by(|| None), "./simple-sandbox");
    let home = dirs::home_dir().and_then(|p| p.into_os_string().into_string().ok());
    let expected = match home.map(std::path::PathBuf::from) {
        Some(home) => home.join(".config").join("simple-sandbox").display().to_string(),
        None => "./simple-sandbox".to_string(),
    };
    assert_eq!(default_config_dir(), expected);
}

#[test]
fn error_sentences() {
    assert_eq!(MechanismError::Other("o".to_string()).message(), "o");
    assert_eq!(ControlError::Message("c".to_string()).message(), "control channel: c");
}
