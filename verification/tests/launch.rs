use simple_sandbox::launch::{
    create_name, engine_ready, load_policy, plan_launch, prefer_available, proxy_allow, run_name,
    uuid_simple, LaunchError, LaunchOptions, LaunchPlan, Overrides,
};
use simple_sandbox::mechanism::{DoctorItem, HostOs};
use simple_sandbox::policy::{
    CpuLimit, HostCapacity, MechanismKind, NetworkEndpoint, NetworkMode, PolicyError, PoolClaim,
    SandboxPolicy, SecretRef,
};
use simple_sandbox::secrets::{SecretError, SecretSource};

fn none() -> Overrides {
    Overrides { cpus: None, memory: None, mechanism: None }
}

fn item(name: &str, ok: bool) -> DoctorItem {
    DoctorItem { name: name.to_string(), ok, detail: String::new() }
}

fn up() -> Vec<DoctorItem> {
    vec![item("runtime-binary", true), item("runtime-engine", true)]
}

fn down() -> Vec<DoctorItem> {
    vec![item("runtime-binary", true), item("runtime-engine", false)]
}

fn honest(claim: PoolClaim) -> Result<(), String> {
    if claim.amount <= claim.capacity {
        Ok(())
    } else {
        Err(claim.pool.name().to_string())
    }
}

fn fetch(_: &SecretSource) -> Result<Vec<u8>, String> {
    Err("nothing there".to_string())
}

fn hold(bytes: &Vec<u8>) -> Result<Vec<u8>, String> {
    Ok(bytes.clone())
}

fn launch(
    ephemeral: bool,
    loaded: Option<Result<SandboxPolicy, PolicyError>>,
    overrides: Overrides,
    os: HostOs,
    doctor: fn() -> Vec<DoctorItem>,
    workdir: Result<String, String>,
) -> Result<LaunchPlan, LaunchError> {
    let options = LaunchOptions {
        name: "n".to_string(),
        ephemeral,
        command: vec!["ls".to_string()],
    };
    plan_launch(
        options,
        loaded,
        overrides,
        os,
        || doctor(),
        &HostCapacity::default(),
        honest,
        workdir,
        fetch,
        hold,
        hold,
    )
}

fn here() -> Result<String, String> {
    Ok("/w".to_string())
}

#[test]
fn command_line_overrides_the_policy() {
    let overrides = Overrides {
        cpus: Some(CpuLimit {
            text: "4".to_string(),
            zero_or_less: false,
            millicores: 4000,
            hour_seconds: 14400,
        }),
        memory: Some("1G".to_string()),
        mechanism: Some(MechanismKind::Krun),
    };
    let p = load_policy(None, overrides).unwrap();
    assert_eq!(p.resources.millicores(), 4000);
    assert_eq!(p.resources.memory, "1G");
    assert_eq!(p.mechanism, Some(MechanismKind::Krun));
    assert_eq!(p.filesystem, SandboxPolicy::default().filesystem);
    assert_eq!(load_policy(None, none()).unwrap(), SandboxPolicy::default());
}

#[test]
fn command_line_is_checked_too() {
    let bad = Overrides { memory: Some("x".to_string()), ..none() };
    assert_eq!(
        load_policy(None, bad).unwrap_err(),
        PolicyError::Invalid("invalid memory size 'x'".to_string())
    );
    let missing = PolicyError::Io("No such file".to_string());
    assert_eq!(
        load_policy(Some(Err(missing)), none()).unwrap_err().message(),
        "io error: No such file"
    );
}

#[test]
fn seatbelt_stands_in_on_macos() {
    assert!(engine_ready(&up()));
    assert!(!engine_ready(&down()));
    assert!(!engine_ready(&vec![item("runtime-binary", true)]));
    let pick = |kind, os, d: fn() -> Vec<DoctorItem>| prefer_available(kind, os, || d());
    assert_eq!(pick(MechanismKind::Auto, HostOs::MacOs, up), MechanismKind::Podman);
    assert_eq!(pick(MechanismKind::Auto, HostOs::MacOs, down), MechanismKind::Mac);
    assert_eq!(pick(MechanismKind::Podman, HostOs::Linux, down), MechanismKind::Podman);
    assert_eq!(pick(MechanismKind::Krun, HostOs::MacOs, down), MechanismKind::Krun);
}

#[test]
fn proxies_are_for_allowlists() {
    let mut p = SandboxPolicy::default();
    p.network.endpoints = vec![
        NetworkEndpoint { host: "A.test".to_string(), port: 443 },
        NetworkEndpoint { host: "b.test".to_string(), port: 22 },
    ];
    assert!(proxy_allow(&p).is_none());
    p.network.mode = NetworkMode::Allowlist;
    let allow = proxy_allow(&p).unwrap();
    assert_eq!(allow.len(), 2);
    assert!(allow.contains("a.test:443"));
    assert!(allow.contains("b.test:22"));
    p.network.mode = NetworkMode::Unrestricted;
    assert!(proxy_allow(&p).is_none());
}

#[test]
fn default_launch() {
    let plan = launch(false, None, none(), HostOs::Linux, down, here()).unwrap();
    assert_eq!(plan.kind, MechanismKind::Podman);
    assert!(plan.pull_image);
    assert!(plan.proxy.is_none());
    assert_eq!(plan.request.name, "n");
    assert_eq!(plan.request.workdir, "/w");
    assert!(!plan.request.ephemeral);
    assert_eq!(plan.request.command, vec!["ls".to_string()]);
    assert_eq!(plan.request.env, vec![]);
    assert_eq!(plan.request.policy.mechanism, Some(MechanismKind::Podman));
    assert_eq!(plan.request.policy.network.mode, NetworkMode::NoNetwork);
}

#[test]
fn launch_that_runs_once_falls_back() {
    let plan = launch(true, None, none(), HostOs::MacOs, down, here()).unwrap();
    assert_eq!(plan.kind, MechanismKind::Mac);
    assert!(!plan.pull_image);
    let kept = launch(false, None, none(), HostOs::MacOs, down, here()).unwrap();
    assert_eq!(kept.kind, MechanismKind::Podman);
}

#[test]
fn launch_carries_secrets_and_proxy() {
    let mut p = SandboxPolicy::default();
    p.network.mode = NetworkMode::Allowlist;
    p.network.endpoints = vec![NetworkEndpoint { host: "a".to_string(), port: 1 }];
    p.secrets = vec![SecretRef { env: "T".to_string(), from: "value:v".to_string() }];
    let plan = launch(true, Some(Ok(p)), none(), HostOs::Linux, up, here()).unwrap();
    assert_eq!(plan.request.env, vec![("T".to_string(), "v".to_string())]);
    assert!(plan.proxy.unwrap().contains("a:1"));
}

#[test]
fn launch_stops_at_the_first_fault() {
    let secret = SecretRef { env: "T".to_string(), from: "env:NOPE".to_string() };
    let mut p = SandboxPolicy::default();
    p.secrets = vec![secret];
    p.resources.memory = "9G".to_string();
    let nowhere = || Err("no cwd".to_string());
    let e = launch(false, Some(Ok(p.clone())), none(), HostOs::Linux, up, nowhere()).unwrap_err();
    assert_eq!(e, LaunchError::Policy(PolicyError::Preflight("RAM".to_string())));
    let less = || Overrides { memory: Some("8G".to_string()), ..none() };
    let e = launch(false, Some(Ok(p.clone())), less(), HostOs::Linux, up, nowhere()).unwrap_err();
    assert_eq!(e.message(), "no cwd");
    let e = launch(false, Some(Ok(p.clone())), less(), HostOs::Linux, up, here()).unwrap_err();
    assert_eq!(
        e,
        LaunchError::Secret(SecretError::Unavailable("host env var 'NOPE' not set".to_string()))
    );
    assert_eq!(e.message(), "secret source unavailable: host env var 'NOPE' not set");
    p.version = 0;
    let e = launch(false, Some(Ok(p)), none(), HostOs::Linux, up, nowhere()).unwrap_err();
    assert_eq!(e.message(), "invalid policy: unsupported policy version 0");
}

#[test]
fn names_of_sandboxes() {
    assert_eq!(create_name(None), "default");
    assert_eq!(create_name(Some("x".to_string())), "x");
    assert_eq!(uuid_simple(255), "ff");
    assert_eq!(run_name(None, 0x18f2a), "run-18f2a");
    assert_eq!(run_name(None, 0), "run-0");
    assert_eq!(run_name(Some("x".to_string()), 1), "x");
}
