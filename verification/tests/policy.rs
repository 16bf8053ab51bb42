use simple_sandbox::policy::{
    default_cpus, default_https_port, default_memory, default_true, key_of, parse_size, preflight,
    resolve_host_paths, CpuLimit, FilesystemPolicy, HostCapacity, MechanismKind, NetworkEndpoint,
    NetworkMode, NetworkPolicy, Pool, PolicyError, PoolClaim, ResourcePolicy, SandboxPolicy,
    SecretRef,
};

fn texts(list: &[&str]) -> Vec<String> {
    list.iter().map(|s| s.to_string()).collect()
}

/// An allocator that grants what a pool holds.
fn honest(claim: PoolClaim) -> Result<(), String> {
    if claim.amount <= claim.capacity {
        Ok(())
    } else {
        Err(format!("{}: {} > {}", claim.pool.name(), claim.amount, claim.capacity))
    }
}

fn cpus(value: f64) -> CpuLimit {
    CpuLimit {
        text: format!("{}", value),
        zero_or_less: value <= 0.0,
        millicores: (value * 1000.0).round() as u64,
        hour_seconds: (value * 3600.0).ceil() as u64,
    }
}

/// Reads a policy as far as the tests write one.
fn read_policy(yaml: &str) -> Result<SandboxPolicy, String> {
    let doc: serde_yaml::Value = serde_yaml::from_str(yaml).map_err(|e| e.to_string())?;
    let mut policy = SandboxPolicy::default();
    policy.version = doc["version"].as_u64().unwrap() as u32;
    if let Some(list) = doc["filesystem"]["read_write"].as_sequence() {
        policy.filesystem.read_write = list.iter().map(|v| v.as_str().unwrap().to_string()).collect();
    }
    if let Some(workdir) = doc["filesystem"]["workdir"].as_bool() {
        policy.filesystem.workdir = workdir;
    }
    policy.network.mode = match doc["network"]["mode"].as_str().unwrap() {
        "none" => NetworkMode::NoNetwork,
        "allowlist" => NetworkMode::Allowlist,
        "unrestricted" => NetworkMode::Unrestricted,
        other => panic!("mode {}", other),
    };
    if let Some(value) = doc["resources"]["cpus"].as_f64() {
        policy.resources.cpus = cpus(value);
    }
    if let Some(memory) = doc["resources"]["memory"].as_str() {
        policy.resources.memory = memory.to_string();
    }
    Ok(policy)
}

#[test]
fn parse_defaultish_policy() {
    let yaml = r#"
version: 1
filesystem:
  workdir: true
  read_write: ["/workspace", "/tmp"]
network:
  mode: none
resources:
  cpus: 1
  memory: 512M
"#;
    let p = SandboxPolicy::check_parsed(read_policy(yaml)).unwrap();
    assert_eq!(p.version, 1);
    assert_eq!(p.network.mode, NetworkMode::NoNetwork);
    assert_eq!(p.resources.memory_bytes().unwrap(), 512 * 1024 * 1024);
    assert_eq!(p.resources.millicores(), 1000);
}

#[test]
fn allowlist_requires_endpoints() {
    let yaml = r#"
version: 1
network:
  mode: allowlist
  endpoints: []
"#;
    assert!(SandboxPolicy::check_parsed(read_policy(yaml)).is_err());
    assert_eq!(
        SandboxPolicy::check_parsed(read_policy(yaml)),
        Err(PolicyError::Invalid("network.mode=allowlist requires at least one endpoint".to_string()))
    );
}

#[test]
fn preflight_rejects_oversize_memory() {
    let mut p = SandboxPolicy::default();
    p.resources.memory = "64G".into();
    let host = HostCapacity {
        memory_bytes: 8 * 1024 * 1024 * 1024,
        millicores: 8000,
    };
    let err = preflight(&p, &host, honest).unwrap_err();
    assert!(matches!(err, PolicyError::Preflight(_)));
    assert_eq!(err.message(), "resource preflight failed: RAM: 68719476736 > 8589934592");
}

#[test]
fn preflight_accepts_reasonable() {
    let p = SandboxPolicy::default();
    let host = HostCapacity::default();
    preflight(&p, &host, honest).unwrap();
}

#[test]
fn preflight_rejects_too_many_cpus() {
    let mut p = SandboxPolicy::default();
    p.resources.cpus = cpus(8.001);
    let err = preflight(&p, &HostCapacity::default(), honest).unwrap_err();
    assert_eq!(err, PolicyError::Preflight("CPU: 8001 > 8000".to_string()));
    p.resources.cpus = cpus(8.0);
    preflight(&p, &HostCapacity::default(), honest).unwrap();
}

#[test]
fn preflight_reports_an_invalid_policy_first() {
    let mut p = SandboxPolicy::default();
    p.version = 2;
    p.resources.memory = "64G".to_string();
    assert_eq!(
        preflight(&p, &HostCapacity::default(), honest).unwrap_err(),
        PolicyError::Invalid("unsupported policy version 2".to_string())
    );
}

#[test]
fn preflight_claims_memory_and_then_cpus() {
    let seen = std::cell::RefCell::new(Vec::new());
    let p = SandboxPolicy::default();
    let host = HostCapacity { memory_bytes: 10, millicores: 20 };
    preflight(&p, &host, |claim: PoolClaim| {
        seen.borrow_mut().push(claim);
        Ok(())
    })
    .unwrap();
    assert_eq!(
        *seen.borrow(),
        vec![
            PoolClaim { pool: Pool::Ram, capacity: 10, amount: 2 * 1024 * 1024 * 1024 },
            PoolClaim { pool: Pool::Cpu, capacity: 20, amount: 2000 },
        ]
    );
}

#[test]
fn parse_size_units() {
    assert_eq!(parse_size("2G").unwrap(), 2 * 1024 * 1024 * 1024);
    assert_eq!(parse_size("512M").unwrap(), 512 * 1024 * 1024);
    assert_eq!(parse_size("100").unwrap(), 100);
}

#[test]
fn parse_size_edges() {
    assert_eq!(parse_size(" 3k ").unwrap(), 3 * 1024);
    assert_eq!(
        parse_size("7b").unwrap_err(),
        PolicyError::Invalid("invalid memory size '7b'".to_string())
    );
    assert_eq!(parse_size("18446744073709551615").unwrap(), u64::MAX);
    assert_eq!(
        parse_size("18446744073709551615K").unwrap_err(),
        PolicyError::Invalid("memory size overflow '18446744073709551615K'".to_string())
    );
    assert_eq!(
        parse_size("  ").unwrap_err(),
        PolicyError::Invalid("empty memory size".to_string())
    );
    assert!(parse_size("G").is_err());
    assert!(parse_size("-1").is_err());
    assert!(parse_size("1.5G").is_err());
}

#[test]
fn content_hash_stable() {
    let yaml = "version: 1\n".to_string();
    let first = SandboxPolicy::content_hash(Ok(yaml.clone())).unwrap();
    let second = SandboxPolicy::content_hash(Ok(yaml)).unwrap();
    assert_eq!(first, second);
    assert_eq!(first.len(), 64);
}

#[test]
fn content_hash_is_sha256_in_hex() {
    assert_eq!(
        SandboxPolicy::content_hash(Ok("abc".to_string())).unwrap(),
        "ba7816bf8f01cfea414140de5dae2223b00361a396177a9cb410ff61f20015ad"
    );
    let fault = PolicyError::Yaml("no".to_string());
    assert_eq!(
        SandboxPolicy::content_hash(Err(PolicyError::Yaml("no".to_string()))).unwrap_err(),
        fault
    );
}

#[test]
fn validate_reports_each_rule() {
    let good = SandboxPolicy::restrictive_default();
    assert_eq!(good.validate(), Ok(()));
    let mut p = good.clone();
    p.version = 3;
    assert_eq!(p.validate().unwrap_err().message(), "invalid policy: unsupported policy version 3");
    let mut p = good.clone();
    p.resources.cpus = cpus(0.0);
    assert_eq!(p.validate().unwrap_err().message(), "invalid policy: resources.cpus must be > 0");
    let mut p = good.clone();
    p.resources.memory = "lots".to_string();
    assert!(matches!(p.validate(), Err(PolicyError::Invalid(_))));
    let mut p = good.clone();
    p.secrets.push(SecretRef { env: String::new(), from: "env:A".to_string() });
    assert_eq!(
        p.validate().unwrap_err(),
        PolicyError::Invalid("secrets entries need non-empty env and from".to_string())
    );
    let mut p = good.clone();
    p.network = NetworkPolicy {
        mode: NetworkMode::Allowlist,
        endpoints: vec![NetworkEndpoint { host: "example.com".to_string(), port: 443 }],
    };
    assert_eq!(p.validate(), Ok(()));
}

#[test]
fn parse_errors_are_reported() {
    let err = SandboxPolicy::check_parsed(Err("line 3".to_string())).unwrap_err();
    assert_eq!(err.message(), "yaml parse error: line 3");
}

#[test]
fn defaults() {
    assert!(default_true());
    assert_eq!(default_https_port(), 443);
    assert_eq!(default_memory(), "2G");
    assert_eq!(default_cpus(), cpus(2.0));
    assert_eq!(ResourcePolicy::default().memory, "2G");
    assert_eq!(NetworkMode::default(), NetworkMode::NoNetwork);
    assert_eq!(MechanismKind::default(), MechanismKind::Auto);
    let fs = FilesystemPolicy::default();
    assert!(fs.workdir);
    assert_eq!(fs.read_only, Vec::<String>::new());
    assert_eq!(fs.read_write, texts(&["/workspace", "/tmp"]));
    assert_eq!(HostCapacity::default(), HostCapacity { memory_bytes: 8 << 30, millicores: 8000 });
}

#[test]
fn mechanism_names_read_back() {
    for kind in vec![
        MechanismKind::Podman,
        MechanismKind::Mac,
        MechanismKind::Krun,
        MechanismKind::Auto,
    ] {
        assert_eq!(MechanismKind::from_str(kind.as_str()), Ok(kind));
        assert_eq!(MechanismKind::from_str(&kind.as_str().to_uppercase()), Ok(kind));
    }
    assert_eq!(MechanismKind::from_str("Seatbelt"), Ok(MechanismKind::Mac));
    assert_eq!(MechanismKind::from_str("linux"), Ok(MechanismKind::Podman));
    assert_eq!(
        MechanismKind::from_str("QEMU").unwrap_err(),
        PolicyError::Invalid(
            "unknown mechanism 'qemu' (expected podman|mac|krun|auto)".to_string()
        )
    );
}

#[test]
fn keys_identify_endpoints() {
    let e = NetworkEndpoint { host: "API.GitHub.com".to_string(), port: 443 };
    assert_eq!(e.key(), "api.github.com:443");
    assert_eq!(key_of("h", 1), "h:1");
    assert_ne!(key_of("h:1", 1), key_of("h", 1));
}

#[test]
fn host_paths_are_resolved() {
    let fs = FilesystemPolicy {
        workdir: true,
        read_only: texts(&["/etc", "docs"]),
        read_write: texts(&["out", "/tmp"]),
    };
    let (ro, rw) = resolve_host_paths(&fs, "/home/me");
    assert_eq!(ro, texts(&["/etc", "/home/me/docs"]));
    assert_eq!(rw, texts(&["/home/me/out", "/tmp", "/home/me"]));
    let fs = FilesystemPolicy { workdir: true, read_only: vec![], read_write: texts(&["/home/me/"]) };
    assert_eq!(resolve_host_paths(&fs, "/home/me").1, texts(&["/home/me/"]));
    let fs = FilesystemPolicy { workdir: false, read_only: vec![], read_write: vec![] };
    assert_eq!(resolve_host_paths(&fs, "/home/me").1, Vec::<String>::new());
}

#[test]
fn unwanted_mechanism_is_auto() {
    let mut p = SandboxPolicy::default();
    assert_eq!(p.mechanism_or_auto(), MechanismKind::Auto);
    p.mechanism = Some(MechanismKind::Krun);
    assert_eq!(p.mechanism_or_auto(), MechanismKind::Krun);
}

#[test]
fn cpu_limits_speak_of_one_number() {
    for value in vec![2.0, 0.5, 0.0, -0.0, -1.5, 1e-9, f64::NAN, f64::INFINITY, -f64::INFINITY] {
        let limit = cpus(value);
        assert_eq!(limit.zero_or_less, limit.text == "0" || limit.text.starts_with('-'));
        if limit.zero_or_less {
            assert_eq!((limit.millicores, limit.hour_seconds), (0, 0));
            let mut p = SandboxPolicy::default();
            p.resources.cpus = limit;
            assert_eq!(
                p.validate(),
                Err(PolicyError::Invalid("resources.cpus must be > 0".to_string()))
            );
        }
    }
}
