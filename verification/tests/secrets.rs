use simple_sandbox::policy::SecretRef;
use simple_sandbox::secrets::{
    load_secret_bytes, resolve_secrets, secret_env, secret_source, secret_text, SecretError,
    SecretMap, SecretSource,
};

fn reference(env: &str, from: &str) -> SecretRef {
    SecretRef { env: env.to_string(), from: from.to_string() }
}

/// A host with one variable and one file.
fn host(source: &SecretSource) -> Result<Vec<u8>, String> {
    match source {
        SecretSource::Env(name) if name == "SSBX_TEST_SECRET" => Ok(b"from-env".to_vec()),
        SecretSource::File(path) if path == "/root/dir/token" => Ok(b"from-file\n".to_vec()),
        SecretSource::File(path) if path == "/abs/raw" => Ok(vec![0x66, 0xff]),
        SecretSource::File(_) => Err("No such file".to_string()),
        _ => Err("environment variable not found".to_string()),
    }
}

fn lock(bytes: &Vec<u8>) -> Result<Vec<u8>, String> {
    Ok(bytes.iter().rev().cloned().collect())
}

fn read(buf: &Vec<u8>) -> Result<Vec<u8>, String> {
    Ok(buf.iter().rev().cloned().collect())
}

fn pair(name: &str, value: &str) -> (String, String) {
    (name.to_string(), value.to_string())
}

#[test]
fn resolve_from_value() {
    let refs = vec![SecretRef {
        env: "TOKEN".into(),
        from: "value:abc123".into(),
    }];
    let map = resolve_secrets(&refs, ".", host, lock).unwrap();
    let pairs = map.to_env_pairs(read).unwrap();
    assert_eq!(pairs, vec![("TOKEN".into(), "abc123".into())]);
}

#[test]
fn resolve_from_env() {
    let refs = vec![SecretRef {
        env: "INJECTED".into(),
        from: "env:SSBX_TEST_SECRET".into(),
    }];
    let map = resolve_secrets(&refs, ".", host, lock).unwrap();
    let pairs = map.to_env_pairs(read).unwrap();
    assert_eq!(pairs[0].1, "from-env");
}

#[test]
fn resolve_from_file_and_plain_name() {
    let refs = vec![reference("A", "file:token"), reference("B", "SSBX_TEST_SECRET")];
    let mut pairs = secret_env(&refs, "/root/dir", host, lock, read).unwrap();
    pairs.sort();
    assert_eq!(pairs, vec![pair("A", "from-file\n"), pair("B", "from-env")]);
}

#[test]
fn last_reference_for_a_variable_holds() {
    let refs = vec![reference("A", "value:1"), reference("B", "value:2"), reference("A", "value:3")];
    let map = resolve_secrets(&refs, ".", host, lock).unwrap();
    assert_eq!(map.len(), 2);
    assert!(!map.is_empty());
    let mut pairs = map.to_env_pairs(read).unwrap();
    pairs.sort();
    assert_eq!(pairs, vec![pair("A", "3"), pair("B", "2")]);
}

#[test]
fn no_references_no_variables() {
    let map = resolve_secrets(&vec![], ".", host, lock).unwrap();
    assert!(map.is_empty());
    assert_eq!(map.len(), 0);
    let empty: SecretMap<Vec<u8>> = SecretMap::default();
    assert_eq!(empty.to_env_pairs(read).unwrap(), vec![]);
}

#[test]
fn inserting_replaces() {
    let mut map: SecretMap<Vec<u8>> = SecretMap::new();
    map.insert("K".to_string(), b"a".to_vec());
    map.insert("K".to_string(), b"b".to_vec());
    assert_eq!(map.len(), 1);
    assert_eq!(map.to_env_pairs(|b: &Vec<u8>| Ok(b.clone())).unwrap(), vec![pair("K", "b")]);
}

#[test]
fn sources_are_named_by_prefix() {
    assert_eq!(secret_source("env:A:B", "/r"), SecretSource::Env("A:B".to_string()));
    assert_eq!(secret_source("file:x/y", "/r"), SecretSource::File("/r/x/y".to_string()));
    assert_eq!(secret_source("file:/x", "/r"), SecretSource::File("/x".to_string()));
    assert_eq!(secret_source("value:", "/r"), SecretSource::Value(String::new()));
    assert_eq!(secret_source("PLAIN", "/r"), SecretSource::Env("PLAIN".to_string()));
    assert_eq!(secret_source("vault:x", "/r"), SecretSource::Unsupported);
}

#[test]
fn missing_sources_are_reported() {
    assert_eq!(
        load_secret_bytes("env:NOPE", ".", &host).unwrap_err().message(),
        "secret source unavailable: host env var 'NOPE' not set"
    );
    assert_eq!(
        load_secret_bytes("file:nope", "/r", &host).unwrap_err().message(),
        "secret source unavailable: cannot read secret file /r/nope: No such file"
    );
    assert_eq!(
        load_secret_bytes("vault:x", ".", &host).unwrap_err().message(),
        "unsupported secret from 'vault:x' (use env:NAME, file:PATH, or value:TEXT)"
    );
    let refs = vec![reference("A", "value:1"), reference("B", "env:NOPE")];
    assert!(matches!(
        secret_env(&refs, ".", host, lock, read),
        Err(SecretError::Unavailable(_))
    ));
}

#[test]
fn locked_memory_errors_are_reported() {
    let refs = vec![reference("A", "value:1")];
    let refused = secret_env(
        &refs,
        ".",
        host,
        |_: &Vec<u8>| -> Result<Vec<u8>, String> { Err("mlock".to_string()) },
        read,
    );
    assert_eq!(refused.unwrap_err().message(), "secure-memory error: mlock");
    let gone = secret_env(
        &refs,
        ".",
        host,
        lock,
        |_: &Vec<u8>| -> Result<Vec<u8>, String> { Err("gone".to_string()) },
    );
    assert_eq!(gone.unwrap_err(), SecretError::SecureMemory("gone".to_string()));
}

#[test]
fn secrets_that_are_no_text_are_reported() {
    let refs = vec![reference("RAW", "file:/abs/raw")];
    assert_eq!(
        secret_env(&refs, ".", host, lock, read).unwrap_err().message(),
        "secret source unavailable: secret RAW not utf-8: invalid utf-8 sequence of 1 bytes from index 1"
    );
    assert_eq!(secret_text("S", &"grüße".as_bytes().to_vec()).unwrap(), "grüße");
}

#[test]
fn first_failing_reference_decides() {
    let refs = vec![
        reference("A", "value:1"),
        reference("B", "env:FIRST"),
        reference("C", "vault:second"),
        reference("B", "value:2"),
    ];
    let unset = SecretError::Unavailable("host env var 'FIRST' not set".to_string());
    match resolve_secrets(&refs, ".", host, lock) {
        Err(e) => assert_eq!(e, unset),
        Ok(_) => panic!("a failing reference was passed over"),
    }
    let refs = vec![reference("B", "env:FIRST"), reference("B", "value:2")];
    assert_eq!(secret_env(&refs, ".", host, lock, read), Err(unset));
    let pick = |bytes: &Vec<u8>| -> Result<Vec<u8>, String> {
        if bytes == b"x" { Err("mlock".to_string()) } else { Ok(bytes.clone()) }
    };
    let refs = vec![reference("A", "value:x"), reference("B", "env:FIRST")];
    assert_eq!(
        secret_env(&refs, ".", host, pick, read),
        Err(SecretError::SecureMemory("mlock".to_string()))
    );
}
