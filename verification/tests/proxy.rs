use simple_sandbox::proxy::{
    allow_from_endpoints, is_allowed, normalize_allow, on_line, on_upstream, AllowSet, Reply,
    RequestState, RequestStep,
};

fn endpoint(host: &str, port: u16) -> (String, u16) {
    (host.to_string(), port)
}

/// Feeds a client's request line by line, then the end of the input.
fn answer(allow: &AllowSet, request: &str) -> RequestStep {
    let mut state = RequestState::Start;
    let mut lines: Vec<String> = request.split_inclusive('\n').map(|l| l.to_string()).collect();
    lines.push(String::new());
    lines.push(String::new());
    for line in lines {
        match on_line(state, line, allow) {
            RequestStep::Read(next) => state = next,
            step => return step,
        }
    }
    panic!("the request did not end")
}

#[test]
fn denies_unknown_host() {
    let allow = allow_from_endpoints(vec![endpoint("example.com", 443)]);
    let step = answer(
        &normalize_allow(&allow),
        "CONNECT evil.test:443 HTTP/1.1\r\nHost: evil.test:443\r\n\r\n",
    );
    match step {
        RequestStep::Refuse(reply) => {
            let resp = reply.as_str();
            assert!(resp.contains("403"), "got {resp}");
        }
        other => panic!("got {:?}", other),
    }
}

#[test]
fn allow_helper() {
    let a = allow_from_endpoints(vec![("API.GitHub.com".into(), 443)]);
    assert!(is_allowed(&a, "api.github.com", 443));
    assert!(!is_allowed(&a, "evil.test", 443));
}

#[test]
fn connects_to_an_endpoint_in_any_case() {
    let allow = normalize_allow(&allow_from_endpoints(vec![
        endpoint("Example.com", 443),
        endpoint("db.local", 5432),
    ]));
    match answer(&allow, "connect EXAMPLE.COM:443 HTTP/1.1\r\nA: b\r\n\r\n") {
        RequestStep::Connect(key) => assert_eq!(key, "example.com:443"),
        other => panic!("got {:?}", other),
    }
    match answer(&allow, "CONNECT example.com HTTP/1.1\n\n") {
        RequestStep::Connect(key) => assert_eq!(key, "example.com:443"),
        other => panic!("got {:?}", other),
    }
    match answer(&allow, "CONNECT db.local:5432 HTTP/1.1\r\n") {
        RequestStep::Connect(key) => assert_eq!(key, "db.local:5432"),
        other => panic!("got {:?}", other),
    }
    assert!(matches!(
        answer(&allow, "CONNECT db.local HTTP/1.1\r\n\r\n"),
        RequestStep::Refuse(Reply::Forbidden)
    ));
}

#[test]
fn serves_connect_alone() {
    let allow = allow_from_endpoints(vec![endpoint("example.com", 443)]);
    for line in vec!["GET http://example.com/ HTTP/1.1\r\n\r\n", "CONNECT\r\n\r\n", "\r\n\r\n"] {
        assert!(matches!(
            answer(&allow, line),
            RequestStep::Refuse(Reply::MethodNotAllowed)
        ));
    }
    assert!(matches!(answer(&allow, ""), RequestStep::Hangup));
}

#[test]
fn empty_set_denies_all() {
    let allow = AllowSet::new();
    assert_eq!(allow.len(), 0);
    assert!(matches!(
        answer(&allow, "CONNECT example.com:443 HTTP/1.1\r\n\r\n"),
        RequestStep::Refuse(Reply::Forbidden)
    ));
}

#[test]
fn sets_hold_a_key_once() {
    let allow = allow_from_endpoints(vec![endpoint("h", 1), endpoint("H", 1), endpoint("h", 2)]);
    assert_eq!(allow.len(), 2);
    assert!(allow.contains("h:1"));
    assert!(!allow.contains("H:1"));
    let more = AllowSet::new().with("Api.Test".to_string()).with("x:80".to_string());
    let normal = normalize_allow(&more);
    assert!(normal.contains("api.test:443"));
    assert!(normal.contains("x:80"));
    assert_eq!(normal.len(), 2);
}

#[test]
fn replies_are_http() {
    assert_eq!(on_upstream(true), Reply::Established);
    assert_eq!(on_upstream(false), Reply::BadGateway);
    assert_eq!(Reply::Established.as_str(), "HTTP/1.1 200 Connection Established\r\n\r\n");
    assert_eq!(
        Reply::MethodNotAllowed.as_str(),
        "HTTP/1.1 405 Method Not Allowed\r\nConnection: close\r\n\r\n"
    );
    assert_eq!(Reply::Forbidden.as_str(), "HTTP/1.1 403 Forbidden\r\nConnection: close\r\n\r\n");
    assert_eq!(Reply::BadGateway.as_str(), "HTTP/1.1 502 Bad Gateway\r\nConnection: close\r\n\r\n");
}
