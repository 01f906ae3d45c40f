use csfx::releases::{release_report, Release};
use csfx::session::{base_url, bearer, credentials, stored_token, Config};
use csfx::ssh::{connect_address, find_agent, lookup_by_id, warn_offline, AgentInfo};

fn config(token: Option<&str>) -> Config {
    Config {
        server: "http://localhost:8000/".to_string(),
        token: token.map(|t| t.to_string()),
        compose_dir: None,
        ghcr_org: None,
    }
}

#[test]
fn base_url_examples() {
    assert_eq!(base_url("http://localhost:8000"), "http://localhost:8000/api");
    assert_eq!(base_url("http://localhost:8000/"), "http://localhost:8000/api");
    assert_eq!(base_url("http://h//"), "http://h/api");
    assert_eq!(base_url(""), "/api");
    assert_eq!(bearer("abc"), "Bearer abc");
}

#[test]
fn credentials_need_a_token() {
    assert_eq!(credentials(None), Err("not authenticated, run: csf login".to_string()));
    assert_eq!(credentials(Some(config(None))), Err("not authenticated, run: csf login".to_string()));
    assert_eq!(
        credentials(Some(config(Some("jwt")))),
        Ok(("http://localhost:8000/".to_string(), "jwt".to_string()))
    );
    assert_eq!(stored_token(None), Err("Not logged in".to_string()));
    assert_eq!(stored_token(Some(config(None))), Err("No token stored".to_string()));
    assert_eq!(stored_token(Some(config(Some("jwt")))), Ok("jwt".to_string()));
}

fn release(tag: &str, pre: bool) -> Release {
    Release { tag_name: tag.to_string(), prerelease: pre, html_url: String::new(), name: None }
}

#[test]
fn release_report_prefers_stable() {
    let rs = vec![release("v1.3.0-rc.1", true), release("v1.2.0", false), release("v1.1.0", false)];
    let r = release_report(&rs, false, "1.1.0");
    assert_eq!(r.lines.len(), 2);
    assert_eq!(r.lines[0].version, "1.2.0");
    assert!(r.lines[0].is_newer && !r.lines[0].is_current);
    assert!(r.lines[1].is_current && !r.lines[1].is_newer);
    assert_eq!(r.latest.as_deref(), Some("1.2.0"));
    assert!(r.update_available);
    let r = release_report(&rs, true, "1.2.0");
    assert_eq!(r.lines.len(), 3);
    assert!(r.lines[0].prerelease);
    assert_eq!(r.latest.as_deref(), Some("1.2.0"));
    assert!(!r.update_available);
}

#[test]
fn release_report_edge_cases() {
    let r = release_report(&vec![], true, "1.0.0");
    assert!(r.lines.is_empty() && r.latest.is_none() && !r.update_available);
    let only_pre = vec![release("v2.0.0-beta", true)];
    let r = release_report(&only_pre, true, "1.0.0");
    assert_eq!(r.latest.as_deref(), Some("2.0.0-beta"));
    assert!(r.update_available);
    let r = release_report(&only_pre, false, "1.0.0");
    assert!(r.lines.is_empty() && r.latest.is_none());
    let many: Vec<Release> = (0..15).map(|i| release(&format!("v1.0.{}", 15 - i), false)).collect();
    let r = release_report(&many, false, "1.0.3");
    assert_eq!(r.lines.len(), 10);
    assert_eq!(r.lines[9].version, "1.0.6");
}

#[test]
fn uuid_detection_matches_the_uuid_crate() {
    let samples = [
        "550e8400-e29b-41d4-a716-446655440000",
        "550E8400E29B41D4A716446655440000",
        "{550e8400-e29b-41d4-a716-446655440000}",
        "urn:uuid:550e8400-e29b-41d4-a716-446655440000",
        "URN:UUID:550e8400-e29b-41d4-a716-446655440000",
        "550e8400-e29b-41d4-a716-44665544000g",
        "550e8400e29b-41d4-a716-4466554400000",
        "node-1",
        "",
    ];
    for s in samples {
        assert_eq!(lookup_by_id(s), uuid::Uuid::parse_str(s).is_ok(), "{:?}", s);
    }
    assert!(lookup_by_id("550e8400-e29b-41d4-a716-446655440000"));
    assert!(!lookup_by_id("node-1"));
}

fn agent(name: &str, host: &str, ip: Option<&str>, status: &str) -> AgentInfo {
    AgentInfo {
        id: "id".to_string(),
        name: name.to_string(),
        hostname: host.to_string(),
        ip_address: ip.map(|s| s.to_string()),
        status: status.to_string(),
    }
}

#[test]
fn finding_nodes() {
    let agents = vec![agent("a", "host-a", None, "online"), agent("b", "host-b", Some(""), "offline"), agent("c", "a", Some("10.0.0.3"), "online")];
    assert_eq!(find_agent(&agents, "a"), Some(0));
    assert_eq!(find_agent(&agents, "host-b"), Some(1));
    assert_eq!(find_agent(&agents, "zz"), None);
    assert_eq!(connect_address(&agents[0]), "host-a");
    assert_eq!(connect_address(&agents[1]), "host-b");
    assert_eq!(connect_address(&agents[2]), "10.0.0.3");
    assert!(!warn_offline(&agents[0]));
    assert!(warn_offline(&agents[1]));
}
