use csfx::details::{
    agent_details, agent_facts, agent_metrics_heading, allocation_details, organization_details,
    user_details, AgentFacts,
};
use csfx::rows::RegistryAgent;
use csfx::update::{elapsed_clock, result_tone, spinner_frame, update_scheduled, Tone};

fn kv(pairs: &[(&'static str, &str)]) -> Vec<(&'static str, String)> {
    pairs.iter().map(|(k, v)| (*k, v.to_string())).collect()
}

#[test]
fn agent_detail_lines() {
    let a = RegistryAgent {
        id: "id-1".to_string(),
        name: "edge".to_string(),
        hostname: "edge.local".to_string(),
        ip_address: None,
        agent_version: "0.1".to_string(),
        os_type: "nixos".to_string(),
        architecture: "aarch64".to_string(),
        status: "online".to_string(),
        last_heartbeat: None,
        registered_at: "2024-01-01".to_string(),
    };
    assert_eq!(
        agent_details(&a),
        kv(&[
            ("ID", "id-1"),
            ("Name", "edge"),
            ("Hostname", "edge.local"),
            ("IP", "-"),
            ("OS", "nixos"),
            ("Architecture", "aarch64"),
            ("Agent Version", "0.1"),
            ("Status", "online"),
            ("Last Heartbeat", "never"),
            ("Registered", "2024-01-01"),
        ])
    );
}

#[test]
fn tenant_detail_lines() {
    assert_eq!(
        user_details(Some("u1"), Some("bob"), None, Some("admin"), Some(true), None, Some("2024")),
        kv(&[
            ("ID", "u1"),
            ("Username", "bob"),
            ("Email", "-"),
            ("Role", "admin"),
            ("2FA", "enabled"),
            ("Force PW Change", "no"),
            ("Joined", "2024"),
        ])
    );
    assert_eq!(
        organization_details(None, Some("acme"), None, None),
        kv(&[("ID", "-"), ("Name", "acme"), ("Description", "-"), ("Created", "-")])
    );
}

#[test]
fn allocation_lines_round_toward_zero() {
    assert_eq!(
        allocation_details(500, 536870912, 10737418240),
        kv(&[("Allocated CPU", "500 millicores"), ("Allocated Memory", "512 MB"), ("Allocated Disk", "10 GB")])
    );
    for (m, d) in [(1048575i64, -1i64), (-2097152, i64::MIN), (i64::MAX, 1073741823)] {
        let lines = allocation_details(-7, m, d);
        assert_eq!(lines[0].1, "-7 millicores");
        assert_eq!(lines[1].1, format!("{} MB", m / 1024 / 1024));
        assert_eq!(lines[2].1, format!("{} GB", d / 1024 / 1024 / 1024));
    }
}

#[test]
fn agent_fact_lines() {
    let f = AgentFacts {
        hostname: Some("n1".to_string()),
        os_name: Some("NixOS".to_string()),
        os_version: None,
        kernel_version: None,
        uptime_seconds: Some(3661),
        timestamp: Some("2024-05-01T10:20:30.123Z".to_string()),
    };
    assert_eq!(
        agent_facts(&f),
        kv(&[("As of", "2024-05-01T10:20"), ("Hostname", "n1"), ("OS", "NixOS "), ("Uptime", "0d 1h 1m")])
    );
    let empty = AgentFacts { hostname: None, os_name: None, os_version: None, kernel_version: None, uptime_seconds: None, timestamp: None };
    assert!(agent_facts(&empty).is_empty());
    assert_eq!(agent_metrics_heading("0123456789"), "Node Metrics  /  01234567");
    assert_eq!(agent_metrics_heading("abc"), "Node Metrics  /  abc");
}

#[test]
fn watch_display_pieces() {
    assert_eq!(spinner_frame(0), "⠋");
    assert_eq!(spinner_frame(13), "⠸");
    assert_eq!(spinner_frame(255), "⠴");
    assert_eq!(elapsed_clock(0), "00:00");
    assert_eq!(elapsed_clock(75), "01:15");
    assert_eq!(elapsed_clock(6000), "100:00");
    for s in [0u64, 9, 59, 61, 600, 3599, 123456] {
        assert_eq!(elapsed_clock(s), format!("{:02}:{:02}", s / 60, s % 60));
    }
    assert_eq!(result_tone("success"), Tone::Good);
    assert_eq!(result_tone("failed"), Tone::Bad);
    assert_eq!(result_tone("running"), Tone::Neutral);
    assert!(update_scheduled(Some("update_scheduled")));
    assert!(!update_scheduled(Some("queued")));
    assert!(!update_scheduled(None));
}
