use csfx::metrics::format_uptime;
use csfx::semver::{is_newer, parse_semver};

fn reference_parse_semver(v: &str) -> Option<(u32, u32, u32, Option<String>)> {
    let v = v.trim_start_matches('v');
    let (base, pre) = match v.split_once('-') {
        Some((b, p)) => (b, Some(p.to_string())),
        None => (v, None),
    };
    let parts: Vec<&str> = base.split('.').collect();
    if parts.len() != 3 {
        return None;
    }
    Some((parts[0].parse().ok()?, parts[1].parse().ok()?, parts[2].parse().ok()?, pre))
}

fn reference_is_newer(candidate: &str, current: &str) -> bool {
    reference_parse_semver(candidate)
        .zip(reference_parse_semver(current))
        .map(|(c, cur)| c > cur)
        .unwrap_or(false)
}

const VERSIONS: &[&str] = &[
    "1.2.3", "v1.2.3", "vv1.2.3", "1.2", "1.2.3.4", "1.2.x", "1.10.0", "1.9.9", "0.0.0",
    "1.0.0-alpha", "1.0.0-beta", "1.0.0-", "1.0.0-rc-1", "v2.0.0-rc.1", "4294967295.0.0",
    "4294967296.0.0", "+1.2.3", "", "v", "1..3", "é.1.1", "1.0.0-é", "1.0.0-z",
];

#[test]
fn parse_semver_examples() {
    assert_eq!(parse_semver("v1.2.3"), Some((1, 2, 3, None)));
    assert_eq!(parse_semver("1.2.3-rc.1"), Some((1, 2, 3, Some("rc.1".to_string()))));
    assert_eq!(parse_semver("1.2"), None);
    assert_eq!(parse_semver("1.2.3.4"), None);
    assert_eq!(parse_semver("1.2.x"), None);
}

#[test]
fn parse_semver_matches_reference() {
    for v in VERSIONS {
        assert_eq!(parse_semver(v), reference_parse_semver(v), "{:?}", v);
    }
}

#[test]
fn is_newer_examples() {
    assert!(is_newer("1.10.0", "1.9.9"));
    assert!(is_newer("v2.0.0", "1.99.99"));
    assert!(!is_newer("1.2.3", "1.2.3"));
    assert!(!is_newer("1.2.3", "v1.2.3"));
    assert!(is_newer("1.0.0-alpha", "1.0.0"));
    assert!(is_newer("1.0.0-beta", "1.0.0-alpha"));
    assert!(!is_newer("garbage", "1.0.0"));
    assert!(!is_newer("1.0.0", "garbage"));
}

#[test]
fn is_newer_matches_reference_and_is_an_order() {
    for a in VERSIONS {
        assert!(!is_newer(a, a));
        for b in VERSIONS {
            assert_eq!(is_newer(a, b), reference_is_newer(a, b), "{:?} {:?}", a, b);
            if is_newer(a, b) {
                assert!(!is_newer(b, a));
            }
            for c in VERSIONS {
                if is_newer(a, b) && is_newer(b, c) {
                    assert!(is_newer(a, c));
                }
            }
        }
    }
}

#[test]
fn leading_v_does_not_matter() {
    for v in VERSIONS {
        assert_eq!(parse_semver(&format!("v{}", v)), parse_semver(v));
    }
}

fn reference_format_uptime(seconds: i64) -> String {
    let days = seconds / 86400;
    let hours = (seconds % 86400) / 3600;
    let minutes = (seconds % 3600) / 60;
    format!("{}d {}h {}m", days, hours, minutes)
}

#[test]
fn format_uptime_examples() {
    assert_eq!(format_uptime(90061), "1d 1h 1m");
    assert_eq!(format_uptime(0), "0d 0h 0m");
    assert_eq!(format_uptime(59), "0d 0h 0m");
    assert_eq!(format_uptime(3600 * 49 + 120), "2d 1h 2m");
    assert_eq!(format_uptime(-90061), "-1d -1h -1m");
}

#[test]
fn format_uptime_matches_reference() {
    for s in [0, 1, 59, 60, 3599, 3600, 86399, 86400, 1234567, -1, -61, -3601, -86401, i64::MIN, i64::MAX] {
        assert_eq!(format_uptime(s), reference_format_uptime(s), "{}", s);
    }
}

#[test]
fn formatted_versions_parse_back() {
    for &(a, b, c) in &[(0u32, 0u32, 0u32), (1, 2, 3), (10, 0, 7), (u32::MAX, 42, u32::MAX)] {
        assert_eq!(parse_semver(&format!("{}.{}.{}", a, b, c)), Some((a, b, c, None)));
        for p in ["", "rc.1", "beta-2", "-"] {
            assert_eq!(
                parse_semver(&format!("v{}.{}.{}-{}", a, b, c, p)),
                Some((a, b, c, Some(p.to_string())))
            );
        }
    }
}
