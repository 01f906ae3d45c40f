use csfx::update::{build_steps, target_of, watch_finished, Phase, UpdateStatus};

fn status(
    desired: Option<&str>,
    available: Option<&str>,
    desired_rev: Option<&str>,
    build: Option<&str>,
    last: Option<&str>,
) -> UpdateStatus {
    UpdateStatus {
        current_version: "1.0.0".to_string(),
        desired_version: desired.map(|s| s.to_string()),
        available_flake_rev: available.map(|s| s.to_string()),
        desired_flake_rev: desired_rev.map(|s| s.to_string()),
        build_status: build.map(|s| s.to_string()),
        last_result: last.map(|s| s.to_string()),
        paused: false,
    }
}

fn phases(st: &UpdateStatus) -> Vec<Phase> {
    build_steps(st, None).iter().map(|s| s.phase).collect()
}

#[test]
fn nothing_requested_is_all_pending() {
    let st = status(None, None, None, None, None);
    let steps = build_steps(&st, None);
    assert_eq!(steps.len(), 4);
    assert_eq!(steps[0].label, "Resolving version to flake rev");
    assert_eq!(steps[1].label, "Mirroring repository");
    assert_eq!(steps[2].label, "Building NixOS closure");
    assert_eq!(steps[3].label, "Applying (nixos-rebuild switch)");
    assert!(steps.iter().all(|s| s.phase == Phase::Pending && s.detail.is_none()));
    assert!(!watch_finished(&steps));
}

#[test]
fn resolving_then_failing() {
    let st = status(Some("1.2.0"), None, None, None, None);
    assert_eq!(phases(&st), vec![Phase::Active, Phase::Pending, Phase::Pending, Phase::Pending]);
    let st = status(Some("1.2.0"), None, None, Some("failed"), None);
    assert_eq!(phases(&st), vec![Phase::Failed, Phase::Pending, Phase::Pending, Phase::Pending]);
    assert!(watch_finished(&build_steps(&st, None)));
    let st = status(Some("1.2.0"), None, None, None, Some("failed"));
    assert_eq!(phases(&st)[0], Phase::Failed);
}

#[test]
fn mirroring_and_building() {
    let st = status(Some("1.2.0"), Some("abcdef0123456789"), Some("0000"), None, None);
    let steps = build_steps(&st, None);
    assert_eq!(steps[0].phase, Phase::Done);
    assert_eq!(steps[0].detail.as_deref(), Some("sha:abcdef01"));
    assert_eq!(steps[1].phase, Phase::Active);
    let st = status(Some("1.2.0"), Some("abc"), Some("abc"), Some("building"), None);
    let steps = build_steps(&st, None);
    assert_eq!(steps[0].detail.as_deref(), Some("sha:abc"));
    assert_eq!(
        steps.iter().map(|s| s.phase).collect::<Vec<_>>(),
        vec![Phase::Done, Phase::Done, Phase::Active, Phase::Pending]
    );
    let st = status(Some("1.2.0"), Some("abc"), Some("abd"), None, Some("failed"));
    assert_eq!(phases(&st)[1], Phase::Failed);
    let st = status(Some("1.2.0"), Some("abc"), Some("abc"), Some("failed"), None);
    assert_eq!(phases(&st), vec![Phase::Done, Phase::Done, Phase::Failed, Phase::Pending]);
}

#[test]
fn applied_update_finishes_the_watch() {
    let st = status(Some("1.2.0"), Some("abc"), Some("abc"), Some("ready"), Some("success"));
    let steps = build_steps(&st, Some("1.2.0"));
    assert!(steps.iter().all(|s| s.phase == Phase::Done));
    assert_eq!(steps[3].detail.as_deref(), Some("-> 1.2.0"));
    assert!(watch_finished(&steps));
    let steps = build_steps(&st, None);
    assert_eq!(steps[3].detail.as_deref(), Some("-> 1.2.0"));
    let mut other = status(None, None, None, None, None);
    other.last_result = Some("success".to_string());
    assert_eq!(target_of(&other, None), "?");
    assert_eq!(target_of(&other, Some("9.9.9")), "9.9.9");
}

#[test]
fn steps_are_always_in_order() {
    let texts = [None, Some("building"), Some("ready"), Some("failed"), Some("success"), Some("x")];
    let revs = [None, Some("r1"), Some("r2")];
    for d in [None, Some("1.0.0")] {
        for a in revs {
            for dr in revs {
                for b in texts {
                    for l in texts {
                        let p = phases(&status(d, a, dr, b, l));
                        for k in 1..4 {
                            if p[k] != Phase::Pending {
                                assert_eq!(p[k - 1], Phase::Done);
                            }
                        }
                        assert!(p[3] == Phase::Pending || p[3] == Phase::Done);
                    }
                }
            }
        }
    }
}
