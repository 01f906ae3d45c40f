//! Progress of a cluster update, as `system update` and `system
//! update-watch` show it: four steps, each pending, active, done or failed,
//! computed from the status that the server reports.
use vstd::prelude::*;
use crate::semver::opt_view;
use crate::text::{
    byte_len, decimal, format_u64, head, head_bytes, head_bytes_defined, is_ascii_text,
    lemma_ascii_byte_len, lemma_ascii_prefix_within_bytes, str_equal,
};

verus! {

/// What the server reports about an update in progress.
pub struct UpdateStatus {
    pub current_version: String,
    pub desired_version: Option<String>,
    pub available_flake_rev: Option<String>,
    pub desired_flake_rev: Option<String>,
    pub build_status: Option<String>,
    pub last_result: Option<String>,
    pub paused: bool,
}

/// The state of one step of an update.
#[derive(Debug, PartialEq, Eq, Structural, Clone, Copy)]
pub enum Phase {
    Pending,
    Active,
    Done,
    Failed,
}

/// One line of the progress display.
pub struct Step {
    pub label: &'static str,
    pub phase: Phase,
    pub detail: Option<String>,
}

/// `o` holds exactly the text `t`.
pub open spec fn holds(o: Option<String>, t: Seq<char>) -> bool {
    o matches Some(s) && s@ == t
}

/// The last update failed as a whole.
pub open spec fn globally_failed(st: UpdateStatus) -> bool {
    holds(st.last_result, "failed"@)
}

/// Step 1: resolving the requested version to a flake revision.
pub open spec fn phase_resolve(st: UpdateStatus) -> Phase {
    if st.desired_version is Some {
        if st.available_flake_rev is Some {
            Phase::Done
        } else if globally_failed(st) || holds(st.build_status, "failed"@) {
            Phase::Failed
        } else {
            Phase::Active
        }
    } else {
        Phase::Pending
    }
}

/// Step 2: mirroring the repository at that revision.
pub open spec fn phase_mirror(st: UpdateStatus) -> Phase {
    if phase_resolve(st) == Phase::Done {
        if opt_view(st.available_flake_rev) == opt_view(st.desired_flake_rev) {
            Phase::Done
        } else if globally_failed(st) {
            Phase::Failed
        } else {
            Phase::Active
        }
    } else {
        Phase::Pending
    }
}

/// Step 3: building the system closure.
pub open spec fn phase_build(st: UpdateStatus) -> Phase {
    if phase_mirror(st) == Phase::Done {
        if holds(st.build_status, "building"@) {
            Phase::Active
        } else if (holds(st.build_status, "ready"@) || holds(st.build_status, "failed"@))
            && holds(st.last_result, "success"@) {
            Phase::Done
        } else if holds(st.build_status, "failed"@) {
            Phase::Failed
        } else {
            Phase::Pending
        }
    } else {
        Phase::Pending
    }
}

/// Step 4: applying the new system.
pub open spec fn phase_apply(st: UpdateStatus) -> Phase {
    if phase_build(st) == Phase::Done && holds(st.last_result, "success"@) {
        Phase::Done
    } else {
        Phase::Pending
    }
}

/// The view of an optional string slice.
pub open spec fn opt_str_view(o: Option<&str>) -> Option<Seq<char>> {
    match o {
        Some(s) => Some(s@),
        None => None,
    }
}

/// The version the display names: the one asked for, else the one the
/// server wants, else `?`.
pub open spec fn target_label(st: UpdateStatus, target: Option<Seq<char>>) -> Seq<char> {
    match target {
        Some(t) => t,
        None => match st.desired_version {
            Some(d) => d@,
            None => "?"@,
        },
    }
}

/// The short form of a revision is defined: its first eight bytes (or all
/// of it) end on a character boundary.
pub open spec fn short_rev_defined(r: Seq<char>) -> bool {
    head_bytes_defined(r, 8)
}

/// `sha:` and the first eight bytes of the revision.
pub open spec fn short_rev(r: Seq<char>) -> Seq<char> {
    "sha:"@ + head_bytes(r, 8)
}

/// The detail shown beside step 1.
pub open spec fn resolve_detail(st: UpdateStatus) -> Option<Seq<char>> {
    match st.available_flake_rev {
        Some(r) => Some(short_rev(r@)),
        None => None,
    }
}

/// The detail shown beside step 4.
pub open spec fn apply_detail(st: UpdateStatus, target: Option<Seq<char>>) -> Option<Seq<char>> {
    if st.last_result is Some && phase_apply(st) == Phase::Done {
        Some("-> "@ + target_label(st, target))
    } else {
        None
    }
}

/// Whether `o` holds exactly the text `t`.
pub fn holds_text(o: &Option<String>, t: &str) -> (r: bool)
    ensures
        r == holds(*o, t@),
{
    match o {
        Some(s) => str_equal(s.as_str(), t),
        None => false,
    }
}

/// Whether two optional strings are equal.
pub fn same_text(a: &Option<String>, b: &Option<String>) -> (r: bool)
    ensures
        r == (opt_view(*a) == opt_view(*b)),
{
    match (a, b) {
        (Some(x), Some(y)) => str_equal(x.as_str(), y.as_str()),
        (None, None) => true,
        _ => false,
    }
}

/// The version the display names.
pub fn target_of<'a>(status: &'a UpdateStatus, target_version: Option<&'a str>) -> (r: &'a str)
    ensures
        r@ == target_label(*status, opt_str_view(target_version)),
{
    match target_version {
        Some(t) => t,
        None => match &status.desired_version {
            Some(d) => d.as_str(),
            None => "?",
        },
    }
}

/// The four steps of the update with their states and details.
pub fn build_steps(status: &UpdateStatus, target_version: Option<&str>) -> (steps: Vec<Step>)
    requires
        status.available_flake_rev matches Some(r) ==> short_rev_defined(r@),
    ensures
        steps@.len() == 4,
        steps@[0].label@ == "Resolving version to flake rev"@,
        steps@[1].label@ == "Mirroring repository"@,
        steps@[2].label@ == "Building NixOS closure"@,
        steps@[3].label@ == "Applying (nixos-rebuild switch)"@,
        steps@[0].phase == phase_resolve(*status),
        steps@[1].phase == phase_mirror(*status),
        steps@[2].phase == phase_build(*status),
        steps@[3].phase == phase_apply(*status),
        opt_view(steps@[0].detail) == resolve_detail(*status),
        steps@[1].detail is None,
        steps@[2].detail is None,
        opt_view(steps@[3].detail) == apply_detail(*status, opt_str_view(target_version)),
{
    let globally_failed = holds_text(&status.last_result, "failed");
    let build_failed = holds_text(&status.build_status, "failed");
    let last_success = holds_text(&status.last_result, "success");

    let phase1 = if status.desired_version.is_some() {
        if status.available_flake_rev.is_some() {
            Phase::Done
        } else if globally_failed || build_failed {
            Phase::Failed
        } else {
            Phase::Active
        }
    } else {
        Phase::Pending
    };

    let phase2 = match phase1 {
        Phase::Done => {
            if same_text(&status.available_flake_rev, &status.desired_flake_rev) {
                Phase::Done
            } else if globally_failed {
                Phase::Failed
            } else {
                Phase::Active
            }
        },
        _ => Phase::Pending,
    };

    let phase3 = match phase2 {
        Phase::Done => {
            if holds_text(&status.build_status, "building") {
                Phase::Active
            } else if (holds_text(&status.build_status, "ready") || build_failed) && last_success {
                Phase::Done
            } else if build_failed {
                Phase::Failed
            } else {
                Phase::Pending
            }
        },
        _ => Phase::Pending,
    };

    let phase4 = match phase3 {
        Phase::Done => {
            if last_success {
                Phase::Done
            } else {
                Phase::Pending
            }
        },
        _ => Phase::Pending,
    };

    let rev_short = match &status.available_flake_rev {
        Some(r) => {
            let mut s = String::from_str("sha:");
            let h = head(r.as_str(), 8);
            s.append(h.as_str());
            Some(s)
        },
        None => None,
    };

    let apply_detail = if status.last_result.is_some() && phase4 == Phase::Done {
        let mut s = String::from_str("-> ");
        s.append(target_of(status, target_version));
        Some(s)
    } else {
        None
    };

    let mut steps: Vec<Step> = Vec::new();
    steps.push(Step { label: "Resolving version to flake rev", phase: phase1, detail: rev_short });
    steps.push(Step { label: "Mirroring repository", phase: phase2, detail: None });
    steps.push(Step { label: "Building NixOS closure", phase: phase3, detail: None });
    steps.push(
        Step { label: "Applying (nixos-rebuild switch)", phase: phase4, detail: apply_detail },
    );
    steps
}

/// The watch ends: the last step is done, or some step failed.
pub open spec fn finished(steps: Seq<Step>) -> bool {
    (steps.len() > 3 && steps[3].phase == Phase::Done) || exists|i: int|
        0 <= i < steps.len() && #[trigger] steps[i].phase == Phase::Failed
}

/// Whether the watch over an update can stop.
pub fn watch_finished(steps: &Vec<Step>) -> (r: bool)
    ensures
        r == finished(steps@),
{
    let done = steps.len() > 3 && steps[3].phase == Phase::Done;
    let mut failed = false;
    let mut i: usize = 0;
    while i < steps.len()
        invariant
            i <= steps@.len(),
            failed == exists|j: int| 0 <= j < i && #[trigger] steps@[j].phase == Phase::Failed,
        decreases steps@.len() - i,
    {
        if steps[i].phase == Phase::Failed {
            failed = true;
        }
        i = i + 1;
    }
    done || failed
}

/// A step leaves the pending state only once the step before it is done,
/// and the last step is never shown as active or failed: the display is a
/// run of done steps, then at most one active or failed step, then pending
/// ones.
pub proof fn law_steps_in_order(st: UpdateStatus)
    ensures
        phase_mirror(st) != Phase::Pending ==> phase_resolve(st) == Phase::Done,
        phase_build(st) != Phase::Pending ==> phase_mirror(st) == Phase::Done,
        phase_apply(st) != Phase::Pending ==> phase_build(st) == Phase::Done,
        phase_apply(st) == Phase::Pending || phase_apply(st) == Phase::Done,
{
}

/// An update is shown as applied only when every step is done, and then
/// the watch ends.
pub proof fn law_applied_means_all_done(st: UpdateStatus, target: Option<Seq<char>>)
    ensures
        phase_apply(st) == Phase::Done ==> {
            &&& phase_resolve(st) == Phase::Done
            &&& phase_mirror(st) == Phase::Done
            &&& phase_build(st) == Phase::Done
            &&& apply_detail(st, target) == Some("-> "@ + target_label(st, target))
        },
{
}

/// The watch ends exactly when the update is applied or some step failed.
pub proof fn law_watch_ends(st: UpdateStatus, steps: Seq<Step>)
    requires
        steps.len() == 4,
        steps[0].phase == phase_resolve(st),
        steps[1].phase == phase_mirror(st),
        steps[2].phase == phase_build(st),
        steps[3].phase == phase_apply(st),
    ensures
        finished(steps) <==> (phase_apply(st) == Phase::Done || phase_resolve(st) == Phase::Failed
            || phase_mirror(st) == Phase::Failed || phase_build(st) == Phase::Failed),
{
    if phase_resolve(st) == Phase::Failed {
        assert(steps[0].phase == Phase::Failed);
    }
    if phase_mirror(st) == Phase::Failed {
        assert(steps[1].phase == Phase::Failed);
    }
    if phase_build(st) == Phase::Failed {
        assert(steps[2].phase == Phase::Failed);
    }
}

/// The frames of the activity spinner, in order.
pub open spec fn spinner_frames() -> Seq<Seq<char>> {
    seq!["⠋"@, "⠙"@, "⠹"@, "⠸"@, "⠼"@, "⠴"@, "⠦"@, "⠧"@, "⠇"@, "⠏"@]
}

/// The spinner frame shown at display tick `tick`.
pub fn spinner_frame(tick: u8) -> (r: &'static str)
    ensures
        r@ == spinner_frames()[(tick % 10) as int],
{
    let i = tick % 10;
    if i == 0 {
        "⠋"
    } else if i == 1 {
        "⠙"
    } else if i == 2 {
        "⠹"
    } else if i == 3 {
        "⠸"
    } else if i == 4 {
        "⠼"
    } else if i == 5 {
        "⠴"
    } else if i == 6 {
        "⠦"
    } else if i == 7 {
        "⠧"
    } else if i == 8 {
        "⠇"
    } else {
        "⠏"
    }
}

/// `n` in decimal with at least two digits (`{:02}`).
pub open spec fn two_digits(n: nat) -> Seq<char> {
    if n < 10 {
        seq!['0'] + decimal(n)
    } else {
        decimal(n)
    }
}

/// The elapsed time as `MM:SS` (minutes may run past two digits).
pub open spec fn clock_text(secs: nat) -> Seq<char> {
    two_digits(secs / 60) + ":"@ + two_digits(secs % 60)
}

fn push_two_digits(s: &mut String, n: u64)
    ensures
        final(s)@ == old(s)@ + two_digits(n as nat),
{
    if n < 10 {
        s.append("0");
    }
    let d = format_u64(n);
    s.append(d.as_str());
    proof {
        reveal_strlit("0");
        if n < 10 {
            assert(s@ =~= old(s)@ + two_digits(n as nat));
        }
    }
}

/// The elapsed time of a watch, as the display shows it.
pub fn elapsed_clock(secs: u64) -> (r: String)
    ensures
        r@ == clock_text(secs as nat),
{
    let mut r = String::new();
    push_two_digits(&mut r, secs / 60);
    r.append(":");
    push_two_digits(&mut r, secs % 60);
    assert(r@ =~= clock_text(secs as nat));
    r
}

/// How a result is shown.
#[derive(Debug, PartialEq, Eq, Structural, Clone, Copy)]
pub enum Tone {
    Good,
    Bad,
    Neutral,
}

/// The tone of a last result: `success` good, `failed` bad, anything else neutral.
pub fn result_tone(result: &str) -> (t: Tone)
    ensures
        t == if result@ == "success"@ {
            Tone::Good
        } else if result@ == "failed"@ {
            Tone::Bad
        } else {
            Tone::Neutral
        },
{
    if str_equal(result, "success") {
        Tone::Good
    } else if str_equal(result, "failed") {
        Tone::Bad
    } else {
        Tone::Neutral
    }
}

/// Whether the server accepted an update request: the reply's `status`
/// field reads `update_scheduled`.
pub fn update_scheduled(status: Option<&str>) -> (r: bool)
    ensures
        r == (opt_str_view(status) == Some("update_scheduled"@)),
{
    match status {
        Some(s) => str_equal(s, "update_scheduled"),
        None => false,
    }
}

/// `steps` are the four steps shown for `st`, as `build_steps` gives them.
pub open spec fn shown_for(st: UpdateStatus, steps: Seq<Step>) -> bool {
    &&& steps.len() == 4
    &&& steps[0].phase == phase_resolve(st)
    &&& steps[1].phase == phase_mirror(st)
    &&& steps[2].phase == phase_build(st)
    &&& steps[3].phase == phase_apply(st)
}

/// `o` holds the text `t`.
pub open spec fn says(o: Option<String>, t: Seq<char>) -> bool {
    match o {
        Some(s) => s@ == t,
        None => false,
    }
}

/// The version is resolved and mirrored: a version was asked for, the
/// server found its revision, and the mirrored revision is that one.
pub open spec fn mirrored(st: UpdateStatus) -> bool {
    &&& st.desired_version is Some
    &&& st.available_flake_rev matches Some(a)
    &&& st.desired_flake_rev matches Some(d)
    &&& a@ == d@
}

proof fn lemma_mirrored(st: UpdateStatus)
    requires
        mirrored(st),
    ensures
        phase_resolve(st) == Phase::Done,
        phase_mirror(st) == Phase::Done,
{
}

/// With no version asked for, every step waits and the watch goes on.
pub proof fn law_nothing_asked_all_pending(st: UpdateStatus, steps: Seq<Step>)
    requires
        shown_for(st, steps),
        st.desired_version is None,
    ensures
        forall|i: int| 0 <= i < 4 ==> #[trigger] steps[i].phase == Phase::Pending,
        !finished(steps),
{
    assert forall|i: int| 0 <= i < 4 implies #[trigger] steps[i].phase == Phase::Pending by {}
}

/// A version asked for whose revision the server has not found fails to
/// resolve when the last update failed or the build failed, and the watch
/// ends; otherwise resolving is under way.
pub proof fn law_unresolved_version(st: UpdateStatus, steps: Seq<Step>)
    requires
        shown_for(st, steps),
        st.desired_version is Some,
        st.available_flake_rev is None,
    ensures
        says(st.last_result, "failed"@) || says(st.build_status, "failed"@) ==> steps[0].phase
            == Phase::Failed && finished(steps),
        !says(st.last_result, "failed"@) && !says(st.build_status, "failed"@) ==> steps[0].phase
            == Phase::Active && steps[1].phase == Phase::Pending && !finished(steps),
{
    if !says(st.last_result, "failed"@) && !says(st.build_status, "failed"@) {
        assert forall|i: int| 0 <= i < 4 implies #[trigger] steps[i].phase != Phase::Failed by {}
    } else {
        assert(steps[0].phase == Phase::Failed);
    }
}

/// A found revision that differs from the mirrored one fails to mirror when
/// the last update failed, and the watch ends.
pub proof fn law_mirror_fails_on_failed_update(st: UpdateStatus, steps: Seq<Step>)
    requires
        shown_for(st, steps),
        st.desired_version is Some,
        st.available_flake_rev matches Some(a) && !(st.desired_flake_rev matches Some(d) && a@
            == d@),
        says(st.last_result, "failed"@),
    ensures
        steps[0].phase == Phase::Done,
        steps[1].phase == Phase::Failed,
        finished(steps),
{
    assert(steps[1].phase == Phase::Failed);
}

/// Once the version is mirrored, a build reported `failed` is shown as
/// failed unless the last result is `success`, whatever else the last
/// result says, and the watch ends.
pub proof fn law_failed_build_ends_watch(st: UpdateStatus, steps: Seq<Step>)
    requires
        shown_for(st, steps),
        mirrored(st),
        says(st.build_status, "failed"@),
        !says(st.last_result, "success"@),
    ensures
        steps[2].phase == Phase::Failed,
        steps[3].phase == Phase::Pending,
        finished(steps),
{
    lemma_mirrored(st);
    reveal_strlit("failed");
    reveal_strlit("building");
    assert("failed"@ != "building"@) by {
        assert("failed"@.len() != "building"@.len());
    }
    assert(steps[2].phase == Phase::Failed);
}

/// Once the version is mirrored, a build in progress shows the build step
/// active and the watch goes on.
pub proof fn law_build_in_progress(st: UpdateStatus, steps: Seq<Step>)
    requires
        shown_for(st, steps),
        mirrored(st),
        says(st.build_status, "building"@),
    ensures
        steps[0].phase == Phase::Done,
        steps[1].phase == Phase::Done,
        steps[2].phase == Phase::Active,
        steps[3].phase == Phase::Pending,
        !finished(steps),
{
    lemma_mirrored(st);
    assert forall|i: int| 0 <= i < 4 implies #[trigger] steps[i].phase != Phase::Failed by {}
}

/// Once the version is mirrored, a build that is ready (or reported failed)
/// with a last result of `success` shows every step done, and the watch ends.
pub proof fn law_successful_update_ends_watch(st: UpdateStatus, steps: Seq<Step>)
    requires
        shown_for(st, steps),
        mirrored(st),
        says(st.build_status, "ready"@) || says(st.build_status, "failed"@),
        says(st.last_result, "success"@),
    ensures
        forall|i: int| 0 <= i < 4 ==> #[trigger] steps[i].phase == Phase::Done,
        finished(steps),
{
    lemma_mirrored(st);
    reveal_strlit("ready");
    reveal_strlit("failed");
    reveal_strlit("building");
    assert("ready"@ != "building"@) by {
        assert("ready"@[0] != "building"@[0]);
    }
    assert("failed"@ != "building"@) by {
        assert("failed"@.len() != "building"@.len());
    }
    assert forall|i: int| 0 <= i < 4 implies #[trigger] steps[i].phase == Phase::Done by {}
}

/// The first step names the found revision by `sha:` and its first eight
/// characters (all of it when shorter) when it is ASCII, as revisions are;
/// without a revision it names none.
pub proof fn law_revision_detail(st: UpdateStatus)
    ensures
        st.available_flake_rev is None ==> resolve_detail(st) is None,
        st.available_flake_rev matches Some(r) ==> (is_ascii_text(r@) ==> resolve_detail(st)
            == Some("sha:"@ + r@.take(if r@.len() < 8 { r@.len() as int } else { 8 }))),
{
    if let Some(r) = st.available_flake_rev {
        if is_ascii_text(r@) {
            lemma_ascii_byte_len(r@);
            let n = if byte_len(r@) < 8 { byte_len(r@) as int } else { 8 };
            lemma_ascii_prefix_within_bytes(r@, n);
        }
    }
}

} // verus!
