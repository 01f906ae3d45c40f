//! `system check-update`: which published releases to list and whether an
//! update is available.
use vstd::prelude::*;
use crate::semver::{is_newer, spec_is_newer};
use crate::text::{str_equal, trim_start_char, trim_start_matches_char};

verus! {

/// A published release.
#[derive(Debug, Clone, PartialEq, Eq)]
pub struct Release {
    pub tag_name: String,
    pub prerelease: bool,
    pub html_url: String,
    pub name: Option<String>,
}

/// The tag and pre-release flag of each release.
pub open spec fn release_views(rs: Seq<Release>) -> Seq<(Seq<char>, bool)> {
    rs.map_values(|r: Release| (r.tag_name@, r.prerelease))
}

/// The releases kept by the filter, in order: all of them with
/// `include_pre`, else the stable ones.
pub open spec fn kept(rs: Seq<(Seq<char>, bool)>, include_pre: bool) -> Seq<(Seq<char>, bool)>
    decreases rs.len(),
{
    if rs.len() == 0 {
        Seq::empty()
    } else {
        let prev = kept(rs.drop_last(), include_pre);
        if include_pre || !rs.last().1 {
            prev.push(rs.last())
        } else {
            prev
        }
    }
}

/// The releases listed: the first ten kept.
pub open spec fn listed(rs: Seq<(Seq<char>, bool)>, include_pre: bool) -> Seq<(Seq<char>, bool)> {
    let k = kept(rs, include_pre);
    if k.len() > 10 {
        k.take(10)
    } else {
        k
    }
}

/// The version a tag names: the tag without leading `v`s.
pub open spec fn tag_version(tag: Seq<char>) -> Seq<char> {
    trim_start_char(tag, 'v')
}

/// Index of the first stable release of `rs`, if any.
pub open spec fn first_stable(rs: Seq<(Seq<char>, bool)>) -> Option<int>
    decreases rs.len(),
{
    if rs.len() == 0 {
        None
    } else if !rs[0].1 {
        Some(0)
    } else {
        match first_stable(rs.drop_first()) {
            Some(i) => Some(i + 1),
            None => None,
        }
    }
}

/// The release the report compares with the running version: the first
/// stable one listed, else the first listed.
pub open spec fn latest(rs: Seq<(Seq<char>, bool)>) -> Option<Seq<char>> {
    match first_stable(rs) {
        Some(i) => Some(tag_version(rs[i].0)),
        None => if rs.len() > 0 {
            Some(tag_version(rs[0].0))
        } else {
            None
        },
    }
}

/// One line of the release list.
#[derive(Debug, Clone, PartialEq, Eq)]
pub struct ReleaseLine {
    pub version: String,
    pub prerelease: bool,
    /// The release is the running version.
    pub is_current: bool,
    /// The release is newer than the running version.
    pub is_newer: bool,
}

/// What `system check-update` reports.
#[derive(Debug, Clone, PartialEq, Eq)]
pub struct ReleaseReport {
    pub lines: Vec<ReleaseLine>,
    /// The version of the release compared with the running one.
    pub latest: Option<String>,
    /// That release is newer than the running version.
    pub update_available: bool,
}

/// Line `i` of the report describes listed release `i`.
pub open spec fn line_describes(l: ReleaseLine, r: (Seq<char>, bool), current: Seq<char>) -> bool {
    &&& l.version@ == tag_version(r.0)
    &&& l.prerelease == r.1
    &&& l.is_current == (tag_version(r.0) == current)
    &&& l.is_newer == spec_is_newer(tag_version(r.0), current)
}

/// The report on `releases` (newest first, as published) for the running
/// version `current`.
pub fn release_report(releases: &Vec<Release>, include_pre: bool, current: &str) -> (r:
    ReleaseReport)
    ensures
        r.lines@.len() == listed(release_views(releases@), include_pre).len(),
        forall|i: int|
            0 <= i < r.lines@.len() ==> line_describes(
                #[trigger] r.lines@[i],
                listed(release_views(releases@), include_pre)[i],
                current@,
            ),
        (match r.latest {
            Some(v) => latest(listed(release_views(releases@), include_pre)) == Some(v@),
            None => latest(listed(release_views(releases@), include_pre)) is None,
        }),
        r.update_available == (match latest(listed(release_views(releases@), include_pre)) {
            Some(v) => spec_is_newer(v, current@),
            None => false,
        }),
{
    let ghost all = release_views(releases@);
    let mut lines: Vec<ReleaseLine> = Vec::new();
    let mut stable: Option<usize> = None;
    let mut first_tag: Option<usize> = None;
    let mut i: usize = 0;
    let ghost mut seen: Seq<(Seq<char>, bool)> = Seq::empty();
    assert(all.take(0) =~= Seq::<(Seq<char>, bool)>::empty());
    while i < releases.len() && lines.len() < 10
        invariant
            all == release_views(releases@),
            i <= releases@.len(),
            seen == kept(all.take(i as int), include_pre),
            lines@.len() == seen.len(),
            lines@.len() <= 10,
            forall|j: int|
                0 <= j < lines@.len() ==> line_describes(#[trigger] lines@[j], seen[j], current@),
            first_tag is Some <==> seen.len() > 0,
            first_tag matches Some(f) ==> f < releases@.len() && seen[0] == all[f as int],
            match stable {
                Some(s) => s < releases@.len() && first_stable(seen) is Some && seen[
                    first_stable(seen)->0
                ] == all[s as int],
                None => first_stable(seen) is None,
            },
        decreases releases@.len() - i,
    {
        let rel = &releases[i];
        let ghost t = all.take(i + 1);
        assert(t.drop_last() =~= all.take(i as int));
        assert(t.last() == (rel.tag_name@, rel.prerelease));
        if include_pre || !rel.prerelease {
            let version = trim_start_matches_char(rel.tag_name.as_str(), 'v');
            let is_current = str_equal(version.as_str(), current);
            let newer = is_newer(version.as_str(), current);
            let ghost old_seen = seen;
            proof {
                seen = seen.push(t.last());
                lemma_first_stable_push(old_seen, t.last());
            }
            lines.push(
                ReleaseLine {
                    version,
                    prerelease: rel.prerelease,
                    is_current,
                    is_newer: newer,
                },
            );
            if first_tag.is_none() {
                first_tag = Some(i);
            }
            if stable.is_none() && !rel.prerelease {
                stable = Some(i);
            }
        }
        i = i + 1;
    }
    proof {
        let k = kept(all, include_pre);
        lemma_kept_prefix(all, i as int, include_pre);
        if seen.len() < 10 {
            assert(all.take(i as int) =~= all);
        }
        assert(listed(all, include_pre) =~= seen);
    }
    let chosen = match stable {
        Some(s) => Some(s),
        None => first_tag,
    };
    match chosen {
        Some(c) => {
            let v = trim_start_matches_char(releases[c].tag_name.as_str(), 'v');
            let available = is_newer(v.as_str(), current);
            ReleaseReport { lines, latest: Some(v), update_available: available }
        },
        None => ReleaseReport { lines, latest: None, update_available: false },
    }
}

proof fn lemma_first_stable_push(s: Seq<(Seq<char>, bool)>, x: (Seq<char>, bool))
    ensures
        first_stable(s.push(x)) == match first_stable(s) {
            Some(i) => Some(i),
            None => if !x.1 {
                Some(s.len() as int)
            } else {
                None
            },
        },
        first_stable(s) matches Some(i) ==> 0 <= i < s.len() && s.push(x)[i] == s[i],
    decreases s.len(),
{
    if s.len() > 0 {
        lemma_first_stable_push(s.drop_first(), x);
        assert(s.push(x).drop_first() =~= s.drop_first().push(x));
        assert(s.push(x)[0] == s[0]);
        let t = s.drop_first();
        if s[0].1 {
            assert(first_stable(s.push(x)) == match first_stable(t.push(x)) {
                Some(i) => Some(i + 1),
                None => None,
            });
            assert(first_stable(s) == match first_stable(t) {
                Some(i) => Some(i + 1),
                None => None,
            });
        }
    } else {
        assert(s.push(x).drop_first() =~= Seq::<(Seq<char>, bool)>::empty());
        assert(s.push(x)[0] == x);
        assert(first_stable(Seq::<(Seq<char>, bool)>::empty()) is None);
        assert(first_stable(s.push(x)) == if !x.1 {
            Some(0int)
        } else {
            None
        });
    }
}

/// Kept releases of a prefix are a prefix of the kept releases.
proof fn lemma_kept_prefix(rs: Seq<(Seq<char>, bool)>, n: int, include_pre: bool)
    requires
        0 <= n <= rs.len(),
    ensures
        kept(rs.take(n), include_pre).len() <= kept(rs, include_pre).len(),
        kept(rs, include_pre).take(kept(rs.take(n), include_pre).len() as int) == kept(
            rs.take(n),
            include_pre,
        ),
    decreases rs.len() - n,
{
    if n == rs.len() {
        assert(rs.take(n) =~= rs);
        assert(kept(rs, include_pre).take(kept(rs, include_pre).len() as int) =~= kept(
            rs,
            include_pre,
        ));
    } else {
        lemma_kept_prefix(rs, n + 1, include_pre);
        let a = kept(rs.take(n), include_pre);
        let b = kept(rs.take(n + 1), include_pre);
        assert(rs.take(n + 1).drop_last() =~= rs.take(n));
        let k = kept(rs, include_pre);
        assert(k.take(a.len() as int) =~= b.take(a.len() as int));
        if b.len() > a.len() {
            assert(b.take(a.len() as int) =~= a);
        } else {
            assert(b =~= a);
        }
    }
}

proof fn lemma_kept_stable(rs: Seq<(Seq<char>, bool)>)
    ensures
        forall|i: int| 0 <= i < kept(rs, false).len() ==> !(#[trigger] kept(rs, false)[i]).1,
    decreases rs.len(),
{
    if rs.len() > 0 {
        lemma_kept_stable(rs.drop_last());
        let p = kept(rs.drop_last(), false);
        let k = kept(rs, false);
        assert forall|i: int| 0 <= i < k.len() implies !(#[trigger] k[i]).1 by {
            if i < p.len() {
                assert(k[i] == p[i]);
            }
        }
    }
}

/// At most ten releases are listed, and without pre-releases asked for,
/// none of them is a pre-release.
pub proof fn law_listing_bounds(rs: Seq<(Seq<char>, bool)>, include_pre: bool)
    ensures
        listed(rs, include_pre).len() <= 10,
        !include_pre ==> forall|i: int|
            0 <= i < listed(rs, include_pre).len() ==> !(#[trigger] listed(rs, include_pre)[i]).1,
{
    lemma_kept_stable(rs);
    if !include_pre {
        let k = kept(rs, false);
        assert forall|i: int| 0 <= i < listed(rs, false).len() implies !(
        #[trigger] listed(rs, false)[i]).1 by {
            assert(listed(rs, false)[i] == k[i]);
        }
    }
}

} // verus!
