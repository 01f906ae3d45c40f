//! Release version strings: parsing and the "is newer" order used by
//! `system check-update`.
use vstd::prelude::*;
use crate::num::{all_digits, is_digit, law_parse_reads_decimal, lemma_decimal_digits, parse_int, parse_u32};
use crate::text::{
    chars_of, decimal, lemma_split_on_absent, lemma_split_on_append, lemma_split_once_absent,
    lemma_split_once_found, split_char, split_once, split_once_char, split_on, trim_start_char,
    trim_start_matches_char, views,
};

verus! {

/// A parsed version: major, minor, patch, and the text after the first `-`.
pub type VersionView = (u32, u32, u32, Option<Seq<char>>);

/// The view of an optional string.
pub open spec fn opt_view(o: Option<String>) -> Option<Seq<char>> {
    match o {
        Some(s) => Some(s@),
        None => None,
    }
}

/// The value of one numeric component, as `u32` parsing gives it.
pub open spec fn component(s: Seq<char>) -> Option<u32> {
    match parse_int(s, 0, u32::MAX as int) {
        Some(x) => Some(x as u32),
        None => None,
    }
}

/// What the client reads from a version string: leading `v`s are dropped,
/// the text after the first `-` is the pre-release part, and the rest must
/// be exactly three dot-separated `u32` numbers.
pub open spec fn spec_parse_semver(v: Seq<char>) -> Option<VersionView> {
    let t = trim_start_char(v, 'v');
    let base = match split_once(t, '-') {
        Some((b, _p)) => b,
        None => t,
    };
    let pre = match split_once(t, '-') {
        Some((_b, p)) => Some(p),
        None => None,
    };
    let parts = split_on(base, '.');
    if parts.len() != 3 {
        None
    } else {
        match (component(parts[0]), component(parts[1]), component(parts[2])) {
            (Some(a), Some(b), Some(c)) => Some((a, b, c, pre)),
            _ => None,
        }
    }
}

/// `a` sorts after `b` in the order of `String` (lexicographic by
/// character, a proper prefix first).
pub open spec fn text_gt(a: Seq<char>, b: Seq<char>) -> bool
    decreases a.len(),
{
    if a.len() == 0 {
        false
    } else if b.len() == 0 {
        true
    } else if a[0] != b[0] {
        (a[0] as u32) > (b[0] as u32)
    } else {
        text_gt(a.drop_first(), b.drop_first())
    }
}

/// `a` sorts after `b` as `Option<String>` does (`None` first).
pub open spec fn pre_gt(a: Option<Seq<char>>, b: Option<Seq<char>>) -> bool {
    match (a, b) {
        (Some(x), Some(y)) => text_gt(x, y),
        (Some(_x), None) => true,
        _ => false,
    }
}

/// `x` sorts after `y` in the lexicographic order of the tuple.
pub open spec fn version_gt(x: VersionView, y: VersionView) -> bool {
    ||| x.0 > y.0
    ||| x.0 == y.0 && x.1 > y.1
    ||| x.0 == y.0 && x.1 == y.1 && x.2 > y.2
    ||| x.0 == y.0 && x.1 == y.1 && x.2 == y.2 && pre_gt(x.3, y.3)
}

/// `candidate` names a later release than `current`; a string that does
/// not parse is never newer, nor older.
pub open spec fn spec_is_newer(candidate: Seq<char>, current: Seq<char>) -> bool {
    match (spec_parse_semver(candidate), spec_parse_semver(current)) {
        (Some(c), Some(cur)) => version_gt(c, cur),
        _ => false,
    }
}

/// The view of a parsed version.
pub open spec fn version_view(t: (u32, u32, u32, Option<String>)) -> VersionView {
    (t.0, t.1, t.2, opt_view(t.3))
}

/// Parses a version string such as `v1.2.3` or `1.2.3-rc.1`.
pub fn parse_semver(v: &str) -> (r: Option<(u32, u32, u32, Option<String>)>)
    ensures
        match r {
            Some(t) => spec_parse_semver(v@) == Some(version_view(t)),
            None => spec_parse_semver(v@) is None,
        },
{
    let t = trim_start_matches_char(v, 'v');
    let (base, pre) = match split_once_char(t.as_str(), '-') {
        Some((b, p)) => (b, Some(p)),
        None => (t.clone(), None),
    };
    assert(opt_view(pre) == (match split_once(t@, '-') {
        Some((_b, p)) => Some(p),
        None => None,
    }));
    let parts = split_char(base.as_str(), '.');
    assert(parts@.len() == views(parts@).len());
    if parts.len() != 3 {
        return None;
    }
    assert(views(parts@)[0] == parts@[0]@);
    assert(views(parts@)[1] == parts@[1]@);
    assert(views(parts@)[2] == parts@[2]@);
    let a = match parse_u32(parts[0].as_str()) {
        Some(x) => x,
        None => return None,
    };
    let b = match parse_u32(parts[1].as_str()) {
        Some(x) => x,
        None => return None,
    };
    let c = match parse_u32(parts[2].as_str()) {
        Some(x) => x,
        None => return None,
    };
    Some((a, b, c, pre))
}

/// Whether `a` sorts after `b` as strings.
pub fn text_greater(a: &str, b: &str) -> (r: bool)
    ensures
        r == text_gt(a@, b@),
{
    let va = chars_of(a);
    let vb = chars_of(b);
    let mut i: usize = 0;
    assert(va@.skip(0) =~= va@);
    assert(vb@.skip(0) =~= vb@);
    loop
        invariant
            va@ == a@,
            vb@ == b@,
            i <= va@.len(),
            i <= vb@.len(),
            text_gt(a@, b@) == text_gt(va@.skip(i as int), vb@.skip(i as int)),
        decreases va@.len() - i,
    {
        if i == va.len() {
            return false;
        }
        if i == vb.len() {
            return true;
        }
        assert(va@.skip(i as int)[0] == va@[i as int]);
        assert(vb@.skip(i as int)[0] == vb@[i as int]);
        if va[i] != vb[i] {
            return (va[i] as u32) > (vb[i] as u32);
        }
        assert(va@.skip(i as int).drop_first() =~= va@.skip(i + 1));
        assert(vb@.skip(i as int).drop_first() =~= vb@.skip(i + 1));
        i = i + 1;
    }
}

/// Whether the version `x` sorts after `y`.
pub fn version_greater(x: &(u32, u32, u32, Option<String>), y: &(u32, u32, u32, Option<String>)) -> (r: bool)
    ensures
        r == version_gt(version_view(*x), version_view(*y)),
{
    if x.0 != y.0 {
        return x.0 > y.0;
    }
    if x.1 != y.1 {
        return x.1 > y.1;
    }
    if x.2 != y.2 {
        return x.2 > y.2;
    }
    match (&x.3, &y.3) {
        (Some(p), Some(q)) => text_greater(p.as_str(), q.as_str()),
        (Some(_), None) => true,
        _ => false,
    }
}

/// Whether `candidate` names a later release than `current`.
pub fn is_newer(candidate: &str, current: &str) -> (r: bool)
    ensures
        r == spec_is_newer(candidate@, current@),
{
    match (parse_semver(candidate), parse_semver(current)) {
        (Some(c), Some(cur)) => version_greater(&c, &cur),
        _ => false,
    }
}

proof fn lemma_text_gt_irreflexive(a: Seq<char>)
    ensures
        !text_gt(a, a),
    decreases a.len(),
{
    if a.len() > 0 {
        lemma_text_gt_irreflexive(a.drop_first());
    }
}

proof fn lemma_text_gt_asymmetric(a: Seq<char>, b: Seq<char>)
    ensures
        text_gt(a, b) ==> !text_gt(b, a),
    decreases a.len(),
{
    if a.len() > 0 && b.len() > 0 && a[0] == b[0] {
        lemma_text_gt_asymmetric(a.drop_first(), b.drop_first());
    }
}

proof fn lemma_text_gt_transitive(a: Seq<char>, b: Seq<char>, c: Seq<char>)
    ensures
        text_gt(a, b) && text_gt(b, c) ==> text_gt(a, c),
    decreases a.len(),
{
    if a.len() > 0 && b.len() > 0 && c.len() > 0 {
        lemma_text_gt_transitive(a.drop_first(), b.drop_first(), c.drop_first());
    }
}

/// No version is newer than itself.
pub proof fn law_is_newer_irreflexive(v: Seq<char>)
    ensures
        !spec_is_newer(v, v),
{
    if let Some(x) = spec_parse_semver(v) {
        if let Some(p) = x.3 {
            lemma_text_gt_irreflexive(p);
        }
    }
}

/// Of two versions, at most one is newer than the other.
pub proof fn law_is_newer_asymmetric(a: Seq<char>, b: Seq<char>)
    ensures
        spec_is_newer(a, b) ==> !spec_is_newer(b, a),
{
    if let (Some(x), Some(y)) = (spec_parse_semver(a), spec_parse_semver(b)) {
        if let (Some(p), Some(q)) = (x.3, y.3) {
            lemma_text_gt_asymmetric(p, q);
        }
    }
}

/// A version newer than one that is newer than a third is newer than the third.
pub proof fn law_is_newer_transitive(a: Seq<char>, b: Seq<char>, c: Seq<char>)
    ensures
        spec_is_newer(a, b) && spec_is_newer(b, c) ==> spec_is_newer(a, c),
{
    if let (Some(x), Some(y), Some(z)) = (
        spec_parse_semver(a),
        spec_parse_semver(b),
        spec_parse_semver(c),
    ) {
        if let (Some(p), Some(q), Some(r)) = (x.3, y.3, z.3) {
            lemma_text_gt_transitive(p, q, r);
        }
    }
}

/// A leading `v` does not change what a version string means: `v1.2.3`
/// and `1.2.3` parse alike.
pub proof fn law_leading_v_ignored(s: Seq<char>)
    ensures
        spec_parse_semver(seq!['v'] + s) == spec_parse_semver(s),
{
    assert((seq!['v'] + s).drop_first() =~= s);
}

/// A version written out as `major.minor.patch` in decimal.
pub open spec fn version_text(a: u32, b: u32, c: u32) -> Seq<char> {
    decimal(a as nat) + seq!['.'] + decimal(b as nat) + seq!['.'] + decimal(c as nat)
}

proof fn lemma_version_text_chars(a: u32, b: u32, c: u32)
    ensures
        version_text(a, b, c).len() > 0,
        is_digit(version_text(a, b, c)[0]),
        forall|i: int|
            0 <= i < version_text(a, b, c).len() ==> is_digit(#[trigger] version_text(a, b, c)[i])
                || version_text(a, b, c)[i] == '.',
{
    lemma_decimal_digits(a as nat);
    lemma_decimal_digits(b as nat);
    lemma_decimal_digits(c as nat);
    let (da, db, dc) = (decimal(a as nat), decimal(b as nat), decimal(c as nat));
    let t = version_text(a, b, c);
    assert(t[0] == da[0]);
    assert forall|i: int| 0 <= i < t.len() implies is_digit(#[trigger] t[i]) || t[i] == '.' by {
        if i < da.len() {
            assert(t[i] == da[i]);
        } else if i == da.len() {
        } else if i < da.len() + 1 + db.len() {
            assert(t[i] == db[i - da.len() - 1]);
        } else if i == da.len() + 1 + db.len() {
        } else {
            assert(t[i] == dc[i - da.len() - 2 - db.len()]);
        }
    }
}

/// A run of digits holds no character that is not a digit.
proof fn lemma_digits_lack(s: Seq<char>, c: char)
    requires
        all_digits(s),
        !is_digit(c),
    ensures
        !s.contains(c),
{
    if s.contains(c) {
        let i = choose|i: int| 0 <= i < s.len() && s[i] == c;
        assert(is_digit(s[i]));
    }
}

/// A version written as `a.b.c` parses back to its three numbers and no
/// pre-release part; written as `va.b.c-p`, to its three numbers and `p`,
/// whatever `p` holds (nothing, or more `-`).
pub proof fn law_formatted_version_round_trip(a: u32, b: u32, c: u32, p: Seq<char>)
    ensures
        spec_parse_semver(version_text(a, b, c)) == Some((a, b, c, None::<Seq<char>>)),
        spec_parse_semver(seq!['v'] + version_text(a, b, c) + seq!['-'] + p) == Some(
            (a, b, c, Some(p)),
        ),
{
    let (da, db, dc) = (decimal(a as nat), decimal(b as nat), decimal(c as nat));
    let t = version_text(a, b, c);
    lemma_decimal_digits(a as nat);
    lemma_decimal_digits(b as nat);
    lemma_decimal_digits(c as nat);
    lemma_version_text_chars(a, b, c);
    law_parse_reads_decimal(a as nat, 0, u32::MAX as int);
    law_parse_reads_decimal(b as nat, 0, u32::MAX as int);
    law_parse_reads_decimal(c as nat, 0, u32::MAX as int);
    // the numbers split at the dots
    lemma_digits_lack(da, '.');
    lemma_digits_lack(db, '.');
    lemma_digits_lack(dc, '.');
    lemma_split_on_absent(da, '.');
    lemma_split_on_append(da, '.', db);
    lemma_split_on_append(da + seq!['.'] + db, '.', dc);
    assert(split_on(t, '.') =~= seq![da, db, dc]);
    // no leading `v` and no `-` in the written numbers
    assert(trim_start_char(t, 'v') == t);
    lemma_split_once_absent(t, '-');
    // with a leading `v` and a pre-release part
    let u = seq!['v'] + t + seq!['-'] + p;
    let rest = t + seq!['-'] + p;
    assert(u.drop_first() =~= rest);
    assert(rest[0] == t[0]);
    assert(trim_start_char(rest, 'v') == rest);
    assert(trim_start_char(u, 'v') == rest);
    assert(rest[t.len() as int] == '-');
    assert forall|j: int| 0 <= j < t.len() implies rest[j] != '-' by {
        assert(rest[j] == t[j]);
    }
    lemma_split_once_found(rest, '-', t.len() as int);
    assert(rest.take(t.len() as int) =~= t);
    assert(rest.skip(t.len() as int + 1) =~= p);
}

/// A version written out with its optional pre-release part after a `-`.
pub open spec fn written(a: u32, b: u32, c: u32, pre: Option<Seq<char>>) -> Seq<char> {
    match pre {
        None => version_text(a, b, c),
        Some(p) => version_text(a, b, c) + seq!['-'] + p,
    }
}

proof fn lemma_written_parses(a: u32, b: u32, c: u32, pre: Option<Seq<char>>)
    ensures
        spec_parse_semver(written(a, b, c, pre)) == Some((a, b, c, pre)),
{
    law_formatted_version_round_trip(a, b, c, pre.unwrap_or(Seq::empty()));
    if let Some(p) = pre {
        let t = version_text(a, b, c) + seq!['-'] + p;
        assert(seq!['v'] + version_text(a, b, c) + seq!['-'] + p =~= seq!['v'] + t);
        law_leading_v_ignored(t);
    }
}

/// Versions are ordered by their numbers first: a larger major, or the same
/// major and a larger minor, or the same major and minor and a larger
/// patch, is newer, and the smaller one is not, whatever pre-release parts
/// either has.
pub proof fn law_newer_by_numbers(
    a1: u32,
    b1: u32,
    c1: u32,
    p1: Option<Seq<char>>,
    a2: u32,
    b2: u32,
    c2: u32,
    p2: Option<Seq<char>>,
)
    ensures
        a1 > a2 || (a1 == a2 && b1 > b2) || (a1 == a2 && b1 == b2 && c1 > c2) ==> spec_is_newer(
            written(a1, b1, c1, p1),
            written(a2, b2, c2, p2),
        ),
        a1 < a2 || (a1 == a2 && b1 < b2) || (a1 == a2 && b1 == b2 && c1 < c2) ==> !spec_is_newer(
            written(a1, b1, c1, p1),
            written(a2, b2, c2, p2),
        ),
{
    lemma_written_parses(a1, b1, c1, p1);
    lemma_written_parses(a2, b2, c2, p2);
}

proof fn lemma_text_gt_at(p: Seq<char>, q: Seq<char>, k: int)
    requires
        0 <= k <= p.len(),
        k <= q.len(),
        p.take(k) == q.take(k),
        (k < p.len() && k < q.len() && (p[k] as u32) > (q[k] as u32)) || (k == q.len() && k
            < p.len()),
    ensures
        text_gt(p, q),
    decreases k,
{
    if k > 0 {
        assert(p[0] == p.take(k)[0]);
        assert(q[0] == q.take(k)[0]);
        assert(p.drop_first().take(k - 1) =~= p.take(k).drop_first());
        assert(q.drop_first().take(k - 1) =~= q.take(k).drop_first());
        lemma_text_gt_at(p.drop_first(), q.drop_first(), k - 1);
    }
}

/// With the same numbers, a pre-release part decides: a version with one
/// is newer than the same version without one, and of two pre-release
/// parts the one that sorts after the other as text is newer: the first
/// character where they differ is larger, or the other ends first.
pub proof fn law_pre_release_order(a: u32, b: u32, c: u32, p: Seq<char>, q: Seq<char>, k: int)
    ensures
        spec_is_newer(written(a, b, c, Some(p)), written(a, b, c, None)),
        !spec_is_newer(written(a, b, c, None), written(a, b, c, Some(p))),
        !spec_is_newer(written(a, b, c, None), written(a, b, c, None)),
        0 <= k <= p.len() && k <= q.len() && p.take(k) == q.take(k) && ((k < p.len() && k
            < q.len() && (p[k] as u32) > (q[k] as u32)) || (k == q.len() && k < p.len()))
            ==> spec_is_newer(written(a, b, c, Some(p)), written(a, b, c, Some(q))),
{
    lemma_written_parses(a, b, c, Some(p));
    lemma_written_parses(a, b, c, Some(q));
    lemma_written_parses(a, b, c, None);
    if 0 <= k <= p.len() && k <= q.len() && p.take(k) == q.take(k) && ((k < p.len() && k
        < q.len() && (p[k] as u32) > (q[k] as u32)) || (k == q.len() && k < p.len())) {
        lemma_text_gt_at(p, q, k);
    }
}

/// A version string that does not parse is neither newer nor older than
/// any other.
pub proof fn law_unparsable_never_newer(x: Seq<char>, y: Seq<char>)
    requires
        spec_parse_semver(x) is None,
    ensures
        !spec_is_newer(x, y),
        !spec_is_newer(y, x),
{
}

} // verus!
