//! Release-version arithmetic for the update check: dotted version parsing,
//! "is newer" comparison, release-list filtering and the staleness buckets
//! reported by the cached update check.
use vstd::prelude::*;
use crate::paths::{join, join_path};
use crate::text::{chars_of, owned, parse_unsigned, parse_unsigned_chars, push_all, seq_eq, split_chars, split_on, string_from, substring, trim, trim_chars};

verus! {

/// Outcome of an update check.
#[derive(Debug, Clone)]
pub struct UpdateInfo {
    pub available: bool,
    pub current_version: String,
    pub latest_version: String,
}

/// Coarse update-staleness signal by semver distance.
#[derive(Debug, Clone, Copy, PartialEq, Eq, Structural)]
pub enum UpdateStatus {
    /// No usable cache (never checked, or a malformed/unparsable cached latest).
    Unknown,
    /// The cached latest is not newer than the running build.
    Current,
    /// Behind by a patch only (major and minor match).
    PatchBehind,
    /// Behind by a minor (major matches).
    MinorBehind,
    /// Behind by a major.
    MajorBehind,
}

/// Coarse "how many releases behind" signal, counted from the cached release list.
#[derive(Debug, Clone, Copy, PartialEq, Eq, Structural)]
pub enum ReleasesBehind {
    /// No cache to count from.
    Unknown,
    /// On the cached latest.
    Current,
    /// Exactly one cached release is newer (or the cache only knows the latest).
    OneBehind,
    /// Two or more cached releases are newer.
    SeveralBehind,
}

/// One published release with its notes.
#[derive(Debug, Clone)]
pub struct ReleaseInfo {
    pub version: String,
    pub body: String,
    pub published_at: Option<String>,
}

/// The persisted result of the last update check. `checked_at_ms` is the
/// check's wall-clock time in milliseconds since the Unix epoch.
#[derive(Debug)]
pub struct UpdateCache {
    pub checked_at_ms: i64,
    pub latest_version: String,
    pub releases: Vec<ReleaseInfo>,
}

// ---------------------------------------------------------------------------
// Specifications
// ---------------------------------------------------------------------------
/// The characters of an optional string slice.
pub open spec fn opt_view(o: Option<&str>) -> Option<Seq<char>> {
    match o {
        Some(s) => Some(s@),
        None => None,
    }
}

/// The numeric components of the dotted pieces, skipping pieces that do not
/// parse as a `u32`.
pub open spec fn parts_of(pieces: Seq<Seq<char>>) -> Seq<u32>
    decreases pieces.len(),
{
    if pieces.len() == 0 {
        seq![]
    } else {
        let rest = parts_of(pieces.drop_last());
        match parse_unsigned(pieces.last(), u32::MAX as nat) {
            Some(n) => rest.push(n as u32),
            None => rest,
        }
    }
}

/// `version_parts`: `v.split('.')` with every piece that parses as a `u32` kept.
pub open spec fn version_parts(v: Seq<char>) -> Seq<u32> {
    parts_of(split_on(v, '.'))
}

/// Component `i` of a version, zero past its end.
pub open spec fn part(p: Seq<u32>, i: int) -> nat {
    if 0 <= i < p.len() {
        p[i] as nat
    } else {
        0
    }
}

/// Versions `l` and `c` agree on every component before `i`.
pub open spec fn agree_before(l: Seq<u32>, c: Seq<u32>, i: int) -> bool {
    forall|j: int| 0 <= j < i ==> #[trigger] part(l, j) == part(c, j)
}

/// `l` is greater than `c` in the zero-padded lexicographic order.
pub open spec fn parts_newer(l: Seq<u32>, c: Seq<u32>) -> bool {
    exists|i: int| 0 <= i && agree_before(l, c, i) && #[trigger] part(l, i) > part(c, i)
}

/// `latest` is a newer version than `current`.
pub open spec fn newer(latest: Seq<char>, current: Seq<char>) -> bool {
    parts_newer(version_parts(latest), version_parts(current))
}

/// The two versions have the same zero-padded components.
pub open spec fn same_version(a: Seq<char>, b: Seq<char>) -> bool {
    forall|i: int| #[trigger] part(version_parts(a), i) == part(version_parts(b), i)
}

/// The versions of a release list, in order.
pub open spec fn versions_of(rs: Seq<ReleaseInfo>) -> Seq<Seq<char>> {
    rs.map_values(|r: ReleaseInfo| r.version@)
}

/// The releases of `rs` whose version is newer than `from`, in order.
pub open spec fn newer_than(rs: Seq<ReleaseInfo>, from: Seq<char>) -> Seq<ReleaseInfo>
    decreases rs.len(),
{
    if rs.len() == 0 {
        rs
    } else if newer(rs[0].version@, from) {
        seq![rs[0]] + newer_than(rs.drop_first(), from)
    } else {
        newer_than(rs.drop_first(), from)
    }
}

/// The releases `filter_releases` keeps.
pub open spec fn filtered(rs: Seq<ReleaseInfo>, from: Option<Seq<char>>) -> Seq<ReleaseInfo> {
    match from {
        Some(f) => newer_than(rs, f),
        None => rs,
    }
}

/// Every release kept is newer than `from`, and comes from the list.
pub proof fn lemma_newer_than_kept(rs: Seq<ReleaseInfo>, from: Seq<char>)
    ensures
        forall|i: int| 0 <= i < newer_than(rs, from).len() ==> newer(#[trigger] newer_than(rs, from)[i].version@, from)
            && rs.contains(newer_than(rs, from)[i]),
        forall|j: int| 0 <= j < rs.len() && newer(#[trigger] rs[j].version@, from) ==> newer_than(rs, from).contains(rs[j]),
    decreases rs.len(),
{
    if rs.len() > 0 {
        let t = rs.drop_first();
        lemma_newer_than_kept(t, from);
        let nt = newer_than(t, from);
        assert forall|i: int| 0 <= i < newer_than(rs, from).len() implies newer(#[trigger] newer_than(rs, from)[i].version@, from)
            && rs.contains(newer_than(rs, from)[i]) by {
            if newer(rs[0].version@, from) {
                if i == 0 {
                    assert(rs[0] == newer_than(rs, from)[0]);
                } else {
                    assert(newer_than(rs, from) == seq![rs[0]] + nt);
                    assert(newer_than(rs, from).len() == nt.len() + 1);
                    assert(newer_than(rs, from)[i] == nt[i - 1]);
                    let j = i - 1;
                    assert(0 <= j < nt.len());
                    assert(newer(nt[j].version@, from));
                    assert(t.contains(nt[j]));
                    let k = choose|k: int| 0 <= k < t.len() && t[k] == nt[j];
                    assert(rs[k + 1] == t[k]);
                }
            } else {
                assert(newer_than(rs, from)[i] == nt[i]);
                assert(newer(nt[i].version@, from) && t.contains(nt[i]));
                let k = choose|k: int| 0 <= k < t.len() && t[k] == nt[i];
                assert(rs[k + 1] == t[k]);
            }
        }
        assert forall|j: int| 0 <= j < rs.len() && newer(#[trigger] rs[j].version@, from) implies newer_than(rs, from).contains(rs[j]) by {
            if j == 0 {
                assert(newer_than(rs, from)[0] == rs[0]);
            } else {
                assert(t[j - 1] == rs[j]);
                assert(nt.contains(t[j - 1]));
                let k = choose|k: int| 0 <= k < nt.len() && nt[k] == t[j - 1];
                if newer(rs[0].version@, from) {
                    assert(newer_than(rs, from)[k + 1] == nt[k]);
                } else {
                    assert(newer_than(rs, from)[k] == nt[k]);
                }
            }
        }
    }
}

/// Number of versions in `vs` newer than `current`.
pub open spec fn count_newer(vs: Seq<Seq<char>>, current: Seq<char>) -> nat
    decreases vs.len(),
{
    if vs.len() == 0 {
        0
    } else {
        count_newer(vs.drop_last(), current) + if newer(vs.last(), current) {
            1nat
        } else {
            0nat
        }
    }
}

/// The trimmed cached latest, when there is a non-blank one.
pub open spec fn usable_latest(cached: Option<Seq<char>>) -> Option<Seq<char>> {
    match cached {
        Some(l) => if trim(l).len() > 0 {
            Some(trim(l))
        } else {
            None
        },
        None => None,
    }
}

/// `classify_update_status` as a function of the two versions.
pub open spec fn update_status(current: Seq<char>, cached: Option<Seq<char>>) -> UpdateStatus {
    match usable_latest(cached) {
        None => UpdateStatus::Unknown,
        Some(l) => if version_parts(l).len() == 0 {
            UpdateStatus::Unknown
        } else if !newer(l, current) {
            UpdateStatus::Current
        } else if part(version_parts(l), 0) > part(version_parts(current), 0) {
            UpdateStatus::MajorBehind
        } else if part(version_parts(l), 1) > part(version_parts(current), 1) {
            UpdateStatus::MinorBehind
        } else {
            UpdateStatus::PatchBehind
        },
    }
}

/// `classify_releases_behind` as a function of its inputs.
pub open spec fn releases_behind(
    current: Seq<char>,
    cached: Option<Seq<char>>,
    vs: Seq<Seq<char>>,
) -> ReleasesBehind {
    match usable_latest(cached) {
        None => ReleasesBehind::Unknown,
        Some(l) => if version_parts(l).len() == 0 {
            ReleasesBehind::Unknown
        } else if !newer(l, current) {
            ReleasesBehind::Current
        } else if count_newer(vs, current) >= 2 {
            ReleasesBehind::SeveralBehind
        } else {
            ReleasesBehind::OneBehind
        },
    }
}

/// `s` with every leading `v` removed (`trim_start_matches('v')`).
pub open spec fn strip_v(s: Seq<char>) -> Seq<char>
    decreases s.len(),
{
    if s.len() > 0 && s[0] == 'v' {
        strip_v(s.drop_first())
    } else {
        s
    }
}

pub open spec fn release_url_prefix() -> Seq<char> {
    "https://github.com/agent-of-empires/agent-of-empires/releases/tag/"@
}

/// The release page of a version tag, adding a `v` when the version lacks one.
pub open spec fn release_page(version: Seq<char>) -> Seq<char> {
    if version.len() > 0 && version[0] == 'v' {
        release_url_prefix() + version
    } else {
        release_url_prefix() + seq!['v'] + version
    }
}

// ---------------------------------------------------------------------------
// Version parsing and comparison
// ---------------------------------------------------------------------------
/// The numeric components of a dotted version (`"1.2.3"` -> `[1, 2, 3]`).
pub fn version_parts_of(v: &str) -> (r: Vec<u32>)
    ensures
        r@ == version_parts(v@),
{
    let cs = chars_of(v);
    let pieces = split_chars(&cs, '.');
    let ghost ps = split_on(v@, '.');
    let mut out: Vec<u32> = Vec::new();
    let mut i: usize = 0;
    while i < pieces.len()
        invariant
            i <= pieces.len(),
            pieces@.len() == ps.len(),
            forall|k: int| 0 <= k < pieces@.len() ==> (#[trigger] pieces@[k])@ == ps[k],
            out@ == parts_of(ps.take(i as int)),
        decreases pieces.len() - i,
    {
        let p = parse_unsigned_chars(&pieces[i], u32::MAX as u64);
        let ghost pre = ps.take(i as int);
        assert(ps.take(i + 1).drop_last() =~= pre);
        assert(ps.take(i + 1).last() == pieces@[i as int]@);
        match p {
            Some(n) => {
                out.push(n as u32);
            },
            None => {},
        }
        i = i + 1;
    }
    assert(ps.take(pieces.len() as int) =~= ps);
    out
}

/// Whether `latest` is a newer version than `current`, comparing numeric
/// components left to right with missing components read as zero.
pub fn is_newer_version(latest: &str, current: &str) -> (r: bool)
    ensures
        r == newer(latest@, current@),
{
    let l = version_parts_of(latest);
    let c = version_parts_of(current);
    let n = if l.len() > c.len() {
        l.len()
    } else {
        c.len()
    };
    let mut i: usize = 0;
    while i < n
        invariant
            i <= n,
            n == if l@.len() > c@.len() {
                l@.len()
            } else {
                c@.len()
            },
            agree_before(l@, c@, i as int),
            l@ == version_parts(latest@),
            c@ == version_parts(current@),
        decreases n - i,
    {
        let lv: u32 = if i < l.len() {
            l[i]
        } else {
            0
        };
        let cv: u32 = if i < c.len() {
            c[i]
        } else {
            0
        };
        assert(lv == part(l@, i as int) && cv == part(c@, i as int));
        if lv > cv {
            assert(parts_newer(l@, c@));
            return true;
        }
        if lv < cv {
            proof {
                lemma_not_newer_at(l@, c@, i as int);
            }
            return false;
        }
        i = i + 1;
    }
    proof {
        assert forall|j: int| #[trigger] part(l@, j) == part(c@, j) by {
            if 0 <= j < n {
            }
        }
        lemma_same_not_newer(l@, c@);
    }
    false
}

proof fn lemma_not_newer_at(l: Seq<u32>, c: Seq<u32>, i: int)
    requires
        0 <= i,
        agree_before(l, c, i),
        part(l, i) < part(c, i),
    ensures
        !parts_newer(l, c),
{
    if parts_newer(l, c) {
        let k = choose|k: int| 0 <= k && agree_before(l, c, k) && #[trigger] part(l, k) > part(c, k);
        if k < i {
            assert(part(l, k) == part(c, k));
        } else if k > i {
            assert(part(l, i) == part(c, i));
        }
    }
}

proof fn lemma_same_not_newer(l: Seq<u32>, c: Seq<u32>)
    requires
        forall|j: int| #[trigger] part(l, j) == part(c, j),
    ensures
        !parts_newer(l, c),
{
    if parts_newer(l, c) {
        let k = choose|k: int| 0 <= k && agree_before(l, c, k) && #[trigger] part(l, k) > part(c, k);
        assert(part(l, k) == part(c, k));
    }
}

// ---------------------------------------------------------------------------
// Laws of the version order
// ---------------------------------------------------------------------------
/// No version is newer than itself.
pub proof fn law_newer_irreflexive(v: Seq<char>)
    ensures
        !newer(v, v),
{
    lemma_same_not_newer(version_parts(v), version_parts(v));
}

/// If `a` is newer than `b`, then `b` is not newer than `a`.
pub proof fn law_newer_asymmetric(a: Seq<char>, b: Seq<char>)
    requires
        newer(a, b),
    ensures
        !newer(b, a),
{
    let pa = version_parts(a);
    let pb = version_parts(b);
    let k = choose|k: int| 0 <= k && agree_before(pa, pb, k) && #[trigger] part(pa, k) > part(pb, k);
    assert(agree_before(pb, pa, k)) by {
        assert forall|j: int| 0 <= j < k implies #[trigger] part(pb, j) == part(pa, j) by {
            assert(part(pa, j) == part(pb, j));
        }
    }
    lemma_not_newer_at(pb, pa, k);
}

/// Newer-than is transitive.
pub proof fn law_newer_transitive(a: Seq<char>, b: Seq<char>, c: Seq<char>)
    requires
        newer(a, b),
        newer(b, c),
    ensures
        newer(a, c),
{
    let pa = version_parts(a);
    let pb = version_parts(b);
    let pc = version_parts(c);
    let i = choose|k: int| 0 <= k && agree_before(pa, pb, k) && #[trigger] part(pa, k) > part(pb, k);
    let j = choose|k: int| 0 <= k && agree_before(pb, pc, k) && #[trigger] part(pb, k) > part(pc, k);
    let m = if i < j {
        i
    } else {
        j
    };
    assert(agree_before(pa, pc, m)) by {
        assert forall|t: int| 0 <= t < m implies #[trigger] part(pa, t) == part(pc, t) by {
            assert(part(pa, t) == part(pb, t));
            assert(part(pb, t) == part(pc, t));
        }
    }
    if i < j {
        assert(part(pb, i) == part(pc, i));
    } else if j < i {
        assert(part(pa, j) == part(pb, j));
    }
    assert(part(pa, m) > part(pc, m));
}

/// Any two versions are ordered: one is newer, or they have the same components.
pub proof fn law_newer_total(a: Seq<char>, b: Seq<char>)
    ensures
        newer(a, b) || newer(b, a) || same_version(a, b),
{
    let pa = version_parts(a);
    let pb = version_parts(b);
    if !same_version(a, b) {
        let d = choose|i: int| #[trigger] part(pa, i) != part(pb, i);
        assert(0 <= d);
        lemma_first_difference(pa, pb, d);
    }
}

proof fn lemma_first_difference(pa: Seq<u32>, pb: Seq<u32>, d: int)
    requires
        0 <= d,
        part(pa, d) != part(pb, d),
    ensures
        parts_newer(pa, pb) || parts_newer(pb, pa),
    decreases d,
{
    if agree_before(pa, pb, d) {
        if part(pa, d) > part(pb, d) {
            assert(parts_newer(pa, pb));
        } else {
            assert(agree_before(pb, pa, d)) by {
                assert forall|j: int| 0 <= j < d implies #[trigger] part(pb, j) == part(pa, j) by {
                    assert(part(pa, j) == part(pb, j));
                }
            }
            assert(part(pb, d) > part(pa, d));
            assert(parts_newer(pb, pa));
        }
    } else {
        let e = choose|j: int| 0 <= j < d && #[trigger] part(pa, j) != part(pb, j);
        lemma_first_difference(pa, pb, e);
    }
}

// ---------------------------------------------------------------------------
// Release lists
// ---------------------------------------------------------------------------
/// Releases newer than `from_version`, in their order (newest first for
/// a newest-first list); all of them when `from_version` is absent.
pub fn filter_releases(releases: Vec<ReleaseInfo>, from_version: Option<&str>) -> (r: Vec<
    ReleaseInfo,
>)
    ensures
        r@ == filtered(
            releases@,
            opt_view(from_version),
        ),
{
    match from_version {
        None => releases,
        Some(from) => {
            let mut rest = releases;
            let mut out: Vec<ReleaseInfo> = Vec::new();
            let ghost all = rest@;
            assert(out@ + newer_than(rest@, from@) =~= newer_than(all, from@));
            while rest.len() > 0
                invariant
                    out@ + newer_than(rest@, from@) == newer_than(all, from@),
                decreases rest@.len(),
            {
                let ghost before = rest@;
                let r = rest.remove(0);
                assert(rest@ =~= before.drop_first());
                if is_newer_version(r.version.as_str(), from) {
                    let ghost o = out@;
                    out.push(r);
                    assert(out@ + newer_than(rest@, from@) =~= o + newer_than(before, from@));
                }
            }
            assert(out@ =~= out@ + newer_than(rest@, from@));
            out
        },
    }
}

/// Cached release notes newer than `from_version`, newest first (in the
/// cache's order); all of them when `from_version` is absent; nothing when
/// there is no cache.
pub fn get_cached_releases(cached: Option<Vec<ReleaseInfo>>, from_version: Option<&str>) -> (r:
    Vec<ReleaseInfo>)
    ensures
        match cached {
            None => r@.len() == 0,
            Some(rs) => r@ == filtered(
                rs@,
                opt_view(from_version),
            ),
        },
        from_version matches Some(f) ==> forall|i: int| 0 <= i < r@.len() ==> newer(#[trigger] r@[i].version@, f@),
{
    proof {
        match (&cached, from_version) {
            (Some(rs), Some(f)) => lemma_newer_than_kept(rs@, f@),
            _ => {},
        }
    }
    match cached {
        None => Vec::new(),
        Some(rs) => filter_releases(rs, from_version),
    }
}

/// Number of releases whose version is newer than `current`.
fn count_newer_releases(releases: &[ReleaseInfo], current: &str) -> (n: usize)
    ensures
        n == count_newer(versions_of(releases@), current@),
{
    let ghost vs = versions_of(releases@);
    let mut n: usize = 0;
    let mut i: usize = 0;
    while i < releases.len()
        invariant
            i <= releases.len(),
            vs == versions_of(releases@),
            n == count_newer(vs.take(i as int), current@),
            n <= i,
        decreases releases.len() - i,
    {
        let b = is_newer_version(releases[i].version.as_str(), current);
        assert(vs.take(i + 1).drop_last() =~= vs.take(i as int));
        assert(vs.take(i + 1).last() == vs[i as int]);
        if b {
            n = n + 1;
        }
        i = i + 1;
    }
    assert(vs.take(releases.len() as int) =~= vs);
    n
}

/// The trimmed cached latest version, unless it is absent or blank.
fn usable_latest_of(cached_latest: Option<&str>) -> (r: Option<String>)
    ensures
        match r {
            Some(s) => usable_latest(
                opt_view(cached_latest),
            ) == Some(s@),
            None => usable_latest(
                opt_view(cached_latest),
            ) is None,
        },
{
    match cached_latest {
        None => None,
        Some(l) => {
            let cs = chars_of(l);
            let t = trim_chars(&cs);
            if t.len() == 0 {
                None
            } else {
                Some(string_from(&t))
            }
        },
    }
}

/// When the cached latest is newer than the running build, the bucket is
/// decided by the first differing of major and minor: a larger major is
/// `MajorBehind` whatever the minors say, a larger minor under an equal major
/// is `MinorBehind`, and equal major and minor is `PatchBehind`.
pub proof fn law_update_status_by_major_then_minor(current: Seq<char>, cached: Option<Seq<char>>)
    ensures
        match usable_latest(cached) {
            Some(l) => version_parts(l).len() > 0 && newer(l, current) ==> {
                &&& (update_status(current, cached) == UpdateStatus::MajorBehind <==> part(
                    version_parts(l),
                    0,
                ) > part(version_parts(current), 0))
                &&& (update_status(current, cached) == UpdateStatus::MinorBehind <==> (part(
                    version_parts(l),
                    0,
                ) == part(version_parts(current), 0) && part(version_parts(l), 1) > part(
                    version_parts(current),
                    1,
                )))
                &&& (update_status(current, cached) == UpdateStatus::PatchBehind <==> (part(
                    version_parts(l),
                    0,
                ) == part(version_parts(current), 0) && part(version_parts(l), 1) == part(
                    version_parts(current),
                    1,
                )))
            },
            None => true,
        },
{
    if let Some(l) = usable_latest(cached) {
        if version_parts(l).len() > 0 && newer(l, current) {
            let lp = version_parts(l);
            let cp = version_parts(current);
            if part(lp, 0) < part(cp, 0) {
                lemma_not_newer_at(lp, cp, 0);
            } else if part(lp, 0) == part(cp, 0) && part(lp, 1) < part(cp, 1) {
                assert(agree_before(lp, cp, 1));
                lemma_not_newer_at(lp, cp, 1);
            }
        }
    }
}

/// Semver distance between the running build and a cached latest version.
pub fn classify_update_status(current: &str, cached_latest: Option<&str>) -> (r: UpdateStatus)
    ensures
        r == update_status(
            current@,
            opt_view(cached_latest),
        ),
        match usable_latest(opt_view(cached_latest)) {
            Some(l) => version_parts(l).len() > 0 && newer(l, current@) ==> {
                &&& (r == UpdateStatus::MajorBehind <==> part(version_parts(l), 0) > part(
                    version_parts(current@),
                    0,
                ))
                &&& (r == UpdateStatus::MinorBehind <==> (part(version_parts(l), 0) == part(
                    version_parts(current@),
                    0,
                ) && part(version_parts(l), 1) > part(version_parts(current@), 1)))
            },
            None => true,
        },
{
    proof {
        law_update_status_by_major_then_minor(current@, opt_view(cached_latest));
    }
    let latest = match usable_latest_of(cached_latest) {
        None => {
            return UpdateStatus::Unknown;
        },
        Some(l) => l,
    };
    let lp = version_parts_of(latest.as_str());
    if lp.len() == 0 {
        return UpdateStatus::Unknown;
    }
    if !is_newer_version(latest.as_str(), current) {
        return UpdateStatus::Current;
    }
    let cp = version_parts_of(current);
    let l0: u32 = lp[0];
    let c0: u32 = if cp.len() > 0 {
        cp[0]
    } else {
        0
    };
    let l1: u32 = if lp.len() > 1 {
        lp[1]
    } else {
        0
    };
    let c1: u32 = if cp.len() > 1 {
        cp[1]
    } else {
        0
    };
    if l0 > c0 {
        UpdateStatus::MajorBehind
    } else if l1 > c1 {
        UpdateStatus::MinorBehind
    } else {
        UpdateStatus::PatchBehind
    }
}

/// How many cached releases are newer than the running build.
pub fn classify_releases_behind(
    current: &str,
    cached_latest: Option<&str>,
    releases: &[ReleaseInfo],
) -> (r: ReleasesBehind)
    ensures
        r == releases_behind(
            current@,
            opt_view(cached_latest),
            versions_of(releases@),
        ),
{
    let latest = match usable_latest_of(cached_latest) {
        None => {
            return ReleasesBehind::Unknown;
        },
        Some(l) => l,
    };
    let lp = version_parts_of(latest.as_str());
    if lp.len() == 0 {
        return ReleasesBehind::Unknown;
    }
    if !is_newer_version(latest.as_str(), current) {
        return ReleasesBehind::Current;
    }
    let n = count_newer_releases(releases, current);
    if n >= 2 {
        ReleasesBehind::SeveralBehind
    } else {
        ReleasesBehind::OneBehind
    }
}

/// Both version-health signals from the cached update check; both `Unknown`
/// when there is no cache.
pub fn cached_version_health(current: &str, cache: Option<&UpdateCache>) -> (r: (
    UpdateStatus,
    ReleasesBehind,
))
    ensures
        match cache {
            None => r == (UpdateStatus::Unknown, ReleasesBehind::Unknown),
            Some(c) => r == (
                update_status(current@, Some(c.latest_version@)),
                releases_behind(current@, Some(c.latest_version@), versions_of(c.releases@)),
            ),
        },
{
    match cache {
        None => {
            let empty: Vec<ReleaseInfo> = Vec::new();
            (
                classify_update_status(current, None),
                classify_releases_behind(current, None, empty.as_slice()),
            )
        },
        Some(c) => (
            classify_update_status(current, Some(c.latest_version.as_str())),
            classify_releases_behind(current, Some(c.latest_version.as_str()), c.releases.as_slice()),
        ),
    }
}

// ---------------------------------------------------------------------------
// Update-check decisions
// ---------------------------------------------------------------------------
/// The result reported when update checks are switched off: nothing available
/// and an empty latest version.
pub fn update_info_disabled(current_version: &str) -> (r: UpdateInfo)
    ensures
        !r.available,
        r.current_version@ == current_version@,
        r.latest_version@ == Seq::<char>::empty(),
{
    UpdateInfo {
        available: false,
        current_version: owned(current_version),
        latest_version: String::new(),
    }
}

/// The result for a known latest version: an update is available exactly when
/// `latest` is newer than `current`.
pub fn update_info_for(current_version: &str, latest_version: &str) -> (r: UpdateInfo)
    ensures
        r.available == newer(latest_version@, current_version@),
        r.current_version@ == current_version@,
        r.latest_version@ == latest_version@,
{
    UpdateInfo {
        available: is_newer_version(latest_version, current_version),
        current_version: owned(current_version),
        latest_version: owned(latest_version),
    }
}

/// The cache is fresh: younger than `interval_hours`, measured from its check
/// time to `now_ms`.
pub open spec fn cache_fresh(checked_at_ms: i64, now_ms: i64, interval_hours: u64) -> bool {
    (now_ms as int) - (checked_at_ms as int) < (interval_hours as int) * 3_600_000
}

/// Answer an update check from the cache. The cache answers when it is fresh
/// and the running build is not newer than the cached latest (a user who
/// upgraded past the cache gets a refetch); otherwise `None`.
pub fn answer_from_cache(
    current_version: &str,
    cache: &UpdateCache,
    now_ms: i64,
    interval_hours: u64,
) -> (r: Option<UpdateInfo>)
    ensures
        r is Some <==> cache_fresh(cache.checked_at_ms, now_ms, interval_hours) && !newer(
            current_version@,
            cache.latest_version@,
        ),
        r matches Some(info) ==> {
            &&& info.available == newer(cache.latest_version@, current_version@)
            &&& info.current_version@ == current_version@
            &&& info.latest_version@ == cache.latest_version@
        },
{
    let age: i128 = now_ms as i128 - cache.checked_at_ms as i128;
    let max_age: i128 = interval_hours as i128 * 3_600_000;
    let current_is_newer = is_newer_version(current_version, cache.latest_version.as_str());
    if age < max_age && !current_is_newer {
        Some(update_info_for(current_version, cache.latest_version.as_str()))
    } else {
        None
    }
}

/// The latest version named by a fetched release list: the first release's
/// version, or empty when the list is empty.
pub fn latest_release_version(releases: &Vec<ReleaseInfo>) -> (r: String)
    ensures
        releases@.len() > 0 ==> r@ == releases@[0].version@,
        releases@.len() == 0 ==> r@ == Seq::<char>::empty(),
{
    if releases.len() > 0 {
        owned(releases[0].version.as_str())
    } else {
        String::new()
    }
}

/// A release entry from a GitHub release: the tag with its leading `v`s
/// removed, the body (empty when absent) and the publication time.
pub fn release_info_from(
    tag_name: &str,
    body: Option<String>,
    published_at: Option<String>,
) -> (r: ReleaseInfo)
    ensures
        r.version@ == strip_v(tag_name@),
        r.body@ == match body {
            Some(b) => b@,
            None => Seq::<char>::empty(),
        },
        r.published_at == published_at,
{
    let cs = chars_of(tag_name);
    let mut i: usize = 0;
    assert(cs@.skip(0) =~= cs@);
    while i < cs.len() && cs[i] == 'v'
        invariant
            i <= cs.len(),
            cs@ == tag_name@,
            strip_v(tag_name@) == strip_v(cs@.skip(i as int)),
        decreases cs.len() - i,
    {
        assert(cs@.skip(i as int).drop_first() =~= cs@.skip(i + 1));
        i = i + 1;
    }
    let version = substring(&cs, i, cs.len());
    assert(cs@.subrange(i as int, cs.len() as int) =~= cs@.skip(i as int));
    let body = match body {
        Some(b) => b,
        None => String::new(),
    };
    ReleaseInfo { version, body, published_at }
}

/// The update-check cache file under the application directory.
pub fn cache_path(app_dir: &str) -> (r: String)
    ensures
        r@ == join_path(app_dir@, "update_cache.json"@),
{
    join(app_dir, "update_cache.json")
}

/// Public release-page URL for a version tag.
pub fn release_page_url(version: &str) -> (r: String)
    ensures
        r@ == release_page(version@),
{
    let mut s = owned("https://github.com/agent-of-empires/agent-of-empires/releases/tag/");
    let cs = chars_of(version);
    if !(cs.len() > 0 && cs[0] == 'v') {
        s.push('v');
    }
    push_all(&mut s, version);
    s
}

} // verus!
