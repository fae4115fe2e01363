//! Records of the community trust database: advisories, PKGBUILD snapshots,
//! local sync state, and the rules that read and merge them.

use vstd::prelude::*;
use crate::text::{decimal, owned, push_decimal_u64, push_str, str_eq, string_of, to_chars, trim, trimmed};
use crate::backends::{opt_string, PackageInfo, PackageSource};
use crate::config::{join, join_path, no_home_error, under_home};
use crate::display::{
    empty_line, line_view, lines_view, push_line, push_segment, severity_color, severity_style,
    single_line, styled, styled_string, Segment, Style,
};

verus! {

/// A list of versions as the database stores it: `None` when the stored
/// value is not a list; otherwise its items, `None` for an item that is not
/// a text.
pub type VersionList = Option<Vec<Option<String>>>;

/// An advisory from the trust database.
#[derive(Debug)]
pub struct Advisory {
    pub package: String,
    pub severity: String,
    pub status: String,
    pub reported: String,
    pub updated: String,
    pub reported_by: String,
    pub cve: String,
    pub summary: String,
    pub description: String,
    pub affected_versions: VersionList,
    pub safe_versions: VersionList,
    pub reference_urls: VersionList,
}

/// A snapshot entry from the trust database.
#[derive(Debug)]
pub struct SnapshotEntry {
    pub package: String,
    pub version: String,
    pub sha256: String,
    pub submitted_count: i64,
    pub first_seen: String,
    pub last_seen: String,
    pub pkgbuild_text: Option<String>,
}

/// Local meta state of the trust database cache.
#[derive(Debug)]
pub struct LocalMeta {
    pub version: String,
    pub last_sync: String,
    pub advisory_count: usize,
    pub snapshot_count: usize,
}

/// A pending snapshot waiting to be submitted on the next update.
#[derive(Debug)]
pub struct PendingSnapshot {
    pub package: String,
    pub version: String,
    pub sha256: String,
    pub queued_at: String,
    pub pkgbuild_text: Option<String>,
}

/// Result of a sync operation.
#[derive(Debug, Clone, Copy, PartialEq, Eq, Structural)]
pub enum SyncResult {
    Skipped,
    Synced { advisories: usize, snapshots: usize },
}

impl SyncResult {
    /// The message that reports the sync.
    pub fn message(&self) -> (s: String)
        ensures
            s@ == match *self {
                SyncResult::Skipped => "Trust database sync skipped (server unavailable)"@,
                SyncResult::Synced { advisories, snapshots } =>
                    "Trust database synced: "@ + decimal(advisories as nat) + " advisories, "@
                        + decimal(snapshots as nat) + " snapshots"@,
            },
    {
        match self {
            SyncResult::Skipped => owned("Trust database sync skipped (server unavailable)"),
            SyncResult::Synced { advisories, snapshots } => {
                let mut s = owned("Trust database synced: ");
                push_decimal_u64(&mut s, *advisories as u64);
                push_str(&mut s, " advisories, ");
                push_decimal_u64(&mut s, *snapshots as u64);
                push_str(&mut s, " snapshots");
                s
            },
        }
    }
}

// ───────────────────────────── copies ─────────────────────────────

/// Two version lists hold the same values.
pub open spec fn same_list(a: VersionList, b: VersionList) -> bool {
    match (a, b) {
        (None, None) => true,
        (Some(x), Some(y)) => x@ == y@,
        _ => false,
    }
}

/// Two advisories hold the same values.
pub open spec fn same_advisory(a: Advisory, b: Advisory) -> bool {
    &&& a.package == b.package
    &&& a.severity == b.severity
    &&& a.status == b.status
    &&& a.reported == b.reported
    &&& a.updated == b.updated
    &&& a.reported_by == b.reported_by
    &&& a.cve == b.cve
    &&& a.summary == b.summary
    &&& a.description == b.description
    &&& same_list(a.affected_versions, b.affected_versions)
    &&& same_list(a.safe_versions, b.safe_versions)
    &&& same_list(a.reference_urls, b.reference_urls)
}

/// Two snapshots hold the same values.
pub open spec fn same_snapshot(a: SnapshotEntry, b: SnapshotEntry) -> bool {
    &&& a.package == b.package
    &&& a.version == b.version
    &&& a.sha256 == b.sha256
    &&& a.submitted_count == b.submitted_count
    &&& a.first_seen == b.first_seen
    &&& a.last_seen == b.last_seen
    &&& a.pkgbuild_text == b.pkgbuild_text
}

/// Two advisory lists hold the same advisories in the same order.
pub open spec fn same_advisories(a: Seq<Advisory>, b: Seq<Advisory>) -> bool {
    a.len() == b.len() && forall|i: int| 0 <= i < a.len() ==> same_advisory(#[trigger] a[i], b[i])
}

/// Two snapshot lists hold the same snapshots in the same order.
pub open spec fn same_snapshots(a: Seq<SnapshotEntry>, b: Seq<SnapshotEntry>) -> bool {
    a.len() == b.len() && forall|i: int| 0 <= i < a.len() ==> same_snapshot(#[trigger] a[i], b[i])
}

fn copy_list(l: &VersionList) -> (r: VersionList)
    ensures
        same_list(r, *l),
{
    match l {
        None => None,
        Some(v) => {
            let mut out: Vec<Option<String>> = Vec::new();
            let mut i: usize = 0;
            while i < v.len()
                invariant
                    i <= v@.len(),
                    out@ == v@.subrange(0, i as int),
                decreases v@.len() - i,
            {
                let item = match &v[i] {
                    Some(s) => Some(s.clone()),
                    None => None,
                };
                out.push(item);
                i += 1;
                assert(out@ =~= v@.subrange(0, i as int));
            }
            assert(v@.subrange(0, v@.len() as int) =~= v@);
            Some(out)
        },
    }
}

fn copy_opt(s: &Option<String>) -> (r: Option<String>)
    ensures
        r == *s,
{
    match s {
        Some(v) => Some(v.clone()),
        None => None,
    }
}

/// A copy of an advisory.
pub fn copy_advisory(a: &Advisory) -> (r: Advisory)
    ensures
        same_advisory(r, *a),
{
    Advisory {
        package: a.package.clone(),
        severity: a.severity.clone(),
        status: a.status.clone(),
        reported: a.reported.clone(),
        updated: a.updated.clone(),
        reported_by: a.reported_by.clone(),
        cve: a.cve.clone(),
        summary: a.summary.clone(),
        description: a.description.clone(),
        affected_versions: copy_list(&a.affected_versions),
        safe_versions: copy_list(&a.safe_versions),
        reference_urls: copy_list(&a.reference_urls),
    }
}

/// A copy of a snapshot.
pub fn copy_snapshot(s: &SnapshotEntry) -> (r: SnapshotEntry)
    ensures
        same_snapshot(r, *s),
{
    SnapshotEntry {
        package: s.package.clone(),
        version: s.version.clone(),
        sha256: s.sha256.clone(),
        submitted_count: s.submitted_count,
        first_seen: s.first_seen.clone(),
        last_seen: s.last_seen.clone(),
        pkgbuild_text: copy_opt(&s.pkgbuild_text),
    }
}

// ───────────────────────────── advisory rules ─────────────────────────────

/// The trust score impact of an advisory's status.  Statuses attest in both
/// directions: safe +10, suspicious -15, warning -20, malicious -30,
/// resolved 0; the older names confirmed and suspected count as warning and
/// suspicious; any other status counts 0.
pub open spec fn status_penalty(status: Seq<char>) -> int {
    if status == "safe"@ { 10 }
    else if status == "suspicious"@ { -15 }
    else if status == "warning"@ { -20 }
    else if status == "malicious"@ { -30 }
    else if status == "resolved"@ { 0 }
    else if status == "confirmed"@ { -20 }
    else if status == "suspected"@ { -15 }
    else { 0 }
}

/// The recommendation floor of an advisory's status (empty for none).
pub open spec fn status_floor(status: Seq<char>) -> Seq<char> {
    if status == "malicious"@ { "Danger"@ }
    else if status == "warning"@ { "Warning"@ }
    else if status == "suspicious"@ { "Caution"@ }
    else if status == "safe"@ { ""@ }
    else if status == "resolved"@ { ""@ }
    else if status == "confirmed"@ { "Warning"@ }
    else if status == "suspected"@ { "Caution"@ }
    else { ""@ }
}

/// Get the trust score impact for an advisory based on status.
pub fn advisory_penalty(advisory: &Advisory) -> (r: i32)
    ensures
        r == status_penalty(advisory.status@),
{
    let s = advisory.status.as_str();
    if str_eq(s, "safe") { 10 }
    else if str_eq(s, "suspicious") { -15 }
    else if str_eq(s, "warning") { -20 }
    else if str_eq(s, "malicious") { -30 }
    else if str_eq(s, "resolved") { 0 }
    else if str_eq(s, "confirmed") { -20 }
    else if str_eq(s, "suspected") { -15 }
    else { 0 }
}

/// Get the recommendation floor for an advisory based on status.
pub fn advisory_floor(advisory: &Advisory) -> (r: &'static str)
    ensures
        r@ == status_floor(advisory.status@),
{
    let s = advisory.status.as_str();
    if str_eq(s, "malicious") { "Danger" }
    else if str_eq(s, "warning") { "Warning" }
    else if str_eq(s, "suspicious") { "Caution" }
    else if str_eq(s, "safe") { "" }
    else if str_eq(s, "resolved") { "" }
    else if str_eq(s, "confirmed") { "Warning" }
    else if str_eq(s, "suspected") { "Caution" }
    else { "" }
}

/// The text items of a version list (none when it is not a list).
pub open spec fn listed_versions(l: VersionList) -> Seq<Seq<char>> {
    match l {
        None => Seq::empty(),
        Some(v) => texts_of_items(v@),
    }
}

/// The texts among a list's items, in order.
pub open spec fn texts_of_items(items: Seq<Option<String>>) -> Seq<Seq<char>>
    decreases items.len(),
{
    if items.len() == 0 {
        Seq::empty()
    } else {
        let rest = texts_of_items(items.drop_last());
        match items.last() {
            Some(s) => rest.push(s@),
            None => rest,
        }
    }
}

/// Whether version `version` is named in the list.
pub fn list_names_version(l: &VersionList, version: &str) -> (r: bool)
    ensures
        r == listed_versions(*l).contains(version@),
{
    match l {
        None => false,
        Some(v) => {
            let mut i: usize = 0;
            let mut found = false;
            while i < v.len()
                invariant
                    i <= v@.len(),
                    found == texts_of_items(v@.subrange(0, i as int)).contains(version@),
                decreases v@.len() - i,
            {
                let ghost before = texts_of_items(v@.subrange(0, i as int));
                assert(v@.subrange(0, i + 1).drop_last() =~= v@.subrange(0, i as int));
                match &v[i] {
                    Some(s) => {
                        let hit = str_eq(s.as_str(), version);
                        proof {
                            let now = before.push(s@);
                            assert(now.contains(version@) == (before.contains(version@) || s@ == version@)) by {
                                if s@ == version@ {
                                    assert(now[now.len() - 1] == version@);
                                }
                                if before.contains(version@) {
                                    let k = choose|k: int| 0 <= k < before.len() && before[k] == version@;
                                    assert(now[k] == before[k]);
                                }
                                if now.contains(version@) && !before.contains(version@) {
                                    let k = choose|k: int| 0 <= k < now.len() && now[k] == version@;
                                    if k < before.len() {
                                        assert(before[k] == version@);
                                    }
                                }
                            }
                        }
                        found = found || hit;
                    },
                    None => {},
                }
                i += 1;
            }
            assert(v@.subrange(0, v@.len() as int) =~= v@);
            found
        },
    }
}

// ───────────────────────────── lookups ─────────────────────────────

/// Look up the advisory for a package among the cached advisories: the first
/// one whose package is `package`.
pub fn lookup_advisory(all: &Vec<Advisory>, package: &str) -> (r: Option<Advisory>)
    ensures
        match r {
            Some(a) => exists|i: int| 0 <= i < all@.len() && all@[i].package@ == package@
                && (forall|j: int| 0 <= j < i ==> all@[j].package@ != package@)
                && same_advisory(a, all@[i]),
            None => forall|i: int| 0 <= i < all@.len() ==> all@[i].package@ != package@,
        },
{
    let mut i: usize = 0;
    while i < all.len()
        invariant
            i <= all@.len(),
            forall|j: int| 0 <= j < i ==> all@[j].package@ != package@,
        decreases all@.len() - i,
    {
        if str_eq(all[i].package.as_str(), package) {
            return Some(copy_advisory(&all[i]));
        }
        i += 1;
    }
    None
}

/// The snapshots of `all` satisfying `keep`, in order.
pub open spec fn snapshots_where(all: Seq<SnapshotEntry>, package: Seq<char>, version: Option<Seq<char>>) -> Seq<SnapshotEntry>
    decreases all.len(),
{
    if all.len() == 0 {
        Seq::empty()
    } else {
        let rest = snapshots_where(all.drop_last(), package, version);
        let s = all.last();
        if s.package@ == package && (version matches Some(v) ==> s.version@ == v) {
            rest.push(s)
        } else {
            rest
        }
    }
}

fn filter_snapshots(all: &Vec<SnapshotEntry>, package: &str, version: Option<&str>) -> (r: Vec<SnapshotEntry>)
    ensures
        same_snapshots(r@, snapshots_where(all@, package@, match version { Some(v) => Some(v@), None => None })),
{
    let ghost vs = match version { Some(v) => Some(v@), None => None::<Seq<char>> };
    let mut r: Vec<SnapshotEntry> = Vec::new();
    let mut i: usize = 0;
    while i < all.len()
        invariant
            i <= all@.len(),
            vs == match version { Some(v) => Some(v@), None => None::<Seq<char>> },
            same_snapshots(r@, snapshots_where(all@.subrange(0, i as int), package@, vs)),
        decreases all@.len() - i,
    {
        assert(all@.subrange(0, i + 1).drop_last() =~= all@.subrange(0, i as int));
        let s = &all[i];
        let keep = str_eq(s.package.as_str(), package) && match version {
            Some(v) => str_eq(s.version.as_str(), v),
            None => true,
        };
        if keep {
            let c = copy_snapshot(s);
            proof {
                lemma_same_snapshots_push(r@, snapshots_where(all@.subrange(0, i as int), package@, vs), c, all@[i as int]);
            }
            r.push(c);
        }
        i += 1;
    }
    assert(all@.subrange(0, all@.len() as int) =~= all@);
    r
}

/// Look up the snapshots of a package among the cached snapshots.
pub fn lookup_snapshots(all: &Vec<SnapshotEntry>, package: &str) -> (r: Vec<SnapshotEntry>)
    ensures
        same_snapshots(r@, snapshots_where(all@, package@, None)),
{
    filter_snapshots(all, package, None)
}

/// Look up the snapshots of a package at one version among the cached snapshots.
pub fn lookup_snapshots_for_version(all: &Vec<SnapshotEntry>, package: &str, version: &str) -> (r: Vec<SnapshotEntry>)
    ensures
        same_snapshots(r@, snapshots_where(all@, package@, Some(version@))),
{
    filter_snapshots(all, package, Some(version))
}

// ───────────────────────────── sync ─────────────────────────────

/// The cache needs a sync when there is no local state, or when the server's
/// advisory count differs from the one recorded at the last sync.
pub fn needs_sync(local: &Option<LocalMeta>, remote_advisory_count: usize) -> (r: bool)
    ensures
        r == match *local {
            Some(m) => m.advisory_count != remote_advisory_count,
            None => true,
        },
{
    match local {
        Some(meta) => meta.advisory_count != remote_advisory_count,
        None => true,
    }
}

/// Advisories of any package but `p`.
pub open spec fn not_package(p: Seq<char>) -> spec_fn(Advisory) -> bool {
    |a: Advisory| a.package@ != p
}

/// Advisories after merging `news` into `existing`: each new advisory
/// replaces all advisories of its package and goes to the end.
pub open spec fn merged_advisories(existing: Seq<Advisory>, news: Seq<Advisory>) -> Seq<Advisory>
    decreases news.len(),
{
    if news.len() == 0 {
        existing
    } else {
        let m = merged_advisories(existing, news.drop_last());
        m.filter(not_package(news.last().package@)).push(news.last())
    }
}

/// The same snapshot key: package, version and hash.
pub open spec fn same_key(a: SnapshotEntry, b: SnapshotEntry) -> bool {
    a.package@ == b.package@ && a.version@ == b.version@ && a.sha256@ == b.sha256@
}

/// Snapshots after merging `news` into `existing`: each new snapshot
/// replaces those with its package, version and hash, and goes to the end.
pub open spec fn merged_snapshots(existing: Seq<SnapshotEntry>, news: Seq<SnapshotEntry>) -> Seq<SnapshotEntry>
    decreases news.len(),
{
    if news.len() == 0 {
        existing
    } else {
        let m = merged_snapshots(existing, news.drop_last());
        m.filter(|s: SnapshotEntry| !same_key(s, news.last())).push(news.last())
    }
}

proof fn lemma_same_advisories_push(a: Seq<Advisory>, b: Seq<Advisory>, x: Advisory, y: Advisory)
    requires
        same_advisories(a, b),
        same_advisory(x, y),
    ensures
        same_advisories(a.push(x), b.push(y)),
{
    assert forall|i: int| 0 <= i < a.len() + 1 implies same_advisory(#[trigger] a.push(x)[i], b.push(y)[i]) by {
        if i < a.len() {
            assert(a.push(x)[i] == a[i]);
            assert(b.push(y)[i] == b[i]);
        }
    }
}

proof fn lemma_same_snapshots_push(a: Seq<SnapshotEntry>, b: Seq<SnapshotEntry>, x: SnapshotEntry, y: SnapshotEntry)
    requires
        same_snapshots(a, b),
        same_snapshot(x, y),
    ensures
        same_snapshots(a.push(x), b.push(y)),
{
    assert forall|i: int| 0 <= i < a.len() + 1 implies same_snapshot(#[trigger] a.push(x)[i], b.push(y)[i]) by {
        if i < a.len() {
            assert(a.push(x)[i] == a[i]);
            assert(b.push(y)[i] == b[i]);
        }
    }
}

proof fn lemma_same_advisories_trans(a: Seq<Advisory>, b: Seq<Advisory>, c: Seq<Advisory>)
    requires
        same_advisories(a, b),
        same_advisories(b, c),
    ensures
        same_advisories(a, c),
{
    assert forall|i: int| 0 <= i < a.len() implies same_advisory(#[trigger] a[i], c[i]) by {
        assert(same_advisory(b[i], c[i]));
    }
}

proof fn lemma_same_snapshots_trans(a: Seq<SnapshotEntry>, b: Seq<SnapshotEntry>, c: Seq<SnapshotEntry>)
    requires
        same_snapshots(a, b),
        same_snapshots(b, c),
    ensures
        same_snapshots(a, c),
{
    assert forall|i: int| 0 <= i < a.len() implies same_snapshot(#[trigger] a[i], c[i]) by {
        assert(same_snapshot(b[i], c[i]));
    }
}

proof fn lemma_filter_push_advisory(s: Seq<Advisory>, x: Advisory, pkg: Seq<char>)
    ensures
        s.push(x).filter(not_package(pkg)) == if x.package@ != pkg {
            s.filter(not_package(pkg)).push(x)
        } else {
            s.filter(not_package(pkg))
        },
{
    reveal_with_fuel(Seq::<_>::filter, 1);
    assert(s.push(x).drop_last() =~= s);
}

proof fn lemma_filter_push_snapshot(s: Seq<SnapshotEntry>, x: SnapshotEntry, key: SnapshotEntry)
    ensures
        s.push(x).filter(|t: SnapshotEntry| !same_key(t, key)) == if !same_key(x, key) {
            s.filter(|t: SnapshotEntry| !same_key(t, key)).push(x)
        } else {
            s.filter(|t: SnapshotEntry| !same_key(t, key))
        },
{
    reveal_with_fuel(Seq::<_>::filter, 1);
    assert(s.push(x).drop_last() =~= s);
}

/// Removes from `v` the advisories of package `pkg`.
fn drop_package(v: Vec<Advisory>, pkg: &str) -> (r: Vec<Advisory>)
    ensures
        same_advisories(r@, v@.filter(not_package(pkg@))),
{
    let mut r: Vec<Advisory> = Vec::new();
    let mut i: usize = 0;
    while i < v.len()
        invariant
            i <= v@.len(),
            same_advisories(r@, v@.subrange(0, i as int).filter(not_package(pkg@))),
        decreases v@.len() - i,
    {
        proof {
            lemma_filter_push_advisory(v@.subrange(0, i as int), v@[i as int], pkg@);
            assert(v@.subrange(0, i as int).push(v@[i as int]) =~= v@.subrange(0, i + 1));
        }
        if !str_eq(v[i].package.as_str(), pkg) {
            let c = copy_advisory(&v[i]);
            proof {
                lemma_same_advisories_push(r@, v@.subrange(0, i as int).filter(not_package(pkg@)), c, v@[i as int]);
            }
            r.push(c);
        }
        i += 1;
    }
    assert(v@.subrange(0, v@.len() as int) =~= v@);
    r
}

/// Merge new advisories into the cached ones (each replaces its package's).
pub fn merge_advisories(existing: &Vec<Advisory>, news: &Vec<Advisory>) -> (r: Vec<Advisory>)
    ensures
        same_advisories(r@, merged_advisories(existing@, news@)),
{
    let mut r: Vec<Advisory> = Vec::new();
    let mut i: usize = 0;
    while i < existing.len()
        invariant
            i <= existing@.len(),
            same_advisories(r@, existing@.subrange(0, i as int)),
        decreases existing@.len() - i,
    {
        let c = copy_advisory(&existing[i]);
        proof {
            lemma_same_advisories_push(r@, existing@.subrange(0, i as int), c, existing@[i as int]);
            assert(existing@.subrange(0, i + 1) =~= existing@.subrange(0, i as int).push(existing@[i as int]));
        }
        r.push(c);
        i += 1;
    }
    assert(existing@.subrange(0, existing@.len() as int) =~= existing@);
    let mut k: usize = 0;
    while k < news.len()
        invariant
            k <= news@.len(),
            same_advisories(r@, merged_advisories(existing@, news@.subrange(0, k as int))),
        decreases news@.len() - k,
    {
        let ghost before = r@;
        let pkg = news[k].package.as_str();
        let kept = drop_package(r, pkg);
        proof {
            // Filtering respects equal copies.
            let m = merged_advisories(existing@, news@.subrange(0, k as int));
            lemma_filter_same_advisories(before, m, pkg@);
            lemma_same_advisories_trans(kept@, before.filter(not_package(pkg@)), m.filter(not_package(pkg@)));
        }
        r = kept;
        let c = copy_advisory(&news[k]);
        proof {
            let m = merged_advisories(existing@, news@.subrange(0, k as int));
            lemma_same_advisories_push(r@, m.filter(not_package(pkg@)), c, news@[k as int]);
            assert(news@.subrange(0, k + 1).drop_last() =~= news@.subrange(0, k as int));
        }
        r.push(c);
        k += 1;
        assert(news@.subrange(0, k as int).drop_last() =~= news@.subrange(0, k - 1));
    }
    assert(news@.subrange(0, news@.len() as int) =~= news@);
    r
}

proof fn lemma_filter_same_advisories(a: Seq<Advisory>, b: Seq<Advisory>, pkg: Seq<char>)
    requires
        same_advisories(a, b),
    ensures
        same_advisories(
            a.filter(not_package(pkg)),
            b.filter(not_package(pkg)),
        ),
    decreases a.len(),
{
    if a.len() > 0 {
        let a0 = a.drop_last();
        let b0 = b.drop_last();
        lemma_filter_same_advisories(a0, b0, pkg);
        assert(a0.push(a.last()) =~= a);
        assert(b0.push(b.last()) =~= b);
        lemma_filter_push_advisory(a0, a.last(), pkg);
        lemma_filter_push_advisory(b0, b.last(), pkg);
        if (not_package(pkg))(a.last()) {
            lemma_same_advisories_push(a0.filter(not_package(pkg)), b0.filter(not_package(pkg)), a.last(), b.last());
        }
    } else {
        reveal_with_fuel(Seq::<_>::filter, 1);
        assert(a.filter(not_package(pkg)) =~= Seq::<Advisory>::empty());
        assert(b.filter(not_package(pkg)) =~= Seq::<Advisory>::empty());
    }
}

proof fn lemma_filter_same_snapshots(a: Seq<SnapshotEntry>, b: Seq<SnapshotEntry>, key: SnapshotEntry)
    requires
        same_snapshots(a, b),
    ensures
        same_snapshots(
            a.filter(|t: SnapshotEntry| !same_key(t, key)),
            b.filter(|t: SnapshotEntry| !same_key(t, key)),
        ),
    decreases a.len(),
{
    if a.len() > 0 {
        let a0 = a.drop_last();
        let b0 = b.drop_last();
        lemma_filter_same_snapshots(a0, b0, key);
        assert(a0.push(a.last()) =~= a);
        assert(b0.push(b.last()) =~= b);
        lemma_filter_push_snapshot(a0, a.last(), key);
        lemma_filter_push_snapshot(b0, b.last(), key);
        if !same_key(a.last(), key) {
            lemma_same_snapshots_push(a0.filter(|t: SnapshotEntry| !same_key(t, key)), b0.filter(|t: SnapshotEntry| !same_key(t, key)), a.last(), b.last());
        }
    } else {
        reveal_with_fuel(Seq::<_>::filter, 1);
        assert(a.filter(|t: SnapshotEntry| !same_key(t, key)) =~= Seq::<SnapshotEntry>::empty());
        assert(b.filter(|t: SnapshotEntry| !same_key(t, key)) =~= Seq::<SnapshotEntry>::empty());
    }
}

/// Removes from `v` the snapshots with the key of `key`.
fn drop_key(v: Vec<SnapshotEntry>, key: &SnapshotEntry) -> (r: Vec<SnapshotEntry>)
    ensures
        same_snapshots(r@, v@.filter(|t: SnapshotEntry| !same_key(t, *key))),
{
    let mut r: Vec<SnapshotEntry> = Vec::new();
    let mut i: usize = 0;
    while i < v.len()
        invariant
            i <= v@.len(),
            same_snapshots(r@, v@.subrange(0, i as int).filter(|t: SnapshotEntry| !same_key(t, *key))),
        decreases v@.len() - i,
    {
        proof {
            lemma_filter_push_snapshot(v@.subrange(0, i as int), v@[i as int], *key);
            assert(v@.subrange(0, i as int).push(v@[i as int]) =~= v@.subrange(0, i + 1));
        }
        let s = &v[i];
        let same = str_eq(s.package.as_str(), key.package.as_str())
            && str_eq(s.version.as_str(), key.version.as_str())
            && str_eq(s.sha256.as_str(), key.sha256.as_str());
        if !same {
            let c = copy_snapshot(s);
            proof {
                lemma_same_snapshots_push(r@, v@.subrange(0, i as int).filter(|t: SnapshotEntry| !same_key(t, *key)), c, v@[i as int]);
            }
            r.push(c);
        }
        i += 1;
    }
    assert(v@.subrange(0, v@.len() as int) =~= v@);
    r
}

/// Merge new snapshots into the cached ones (each replaces its key's).
pub fn merge_snapshots(existing: &Vec<SnapshotEntry>, news: &Vec<SnapshotEntry>) -> (r: Vec<SnapshotEntry>)
    ensures
        same_snapshots(r@, merged_snapshots(existing@, news@)),
{
    let mut r: Vec<SnapshotEntry> = Vec::new();
    let mut i: usize = 0;
    while i < existing.len()
        invariant
            i <= existing@.len(),
            same_snapshots(r@, existing@.subrange(0, i as int)),
        decreases existing@.len() - i,
    {
        let c = copy_snapshot(&existing[i]);
        proof {
            lemma_same_snapshots_push(r@, existing@.subrange(0, i as int), c, existing@[i as int]);
            assert(existing@.subrange(0, i + 1) =~= existing@.subrange(0, i as int).push(existing@[i as int]));
        }
        r.push(c);
        i += 1;
    }
    assert(existing@.subrange(0, existing@.len() as int) =~= existing@);
    let mut k: usize = 0;
    while k < news.len()
        invariant
            k <= news@.len(),
            same_snapshots(r@, merged_snapshots(existing@, news@.subrange(0, k as int))),
        decreases news@.len() - k,
    {
        let ghost before = r@;
        let kept = drop_key(r, &news[k]);
        proof {
            let m = merged_snapshots(existing@, news@.subrange(0, k as int));
            lemma_filter_same_snapshots(before, m, news@[k as int]);
            lemma_same_snapshots_trans(
                kept@,
                before.filter(|t: SnapshotEntry| !same_key(t, news@[k as int])),
                m.filter(|t: SnapshotEntry| !same_key(t, news@[k as int])),
            );
        }
        r = kept;
        let c = copy_snapshot(&news[k]);
        proof {
            let m = merged_snapshots(existing@, news@.subrange(0, k as int));
            lemma_same_snapshots_push(r@, m.filter(|t: SnapshotEntry| !same_key(t, news@[k as int])), c, news@[k as int]);
            assert(news@.subrange(0, k + 1).drop_last() =~= news@.subrange(0, k as int));
        }
        r.push(c);
        k += 1;
        assert(news@.subrange(0, k as int).drop_last() =~= news@.subrange(0, k - 1));
    }
    assert(news@.subrange(0, news@.len() as int) =~= news@);
    r
}

// ───────────────────────────── locations ─────────────────────────────

/// The trust database API.
pub open spec fn api_url() -> Seq<char> {
    "https://api.thecinderproject.qd.je/cpac-trust-db/api"@
}

/// The API URL followed by `tail`.
fn api(tail: &str) -> (r: String)
    ensures
        r@ == api_url() + tail@,
{
    let mut r = owned("https://api.thecinderproject.qd.je/cpac-trust-db/api");
    push_str(&mut r, tail);
    r
}

/// Where all advisories are fetched.
pub fn advisories_url() -> (r: String)
    ensures
        r@ == api_url() + "/advisories"@,
{
    api("/advisories")
}

/// Where all snapshots are fetched, and where a snapshot is submitted.
pub fn snapshots_url() -> (r: String)
    ensures
        r@ == api_url() + "/snapshots"@,
{
    api("/snapshots")
}

/// Where the advisories updated after `since` are fetched.
pub fn advisories_since_url(since: &str) -> (r: String)
    ensures
        r@ == api_url() + "/advisories?updated_at=gt."@ + since@,
{
    let mut r = api("/advisories?updated_at=gt.");
    push_str(&mut r, since);
    r
}

/// Where the snapshots seen after `since` are fetched.
pub fn snapshots_since_url(since: &str) -> (r: String)
    ensures
        r@ == api_url() + "/snapshots?last_seen=gt."@ + since@,
{
    let mut r = api("/snapshots?last_seen=gt.");
    push_str(&mut r, since);
    r
}

/// The local cache directory, `~/.cpac/trust-db`, below the home directory.
pub open spec fn db_dir(home: Seq<char>) -> Seq<char> {
    join_path(home, ".cpac/trust-db"@)
}

/// Get the path to the trust-db local cache directory.
pub fn trust_db_dir() -> (r: Result<String, String>)
    ensures
        match r {
            Ok(p) => exists|home: Seq<char>| p@ == db_dir(home),
            Err(e) => e@ == no_home_error(),
        },
{
    let r = under_home(".cpac/trust-db");
    proof {
        if r is Ok {
            let p = r->Ok_0;
            let h = choose|h: Seq<char>| p@ == join_path(h, ".cpac/trust-db"@);
            assert(p@ == db_dir(h));
        }
    }
    r
}

/// A file of the local cache directory.
fn db_file(name: &str) -> (r: Result<String, String>)
    ensures
        match r {
            Ok(p) => exists|home: Seq<char>| p@ == join_path(db_dir(home), name@),
            Err(e) => e@ == no_home_error(),
        },
{
    match trust_db_dir() {
        Ok(dir) => Ok(join(dir.as_str(), name)),
        Err(e) => Err(e),
    }
}

/// The local sync state, `meta.toml`.
pub fn meta_path() -> (r: Result<String, String>)
    ensures
        match r {
            Ok(p) => exists|home: Seq<char>| p@ == join_path(db_dir(home), "meta.toml"@),
            Err(e) => e@ == no_home_error(),
        },
{
    db_file("meta.toml")
}

/// The local advisories cache, `advisories.json`.
pub fn advisories_path() -> (r: Result<String, String>)
    ensures
        match r {
            Ok(p) => exists|home: Seq<char>| p@ == join_path(db_dir(home), "advisories.json"@),
            Err(e) => e@ == no_home_error(),
        },
{
    db_file("advisories.json")
}

/// The local snapshots cache, `snapshots.json`.
pub fn snapshots_path() -> (r: Result<String, String>)
    ensures
        match r {
            Ok(p) => exists|home: Seq<char>| p@ == join_path(db_dir(home), "snapshots.json"@),
            Err(e) => e@ == no_home_error(),
        },
{
    db_file("snapshots.json")
}

/// The local queue of pending submissions, `pending_snapshots.json`.
pub fn pending_queue_path() -> (r: Result<String, String>)
    ensures
        match r {
            Ok(p) => exists|home: Seq<char>| p@ == join_path(db_dir(home), "pending_snapshots.json"@),
            Err(e) => e@ == no_home_error(),
        },
{
    db_file("pending_snapshots.json")
}

/// The anonymous client token file, `token`.
pub fn token_path() -> (r: Result<String, String>)
    ensures
        match r {
            Ok(p) => exists|home: Seq<char>| p@ == join_path(db_dir(home), "token"@),
            Err(e) => e@ == no_home_error(),
        },
{
    db_file("token")
}

/// The client token stored in the token file: its trimmed content, unless
/// that is empty (a new token is then made).
pub fn stored_token(content: &str) -> (r: Option<String>)
    ensures
        trim(content@).len() > 0 ==> (r matches Some(t) && t@ == trim(content@)),
        trim(content@).len() == 0 ==> r is None,
{
    let chars = to_chars(content);
    let t = trimmed(chars.as_slice());
    if t.len() == 0 { None } else { Some(string_of(t.as_slice())) }
}

/// The advisories that are not resolved, in order.
pub open spec fn active(v: Seq<Advisory>) -> Seq<Advisory>
    decreases v.len(),
{
    if v.len() == 0 {
        Seq::empty()
    } else if v.last().status@ == "resolved"@ {
        active(v.drop_last())
    } else {
        active(v.drop_last()).push(v.last())
    }
}

/// The advisories still active: those whose status is not `resolved`.
pub fn active_advisories(all: &Vec<Advisory>) -> (r: Vec<Advisory>)
    ensures
        same_advisories(r@, active(all@)),
{
    let mut r: Vec<Advisory> = Vec::new();
    let mut i: usize = 0;
    while i < all.len()
        invariant
            i <= all@.len(),
            same_advisories(r@, active(all@.subrange(0, i as int))),
        decreases all@.len() - i,
    {
        let ghost pre = all@.subrange(0, i as int);
        assert(all@.subrange(0, i + 1).drop_last() =~= pre);
        assert(all@.subrange(0, i + 1).last() == all@[i as int]);
        if !str_eq(all[i].status.as_str(), "resolved") {
            let c = copy_advisory(&all[i]);
            r.push(c);
        }
        i += 1;
    }
    assert(all@.subrange(0, all@.len() as int) =~= all@);
    r
}

// ───────────────────────────── laws of merging ─────────────────────────────

/// Some new advisory is about package `p`.
pub open spec fn named_in(news: Seq<Advisory>, p: Seq<char>) -> bool {
    exists|i: int| 0 <= i < news.len() && #[trigger] news[i].package@ == p
}

/// Advisories of packages no new advisory is about.
pub open spec fn untouched(news: Seq<Advisory>) -> spec_fn(Advisory) -> bool {
    |a: Advisory| !named_in(news, a.package@)
}

/// Filtering by predicates that agree everywhere gives the same list.
proof fn lemma_filter_agree(s: Seq<Advisory>, f: spec_fn(Advisory) -> bool, g: spec_fn(Advisory) -> bool)
    requires
        forall|a: Advisory| #[trigger] f(a) == g(a),
    ensures
        s.filter(f) == s.filter(g),
    decreases s.len(),
{
    if s.len() > 0 {
        lemma_filter_agree(s.drop_last(), f, g);
        assert(s.drop_last().push(s.last()) =~= s);
        s.drop_last().lemma_filter_push(s.last(), f);
        s.drop_last().lemma_filter_push(s.last(), g);
    } else {
        reveal_with_fuel(Seq::<_>::filter, 1);
    }
}

/// Filtering twice by `f` then `g` keeps what both keep.
proof fn lemma_filter_twice(s: Seq<Advisory>, f: spec_fn(Advisory) -> bool, g: spec_fn(Advisory) -> bool, h: spec_fn(Advisory) -> bool)
    requires
        forall|a: Advisory| #[trigger] h(a) == (f(a) && g(a)),
    ensures
        s.filter(f).filter(g) == s.filter(h),
    decreases s.len(),
{
    if s.len() > 0 {
        let d = s.drop_last();
        let x = s.last();
        lemma_filter_twice(d, f, g, h);
        assert(d.push(x) =~= s);
        d.lemma_filter_push(x, f);
        d.lemma_filter_push(x, h);
        d.filter(f).lemma_filter_push(x, g);
    } else {
        reveal_with_fuel(Seq::<_>::filter, 1);
    }
}

/// Every advisory merged into an empty list is about a package some new
/// advisory is about.
proof fn lemma_merged_named(news: Seq<Advisory>)
    ensures
        forall|k: int| 0 <= k < merged_advisories(Seq::empty(), news).len()
            ==> named_in(news, #[trigger] merged_advisories(Seq::empty(), news)[k].package@),
    decreases news.len(),
{
    if news.len() > 0 {
        let n0 = news.drop_last();
        let x = news.last();
        lemma_merged_named(n0);
        let m0 = merged_advisories(Seq::empty(), n0);
        let fm = m0.filter(not_package(x.package@));
        assert forall|k: int| 0 <= k < fm.len() implies named_in(news, #[trigger] fm[k].package@) by {
            m0.lemma_filter_contains_rev(not_package(x.package@), fm[k]);
            let j = choose|j: int| 0 <= j < m0.len() && m0[j] == fm[k];
            assert(named_in(n0, m0[j].package@));
            let i = choose|i: int| 0 <= i < n0.len() && #[trigger] n0[i].package@ == m0[j].package@;
            assert(news[i] == n0[i]);
        }
        let m = fm.push(x);
        assert(merged_advisories(Seq::empty(), news) == m);
        assert forall|k: int| 0 <= k < m.len() implies named_in(news, #[trigger] m[k].package@) by {
            if k < fm.len() {
                assert(m[k] == fm[k]);
            } else {
                assert(news[news.len() - 1] == x);
            }
        }
    }
}

/// Merging splits into the untouched existing advisories and the merged new
/// ones.
proof fn lemma_merged_split(s: Seq<Advisory>, news: Seq<Advisory>)
    ensures
        merged_advisories(s, news) == s.filter(untouched(news)) + merged_advisories(Seq::empty(), news),
    decreases news.len(),
{
    if news.len() == 0 {
        lemma_filter_agree(s, untouched(news), |a: Advisory| true);
        assert(s.filter(|a: Advisory| true) == s) by {
            lemma_filter_all(s);
        }
        assert(s + Seq::<Advisory>::empty() =~= s);
    } else {
        let n0 = news.drop_last();
        let x = news.last();
        let np = not_package(x.package@);
        lemma_merged_split(s, n0);
        let m0 = merged_advisories(Seq::empty(), n0);
        Seq::filter_distributes_over_add(s.filter(untouched(n0)), m0, np);
        assert forall|a: Advisory| #[trigger] untouched(news)(a) == (untouched(n0)(a) && np(a)) by {
            if named_in(news, a.package@) {
                let i = choose|i: int| 0 <= i < news.len() && #[trigger] news[i].package@ == a.package@;
                if i < n0.len() {
                    assert(n0[i] == news[i]);
                }
            }
            if named_in(n0, a.package@) {
                let i = choose|i: int| 0 <= i < n0.len() && #[trigger] n0[i].package@ == a.package@;
                assert(news[i] == n0[i]);
            }
            if a.package@ == x.package@ {
                assert(news[news.len() - 1].package@ == a.package@);
            }
        }
        lemma_filter_twice(s, untouched(n0), np, untouched(news));
        assert((s.filter(untouched(n0)).filter(np) + m0.filter(np)).push(x)
            =~= s.filter(untouched(news)) + m0.filter(np).push(x));
    }
}

/// Keeping everything keeps the list.
proof fn lemma_filter_all(s: Seq<Advisory>)
    ensures
        s.filter(|a: Advisory| true) == s,
    decreases s.len(),
{
    if s.len() > 0 {
        lemma_filter_all(s.drop_last());
        assert(s.drop_last().push(s.last()) =~= s);
        s.drop_last().lemma_filter_push(s.last(), |a: Advisory| true);
    } else {
        reveal_with_fuel(Seq::<_>::filter, 1);
    }
}

/// Merging the same new advisories a second time changes nothing: a delta
/// sync applied twice leaves the cache as one application does.
pub proof fn law_merge_advisories_idempotent(existing: Seq<Advisory>, news: Seq<Advisory>)
    ensures
        merged_advisories(merged_advisories(existing, news), news) == merged_advisories(existing, news),
{
    let u = untouched(news);
    let m = merged_advisories(Seq::empty(), news);
    let once = merged_advisories(existing, news);
    lemma_merged_split(existing, news);
    lemma_merged_split(once, news);
    Seq::filter_distributes_over_add(existing.filter(u), m, u);
    lemma_filter_twice(existing, u, u, u);
    lemma_merged_named(news);
    assert(m.filter(u) =~= Seq::<Advisory>::empty()) by {
        broadcast use vstd::seq_lib::group_filter_ensures;
        if m.filter(u).len() > 0 {
            let a = m.filter(u)[0];
            m.lemma_filter_contains_rev(u, a);
            let j = choose|j: int| 0 <= j < m.len() && m[j] == a;
            assert(named_in(news, m[j].package@));
        }
    }
    assert(existing.filter(u) + Seq::<Advisory>::empty() + m =~= existing.filter(u) + m);
}

/// Some new snapshot has the key of `s`.
pub open spec fn key_named_in(news: Seq<SnapshotEntry>, s: SnapshotEntry) -> bool {
    exists|i: int| 0 <= i < news.len() && same_key(s, #[trigger] news[i])
}

/// Snapshots whose key no new snapshot has.
pub open spec fn untouched_snapshots(news: Seq<SnapshotEntry>) -> spec_fn(SnapshotEntry) -> bool {
    |s: SnapshotEntry| !key_named_in(news, s)
}

/// Filtering by predicates that agree everywhere gives the same list.
proof fn lemma_snapshot_filter_agree(s: Seq<SnapshotEntry>, f: spec_fn(SnapshotEntry) -> bool, g: spec_fn(SnapshotEntry) -> bool)
    requires
        forall|a: SnapshotEntry| #[trigger] f(a) == g(a),
    ensures
        s.filter(f) == s.filter(g),
    decreases s.len(),
{
    if s.len() > 0 {
        lemma_snapshot_filter_agree(s.drop_last(), f, g);
        assert(s.drop_last().push(s.last()) =~= s);
        s.drop_last().lemma_filter_push(s.last(), f);
        s.drop_last().lemma_filter_push(s.last(), g);
    } else {
        reveal_with_fuel(Seq::<_>::filter, 1);
    }
}

/// Filtering twice by `f` then `g` keeps what both keep.
proof fn lemma_snapshot_filter_twice(
    s: Seq<SnapshotEntry>,
    f: spec_fn(SnapshotEntry) -> bool,
    g: spec_fn(SnapshotEntry) -> bool,
    h: spec_fn(SnapshotEntry) -> bool,
)
    requires
        forall|a: SnapshotEntry| #[trigger] h(a) == (f(a) && g(a)),
    ensures
        s.filter(f).filter(g) == s.filter(h),
    decreases s.len(),
{
    if s.len() > 0 {
        let d = s.drop_last();
        let x = s.last();
        lemma_snapshot_filter_twice(d, f, g, h);
        assert(d.push(x) =~= s);
        d.lemma_filter_push(x, f);
        d.lemma_filter_push(x, h);
        d.filter(f).lemma_filter_push(x, g);
    } else {
        reveal_with_fuel(Seq::<_>::filter, 1);
    }
}

/// Every snapshot merged into an empty list has the key of a new snapshot.
proof fn lemma_merged_snapshots_named(news: Seq<SnapshotEntry>)
    ensures
        forall|k: int| 0 <= k < merged_snapshots(Seq::empty(), news).len()
            ==> key_named_in(news, #[trigger] merged_snapshots(Seq::empty(), news)[k]),
    decreases news.len(),
{
    if news.len() > 0 {
        let n0 = news.drop_last();
        let x = news.last();
        lemma_merged_snapshots_named(n0);
        let m0 = merged_snapshots(Seq::empty(), n0);
        let p = |s: SnapshotEntry| !same_key(s, x);
        let fm = m0.filter(p);
        assert forall|k: int| 0 <= k < fm.len() implies key_named_in(news, #[trigger] fm[k]) by {
            m0.lemma_filter_contains_rev(p, fm[k]);
            let j = choose|j: int| 0 <= j < m0.len() && m0[j] == fm[k];
            assert(key_named_in(n0, m0[j]));
            let i = choose|i: int| 0 <= i < n0.len() && same_key(m0[j], #[trigger] n0[i]);
            assert(news[i] == n0[i]);
        }
        let m = fm.push(x);
        assert(merged_snapshots(Seq::empty(), news) == m);
        assert forall|k: int| 0 <= k < m.len() implies key_named_in(news, #[trigger] m[k]) by {
            if k < fm.len() {
                assert(m[k] == fm[k]);
            } else {
                assert(news[news.len() - 1] == x);
                assert(same_key(m[k], news[news.len() - 1]));
            }
        }
    }
}

/// Keeping everything keeps the list.
proof fn lemma_snapshot_filter_all(s: Seq<SnapshotEntry>)
    ensures
        s.filter(|a: SnapshotEntry| true) == s,
    decreases s.len(),
{
    if s.len() > 0 {
        lemma_snapshot_filter_all(s.drop_last());
        assert(s.drop_last().push(s.last()) =~= s);
        s.drop_last().lemma_filter_push(s.last(), |a: SnapshotEntry| true);
    } else {
        reveal_with_fuel(Seq::<_>::filter, 1);
    }
}

/// Merging splits into the untouched existing snapshots and the merged new
/// ones.
proof fn lemma_merged_snapshots_split(s: Seq<SnapshotEntry>, news: Seq<SnapshotEntry>)
    ensures
        merged_snapshots(s, news) == s.filter(untouched_snapshots(news)) + merged_snapshots(Seq::empty(), news),
    decreases news.len(),
{
    if news.len() == 0 {
        lemma_snapshot_filter_agree(s, untouched_snapshots(news), |a: SnapshotEntry| true);
        lemma_snapshot_filter_all(s);
        assert(s + Seq::<SnapshotEntry>::empty() =~= s);
    } else {
        let n0 = news.drop_last();
        let x = news.last();
        let np = |t: SnapshotEntry| !same_key(t, x);
        lemma_merged_snapshots_split(s, n0);
        let m0 = merged_snapshots(Seq::empty(), n0);
        Seq::filter_distributes_over_add(s.filter(untouched_snapshots(n0)), m0, np);
        assert forall|a: SnapshotEntry| #[trigger] untouched_snapshots(news)(a) == (untouched_snapshots(n0)(a) && np(a)) by {
            if key_named_in(news, a) {
                let i = choose|i: int| 0 <= i < news.len() && same_key(a, #[trigger] news[i]);
                if i < n0.len() {
                    assert(n0[i] == news[i]);
                }
            }
            if key_named_in(n0, a) {
                let i = choose|i: int| 0 <= i < n0.len() && same_key(a, #[trigger] n0[i]);
                assert(news[i] == n0[i]);
            }
            if same_key(a, x) {
                assert(news[news.len() - 1] == x);
                assert(same_key(a, news[news.len() - 1]));
            }
        }
        lemma_snapshot_filter_twice(s, untouched_snapshots(n0), np, untouched_snapshots(news));
        assert((s.filter(untouched_snapshots(n0)).filter(np) + m0.filter(np)).push(x)
            =~= s.filter(untouched_snapshots(news)) + m0.filter(np).push(x));
    }
}

/// Merging the same new snapshots a second time changes nothing.
pub proof fn law_merge_snapshots_idempotent(existing: Seq<SnapshotEntry>, news: Seq<SnapshotEntry>)
    ensures
        merged_snapshots(merged_snapshots(existing, news), news) == merged_snapshots(existing, news),
{
    let u = untouched_snapshots(news);
    let m = merged_snapshots(Seq::empty(), news);
    let once = merged_snapshots(existing, news);
    lemma_merged_snapshots_split(existing, news);
    lemma_merged_snapshots_split(once, news);
    Seq::filter_distributes_over_add(existing.filter(u), m, u);
    lemma_snapshot_filter_twice(existing, u, u, u);
    lemma_merged_snapshots_named(news);
    assert(m.filter(u) =~= Seq::<SnapshotEntry>::empty()) by {
        broadcast use vstd::seq_lib::group_filter_ensures;
        if m.filter(u).len() > 0 {
            let a = m.filter(u)[0];
            m.lemma_filter_contains_rev(u, a);
            let j = choose|j: int| 0 <= j < m.len() && m[j] == a;
            assert(key_named_in(news, m[j]));
        }
    }
    assert(existing.filter(u) + Seq::<SnapshotEntry>::empty() + m =~= existing.filter(u) + m);
}


// ───────────────────────────── advisories on screen ─────────────────────────────

/// The line of one active advisory: its severity, styled, then the package,
/// the severity again and the summary.
pub open spec fn advisory_notice(a: Advisory) -> Seq<(Style, Seq<char>)> {
    seq![
        (Style::Plain, "    "@),
        (severity_style(a.severity@), a.severity@),
        (Style::Plain, " "@ + a.package@ + " ("@ + a.severity@ + ") — "@ + a.summary@),
    ]
}

/// The active advisories on screen: a count, one line each and an empty
/// line; nothing when there are none.
pub open spec fn advisory_notices_view(v: Seq<Advisory>) -> Seq<Seq<(Style, Seq<char>)>> {
    if v.len() == 0 {
        Seq::empty()
    } else {
        seq![seq![(Style::Plain, "\n  "@ + decimal(v.len()) + " active advisories in trust DB:"@)]]
            + Seq::new(v.len(), |i: int| advisory_notice(v[i]))
            + seq![Seq::empty()]
    }
}

/// The lines that list active advisories for the terminal, each a list of
/// styled pieces; the caller colors the pieces and prints each line.
pub fn advisory_notice_lines(active: &Vec<Advisory>) -> (r: Vec<Vec<Segment>>)
    ensures
        lines_view(r@) == advisory_notices_view(active@),
{
    let mut out: Vec<Vec<Segment>> = Vec::new();
    assert(lines_view(out@) =~= Seq::empty());
    if active.len() == 0 {
        return out;
    }
    let mut head = owned("\n  ");
    push_decimal_u64(&mut head, active.len() as u64);
    push_str(&mut head, " active advisories in trust DB:");
    push_line(&mut out, single_line(styled_string(Style::Plain, head)));
    let ghost first = lines_view(out@);
    let mut i: usize = 0;
    while i < active.len()
        invariant
            i <= active@.len(),
            lines_view(out@) == first + Seq::new(i as nat, |k: int| advisory_notice(active@[k])),
        decreases active@.len() - i,
    {
        let a = &active[i];
        let mut l = single_line(styled(Style::Plain, "    "));
        push_segment(&mut l, styled(severity_color(a.severity.as_str()), a.severity.as_str()));
        let mut rest = owned(" ");
        push_str(&mut rest, a.package.as_str());
        push_str(&mut rest, " (");
        push_str(&mut rest, a.severity.as_str());
        push_str(&mut rest, ") — ");
        push_str(&mut rest, a.summary.as_str());
        push_segment(&mut l, styled_string(Style::Plain, rest));
        assert(line_view(l@) =~= advisory_notice(active@[i as int]));
        push_line(&mut out, l);
        i += 1;
        assert(lines_view(out@) =~= first + Seq::new(i as nat, |k: int| advisory_notice(active@[k])));
    }
    push_line(&mut out, empty_line());
    assert(lines_view(out@) =~= advisory_notices_view(active@));
    out
}

// ───────────────────────────── packages known from advisories ─────────────────────────────

/// The record of a package known only from an advisory: named as the
/// advisory's package, of version `unknown`, described by the advisory's
/// summary, of unknown source, with the reporter as its maintainer and no
/// other metadata.
pub open spec fn advisory_record(p: PackageInfo, a: Advisory) -> bool {
    &&& p.name@ == a.package@
    &&& p.version@ == "unknown"@
    &&& p.description@ == a.summary@
    &&& p.source is Unknown
    &&& opt_string(p.maintainer) == Some(a.reported_by@)
    &&& p.votes is None
    &&& p.popularity_bits is None
    &&& p.first_submitted is None
    &&& p.last_modified is None
    &&& !p.out_of_date
    &&& !p.orphan
    &&& p.url is None
    &&& p.licenses@.len() == 0
    &&& p.depends@.len() == 0
    &&& p.install_size is None
}

/// The package record analyzed for a package that no repository lists but
/// the trust database has an advisory for.
pub fn advisory_package(a: &Advisory) -> (p: PackageInfo)
    ensures
        advisory_record(p, *a),
{
    PackageInfo {
        name: a.package.clone(),
        version: owned("unknown"),
        description: a.summary.clone(),
        source: PackageSource::Unknown,
        maintainer: Some(a.reported_by.clone()),
        votes: None,
        popularity_bits: None,
        first_submitted: None,
        last_modified: None,
        out_of_date: false,
        orphan: false,
        url: None,
        licenses: Vec::new(),
        depends: Vec::new(),
        install_size: None,
    }
}
} // verus!
