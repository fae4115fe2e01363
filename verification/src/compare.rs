//! The pre-flight check: before an install, compare the incoming version and
//! PKGBUILD hash with the community trust database and reach a verdict.

use vstd::prelude::*;
use crate::backends::PackageSource;
use crate::display::{
    field_line, field_start, line_view, lines_view, push_line, push_segment, styled, styled_string,
    Segment, Style,
};
use crate::sanitize::{hex_digest, sha256_hash, sha256_hex};
use crate::text::{
    decimal, insert_sorted, int_decimal, join, join_strings, owned, push_decimal, push_decimal_u64, push_str,
    str_eq, string_texts, strictly_sorted,
};
use crate::trust_db::{
    advisory_penalty, copy_advisory, list_names_version, listed_versions, same_advisory,
    status_penalty, Advisory, SnapshotEntry,
};

verus! {

/// Overall safety verdict from the pre-flight check.
#[derive(Debug, Clone, Copy, PartialEq, Eq, Structural)]
pub enum Verdict {
    /// Hash matches consensus, no advisory, latest version.
    Clean,
    /// The version is affected by an advisory.
    AdvisoryHit,
    /// Hash diverges from consensus — possible tampering.
    Divergent,
    /// Version is outdated compared to what's known.
    Outdated,
    /// No data yet for this package and version.
    Unknown,
    /// Multiple concerns.
    Mixed,
}

impl Verdict {
    /// The display name of the verdict.
    pub fn label(&self) -> (r: &'static str)
        ensures
            r@ == verdict_label(*self),
    {
        match self {
            Verdict::Clean => "Clean",
            Verdict::AdvisoryHit => "Advisory",
            Verdict::Divergent => "Divergent",
            Verdict::Outdated => "Outdated",
            Verdict::Unknown => "Unknown",
            Verdict::Mixed => "Mixed",
        }
    }
}

/// The display name of a verdict.
pub open spec fn verdict_label(v: Verdict) -> Seq<char> {
    match v {
        Verdict::Clean => "Clean"@,
        Verdict::AdvisoryHit => "Advisory"@,
        Verdict::Divergent => "Divergent"@,
        Verdict::Outdated => "Outdated"@,
        Verdict::Unknown => "Unknown"@,
        Verdict::Mixed => "Mixed"@,
    }
}

/// Full pre-flight check result for a package.
#[derive(Debug)]
pub struct PreFlightReport {
    pub package: String,
    pub incoming_version: String,
    pub incoming_hash: String,
    pub latest_known_version: Option<String>,
    pub known_versions: Vec<String>,
    pub is_latest: bool,
    pub is_outdated: bool,
    pub is_unknown_version: bool,
    pub hash_known: bool,
    pub hash_submissions: usize,
    pub majority_hash: Option<String>,
    pub matches_consensus: bool,
    pub majority_submissions: usize,
    pub total_submissions: usize,
    pub advisory: Option<Advisory>,
    pub version_affected: bool,
    pub version_safe: bool,
    pub verdict: Verdict,
    pub score_adjustment: i32,
    pub explanation: String,
    pub should_submit: bool,
}

// ───────────────────────────── the verdict ─────────────────────────────

/// The facts the verdict is computed from.
pub struct VerdictInputs {
    pub matches_consensus: bool,
    pub majority_submissions: usize,
    pub total_submissions: usize,
    pub hash_known: bool,
    pub hash_submissions: usize,
    pub is_outdated: bool,
    pub is_unknown_version: bool,
    pub version_affected: bool,
    pub version_safe: bool,
}

/// Newer versions count against AUR and third-party packages only: official
/// packages follow upstream versioning.
pub open spec fn outdated_concern(f: VerdictInputs, source: PackageSource) -> bool {
    f.is_outdated && !(source is Official)
}

/// The score adjustment of a pre-flight check.
pub open spec fn verdict_adjustment(f: VerdictInputs, advisory: Option<Advisory>, source: PackageSource) -> int {
    let adv: int = if f.version_affected {
        match advisory {
            Some(a) => status_penalty(a.status@),
            None => 0,
        }
    } else if f.version_safe {
        10
    } else {
        0
    };
    let cons: int = if f.total_submissions > 0 {
        if f.matches_consensus {
            if f.total_submissions >= 5 { 5 } else { 2 }
        } else {
            -15
        }
    } else {
        0
    };
    let out: int = if outdated_concern(f, source) { -5 } else { 0 };
    adv + cons + out
}

/// The concerns of a pre-flight check, in order.
pub open spec fn verdict_concerns(
    f: VerdictInputs,
    advisory: Option<Advisory>,
    package: Seq<char>,
    source: PackageSource,
) -> Seq<Seq<char>> {
    let c1: Seq<Seq<char>> = if f.version_affected {
        match advisory {
            Some(a) => seq![
                "Version "@ + package + " is affected by "@ + a.severity@ + " advisory ("@
                    + a.summary@ + ")"@,
            ],
            None => Seq::empty(),
        }
    } else {
        Seq::empty()
    };
    let c2: Seq<Seq<char>> = if f.total_submissions > 0 && !f.matches_consensus {
        if f.hash_known {
            seq![
                "Your hash has "@ + decimal(f.hash_submissions as nat) + " submissions, majority has "@
                    + decimal(f.majority_submissions as nat),
            ]
        } else {
            seq!["Your PKGBUILD hash is not in any known snapshots"@]
        }
    } else {
        Seq::empty()
    };
    let c3: Seq<Seq<char>> = if outdated_concern(f, source) {
        seq!["Newer version is known in the trust DB"@]
    } else {
        Seq::empty()
    };
    c1 + c2 + c3
}

/// How many concerns a pre-flight check has: the version is affected by an
/// advisory, the hash diverges from the community's, the version is outdated
/// (for a package that is not official).
pub open spec fn concern_count(f: VerdictInputs, source: PackageSource) -> int {
    (if f.version_affected { 1int } else { 0int })
        + (if f.total_submissions > 0 && !f.matches_consensus { 1int } else { 0int })
        + (if outdated_concern(f, source) { 1int } else { 0int })
}

/// Which verdict a check reaches. Mixed when it has two or more concerns; otherwise, by
/// priority, an advisory hit, a divergent hash, an outdated version, no data
/// at all, or clean.
pub open spec fn verdict_of(f: VerdictInputs, source: PackageSource) -> Verdict {
    if concern_count(f, source) >= 2 {
        Verdict::Mixed
    } else if f.version_affected {
        Verdict::AdvisoryHit
    } else if f.total_submissions > 0 && !f.matches_consensus {
        Verdict::Divergent
    } else if outdated_concern(f, source) {
        Verdict::Outdated
    } else if f.is_unknown_version && f.total_submissions == 0 {
        Verdict::Unknown
    } else {
        Verdict::Clean
    }
}

/// The explanation of a pre-flight check.
pub open spec fn verdict_explanation(
    f: VerdictInputs,
    advisory: Option<Advisory>,
    package: Seq<char>,
    version: Seq<char>,
    source: PackageSource,
) -> Seq<char> {
    let concerns = verdict_concerns(f, advisory, package, source);
    if concerns.len() == 0 {
        if f.total_submissions == 0 {
            "No community data yet for "@ + package + " "@ + version + " — first submission"@
        } else if f.matches_consensus {
            "Matches community consensus ("@ + decimal(f.hash_submissions as nat)
                + " submissions for this hash)"@
        } else {
            "Version "@ + version + " — no concerns detected"@
        }
    } else {
        join(concerns, "; "@)
    }
}

/// Compute the final verdict, score adjustment, and explanation.
pub fn compute_verdict(
    f: &VerdictInputs,
    advisory: &Option<Advisory>,
    package: &str,
    version: &str,
    source: &PackageSource,
) -> (r: (Verdict, i32, String))
    ensures
        r.0 == verdict_of(*f, *source),
        r.1 == verdict_adjustment(*f, *advisory, *source),
        r.2@ == verdict_explanation(*f, *advisory, package@, version@, *source),
{
    let mut concerns: Vec<String> = Vec::new();
    let mut total_adj: i32 = 0;
    let official = match source {
        PackageSource::Official { .. } => true,
        _ => false,
    };
    // Advisory check
    if f.version_affected {
        match advisory {
            Some(adv) => {
                total_adj = advisory_penalty(adv);
                let mut c = owned("Version ");
                push_str(&mut c, package);
                push_str(&mut c, " is affected by ");
                push_str(&mut c, adv.severity.as_str());
                push_str(&mut c, " advisory (");
                push_str(&mut c, adv.summary.as_str());
                push_str(&mut c, ")");
                concerns.push(c);
            },
            None => {},
        }
    } else if f.version_safe {
        total_adj = 10;
    }
    let ghost c1 = string_texts(concerns@);
    // Consensus check
    if f.total_submissions > 0 {
        if f.matches_consensus {
            total_adj = total_adj + if f.total_submissions >= 5 { 5 } else { 2 };
        } else {
            total_adj = total_adj - 15;
            if f.hash_known {
                let mut c = owned("Your hash has ");
                push_decimal_u64(&mut c, f.hash_submissions as u64);
                push_str(&mut c, " submissions, majority has ");
                push_decimal_u64(&mut c, f.majority_submissions as u64);
                concerns.push(c);
            } else {
                concerns.push(owned("Your PKGBUILD hash is not in any known snapshots"));
            }
        }
    }
    let ghost c2 = string_texts(concerns@);
    // Version outdated check
    if f.is_outdated && !official {
        total_adj = total_adj - 5;
        concerns.push(owned("Newer version is known in the trust DB"));
    }
    assert(string_texts(concerns@) =~= verdict_concerns(*f, *advisory, package@, *source));
    let concerns_found: u8 = (if f.version_affected { 1u8 } else { 0 })
        + (if f.total_submissions > 0 && !f.matches_consensus { 1u8 } else { 0 })
        + (if f.is_outdated && !official { 1u8 } else { 0 });
    let verdict = if concerns_found >= 2 {
        Verdict::Mixed
    } else if f.version_affected {
        Verdict::AdvisoryHit
    } else if f.total_submissions > 0 && !f.matches_consensus {
        Verdict::Divergent
    } else if f.is_outdated && !official {
        Verdict::Outdated
    } else if f.is_unknown_version && f.total_submissions == 0 {
        Verdict::Unknown
    } else {
        Verdict::Clean
    };
    let explanation = if concerns.len() == 0 {
        if f.total_submissions == 0 {
            let mut e = owned("No community data yet for ");
            push_str(&mut e, package);
            push_str(&mut e, " ");
            push_str(&mut e, version);
            push_str(&mut e, " — first submission");
            e
        } else if f.matches_consensus {
            let mut e = owned("Matches community consensus (");
            push_decimal_u64(&mut e, f.hash_submissions as u64);
            push_str(&mut e, " submissions for this hash)");
            e
        } else {
            let mut e = owned("Version ");
            push_str(&mut e, version);
            push_str(&mut e, " — no concerns detected");
            e
        }
    } else {
        join_strings(&concerns, "; ")
    };
    (verdict, total_adj, explanation)
}

// ───────────────────────────── snapshot statistics ─────────────────────────────

/// The snapshots recorded for `version`, in order.
pub open spec fn version_snapshots(snaps: Seq<SnapshotEntry>, version: Seq<char>) -> Seq<SnapshotEntry>
    decreases snaps.len(),
{
    if snaps.len() == 0 {
        Seq::empty()
    } else {
        let rest = version_snapshots(snaps.drop_last(), version);
        if snaps.last().version@ == version { rest.push(snaps.last()) } else { rest }
    }
}

/// A submission count as the report adds it up: converted to `usize` with
/// `as`, so that a negative count wraps around.
pub open spec fn counted(c: i64) -> int {
    (c as usize) as int
}

/// Total submissions over a list of snapshots.
pub open spec fn submissions(snaps: Seq<SnapshotEntry>) -> int
    decreases snaps.len(),
{
    if snaps.len() == 0 { 0 } else { submissions(snaps.drop_last()) + counted(snaps.last().submitted_count) }
}

/// Submissions of the snapshots carrying hash `h`.
pub open spec fn hash_submissions_of(snaps: Seq<SnapshotEntry>, h: Seq<char>) -> int
    decreases snaps.len(),
{
    if snaps.len() == 0 {
        0
    } else {
        hash_submissions_of(snaps.drop_last(), h)
            + if snaps.last().sha256@ == h { counted(snaps.last().submitted_count) } else { 0int }
    }
}

/// The snapshot with the most submissions; on a tie the later one.
pub open spec fn majority(snaps: Seq<SnapshotEntry>) -> Option<SnapshotEntry>
    decreases snaps.len(),
{
    if snaps.len() == 0 {
        None
    } else {
        match majority(snaps.drop_last()) {
            Some(m) => if m.submitted_count > snaps.last().submitted_count { Some(m) } else { Some(snaps.last()) },
            None => Some(snaps.last()),
        }
    }
}

/// Some snapshot carries hash `h`.
pub open spec fn hash_present(snaps: Seq<SnapshotEntry>, h: Seq<char>) -> bool {
    exists|i: int| 0 <= i < snaps.len() && snaps[i].sha256@ == h
}


/// `kv` lists the versions of `snaps`, each once, in order.
pub open spec fn versions_listed(kv: Seq<Seq<char>>, snaps: Seq<SnapshotEntry>) -> bool {
    &&& strictly_sorted(kv)
    &&& forall|t: Seq<char>| kv.contains(t) <==> exists|i: int| 0 <= i < snaps.len() && snaps[i].version@ == t
}

proof fn lemma_submissions_bounds(snaps: Seq<SnapshotEntry>, h: Seq<char>)
    ensures
        0 <= hash_submissions_of(snaps, h) <= submissions(snaps),
        majority(snaps) matches Some(m) ==> 0 <= counted(m.submitted_count) <= submissions(snaps),
    decreases snaps.len(),
{
    if snaps.len() > 0 {
        lemma_submissions_bounds(snaps.drop_last(), h);
    }
}

/// The distinct versions of `snaps`, sorted.
fn known_versions_of(snaps: &Vec<SnapshotEntry>) -> (kv: Vec<String>)
    ensures
        versions_listed(string_texts(kv@), snaps@),
{
    let mut kv: Vec<String> = Vec::new();
    let mut i: usize = 0;
    while i < snaps.len()
        invariant
            i <= snaps@.len(),
            strictly_sorted(string_texts(kv@)),
            forall|t: Seq<char>| string_texts(kv@).contains(t)
                <==> exists|k: int| 0 <= k < i && snaps@[k].version@ == t,
        decreases snaps@.len() - i,
    {
        insert_sorted(&mut kv, &snaps[i].version);
        proof {
            assert forall|t: Seq<char>| (exists|k: int| 0 <= k < i + 1 && snaps@[k].version@ == t)
                implies string_texts(kv@).contains(t) by {
                let k = choose|k: int| 0 <= k < i + 1 && snaps@[k].version@ == t;
                if k < i {
                }
            }
        }
        i += 1;
    }
    kv
}

/// `r` is the pre-flight report for `package` at `version` with PKGBUILD
/// hash `hash`, given the package's snapshots and advisory.
pub open spec fn report_of(
    r: PreFlightReport,
    package: Seq<char>,
    version: Seq<char>,
    hash: Seq<char>,
    snaps: Seq<SnapshotEntry>,
    advisory: Option<Advisory>,
    source: PackageSource,
) -> bool {
    let kv = string_texts(r.known_versions@);
    let vs = version_snapshots(snaps, version);
    let maj = majority(vs);
    let maj_hash: Seq<char> = match maj { Some(m) => m.sha256@, None => Seq::empty() };
    let inputs = VerdictInputs {
        matches_consensus: r.matches_consensus,
        majority_submissions: r.majority_submissions,
        total_submissions: r.total_submissions,
        hash_known: r.hash_known,
        hash_submissions: r.hash_submissions,
        is_outdated: r.is_outdated,
        is_unknown_version: r.is_unknown_version,
        version_affected: r.version_affected,
        version_safe: r.version_safe,
    };
    &&& r.package@ == package
    &&& r.incoming_version@ == version
    &&& r.incoming_hash@ == hash
    &&& versions_listed(kv, snaps)
    &&& r.latest_known_version == if kv.len() > 0 { Some(r.known_versions@.last()) } else { None::<String> }
    &&& r.is_latest == (kv.len() > 0 && kv.last() == version)
    &&& r.is_outdated == (kv.len() > 0 && kv.last() != version)
    &&& r.is_unknown_version == !kv.contains(version)
    &&& r.total_submissions == submissions(vs)
    &&& r.majority_submissions == match maj { Some(m) => counted(m.submitted_count), None => 0int }
    &&& (r.majority_hash is None <==> maj_hash.len() == 0)
    &&& (r.majority_hash matches Some(m) ==> m@ == maj_hash)
    &&& r.matches_consensus == (maj_hash == hash)
    &&& r.hash_known == hash_present(vs, hash)
    &&& r.hash_submissions == hash_submissions_of(vs, hash)
    &&& (match (r.advisory, advisory) {
            (Some(x), Some(y)) => same_advisory(x, y),
            (None, None) => true,
            _ => false,
        })
    &&& r.version_affected == (advisory matches Some(a) && listed_versions(a.affected_versions).contains(version))
    &&& r.version_safe == (advisory matches Some(a) && listed_versions(a.safe_versions).contains(version))
    &&& r.verdict == verdict_of(inputs, source)
    &&& r.score_adjustment == verdict_adjustment(inputs, advisory, source)
    &&& r.explanation@ == verdict_explanation(inputs, advisory, package, version, source)
    &&& r.should_submit == (vs.len() == 0 && !r.matches_consensus
            && !(r.hash_known && r.hash_submissions >= 10))
}

/// Run a full pre-flight check for a package, given the snapshots and the
/// advisory the local trust database holds for it.
pub fn preflight_check(
    package: &str,
    version: &str,
    pkgbuild_content: &str,
    source: &PackageSource,
    snapshots: &Vec<SnapshotEntry>,
    advisory: Option<Advisory>,
) -> (r: PreFlightReport)
    requires
        submissions(version_snapshots(snapshots@, version@)) <= usize::MAX,
    ensures
        report_of(r, package@, version@, sha256_hex(pkgbuild_content@), snapshots@, advisory, *source),
        hex_digest(r.incoming_hash@),
{
    let hash = sha256_hash(pkgbuild_content);
    preflight_report(package, version, hash, source, snapshots, advisory)
}

/// The pre-flight report for `package` at `version` whose PKGBUILD has hash
/// `hash`, given the package's snapshots and advisory.
pub fn preflight_report(
    package: &str,
    version: &str,
    hash: String,
    source: &PackageSource,
    snapshots: &Vec<SnapshotEntry>,
    advisory: Option<Advisory>,
) -> (r: PreFlightReport)
    requires
        submissions(version_snapshots(snapshots@, version@)) <= usize::MAX,
    ensures
        report_of(r, package@, version@, hash@, snapshots@, advisory, *source),
{
    let ghost snaps = snapshots@;
    // Version intelligence
    let known_versions = known_versions_of(snapshots);
    let ghost kv = string_texts(known_versions@);
    let n: usize = known_versions.len();
    let latest_known_version: Option<String> = if n > 0 { Some(known_versions[n - 1].clone()) } else { None };
    let is_latest = n > 0 && str_eq(known_versions[n - 1].as_str(), version);
    let is_outdated = n > 0 && !str_eq(known_versions[n - 1].as_str(), version);
    let mut listed = false;
    let mut k: usize = 0;
    while k < n
        invariant
            n == known_versions@.len(),
            kv == string_texts(known_versions@),
            k <= n,
            listed == exists|j: int| 0 <= j < k && kv[j] == version@,
        decreases n - k,
    {
        if str_eq(known_versions[k].as_str(), version) {
            assert(kv[k as int] == version@);
            listed = true;
        }
        k += 1;
    }
    assert(listed == kv.contains(version@));
    let is_unknown_version = !listed;

    // Hash intelligence over this version's snapshots
    proof {
        lemma_submissions_bounds(version_snapshots(snaps, version@), hash@);
    }
    let mut total: usize = 0;
    let mut hash_subs: usize = 0;
    let mut hash_known = false;
    let mut maj: Option<usize> = None;
    let mut count_for_version: usize = 0;
    let ghost mut vs: Seq<SnapshotEntry> = Seq::empty();
    let mut i: usize = 0;
    while i < snapshots.len()
        invariant
            snaps == snapshots@,
            i <= snaps.len(),
            vs == version_snapshots(snaps.subrange(0, i as int), version@),
            count_for_version == vs.len(),
            count_for_version <= i,
            total == submissions(vs),
            hash_subs == hash_submissions_of(vs, hash@),
            hash_known == hash_present(vs, hash@),
            match maj {
                Some(j) => j < i && majority(vs) == Some(snaps[j as int]),
                None => majority(vs) is None,
            },
            submissions(vs) <= submissions(version_snapshots(snaps, version@)),
            submissions(version_snapshots(snaps, version@)) <= usize::MAX,
        decreases snaps.len() - i,
    {
        let s = &snapshots[i];
        let ghost pre = snaps.subrange(0, i as int);
        assert(snaps.subrange(0, i + 1).drop_last() =~= pre);
        if str_eq(s.version.as_str(), version) {
            proof {
                let vs2 = vs.push(snaps[i as int]);
                assert(vs2.drop_last() =~= vs);
                assert(version_snapshots(snaps.subrange(0, i + 1), version@) == vs2);
                lemma_prefix_submissions(snaps, version@, (i + 1) as int);
                assert(submissions(vs2) == total + counted(snaps[i as int].submitted_count));
                lemma_submissions_bounds(vs2, hash@);
                assert(hash_submissions_of(vs2, hash@) <= submissions(vs2));
            }
            let c: usize = #[verifier::truncate] (s.submitted_count as usize);
            total = total + c;
            if str_eq(s.sha256.as_str(), hash.as_str()) {
                proof {
                    lemma_submissions_bounds(version_snapshots(snaps.subrange(0, i + 1), version@), hash@);
                }
                hash_subs = hash_subs + c;
                hash_known = true;
            }
            let ghost vs2 = vs.push(snaps[i as int]);
            proof {
                assert(vs2.drop_last() =~= vs);
                if hash_present(vs, hash@) {
                    let w = choose|w: int| 0 <= w < vs.len() && vs[w].sha256@ == hash@;
                    assert(vs2[w] == vs[w]);
                }
                if s.sha256@ == hash@ {
                    assert(vs2[vs.len() as int].sha256@ == hash@);
                }
                if hash_present(vs2, hash@) && !(s.sha256@ == hash@) {
                    let w = choose|w: int| 0 <= w < vs2.len() && vs2[w].sha256@ == hash@;
                    assert(w < vs.len());
                    assert(vs[w] == vs2[w]);
                }
            }
            maj = match maj {
                Some(j) => if snapshots[j].submitted_count > s.submitted_count { Some(j) } else { Some(i) },
                None => Some(i),
            };
            count_for_version = count_for_version + 1;
            proof {
                vs = vs2;
            }
        }
        i += 1;
    }
    assert(snaps.subrange(0, snaps.len() as int) =~= snaps);
    let (majority_hash_text, majority_submissions): (String, usize) = match maj {
        Some(j) => {
            proof {
                lemma_submissions_bounds(vs, hash@);
            }
            (snapshots[j].sha256.clone(), #[verifier::truncate] (snapshots[j].submitted_count as usize))
        },
        None => (String::new(), 0),
    };
    let matches_consensus = str_eq(majority_hash_text.as_str(), hash.as_str());

    // Advisory check
    let (version_affected, version_safe) = match &advisory {
        Some(adv) => (
            list_names_version(&adv.affected_versions, version),
            list_names_version(&adv.safe_versions, version),
        ),
        None => (false, false),
    };

    let inputs = VerdictInputs {
        matches_consensus,
        majority_submissions,
        total_submissions: total,
        hash_known,
        hash_submissions: hash_subs,
        is_outdated,
        is_unknown_version,
        version_affected,
        version_safe,
    };
    let (verdict, score_adjustment, explanation) = compute_verdict(&inputs, &advisory, package, version, source);
    let should_submit = count_for_version == 0 && !matches_consensus && !(hash_known && hash_subs >= 10);
    let majority_hash = if majority_hash_text.as_str().is_empty() { None } else { Some(majority_hash_text) };
    let report_advisory = match &advisory {
        Some(a) => Some(copy_advisory(a)),
        None => None,
    };
    PreFlightReport {
        package: owned(package),
        incoming_version: owned(version),
        incoming_hash: hash,
        latest_known_version,
        known_versions,
        is_latest,
        is_outdated,
        is_unknown_version,
        hash_known,
        hash_submissions: hash_subs,
        majority_hash,
        matches_consensus,
        majority_submissions,
        total_submissions: total,
        advisory: report_advisory,
        version_affected,
        version_safe,
        verdict,
        score_adjustment,
        explanation,
        should_submit,
    }
}

/// A check is Clean only when it has no concern: the version is not
/// affected by an advisory, the hash agrees with the community's whenever
/// there are submissions, and the version is not outdated (for a package
/// that is not official).
pub proof fn law_clean_means_no_concern(f: VerdictInputs, source: PackageSource)
    requires
        verdict_of(f, source) == Verdict::Clean,
    ensures
        !f.version_affected,
        f.total_submissions == 0 || f.matches_consensus,
        !f.is_outdated || source is Official,
{
}

/// A single concern decides which verdict a check reaches: an affected version gives
/// AdvisoryHit, a hash differing from the community's (with submissions)
/// gives Divergent, an outdated version of a package that is not official
/// gives Outdated; two or more concerns give Mixed.
pub proof fn law_concerns_decide(f: VerdictInputs, source: PackageSource)
    ensures
        f.version_affected && !(f.total_submissions > 0 && !f.matches_consensus)
            && !(f.is_outdated && !(source is Official)) ==> verdict_of(f, source) == Verdict::AdvisoryHit,
        !f.version_affected && f.total_submissions > 0 && !f.matches_consensus
            && !(f.is_outdated && !(source is Official)) ==> verdict_of(f, source) == Verdict::Divergent,
        !f.version_affected && !(f.total_submissions > 0 && !f.matches_consensus)
            && f.is_outdated && !(source is Official) ==> verdict_of(f, source) == Verdict::Outdated,
        (f.version_affected && f.total_submissions > 0 && !f.matches_consensus)
            || (f.version_affected && f.is_outdated && !(source is Official))
            || (f.total_submissions > 0 && !f.matches_consensus && f.is_outdated && !(source is Official))
            ==> verdict_of(f, source) == Verdict::Mixed,
{
}

/// In a pre-flight report, a version with submissions whose hash is not the
/// majority's is never Clean: it is Divergent, or Mixed with another concern.
pub proof fn law_divergent_hash_not_clean(
    r: PreFlightReport,
    package: Seq<char>,
    version: Seq<char>,
    hash: Seq<char>,
    snaps: Seq<SnapshotEntry>,
    advisory: Option<Advisory>,
    source: PackageSource,
)
    requires
        report_of(r, package, version, hash, snaps, advisory, source),
        r.total_submissions > 0,
        !r.matches_consensus,
    ensures
        r.verdict == Verdict::Divergent || r.verdict == Verdict::Mixed,
{
}

/// A package the trust database knows nothing of (no snapshot and no
/// advisory) gets the Unknown verdict, no score adjustment, and its snapshot
/// is submitted, once its PKGBUILD hash is known (not empty).
pub proof fn law_unknown_package(
    r: PreFlightReport,
    package: Seq<char>,
    version: Seq<char>,
    hash: Seq<char>,
    source: PackageSource,
)
    requires
        report_of(r, package, version, hash, Seq::empty(), None, source),
        hash.len() > 0,
    ensures
        r.verdict == Verdict::Unknown,
        r.score_adjustment == 0,
        r.should_submit,
{
    let kv = string_texts(r.known_versions@);
    if kv.len() > 0 {
        assert(kv.contains(kv[0]));
    }
    assert(version_snapshots(Seq::<SnapshotEntry>::empty(), version) =~= Seq::<SnapshotEntry>::empty());
    assert(Seq::<char>::empty() != hash);
}

proof fn lemma_prefix_submissions(snaps: Seq<SnapshotEntry>, v: Seq<char>, i: int)
    requires
        0 <= i <= snaps.len(),
    ensures
        submissions(version_snapshots(snaps.subrange(0, i), v)) <= submissions(version_snapshots(snaps, v)),
    decreases snaps.len() - i,
{
    if i < snaps.len() {
        lemma_prefix_submissions(snaps, v, i + 1);
        let p = snaps.subrange(0, i + 1);
        assert(p.drop_last() =~= snaps.subrange(0, i));
        assert(p[i] == snaps[i]);
        let rest = version_snapshots(snaps.subrange(0, i), v);
        assert(rest.push(snaps[i]).drop_last() =~= rest);
    } else {
        assert(snaps.subrange(0, i) =~= snaps);
    }
}


// ───────────────────────────── the report on screen ─────────────────────────────

/// The verdict as the report shows it: its name in capitals.
pub open spec fn verdict_shout(v: Verdict) -> Seq<char> {
    match v {
        Verdict::Clean => "CLEAN"@,
        Verdict::AdvisoryHit => "ADVISORYHIT"@,
        Verdict::Divergent => "DIVERGENT"@,
        Verdict::Outdated => "OUTDATED"@,
        Verdict::Unknown => "UNKNOWN"@,
        Verdict::Mixed => "MIXED"@,
    }
}

/// How a verdict is styled: red for an advisory or a divergent hash, yellow
/// for an outdated or mixed result, green when clean, dimmed when unknown.
pub open spec fn verdict_style(v: Verdict) -> Style {
    match v {
        Verdict::AdvisoryHit | Verdict::Divergent => Style::BadBold,
        Verdict::Outdated | Verdict::Mixed => Style::CautionBold,
        Verdict::Clean => Style::GoodBold,
        Verdict::Unknown => Style::Dimmed,
    }
}

/// The advisory line of a report, if it has one.
pub open spec fn advisory_lines(r: PreFlightReport) -> Seq<Seq<(Style, Seq<char>)>> {
    let start = field_start(Style::Label, "Advisory:"@);
    if r.version_affected {
        match r.advisory {
            Some(a) => seq![start + seq![
                (Style::BadBold, "AFFECTED — "@ + a.severity@),
                (Style::Plain, " ("@ + a.summary@ + ")"@),
            ]],
            None => Seq::empty(),
        }
    } else if r.version_safe {
        seq![start + seq![(Style::Good, "Version is marked safe"@)]]
    } else if r.advisory is Some {
        seq![start + seq![(Style::Caution, "Package has advisory, but this version is not affected"@)]]
    } else {
        Seq::empty()
    }
}

/// The lines of a pre-flight report on screen, with their styles.
pub open spec fn report_view(r: PreFlightReport) -> Seq<Seq<(Style, Seq<char>)>> {
    let header = seq![
        (Style::Plain, "\n  "@),
        (Style::Heading, "Pre-flight Check:"@),
        (Style::Plain, " "@),
        (Style::Highlight, r.package@),
        (Style::Plain, " "@),
        (Style::Dimmed, r.incoming_version@),
    ];
    let version = field_start(Style::Label, "Version:"@) + match r.latest_known_version {
        Some(latest) => if r.is_latest {
            seq![(Style::Good, "Latest known (matches DB)"@)]
        } else {
            seq![
                (Style::Caution, r.incoming_version@),
                (Style::Plain, " → latest is "@),
                (Style::Caution, latest@),
            ]
        },
        None => seq![(Style::Dimmed, "Not yet in trust DB"@)],
    };
    let hash = field_start(Style::Label, "Hash:"@) + if r.total_submissions > 0 {
        if r.matches_consensus {
            seq![
                (Style::Good, "Matches consensus"@),
                (Style::Plain, " ("@ + decimal(r.hash_submissions as nat) + "/"@
                    + decimal(r.total_submissions as nat) + " submissions)"@),
            ]
        } else {
            seq![
                (Style::BadBold, "DIVERGES from consensus"@),
                (Style::Plain, " (your: "@ + decimal(r.hash_submissions as nat) + " subs, majority: "@
                    + decimal(r.majority_submissions as nat) + " subs)"@),
            ]
        }
    } else {
        seq![(Style::Dimmed, "No community data yet"@)]
    };
    let verdict = seq![
        (Style::Plain, "  "@),
        (Style::Heading, "Verdict"@),
        (Style::Heading, ":"@),
        (Style::Plain, " "@),
        (verdict_style(r.verdict), verdict_shout(r.verdict)),
    ];
    let adjustment = field_start(Style::Label, "Adjustment:"@) + if r.score_adjustment >= 0 {
        seq![(Style::Good, "+"@ + int_decimal(r.score_adjustment as int))]
    } else {
        seq![(Style::Bad, int_decimal(r.score_adjustment as int))]
    };
    let explanation = field_start(Style::Label, "Explanation:"@) + seq![(Style::Plain, r.explanation@)];
    seq![header, version, hash] + advisory_lines(r) + seq![verdict, adjustment, explanation]
}

/// The verdict in capitals.
fn verdict_text(v: Verdict) -> (r: &'static str)
    ensures
        r@ == verdict_shout(v),
{
    match v {
        Verdict::Clean => "CLEAN",
        Verdict::AdvisoryHit => "ADVISORYHIT",
        Verdict::Divergent => "DIVERGENT",
        Verdict::Outdated => "OUTDATED",
        Verdict::Unknown => "UNKNOWN",
        Verdict::Mixed => "MIXED",
    }
}

/// The style of a verdict.
fn verdict_color(v: Verdict) -> (r: Style)
    ensures
        r == verdict_style(v),
{
    match v {
        Verdict::AdvisoryHit | Verdict::Divergent => Style::BadBold,
        Verdict::Outdated | Verdict::Mixed => Style::CautionBold,
        Verdict::Clean => Style::GoodBold,
        Verdict::Unknown => Style::Dimmed,
    }
}

/// The lines of a pre-flight report for the terminal, each a list of styled
/// pieces; the caller colors the pieces and joins the lines with newlines.
pub fn report_lines(report: &PreFlightReport) -> (r: Vec<Vec<Segment>>)
    ensures
        lines_view(r@) == report_view(*report),
{
    let mut out: Vec<Vec<Segment>> = Vec::new();
    assert(lines_view(out@) =~= Seq::empty());

    let mut header: Vec<Segment> = Vec::new();
    assert(line_view(header@) =~= Seq::empty());
    push_segment(&mut header, styled(Style::Plain, "\n  "));
    push_segment(&mut header, styled(Style::Heading, "Pre-flight Check:"));
    push_segment(&mut header, styled(Style::Plain, " "));
    push_segment(&mut header, styled(Style::Highlight, report.package.as_str()));
    push_segment(&mut header, styled(Style::Plain, " "));
    push_segment(&mut header, styled(Style::Dimmed, report.incoming_version.as_str()));
    assert(line_view(header@) =~= report_view(*report)[0]);
    push_line(&mut out, header);

    let mut version = field_line(Style::Label, "Version:");
    match &report.latest_known_version {
        Some(latest) => {
            if report.is_latest {
                push_segment(&mut version, styled(Style::Good, "Latest known (matches DB)"));
            } else {
                push_segment(&mut version, styled(Style::Caution, report.incoming_version.as_str()));
                push_segment(&mut version, styled(Style::Plain, " → latest is "));
                push_segment(&mut version, styled(Style::Caution, latest.as_str()));
            }
        },
        None => {
            push_segment(&mut version, styled(Style::Dimmed, "Not yet in trust DB"));
        },
    }
    assert(line_view(version@) =~= report_view(*report)[1]);
    push_line(&mut out, version);

    let mut hash = field_line(Style::Label, "Hash:");
    if report.total_submissions > 0 {
        let mut counts = String::new();
        if report.matches_consensus {
            push_segment(&mut hash, styled(Style::Good, "Matches consensus"));
            push_str(&mut counts, " (");
            push_decimal_u64(&mut counts, report.hash_submissions as u64);
            push_str(&mut counts, "/");
            push_decimal_u64(&mut counts, report.total_submissions as u64);
            push_str(&mut counts, " submissions)");
        } else {
            push_segment(&mut hash, styled(Style::BadBold, "DIVERGES from consensus"));
            push_str(&mut counts, " (your: ");
            push_decimal_u64(&mut counts, report.hash_submissions as u64);
            push_str(&mut counts, " subs, majority: ");
            push_decimal_u64(&mut counts, report.majority_submissions as u64);
            push_str(&mut counts, " subs)");
        }
        push_segment(&mut hash, styled_string(Style::Plain, counts));
    } else {
        push_segment(&mut hash, styled(Style::Dimmed, "No community data yet"));
    }
    assert(line_view(hash@) =~= report_view(*report)[2]);
    push_line(&mut out, hash);

    let ghost three = lines_view(out@);
    if report.version_affected {
        match &report.advisory {
            Some(adv) => {
                let mut line = field_line(Style::Label, "Advisory:");
                let mut hit = owned("AFFECTED — ");
                push_str(&mut hit, adv.severity.as_str());
                push_segment(&mut line, styled_string(Style::BadBold, hit));
                let mut summary = owned(" (");
                push_str(&mut summary, adv.summary.as_str());
                push_str(&mut summary, ")");
                push_segment(&mut line, styled_string(Style::Plain, summary));
                assert(line_view(line@) =~= field_start(Style::Label, "Advisory:"@) + seq![
                    (Style::BadBold, "AFFECTED — "@ + adv.severity@),
                    (Style::Plain, " ("@ + adv.summary@ + ")"@),
                ]);
                push_line(&mut out, line);
                assert(lines_view(out@) =~= three + advisory_lines(*report));
            },
            None => {
                assert(lines_view(out@) =~= three + advisory_lines(*report));
            },
        }
    } else if report.version_safe {
        let mut line = field_line(Style::Label, "Advisory:");
        push_segment(&mut line, styled(Style::Good, "Version is marked safe"));
        assert(line_view(line@) =~= field_start(Style::Label, "Advisory:"@) + seq![(Style::Good, "Version is marked safe"@)]);
        push_line(&mut out, line);
        assert(lines_view(out@) =~= three + advisory_lines(*report));
    } else if report.advisory.is_some() {
        let mut line = field_line(Style::Label, "Advisory:");
        push_segment(&mut line, styled(Style::Caution, "Package has advisory, but this version is not affected"));
        assert(line_view(line@) =~= field_start(Style::Label, "Advisory:"@)
            + seq![(Style::Caution, "Package has advisory, but this version is not affected"@)]);
        push_line(&mut out, line);
        assert(lines_view(out@) =~= three + advisory_lines(*report));
    } else {
        assert(lines_view(out@) =~= three + advisory_lines(*report));
    }

    let ghost n: int = (three.len() + advisory_lines(*report).len()) as int;
    assert(report_view(*report).len() == n + 3);
    let mut verdict: Vec<Segment> = Vec::new();
    assert(line_view(verdict@) =~= Seq::empty());
    push_segment(&mut verdict, styled(Style::Plain, "  "));
    push_segment(&mut verdict, styled(Style::Heading, "Verdict"));
    push_segment(&mut verdict, styled(Style::Heading, ":"));
    push_segment(&mut verdict, styled(Style::Plain, " "));
    push_segment(&mut verdict, styled(verdict_color(report.verdict), verdict_text(report.verdict)));
    assert(line_view(verdict@) =~= report_view(*report)[n]);
    push_line(&mut out, verdict);

    let mut adjustment = field_line(Style::Label, "Adjustment:");
    if report.score_adjustment >= 0 {
        let mut t = owned("+");
        push_decimal(&mut t, report.score_adjustment as i64);
        push_segment(&mut adjustment, styled_string(Style::Good, t));
    } else {
        let mut t = String::new();
        push_decimal(&mut t, report.score_adjustment as i64);
        push_segment(&mut adjustment, styled_string(Style::Bad, t));
    }
    assert(line_view(adjustment@) =~= report_view(*report)[n + 1]);
    push_line(&mut out, adjustment);

    let mut explanation = field_line(Style::Label, "Explanation:");
    push_segment(&mut explanation, styled(Style::Plain, report.explanation.as_str()));
    assert(line_view(explanation@) =~= report_view(*report)[n + 2]);
    push_line(&mut out, explanation);

    assert(lines_view(out@) =~= report_view(*report));
    out
}

} // verus!
