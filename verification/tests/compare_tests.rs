use cpac::backends::PackageSource;
use cpac::compare::{compute_verdict, preflight_check, preflight_report, Verdict, VerdictInputs};
use cpac::trust_db::SnapshotEntry;

fn snapshot(version: &str, sha256: &str, count: i64) -> SnapshotEntry {
    SnapshotEntry {
        package: "demo".to_string(),
        version: version.to_string(),
        sha256: sha256.to_string(),
        submitted_count: count,
        first_seen: "2024-01-01T00:00:00Z".to_string(),
        last_seen: "2024-01-02T00:00:00Z".to_string(),
        pkgbuild_text: None,
    }
}

#[test]
fn unknown_package_gets_unknown_verdict() {
    let report = preflight_check(
        "nonexistent-pkg",
        "1.0.0-1",
        "some pkgbuild content",
        &PackageSource::Unknown,
        &vec![],
        None,
    );
    assert_eq!(report.verdict, Verdict::Unknown);
    assert!(!report.hash_known);
    assert!(report.should_submit);
}

#[test]
fn verdict_display() {
    assert_eq!(Verdict::Clean.label(), "Clean");
    assert_eq!(Verdict::Divergent.label(), "Divergent");
}

#[test]
fn verdict_labels_of_every_variant() {
    assert_eq!(Verdict::AdvisoryHit.label(), "Advisory");
    assert_eq!(Verdict::Outdated.label(), "Outdated");
    assert_eq!(Verdict::Unknown.label(), "Unknown");
    assert_eq!(Verdict::Mixed.label(), "Mixed");
}

#[test]
fn divergent_hash_is_reported_against_the_consensus() {
    let snaps = vec![snapshot("1.0-1", "aaaa", 9), snapshot("1.0-1", "bbbb", 1)];
    let report = preflight_check("demo", "1.0-1", "content", &PackageSource::Aur, &snaps, None);
    assert!(!report.hash_known);
    assert!(!report.matches_consensus);
    assert_eq!(report.total_submissions, 10);
    assert_eq!(report.majority_submissions, 9);
    assert_eq!(report.verdict, Verdict::Divergent);
    assert!(report.score_adjustment < 0);
}

#[test]
fn counts_of_other_versions_do_not_count() {
    let snaps = vec![snapshot("0.9-1", "cccc", i64::MAX), snapshot("1.0-1", "aaaa", 3)];
    let report = preflight_check("demo", "1.0-1", "content", &PackageSource::Aur, &snaps, None);
    assert_eq!(report.total_submissions, 3);
    assert_eq!(report.majority_submissions, 3);
    assert_eq!(report.known_versions, vec!["0.9-1".to_string(), "1.0-1".to_string()]);
    assert!(report.is_latest);
}

#[test]
fn negative_count_is_added_as_a_usize() {
    let snaps = vec![snapshot("1.0-1", "aaaa", -1)];
    let report = preflight_check("demo", "1.0-1", "content", &PackageSource::Aur, &snaps, None);
    assert_eq!(report.total_submissions, usize::MAX);
    assert_eq!(report.majority_submissions, usize::MAX);
}

#[test]
fn two_concerns_give_mixed() {
    let inputs = VerdictInputs {
        matches_consensus: true,
        majority_submissions: 0,
        total_submissions: 0,
        hash_known: false,
        hash_submissions: 0,
        is_outdated: true,
        is_unknown_version: false,
        version_affected: true,
        version_safe: false,
    };
    let (verdict, _, _) = compute_verdict(&inputs, &None, "demo", "1.0-1", &PackageSource::Aur);
    assert_eq!(verdict, Verdict::Mixed);
    // the same outdated version of an official package is one concern only
    let (verdict, _, _) =
        compute_verdict(&inputs, &None, "demo", "1.0-1", &PackageSource::Official { repo: "core".to_string() });
    assert_eq!(verdict, Verdict::AdvisoryHit);
}

#[test]
fn report_built_from_a_given_hash() {
    let snaps = vec![snapshot("1.0-1", "aaaa", 12)];
    let report = preflight_report("demo", "1.0-1", "aaaa".to_string(), &PackageSource::Aur, &snaps, None);
    assert_eq!(report.incoming_hash, "aaaa");
    assert!(report.hash_known);
    assert!(report.matches_consensus);
    assert_eq!(report.hash_submissions, 12);
    assert_eq!(report.verdict, Verdict::Clean);
    assert!(!report.should_submit);
    // with no data at all: unknown, no adjustment, submitted
    let report = preflight_check("demo", "1.0-1", "content", &PackageSource::Aur, &vec![], None);
    assert_eq!(report.incoming_hash.len(), 64);
    assert_eq!(report.score_adjustment, 0);
    assert!(report.should_submit);
}
