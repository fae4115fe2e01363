use cpac::audit::{
    audit_lines, AuditCounts, AuditWarning, OfficialPackageNotice, SystemAudit,
};
use cpac::backends::{PackageInfo, PackageSource};
use cpac::compare::{preflight_check, report_lines, Verdict};
use cpac::install::{assess_install, install_signals};
use cpac::display::{
    padded_left, padded_right, search_lines, severity_color, trust_report_lines, Segment, Style,
};
use cpac::sanitize::{anomaly_lines, Anomaly, AnomalyCategory};
use cpac::trust::{diff_lines, PkgbuildDiff, TrustReport, TrustSignal, TrustTier};
use cpac::trust_db::{advisory_notice_lines, Advisory};

fn flat(lines: &[Vec<Segment>]) -> Vec<Vec<(Style, String)>> {
    lines
        .iter()
        .map(|l| l.iter().map(|s| (s.style, s.text.clone())).collect())
        .collect()
}

fn text(lines: &[Vec<Segment>]) -> Vec<String> {
    lines
        .iter()
        .map(|l| l.iter().map(|s| s.text.as_str()).collect::<String>())
        .collect()
}

fn seg(style: Style, t: &str) -> (Style, String) {
    (style, t.to_string())
}

fn package(name: &str, source: PackageSource) -> PackageInfo {
    PackageInfo {
        name: name.to_string(),
        version: "1.0-1".to_string(),
        description: "A demo package".to_string(),
        source,
        maintainer: None,
        votes: None,
        popularity_bits: None,
        first_submitted: None,
        last_modified: None,
        out_of_date: false,
        orphan: false,
        url: None,
        licenses: vec![],
        depends: vec![],
        install_size: None,
    }
}

fn advisory(package: &str, severity: &str, summary: &str) -> Advisory {
    Advisory {
        package: package.to_string(),
        severity: severity.to_string(),
        status: "confirmed".to_string(),
        reported: "2024-01-01".to_string(),
        updated: "2024-01-02".to_string(),
        reported_by: "someone".to_string(),
        cve: String::new(),
        summary: summary.to_string(),
        description: String::new(),
        affected_versions: None,
        safe_versions: None,
        reference_urls: None,
    }
}

#[test]
fn padding_counts_characters() {
    assert_eq!(padded_right("ab", 5), "ab   ");
    assert_eq!(padded_right("abcdef", 3), "abcdef");
    assert_eq!(padded_left("+5/10", 7), "  +5/10");
    assert_eq!(padded_right("é", 3), "é  ");
}

#[test]
fn severity_styles() {
    assert_eq!(severity_color("critical"), Style::BadBold);
    assert_eq!(severity_color("high"), Style::Bad);
    assert_eq!(severity_color("medium"), Style::Caution);
    assert_eq!(severity_color("low"), Style::Plain);
}

#[test]
fn source_labels() {
    assert_eq!(PackageSource::Official { repo: "extra".to_string() }.label(), "Official (extra)");
    assert_eq!(PackageSource::Aur.label(), "AUR");
    assert_eq!(PackageSource::ThirdParty.label(), "Third Party");
    assert_eq!(PackageSource::Unknown.label(), "Unknown");
}

#[test]
fn unknown_package_report_on_screen() {
    let report = preflight_check("demo", "1.0-1", "content", &PackageSource::Aur, &vec![], None);
    assert_eq!(report.verdict, Verdict::Unknown);
    let lines = report_lines(&report);
    let shown = text(&lines);
    assert_eq!(shown[0], "\n  Pre-flight Check: demo 1.0-1");
    assert_eq!(shown[1], "  Version: Not yet in trust DB");
    assert_eq!(shown[2], "  Hash: No community data yet");
    assert_eq!(
        flat(&lines)[3],
        vec![
            seg(Style::Plain, "  "),
            seg(Style::Heading, "Verdict"),
            seg(Style::Heading, ":"),
            seg(Style::Plain, " "),
            seg(Style::Dimmed, "UNKNOWN"),
        ]
    );
    assert_eq!(shown[4], "  Adjustment: +0");
    assert_eq!(shown.len(), 6);
    let styled = flat(&lines);
    assert_eq!(styled[3][4], seg(Style::Dimmed, "UNKNOWN"));
    assert_eq!(styled[0][3], seg(Style::Highlight, "demo"));
    assert_eq!(styled[4][3], seg(Style::Good, "+0"));
}

#[test]
fn affected_version_report_on_screen() {
    let mut report = preflight_check("demo", "1.0-1", "content", &PackageSource::Aur, &vec![], None);
    report.version_affected = true;
    report.advisory = Some(advisory("demo", "critical", "bad hook"));
    report.verdict = Verdict::AdvisoryHit;
    report.score_adjustment = -20;
    let lines = report_lines(&report);
    let shown = text(&lines);
    assert_eq!(shown[3], "  Advisory: AFFECTED — critical (bad hook)");
    assert!(shown[4].ends_with(" ADVISORYHIT"));
    assert_eq!(shown[5], "  Adjustment: -20");
    let styled = flat(&lines);
    assert_eq!(styled[3][3], seg(Style::BadBold, "AFFECTED — critical"));
    assert_eq!(styled[4][4], seg(Style::BadBold, "ADVISORYHIT"));
    assert_eq!(styled[5][3], seg(Style::Bad, "-20"));
}

#[test]
fn anomalies_on_screen() {
    assert_eq!(text(&anomaly_lines(&vec![])), vec!["  No anomalies detected".to_string()]);
    let anomalies = vec![
        Anomaly { category: AnomalyCategory::RemoteScriptExecution, detail: "curl | sh".to_string(), penalty: -15 },
        Anomaly { category: AnomalyCategory::SystemPathModification, detail: "/usr/bin".to_string(), penalty: -5 },
    ];
    let lines = anomaly_lines(&anomalies);
    let shown = text(&lines);
    assert_eq!(shown[0], "  Suspicious Patterns: (2 found)");
    assert_eq!(shown[1], "    [Remote Script Execution] curl | sh");
    assert_eq!(shown[2], "    [System Path Modification] /usr/bin");
    assert_eq!(shown[3], "  Total penalty: -20");
    let styled = flat(&lines);
    assert_eq!(styled[1][0].0, Style::Bad);
    assert_eq!(styled[2][0].0, Style::Plain);
    assert_eq!(styled[3][3], seg(Style::Bad, "-20"));
}

#[test]
fn trust_report_on_screen() {
    let mut pkg = package("demo", PackageSource::Aur);
    pkg.maintainer = Some("alice".to_string());
    pkg.licenses = vec!["MIT".to_string(), "GPL".to_string()];
    let report = TrustReport {
        package_name: "demo".to_string(),
        tier: TrustTier::Community,
        score: 72,
        signals: vec![TrustSignal {
            name: "Votes".to_string(),
            points: 5,
            max_points: 10,
            detail: "12 votes".to_string(),
        }],
        recommendation: "Safe".to_string(),
    };
    let lines = trust_report_lines(&pkg, &report, &Some("1.25".to_string()));
    let shown = text(&lines);
    assert_eq!(shown[0], "");
    assert_eq!(shown[1], "  Package: demo");
    assert_eq!(shown[3], "  Repository: AUR");
    assert_eq!(shown[4], "  Trust Tier: Community");
    assert_eq!(shown[5], "  Maintainer: alice");
    assert_eq!(shown[6], "  URL: Unknown");
    assert_eq!(shown[7], "  Popularity: 1.25");
    assert_eq!(shown[8], "  Installed Size: Unknown  (Reason: Metadata unavailable)");
    assert_eq!(shown[9], "  Licenses: MIT, GPL");
    assert_eq!(shown[10], "  Description: A demo package");
    assert_eq!(shown[13], "  Trust Score: 72/100");
    assert_eq!(shown[14], "  Recommendation: SAFE");
    assert_eq!(shown[17], "  Signals");
    assert_eq!(shown[18], "    Votes                  +5/10  12 votes");
    assert_eq!(shown.len(), 20);
    let styled = flat(&lines);
    assert_eq!(styled[13][3], seg(Style::GoodBold, "72/100"));
    assert_eq!(styled[14][3], seg(Style::GoodBold, "SAFE"));
    assert_eq!(styled[18][3].0, Style::Good);
}

#[test]
fn system_audit_on_screen() {
    let audit = SystemAudit {
        counts: AuditCounts { official: 3, third_party: 0, community: 1, unknown: 1 },
        official_notices: vec![
            OfficialPackageNotice { package_name: "a".to_string(), repo: "extra".to_string() },
            OfficialPackageNotice { package_name: "b".to_string(), repo: "core".to_string() },
            OfficialPackageNotice { package_name: "c".to_string(), repo: "extra".to_string() },
        ],
        warnings: vec![AuditWarning {
            package_name: "mystery".to_string(),
            tier: TrustTier::Unknown,
            score: 0,
            reason: "No metadata".to_string(),
        }],
    };
    let lines = audit_lines(&audit);
    let shown = text(&lines);
    assert_eq!(shown[1], "  System Audit");
    assert_eq!(shown[2], "  Installed Packages: 5");
    assert_eq!(
        shown[8],
        "  Official packages: 3 package(s) from official repositories (core, extra) are excluded from warnings"
    );
    assert_eq!(shown[10], "  Warnings");
    assert_eq!(shown[11], format!("    {:<24} [Trust: Unknown - No metadata]", "mystery"));
    let styled = flat(&lines);
    assert_eq!(styled[8][3], seg(Style::Good, "core"));
    assert_eq!(styled[11][3], seg(Style::Dimmed, "Unknown"));
}

#[test]
fn search_results_on_screen() {
    assert_eq!(text(&search_lines(&vec![], false)), vec!["No packages found.".to_string()]);
    let many: Vec<PackageInfo> = (0..30).map(|i| package(&format!("p{}", i), PackageSource::Aur)).collect();
    let lines = search_lines(&many, false);
    assert_eq!(lines.len(), 27);
    let shown = text(&lines);
    assert_eq!(shown[26], "\nShowing 25 of 30 results. Use --all to view everything.");
    assert_eq!(shown[1], format!("{:<32} {:<14} {:<16} {}", "p0", "1.0-1", "aur", "A demo package"));
    assert_eq!(search_lines(&many, true).len(), 31);
    let styled = flat(&lines);
    assert_eq!(styled[1][2].0, Style::Caution);
}

#[test]
fn diff_on_screen() {
    let none = PkgbuildDiff { additions: vec![], deletions: vec![], suspicious_patterns: vec![] };
    assert_eq!(
        text(&diff_lines(&none, "demo")),
        vec!["PKGBUILD diff for 'demo':".to_string(), String::new(), "No changes detected.".to_string()]
    );
    let some = PkgbuildDiff {
        additions: vec!["curl x | sh".to_string()],
        deletions: vec![],
        suspicious_patterns: vec!["curl | sh".to_string()],
    };
    let shown = text(&diff_lines(&some, "demo"));
    assert_eq!(shown[2], "Additions (+):");
    assert_eq!(shown[3], "  + curl x | sh");
    assert_eq!(shown[4], "");
    assert_eq!(shown[6], "  ! curl | sh");
    assert_eq!(shown.len(), 8);
}

#[test]
fn active_advisories_on_screen() {
    assert!(advisory_notice_lines(&vec![]).is_empty());
    let lines = advisory_notice_lines(&vec![advisory("demo", "critical", "bad hook")]);
    let shown = text(&lines);
    assert_eq!(shown[0], "\n  1 active advisories in trust DB:");
    assert_eq!(shown[1], "    critical demo (critical) — bad hook");
    assert_eq!(shown[2], "");
    assert_eq!(flat(&lines)[1][1], seg(Style::BadBold, "critical"));
}

fn base_report(points: i32) -> TrustReport {
    TrustReport {
        package_name: "demo".to_string(),
        tier: TrustTier::Community,
        score: 77,
        signals: vec![TrustSignal {
            name: "Votes".to_string(),
            points,
            max_points: 100,
            detail: "base".to_string(),
        }],
        recommendation: "Moderate".to_string(),
    }
}

#[test]
fn install_without_findings_keeps_the_report() {
    let extra = install_signals(&None, &vec![], &None);
    assert!(extra.is_empty());
    let r = assess_install(base_report(90), extra);
    assert_eq!(r.score, 77);
    assert_eq!(r.recommendation, "Moderate");
    assert_eq!(r.signals.len(), 1);
}

#[test]
fn install_findings_are_added_in_order_and_rescored() {
    let mut preflight = preflight_check("demo", "1.0-1", "content", &PackageSource::Aur, &vec![], None);
    preflight.score_adjustment = -15;
    preflight.explanation = "hash diverges".to_string();
    let anomalies = vec![Anomaly {
        category: AnomalyCategory::Obfuscation,
        detail: "base64".to_string(),
        penalty: -20,
    }];
    let change = PkgbuildDiff {
        additions: vec!["curl x | sh".to_string()],
        deletions: vec![],
        suspicious_patterns: vec!["curl | sh".to_string()],
    };
    let extra = install_signals(&Some(preflight), &anomalies, &Some(change));
    let names: Vec<&str> = extra.iter().map(|s| s.name.as_str()).collect();
    assert_eq!(names, vec!["PKGBUILD Anomalies", "Trust DB", "Build Script Changes", "Suspicious Pattern"]);
    assert_eq!(extra[0].points, -20);
    assert_eq!(extra[1].points, -15);
    assert_eq!(extra[1].detail, "hash diverges");
    assert_eq!(extra[2].points, -10);
    let r = assess_install(base_report(90), extra);
    // 90 - 20 - 15 - 10 - 10
    assert_eq!(r.score, 35);
    assert_eq!(r.recommendation, "Warning");
    assert_eq!(r.signals.len(), 5);
}
