use cpac::audit::{
    audit_from_reports, foreign_names, hydrate_package, increment_counts, is_distro_specific_repo,
    merge_aur_metadata, warning_reason, AuditCounts,
};
use cpac::backends::{classify_repo, PackageInfo, PackageSource};
use cpac::trust::{TrustReport, TrustSignal, TrustTier};

fn signal(name: &str, points: i32, max_points: i32, detail: &str) -> TrustSignal {
    TrustSignal {
        name: name.to_string(),
        points,
        max_points,
        detail: detail.to_string(),
    }
}

fn report(name: &str, tier: TrustTier, score: u32, signals: Vec<TrustSignal>) -> TrustReport {
    TrustReport {
        package_name: name.to_string(),
        tier,
        score,
        signals,
        recommendation: "Warning".to_string(),
    }
}

fn installed(name: &str) -> PackageInfo {
    PackageInfo {
        name: name.to_string(),
        version: "1.0-1".to_string(),
        description: String::new(),
        source: PackageSource::Unknown,
        maintainer: None,
        votes: None,
        popularity_bits: None,
        first_submitted: None,
        last_modified: None,
        out_of_date: false,
        orphan: false,
        url: None,
        licenses: vec![],
        depends: vec![],
        install_size: None,
    }
}

#[test]
fn unknown_packages_use_the_spec_summary() {
    let report = TrustReport {
        package_name: "mystery".to_string(),
        tier: TrustTier::Unknown,
        score: 0,
        signals: vec![],
        recommendation: "Danger".to_string(),
    };

    assert_eq!(warning_reason(&report), "Installed outside CPAC");
}

#[test]
fn warning_reason_keeps_the_lowest_signals_first() {
    let report = TrustReport {
        package_name: "foo".to_string(),
        tier: TrustTier::Community,
        score: 34,
        signals: vec![
            signal("Popularity", 11, 15, "101 votes"),
            signal("Maintainer", -5, 15, "Orphaned - no active maintainer"),
            signal("Last Updated", 3, 15, "2 years ago"),
        ],
        recommendation: "Warning".to_string(),
    };

    assert_eq!(
        warning_reason(&report),
        "Maintainer: Orphaned - no active maintainer | Last Updated: 2 years ago | Popularity: 101 votes"
    );
}

#[test]
fn official_arch_repos_are_official() {
    assert!(matches!(classify_repo("core"), PackageSource::Official { .. }));
    assert!(matches!(classify_repo("extra"), PackageSource::Official { .. }));
    assert!(matches!(classify_repo("multilib"), PackageSource::Official { .. }));
    assert!(matches!(classify_repo("testing"), PackageSource::Official { .. }));
    assert!(matches!(classify_repo("community"), PackageSource::Official { .. }));
}

#[test]
fn distro_specific_repos_are_third_party() {
    assert!(matches!(classify_repo("endeavouros"), PackageSource::ThirdParty));
    assert!(matches!(classify_repo("cachyos"), PackageSource::ThirdParty));
    assert!(matches!(classify_repo("cachyos-v3"), PackageSource::ThirdParty));
    assert!(matches!(classify_repo("garuda"), PackageSource::ThirdParty));
    assert!(matches!(classify_repo("manjaro"), PackageSource::ThirdParty));
}

#[test]
fn other_third_party_repos_are_third_party() {
    assert!(matches!(classify_repo("chaotic-aur"), PackageSource::ThirdParty));
    assert!(matches!(classify_repo("blackarch"), PackageSource::ThirdParty));
}

#[test]
fn distro_specific_repos_are_reported_for_exclusion_notes() {
    assert!(is_distro_specific_repo("endeavouros"));
    assert!(is_distro_specific_repo("cachyos"));
    assert!(is_distro_specific_repo("cachyos-v3"));
    assert!(!is_distro_specific_repo("core"));
    assert!(!is_distro_specific_repo("extra"));
}

#[test]
fn warning_reason_keeps_only_three_signals_and_orders_ties_by_name() {
    let report = report(
        "bar",
        TrustTier::Community,
        20,
        vec![
            signal("Zeta", 0, 15, "z"),
            signal("Alpha", 0, 15, "a"),
            signal("Beta", 5, 15, "b"),
            signal("Gamma", -1, 15, "g"),
        ],
    );
    assert_eq!(warning_reason(&report), "Gamma: g | Alpha: a | Zeta: z");
}

#[test]
fn warning_reason_of_a_report_without_signals_is_empty() {
    let report = report("empty", TrustTier::Official, 10, vec![]);
    assert_eq!(warning_reason(&report), "");
}

#[test]
fn counts_total_and_increment() {
    let mut counts = AuditCounts::default();
    increment_counts(&mut counts, &TrustTier::Official);
    increment_counts(&mut counts, &TrustTier::Official);
    increment_counts(&mut counts, &TrustTier::Community);
    increment_counts(&mut counts, &TrustTier::Unknown);
    assert_eq!(counts.official, 2);
    assert_eq!(counts.third_party, 0);
    assert_eq!(counts.community, 1);
    assert_eq!(counts.unknown, 1);
    assert_eq!(counts.total(), 4);
}

#[test]
fn hydrate_uses_the_last_repository_listing() {
    let repos = vec![
        ("core".to_string(), "bash".to_string()),
        ("endeavouros".to_string(), "bash".to_string()),
    ];
    let pkg = hydrate_package(installed("bash"), &repos, &vec![]);
    assert!(matches!(pkg.source, PackageSource::ThirdParty));
    let repos = vec![("extra".to_string(), "git".to_string())];
    let pkg = hydrate_package(installed("git"), &repos, &vec![]);
    match pkg.source {
        PackageSource::Official { repo } => assert_eq!(repo, "extra"),
        _ => panic!("expected an official package"),
    }
}

#[test]
fn hydrate_completes_foreign_packages_from_the_aur() {
    let mut remote = installed("paru");
    remote.source = PackageSource::Aur;
    remote.maintainer = Some("Morganamilo".to_string());
    remote.votes = Some(1200);
    remote.first_submitted = Some(1_600_000_000);
    remote.out_of_date = true;
    remote.licenses = vec!["GPL3".to_string()];
    remote.version = "9.9".to_string();
    let local = installed("paru");
    let pkg = hydrate_package(local, &vec![], &vec![remote]);
    assert!(matches!(pkg.source, PackageSource::Aur));
    assert_eq!(pkg.maintainer.as_deref(), Some("Morganamilo"));
    assert_eq!(pkg.votes, Some(1200));
    assert_eq!(pkg.first_submitted, Some(1_600_000_000));
    assert!(pkg.out_of_date);
    assert_eq!(pkg.licenses, vec!["GPL3".to_string()]);
    // The installed version stays.
    assert_eq!(pkg.version, "1.0-1");
}

#[test]
fn hydrate_marks_unmatched_packages_unknown() {
    let mut local = installed("local-tool");
    local.source = PackageSource::Aur;
    let pkg = hydrate_package(local, &vec![], &vec![installed("other")]);
    assert!(matches!(pkg.source, PackageSource::Unknown));
}

#[test]
fn merge_keeps_local_orphan_mark() {
    let mut remote = installed("x");
    remote.orphan = true;
    remote.url = Some("https://example.org".to_string());
    let merged = merge_aur_metadata(installed("x"), remote);
    assert!(!merged.orphan);
    assert_eq!(merged.url.as_deref(), Some("https://example.org"));
}

#[test]
fn foreign_names_are_those_no_repository_lists() {
    let repos = vec![("core".to_string(), "bash".to_string())];
    let pkgs = vec![installed("bash"), installed("yay"), installed("paru")];
    assert_eq!(foreign_names(&pkgs, &repos), vec!["yay".to_string(), "paru".to_string()]);
}

#[test]
fn audit_counts_warns_and_sorts() {
    let mut official = installed("linux");
    official.source = PackageSource::Official { repo: "core".to_string() };
    let mut distro = installed("eos-hooks");
    distro.source = PackageSource::Official { repo: "endeavouros".to_string() };
    let mut distro2 = installed("cachy-kernel");
    distro2.source = PackageSource::Official { repo: "cachyos".to_string() };
    let entries = vec![
        (official, report("linux", TrustTier::Official, 90, vec![])),
        (installed("zeta-tool"), report("zeta-tool", TrustTier::Unknown, 0, vec![])),
        (installed("low"), report("low", TrustTier::Community, 30, vec![signal("Maintainer", -10, 15, "Orphaned")])),
        (installed("alpha-tool"), report("alpha-tool", TrustTier::Unknown, 0, vec![])),
        (distro, report("eos-hooks", TrustTier::Official, 85, vec![])),
        (distro2, report("cachy-kernel", TrustTier::Official, 85, vec![])),
        (installed("ok"), report("ok", TrustTier::ThirdParty, 60, vec![])),
    ];
    let audit = audit_from_reports(&entries);
    assert_eq!(audit.counts.official, 3);
    assert_eq!(audit.counts.third_party, 1);
    assert_eq!(audit.counts.community, 1);
    assert_eq!(audit.counts.unknown, 2);
    assert_eq!(audit.counts.total(), 7);
    let names: Vec<&str> = audit.warnings.iter().map(|w| w.package_name.as_str()).collect();
    assert_eq!(names, vec!["alpha-tool", "zeta-tool", "low"]);
    assert_eq!(audit.warnings[0].reason, "Installed outside CPAC");
    assert_eq!(audit.warnings[2].reason, "Maintainer: Orphaned");
    let notices: Vec<(&str, &str)> = audit
        .official_notices
        .iter()
        .map(|n| (n.repo.as_str(), n.package_name.as_str()))
        .collect();
    assert_eq!(notices, vec![("cachyos", "cachy-kernel"), ("endeavouros", "eos-hooks")]);
}
