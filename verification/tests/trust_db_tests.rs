use cpac::trust_db::{
    active_advisories, advisories_since_url, advisories_url, advisory_floor, advisory_penalty,
    list_names_version, lookup_advisory, lookup_snapshots, lookup_snapshots_for_version,
    merge_advisories, merge_snapshots, needs_sync, snapshots_since_url, snapshots_url,
    stored_token, trust_db_dir, Advisory, LocalMeta, SnapshotEntry, SyncResult,
};

fn advisory(package: &str, status: &str, summary: &str) -> Advisory {
    Advisory {
        package: package.to_string(),
        severity: "high".to_string(),
        status: status.to_string(),
        reported: "2024-01-01".to_string(),
        updated: "2024-01-02".to_string(),
        reported_by: "someone".to_string(),
        cve: String::new(),
        summary: summary.to_string(),
        description: String::new(),
        affected_versions: Some(vec![Some("1.0-1".to_string()), None]),
        safe_versions: None,
        reference_urls: None,
    }
}

fn snapshot(package: &str, version: &str, sha256: &str, count: i64) -> SnapshotEntry {
    SnapshotEntry {
        package: package.to_string(),
        version: version.to_string(),
        sha256: sha256.to_string(),
        submitted_count: count,
        first_seen: "a".to_string(),
        last_seen: "b".to_string(),
        pkgbuild_text: None,
    }
}

#[test]
fn advisory_statuses() {
    let cases = [
        ("safe", 10, ""),
        ("suspicious", -15, "Caution"),
        ("warning", -20, "Warning"),
        ("malicious", -30, "Danger"),
        ("resolved", 0, ""),
        ("confirmed", -20, "Warning"),
        ("suspected", -15, "Caution"),
        ("other", 0, ""),
    ];
    for (status, penalty, floor) in cases {
        let a = advisory("x", status, "");
        assert_eq!(advisory_penalty(&a), penalty);
        assert_eq!(advisory_floor(&a), floor);
    }
}

#[test]
fn version_lists() {
    let a = advisory("x", "warning", "");
    assert!(list_names_version(&a.affected_versions, "1.0-1"));
    assert!(!list_names_version(&a.affected_versions, "2.0-1"));
    assert!(!list_names_version(&None, "1.0-1"));
}

#[test]
fn lookups_in_the_local_cache() {
    let all = vec![advisory("a", "warning", "first"), advisory("b", "safe", ""), advisory("a", "malicious", "second")];
    assert_eq!(lookup_advisory(&all, "a").unwrap().summary, "first");
    assert!(lookup_advisory(&all, "zz").is_none());
    let snaps = vec![snapshot("a", "1", "h1", 2), snapshot("b", "1", "h2", 1), snapshot("a", "2", "h3", 5)];
    assert_eq!(lookup_snapshots(&snaps, "a").len(), 2);
    let v2 = lookup_snapshots_for_version(&snaps, "a", "2");
    assert_eq!(v2.len(), 1);
    assert_eq!(v2[0].sha256, "h3");
}

#[test]
fn sync_decisions_and_messages() {
    let meta = LocalMeta {
        version: "v".to_string(),
        last_sync: "t".to_string(),
        advisory_count: 3,
        snapshot_count: 10,
    };
    assert!(!needs_sync(&Some(meta), 3));
    assert!(needs_sync(&None, 0));
    let meta = LocalMeta { version: "v".to_string(), last_sync: "t".to_string(), advisory_count: 3, snapshot_count: 0 };
    assert!(needs_sync(&Some(meta), 4));
    assert_eq!(SyncResult::Skipped.message(), "Trust database sync skipped (server unavailable)");
    assert_eq!(
        SyncResult::Synced { advisories: 3, snapshots: 12 }.message(),
        "Trust database synced: 3 advisories, 12 snapshots"
    );
}

#[test]
fn merging_replaces_by_key() {
    let existing = vec![advisory("a", "warning", "old"), advisory("b", "safe", "b")];
    let news = vec![advisory("a", "resolved", "new")];
    let merged = merge_advisories(&existing, &news);
    let summaries: Vec<&str> = merged.iter().map(|a| a.summary.as_str()).collect();
    assert_eq!(summaries, vec!["b", "new"]);
    let again = merge_advisories(&merged, &news);
    let summaries: Vec<&str> = again.iter().map(|a| a.summary.as_str()).collect();
    assert_eq!(summaries, vec!["b", "new"]);
    let existing = vec![snapshot("a", "1", "h", 1), snapshot("a", "1", "g", 1)];
    let merged = merge_snapshots(&existing, &vec![snapshot("a", "1", "h", 7)]);
    assert_eq!(merged.len(), 2);
    assert_eq!(merged[0].sha256, "g");
    assert_eq!(merged[1].submitted_count, 7);
}

#[test]
fn active_advisories_skip_resolved_ones() {
    let all = vec![advisory("a", "resolved", ""), advisory("b", "warning", ""), advisory("c", "malicious", "")];
    let active: Vec<String> = active_advisories(&all).into_iter().map(|a| a.package).collect();
    assert_eq!(active, vec!["b".to_string(), "c".to_string()]);
}

#[test]
fn endpoints_and_files() {
    let base = "https://api.thecinderproject.qd.je/cpac-trust-db/api";
    assert_eq!(advisories_url(), format!("{}/advisories", base));
    assert_eq!(snapshots_url(), format!("{}/snapshots", base));
    assert_eq!(advisories_since_url("T"), format!("{}/advisories?updated_at=gt.T", base));
    assert_eq!(snapshots_since_url("T"), format!("{}/snapshots?last_seen=gt.T", base));
    if let Ok(dir) = trust_db_dir() {
        assert!(dir.ends_with(".cpac/trust-db"));
    }
    assert_eq!(stored_token("  abc-123\n"), Some("abc-123".to_string()));
    assert_eq!(stored_token(" \n"), None);
}

#[test]
fn package_known_only_from_an_advisory() {
    let a = advisory("ghost-pkg", "confirmed", "steals tokens");
    let p = cpac::trust_db::advisory_package(&a);
    assert_eq!(p.name, "ghost-pkg");
    assert_eq!(p.version, "unknown");
    assert_eq!(p.description, "steals tokens");
    assert!(matches!(p.source, cpac::backends::PackageSource::Unknown));
    assert_eq!(p.maintainer.as_deref(), Some("someone"));
    assert!(p.licenses.is_empty() && p.url.is_none() && !p.orphan);
}
