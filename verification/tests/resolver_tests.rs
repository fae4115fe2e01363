use cpac::backends::{PackageInfo, PackageSource};
use cpac::resolver::{
    expired_at, fetches_pkgbuild, filter_cached_search, info_cache_key, merge_search_results,
    pkgbuild_cache_key, relevance_rank, search_cache_key, source_rank, trust_cache_key,
    use_cached_info, CachedEntry, INFO_CACHE_TTL_SECS, SEARCH_CACHE_TTL_SECS,
};

fn pkg(name: &str, description: &str, source: PackageSource) -> PackageInfo {
    PackageInfo {
        name: name.to_string(),
        version: "1".to_string(),
        description: description.to_string(),
        source,
        maintainer: None,
        votes: None,
        popularity_bits: None,
        first_submitted: None,
        last_modified: None,
        out_of_date: false,
        orphan: false,
        url: None,
        licenses: vec![],
        depends: vec![],
        install_size: None,
    }
}

fn official(name: &str, description: &str) -> PackageInfo {
    pkg(name, description, PackageSource::Official { repo: "extra".to_string() })
}

#[test]
fn relevance_ranks() {
    assert_eq!(relevance_rank("Firefox", "", "firefox"), 0);
    assert_eq!(relevance_rank("firefox-nightly", "", "firefox"), 1);
    assert_eq!(relevance_rank("libfirefox", "", "firefox"), 2);
    assert_eq!(relevance_rank("browser", "A FIREFOX fork", "firefox"), 3);
    assert_eq!(relevance_rank("vim", "editor", "firefox"), 4);
}

#[test]
fn source_ranks() {
    assert_eq!(source_rank(&PackageSource::Official { repo: "core".to_string() }), 0);
    assert_eq!(source_rank(&PackageSource::ThirdParty), 1);
    assert_eq!(source_rank(&PackageSource::Aur), 2);
    assert_eq!(source_rank(&PackageSource::Unknown), 3);
}

#[test]
fn merged_results_prefer_repositories_and_rank() {
    let aur = vec![
        pkg("firefox", "aur build", PackageSource::Aur),
        pkg("firefox-bin", "binary", PackageSource::Aur),
        pkg("fox-tools", "has firefox helpers", PackageSource::Aur),
    ];
    let repos = vec![official("firefox", "the browser"), official("firefox-i18n", "languages")];
    let r = merge_search_results(&aur, &repos, "FireFox");
    let names: Vec<&str> = r.iter().map(|p| p.name.as_str()).collect();
    assert_eq!(names, vec!["firefox", "firefox-i18n", "firefox-bin", "fox-tools"]);
    assert_eq!(r[0].description, "the browser");
    assert!(matches!(r[0].source, PackageSource::Official { .. }));
}

#[test]
fn merged_results_keep_the_last_listing_of_a_name() {
    let aur = vec![pkg("a", "first", PackageSource::Aur), pkg("a", "second", PackageSource::Aur)];
    let r = merge_search_results(&aur, &vec![], "a");
    assert_eq!(r.len(), 1);
    assert_eq!(r[0].description, "second");
    assert!(merge_search_results(&vec![], &vec![], "x").is_empty());
}

#[test]
fn cache_rules() {
    assert_eq!(SEARCH_CACHE_TTL_SECS, 3600);
    assert_eq!(INFO_CACHE_TTL_SECS, 86400);
    assert!(!expired_at(100, 3600, 3700));
    assert!(expired_at(100, 3600, 3701));
    assert!(!expired_at(5000, 10, 0));
    let fresh = CachedEntry::new(7u8);
    assert_eq!(fresh.data, 7);
    assert!(!fresh.is_expired(3600));
    let old = CachedEntry { timestamp_secs: 0, data: () };
    assert!(old.is_expired(3600));
    assert!(use_cached_info(false, true, &PackageSource::Aur));
    assert!(!use_cached_info(false, false, &PackageSource::Aur));
    assert!(use_cached_info(false, false, &PackageSource::ThirdParty));
    assert!(!use_cached_info(true, true, &PackageSource::ThirdParty));
    assert!(fetches_pkgbuild(&PackageSource::Aur));
    assert!(!fetches_pkgbuild(&PackageSource::Official { repo: "core".to_string() }));
}

#[test]
fn cached_searches_hide_the_aur_when_disabled() {
    let data = vec![official("a", ""), pkg("b", "", PackageSource::Aur), pkg("c", "", PackageSource::ThirdParty)];
    let all = filter_cached_search(&data, true);
    assert_eq!(all.len(), 3);
    let some = filter_cached_search(&data, false);
    let names: Vec<&str> = some.iter().map(|p| p.name.as_str()).collect();
    assert_eq!(names, vec!["a", "c"]);
}

#[test]
fn cache_keys() {
    assert_eq!(search_cache_key("vim"), "search:vim");
    assert_eq!(info_cache_key("vim"), "info:vim");
    assert_eq!(trust_cache_key("vim", "9.1-1"), "trust:vim-9.1-1");
    assert_eq!(pkgbuild_cache_key("vim"), "pkgbuild:vim");
}
