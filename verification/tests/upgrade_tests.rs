use cpac::config::Config;
use cpac::upgrade::{
    check_for_update, current_version, first_release_tag, is_newer, owner_can_write,
    update_from_tag, GhRelease, UpdateCheck,
};

fn release(tag: &str, draft: bool) -> GhRelease {
    GhRelease { tag_name: tag.to_string(), prerelease: false, draft }
}

#[test]
fn version_comparison() {
    assert!(is_newer("0.8.1", "0.8.0"));
    assert!(!is_newer("0.8.0", "0.8.1"));
    assert!(!is_newer("1.0.0", "1.0.0"));
    assert!(is_newer("1.0.10", "1.0.9"));
    assert!(is_newer("v1.1", "1.0.5"));
    assert!(is_newer("1.0.0.1", "1.0.0"));
    assert!(!is_newer("1.0", "1.0.0"));
    // Pieces that are not numbers are skipped.
    assert!(!is_newer("1.x.0", "1.0"));
    assert!(is_newer("2.+3", "2.2"));
    assert!(!is_newer("99999999999.0", "1.0"));
}

#[test]
fn this_release() {
    assert_eq!(current_version(), "1.0.0");
}

#[test]
fn recent_checks_decide_from_the_cache() {
    let mut cfg = Config::default();
    cfg.last_update_check = 10_000;
    cfg.cached_latest_version = Some("1.2.0".to_string());
    match check_for_update(Some(&cfg), 10_000 + 86_399) {
        UpdateCheck::Known(Some(info)) => {
            assert_eq!(info.latest_version, "1.2.0");
            assert_eq!(info.current_version, "1.0.0");
        },
        _ => panic!("a cached newer version is offered"),
    }
    cfg.cached_latest_version = Some("1.0.0".to_string());
    assert!(matches!(check_for_update(Some(&cfg), 10_001), UpdateCheck::Known(None)));
    cfg.cached_latest_version = None;
    assert!(matches!(check_for_update(Some(&cfg), 10_001), UpdateCheck::Known(None)));
    assert!(matches!(check_for_update(Some(&cfg), 10_000 + 86_400), UpdateCheck::FetchLatest));
    assert!(matches!(check_for_update(None, 0), UpdateCheck::FetchLatest));
}

#[test]
fn fetched_tags_are_read_without_their_v() {
    let (version, info) = update_from_tag("v1.3.0");
    assert_eq!(version, "1.3.0");
    assert_eq!(info.unwrap().latest_version, "1.3.0");
    let (version, info) = update_from_tag("vv0.9.0");
    assert_eq!(version, "0.9.0");
    assert!(info.is_none());
}

#[test]
fn first_published_release() {
    let rs = vec![release("v2.0.0", true), release("v1.9.0", false), release("v1.8.0", false)];
    assert_eq!(first_release_tag(&rs), Some("v1.9.0".to_string()));
    assert_eq!(first_release_tag(&vec![release("v2", true)]), None);
}

#[test]
fn write_permission_bit() {
    assert!(owner_can_write(0o755));
    assert!(!owner_can_write(0o555));
}
