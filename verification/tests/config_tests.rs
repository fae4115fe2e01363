use cpac::config::{
    config_path_in, default_aur_enabled, is_aur_enabled, is_first_run_done, join,
    mark_first_run_done, maybe_clear_cache, set_aur_enabled, set_cache_interval, set_consent,
    set_update_check, CacheInterval, Config, ConsentLevel,
};

#[test]
fn consent_levels() {
    assert_eq!(ConsentLevel::NoSubmission.label(), "No submission");
    assert_eq!(ConsentLevel::Hash.label(), "Hash/signature only");
    assert_eq!(ConsentLevel::Full.label(), "Full PKGBUILD");
    assert_eq!(ConsentLevel::from_number(1), Some(ConsentLevel::NoSubmission));
    assert_eq!(ConsentLevel::from_number(2), Some(ConsentLevel::Hash));
    assert_eq!(ConsentLevel::from_number(3), Some(ConsentLevel::Full));
    assert_eq!(ConsentLevel::from_number(0), None);
    assert_eq!(ConsentLevel::from_number(4), None);
    assert_eq!(ConsentLevel::default(), ConsentLevel::Hash);
}

#[test]
fn cache_intervals() {
    assert_eq!(CacheInterval::Daily.label(), "daily");
    assert_eq!(CacheInterval::Weekly.label(), "weekly");
    assert_eq!(CacheInterval::Monthly.label(), "monthly");
    assert_eq!(CacheInterval::Daily.as_secs(), 86400);
    assert_eq!(CacheInterval::Weekly.as_secs(), 604800);
    assert_eq!(CacheInterval::Monthly.as_secs(), 2592000);
    assert_eq!(CacheInterval::default(), CacheInterval::Monthly);
}

#[test]
fn fresh_configuration() {
    let c = Config::default();
    assert!(!default_aur_enabled());
    assert!(!c.aur_enabled);
    assert_eq!(c.consent, ConsentLevel::Hash);
    assert_eq!(c.cache_interval, CacheInterval::Monthly);
    assert_eq!(c.last_cache_clear, 0);
    assert!(!c.first_run_done);
    assert_eq!(c.last_update_check, 0);
    assert!(c.cached_latest_version.is_none());
}

#[test]
fn settings_change_one_field() {
    let mut c = Config::default();
    set_aur_enabled(&mut c, false);
    assert!(!c.aur_enabled);
    assert!(!is_aur_enabled(Some(&c)));
    assert!(!is_aur_enabled(None));
    set_aur_enabled(&mut c, true);
    assert!(is_aur_enabled(Some(&c)));
    set_consent(&mut c, ConsentLevel::Full);
    assert_eq!(c.consent, ConsentLevel::Full);
    set_cache_interval(&mut c, CacheInterval::Daily);
    assert_eq!(c.cache_interval, CacheInterval::Daily);
    assert!(!is_first_run_done(Some(&c)));
    mark_first_run_done(&mut c);
    assert!(is_first_run_done(Some(&c)));
    assert!(!is_first_run_done(None));
    set_update_check(&mut c, "1.2.0", 5000);
    assert_eq!(c.last_update_check, 5000);
    assert_eq!(c.cached_latest_version.as_deref(), Some("1.2.0"));
}

#[test]
fn cache_clearing_follows_the_interval() {
    let mut c = Config::default();
    set_cache_interval(&mut c, CacheInterval::Daily);
    c.last_cache_clear = 1000;
    assert!(!maybe_clear_cache(&mut c, 1000 + 86400));
    assert_eq!(c.last_cache_clear, 1000);
    assert!(maybe_clear_cache(&mut c, 1000 + 86401));
    assert_eq!(c.last_cache_clear, 1000 + 86401);
    assert!(!maybe_clear_cache(&mut c, 1000 + 86401));
    // A clock before the last clearing counts as no time passed.
    assert!(!maybe_clear_cache(&mut c, 5));
}

#[test]
fn paths_join_like_path_join() {
    assert_eq!(join("/home/u", "x"), "/home/u/x");
    assert_eq!(join("/home/u/", "x"), "/home/u/x");
    assert_eq!(join("", "x"), "x");
    assert_eq!(config_path_in("/home/u"), "/home/u/.cpac/config.toml");
}
