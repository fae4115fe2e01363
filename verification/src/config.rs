//! User configuration: its settings, how each command changes them, and
//! where the files live.
//!
//! Reading and writing `~/.cpac/config.toml` is the caller's part: these
//! functions take the loaded configuration (or its absence) and say what it
//! becomes.

use vstd::prelude::*;
use crate::text::{ends_with, owned, push_str, to_chars};

verus! {

/// How much of a PKGBUILD the user agrees to submit.
#[derive(Debug, Clone, Copy, PartialEq, Eq, Structural)]
pub enum ConsentLevel {
    /// Don't submit anything (`none` in the configuration file).
    NoSubmission,
    /// Submit hash/signature only.
    Hash,
    /// Submit full PKGBUILD text.
    Full,
}

impl ConsentLevel {
    /// The display name of the level.
    pub fn label(self) -> (r: &'static str)
        ensures
            r@ == match self {
                ConsentLevel::NoSubmission => "No submission"@,
                ConsentLevel::Hash => "Hash/signature only"@,
                ConsentLevel::Full => "Full PKGBUILD"@,
            },
    {
        match self {
            ConsentLevel::NoSubmission => "No submission",
            ConsentLevel::Hash => "Hash/signature only",
            ConsentLevel::Full => "Full PKGBUILD",
        }
    }

    /// The level chosen by its menu number (1 to 3).
    pub fn from_number(n: u8) -> (r: Option<Self>)
        ensures
            r == if n == 1 {
                Some(ConsentLevel::NoSubmission)
            } else if n == 2 {
                Some(ConsentLevel::Hash)
            } else if n == 3 {
                Some(ConsentLevel::Full)
            } else {
                None::<ConsentLevel>
            },
    {
        match n {
            1 => Some(ConsentLevel::NoSubmission),
            2 => Some(ConsentLevel::Hash),
            3 => Some(ConsentLevel::Full),
            _ => None,
        }
    }
}

impl Default for ConsentLevel {
    fn default() -> (r: Self)
        ensures
            r == ConsentLevel::Hash,
    {
        ConsentLevel::Hash
    }
}

/// How often the package cache is cleared.
#[derive(Debug, Clone, Copy, PartialEq, Eq, Structural)]
pub enum CacheInterval {
    Daily,
    Weekly,
    Monthly,
}

/// The length of an interval in seconds (a month is 30 days).
pub open spec fn interval_secs(i: CacheInterval) -> nat {
    match i {
        CacheInterval::Daily => 86400,
        CacheInterval::Weekly => 604800,
        CacheInterval::Monthly => 2592000,
    }
}

impl CacheInterval {
    /// The display name of the interval.
    pub fn label(self) -> (r: &'static str)
        ensures
            r@ == match self {
                CacheInterval::Daily => "daily"@,
                CacheInterval::Weekly => "weekly"@,
                CacheInterval::Monthly => "monthly"@,
            },
    {
        match self {
            CacheInterval::Daily => "daily",
            CacheInterval::Weekly => "weekly",
            CacheInterval::Monthly => "monthly",
        }
    }

    /// Returns the interval in seconds.
    pub fn as_secs(self) -> (r: u64)
        ensures
            r == interval_secs(self),
    {
        match self {
            CacheInterval::Daily => 86400,
            CacheInterval::Weekly => 604800,
            CacheInterval::Monthly => 2592000,
        }
    }
}

impl Default for CacheInterval {
    fn default() -> (r: Self)
        ensures
            r == CacheInterval::Monthly,
    {
        CacheInterval::Monthly
    }
}

/// The user configuration.  Times are UNIX timestamps in seconds.
#[derive(Debug)]
pub struct Config {
    pub aur_enabled: bool,
    pub consent: ConsentLevel,
    pub cache_interval: CacheInterval,
    pub last_cache_clear: u64,
    pub first_run_done: bool,
    pub last_update_check: u64,
    pub cached_latest_version: Option<String>,
}

/// The AUR is disabled until the user turns it on: without a configuration,
/// or with one that does not say, it stays off.
pub fn default_aur_enabled() -> (b: bool)
    ensures
        !b,
{
    false
}

/// The configuration of a fresh installation.
pub open spec fn fresh_config(c: Config) -> bool {
    &&& !c.aur_enabled
    &&& c.consent == ConsentLevel::Hash
    &&& c.cache_interval == CacheInterval::Monthly
    &&& c.last_cache_clear == 0
    &&& !c.first_run_done
    &&& c.last_update_check == 0
    &&& c.cached_latest_version is None
}

impl Default for Config {
    fn default() -> (c: Self)
        ensures
            fresh_config(c),
    {
        Config {
            aur_enabled: default_aur_enabled(),
            consent: ConsentLevel::default(),
            cache_interval: CacheInterval::default(),
            last_cache_clear: 0,
            first_run_done: false,
            last_update_check: 0,
            cached_latest_version: None,
        }
    }
}

/// Enables or disables the AUR.
pub fn set_aur_enabled(config: &mut Config, enabled: bool)
    ensures
        *final(config) == (Config { aur_enabled: enabled, ..*old(config) }),
{
    config.aur_enabled = enabled;
}

/// Whether the AUR is enabled; a configuration that could not be loaded
/// counts as disabled.
pub fn is_aur_enabled(loaded: Option<&Config>) -> (b: bool)
    ensures
        b == match loaded {
            Some(c) => c.aur_enabled,
            None => false,
        },
{
    match loaded {
        Some(c) => c.aur_enabled,
        None => false,
    }
}

/// Sets the submission consent.
pub fn set_consent(config: &mut Config, consent: ConsentLevel)
    ensures
        *final(config) == (Config { consent, ..*old(config) }),
{
    config.consent = consent;
}

/// Sets the cache clearing interval.
pub fn set_cache_interval(config: &mut Config, interval: CacheInterval)
    ensures
        *final(config) == (Config { cache_interval: interval, ..*old(config) }),
{
    config.cache_interval = interval;
}

/// Whether the cache is due for clearing at `now`: more than the configured
/// interval has passed since the last clearing (a clock before it counts as
/// no time passed).
pub open spec fn cache_due(c: Config, now: u64) -> bool {
    (if now >= c.last_cache_clear { now - c.last_cache_clear } else { 0 }) > interval_secs(c.cache_interval)
}

/// Check if the cache should be cleared at `now` based on the configured
/// interval.  When it is due, the clearing is recorded at `now` and `true`
/// is returned (the caller then clears the cache and saves); otherwise the
/// configuration is left as it is.
pub fn maybe_clear_cache(config: &mut Config, now: u64) -> (cleared: bool)
    ensures
        cleared == cache_due(*old(config), now),
        cleared ==> *final(config) == (Config { last_cache_clear: now, ..*old(config) }),
        !cleared ==> *final(config) == *old(config),
{
    let interval = config.cache_interval.as_secs();
    if now.saturating_sub(config.last_cache_clear) > interval {
        config.last_cache_clear = now;
        true
    } else {
        false
    }
}

/// Mark the first-run consent prompt as completed.
pub fn mark_first_run_done(config: &mut Config)
    ensures
        *final(config) == (Config { first_run_done: true, ..*old(config) }),
{
    config.first_run_done = true;
}

/// Whether the first-run consent prompt has been shown; a configuration that
/// could not be loaded counts as not shown.
pub fn is_first_run_done(loaded: Option<&Config>) -> (b: bool)
    ensures
        b == match loaded {
            Some(c) => c.first_run_done,
            None => false,
        },
{
    match loaded {
        Some(c) => c.first_run_done,
        None => false,
    }
}

/// Calls `SystemTime::now()`, measures it from the UNIX epoch (a clock before
/// the epoch gives 0) and returns whole seconds.  The result depends on the
/// clock: nothing is stated of it.
#[verifier::external_body]
pub fn now_secs() -> (r: u64) {
    std::time::SystemTime::now().duration_since(std::time::UNIX_EPOCH).unwrap_or_default().as_secs()
}

/// Record at `now` that we checked for updates, with the latest version
/// found.
pub fn set_update_check(config: &mut Config, latest_version: &str, now: u64)
    ensures
        final(config).last_update_check == now,
        final(config).cached_latest_version matches Some(v) && v@ == latest_version@,
        final(config).aur_enabled == old(config).aur_enabled,
        final(config).consent == old(config).consent,
        final(config).cache_interval == old(config).cache_interval,
        final(config).last_cache_clear == old(config).last_cache_clear,
        final(config).first_run_done == old(config).first_run_done,
{
    config.last_update_check = now;
    config.cached_latest_version = Some(owned(latest_version));
}

// ───────────────────────────── paths ─────────────────────────────

/// `rel` appended to the directory `base` as `Path::join` appends a relative
/// path: with a `'/'` between them unless `base` is empty or already ends
/// with one.
pub open spec fn join_path(base: Seq<char>, rel: Seq<char>) -> Seq<char> {
    if base.len() == 0 || ends_with(base, "/"@) { base + rel } else { base + "/"@ + rel }
}

/// `rel` appended to the directory `base`.
pub fn join(base: &str, rel: &str) -> (r: String)
    ensures
        r@ == join_path(base@, rel@),
{
    let b = to_chars(base);
    let mut r = owned(base);
    if b.len() == 0 || b[b.len() - 1] == '/' {
        push_str(&mut r, rel);
        proof {
            if b@.len() > 0 {
                reveal_strlit("/");
                assert(b@.subrange(b@.len() - 1, b@.len() as int) =~= "/"@);
            }
        }
    } else {
        push_str(&mut r, "/");
        push_str(&mut r, rel);
        proof {
            reveal_strlit("/");
            if ends_with(b@, "/"@) {
                assert(b@.subrange(b@.len() - 1, b@.len() as int)[0] == b@[b@.len() - 1]);
            }
        }
    }
    r
}

/// Calls `dirs::home_dir` and converts the path to text lossily.  The result
/// depends on the environment: nothing is stated of it.
#[verifier::external_body]
pub(crate) fn home_dir_text() -> (r: Option<String>) {
    dirs::home_dir().map(|p| p.to_string_lossy().to_string())
}

/// The error given when the home directory cannot be found.
pub open spec fn no_home_error() -> Seq<char> {
    "Could not get home directory"@
}

/// `rel` under the home directory, or the error when there is no home
/// directory.
pub(crate) fn under_home(rel: &str) -> (r: Result<String, String>)
    ensures
        match r {
            Ok(p) => exists|home: Seq<char>| p@ == join_path(home, rel@),
            Err(e) => e@ == no_home_error(),
        },
{
    match home_dir_text() {
        Some(h) => Ok(join(h.as_str(), rel)),
        None => Err(owned("Could not get home directory")),
    }
}

/// The configuration file, `~/.cpac/config.toml`, given the home directory.
pub fn config_path_in(home: &str) -> (r: String)
    ensures
        r@ == join_path(home@, ".cpac/config.toml"@),
{
    join(home, ".cpac/config.toml")
}

/// Return the path to the config file.
pub fn path() -> (r: Result<String, String>)
    ensures
        match r {
            Ok(p) => exists|home: Seq<char>| p@ == join_path(home, ".cpac/config.toml"@),
            Err(e) => e@ == no_home_error(),
        },
{
    under_home(".cpac/config.toml")
}


// ───────────────────────────── laws ─────────────────────────────

/// Once the cache has been cleared at `now`, it is not due again at `now`.
pub proof fn law_cache_clear_once(c: Config, now: u64)
    ensures
        !cache_due(Config { last_cache_clear: now, ..c }, now),
{
}

} // verus!
