//! The explainable trust score: every package gets a score from 0 to 100
//! built from named signals, a tier from its source, and a recommendation.

pub mod diff;

pub use diff::{analyze_pkgbuild_diff, diff_lines, diff_to_signals, PkgbuildDiff};



use vstd::prelude::*;
use crate::backends::{PackageInfo, PackageSource};
use crate::text::{decimal, has_char, int_decimal, owned, push_chars, push_decimal, push_str, to_chars, contains_char};

verus! {

/// Trust tier classification.
#[derive(Debug, Clone, Copy, PartialEq, Eq, Structural)]
pub enum TrustTier {
    Official,
    ThirdParty,
    Community,
    Unknown,
}

impl TrustTier {
    /// The display name of the tier.
    pub fn label(&self) -> (r: &'static str)
        ensures
            r@ == tier_label(*self),
    {
        match self {
            TrustTier::Official => "Official",
            TrustTier::ThirdParty => "Third Party",
            TrustTier::Community => "Community",
            TrustTier::Unknown => "Unknown",
        }
    }
}

/// The display name of a tier.
pub open spec fn tier_label(t: TrustTier) -> Seq<char> {
    match t {
        TrustTier::Official => "Official"@,
        TrustTier::ThirdParty => "Third Party"@,
        TrustTier::Community => "Community"@,
        TrustTier::Unknown => "Unknown"@,
    }
}

/// A single signal contributing to the trust score.
#[derive(Debug)]
pub struct TrustSignal {
    pub name: String,
    pub points: i32,
    pub max_points: i32,
    pub detail: String,
}

/// Full trust analysis report for a package.
#[derive(Debug)]
pub struct TrustReport {
    pub package_name: String,
    pub tier: TrustTier,
    pub score: u32,
    pub signals: Vec<TrustSignal>,
    pub recommendation: String,
}

/// A signal as plain values: name, points, maximum points, detail.
pub type SignalModel = (Seq<char>, int, int, Seq<char>);

/// The plain values of a signal.
pub open spec fn signal_model(s: TrustSignal) -> SignalModel {
    (s.name@, s.points as int, s.max_points as int, s.detail@)
}

/// The plain values of a list of signals.
pub open spec fn signal_models(v: Seq<TrustSignal>) -> Seq<SignalModel> {
    Seq::new(v.len(), |i: int| signal_model(v[i]))
}

/// A signal with the given values.
pub fn make_signal(name: &str, points: i32, max_points: i32, detail: String) -> (s: TrustSignal)
    ensures
        signal_model(s) == (name@, points as int, max_points as int, detail@),
{
    TrustSignal { name: owned(name), points, max_points, detail }
}

// ───────────────────────────── scoring rules ─────────────────────────────

/// The tier a source belongs to.
pub open spec fn tier_of(s: PackageSource) -> TrustTier {
    match s {
        PackageSource::Official { .. } => TrustTier::Official,
        PackageSource::Aur => TrustTier::Community,
        PackageSource::ThirdParty => TrustTier::ThirdParty,
        PackageSource::Unknown => TrustTier::Unknown,
    }
}

/// Points for the repository source (at most 30).
pub open spec fn source_points(s: PackageSource) -> int {
    match s {
        PackageSource::Official { .. } => 30,
        PackageSource::ThirdParty => 15,
        PackageSource::Aur => 5,
        PackageSource::Unknown => -5,
    }
}

/// Explanation of the repository source.
pub open spec fn source_detail(s: PackageSource) -> Seq<char> {
    match s {
        PackageSource::Official { repo } => "Official repository ("@ + repo@ + ")"@,
        PackageSource::Aur => "AUR — community maintained"@,
        PackageSource::ThirdParty => "Third-party repository"@,
        PackageSource::Unknown => "Unknown source"@,
    }
}

/// Points by package age in days (at most 15).
pub open spec fn age_points(days: int) -> int {
    if 0 <= days <= 30 { 2 }
    else if 31 <= days <= 180 { 5 }
    else if 181 <= days <= 365 { 8 }
    else if 366 <= days <= 730 { 11 }
    else if 731 <= days <= 1825 { 14 }
    else { 15 }
}

/// Points when no age is known.
pub open spec fn unknown_age_points(s: PackageSource) -> int {
    match s {
        PackageSource::Official { .. } => 13,
        PackageSource::ThirdParty => 8,
        PackageSource::Aur => 5,
        PackageSource::Unknown => 5,
    }
}

/// Points by AUR vote count (at most 15).
pub open spec fn vote_points(votes: int) -> int {
    if 0 <= votes <= 5 { 2 }
    else if 6 <= votes <= 25 { 5 }
    else if 26 <= votes <= 100 { 8 }
    else if 101 <= votes <= 500 { 11 }
    else if 501 <= votes <= 2000 { 13 }
    else { 15 }
}

/// Points by days since the last update (at most 15).
pub open spec fn recency_points(days: int) -> int {
    if 0 <= days <= 7 { 15 }
    else if 8 <= days <= 30 { 13 }
    else if 31 <= days <= 90 { 11 }
    else if 91 <= days <= 180 { 8 }
    else if 181 <= days <= 365 { 5 }
    else if 366 <= days <= 730 { 3 }
    else { 1 }
}

/// Points for maintainer, popularity or recency when unknown.
pub open spec fn unknown_maintainer_points(s: PackageSource) -> int {
    match s {
        PackageSource::Official { .. } => 10,
        _ => 5,
    }
}

/// Points for popularity or recency when unknown.
pub open spec fn unknown_metadata_points(s: PackageSource) -> int {
    match s {
        PackageSource::Official { .. } => 12,
        _ => 5,
    }
}

/// Points for a known maintainer: packagers with an address or official
/// packagers get more.
pub open spec fn maintainer_points(m: Seq<char>, s: PackageSource) -> int {
    if has_char(m, '@') || s is Official { 13 } else { 10 }
}

/// Whole days from `then` (a timestamp in seconds) to the clock reading
/// `now` (seconds and nanoseconds), truncated toward zero.
pub open spec fn elapsed_days(now: (i64, u32), then: i64) -> int {
    let d0 = now.0 as int - then as int;
    let d = if d0 < 0 && now.1 > 0 { d0 + 1 } else { d0 };
    if d >= 0 { d / 86400 } else { -((-d) / 86400) }
}

/// A month count as text.
pub open spec fn months_text(m: int, suffix: Seq<char>) -> Seq<char> {
    if m == 1 { "1 month"@ + suffix } else { int_decimal(m) + " months"@ + suffix }
}

/// Human-readable age for a day count.
pub open spec fn age_text(days: int) -> Seq<char> {
    if days < 1 {
        "Less than a day"@
    } else if days < 30 {
        int_decimal(days) + " days"@
    } else if days < 365 {
        months_text(days / 30, Seq::empty())
    } else {
        let years = days / 365;
        let rem = (days % 365) / 30;
        if rem == 0 {
            if years == 1 { "1 year"@ } else { int_decimal(years) + " years"@ }
        } else if years == 1 {
            "1 year, "@ + int_decimal(rem) + " months"@
        } else {
            int_decimal(years) + " years, "@ + int_decimal(rem) + " months"@
        }
    }
}

/// Human-readable recency for a day count.
pub open spec fn recency_text(days: int) -> Seq<char> {
    if days == 0 {
        "Today"@
    } else if days == 1 {
        "Yesterday"@
    } else if days < 30 {
        int_decimal(days) + " days ago"@
    } else if days < 365 {
        months_text(days / 30, " ago"@)
    } else {
        let years = days / 365;
        if years == 1 { "1 year ago"@ } else { int_decimal(years) + " years ago"@ }
    }
}

/// The package-age signal.
pub open spec fn age_signal(p: PackageInfo, now: (i64, u32)) -> SignalModel {
    match p.first_submitted {
        Some(t) => ("Package Age"@, age_points(elapsed_days(now, t)), 15, age_text(elapsed_days(now, t))),
        None => ("Package Age"@, unknown_age_points(p.source), 15, "Metadata unavailable"@),
    }
}

/// The maintainer signal.
pub open spec fn maintainer_signal(p: PackageInfo) -> SignalModel {
    if p.orphan {
        ("Maintainer"@, -10, 15, "Orphaned — no active maintainer"@)
    } else {
        match p.maintainer {
            Some(m) => ("Maintainer"@, maintainer_points(m@, p.source), 15, "Maintained by "@ + m@),
            None => ("Maintainer"@, unknown_maintainer_points(p.source), 15, "Metadata unavailable"@),
        }
    }
}

/// The popularity signal.
pub open spec fn popularity_signal(p: PackageInfo) -> SignalModel {
    match p.votes {
        Some(v) => ("Popularity"@, vote_points(v as int), 15, decimal(v as nat) + " votes"@),
        None => ("Popularity"@, unknown_metadata_points(p.source), 15, "Metadata unavailable"@),
    }
}

/// The last-updated signal.
pub open spec fn recency_signal(p: PackageInfo, now: (i64, u32)) -> SignalModel {
    match p.last_modified {
        Some(t) => ("Last Updated"@, recency_points(elapsed_days(now, t)), 15, recency_text(elapsed_days(now, t))),
        None => ("Last Updated"@, unknown_metadata_points(p.source), 15, "Metadata unavailable"@),
    }
}

/// The out-of-date penalty signal.
pub open spec fn out_of_date_signal() -> SignalModel {
    ("Out of Date"@, -10, 0, "Package is flagged out-of-date"@)
}

/// All signals of a package at clock reading `now`, in report order.
pub open spec fn expected_signals(p: PackageInfo, now: (i64, u32)) -> Seq<SignalModel> {
    let base = seq![
        ("Repository Source"@, source_points(p.source), 30, source_detail(p.source)),
        age_signal(p, now),
        maintainer_signal(p),
        popularity_signal(p),
        recency_signal(p, now),
    ];
    if p.out_of_date { base.push(out_of_date_signal()) } else { base }
}

/// The sum of the signals' points.
pub open spec fn total_points(p: PackageInfo, now: (i64, u32)) -> int {
    let s = expected_signals(p, now);
    s[0].1 + s[1].1 + s[2].1 + s[3].1 + s[4].1 + if p.out_of_date { -10int } else { 0int }
}

/// The score: the total clamped to 0..=100.
pub open spec fn clamp_score(total: int) -> int {
    if total < 0 { 0 } else if total > 100 { 100 } else { total }
}

/// Number of signals whose metadata is missing.
pub open spec fn unknown_count(p: PackageInfo) -> int {
    (if p.first_submitted is None { 1int } else { 0int })
        + (if !p.orphan && p.maintainer is None { 1int } else { 0int })
        + (if p.votes is None { 1int } else { 0int })
        + (if p.last_modified is None { 1int } else { 0int })
}

/// Whether some signal of the analysis counts against the package.
pub open spec fn has_negative_signal(p: PackageInfo, now: (i64, u32)) -> bool {
    exists|i: int| 0 <= i < expected_signals(p, now).len() && #[trigger] expected_signals(p, now)[i].1 < 0
}

/// The recommendation label for a score.
pub open spec fn recommendation_for(score: int) -> Seq<char> {
    if 80 <= score <= 100 { "Safe"@ }
    else if 60 <= score <= 79 { "Moderate"@ }
    else if 40 <= score <= 59 { "Caution"@ }
    else if 20 <= score <= 39 { "Warning"@ }
    else { "Danger"@ }
}

/// The recommendation of an analysis: when metadata is missing but no signal
/// counts against the package, it is Safe from 80 and Moderate below.
pub open spec fn analysis_recommendation(p: PackageInfo, now: (i64, u32), score: int) -> Seq<char> {
    if !has_negative_signal(p, now) && unknown_count(p) > 0 {
        if 80 <= score { "Safe"@ } else { "Moderate"@ }
    } else {
        recommendation_for(score)
    }
}

/// `r` is the report of package `p` at clock reading `now`.
pub open spec fn report_of(r: TrustReport, p: PackageInfo, now: (i64, u32)) -> bool {
    &&& r.package_name@ == p.name@
    &&& r.tier == tier_of(p.source)
    &&& signal_models(r.signals@) == expected_signals(p, now)
    &&& r.score == clamp_score(total_points(p, now))
    &&& r.recommendation@ == analysis_recommendation(p, now, r.score as int)
}

// ───────────────────────────── clock ─────────────────────────────

/// Calls `std::time::SystemTime::now` and measures the reading from the UNIX
/// epoch with `duration_since`: `Ok` with the whole seconds and nanoseconds
/// after the epoch, or, for a clock set before it, `Err` with the whole
/// seconds and nanoseconds before it. As std documents for `Duration`, the
/// nanoseconds are below one billion; nothing else is promised of the
/// reading: it is the time.
#[verifier::external_body]
fn clock_reading() -> (r: Result<(u64, u32), (u64, u32)>)
    ensures
        match r {
            Ok((_, n)) => n < 1_000_000_000,
            Err((_, n)) => n < 1_000_000_000,
        },
{
    match std::time::SystemTime::now().duration_since(std::time::UNIX_EPOCH) {
        Ok(d) => Ok((d.as_secs(), d.subsec_nanos())),
        Err(e) => Err((e.duration().as_secs(), e.duration().subsec_nanos())),
    }
}

/// The current time as whole seconds since the UNIX epoch (rounded down, so
/// negative before it) and the nanoseconds past that second; a distance
/// beyond what an `i64` holds is cut to the nearest second it holds.
fn utc_now() -> (r: (i64, u32))
    ensures
        r.1 < 1_000_000_000,
{
    match clock_reading() {
        Ok((secs, nanos)) => {
            let s: i64 = if secs > i64::MAX as u64 { i64::MAX } else { secs as i64 };
            (s, nanos)
        },
        Err((secs, nanos)) => {
            let s: i64 = if secs >= i64::MAX as u64 { i64::MAX - 1 } else { secs as i64 };
            if nanos == 0 {
                (-s, 0)
            } else {
                (-s - 1, 1_000_000_000 - nanos)
            }
        },
    }
}

// ───────────────────────────── executable scoring ─────────────────────────────

/// Whole days from `then` to the clock reading `now`.
pub fn elapsed_days_exec(now: (i64, u32), then: i64) -> (d: i64)
    ensures
        d as int == elapsed_days(now, then),
{
    let d0: i128 = now.0 as i128 - then as i128;
    let d: i128 = if d0 < 0 && now.1 > 0 { d0 + 1 } else { d0 };
    let days: i128 = if d >= 0 { d / 86400 } else { -((-d) / 86400) };
    days as i64
}

/// Format a day count into a human-readable age string.
pub fn format_age(days: i64) -> (s: String)
    ensures
        s@ == age_text(days as int),
{
    if days < 1 {
        owned("Less than a day")
    } else if days < 30 {
        let mut s = String::new();
        push_decimal(&mut s, days);
        push_str(&mut s, " days");
        s
    } else if days < 365 {
        assert(""@ =~= Seq::<char>::empty()) by { reveal_strlit(""); }
        format_months(days / 30, "")
    } else {
        let years: i64 = days / 365;
        let rem: i64 = (days % 365) / 30;
        let mut s = String::new();
        if rem == 0 {
            if years == 1 {
                push_str(&mut s, "1 year");
            } else {
                push_decimal(&mut s, years);
                push_str(&mut s, " years");
            }
        } else if years == 1 {
            push_str(&mut s, "1 year, ");
            push_decimal(&mut s, rem);
            push_str(&mut s, " months");
        } else {
            push_decimal(&mut s, years);
            push_str(&mut s, " years, ");
            push_decimal(&mut s, rem);
            push_str(&mut s, " months");
        }
        assert(s@ =~= age_text(days as int));
        s
    }
}

/// A month count followed by `suffix`.
fn format_months(m: i64, suffix: &str) -> (s: String)
    ensures
        s@ == months_text(m as int, suffix@),
{
    let mut s = String::new();
    if m == 1 {
        push_str(&mut s, "1 month");
    } else {
        push_decimal(&mut s, m);
        push_str(&mut s, " months");
    }
    push_str(&mut s, suffix);
    s
}

/// Format a day count into a human-readable recency string.
pub fn format_recency(days: i64) -> (s: String)
    ensures
        s@ == recency_text(days as int),
{
    if days == 0 {
        owned("Today")
    } else if days == 1 {
        owned("Yesterday")
    } else if days < 30 {
        let mut s = String::new();
        push_decimal(&mut s, days);
        push_str(&mut s, " days ago");
        s
    } else if days < 365 {
        format_months(days / 30, " ago")
    } else {
        let years: i64 = days / 365;
        if years == 1 {
            owned("1 year ago")
        } else {
            let mut s = String::new();
            push_decimal(&mut s, years);
            push_str(&mut s, " years ago");
            s
        }
    }
}

/// Map a trust score to a recommendation label.
pub fn recommendation(score: u32) -> (r: &'static str)
    ensures
        r@ == recommendation_for(score as int),
{
    if 80 <= score && score <= 100 {
        "Safe"
    } else if 60 <= score && score <= 79 {
        "Moderate"
    } else if 40 <= score && score <= 59 {
        "Caution"
    } else if 20 <= score && score <= 39 {
        "Warning"
    } else {
        "Danger"
    }
}

fn source_signal(source: &PackageSource) -> (s: TrustSignal)
    ensures
        signal_model(s) == ("Repository Source"@, source_points(*source), 30int, source_detail(*source)),
{
    let (points, detail): (i32, String) = match source {
        PackageSource::Official { repo } => {
            let mut d = String::new();
            push_str(&mut d, "Official repository (");
            push_str(&mut d, repo.as_str());
            push_str(&mut d, ")");
            (30, d)
        },
        PackageSource::ThirdParty => (15, owned("Third-party repository")),
        PackageSource::Aur => (5, owned("AUR — community maintained")),
        PackageSource::Unknown => (-5, owned("Unknown source")),
    };
    make_signal("Repository Source", points, 30, detail)
}

fn age_signal_exec(p: &PackageInfo, now: (i64, u32)) -> (s: TrustSignal)
    ensures
        signal_model(s) == age_signal(*p, now),
{
    match p.first_submitted {
        Some(t) => {
            let days = elapsed_days_exec(now, t);
            let pts: i32 = if 0 <= days && days <= 30 { 2 }
                else if 31 <= days && days <= 180 { 5 }
                else if 181 <= days && days <= 365 { 8 }
                else if 366 <= days && days <= 730 { 11 }
                else if 731 <= days && days <= 1825 { 14 }
                else { 15 };
            make_signal("Package Age", pts, 15, format_age(days))
        },
        None => {
            let pts: i32 = match p.source {
                PackageSource::Official { .. } => 13,
                PackageSource::ThirdParty => 8,
                PackageSource::Aur => 5,
                PackageSource::Unknown => 5,
            };
            make_signal("Package Age", pts, 15, owned("Metadata unavailable"))
        },
    }
}

fn maintainer_signal_exec(p: &PackageInfo) -> (s: TrustSignal)
    ensures
        signal_model(s) == maintainer_signal(*p),
{
    if p.orphan {
        make_signal("Maintainer", -10, 15, owned("Orphaned — no active maintainer"))
    } else {
        match &p.maintainer {
            Some(m) => {
                let mv = to_chars(m.as_str());
                let official = match p.source {
                    PackageSource::Official { .. } => true,
                    _ => false,
                };
                let pts: i32 = if contains_char(mv.as_slice(), '@') || official { 13 } else { 10 };
                let mut d = String::new();
                push_str(&mut d, "Maintained by ");
                push_str(&mut d, m.as_str());
                make_signal("Maintainer", pts, 15, d)
            },
            None => {
                let pts: i32 = match p.source {
                    PackageSource::Official { .. } => 10,
                    _ => 5,
                };
                make_signal("Maintainer", pts, 15, owned("Metadata unavailable"))
            },
        }
    }
}

fn popularity_signal_exec(p: &PackageInfo) -> (s: TrustSignal)
    ensures
        signal_model(s) == popularity_signal(*p),
{
    match p.votes {
        Some(v) => {
            let pts: i32 = if v <= 5 { 2 }
                else if 6 <= v && v <= 25 { 5 }
                else if 26 <= v && v <= 100 { 8 }
                else if 101 <= v && v <= 500 { 11 }
                else if 501 <= v && v <= 2000 { 13 }
                else { 15 };
            let mut d = String::new();
            push_decimal(&mut d, v as i64);
            push_str(&mut d, " votes");
            make_signal("Popularity", pts, 15, d)
        },
        None => {
            let pts: i32 = match p.source {
                PackageSource::Official { .. } => 12,
                _ => 5,
            };
            make_signal("Popularity", pts, 15, owned("Metadata unavailable"))
        },
    }
}

fn recency_signal_exec(p: &PackageInfo, now: (i64, u32)) -> (s: TrustSignal)
    ensures
        signal_model(s) == recency_signal(*p, now),
{
    match p.last_modified {
        Some(t) => {
            let days = elapsed_days_exec(now, t);
            let pts: i32 = if 0 <= days && days <= 7 { 15 }
                else if 8 <= days && days <= 30 { 13 }
                else if 31 <= days && days <= 90 { 11 }
                else if 91 <= days && days <= 180 { 8 }
                else if 181 <= days && days <= 365 { 5 }
                else if 366 <= days && days <= 730 { 3 }
                else { 1 };
            make_signal("Last Updated", pts, 15, format_recency(days))
        },
        None => {
            let pts: i32 = match p.source {
                PackageSource::Official { .. } => 12,
                _ => 5,
            };
            make_signal("Last Updated", pts, 15, owned("Metadata unavailable"))
        },
    }
}

/// Compute the trust report of a package at the clock reading `now`
/// (whole seconds since the UNIX epoch, and nanoseconds past that second).
pub fn analyze_at(p: &PackageInfo, now: (i64, u32)) -> (r: TrustReport)
    ensures
        report_of(r, *p, now),
{
    let tier = match p.source {
        PackageSource::Official { .. } => TrustTier::Official,
        PackageSource::Aur => TrustTier::Community,
        PackageSource::ThirdParty => TrustTier::ThirdParty,
        PackageSource::Unknown => TrustTier::Unknown,
    };
    let s0 = source_signal(&p.source);
    let s1 = age_signal_exec(p, now);
    let s2 = maintainer_signal_exec(p);
    let s3 = popularity_signal_exec(p);
    let s4 = recency_signal_exec(p, now);
    let mut total: i32 = s0.points + s1.points + s2.points + s3.points + s4.points;
    let mut signals: Vec<TrustSignal> = Vec::new();
    signals.push(s0);
    signals.push(s1);
    signals.push(s2);
    signals.push(s3);
    signals.push(s4);
    if p.out_of_date {
        signals.push(make_signal("Out of Date", -10, 0, owned("Package is flagged out-of-date")));
        total = total - 10;
    }
    assert(signal_models(signals@) =~= expected_signals(*p, now));
    let unknown: u32 = (if p.first_submitted.is_none() { 1u32 } else { 0 })
        + (if !p.orphan && p.maintainer.is_none() { 1u32 } else { 0 })
        + (if p.votes.is_none() { 1u32 } else { 0 })
        + (if p.last_modified.is_none() { 1u32 } else { 0 });
    let negative = p.orphan || p.out_of_date || matches!(p.source, PackageSource::Unknown);
    proof { lemma_negative_signal(*p, now); }
    let score: u32 = if total < 0 { 0 } else if total > 100 { 100 } else { total as u32 };
    let rec: &str = if !negative && unknown > 0 {
        if 80 <= score { "Safe" } else { "Moderate" }
    } else {
        recommendation(score)
    };
    TrustReport {
        package_name: p.name.clone(),
        tier,
        score,
        signals,
        recommendation: owned(rec),
    }
}

/// Compute the trust report of a package now.  The report is that of some
/// clock reading: the moment of the call.
pub fn analyze(p: &PackageInfo) -> (r: TrustReport)
    ensures
        exists|now: (i64, u32)| report_of(r, *p, now),
{
    let now = utc_now();
    analyze_at(p, now)
}

// ───────────────────────────── rescoring ─────────────────────────────

/// The sum of the points of signals.
pub open spec fn points_total(v: Seq<SignalModel>) -> int
    decreases v.len(),
{
    if v.len() == 0 { 0 } else { points_total(v.drop_last()) + v.last().1 }
}

/// Every running sum of the signals' points fits in an `i32`.
pub open spec fn sums_fit(v: Seq<SignalModel>) -> bool {
    forall|k: int| 0 <= k <= v.len() ==> i32::MIN <= #[trigger] points_total(v.subrange(0, k)) <= i32::MAX
}

/// Adds signals to a report: the score becomes the clamped sum of all the
/// points, and the recommendation the one of that score.
pub fn rescore(report: &mut TrustReport, extra: Vec<TrustSignal>)
    requires
        sums_fit(signal_models(old(report).signals@) + signal_models(extra@)),
    ensures
        final(report).package_name == old(report).package_name,
        final(report).tier == old(report).tier,
        signal_models(final(report).signals@) == signal_models(old(report).signals@) + signal_models(extra@),
        final(report).score == clamp_score(points_total(signal_models(final(report).signals@))),
        final(report).recommendation@ == recommendation_for(final(report).score as int),
{
    let ghost before = signal_models(report.signals@);
    let mut extra = extra;
    let ghost ex = signal_models(extra@);
    report.signals.append(&mut extra);
    let ghost all = signal_models(report.signals@);
    assert(all =~= before + ex);
    let mut total: i32 = 0;
    let mut i: usize = 0;
    while i < report.signals.len()
        invariant
            all == signal_models(report.signals@),
            sums_fit(all),
            i <= all.len(),
            total == points_total(all.subrange(0, i as int)),
        decreases all.len() - i,
    {
        assert(all.subrange(0, i + 1).drop_last() =~= all.subrange(0, i as int));
        assert(i32::MIN <= points_total(all.subrange(0, i + 1)) <= i32::MAX);
        total = total + report.signals[i].points;
        i += 1;
    }
    assert(all.subrange(0, all.len() as int) =~= all);
    let score: u32 = if total < 0 { 0 } else if total > 100 { 100 } else { total as u32 };
    report.score = score;
    report.recommendation = owned(recommendation(score));
}

// ───────────────────────────── laws ─────────────────────────────

/// Every trust score lies between 0 and 100.
pub proof fn law_score_in_range(p: PackageInfo, now: (i64, u32))
    ensures
        0 <= clamp_score(total_points(p, now)) <= 100,
{
}

/// The rank of a recommendation label, from Danger (0) to Safe (4).
pub open spec fn recommendation_rank(label: Seq<char>) -> int {
    if label == "Safe"@ {
        4
    } else if label == "Moderate"@ {
        3
    } else if label == "Caution"@ {
        2
    } else if label == "Warning"@ {
        1
    } else {
        0
    }
}

/// A higher score never gets a worse recommendation.
pub proof fn law_recommendation_monotone(a: int, b: int)
    requires
        0 <= a <= b <= 100,
    ensures
        recommendation_rank(recommendation_for(a)) <= recommendation_rank(recommendation_for(b)),
{
    reveal_strlit("Safe");
    reveal_strlit("Moderate");
    reveal_strlit("Caution");
    reveal_strlit("Warning");
    reveal_strlit("Danger");
    assert("Safe"@[0] == 'S' && "Moderate"@[0] == 'M' && "Caution"@[0] == 'C');
    assert("Warning"@[0] == 'W' && "Danger"@[0] == 'D');
    assert(recommendation_rank("Safe"@) == 4);
    assert(recommendation_rank("Moderate"@) == 3);
    assert(recommendation_rank("Caution"@) == 2);
    assert(recommendation_rank("Warning"@) == 1);
    assert(recommendation_rank("Danger"@) == 0);
}

/// Missing metadata alone (no signal counting against the package) never
/// makes the recommendation worse than Moderate, and gives Safe only from 80.
pub proof fn law_missing_metadata_floor(p: PackageInfo, now: (i64, u32), score: int)
    requires
        !has_negative_signal(p, now),
        unknown_count(p) > 0,
    ensures
        analysis_recommendation(p, now, score) == "Safe"@ || analysis_recommendation(p, now, score) == "Moderate"@,
        analysis_recommendation(p, now, score) == "Safe"@ <==> score >= 80,
{
    reveal_strlit("Safe");
    reveal_strlit("Moderate");
    assert("Safe"@[0] != "Moderate"@[0]);
}

/// The signals that count against a package are those of an orphaned
/// maintainer, an out-of-date flag and an unknown source.
pub proof fn lemma_negative_signal(p: PackageInfo, now: (i64, u32))
    ensures
        has_negative_signal(p, now) <==> (p.orphan || p.out_of_date || p.source is Unknown),
{
    let s = expected_signals(p, now);
    if p.orphan {
        assert(s[2].1 < 0);
    }
    if p.out_of_date {
        assert(s[5].1 < 0);
    }
    if p.source is Unknown {
        assert(s[0].1 < 0);
    }
    if !(p.orphan || p.out_of_date || p.source is Unknown) {
        assert forall|i: int| 0 <= i < s.len() implies s[i].1 >= 0 by {}
    }
}

/// The tier follows from the source alone, whatever the metadata.
pub proof fn law_tier_from_source(r1: TrustReport, p1: PackageInfo, now1: (i64, u32), r2: TrustReport, p2: PackageInfo, now2: (i64, u32))
    requires
        report_of(r1, p1, now1),
        report_of(r2, p2, now2),
        tier_of(p1.source) == tier_of(p2.source),
    ensures
        r1.tier == r2.tier,
{
}

/// Official packages receive the strongest source score.
pub proof fn law_official_source_strongest(official: PackageSource, other: PackageSource)
    requires
        official is Official,
    ensures
        source_points(official) >= source_points(other),
        source_points(official) == 30,
{
}

/// In an analysis, more votes never give fewer popularity points, whatever
/// else differs between the two packages.
pub proof fn law_popularity_monotone(
    r1: TrustReport,
    p1: PackageInfo,
    now1: (i64, u32),
    r2: TrustReport,
    p2: PackageInfo,
    now2: (i64, u32),
    v1: u32,
    v2: u32,
)
    requires
        report_of(r1, p1, now1),
        report_of(r2, p2, now2),
        p1.votes == Some(v1),
        p2.votes == Some(v2),
        v1 <= v2,
    ensures
        signal_models(r1.signals@)[3].0 == "Popularity"@,
        signal_models(r2.signals@)[3].0 == "Popularity"@,
        signal_models(r1.signals@)[3].1 <= signal_models(r2.signals@)[3].1,
{
}

/// More than 2000 votes give the full popularity points, 15 of 15; any
/// number of votes gives between 2 and 15.
pub proof fn law_popularity_range(r: TrustReport, p: PackageInfo, now: (i64, u32), v: u32)
    requires
        report_of(r, p, now),
        p.votes == Some(v),
    ensures
        signal_models(r.signals@)[3].0 == "Popularity"@,
        signal_models(r.signals@)[3].2 == 15,
        2 <= signal_models(r.signals@)[3].1 <= 15,
        v > 2000 ==> signal_models(r.signals@)[3].1 == 15,
{
}

/// Orphaned packages are penalized on the maintainer signal.
pub proof fn law_orphan_penalized(p: PackageInfo)
    requires
        p.orphan,
    ensures
        maintainer_signal(p).1 < 0,
{
}

/// Being flagged out of date costs exactly ten points, all else equal.
pub proof fn law_out_of_date_costs_ten(p: PackageInfo, now: (i64, u32))
    requires
        p.out_of_date,
    ensures
        total_points(p, now) == total_points(PackageInfo { out_of_date: false, ..p }, now) - 10,
{
    let q = PackageInfo { out_of_date: false, ..p };
    assert(age_signal(q, now) == age_signal(p, now));
    assert(maintainer_signal(q) == maintainer_signal(p));
    assert(popularity_signal(q) == popularity_signal(p));
    assert(recency_signal(q, now) == recency_signal(p, now));
}

} // verus!
