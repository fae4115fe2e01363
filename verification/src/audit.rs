//! The system audit: installed packages matched against the repositories
//! and the AUR, counted by tier, with warnings for low-trust packages.

use vstd::prelude::*;
use crate::backends::{classify_repo, copy_package, repo_source, PackageInfo, PackageSource};
use crate::backends::pacman::string_pairs;
use crate::order::{key_models, stable_order, stable_order_of, KeyModel, SortKey};
use crate::display::{
    band_style, empty_line, field_line, heading_line, field_start, line_view, lines_view, official_repo_label, pad_right,
    padded_right, push_line, push_segment, repo_label, score_band, score_text, score_tier_color,
    single_line, styled, styled_string, ScoreColor, Segment, Style,
};
use crate::text::{
    decimal, insert_sorted, join, join_strings, owned, push_decimal_u64, push_str, starts_with,
    starts_with_str, str_eq, string_texts, strictly_sorted, to_chars,
};
use crate::trust::{signal_models, SignalModel, TrustReport, TrustSignal, TrustTier};

verus! {

// ───────────────────────────── records ─────────────────────────────

/// How many packages fall in each tier.
#[derive(Debug, Clone, Copy)]
pub struct AuditCounts {
    pub official: usize,
    pub third_party: usize,
    pub community: usize,
    pub unknown: usize,
}

impl Default for AuditCounts {
    fn default() -> (c: Self)
        ensures
            c.official == 0 && c.third_party == 0 && c.community == 0 && c.unknown == 0,
    {
        AuditCounts { official: 0, third_party: 0, community: 0, unknown: 0 }
    }
}

impl AuditCounts {
    /// The number of packages counted.
    pub fn total(&self) -> (r: usize)
        requires
            self.official + self.third_party + self.community + self.unknown <= usize::MAX,
        ensures
            r == self.official + self.third_party + self.community + self.unknown,
    {
        self.official + self.third_party + self.community + self.unknown
    }
}

/// A package that deserves attention.
#[derive(Debug)]
pub struct AuditWarning {
    pub package_name: String,
    pub tier: TrustTier,
    pub score: u32,
    pub reason: String,
}

/// A package from a distribution's own repository.
#[derive(Debug)]
pub struct OfficialPackageNotice {
    pub package_name: String,
    pub repo: String,
}

/// The result of auditing the system.
#[derive(Debug)]
pub struct SystemAudit {
    pub counts: AuditCounts,
    pub official_notices: Vec<OfficialPackageNotice>,
    pub warnings: Vec<AuditWarning>,
}

// ───────────────────────────── counting ─────────────────────────────

/// The counts with one more package of `tier`.
pub open spec fn counted(c: AuditCounts, tier: TrustTier) -> AuditCounts {
    match tier {
        TrustTier::Official => AuditCounts { official: (c.official + 1) as usize, ..c },
        TrustTier::ThirdParty => AuditCounts { third_party: (c.third_party + 1) as usize, ..c },
        TrustTier::Community => AuditCounts { community: (c.community + 1) as usize, ..c },
        TrustTier::Unknown => AuditCounts { unknown: (c.unknown + 1) as usize, ..c },
    }
}

/// The counter of `tier`.
pub open spec fn counter(c: AuditCounts, tier: TrustTier) -> usize {
    match tier {
        TrustTier::Official => c.official,
        TrustTier::ThirdParty => c.third_party,
        TrustTier::Community => c.community,
        TrustTier::Unknown => c.unknown,
    }
}

/// Counts one more package of `tier`.
pub fn increment_counts(counts: &mut AuditCounts, tier: &TrustTier)
    requires
        counter(*old(counts), *tier) < usize::MAX,
    ensures
        *final(counts) == counted(*old(counts), *tier),
{
    match tier {
        TrustTier::Official => counts.official = counts.official + 1,
        TrustTier::ThirdParty => counts.third_party = counts.third_party + 1,
        TrustTier::Community => counts.community = counts.community + 1,
        TrustTier::Unknown => counts.unknown = counts.unknown + 1,
    }
}

// ───────────────────────────── repositories ─────────────────────────────

/// A distribution's own repository (EndeavourOS, CachyOS).
pub open spec fn distro_specific(repo: Seq<char>) -> bool {
    repo == "endeavouros"@ || starts_with(repo, "cachyos"@)
}

/// Whether a repository belongs to a distribution rather than to Arch.
pub fn is_distro_specific_repo(repo: &str) -> (b: bool)
    ensures
        b == distro_specific(repo@),
{
    let chars = to_chars(repo);
    str_eq(repo, "endeavouros") || starts_with_str(chars.as_slice(), "cachyos")
}

/// The repository that lists `name` last in `(repository, name)` pairs.
pub open spec fn repo_lookup(pairs: Seq<(Seq<char>, Seq<char>)>, name: Seq<char>) -> Option<Seq<char>>
    decreases pairs.len(),
{
    if pairs.len() == 0 {
        None
    } else if pairs.last().1 == name {
        Some(pairs.last().0)
    } else {
        repo_lookup(pairs.drop_last(), name)
    }
}

/// The position of the last package named `name`.
pub open spec fn last_named(v: Seq<PackageInfo>, name: Seq<char>) -> Option<int>
    decreases v.len(),
{
    if v.len() == 0 {
        None
    } else if v.last().name@ == name {
        Some(v.len() - 1)
    } else {
        last_named(v.drop_last(), name)
    }
}

/// The repository that lists `name` last.
fn find_repo(repos: &Vec<(String, String)>, name: &str) -> (r: Option<String>)
    ensures
        match r {
            Some(s) => repo_lookup(string_pairs(repos@), name@) == Some(s@),
            None => repo_lookup(string_pairs(repos@), name@) is None,
        },
{
    let ghost sp = string_pairs(repos@);
    let mut i: usize = repos.len();
    assert(sp.subrange(0, sp.len() as int) =~= sp);
    while i > 0
        invariant
            sp == string_pairs(repos@),
            i <= repos@.len(),
            repo_lookup(sp, name@) == repo_lookup(sp.subrange(0, i as int), name@),
        decreases i,
    {
        assert(sp.subrange(0, i as int).drop_last() =~= sp.subrange(0, i - 1));
        if str_eq(repos[i - 1].1.as_str(), name) {
            return Some(repos[i - 1].0.clone());
        }
        i -= 1;
    }
    None
}

/// The position of the last package named `name`.
fn find_named(v: &Vec<PackageInfo>, name: &str) -> (r: Option<usize>)
    ensures
        match r {
            Some(k) => k < v@.len() && last_named(v@, name@) == Some(k as int),
            None => last_named(v@, name@) is None,
        },
{
    let mut i: usize = v.len();
    assert(v@.subrange(0, v@.len() as int) =~= v@);
    while i > 0
        invariant
            i <= v@.len(),
            last_named(v@, name@) == match last_named(v@.subrange(0, i as int), name@) {
                Some(k) => Some(k),
                None => None::<int>,
            },
        decreases i,
    {
        assert(v@.subrange(0, i as int).drop_last() =~= v@.subrange(0, i - 1));
        if str_eq(v[i - 1].name.as_str(), name) {
            return Some(i - 1);
        }
        i -= 1;
    }
    None
}

/// `r` holds the values of `p` but for its source.
pub open spec fn same_but_source(r: PackageInfo, p: PackageInfo) -> bool {
    &&& r.name == p.name
    &&& r.version == p.version
    &&& r.description == p.description
    &&& r.maintainer == p.maintainer
    &&& r.votes == p.votes
    &&& r.popularity_bits == p.popularity_bits
    &&& r.first_submitted == p.first_submitted
    &&& r.last_modified == p.last_modified
    &&& r.out_of_date == p.out_of_date
    &&& r.orphan == p.orphan
    &&& r.url == p.url
    &&& r.licenses@ == p.licenses@
    &&& r.depends@ == p.depends@
    &&& r.install_size == p.install_size
}

/// An installed package completed with AUR metadata: an AUR package with the
/// remote maintainer, votes, popularity, dates, out-of-date mark, URL,
/// licenses and dependencies, keeping its own name, version, description,
/// orphan mark and size.
pub open spec fn aur_merged(r: PackageInfo, local: PackageInfo, remote: PackageInfo) -> bool {
    &&& r.name == local.name
    &&& r.version == local.version
    &&& r.description == local.description
    &&& r.source is Aur
    &&& r.maintainer == remote.maintainer
    &&& r.votes == remote.votes
    &&& r.popularity_bits == remote.popularity_bits
    &&& r.first_submitted == remote.first_submitted
    &&& r.last_modified == remote.last_modified
    &&& r.out_of_date == remote.out_of_date
    &&& r.orphan == local.orphan
    &&& r.url == remote.url
    &&& r.licenses@ == remote.licenses@
    &&& r.depends@ == remote.depends@
    &&& r.install_size == local.install_size
}

/// Completes an installed package with the metadata the AUR has on it.
pub fn merge_aur_metadata(local: PackageInfo, remote: PackageInfo) -> (r: PackageInfo)
    ensures
        aur_merged(r, local, remote),
{
    let mut local = local;
    local.source = PackageSource::Aur;
    local.maintainer = remote.maintainer;
    local.votes = remote.votes;
    local.popularity_bits = remote.popularity_bits;
    local.first_submitted = remote.first_submitted;
    local.last_modified = remote.last_modified;
    local.out_of_date = remote.out_of_date;
    local.url = remote.url;
    local.licenses = remote.licenses;
    local.depends = remote.depends;
    local
}

/// What an installed package becomes once matched: a package some synced
/// repository lists takes that repository's source; otherwise one the AUR
/// knows is completed from the AUR; otherwise its source is unknown.
pub open spec fn hydrated(r: PackageInfo, p: PackageInfo, repos: Seq<(Seq<char>, Seq<char>)>, aur: Seq<PackageInfo>) -> bool {
    match repo_lookup(repos, p.name@) {
        Some(repo) => repo_source(repo, r.source) && same_but_source(r, p),
        None => match last_named(aur, p.name@) {
            Some(k) => aur_merged(r, p, aur[k]),
            None => r.source is Unknown && same_but_source(r, p),
        },
    }
}

/// Matches an installed package against the synced repositories (`(repo,
/// name)` pairs as `pacman -Sl` lists them) and the AUR records found for
/// foreign packages.
pub fn hydrate_package(pkg: PackageInfo, repos: &Vec<(String, String)>, aur: &Vec<PackageInfo>) -> (r: PackageInfo)
    ensures
        hydrated(r, pkg, string_pairs(repos@), aur@),
{
    let mut pkg = pkg;
    match find_repo(repos, pkg.name.as_str()) {
        Some(repo) => {
            pkg.source = classify_repo(repo.as_str());
            pkg
        },
        None => match find_named(aur, pkg.name.as_str()) {
            Some(k) => {
                let remote = copy_package(&aur[k]);
                merge_aur_metadata(pkg, remote)
            },
            None => {
                pkg.source = PackageSource::Unknown;
                pkg
            },
        },
    }
}

/// The names of the packages no synced repository lists, in order.
pub open spec fn foreign(packages: Seq<PackageInfo>, repos: Seq<(Seq<char>, Seq<char>)>) -> Seq<Seq<char>>
    decreases packages.len(),
{
    if packages.len() == 0 {
        Seq::empty()
    } else {
        let rest = foreign(packages.drop_last(), repos);
        if repo_lookup(repos, packages.last().name@) is None {
            rest.push(packages.last().name@)
        } else {
            rest
        }
    }
}

/// The names of the installed packages that no synced repository lists:
/// those to ask the AUR about.
pub fn foreign_names(packages: &Vec<PackageInfo>, repos: &Vec<(String, String)>) -> (r: Vec<String>)
    ensures
        string_texts(r@) == foreign(packages@, string_pairs(repos@)),
{
    let mut r: Vec<String> = Vec::new();
    let mut i: usize = 0;
    while i < packages.len()
        invariant
            i <= packages@.len(),
            string_texts(r@) == foreign(packages@.subrange(0, i as int), string_pairs(repos@)),
        decreases packages@.len() - i,
    {
        let ghost before = string_texts(r@);
        assert(packages@.subrange(0, i + 1).drop_last() =~= packages@.subrange(0, i as int));
        if find_repo(repos, packages[i].name.as_str()).is_none() {
            r.push(packages[i].name.clone());
            assert(string_texts(r@) =~= before.push(packages@[i as int].name@));
        }
        i += 1;
    }
    assert(packages@.subrange(0, packages@.len() as int) =~= packages@);
    r
}

// ───────────────────────────── warnings ─────────────────────────────

/// A signal's sort key: its points, then its name.
pub open spec fn signal_key(s: SignalModel) -> KeyModel {
    (s.1, s.0, Seq::empty())
}

/// The sort keys of signals.
pub open spec fn signal_keys(v: Seq<SignalModel>) -> Seq<KeyModel> {
    Seq::new(v.len(), |i: int| signal_key(v[i]))
}

/// A signal as a line of a warning: `name: detail`.
pub open spec fn signal_line(s: SignalModel) -> Seq<char> {
    s.0 + ": "@ + s.3
}

/// The lines of the (at most three) weakest signals: fewest points first,
/// then by name.
pub open spec fn weakest_lines(v: Seq<SignalModel>) -> Seq<Seq<char>> {
    let order = stable_order(signal_keys(v), v.len());
    let n: nat = if v.len() < 3 { v.len() } else { 3 };
    Seq::new(n, |k: int| signal_line(v[order[k]]))
}

/// Why a package is flagged: packages of unknown source were installed
/// outside CPAC; others show their weakest signals.
pub open spec fn warning_text(tier: TrustTier, signals: Seq<SignalModel>) -> Seq<char> {
    if tier is Unknown {
        "Installed outside CPAC"@
    } else {
        join(weakest_lines(signals), " | "@)
    }
}

/// The reason shown for a flagged package.
pub fn warning_reason(report: &TrustReport) -> (r: String)
    ensures
        r@ == warning_text(report.tier, signal_models(report.signals@)),
{
    if let TrustTier::Unknown = report.tier {
        return owned("Installed outside CPAC");
    }
    let ghost sm = signal_models(report.signals@);
    let n: usize = report.signals.len();
    let mut keys: Vec<SortKey> = Vec::new();
    let mut i: usize = 0;
    while i < n
        invariant
            n == report.signals@.len(),
            sm == signal_models(report.signals@),
            i <= n,
            key_models(keys@) == signal_keys(sm).subrange(0, i as int),
        decreases n - i,
    {
        let ghost before = key_models(keys@);
        let s = &report.signals[i];
        keys.push((s.points as i64, to_chars(s.name.as_str()), Vec::new()));
        assert(key_models(keys@) =~= before.push(signal_key(sm[i as int])));
        i += 1;
        assert(key_models(keys@) =~= signal_keys(sm).subrange(0, i as int));
    }
    assert(signal_keys(sm).subrange(0, n as int) =~= signal_keys(sm));
    let order = stable_order_of(&keys);
    let ghost lines = weakest_lines(sm);
    let m: usize = if n < 3 { n } else { 3 };
    let mut parts: Vec<String> = Vec::new();
    let mut k: usize = 0;
    while k < m
        invariant
            n == report.signals@.len(),
            sm == signal_models(report.signals@),
            key_models(keys@) == signal_keys(sm),
            order@.len() == n,
            forall|j: int| 0 <= j < n ==> order@[j] as int == #[trigger] stable_order(signal_keys(sm), n as nat)[j],
            forall|j: int| 0 <= j < n ==> #[trigger] order@[j] < n,
            lines == weakest_lines(sm),
            m as nat == lines.len(),
            m <= n,
            k <= m,
            string_texts(parts@) == lines.subrange(0, k as int),
        decreases m - k,
    {
        let ghost before = string_texts(parts@);
        let s = &report.signals[order[k]];
        let mut line = s.name.clone();
        push_str(&mut line, ": ");
        push_str(&mut line, s.detail.as_str());
        assert(line@ == lines[k as int]);
        parts.push(line);
        assert(string_texts(parts@) =~= before.push(lines[k as int]));
        k += 1;
        assert(string_texts(parts@) =~= lines.subrange(0, k as int));
    }
    assert(lines.subrange(0, m as int) =~= lines);
    join_strings(&parts, " | ")
}

/// A warning as plain values: package name, tier, score and reason.
pub type WarningModel = (Seq<char>, TrustTier, int, Seq<char>);

/// The plain values of a warning.
pub open spec fn warning_model(w: AuditWarning) -> WarningModel {
    (w.package_name@, w.tier, w.score as int, w.reason@)
}

/// The plain values of warnings.
pub open spec fn warning_models(v: Seq<AuditWarning>) -> Seq<WarningModel> {
    Seq::new(v.len(), |i: int| warning_model(v[i]))
}

/// A notice as plain values: package name and repository.
pub type NoticeModel = (Seq<char>, Seq<char>);

/// The plain values of notices.
pub open spec fn notice_models(v: Seq<OfficialPackageNotice>) -> Seq<NoticeModel> {
    Seq::new(v.len(), |i: int| (v[i].package_name@, v[i].repo@))
}

/// A report deserves a warning: a score under 60, or an unknown source.
pub open spec fn flagged(r: TrustReport) -> bool {
    r.score < 60 || r.tier is Unknown
}

/// The warning for a flagged report.
pub open spec fn warning_for(r: TrustReport) -> WarningModel {
    (r.package_name@, r.tier, r.score as int, warning_text(r.tier, signal_models(r.signals@)))
}

/// The notice an audited package gives, if any: a package from an official
/// repository that belongs to a distribution.
pub open spec fn notice_for(p: PackageInfo, r: TrustReport) -> Option<NoticeModel> {
    match p.source {
        PackageSource::Official { repo } => if distro_specific(repo@) { Some((r.package_name@, repo@)) } else { None },
        _ => None,
    }
}

/// The warnings of the audited packages, in audit order.
pub open spec fn raw_warnings(es: Seq<(PackageInfo, TrustReport)>) -> Seq<WarningModel>
    decreases es.len(),
{
    if es.len() == 0 {
        Seq::empty()
    } else {
        let rest = raw_warnings(es.drop_last());
        if flagged(es.last().1) { rest.push(warning_for(es.last().1)) } else { rest }
    }
}

/// The notices of the audited packages, in audit order.
pub open spec fn raw_notices(es: Seq<(PackageInfo, TrustReport)>) -> Seq<NoticeModel>
    decreases es.len(),
{
    if es.len() == 0 {
        Seq::empty()
    } else {
        let rest = raw_notices(es.drop_last());
        match notice_for(es.last().0, es.last().1) {
            Some(n) => rest.push(n),
            None => rest,
        }
    }
}

/// The packages of `tier` among the audited packages.
pub open spec fn tier_count(es: Seq<(PackageInfo, TrustReport)>, tier: TrustTier) -> nat
    decreases es.len(),
{
    if es.len() == 0 {
        0
    } else {
        tier_count(es.drop_last(), tier) + if es.last().1.tier == tier { 1nat } else { 0nat }
    }
}

/// A warning's sort key: score, then package name.
pub open spec fn warning_keys(v: Seq<WarningModel>) -> Seq<KeyModel> {
    Seq::new(v.len(), |i: int| (v[i].2, v[i].0, Seq::<char>::empty()))
}

/// A notice's sort key: repository, then package name.
pub open spec fn notice_keys(v: Seq<NoticeModel>) -> Seq<KeyModel> {
    Seq::new(v.len(), |i: int| (0int, v[i].1, v[i].0))
}

/// The warnings, lowest score first, then by package name.
pub open spec fn sorted_warnings(es: Seq<(PackageInfo, TrustReport)>) -> Seq<WarningModel> {
    let w = raw_warnings(es);
    let order = stable_order(warning_keys(w), w.len());
    Seq::new(w.len(), |k: int| w[order[k]])
}

/// The notices, by repository, then by package name.
pub open spec fn sorted_notices(es: Seq<(PackageInfo, TrustReport)>) -> Seq<NoticeModel> {
    let n = raw_notices(es);
    let order = stable_order(notice_keys(n), n.len());
    Seq::new(n.len(), |k: int| n[order[k]])
}

/// The audit of matched packages with their reports.
pub open spec fn audit_of(a: SystemAudit, es: Seq<(PackageInfo, TrustReport)>) -> bool {
    &&& a.counts.official == tier_count(es, TrustTier::Official)
    &&& a.counts.third_party == tier_count(es, TrustTier::ThirdParty)
    &&& a.counts.community == tier_count(es, TrustTier::Community)
    &&& a.counts.unknown == tier_count(es, TrustTier::Unknown)
    &&& notice_models(a.official_notices@) == sorted_notices(es)
    &&& warning_models(a.warnings@) == sorted_warnings(es)
}

/// No tier counts more packages than there are.
proof fn lemma_tier_count_bound(es: Seq<(PackageInfo, TrustReport)>, tier: TrustTier)
    ensures
        tier_count(es, tier) <= es.len(),
    decreases es.len(),
{
    if es.len() > 0 {
        lemma_tier_count_bound(es.drop_last(), tier);
    }
}

/// The warnings in the stable order of their keys.
fn sort_warnings(raw: &Vec<AuditWarning>) -> (r: Vec<AuditWarning>)
    ensures
        warning_models(r@) == ({
            let w = warning_models(raw@);
            let order = stable_order(warning_keys(w), w.len());
            Seq::new(w.len(), |k: int| w[order[k]])
        }),
{
    let ghost w = warning_models(raw@);
    let mut keys: Vec<SortKey> = Vec::new();
    let mut i: usize = 0;
    while i < raw.len()
        invariant
            w == warning_models(raw@),
            i <= raw@.len(),
            key_models(keys@) == warning_keys(w).subrange(0, i as int),
        decreases raw@.len() - i,
    {
        let ghost before = key_models(keys@);
        keys.push((raw[i].score as i64, to_chars(raw[i].package_name.as_str()), Vec::new()));
        assert(key_models(keys@) =~= before.push(warning_keys(w)[i as int]));
        i += 1;
        assert(key_models(keys@) =~= warning_keys(w).subrange(0, i as int));
    }
    assert(warning_keys(w).subrange(0, raw@.len() as int) =~= warning_keys(w));
    let order = stable_order_of(&keys);
    let ghost want = Seq::new(w.len(), |k: int| w[stable_order(warning_keys(w), w.len())[k]]);
    let mut r: Vec<AuditWarning> = Vec::new();
    let mut k: usize = 0;
    while k < order.len()
        invariant
            w == warning_models(raw@),
            key_models(keys@) == warning_keys(w),
            order@.len() == raw@.len(),
            forall|j: int| 0 <= j < order@.len() ==> order@[j] as int == #[trigger] stable_order(warning_keys(w), w.len())[j],
            forall|j: int| 0 <= j < order@.len() ==> #[trigger] order@[j] < raw@.len(),
            want == Seq::new(w.len(), |k: int| w[stable_order(warning_keys(w), w.len())[k]]),
            k <= order@.len(),
            warning_models(r@) == want.subrange(0, k as int),
        decreases order@.len() - k,
    {
        let ghost before = warning_models(r@);
        let src = &raw[order[k]];
        let c = AuditWarning {
            package_name: src.package_name.clone(),
            tier: src.tier,
            score: src.score,
            reason: src.reason.clone(),
        };
        r.push(c);
        assert(warning_models(r@) =~= before.push(want[k as int]));
        k += 1;
        assert(warning_models(r@) =~= want.subrange(0, k as int));
    }
    assert(want.subrange(0, w.len() as int) =~= want);
    r
}

/// The notices in the stable order of their keys.
fn sort_notices(raw: &Vec<OfficialPackageNotice>) -> (r: Vec<OfficialPackageNotice>)
    ensures
        notice_models(r@) == ({
            let n = notice_models(raw@);
            let order = stable_order(notice_keys(n), n.len());
            Seq::new(n.len(), |k: int| n[order[k]])
        }),
{
    let ghost w = notice_models(raw@);
    let mut keys: Vec<SortKey> = Vec::new();
    let mut i: usize = 0;
    while i < raw.len()
        invariant
            w == notice_models(raw@),
            i <= raw@.len(),
            key_models(keys@) == notice_keys(w).subrange(0, i as int),
        decreases raw@.len() - i,
    {
        let ghost before = key_models(keys@);
        keys.push((0i64, to_chars(raw[i].repo.as_str()), to_chars(raw[i].package_name.as_str())));
        assert(key_models(keys@) =~= before.push(notice_keys(w)[i as int]));
        i += 1;
        assert(key_models(keys@) =~= notice_keys(w).subrange(0, i as int));
    }
    assert(notice_keys(w).subrange(0, raw@.len() as int) =~= notice_keys(w));
    let order = stable_order_of(&keys);
    let ghost want = Seq::new(w.len(), |k: int| w[stable_order(notice_keys(w), w.len())[k]]);
    let mut r: Vec<OfficialPackageNotice> = Vec::new();
    let mut k: usize = 0;
    while k < order.len()
        invariant
            w == notice_models(raw@),
            key_models(keys@) == notice_keys(w),
            order@.len() == raw@.len(),
            forall|j: int| 0 <= j < order@.len() ==> order@[j] as int == #[trigger] stable_order(notice_keys(w), w.len())[j],
            forall|j: int| 0 <= j < order@.len() ==> #[trigger] order@[j] < raw@.len(),
            want == Seq::new(w.len(), |k: int| w[stable_order(notice_keys(w), w.len())[k]]),
            k <= order@.len(),
            notice_models(r@) == want.subrange(0, k as int),
        decreases order@.len() - k,
    {
        let ghost before = notice_models(r@);
        let src = &raw[order[k]];
        let c = OfficialPackageNotice { package_name: src.package_name.clone(), repo: src.repo.clone() };
        r.push(c);
        assert(notice_models(r@) =~= before.push(want[k as int]));
        k += 1;
        assert(notice_models(r@) =~= want.subrange(0, k as int));
    }
    assert(want.subrange(0, w.len() as int) =~= want);
    r
}

/// Audits matched packages with their trust reports: counts them by tier,
/// notes packages from distribution repositories, and warns about packages
/// with a score under 60 or an unknown source; notices are sorted by
/// repository and name, warnings by score and name.
pub fn audit_from_reports(entries: &Vec<(PackageInfo, TrustReport)>) -> (a: SystemAudit)
    ensures
        audit_of(a, entries@),
{
    let mut counts = AuditCounts::default();
    let mut notices: Vec<OfficialPackageNotice> = Vec::new();
    let mut warnings: Vec<AuditWarning> = Vec::new();
    let mut i: usize = 0;
    while i < entries.len()
        invariant
            i <= entries@.len(),
            counts.official == tier_count(entries@.subrange(0, i as int), TrustTier::Official),
            counts.third_party == tier_count(entries@.subrange(0, i as int), TrustTier::ThirdParty),
            counts.community == tier_count(entries@.subrange(0, i as int), TrustTier::Community),
            counts.unknown == tier_count(entries@.subrange(0, i as int), TrustTier::Unknown),
            notice_models(notices@) == raw_notices(entries@.subrange(0, i as int)),
            warning_models(warnings@) == raw_warnings(entries@.subrange(0, i as int)),
        decreases entries@.len() - i,
    {
        let ghost pre = entries@.subrange(0, i as int);
        let ghost now = entries@.subrange(0, i + 1);
        assert(now.drop_last() =~= pre);
        assert(now.last() == entries@[i as int]);
        let ghost nb = notice_models(notices@);
        let ghost wb = warning_models(warnings@);
        let pkg = &entries[i].0;
        let report = &entries[i].1;
        proof {
            lemma_tier_count_bound(pre, report.tier);
        }
        increment_counts(&mut counts, &report.tier);
        if let PackageSource::Official { repo } = &pkg.source {
            if is_distro_specific_repo(repo.as_str()) {
                notices.push(OfficialPackageNotice { package_name: report.package_name.clone(), repo: repo.clone() });
                assert(notice_models(notices@) =~= nb.push((report.package_name@, repo@)));
            }
        }
        let unknown = match report.tier {
            TrustTier::Unknown => true,
            _ => false,
        };
        if report.score < 60 || unknown {
            let reason = warning_reason(report);
            warnings.push(AuditWarning {
                package_name: report.package_name.clone(),
                tier: report.tier,
                score: report.score,
                reason,
            });
            assert(warning_models(warnings@) =~= wb.push(warning_for(*report)));
        }
        i += 1;
    }
    assert(entries@.subrange(0, entries@.len() as int) =~= entries@);
    let official_notices = sort_notices(&notices);
    let sorted = sort_warnings(&warnings);
    SystemAudit { counts, official_notices, warnings: sorted }
}


// ───────────────────────────── laws ─────────────────────────────

/// Every audited package is counted once, in the counter of its tier.
pub proof fn law_counts_cover_all(es: Seq<(PackageInfo, TrustReport)>)
    ensures
        tier_count(es, TrustTier::Official) + tier_count(es, TrustTier::ThirdParty)
            + tier_count(es, TrustTier::Community) + tier_count(es, TrustTier::Unknown) == es.len(),
    decreases es.len(),
{
    if es.len() > 0 {
        law_counts_cover_all(es.drop_last());
    }
}

/// Warnings come lowest score first; equal scores come by package name.
pub proof fn law_warnings_sorted(es: Seq<(PackageInfo, TrustReport)>, a: int, b: int)
    requires
        0 <= a < b < sorted_warnings(es).len(),
    ensures
        sorted_warnings(es)[a].2 <= sorted_warnings(es)[b].2,
        sorted_warnings(es)[a].2 == sorted_warnings(es)[b].2 ==> !crate::text::text_lt(sorted_warnings(es)[b].0, sorted_warnings(es)[a].0),
{
    let w = raw_warnings(es);
    let keys = warning_keys(w);
    let order = stable_order(keys, w.len());
    crate::order::lemma_stable_order_sorted(keys, w.len());
    crate::order::lemma_stable_order_indices(keys, w.len());
    assert(!crate::order::key_lt(keys[order[b]], keys[order[a]]));
}

/// Packages of unknown source are always warned about.
pub proof fn law_unknown_always_warned(es: Seq<(PackageInfo, TrustReport)>, i: int)
    requires
        0 <= i < es.len(),
        es[i].1.tier is Unknown,
    ensures
        raw_warnings(es).contains(warning_for(es[i].1)),
    decreases es.len(),
{
    let last = es.len() - 1;
    if i == last {
        assert(raw_warnings(es).last() == warning_for(es[i].1));
    } else {
        law_unknown_always_warned(es.drop_last(), i);
        assert(es.drop_last()[i] == es[i]);
        let w = raw_warnings(es.drop_last());
        let k = choose|k: int| 0 <= k < w.len() && w[k] == warning_for(es[i].1);
        if flagged(es.last().1) {
            assert(raw_warnings(es)[k] == w[k]);
        }
    }
}


/// A report scoring under 60, or of unknown source, has its warning among
/// the raw warnings.
proof fn lemma_flagged_warned(es: Seq<(PackageInfo, TrustReport)>, i: int)
    requires
        0 <= i < es.len(),
        es[i].1.score < 60 || es[i].1.tier is Unknown,
    ensures
        raw_warnings(es).contains(warning_for(es[i].1)),
    decreases es.len(),
{
    let last = es.len() - 1;
    if i == last {
        assert(raw_warnings(es).last() == warning_for(es[i].1));
    } else {
        lemma_flagged_warned(es.drop_last(), i);
        assert(es.drop_last()[i] == es[i]);
        let w = raw_warnings(es.drop_last());
        let k = choose|k: int| 0 <= k < w.len() && w[k] == warning_for(es[i].1);
        if flagged(es.last().1) {
            assert(raw_warnings(es)[k] == w[k]);
        }
    }
}

/// Every raw warning is of a report scoring under 60 or of unknown source.
proof fn lemma_warned_flagged(es: Seq<(PackageInfo, TrustReport)>)
    ensures
        forall|m: int| 0 <= m < raw_warnings(es).len()
            ==> (#[trigger] raw_warnings(es)[m]).2 < 60 || raw_warnings(es)[m].1 is Unknown,
    decreases es.len(),
{
    if es.len() > 0 {
        lemma_warned_flagged(es.drop_last());
        let w = raw_warnings(es.drop_last());
        assert forall|m: int| 0 <= m < raw_warnings(es).len()
            implies (#[trigger] raw_warnings(es)[m]).2 < 60 || raw_warnings(es)[m].1 is Unknown by {
            if m < w.len() {
                if flagged(es.last().1) {
                    assert(raw_warnings(es)[m] == w[m]);
                }
            }
        }
    }
}

/// The audit warns about every package scoring under 60, whatever its tier,
/// and about every package of unknown source; it warns about no other.
pub proof fn law_low_scores_warned(a: SystemAudit, es: Seq<(PackageInfo, TrustReport)>, i: int)
    requires
        audit_of(a, es),
        0 <= i < es.len(),
    ensures
        es[i].1.score < 60 || es[i].1.tier is Unknown ==> exists|k: int| 0 <= k < a.warnings@.len()
            && #[trigger] warning_models(a.warnings@)[k] == warning_for(es[i].1),
        forall|k: int| 0 <= k < a.warnings@.len()
            ==> (#[trigger] a.warnings@[k]).score < 60 || a.warnings@[k].tier is Unknown,
{
    let w = raw_warnings(es);
    let order = stable_order(warning_keys(w), w.len());
    crate::order::lemma_stable_order_indices(warning_keys(w), w.len());
    assert(warning_models(a.warnings@).len() == a.warnings@.len());
    if es[i].1.score < 60 || es[i].1.tier is Unknown {
        lemma_flagged_warned(es, i);
        let j = choose|j: int| 0 <= j < w.len() && w[j] == warning_for(es[i].1);
        crate::order::lemma_stable_order_covers(warning_keys(w), w.len(), j);
        let k = choose|k: int| 0 <= k < w.len() && order[k] == j;
        assert(warning_models(a.warnings@)[k] == sorted_warnings(es)[k]);
    }
    lemma_warned_flagged(es);
    assert forall|k: int| 0 <= k < a.warnings@.len()
        implies (#[trigger] a.warnings@[k]).score < 60 || a.warnings@[k].tier is Unknown by {
        assert(warning_models(a.warnings@)[k] == sorted_warnings(es)[k]);
        assert(sorted_warnings(es)[k] == w[order[k]]);
        assert(0 <= order[k] < w.len());
    }
}

// ───────────────────────────── the audit on screen ─────────────────────────────

/// `labels` lists, sorted and once each, the repository labels of `notices`.
pub open spec fn sorted_repo_labels(notices: Seq<OfficialPackageNotice>, labels: Seq<Seq<char>>) -> bool {
    &&& strictly_sorted(labels)
    &&& forall|t: Seq<char>| labels.contains(t)
        <==> exists|k: int| 0 <= k < notices.len() && repo_label(#[trigger] notices[k].repo@) == t
}

/// Texts in `style`, with plain `sep` between consecutive ones.
pub open spec fn joined_segments(parts: Seq<Seq<char>>, style: Style, sep: Seq<char>) -> Seq<(Style, Seq<char>)>
    decreases parts.len(),
{
    if parts.len() == 0 {
        Seq::empty()
    } else if parts.len() == 1 {
        seq![(style, parts[0])]
    } else {
        joined_segments(parts.drop_last(), style, sep) + seq![(Style::Plain, sep), (style, parts.last())]
    }
}

/// How a warning shows the trust of its package: `Unknown` dimmed for the
/// unknown tier, otherwise the score out of 100 in the color of its band.
pub open spec fn warning_trust(w: AuditWarning) -> (Style, Seq<char>) {
    if w.tier is Unknown {
        (Style::Dimmed, "Unknown"@)
    } else {
        (band_style(score_band(w.score)), decimal(w.score as nat) + "/100"@)
    }
}

/// The line of one warning.
pub open spec fn warning_line(w: AuditWarning) -> Seq<(Style, Seq<char>)> {
    seq![
        (Style::Plain, "    "@),
        (Style::Bold, pad_right(w.package_name@, 24)),
        (Style::Plain, " [Trust: "@),
        warning_trust(w),
        (Style::Plain, " - "@ + w.reason@ + "]"@),
    ]
}

/// The counts that open the audit on screen.
pub open spec fn audit_counts_view(c: AuditCounts) -> Seq<Seq<(Style, Seq<char>)>> {
    seq![
        Seq::empty(),
        seq![(Style::Plain, "  "@), (Style::Heading, "System Audit"@)],
        field_start(Style::Heading, "Installed Packages:"@)
            + seq![(Style::Plain, decimal((c.official + c.third_party + c.community + c.unknown) as nat))],
        field_start(Style::Heading, "Official:"@) + seq![(Style::Plain, decimal(c.official as nat))],
        field_start(Style::Heading, "Third Party:"@) + seq![(Style::Plain, decimal(c.third_party as nat))],
        field_start(Style::Heading, "Community:"@) + seq![(Style::Plain, decimal(c.community as nat))],
        field_start(Style::Heading, "Unknown:"@) + seq![(Style::Plain, decimal(c.unknown as nat))],
    ]
}

/// The line about official packages, when there are any.
pub open spec fn audit_notices_view(audit: SystemAudit, labels: Seq<Seq<char>>) -> Seq<Seq<(Style, Seq<char>)>> {
    if audit.official_notices@.len() > 0 {
        seq![
            Seq::empty(),
            seq![
                (Style::Plain, "  "@),
                (Style::Heading, "Official packages:"@),
                (Style::Plain, " "@ + decimal(audit.official_notices@.len()) + " package(s) from official repositories ("@),
            ] + joined_segments(labels, Style::Good, ", "@)
                + seq![(Style::Plain, ") are excluded from warnings"@)],
        ]
    } else {
        Seq::empty()
    }
}

/// The warnings on screen, or a line saying there are none.
pub open spec fn audit_warnings_view(audit: SystemAudit) -> Seq<Seq<(Style, Seq<char>)>> {
    if audit.warnings@.len() == 0 {
        seq![seq![(Style::Plain, "    "@), (Style::Dimmed, "No warnings found."@)]]
    } else {
        Seq::new(audit.warnings@.len(), |i: int| warning_line(audit.warnings@[i]))
    }
}

/// The lines of a system audit on screen, given the sorted labels of the
/// repositories of its official packages.
pub open spec fn audit_view(audit: SystemAudit, labels: Seq<Seq<char>>) -> Seq<Seq<(Style, Seq<char>)>> {
    audit_counts_view(audit.counts) + audit_notices_view(audit, labels)
        + seq![Seq::empty(), seq![(Style::Plain, "  "@), (Style::Heading, "Warnings"@)]]
        + audit_warnings_view(audit) + seq![Seq::empty()]
}

/// A field line ending in a count.
fn count_line(label: &str, n: usize) -> (l: Vec<Segment>)
    ensures
        line_view(l@) == field_start(Style::Heading, label@) + seq![(Style::Plain, decimal(n as nat))],
{
    let mut l = field_line(Style::Heading, label);
    let mut t = String::new();
    push_decimal_u64(&mut t, n as u64);
    push_segment(&mut l, styled_string(Style::Plain, t));
    assert(line_view(l@) =~= field_start(Style::Heading, label@) + seq![(Style::Plain, decimal(n as nat))]);
    l
}

/// The line of one warning.
fn warning_row(w: &AuditWarning) -> (l: Vec<Segment>)
    ensures
        line_view(l@) == warning_line(*w),
{
    let mut l = single_line(styled(Style::Plain, "    "));
    push_segment(&mut l, styled_string(Style::Bold, padded_right(w.package_name.as_str(), 24)));
    push_segment(&mut l, styled(Style::Plain, " [Trust: "));
    let trust = match w.tier {
        TrustTier::Unknown => styled(Style::Dimmed, "Unknown"),
        _ => {
            let style = match score_tier_color(w.score) {
                ScoreColor::Green => Style::Good,
                ScoreColor::Yellow => Style::Caution,
                ScoreColor::Red => Style::Bad,
            };
            styled_string(style, score_text(w.score))
        },
    };
    push_segment(&mut l, trust);
    let mut tail = owned(" - ");
    push_str(&mut tail, w.reason.as_str());
    push_str(&mut tail, "]");
    push_segment(&mut l, styled_string(Style::Plain, tail));
    assert(line_view(l@) =~= warning_line(*w));
    l
}

/// The sorted, distinct labels of the repositories of official packages.
fn repo_labels(notices: &Vec<OfficialPackageNotice>) -> (r: Vec<String>)
    ensures
        sorted_repo_labels(notices@, string_texts(r@)),
{
    let mut labels: Vec<String> = Vec::new();
    let mut i: usize = 0;
    while i < notices.len()
        invariant
            i <= notices@.len(),
            strictly_sorted(string_texts(labels@)),
            forall|t: Seq<char>| string_texts(labels@).contains(t)
                <==> exists|k: int| 0 <= k < i && repo_label(#[trigger] notices@[k].repo@) == t,
        decreases notices@.len() - i,
    {
        let label = official_repo_label(notices[i].repo.as_str());
        let ghost before = string_texts(labels@);
        insert_sorted(&mut labels, &label);
        assert forall|t: Seq<char>| string_texts(labels@).contains(t)
            <==> exists|k: int| 0 <= k < i + 1 && repo_label(#[trigger] notices@[k].repo@) == t by {
            if string_texts(labels@).contains(t) && t != label@ {
                assert(before.contains(t));
            }
            if exists|k: int| 0 <= k < i + 1 && repo_label(#[trigger] notices@[k].repo@) == t {
                let k = choose|k: int| 0 <= k < i + 1 && repo_label(#[trigger] notices@[k].repo@) == t;
                if k < i {
                    assert(before.contains(t));
                }
            }
        }
        i += 1;
    }
    labels
}

/// The lines of a system audit for the terminal, each a list of styled
/// pieces; the caller colors the pieces and prints each line.
pub fn audit_lines(audit: &SystemAudit) -> (r: Vec<Vec<Segment>>)
    requires
        audit.counts.official + audit.counts.third_party + audit.counts.community + audit.counts.unknown
            <= usize::MAX,
    ensures
        exists|labels: Seq<Seq<char>>| sorted_repo_labels(audit.official_notices@, labels)
            && lines_view(r@) == audit_view(*audit, labels),
{
    let c = &audit.counts;
    let mut out: Vec<Vec<Segment>> = Vec::new();
    assert(lines_view(out@) =~= Seq::empty());
    push_line(&mut out, empty_line());
    push_line(&mut out, heading_line("System Audit"));
    push_line(&mut out, count_line("Installed Packages:", c.total()));
    push_line(&mut out, count_line("Official:", c.official));
    push_line(&mut out, count_line("Third Party:", c.third_party));
    push_line(&mut out, count_line("Community:", c.community));
    push_line(&mut out, count_line("Unknown:", c.unknown));
    assert(lines_view(out@) =~= audit_counts_view(audit.counts));

    let labels = repo_labels(&audit.official_notices);
    let ghost lv = string_texts(labels@);
    let ghost whole = audit_view(*audit, lv);
    let ghost before = lines_view(out@);
    if audit.official_notices.len() > 0 {
        push_line(&mut out, empty_line());
        let mut l = single_line(styled(Style::Plain, "  "));
        push_segment(&mut l, styled(Style::Heading, "Official packages:"));
        let mut count = owned(" ");
        push_decimal_u64(&mut count, audit.official_notices.len() as u64);
        push_str(&mut count, " package(s) from official repositories (");
        push_segment(&mut l, styled_string(Style::Plain, count));
        let ghost start = line_view(l@);
        let mut j: usize = 0;
        while j < labels.len()
            invariant
                j <= labels@.len(),
                lv == string_texts(labels@),
                line_view(l@) == start + joined_segments(lv.subrange(0, j as int), Style::Good, ", "@),
            decreases labels@.len() - j,
        {
            if j > 0 {
                push_segment(&mut l, styled(Style::Plain, ", "));
            }
            push_segment(&mut l, styled(Style::Good, labels[j].as_str()));
            proof {
                let p = lv.subrange(0, j + 1);
                assert(p.drop_last() =~= lv.subrange(0, j as int));
                if j == 0 {
                    assert(joined_segments(lv.subrange(0, 0), Style::Good, ", "@) =~= Seq::empty());
                }
            }
            j += 1;
            assert(line_view(l@) =~= start + joined_segments(lv.subrange(0, j as int), Style::Good, ", "@));
        }
        assert(lv.subrange(0, lv.len() as int) =~= lv);
        push_segment(&mut l, styled(Style::Plain, ") are excluded from warnings"));
        assert(line_view(l@) =~= audit_notices_view(*audit, lv)[1]);
        push_line(&mut out, l);
    }
    assert(lines_view(out@) =~= before + audit_notices_view(*audit, lv));
    push_line(&mut out, empty_line());
    push_line(&mut out, heading_line("Warnings"));
    let ghost mid = lines_view(out@);
    if audit.warnings.len() == 0 {
        let mut l = single_line(styled(Style::Plain, "    "));
        push_segment(&mut l, styled(Style::Dimmed, "No warnings found."));
        assert(line_view(l@) =~= seq![(Style::Plain, "    "@), (Style::Dimmed, "No warnings found."@)]);
        push_line(&mut out, l);
        assert(lines_view(out@) =~= mid + audit_warnings_view(*audit));
    } else {
        let mut i: usize = 0;
        while i < audit.warnings.len()
            invariant
                i <= audit.warnings@.len(),
                lines_view(out@) == mid + Seq::new(i as nat, |k: int| warning_line(audit.warnings@[k])),
            decreases audit.warnings@.len() - i,
        {
            push_line(&mut out, warning_row(&audit.warnings[i]));
            i += 1;
            assert(lines_view(out@) =~= mid + Seq::new(i as nat, |k: int| warning_line(audit.warnings@[k])));
        }
        assert(lines_view(out@) =~= mid + audit_warnings_view(*audit));
    }
    push_line(&mut out, empty_line());
    assert(lines_view(out@) =~= whole);
    out
}
} // verus!
