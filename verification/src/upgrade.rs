//! Self-update decisions: comparing release versions, the daily update
//! check, and picking the release to build.

use vstd::prelude::*;
use crate::config::Config;
use crate::text::{digits_value, owned, split_dots, split_on_dots, string_of, texts, to_chars};

verus! {

/// This release of the program.
pub open spec fn this_version() -> Seq<char> {
    "1.0.0"@
}

/// Get the current CPAC version.
pub fn current_version() -> (r: &'static str)
    ensures
        r@ == this_version(),
{
    "1.0.0"
}

/// `s` without its leading `'v'` characters.
pub open spec fn strip_v(s: Seq<char>) -> Seq<char>
    decreases s.len(),
{
    if s.len() > 0 && s[0] == 'v' { strip_v(s.drop_first()) } else { s }
}

/// Every character is an ASCII digit.
pub open spec fn all_digits(d: Seq<char>) -> bool {
    forall|i: int| 0 <= i < d.len() ==> '0' <= #[trigger] d[i] && d[i] <= '9'
}

/// The digits of a number text: without one leading `'+'`.
pub open spec fn unsigned_digits(s: Seq<char>) -> Seq<char> {
    if s.len() > 0 && s[0] == '+' { s.drop_first() } else { s }
}

/// A version piece as `u32::from_str` reads it: an optional `'+'` before one
/// or more ASCII digits, with a value that fits in a `u32`.
pub open spec fn u32_value(s: Seq<char>) -> Option<nat> {
    let d = unsigned_digits(s);
    if d.len() == 0 || !all_digits(d) || digits_value(d) > u32::MAX {
        None
    } else {
        Some(digits_value(d) as nat)
    }
}

/// The numbers of the pieces that read as numbers, in order.
pub open spec fn piece_numbers(ps: Seq<Seq<char>>) -> Seq<nat>
    decreases ps.len(),
{
    if ps.len() == 0 {
        Seq::empty()
    } else {
        let rest = piece_numbers(ps.drop_last());
        match u32_value(strip_v(ps.last())) {
            Some(n) => rest.push(n),
            None => rest,
        }
    }
}

/// The numbers of a version: its dot-separated pieces, each without leading
/// `'v'`s, that read as numbers (the others are skipped).
pub open spec fn version_numbers(v: Seq<char>) -> Seq<nat> {
    piece_numbers(split_on_dots(v))
}

/// Lexicographic order on number lists, a proper prefix first.
pub open spec fn numbers_lt(a: Seq<nat>, b: Seq<nat>) -> bool
    decreases a.len(),
{
    if b.len() == 0 {
        false
    } else if a.len() == 0 {
        true
    } else if a[0] != b[0] {
        a[0] < b[0]
    } else {
        numbers_lt(a.drop_first(), b.drop_first())
    }
}

/// `latest` names a newer release than `current`.
pub open spec fn newer(latest: Seq<char>, current: Seq<char>) -> bool {
    numbers_lt(version_numbers(current), version_numbers(latest))
}

/// The piece without its leading `'v'`s.
fn strip_v_exec(s: &[char]) -> (r: Vec<char>)
    ensures
        r@ == strip_v(s@),
{
    let mut i: usize = 0;
    assert(s@.subrange(0, s@.len() as int) =~= s@);
    while i < s.len() && s[i] == 'v'
        invariant
            i <= s@.len(),
            strip_v(s@) == strip_v(s@.subrange(i as int, s@.len() as int)),
        decreases s@.len() - i,
    {
        assert(s@.subrange(i as int, s@.len() as int).drop_first() =~= s@.subrange(i + 1, s@.len() as int));
        i += 1;
    }
    let mut r: Vec<char> = Vec::new();
    let mut j: usize = i;
    while j < s.len()
        invariant
            i <= j <= s@.len(),
            r@ == s@.subrange(i as int, j as int),
        decreases s@.len() - j,
    {
        r.push(s[j]);
        j += 1;
        assert(r@ =~= s@.subrange(i as int, j as int));
    }
    r
}

/// The value of a version piece, as `u32::from_str` reads it.
fn parse_u32(s: &[char]) -> (r: Option<u32>)
    ensures
        match r {
            Some(v) => u32_value(s@) == Some(v as nat),
            None => u32_value(s@) is None,
        },
{
    let start: usize = if s.len() > 0 && s[0] == '+' { 1 } else { 0 };
    let ghost d = unsigned_digits(s@);
    assert(d =~= s@.subrange(start as int, s@.len() as int));
    if start >= s.len() {
        return None;
    }
    let mut v: u64 = 0;
    let mut i: usize = start;
    while i < s.len()
        invariant
            start <= i <= s@.len(),
            start < s@.len(),
            d == unsigned_digits(s@),
            d =~= s@.subrange(start as int, s@.len() as int),
            forall|j: int| start <= j < i ==> '0' <= #[trigger] s@[j] && s@[j] <= '9',
            v == digits_value(s@.subrange(start as int, i as int)),
            v <= u32::MAX,
        decreases s@.len() - i,
    {
        let c = s[i];
        if !('0' <= c && c <= '9') {
            proof {
                assert(d[i - start] == c);
                assert(!('0' <= d[i - start] && d[i - start] <= '9'));
                assert(u32_value(s@) is None);
            }
            return None;
        }
        assert(s@.subrange(start as int, i + 1).drop_last() =~= s@.subrange(start as int, i as int));
        let digit: u64 = (c as u64) - ('0' as u64);
        let nv: u64 = v * 10 + digit;
        if nv > 4294967295 {
            proof {
                let pre = s@.subrange(start as int, i + 1);
                assert(pre.last() == c);
                assert(digits_value(pre) == v * 10 + digit);
                if all_digits(d) {
                    lemma_digits_value_grows(d, (i + 1 - start) as int);
                    assert(d.subrange(0, i + 1 - start) =~= pre);
                    assert(digits_value(d) > u32::MAX);
                }
                assert(u32_value(s@) is None);
            }
            return None;
        }
        v = nv;
        i += 1;
    }
    assert(s@.subrange(start as int, s@.len() as int) =~= d);
    assert forall|j: int| 0 <= j < d.len() implies '0' <= #[trigger] d[j] && d[j] <= '9' by {
        assert(d[j] == s@[start + j]);
    }
    assert(all_digits(d));
    Some(v as u32)
}

/// A digit string is worth at least any of its prefixes.
proof fn lemma_digits_value_grows(d: Seq<char>, k: int)
    requires
        0 <= k <= d.len(),
        all_digits(d),
    ensures
        digits_value(d.subrange(0, k)) <= digits_value(d),
    decreases d.len() - k,
{
    if k < d.len() {
        lemma_digits_value_grows(d, k + 1);
        assert(d.subrange(0, k + 1).drop_last() =~= d.subrange(0, k));
        lemma_digits_value_nonneg(d.subrange(0, k));
        assert(d.subrange(0, k + 1).last() == d[k]);
    } else {
        assert(d.subrange(0, k) =~= d);
    }
}

/// A digit string is worth at least 0.
proof fn lemma_digits_value_nonneg(d: Seq<char>)
    requires
        forall|j: int| 0 <= j < d.len() ==> '0' <= #[trigger] d[j] && d[j] <= '9',
    ensures
        digits_value(d) >= 0,
    decreases d.len(),
{
    if d.len() > 0 {
        lemma_digits_value_nonneg(d.drop_last());
    }
}

/// The numbers of a version.
fn parse_version(v: &str) -> (r: Vec<u32>)
    ensures
        r@.map_values(|n: u32| n as nat) == version_numbers(v@),
{
    let chars = to_chars(v);
    let pieces = split_dots(chars.as_slice());
    let ghost ps = texts(pieces@);
    let mut r: Vec<u32> = Vec::new();
    let mut i: usize = 0;
    while i < pieces.len()
        invariant
            ps == texts(pieces@),
            ps == split_on_dots(v@),
            i <= pieces@.len(),
            r@.map_values(|n: u32| n as nat) == piece_numbers(ps.subrange(0, i as int)),
        decreases pieces@.len() - i,
    {
        let ghost before = r@;
        let stripped = strip_v_exec(pieces[i].as_slice());
        let n = parse_u32(stripped.as_slice());
        proof {
            let pre = ps.subrange(0, i + 1);
            assert(pre.drop_last() =~= ps.subrange(0, i as int));
            assert(pre.last() == pieces@[i as int]@);
        }
        match n {
            Some(x) => {
                r.push(x);
                assert(r@.map_values(|n: u32| n as nat) =~= before.map_values(|n: u32| n as nat).push(x as nat));
            },
            None => {},
        }
        i += 1;
    }
    assert(ps.subrange(0, pieces@.len() as int) =~= ps);
    r
}

/// Compare two semver-like version strings (e.g. "0.8.1" vs "0.8.0").
/// Returns true if `latest` is newer than `current`.
pub fn is_newer(latest: &str, current: &str) -> (b: bool)
    ensures
        b == newer(latest@, current@),
{
    let lv = parse_version(latest);
    let cv = parse_version(current);
    let ghost l = lv@.map_values(|n: u32| n as nat);
    let ghost c = cv@.map_values(|n: u32| n as nat);
    let mut i: usize = 0;
    proof {
        assert(c.subrange(0, c.len() as int) =~= c);
        assert(l.subrange(0, l.len() as int) =~= l);
    }
    while i < cv.len() && i < lv.len() && cv[i] == lv[i]
        invariant
            i <= cv@.len(),
            i <= lv@.len(),
            l == lv@.map_values(|n: u32| n as nat),
            c == cv@.map_values(|n: u32| n as nat),
            numbers_lt(c, l) == numbers_lt(c.subrange(i as int, c.len() as int), l.subrange(i as int, l.len() as int)),
        decreases cv@.len() - i,
    {
        assert(c.subrange(i as int, c.len() as int).drop_first() =~= c.subrange(i + 1, c.len() as int));
        assert(l.subrange(i as int, l.len() as int).drop_first() =~= l.subrange(i + 1, l.len() as int));
        i += 1;
    }
    proof {
        assert(c.subrange(0, c.len() as int) =~= c);
        assert(l.subrange(0, l.len() as int) =~= l);
    }
    if i == lv.len() {
        false
    } else if i == cv.len() {
        true
    } else {
        cv[i] < lv[i]
    }
}

// ───────────────────────────── laws of the version order ─────────────────────────────

/// No number list orders before itself.
proof fn lemma_numbers_lt_irreflexive(a: Seq<nat>)
    ensures
        !numbers_lt(a, a),
    decreases a.len(),
{
    if a.len() > 0 {
        lemma_numbers_lt_irreflexive(a.drop_first());
    }
}

/// The number list order is transitive.
proof fn lemma_numbers_lt_transitive(a: Seq<nat>, b: Seq<nat>, c: Seq<nat>)
    requires
        numbers_lt(a, b),
        numbers_lt(b, c),
    ensures
        numbers_lt(a, c),
    decreases a.len(),
{
    if a.len() > 0 && b.len() > 0 && c.len() > 0 && a[0] == b[0] && b[0] == c[0] {
        lemma_numbers_lt_transitive(a.drop_first(), b.drop_first(), c.drop_first());
    }
}

/// The number list order is asymmetric.
proof fn lemma_numbers_lt_asymmetric(a: Seq<nat>, b: Seq<nat>)
    requires
        numbers_lt(a, b),
    ensures
        !numbers_lt(b, a),
{
    if numbers_lt(b, a) {
        lemma_numbers_lt_transitive(a, b, a);
        lemma_numbers_lt_irreflexive(a);
    }
}

/// No version is newer than itself.
pub proof fn law_newer_irreflexive(v: Seq<char>)
    ensures
        !newer(v, v),
{
    lemma_numbers_lt_irreflexive(version_numbers(v));
}

/// Of two versions, at most one is newer than the other.
pub proof fn law_newer_asymmetric(a: Seq<char>, b: Seq<char>)
    requires
        newer(a, b),
    ensures
        !newer(b, a),
{
    lemma_numbers_lt_asymmetric(version_numbers(b), version_numbers(a));
}

/// A version newer than a version newer than a third is newer than the third.
pub proof fn law_newer_transitive(a: Seq<char>, b: Seq<char>, c: Seq<char>)
    requires
        newer(a, b),
        newer(b, c),
    ensures
        newer(a, c),
{
    lemma_numbers_lt_transitive(version_numbers(c), version_numbers(b), version_numbers(a));
}

// ───────────────────────────── the update check ─────────────────────────────

/// A newer release than the running one.
pub struct UpdateInfo {
    pub latest_version: String,
    pub current_version: String,
}

/// The update offered when `latest` is newer than this release.
pub open spec fn offered(r: Option<UpdateInfo>, latest: Seq<char>) -> bool {
    if newer(latest, this_version()) {
        r matches Some(info) && info.latest_version@ == latest && info.current_version@ == this_version()
    } else {
        r is None
    }
}

/// The update offered when `latest` is newer than this release.
fn offer(latest: &str) -> (r: Option<UpdateInfo>)
    ensures
        offered(r, latest@),
{
    let current = current_version();
    if is_newer(latest, current) {
        Some(UpdateInfo { latest_version: owned(latest), current_version: owned(current) })
    } else {
        None
    }
}

/// What the update check does next.
pub enum UpdateCheck {
    /// The check from the last day decides: this update, if any.
    Known(Option<UpdateInfo>),
    /// The latest release must be fetched (see `update_from_tag`).
    FetchLatest,
}

/// The last check, made less than a day before `now`, still stands.
pub open spec fn check_is_recent(c: Config, now: u64) -> bool {
    (if now >= c.last_update_check { now - c.last_update_check } else { 0 }) < 86400
}

/// Check if a newer version is available, given the loaded configuration
/// (`None` when it could not be loaded) and the time: a check made in the
/// last 24 hours decides from its cached version; otherwise the latest
/// release must be fetched.
pub fn check_for_update(loaded: Option<&Config>, now: u64) -> (r: UpdateCheck)
    ensures
        match loaded {
            Some(c) => if check_is_recent(*c, now) {
                r matches UpdateCheck::Known(info) && match c.cached_latest_version {
                    Some(v) => offered(info, v@),
                    None => info is None,
                }
            } else {
                r is FetchLatest
            },
            None => r is FetchLatest,
        },
{
    match loaded {
        Some(c) => {
            if now.saturating_sub(c.last_update_check) < 86400 {
                match &c.cached_latest_version {
                    Some(v) => UpdateCheck::Known(offer(v.as_str())),
                    None => UpdateCheck::Known(None),
                }
            } else {
                UpdateCheck::FetchLatest
            }
        },
        None => UpdateCheck::FetchLatest,
    }
}

/// The outcome of a fetched release tag: the version to record as checked
/// (the tag without leading `'v'`s) and the update it offers.
pub fn update_from_tag(tag: &str) -> (r: (String, Option<UpdateInfo>))
    ensures
        r.0@ == strip_v(tag@),
        offered(r.1, strip_v(tag@)),
{
    let chars = to_chars(tag);
    let stripped = strip_v_exec(chars.as_slice());
    let version = string_of(stripped.as_slice());
    let info = offer(version.as_str());
    (version, info)
}

/// A release as the GitHub API lists it.
pub struct GhRelease {
    pub tag_name: String,
    pub prerelease: bool,
    pub draft: bool,
}

/// The tag of the first release in the list that is not a draft.
pub fn first_release_tag(releases: &Vec<GhRelease>) -> (r: Option<String>)
    ensures
        match r {
            Some(t) => exists|i: int| 0 <= i < releases@.len() && !releases@[i].draft
                && (forall|j: int| 0 <= j < i ==> #[trigger] releases@[j].draft)
                && t == releases@[i].tag_name,
            None => forall|i: int| 0 <= i < releases@.len() ==> #[trigger] releases@[i].draft,
        },
{
    let mut i: usize = 0;
    while i < releases.len()
        invariant
            i <= releases@.len(),
            forall|j: int| 0 <= j < i ==> #[trigger] releases@[j].draft,
        decreases releases@.len() - i,
    {
        if !releases[i].draft {
            return Some(releases[i].tag_name.clone());
        }
        i += 1;
    }
    None
}

/// Whether a file mode gives its owner write permission.
pub fn owner_can_write(mode: u32) -> (b: bool)
    ensures
        b == (mode & 0x80u32 != 0),
{
    mode & 0x80u32 != 0
}


/// A check recorded at `now` stands for the next day: the update check at
/// that time decides from the recorded version.
pub proof fn law_recorded_check_stands(c: Config, now: u64)
    ensures
        check_is_recent(Config { last_update_check: now, ..c }, now),
{
}

} // verus!
