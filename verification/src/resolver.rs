//! Search and resolution rules: relevance ranking, merging AUR and
//! repository listings, and when cached answers are used.

use vstd::prelude::*;
use crate::backends::{copy_package, same_package, PackageInfo, PackageSource};
use crate::config::now_secs;
use crate::order::{
    key_lt, key_models, lemma_key_lt_total, lemma_stable_order_covers, lemma_stable_order_indices,
    lemma_stable_order_sorted, stable_order, stable_order_of, keys_sorted, KeyModel, SortKey,
};
use crate::text::{
    chars_eq, contains, contains_chars, owned, push_str, starts_with, starts_with_chars, str_eq,
    to_chars, to_lowercase, unicode_lowercase,
};

verus! {

// ───────────────────────────── cached entries ─────────────────────────────

/// How long cached search results stay valid, in seconds.
pub const SEARCH_CACHE_TTL_SECS: u64 = 3600;

/// How long cached info results stay valid, in seconds.
pub const INFO_CACHE_TTL_SECS: u64 = 86400;

/// Cached data with the time it was stored (UNIX seconds).
pub struct CachedEntry<T> {
    pub timestamp_secs: u64,
    pub data: T,
}

/// An entry stored at `stamp` has expired at `now` when more than `ttl`
/// seconds have passed (a clock before the stamp counts as no time passed).
pub open spec fn expired(stamp: u64, ttl: u64, now: u64) -> bool {
    (if now >= stamp { now - stamp } else { 0 }) > ttl
}

/// Whether an entry stored at `stamp` has expired at `now`.
pub fn expired_at(stamp: u64, ttl: u64, now: u64) -> (b: bool)
    ensures
        b == expired(stamp, ttl, now),
{
    now.saturating_sub(stamp) > ttl
}

impl<T> CachedEntry<T> {
    /// The data, stamped with the current time.
    pub fn new(data: T) -> (r: Self)
        ensures
            r.data == data,
    {
        CachedEntry { timestamp_secs: now_secs(), data }
    }

    /// Whether the entry has expired now, for the given lifetime.
    pub fn is_expired(&self, ttl_secs: u64) -> (b: bool)
        ensures
            exists|now: u64| b == expired(self.timestamp_secs, ttl_secs, now),
    {
        expired_at(self.timestamp_secs, ttl_secs, now_secs())
    }
}

/// The cache key of a search.
pub fn search_cache_key(query: &str) -> (r: String)
    ensures
        r@ == "search:"@ + query@,
{
    let mut r = owned("search:");
    push_str(&mut r, query);
    r
}

/// The cache key of a resolved package.
pub fn info_cache_key(package: &str) -> (r: String)
    ensures
        r@ == "info:"@ + package@,
{
    let mut r = owned("info:");
    push_str(&mut r, package);
    r
}

/// The cache key of a trust report.
pub fn trust_cache_key(name: &str, version: &str) -> (r: String)
    ensures
        r@ == "trust:"@ + name@ + "-"@ + version@,
{
    let mut r = owned("trust:");
    push_str(&mut r, name);
    push_str(&mut r, "-");
    push_str(&mut r, version);
    r
}

/// The cache key of a stored PKGBUILD.
pub fn pkgbuild_cache_key(package: &str) -> (r: String)
    ensures
        r@ == "pkgbuild:"@ + package@,
{
    let mut r = owned("pkgbuild:");
    push_str(&mut r, package);
    r
}

/// The packages that are not from the AUR, in order.
pub open spec fn without_aur(v: Seq<PackageInfo>) -> Seq<PackageInfo>
    decreases v.len(),
{
    if v.len() == 0 {
        Seq::empty()
    } else if v.last().source is Aur {
        without_aur(v.drop_last())
    } else {
        without_aur(v.drop_last()).push(v.last())
    }
}

/// Two lists hold the same packages in the same order.
pub open spec fn same_packages(a: Seq<PackageInfo>, b: Seq<PackageInfo>) -> bool {
    a.len() == b.len() && forall|i: int| 0 <= i < a.len() ==> same_package(#[trigger] a[i], b[i])
}

/// Cached search results as shown: AUR packages are dropped when the AUR is
/// disabled.
pub fn filter_cached_search(data: &Vec<PackageInfo>, aur_enabled: bool) -> (r: Vec<PackageInfo>)
    ensures
        aur_enabled ==> same_packages(r@, data@),
        !aur_enabled ==> same_packages(r@, without_aur(data@)),
{
    let mut r: Vec<PackageInfo> = Vec::new();
    let mut i: usize = 0;
    while i < data.len()
        invariant
            i <= data@.len(),
            aur_enabled ==> same_packages(r@, data@.subrange(0, i as int)),
            !aur_enabled ==> same_packages(r@, without_aur(data@.subrange(0, i as int))),
        decreases data@.len() - i,
    {
        let ghost pre = data@.subrange(0, i as int);
        assert(data@.subrange(0, i + 1).drop_last() =~= pre);
        assert(data@.subrange(0, i + 1).last() == data@[i as int]);
        let is_aur = match data[i].source {
            PackageSource::Aur => true,
            _ => false,
        };
        if aur_enabled || !is_aur {
            let c = copy_package(&data[i]);
            r.push(c);
        }
        i += 1;
    }
    assert(data@.subrange(0, data@.len() as int) =~= data@);
    r
}

/// Whether a cached resolution is used: it has not expired, and it is not an
/// AUR package while the AUR is disabled.
pub fn use_cached_info(is_expired: bool, aur_enabled: bool, source: &PackageSource) -> (b: bool)
    ensures
        b == (!is_expired && (aur_enabled || !(*source is Aur))),
{
    if is_expired {
        return false;
    }
    match source {
        PackageSource::Aur => aur_enabled,
        _ => true,
    }
}

/// Whether a PKGBUILD can be fetched for a package of this source: only AUR
/// packages have one to fetch.
pub fn fetches_pkgbuild(source: &PackageSource) -> (b: bool)
    ensures
        b == (*source is Aur),
{
    match source {
        PackageSource::Aur => true,
        _ => false,
    }
}

// ───────────────────────────── ranking ─────────────────────────────

/// Relevance ranking, lower = more relevant: 0 exact name match, 1 name
/// starts with the query, 2 name contains it, 3 description-only match,
/// 4 none.  Names and descriptions are compared in Unicode lowercase with a
/// lowercased query.
pub open spec fn relevance(name: Seq<char>, description: Seq<char>, query: Seq<char>) -> nat {
    let n = unicode_lowercase(name);
    if n == query {
        0
    } else if starts_with(n, query) {
        1
    } else if contains(n, query) {
        2
    } else if contains(unicode_lowercase(description), query) {
        3
    } else {
        4
    }
}

/// Relevance ranking: lower = more relevant.
pub fn relevance_rank(name: &str, description: &str, query: &str) -> (r: u8)
    ensures
        r == relevance(name@, description@, query@),
{
    let name_lower = to_lowercase(name);
    let nl = to_chars(name_lower.as_str());
    let q = to_chars(query);
    if chars_eq(nl.as_slice(), q.as_slice()) {
        0
    } else if starts_with_chars(nl.as_slice(), q.as_slice()) {
        1
    } else if contains_chars(nl.as_slice(), q.as_slice()) {
        2
    } else {
        let desc_lower = to_lowercase(description);
        let dl = to_chars(desc_lower.as_str());
        if contains_chars(dl.as_slice(), q.as_slice()) {
            3
        } else {
            4
        }
    }
}

/// The order of sources: official, third party, AUR, unknown.
pub open spec fn source_order(s: PackageSource) -> nat {
    match s {
        PackageSource::Official { .. } => 0,
        PackageSource::ThirdParty => 1,
        PackageSource::Aur => 2,
        PackageSource::Unknown => 3,
    }
}

/// The rank of a source: official first, unknown last.
pub fn source_rank(source: &PackageSource) -> (r: u8)
    ensures
        r == source_order(*source),
{
    match source {
        PackageSource::Official { .. } => 0,
        PackageSource::ThirdParty => 1,
        PackageSource::Aur => 2,
        PackageSource::Unknown => 3,
    }
}

/// The ordering key of a search result: relevance, then source (both folded
/// into one number, as a source rank is below 4), then name.
pub open spec fn search_key(p: PackageInfo, query: Seq<char>) -> KeyModel {
    ((relevance(p.name@, p.description@, query) * 4 + source_order(p.source)) as int, p.name@, Seq::empty())
}

/// The `j`-th package is the last one of its name among the first `n`.
pub open spec fn last_among(all: Seq<PackageInfo>, n: int, j: int) -> bool {
    &&& 0 <= j < n
    &&& forall|j2: int| j < j2 < n ==> #[trigger] all[j2].name@ != all[j].name@
}

/// The search results for `all` listings: each result is the last listing of
/// its name, every listed name has a result, and results are strictly
/// ordered by relevance, source and name.
pub open spec fn search_result(r: Seq<PackageInfo>, all: Seq<PackageInfo>, query: Seq<char>) -> bool {
    &&& forall|k: int| 0 <= k < r.len() ==> exists|j: int| last_among(all, all.len() as int, j)
        && same_package(#[trigger] r[k], all[j])
    &&& forall|j: int| 0 <= j < all.len() ==> exists|k: int| 0 <= k < r.len()
        && #[trigger] r[k].name@ == #[trigger] all[j].name@
    &&& forall|a: int, b: int| 0 <= a < b < r.len() ==> key_lt(search_key(#[trigger] r[a], query), search_key(#[trigger] r[b], query))
}

/// The position of the package named `name`, if any.
fn position_named(v: &Vec<PackageInfo>, name: &str) -> (r: Option<usize>)
    ensures
        match r {
            Some(k) => k < v@.len() && v@[k as int].name@ == name@,
            None => forall|x: int| 0 <= x < v@.len() ==> #[trigger] v@[x].name@ != name@,
        },
{
    let mut i: usize = 0;
    while i < v.len()
        invariant
            i <= v@.len(),
            forall|x: int| 0 <= x < i ==> #[trigger] v@[x].name@ != name@,
        decreases v@.len() - i,
    {
        if str_eq(v[i].name.as_str(), name) {
            return Some(i);
        }
        i += 1;
    }
    None
}

/// The packages of `acc` are the last listings of their names among the
/// first `n` of `all`.
pub open spec fn all_last(acc: Seq<PackageInfo>, all: Seq<PackageInfo>, n: int) -> bool {
    forall|k: int| 0 <= k < acc.len() ==> exists|j: int| last_among(all, n, j) && same_package(#[trigger] acc[k], all[j])
}

/// Some package of `acc` has the name.
pub open spec fn has_name(acc: Seq<PackageInfo>, name: Seq<char>) -> bool {
    exists|k: int| 0 <= k < acc.len() && #[trigger] acc[k].name@ == name
}

/// Every name among the first `n` of `all` has a package in `acc`.
pub open spec fn all_named(acc: Seq<PackageInfo>, all: Seq<PackageInfo>, n: int) -> bool {
    forall|j: int| 0 <= j < n ==> has_name(acc, #[trigger] all[j].name@)
}

/// No name occurs twice.
pub open spec fn distinct_names(acc: Seq<PackageInfo>) -> bool {
    forall|a: int, b: int| 0 <= a < acc.len() && 0 <= b < acc.len() && a != b ==> #[trigger] acc[a].name@ != #[trigger] acc[b].name@
}

/// The winners so far among the first `n` listings.
pub open spec fn winners(acc: Seq<PackageInfo>, all: Seq<PackageInfo>, n: int) -> bool {
    all_last(acc, all, n) && all_named(acc, all, n) && distinct_names(acc)
}

/// The position in the old list of a package kept after removing `k0`.
spec fn kept_index(k0: Option<int>, x: int) -> int {
    match k0 {
        Some(k) => if x < k { x } else { x + 1 },
        None => x,
    }
}

/// What one more listing does to the winners: the package of the same name,
/// if any, is removed, and the listing is added.
spec fn step_shape(old_acc: Seq<PackageInfo>, mid: Seq<PackageInfo>, new_acc: Seq<PackageInfo>, p: PackageInfo, k0: Option<int>) -> bool {
    &&& match k0 {
        Some(k) => 0 <= k < old_acc.len() && old_acc[k].name@ == p.name@ && mid.len() == old_acc.len() - 1,
        None => (forall|x: int| 0 <= x < old_acc.len() ==> #[trigger] old_acc[x].name@ != p.name@) && mid.len() == old_acc.len(),
    }
    &&& forall|x: int| 0 <= x < mid.len() ==> #[trigger] mid[x] == old_acc[kept_index(k0, x)]
    &&& k0 is Some ==> forall|x: int| 0 <= x < mid.len() ==> kept_index(k0, x) != k0->0
    &&& new_acc.len() == mid.len() + 1
    &&& forall|x: int| 0 <= x < mid.len() ==> #[trigger] new_acc[x] == mid[x]
    &&& same_package(new_acc[mid.len() as int], p)
}

/// The kept packages have other names than the new listing.
proof fn lemma_kept_names(old_acc: Seq<PackageInfo>, mid: Seq<PackageInfo>, new_acc: Seq<PackageInfo>, p: PackageInfo, k0: Option<int>)
    requires
        distinct_names(old_acc),
        step_shape(old_acc, mid, new_acc, p, k0),
    ensures
        forall|x: int| 0 <= x < mid.len() ==> #[trigger] mid[x].name@ != p.name@,
{
    assert forall|x: int| 0 <= x < mid.len() implies #[trigger] mid[x].name@ != p.name@ by {
        let y = kept_index(k0, x);
        assert(mid[x] == old_acc[y]);
        if k0 is Some {
            let k = k0->0;
            assert(y != k);
            assert(old_acc[y].name@ != old_acc[k].name@);
        }
    }
}

/// One more listing keeps every winner the last of its name.
proof fn lemma_step_last(old_acc: Seq<PackageInfo>, mid: Seq<PackageInfo>, new_acc: Seq<PackageInfo>, all: Seq<PackageInfo>, i: int, k0: Option<int>)
    requires
        0 <= i < all.len(),
        all_last(old_acc, all, i),
        distinct_names(old_acc),
        step_shape(old_acc, mid, new_acc, all[i], k0),
    ensures
        all_last(new_acc, all, i + 1),
{
    lemma_kept_names(old_acc, mid, new_acc, all[i], k0);
    assert forall|x: int| 0 <= x < new_acc.len() implies exists|j: int| last_among(all, i + 1, j) && same_package(#[trigger] new_acc[x], all[j]) by {
        if x == mid.len() {
            assert(last_among(all, i + 1, i));
        } else {
            let y = kept_index(k0, x);
            assert(new_acc[x] == old_acc[y]);
            assert(mid[x].name@ != all[i].name@);
            let j = choose|j: int| last_among(all, i, j) && same_package(old_acc[y], all[j]);
            assert(last_among(all, i + 1, j));
        }
    }
}

/// One more listing keeps every name listed.
proof fn lemma_step_named(old_acc: Seq<PackageInfo>, mid: Seq<PackageInfo>, new_acc: Seq<PackageInfo>, all: Seq<PackageInfo>, i: int, k0: Option<int>)
    requires
        0 <= i < all.len(),
        all_named(old_acc, all, i),
        step_shape(old_acc, mid, new_acc, all[i], k0),
    ensures
        all_named(new_acc, all, i + 1),
{
    assert forall|j: int| 0 <= j < i + 1 implies has_name(new_acc, #[trigger] all[j].name@) by {
        if all[j].name@ == all[i].name@ {
            assert(new_acc[mid.len() as int].name@ == all[j].name@);
        } else {
            assert(has_name(old_acc, all[j].name@));
            let k = choose|k: int| 0 <= k < old_acc.len() && old_acc[k].name@ == all[j].name@;
            let x = match k0 {
                Some(k1) => if k < k1 { k } else { k - 1 },
                None => k,
            };
            if k0 is Some {
                assert(k != k0->0);
            }
            assert(kept_index(k0, x) == k);
            assert(mid[x] == old_acc[k]);
            assert(new_acc[x].name@ == all[j].name@);
        }
    }
}

/// One more listing keeps names distinct.
proof fn lemma_step_distinct(old_acc: Seq<PackageInfo>, mid: Seq<PackageInfo>, new_acc: Seq<PackageInfo>, p: PackageInfo, k0: Option<int>)
    requires
        distinct_names(old_acc),
        step_shape(old_acc, mid, new_acc, p, k0),
    ensures
        distinct_names(new_acc),
{
    lemma_kept_names(old_acc, mid, new_acc, p, k0);
    assert forall|a: int, b: int| 0 <= a < new_acc.len() && 0 <= b < new_acc.len() && a != b implies #[trigger] new_acc[a].name@ != #[trigger] new_acc[b].name@ by {
        if a < mid.len() && b < mid.len() {
            let ya = kept_index(k0, a);
            let yb = kept_index(k0, b);
            assert(mid[a] == old_acc[ya]);
            assert(mid[b] == old_acc[yb]);
            assert(old_acc[ya].name@ != old_acc[yb].name@);
        } else if a < mid.len() {
            assert(mid[a].name@ != p.name@);
        } else {
            assert(mid[b].name@ != p.name@);
        }
    }
}

/// Takes one more listing: it replaces the package of the same name.
fn absorb(acc: &mut Vec<PackageInfo>, p: &PackageInfo, Ghost(all): Ghost<Seq<PackageInfo>>, Ghost(i): Ghost<int>)
    requires
        0 <= i < all.len(),
        all[i] == *p,
        winners(old(acc)@, all, i),
    ensures
        winners(final(acc)@, all, i + 1),
{
    let ghost old_acc = acc@;
    let found = position_named(acc, p.name.as_str());
    let ghost k0: Option<int> = match found {
        Some(k) => Some(k as int),
        None => None,
    };
    match found {
        Some(k) => {
            acc.remove(k);
        },
        None => {},
    }
    let ghost mid = acc@;
    let c = copy_package(p);
    acc.push(c);
    proof {
        assert forall|x: int| 0 <= x < mid.len() implies #[trigger] mid[x] == old_acc[kept_index(k0, x)] by {}
        lemma_step_last(old_acc, mid, acc@, all, i, k0);
        lemma_step_named(old_acc, mid, acc@, all, i, k0);
        lemma_step_distinct(old_acc, mid, acc@, all[i], k0);
    }
}

/// The search key of a package, computed.
fn search_key_of(p: &PackageInfo, query: &str) -> (k: SortKey)
    ensures
        (k.0 as int, k.1@, k.2@) == search_key(*p, query@),
{
    let rel = relevance_rank(p.name.as_str(), p.description.as_str(), query);
    let src = source_rank(&p.source);
    ((rel as i64) * 4 + (src as i64), to_chars(p.name.as_str()), Vec::new())
}

/// Search results from AUR and repository listings: one package per name,
/// the last listing winning (repository listings come after the AUR's, so
/// they win), ordered by relevance to the query (compared lowercased), then
/// source, then name.
pub fn merge_search_results(aur: &Vec<PackageInfo>, official: &Vec<PackageInfo>, query: &str) -> (r: Vec<PackageInfo>)
    ensures
        search_result(r@, aur@ + official@, unicode_lowercase(query@)),
{
    let ghost all = aur@ + official@;
    let mut acc: Vec<PackageInfo> = Vec::new();
    let mut i: usize = 0;
    while i < aur.len()
        invariant
            all == aur@ + official@,
            i <= aur@.len(),
            winners(acc@, all, i as int),
        decreases aur@.len() - i,
    {
        assert(all[i as int] == aur@[i as int]);
        absorb(&mut acc, &aur[i], Ghost(all), Ghost(i as int));
        i += 1;
    }
    let mut i: usize = 0;
    while i < official.len()
        invariant
            all == aur@ + official@,
            i <= official@.len(),
            winners(acc@, all, aur@.len() + i),
        decreases official@.len() - i,
    {
        assert(all[aur@.len() + i] == official@[i as int]);
        absorb(&mut acc, &official[i], Ghost(all), Ghost(aur@.len() + i));
        i += 1;
    }
    let q = to_lowercase(query);
    let ghost ql = unicode_lowercase(query@);
    let mut keys: Vec<SortKey> = Vec::new();
    let mut j: usize = 0;
    while j < acc.len()
        invariant
            j <= acc@.len(),
            q@ == ql,
            keys@.len() == j,
            forall|x: int| 0 <= x < j ==> #[trigger] key_models(keys@)[x] == search_key(acc@[x], ql),
            winners(acc@, aur@ + official@, (aur@ + official@).len() as int),
        decreases acc@.len() - j,
    {
        let k = search_key_of(&acc[j], q.as_str());
        let ghost before = keys@;
        keys.push(k);
        assert(keys@ == before.push(k));
        assert(key_models(keys@)[j as int] == search_key(acc@[j as int], ql));
        assert forall|x: int| 0 <= x < j + 1 implies #[trigger] key_models(keys@)[x] == search_key(acc@[x], ql) by {
            if x < j {
                assert(keys@[x] == before[x]);
                assert(key_models(before)[x] == search_key(acc@[x], ql));
            }
        }
        j += 1;
    }
    let ghost km = key_models(keys@);
    let order = stable_order_of(&keys);
    let ghost n = acc@.len();
    proof {
        lemma_stable_order_indices(km, n);
        lemma_stable_order_sorted(km, n);
    }
    let mut r: Vec<PackageInfo> = Vec::new();
    let mut k: usize = 0;
    while k < order.len()
        invariant
            n == acc@.len(),
            winners(acc@, all, all.len() as int),
            keys_sorted(km, stable_order(km, n)),
            km == key_models(keys@),
            forall|x: int| 0 <= x < n ==> #[trigger] km[x] == search_key(acc@[x], ql),
            order@.len() == n,
            forall|y: int| 0 <= y < n ==> order@[y] as int == #[trigger] stable_order(km, n)[y],
            forall|y: int| 0 <= y < n ==> #[trigger] order@[y] < n,
            k <= n,
            r@.len() == k,
            forall|y: int| 0 <= y < k ==> same_package(#[trigger] r@[y], acc@[order@[y] as int]),
        decreases n - k,
    {
        let c = copy_package(&acc[order[k]]);
        r.push(c);
        k += 1;
    }
    proof {
        let so = stable_order(km, n);
        assert forall|y: int| 0 <= y < r@.len() implies exists|j: int| last_among(all, all.len() as int, j)
            && same_package(#[trigger] r@[y], all[j]) by {
            let x = order@[y] as int;
            let j = choose|j: int| last_among(all, all.len() as int, j) && same_package(acc@[x], all[j]);
        }
        assert forall|j: int| 0 <= j < all.len() implies exists|y: int| 0 <= y < r@.len()
            && #[trigger] r@[y].name@ == #[trigger] all[j].name@ by {
            assert(has_name(acc@, all[j].name@));
            let x = choose|x: int| 0 <= x < acc@.len() && acc@[x].name@ == all[j].name@;
            lemma_stable_order_covers(km, n, x);
            let y = choose|y: int| 0 <= y < n && so[y] == x;
            assert(r@[y].name@ == acc@[x].name@);
        }
        assert forall|a: int, b: int| 0 <= a < b < r@.len() implies key_lt(search_key(#[trigger] r@[a], ql), search_key(#[trigger] r@[b], ql)) by {
            let xa = so[a];
            let xb = so[b];
            assert(!key_lt(km[so[b]], km[so[a]]));
            assert(xa != xb);
            assert(acc@[xa].name@ != acc@[xb].name@);
            assert(km[xa] != km[xb]);
            lemma_key_lt_total(km[xa], km[xb]);
        }
    }
    r
}


// ───────────────────────────── laws ─────────────────────────────

/// Search results are ordered by relevance first: a more relevant result
/// (exact name, then name prefix, name substring, description) comes before a
/// less relevant one whatever their sources; among equally relevant results
/// a better source (official, third party, AUR, unknown) comes first.
pub proof fn law_relevance_before_source(
    r: Seq<PackageInfo>,
    all: Seq<PackageInfo>,
    query: Seq<char>,
    a: int,
    b: int,
)
    requires
        search_result(r, all, query),
        0 <= a < r.len(),
        0 <= b < r.len(),
    ensures
        relevance(r[a].name@, r[a].description@, query) < relevance(r[b].name@, r[b].description@, query)
            ==> a < b,
        relevance(r[a].name@, r[a].description@, query) == relevance(r[b].name@, r[b].description@, query)
            && source_order(r[a].source) < source_order(r[b].source) ==> a < b,
{
    if b < a {
        assert(key_lt(search_key(r[b], query), search_key(r[a], query)));
    }
}

/// Search results hold each name once.
pub proof fn law_search_names_unique(r: Seq<PackageInfo>, all: Seq<PackageInfo>, query: Seq<char>, a: int, b: int)
    requires
        search_result(r, all, query),
        0 <= a < b < r.len(),
    ensures
        r[a].name@ != r[b].name@,
{
    let ja = choose|j: int| last_among(all, all.len() as int, j) && same_package(r[a], all[j]);
    let jb = choose|j: int| last_among(all, all.len() as int, j) && same_package(r[b], all[j]);
    if r[a].name@ == r[b].name@ {
        if ja < jb {
            assert(all[jb].name@ != all[ja].name@);
        } else if jb < ja {
            assert(all[ja].name@ != all[jb].name@);
        }
        assert(ja == jb);
        assert(search_key(r[a], query) == search_key(r[b], query));
        crate::order::lemma_key_lt_irreflexive(search_key(r[a], query));
        assert(key_lt(search_key(r[a], query), search_key(r[b], query)));
    }
}

/// A package listed by the repositories wins over an AUR package of the same
/// name: the result of that name is the last repository listing of it.
pub proof fn law_repository_listing_wins(
    r: Seq<PackageInfo>,
    aur: Seq<PackageInfo>,
    official: Seq<PackageInfo>,
    query: Seq<char>,
    j: int,
)
    requires
        search_result(r, aur + official, query),
        last_among(official, official.len() as int, j),
    ensures
        exists|k: int| 0 <= k < r.len() && same_package(#[trigger] r[k], official[j]),
{
    let all = aur + official;
    let ja = aur.len() + j;
    assert(all[ja] == official[j]);
    assert(has_name_in(r, all[ja].name@)) by {
        let k = choose|k: int| 0 <= k < r.len() && #[trigger] r[k].name@ == #[trigger] all[ja].name@;
    }
    let k = choose|k: int| 0 <= k < r.len() && r[k].name@ == all[ja].name@;
    let jk = choose|jj: int| last_among(all, all.len() as int, jj) && same_package(r[k], all[jj]);
    assert(all[jk].name@ == all[ja].name@);
    if jk < ja {
        assert(all[ja].name@ != all[jk].name@);
    } else if ja < jk {
        assert(all[jk] == official[jk - aur.len()]);
        assert(official[jk - aur.len()].name@ != official[j].name@);
    }
    assert(jk == ja);
    assert(same_package(r[k], official[j]));
}

/// Some result has the name.
spec fn has_name_in(r: Seq<PackageInfo>, name: Seq<char>) -> bool {
    exists|k: int| 0 <= k < r.len() && r[k].name@ == name
}

} // verus!
