//! AUR records as the RPC interface returns them, and the checks made on a
//! fetched PKGBUILD.

use vstd::prelude::*;
use crate::backends::{PackageInfo, PackageSource};
use crate::text::{contains, contains_str, owned, push_str, to_chars, trim, trimmed};

verus! {

/// The AUR RPC endpoint.
pub open spec fn aur_rpc_url() -> Seq<char> {
    "https://aur.archlinux.org/rpc/"@
}

/// The AUR RPC endpoint.
pub fn rpc_url() -> (r: &'static str)
    ensures
        r@ == aur_rpc_url(),
{
    "https://aur.archlinux.org/rpc/"
}

/// An individual package from the AUR RPC.  Dates are UNIX timestamps in
/// seconds; the popularity is kept as the bits of its IEEE-754 value.
#[derive(Debug)]
pub struct AurPackage {
    pub name: String,
    pub version: String,
    pub description: Option<String>,
    pub maintainer: Option<String>,
    pub num_votes: Option<u32>,
    pub popularity_bits: Option<u64>,
    pub first_submitted: Option<i64>,
    pub last_modified: Option<i64>,
    pub out_of_date: Option<i64>,
    pub url: Option<String>,
    pub license: Option<Vec<String>>,
    pub depends: Option<Vec<String>>,
}

/// The earliest UNIX timestamp chrono represents: the start of its first date.
pub const MIN_UTC_SECS: i64 = -8334601228800;

/// The latest UNIX timestamp chrono represents: the last second of its last
/// date, December 31 of year 262142.
pub const MAX_UTC_SECS: i64 = 8210266876799;

/// Whether chrono represents the UNIX timestamp (whole seconds) as a
/// `DateTime<Utc>`: from the start of its first date to the end of its last.
pub open spec fn utc_timestamp_representable(secs: i64) -> bool {
    MIN_UTC_SECS <= secs <= MAX_UTC_SECS
}

/// Calls `chrono::DateTime::from_timestamp` with no nanoseconds and tells
/// whether it gave a date: it does for the timestamps whose day falls within
/// chrono's years (`MIN_YEAR` to `MAX_YEAR` of its `NaiveDate`).
#[verifier::external_body]
fn utc_timestamp_ok(secs: i64) -> (b: bool)
    ensures
        b == utc_timestamp_representable(secs),
{
    chrono::DateTime::from_timestamp(secs, 0).is_some()
}

/// A timestamp kept when chrono can represent it.
pub open spec fn representable_date(t: Option<i64>) -> Option<i64> {
    match t {
        Some(s) => if utc_timestamp_representable(s) { Some(s) } else { None },
        None => None,
    }
}

/// A timestamp kept when chrono can represent it.
fn checked_date(t: Option<i64>) -> (r: Option<i64>)
    ensures
        r == representable_date(t),
{
    match t {
        Some(s) => if utc_timestamp_ok(s) { Some(s) } else { None },
        None => None,
    }
}

/// The text of an optional description, empty when there is none.
pub open spec fn text_or_empty(o: Option<String>) -> Seq<char> {
    match o {
        Some(s) => s@,
        None => Seq::empty(),
    }
}

/// The strings of an optional list, none when there is no list.
pub open spec fn list_or_empty(o: Option<Vec<String>>) -> Seq<String> {
    match o {
        Some(v) => v@,
        None => Seq::empty(),
    }
}

/// The package record an AUR record becomes: an AUR package, orphaned
/// exactly when it has no maintainer, out of date when it carries an
/// out-of-date date.
pub open spec fn aur_listing(p: PackageInfo, a: AurPackage) -> bool {
    &&& p.name == a.name
    &&& p.version == a.version
    &&& p.description@ == text_or_empty(a.description)
    &&& p.source is Aur
    &&& p.maintainer == a.maintainer
    &&& p.votes == a.num_votes
    &&& p.popularity_bits == a.popularity_bits
    &&& p.first_submitted == representable_date(a.first_submitted)
    &&& p.last_modified == representable_date(a.last_modified)
    &&& p.out_of_date == a.out_of_date is Some
    &&& p.orphan == a.maintainer is None
    &&& p.url == a.url
    &&& p.licenses@ == list_or_empty(a.license)
    &&& p.depends@ == list_or_empty(a.depends)
    &&& p.install_size is None
}

impl AurPackage {
    /// The unified package record of this AUR record.
    pub fn into_package_info(self) -> (p: PackageInfo)
        ensures
            aur_listing(p, self),
    {
        let first_submitted = checked_date(self.first_submitted);
        let last_modified = checked_date(self.last_modified);
        let orphan = self.maintainer.is_none();
        let description = match self.description {
            Some(d) => d,
            None => String::new(),
        };
        let licenses = match self.license {
            Some(v) => v,
            None => Vec::new(),
        };
        let depends = match self.depends {
            Some(v) => v,
            None => Vec::new(),
        };
        PackageInfo {
            name: self.name,
            version: self.version,
            description,
            source: PackageSource::Aur,
            maintainer: self.maintainer,
            votes: self.num_votes,
            popularity_bits: self.popularity_bits,
            first_submitted,
            last_modified,
            out_of_date: self.out_of_date.is_some(),
            orphan,
            url: self.url,
            licenses,
            depends,
            install_size: None,
        }
    }
}

/// The URL of a package's PKGBUILD in the AUR git repository.
pub fn pkgbuild_url(package: &str) -> (r: String)
    ensures
        r@ == "https://aur.archlinux.org/cgit/aur.git/plain/PKGBUILD?h="@ + package@,
{
    let mut r = owned("https://aur.archlinux.org/cgit/aur.git/plain/PKGBUILD?h=");
    push_str(&mut r, package);
    r
}

/// Whether fetched PKGBUILD text is usable: text mentioning `404` (the
/// AUR's page for a missing file) or blank text is not.
pub open spec fn usable_pkgbuild(content: Seq<char>) -> bool {
    !contains(content, "404"@) && trim(content).len() > 0
}

/// The PKGBUILD from a successful fetch of its URL, `None` when the text is
/// not usable.
pub fn accept_pkgbuild(content: String) -> (r: Option<String>)
    ensures
        usable_pkgbuild(content@) ==> r == Some(content),
        !usable_pkgbuild(content@) ==> r is None,
{
    let chars = to_chars(content.as_str());
    if contains_str(chars.as_slice(), "404") || trimmed(chars.as_slice()).len() == 0 {
        None
    } else {
        Some(content)
    }
}

} // verus!
