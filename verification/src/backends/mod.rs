//! Package sources, unified package metadata and repository classification.

use vstd::prelude::*;
use crate::text::{chars_eq, owned, push_str, to_chars, trim, trimmed};

pub mod aur;
pub mod install;
pub mod pacman;

pub use install::InstallBackend;

verus! {

/// The source repository a package comes from.
#[derive(Debug)]
pub enum PackageSource {
    Official { repo: String },
    Aur,
    ThirdParty,
    Unknown,
}

/// Unified package information from any backend.
///
/// Dates are UNIX timestamps in seconds.
#[derive(Debug)]
pub struct PackageInfo {
    pub name: String,
    pub version: String,
    pub description: String,
    pub source: PackageSource,
    pub maintainer: Option<String>,
    pub votes: Option<u32>,
    /// The AUR popularity score, kept as the bits of its IEEE-754 value; it is
    /// shown to the user and never computed with.
    pub popularity_bits: Option<u64>,
    pub first_submitted: Option<i64>,
    pub last_modified: Option<i64>,
    pub out_of_date: bool,
    pub orphan: bool,
    pub url: Option<String>,
    pub licenses: Vec<String>,
    pub depends: Vec<String>,
    pub install_size: Option<String>,
}

/// How a source is named to the user.
pub open spec fn source_label(s: PackageSource) -> Seq<char> {
    match s {
        PackageSource::Official { repo } => "Official ("@ + repo@ + ")"@,
        PackageSource::Aur => "AUR"@,
        PackageSource::ThirdParty => "Third Party"@,
        PackageSource::Unknown => "Unknown"@,
    }
}

impl PackageSource {
    /// The name of the source as shown to the user.
    pub fn label(&self) -> (r: String)
        ensures
            r@ == source_label(*self),
    {
        match self {
            PackageSource::Official { repo } => {
                let mut r = owned("Official (");
                push_str(&mut r, repo.as_str());
                push_str(&mut r, ")");
                r
            },
            PackageSource::Aur => owned("AUR"),
            PackageSource::ThirdParty => owned("Third Party"),
            PackageSource::Unknown => owned("Unknown"),
        }
    }
}

/// The text of an optional string.
pub open spec fn opt_string(o: Option<String>) -> Option<Seq<char>> {
    match o {
        Some(s) => Some(s@),
        None => None,
    }
}

/// A copy of a source, field for field.
pub fn copy_source(s: &PackageSource) -> (r: PackageSource)
    ensures
        r == *s,
{
    match s {
        PackageSource::Official { repo } => PackageSource::Official { repo: repo.clone() },
        PackageSource::Aur => PackageSource::Aur,
        PackageSource::ThirdParty => PackageSource::ThirdParty,
        PackageSource::Unknown => PackageSource::Unknown,
    }
}

/// A copy of an optional text.
pub fn copy_opt_string(s: &Option<String>) -> (r: Option<String>)
    ensures
        r == *s,
{
    match s {
        Some(v) => Some(v.clone()),
        None => None,
    }
}

/// A copy of a list of texts.
pub fn copy_strings(v: &Vec<String>) -> (r: Vec<String>)
    ensures
        r@ == v@,
{
    let mut r: Vec<String> = Vec::new();
    let mut i: usize = 0;
    while i < v.len()
        invariant
            i <= v.len(),
            r@ == v@.subrange(0, i as int),
        decreases v.len() - i,
    {
        r.push(v[i].clone());
        i += 1;
        assert(v@.subrange(0, i as int) == v@.subrange(0, i - 1).push(v@[i - 1]));
    }
    assert(v@.subrange(0, v.len() as int) =~= v@);
    r
}

/// Two package records hold the same values.
pub open spec fn same_package(a: PackageInfo, b: PackageInfo) -> bool {
    &&& a.name == b.name
    &&& a.version == b.version
    &&& a.description == b.description
    &&& a.source == b.source
    &&& a.maintainer == b.maintainer
    &&& a.votes == b.votes
    &&& a.popularity_bits == b.popularity_bits
    &&& a.first_submitted == b.first_submitted
    &&& a.last_modified == b.last_modified
    &&& a.out_of_date == b.out_of_date
    &&& a.orphan == b.orphan
    &&& a.url == b.url
    &&& a.licenses@ == b.licenses@
    &&& a.depends@ == b.depends@
    &&& a.install_size == b.install_size
}

/// A copy of a package record, field for field.
pub fn copy_package(p: &PackageInfo) -> (r: PackageInfo)
    ensures
        same_package(r, *p),
{
    let licenses = copy_strings(&p.licenses);
    let depends = copy_strings(&p.depends);
    let r = PackageInfo {
        name: p.name.clone(),
        version: p.version.clone(),
        description: p.description.clone(),
        source: copy_source(&p.source),
        maintainer: copy_opt_string(&p.maintainer),
        votes: p.votes,
        popularity_bits: p.popularity_bits,
        first_submitted: p.first_submitted,
        last_modified: p.last_modified,
        out_of_date: p.out_of_date,
        orphan: p.orphan,
        url: copy_opt_string(&p.url),
        licenses,
        depends,
        install_size: copy_opt_string(&p.install_size),
    };
    r
}

/// The official Arch Linux repositories.
pub open spec fn official_arch_repo(repo: Seq<char>) -> bool {
    ||| repo == "core"@
    ||| repo == "extra"@
    ||| repo == "multilib"@
    ||| repo == "testing"@
    ||| repo == "core-testing"@
    ||| repo == "extra-testing"@
    ||| repo == "multilib-testing"@
    ||| repo == "community"@
    ||| repo == "community-testing"@
}

/// Whether the text `s` equals the text `t`.
pub fn text_is(s: &[char], t: &str) -> (b: bool)
    ensures
        b == (s@ == t@),
{
    let tv = to_chars(t);
    chars_eq(s, tv.as_slice())
}

/// Check if a repository is an official Arch Linux repository.
pub fn is_official_arch_repo(repo: &str) -> (b: bool)
    ensures
        b == official_arch_repo(repo@),
{
    let r = to_chars(repo);
    let r = r.as_slice();
    text_is(r, "core") || text_is(r, "extra") || text_is(r, "multilib") || text_is(r, "testing")
        || text_is(r, "core-testing") || text_is(r, "extra-testing")
        || text_is(r, "multilib-testing") || text_is(r, "community")
        || text_is(r, "community-testing")
}

/// The source a repository name stands for: official Arch repositories are
/// `Official`, every other named repository is `ThirdParty`.
pub open spec fn repo_source(repo: Seq<char>, r: PackageSource) -> bool {
    if official_arch_repo(repo) {
        r matches PackageSource::Official { repo: name } && name@ == repo
    } else {
        r is ThirdParty
    }
}

/// Classify a repository into the appropriate PackageSource.
pub fn classify_repo(repo: &str) -> (r: PackageSource)
    ensures
        repo_source(repo@, r),
{
    if is_official_arch_repo(repo) {
        PackageSource::Official { repo: owned(repo) }
    } else {
        PackageSource::ThirdParty
    }
}

} // verus!
