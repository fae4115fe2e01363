//! Reading pacman's text output: `pacman -Ss` search listings, `pacman -Si`
//! field blocks, `pacman -Q` installed lists and `pacman -Sl` repository lists.

use vstd::prelude::*;
use crate::backends::{classify_repo, repo_source, opt_string, PackageInfo, PackageSource};
use crate::text::{
    char_pos, copy_range, find_char, lines, split_lines, split_words, starts_with, starts_with_str,
    string_of, string_texts, texts, to_chars, trim, trimmed, words,
};
use crate::backends::text_is;

verus! {

// ───────────────────────────── fields ─────────────────────────────

/// A `Key : Value` line: the first `':'` splits it, both sides trimmed; a
/// line without `':'`, or with an empty key, is no field.
pub open spec fn pacman_field(line: Seq<char>) -> Option<(Seq<char>, Seq<char>)> {
    let c = char_pos(line, ':');
    if c < 0 {
        None
    } else if trim(line.subrange(0, c)).len() == 0 {
        None
    } else {
        Some((trim(line.subrange(0, c)), trim(line.subrange(c + 1, line.len() as int))))
    }
}

/// Parse a single "Key : Value" line from pacman output.
pub fn parse_pacman_field(line: &[char]) -> (r: Option<(Vec<char>, Vec<char>)>)
    ensures
        match r {
            Some((k, v)) => pacman_field(line@) == Some((k@, v@)),
            None => pacman_field(line@) is None,
        },
{
    let c = match find_char(line, ':') {
        Some(c) => c,
        None => return None,
    };
    let head = copy_range(line, 0, c);
    let key = trimmed(head.as_slice());
    if key.len() == 0 {
        return None;
    }
    let tail = copy_range(line, c + 1, line.len());
    let value = trimmed(tail.as_slice());
    Some((key, value))
}

/// The texts of character vectors as strings.
fn strings_of(v: &Vec<Vec<char>>) -> (r: Vec<String>)
    ensures
        string_texts(r@) == texts(v@),
{
    let mut r: Vec<String> = Vec::new();
    let mut i: usize = 0;
    while i < v.len()
        invariant
            i <= v@.len(),
            string_texts(r@) == texts(v@.subrange(0, i as int)),
        decreases v@.len() - i,
    {
        let ghost before = string_texts(r@);
        let s = string_of(v[i].as_slice());
        r.push(s);
        assert(string_texts(r@) =~= before.push(v@[i as int]@));
        i += 1;
        assert(texts(v@.subrange(0, i as int)) =~= texts(v@.subrange(0, i - 1)).push(v@[i - 1]@));
    }
    assert(v@.subrange(0, v@.len() as int) =~= v@);
    r
}

// ───────────────────────────── `pacman -Ss` ─────────────────────────────

/// What a search listing gives of a package: name, version, description and
/// repository.
pub type SearchEntry = (Seq<char>, Seq<char>, Seq<char>, Seq<char>);

/// The listings of `pacman -Ss` output from line `i` on.  A header line
/// `repo/name version ...` (trimmed, with a `'/'` and at least two words
/// after it) gives a package whose description is the next line, trimmed;
/// both lines are consumed.  Any other line is skipped.
pub open spec fn search_entries_from(ls: Seq<Seq<char>>, i: int) -> Seq<SearchEntry>
    decreases ls.len() + 1 - i,
{
    if i < 0 || i >= ls.len() {
        Seq::empty()
    } else {
        let h = trim(ls[i]);
        let p = char_pos(h, '/');
        let ws = words(h.subrange(p + 1, h.len() as int));
        if h.len() > 0 && p >= 0 && ws.len() >= 2 {
            let desc = if i + 1 < ls.len() { trim(ls[i + 1]) } else { Seq::<char>::empty() };
            seq![(ws[0], ws[1], desc, h.subrange(0, p))] + search_entries_from(ls, i + 2)
        } else {
            search_entries_from(ls, i + 1)
        }
    }
}

/// The listings of a whole `pacman -Ss` output.
pub open spec fn search_entries(output: Seq<char>) -> Seq<SearchEntry> {
    search_entries_from(lines(output), 0)
}

/// A package record from an official repository holding only what pacman
/// lists: name, version, description and repository; every other field is
/// empty.
pub open spec fn listed_package(p: PackageInfo, name: Seq<char>, version: Seq<char>, desc: Seq<char>) -> bool {
    &&& p.name@ == name
    &&& p.version@ == version
    &&& p.description@ == desc
    &&& p.votes is None
    &&& p.popularity_bits is None
    &&& p.first_submitted is None
    &&& p.last_modified is None
    &&& !p.out_of_date
    &&& !p.orphan
}

/// A search listing as a package record, its source the classification of
/// its repository.
pub open spec fn search_listing(p: PackageInfo, e: SearchEntry) -> bool {
    &&& listed_package(p, e.0, e.1, e.2)
    &&& repo_source(e.3, p.source)
    &&& p.maintainer is None
    &&& p.url is None
    &&& p.licenses@.len() == 0
    &&& p.depends@.len() == 0
    &&& p.install_size is None
}

/// A package from a repository with only these fields set, its source the
/// classification of the repository.
fn repository_package(name: String, version: String, description: String, repo: String) -> (p: PackageInfo)
    ensures
        listed_package(p, name@, version@, description@),
        repo_source(repo@, p.source),
        p.maintainer is None,
        p.url is None,
        p.licenses@.len() == 0,
        p.depends@.len() == 0,
        p.install_size is None,
{
    PackageInfo {
        name,
        version,
        description,
        source: classify_repo(repo.as_str()),
        maintainer: None,
        votes: None,
        popularity_bits: None,
        first_submitted: None,
        last_modified: None,
        out_of_date: false,
        orphan: false,
        url: None,
        licenses: Vec::new(),
        depends: Vec::new(),
        install_size: None,
    }
}

/// Parse the output of `pacman -Ss`:
///
/// ```text
/// repo/package-name version (group)
///     Description text here
/// ```
pub fn parse_search_output(output: &str) -> (r: Vec<PackageInfo>)
    ensures
        r@.len() == search_entries(output@).len(),
        forall|k: int| 0 <= k < r@.len() ==> search_listing(#[trigger] r@[k], search_entries(output@)[k]),
{
    let chars = to_chars(output);
    let ls = split_lines(chars.as_slice());
    let ghost lt = texts(ls@);
    let ghost all = search_entries_from(lt, 0);
    let ghost mut done: Seq<SearchEntry> = Seq::empty();
    let mut out: Vec<PackageInfo> = Vec::new();
    let mut i: usize = 0;
    while i < ls.len()
        invariant
            lt == texts(ls@),
            lt == lines(output@),
            all == search_entries_from(lt, 0),
            i <= ls@.len(),
            all == done + search_entries_from(lt, i as int),
            out@.len() == done.len(),
            forall|k: int| 0 <= k < out@.len() ==> search_listing(#[trigger] out@[k], done[k]),
        decreases ls@.len() - i,
    {
        let h = trimmed(ls[i].as_slice());
        let mut taken = false;
        if h.len() > 0 {
            match find_char(h.as_slice(), '/') {
                Some(p) => {
                    let rest = copy_range(h.as_slice(), p + 1, h.len());
                    let ws = split_words(rest.as_slice());
                    if ws.len() >= 2 {
                        let desc = if i + 1 < ls.len() {
                            trimmed(ls[i + 1].as_slice())
                        } else {
                            Vec::new()
                        };
                        let repo = copy_range(h.as_slice(), 0, p);
                        let ghost e: SearchEntry = (texts(ws@)[0], texts(ws@)[1], desc@, repo@);
                        let pkg = repository_package(
                            string_of(ws[0].as_slice()),
                            string_of(ws[1].as_slice()),
                            string_of(desc.as_slice()),
                            string_of(repo.as_slice()),
                        );
                        out.push(pkg);
                        proof {
                            assert(search_entries_from(lt, i as int) == seq![e] + search_entries_from(lt, i + 2));
                            done = done.push(e);
                            assert(all =~= done + search_entries_from(lt, i + 2));
                            assert(search_listing(out@[out@.len() - 1], done[done.len() - 1]));
                        }
                        taken = true;
                    }
                },
                None => {},
            }
        }
        if taken {
            if i + 1 < ls.len() {
                i = i + 2;
            } else {
                assert(search_entries_from(lt, i + 2) == Seq::<SearchEntry>::empty());
                assert(search_entries_from(lt, ls@.len() as int) == Seq::<SearchEntry>::empty());
                i = ls.len();
            }
        } else {
            i = i + 1;
        }
    }
    assert(done + search_entries_from(lt, i as int) =~= done);
    out
}

// ───────────────────────────── `pacman -Si` ─────────────────────────────

/// The fields collected from `pacman -Si` output.
pub struct InfoModel {
    pub name: Seq<char>,
    pub version: Seq<char>,
    pub description: Seq<char>,
    pub repo: Seq<char>,
    pub url: Option<Seq<char>>,
    pub licenses: Seq<Seq<char>>,
    pub depends: Seq<Seq<char>>,
    pub packager: Option<Seq<char>>,
    pub install_size: Option<Seq<char>>,
}

/// No field seen yet.
pub open spec fn empty_info() -> InfoModel {
    InfoModel {
        name: Seq::empty(),
        version: Seq::empty(),
        description: Seq::empty(),
        repo: Seq::empty(),
        url: None,
        licenses: Seq::empty(),
        depends: Seq::empty(),
        packager: None,
        install_size: None,
    }
}

/// A dependency word names a package, not a version constraint.
pub open spec fn names_package(w: Seq<char>) -> bool {
    !(starts_with(w, ">="@) || starts_with(w, "<="@) || starts_with(w, ">"@) || starts_with(w, "<"@)
        || starts_with(w, "="@))
}

/// The dependency words that name packages, in order.
pub open spec fn package_names(ws: Seq<Seq<char>>) -> Seq<Seq<char>>
    decreases ws.len(),
{
    if ws.len() == 0 {
        Seq::empty()
    } else if names_package(ws.last()) {
        package_names(ws.drop_last()).push(ws.last())
    } else {
        package_names(ws.drop_last())
    }
}

/// One line of `pacman -Si` output applied to the fields seen so far: a
/// known key sets its field (the last occurrence wins); `Depends On` with the
/// value `None` leaves the dependencies as they are.
pub open spec fn info_step(st: InfoModel, line: Seq<char>) -> InfoModel {
    match pacman_field(line) {
        None => st,
        Some((k, v)) => {
            if k == "Name"@ {
                InfoModel { name: v, ..st }
            } else if k == "Version"@ {
                InfoModel { version: v, ..st }
            } else if k == "Description"@ {
                InfoModel { description: v, ..st }
            } else if k == "Repository"@ {
                InfoModel { repo: v, ..st }
            } else if k == "URL"@ {
                InfoModel { url: Some(v), ..st }
            } else if k == "Licenses"@ {
                InfoModel { licenses: words(v), ..st }
            } else if k == "Depends On"@ {
                if v == "None"@ { st } else { InfoModel { depends: package_names(words(v)), ..st } }
            } else if k == "Packager"@ {
                InfoModel { packager: Some(v), ..st }
            } else if k == "Installed Size"@ {
                InfoModel { install_size: Some(v), ..st }
            } else {
                st
            }
        },
    }
}

/// The fields after the first `n` lines.
pub open spec fn info_upto(ls: Seq<Seq<char>>, n: nat) -> InfoModel
    decreases n,
{
    if n == 0 || n > ls.len() {
        empty_info()
    } else {
        info_step(info_upto(ls, (n - 1) as nat), ls[n - 1])
    }
}

/// The fields of a whole `pacman -Si` output.
pub open spec fn info_fields(output: Seq<char>) -> InfoModel {
    info_upto(lines(output), lines(output).len())
}

/// A package record holding the fields of `pacman -Si`: the source is the
/// classification of its repository, and the packager is the maintainer.
pub open spec fn info_listing(p: PackageInfo, f: InfoModel) -> bool {
    &&& listed_package(p, f.name, f.version, f.description)
    &&& repo_source(f.repo, p.source)
    &&& opt_string(p.maintainer) == f.packager
    &&& opt_string(p.url) == f.url
    &&& string_texts(p.licenses@) == f.licenses
    &&& string_texts(p.depends@) == f.depends
    &&& opt_string(p.install_size) == f.install_size
}

/// The fields being collected, as characters.
struct InfoFields {
    name: Vec<char>,
    version: Vec<char>,
    description: Vec<char>,
    repo: Vec<char>,
    url: Option<Vec<char>>,
    licenses: Vec<Vec<char>>,
    depends: Vec<Vec<char>>,
    packager: Option<Vec<char>>,
    install_size: Option<Vec<char>>,
}

/// The text of optional characters.
spec fn opt_chars(o: Option<Vec<char>>) -> Option<Seq<char>> {
    match o {
        Some(v) => Some(v@),
        None => None,
    }
}

impl InfoFields {
    spec fn model(&self) -> InfoModel {
        InfoModel {
            name: self.name@,
            version: self.version@,
            description: self.description@,
            repo: self.repo@,
            url: opt_chars(self.url),
            licenses: texts(self.licenses@),
            depends: texts(self.depends@),
            packager: opt_chars(self.packager),
            install_size: opt_chars(self.install_size),
        }
    }
}

/// Whether a dependency word names a package.
fn names_package_exec(w: &[char]) -> (b: bool)
    ensures
        b == names_package(w@),
{
    !(starts_with_str(w, ">=") || starts_with_str(w, "<=") || starts_with_str(w, ">")
        || starts_with_str(w, "<") || starts_with_str(w, "="))
}

/// The dependency words that name packages.
fn keep_package_names(ws: &Vec<Vec<char>>) -> (r: Vec<Vec<char>>)
    ensures
        texts(r@) == package_names(texts(ws@)),
{
    let mut r: Vec<Vec<char>> = Vec::new();
    let mut i: usize = 0;
    while i < ws.len()
        invariant
            i <= ws@.len(),
            texts(r@) == package_names(texts(ws@.subrange(0, i as int))),
        decreases ws@.len() - i,
    {
        let ghost before = texts(r@);
        let ghost pre = texts(ws@.subrange(0, i as int));
        let keep = names_package_exec(ws[i].as_slice());
        if keep {
            r.push(copy_range(ws[i].as_slice(), 0, ws[i].len()));
            assert(ws@[i as int]@.subrange(0, ws@[i as int]@.len() as int) =~= ws@[i as int]@);
        }
        i += 1;
        proof {
            let now = texts(ws@.subrange(0, i as int));
            assert(now.drop_last() =~= pre);
            assert(now.last() == ws@[i - 1]@);
            assert(texts(r@) =~= package_names(now));
        }
    }
    assert(ws@.subrange(0, ws@.len() as int) =~= ws@);
    r
}

/// Applies one line of `pacman -Si` output.
fn apply_info_line(f: &mut InfoFields, line: &[char])
    ensures
        final(f).model() == info_step(old(f).model(), line@),
{
    match parse_pacman_field(line) {
        None => {},
        Some((k, v)) => {
            let k = k.as_slice();
            if text_is(k, "Name") {
                f.name = v;
            } else if text_is(k, "Version") {
                f.version = v;
            } else if text_is(k, "Description") {
                f.description = v;
            } else if text_is(k, "Repository") {
                f.repo = v;
            } else if text_is(k, "URL") {
                f.url = Some(v);
            } else if text_is(k, "Licenses") {
                f.licenses = split_words(v.as_slice());
            } else if text_is(k, "Depends On") {
                if !text_is(v.as_slice(), "None") {
                    let ws = split_words(v.as_slice());
                    f.depends = keep_package_names(&ws);
                }
            } else if text_is(k, "Packager") {
                f.packager = Some(v);
            } else if text_is(k, "Installed Size") {
                f.install_size = Some(v);
            }
        },
    }
}

/// An optional string from optional characters.
fn opt_string_of(o: &Option<Vec<char>>) -> (r: Option<String>)
    ensures
        opt_string(r) == opt_chars(*o),
{
    match o {
        Some(v) => Some(string_of(v.as_slice())),
        None => None,
    }
}

/// Parse the output of `pacman -Si`: `None` when no `Name` field gives a
/// non-empty name.
pub fn parse_info_output(output: &str) -> (r: Option<PackageInfo>)
    ensures
        match r {
            Some(p) => info_fields(output@).name.len() > 0 && info_listing(p, info_fields(output@)),
            None => info_fields(output@).name.len() == 0,
        },
{
    let chars = to_chars(output);
    let ls = split_lines(chars.as_slice());
    let ghost lt = texts(ls@);
    let mut f = InfoFields {
        name: Vec::new(),
        version: Vec::new(),
        description: Vec::new(),
        repo: Vec::new(),
        url: None,
        licenses: Vec::new(),
        depends: Vec::new(),
        packager: None,
        install_size: None,
    };
    assert(texts(f.licenses@) =~= Seq::<Seq<char>>::empty());
    assert(texts(f.depends@) =~= Seq::<Seq<char>>::empty());
    assert(f.model() == empty_info());
    let mut i: usize = 0;
    while i < ls.len()
        invariant
            lt == texts(ls@),
            lt == lines(output@),
            i <= ls@.len(),
            f.model() == info_upto(lt, i as nat),
        decreases ls@.len() - i,
    {
        apply_info_line(&mut f, ls[i].as_slice());
        i += 1;
    }
    if f.name.len() == 0 {
        return None;
    }
    let p = PackageInfo {
        name: string_of(f.name.as_slice()),
        version: string_of(f.version.as_slice()),
        description: string_of(f.description.as_slice()),
        source: classify_repo(string_of(f.repo.as_slice()).as_str()),
        maintainer: opt_string_of(&f.packager),
        votes: None,
        popularity_bits: None,
        first_submitted: None,
        last_modified: None,
        out_of_date: false,
        orphan: false,
        url: opt_string_of(&f.url),
        licenses: strings_of(&f.licenses),
        depends: strings_of(&f.depends),
        install_size: opt_string_of(&f.install_size),
    };
    Some(p)
}

// ───────────────────────── `pacman -Q` and `pacman -Sl` ─────────────────────────

/// The first two words of every line that has at least two.
pub open spec fn word_pairs(ls: Seq<Seq<char>>) -> Seq<(Seq<char>, Seq<char>)>
    decreases ls.len(),
{
    if ls.len() == 0 {
        Seq::empty()
    } else {
        let rest = word_pairs(ls.drop_last());
        let ws = words(ls.last());
        if ws.len() >= 2 { rest.push((ws[0], ws[1])) } else { rest }
    }
}

/// The text pairs held by character-vector pairs.
pub open spec fn text_pairs(v: Seq<(Vec<char>, Vec<char>)>) -> Seq<(Seq<char>, Seq<char>)> {
    Seq::new(v.len(), |i: int| (v[i].0@, v[i].1@))
}

/// The text pairs held by string pairs.
pub open spec fn string_pairs(v: Seq<(String, String)>) -> Seq<(Seq<char>, Seq<char>)> {
    Seq::new(v.len(), |i: int| (v[i].0@, v[i].1@))
}

/// The first two words of every line of `output` that has at least two.
fn pairs_of_lines(output: &str) -> (r: Vec<(Vec<char>, Vec<char>)>)
    ensures
        text_pairs(r@) == word_pairs(lines(output@)),
{
    let chars = to_chars(output);
    let ls = split_lines(chars.as_slice());
    let ghost lt = texts(ls@);
    let mut r: Vec<(Vec<char>, Vec<char>)> = Vec::new();
    let mut i: usize = 0;
    while i < ls.len()
        invariant
            lt == texts(ls@),
            lt == lines(output@),
            i <= ls@.len(),
            text_pairs(r@) == word_pairs(lt.subrange(0, i as int)),
        decreases ls@.len() - i,
    {
        let ghost before = text_pairs(r@);
        let ws = split_words(ls[i].as_slice());
        proof {
            let pre = lt.subrange(0, i + 1);
            assert(pre.drop_last() =~= lt.subrange(0, i as int));
            assert(pre.last() == ls@[i as int]@);
        }
        if ws.len() >= 2 {
            let a = copy_range(ws[0].as_slice(), 0, ws[0].len());
            let b = copy_range(ws[1].as_slice(), 0, ws[1].len());
            assert(ws@[0]@.subrange(0, ws@[0]@.len() as int) =~= ws@[0]@);
            assert(ws@[1]@.subrange(0, ws@[1]@.len() as int) =~= ws@[1]@);
            r.push((a, b));
            assert(text_pairs(r@) =~= before.push((texts(ws@)[0], texts(ws@)[1])));
        }
        i += 1;
    }
    assert(lt.subrange(0, ls@.len() as int) =~= lt);
    r
}

/// An installed package as `pacman -Q` lists it: name and version; its
/// source is unknown until it is matched against the repositories.
pub open spec fn installed_listing(p: PackageInfo, name: Seq<char>, version: Seq<char>) -> bool {
    &&& listed_package(p, name, version, Seq::empty())
    &&& p.source is Unknown
    &&& p.maintainer is None
    &&& p.url is None
    &&& p.licenses@.len() == 0
    &&& p.depends@.len() == 0
    &&& p.install_size is None
}

/// Parse the output of `pacman -Q`: one `name version` line per installed
/// package.
pub fn parse_installed_output(output: &str) -> (r: Vec<PackageInfo>)
    ensures
        r@.len() == word_pairs(lines(output@)).len(),
        forall|k: int| 0 <= k < r@.len() ==> installed_listing(#[trigger] r@[k],
            word_pairs(lines(output@))[k].0, word_pairs(lines(output@))[k].1),
{
    let pairs = pairs_of_lines(output);
    let ghost tp = text_pairs(pairs@);
    let mut r: Vec<PackageInfo> = Vec::new();
    let mut i: usize = 0;
    while i < pairs.len()
        invariant
            tp == text_pairs(pairs@),
            i <= pairs@.len(),
            r@.len() == i,
            forall|k: int| 0 <= k < i ==> installed_listing(#[trigger] r@[k], tp[k].0, tp[k].1),
        decreases pairs@.len() - i,
    {
        let p = PackageInfo {
            name: string_of(pairs[i].0.as_slice()),
            version: string_of(pairs[i].1.as_slice()),
            description: String::new(),
            source: PackageSource::Unknown,
            maintainer: None,
            votes: None,
            popularity_bits: None,
            first_submitted: None,
            last_modified: None,
            out_of_date: false,
            orphan: false,
            url: None,
            licenses: Vec::new(),
            depends: Vec::new(),
            install_size: None,
        };
        r.push(p);
        i += 1;
    }
    r
}

/// Parse the output of `pacman -Sl`: `repo name version [installed]` lines,
/// giving `(repo, name)` pairs in order.
pub fn parse_repo_list_output(output: &str) -> (r: Vec<(String, String)>)
    ensures
        string_pairs(r@) == word_pairs(lines(output@)),
{
    let pairs = pairs_of_lines(output);
    let mut r: Vec<(String, String)> = Vec::new();
    let mut i: usize = 0;
    while i < pairs.len()
        invariant
            i <= pairs@.len(),
            string_pairs(r@) == text_pairs(pairs@).subrange(0, i as int),
        decreases pairs@.len() - i,
    {
        let ghost before = string_pairs(r@);
        r.push((string_of(pairs[i].0.as_slice()), string_of(pairs[i].1.as_slice())));
        assert(string_pairs(r@) =~= before.push((pairs@[i as int].0@, pairs@[i as int].1@)));
        i += 1;
        assert(string_pairs(r@) =~= text_pairs(pairs@).subrange(0, i as int));
    }
    assert(text_pairs(pairs@).subrange(0, pairs@.len() as int) =~= text_pairs(pairs@));
    r
}

} // verus!
