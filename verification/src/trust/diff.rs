//! Build-script diffing: a longest-common-subsequence diff of two PKGBUILDs,
//! with every added line checked for suspicious patterns.

use vstd::prelude::*;
use crate::text::{
    contains, contains_str, lines, owned, push_chars, push_decimal, push_str, split_lines,
    string_of, string_texts, texts, to_chars, to_lowercase, trim, trimmed, unicode_lowercase,
    chars_eq, int_decimal,
};
use super::{make_signal, signal_models, SignalModel, TrustSignal};
use crate::display::{
    empty_line, lines_view, prefixed_view, push_line, push_prefixed, single_line, styled,
    styled_string, Segment, Style,
};

verus! {

/// Result of PKGBUILD diff analysis.
#[derive(Debug)]
pub struct PkgbuildDiff {
    pub additions: Vec<String>,
    pub deletions: Vec<String>,
    pub suspicious_patterns: Vec<String>,
}

/// One step of an edit script between two line lists: a line kept (its
/// positions in the old and new lists), a line of the old list deleted, or a
/// line of the new list inserted.
#[derive(Debug, Clone, Copy, PartialEq, Eq, Structural)]
pub enum DiffOp {
    Equal(usize, usize),
    Delete(usize),
    Insert(usize),
}

// ───────────────────────────── the diff, specified ─────────────────────────────

/// Length of a longest common subsequence of `a[..i]` and `b[..j]`.
pub open spec fn lcs(a: Seq<Seq<char>>, b: Seq<Seq<char>>, i: nat, j: nat) -> nat
    decreases i + j,
{
    if i == 0 || j == 0 {
        0
    } else if a[i - 1] == b[j - 1] {
        lcs(a, b, (i - 1) as nat, (j - 1) as nat) + 1
    } else {
        let x = lcs(a, b, (i - 1) as nat, j);
        let y = lcs(a, b, i, (j - 1) as nat);
        if x >= y { x } else { y }
    }
}

/// The edit script from `a[..i]` to `b[..j]` that the backtrack over the
/// LCS table yields: matching last lines are kept; otherwise an insertion
/// is preferred whenever it keeps a longest common subsequence.
pub open spec fn script(a: Seq<Seq<char>>, b: Seq<Seq<char>>, i: nat, j: nat) -> Seq<DiffOp>
    decreases i + j,
{
    if i == 0 && j == 0 {
        Seq::empty()
    } else if i > 0 && j > 0 && a[i - 1] == b[j - 1] {
        script(a, b, (i - 1) as nat, (j - 1) as nat).push(DiffOp::Equal((i - 1) as usize, (j - 1) as usize))
    } else if j > 0 && (i == 0 || lcs(a, b, i, (j - 1) as nat) >= lcs(a, b, (i - 1) as nat, j)) {
        script(a, b, i, (j - 1) as nat).push(DiffOp::Insert((j - 1) as usize))
    } else {
        script(a, b, (i - 1) as nat, j).push(DiffOp::Delete((i - 1) as usize))
    }
}

/// The whole edit script between two line lists.
pub open spec fn full_script(a: Seq<Seq<char>>, b: Seq<Seq<char>>) -> Seq<DiffOp> {
    script(a, b, a.len(), b.len())
}

/// A trimmed line is reported unless it is blank or a comment.
pub open spec fn reported(t: Seq<char>) -> bool {
    t.len() > 0 && t[0] != '#'
}

/// Lines inserted by `ops` (trimmed, blank lines and comments left out).
pub open spec fn added_lines(b: Seq<Seq<char>>, ops: Seq<DiffOp>) -> Seq<Seq<char>>
    decreases ops.len(),
{
    if ops.len() == 0 {
        Seq::empty()
    } else {
        let rest = added_lines(b, ops.drop_last());
        match ops.last() {
            DiffOp::Insert(j) => if reported(trim(b[j as int])) { rest.push(trim(b[j as int])) } else { rest },
            _ => rest,
        }
    }
}

/// Lines deleted by `ops` (trimmed, blank lines and comments left out).
pub open spec fn deleted_lines(a: Seq<Seq<char>>, ops: Seq<DiffOp>) -> Seq<Seq<char>>
    decreases ops.len(),
{
    if ops.len() == 0 {
        Seq::empty()
    } else {
        let rest = deleted_lines(a, ops.drop_last());
        match ops.last() {
            DiffOp::Delete(i) => if reported(trim(a[i as int])) { rest.push(trim(a[i as int])) } else { rest },
            _ => rest,
        }
    }
}

/// Suspicious-pattern findings over the lines inserted by `ops`.
pub open spec fn inserted_findings(b: Seq<Seq<char>>, ops: Seq<DiffOp>) -> Seq<Seq<char>>
    decreases ops.len(),
{
    if ops.len() == 0 {
        Seq::empty()
    } else {
        let rest = inserted_findings(b, ops.drop_last());
        match ops.last() {
            DiffOp::Insert(j) => if reported(trim(b[j as int])) {
                rest + suspicious_findings(trim(b[j as int]))
            } else {
                rest
            },
            _ => rest,
        }
    }
}

/// A finding for `line` labelled `label` when `cond` holds.
pub open spec fn finding(cond: bool, label: Seq<char>, line: Seq<char>) -> Seq<Seq<char>> {
    if cond { seq![label + line] } else { Seq::empty() }
}

/// A line pipes a download into a shell.
pub open spec fn pipes_to_shell(l: Seq<char>) -> bool {
    contains(l, "| sh"@) || contains(l, "| bash"@) || contains(l, "| zsh"@)
}

/// A line fetches from the network with a known downloader.
pub open spec fn fetches(l: Seq<char>) -> bool {
    contains(l, "curl"@) || contains(l, "wget"@)
}

/// An unexpected network call: a downloader or netcat with a URL, outside
/// the description, url and source fields.
pub open spec fn network_call(l: Seq<char>) -> bool {
    (fetches(l) || contains(l, "nc "@) || contains(l, "netcat"@))
        && (contains(l, "http://"@) || contains(l, "https://"@))
        && !contains(l, "pkgdesc"@) && !contains(l, "url="@) && !contains(l, "source=("@)
}

/// Inline script execution.
pub open spec fn inline_exec(l: Seq<char>) -> bool {
    contains(l, "eval "@) || contains(l, "exec "@) || contains(l, "source "@)
}

/// Forced deletion of a path outside the package and source directories.
pub open spec fn aggressive_delete(l: Seq<char>) -> bool {
    (contains(l, "rm -rf"@) || contains(l, "rm -f"@)) && contains(l, "/"@)
        && !contains(l, "pkgdir"@) && !contains(l, "srcdir"@)
}

/// Base64 decoding.
pub open spec fn base64_decode(l: Seq<char>) -> bool {
    contains(l, "base64 -d"@) || contains(l, "base64 --decode"@)
}

/// Hex decoding.
pub open spec fn hex_decode(l: Seq<char>) -> bool {
    contains(l, "xxd"@) || contains(l, "hexdump"@)
}

/// A version assigned from the network.
pub open spec fn dynamic_pkgver(l: Seq<char>) -> bool {
    contains(l, "pkgver="@) && (fetches(l) || contains(l, "git"@))
}

/// A language package manager install that is not a cargo build or test.
pub open spec fn language_install(l: Seq<char>) -> bool {
    (contains(l, "pip install"@) || contains(l, "npm install"@) || contains(l, "cargo install"@))
        && !contains(l, "cargo build"@) && !contains(l, "cargo test"@)
}

/// A system path outside the package directory.
pub open spec fn system_path(l: Seq<char>) -> bool {
    (contains(l, "/etc/"@) || contains(l, "/usr/"@) || contains(l, "/bin/"@) || contains(l, "/sbin/"@))
        && !contains(l, "pkgdir"@) && !contains(l, "install="@)
}

/// The suspicious patterns found in one added line, in check order.
/// Matching is on the Unicode lowercase of the line; findings quote the line.
#[verifier::opaque]
pub open spec fn suspicious_findings(line: Seq<char>) -> Seq<Seq<char>> {
    let l = unicode_lowercase(line);
    finding(contains(l, "curl"@) && pipes_to_shell(l), "Remote script execution: "@, line)
        + finding(contains(l, "wget"@) && pipes_to_shell(l), "Remote script execution: "@, line)
        + finding(network_call(l), "Unexpected network call: "@, line)
        + finding(inline_exec(l), "Inline script execution: "@, line)
        + finding(aggressive_delete(l), "Aggressive file deletion: "@, line)
        + finding(base64_decode(l), "Base64 decode (possible obfuscation): "@, line)
        + finding(hex_decode(l), "Hex decode (possible obfuscation): "@, line)
        + finding(dynamic_pkgver(l), "Dynamic pkgver from network: "@, line)
        + finding(language_install(l), "Language package manager install in build: "@, line)
        + finding(system_path(l), "Modifies system paths outside pkgdir: "@, line)
}

/// `d` is the diff of the PKGBUILD texts `old` and `new`.
pub open spec fn diff_of(d: PkgbuildDiff, old: Seq<char>, new: Seq<char>) -> bool {
    let a = lines(old);
    let b = lines(new);
    let ops = full_script(a, b);
    &&& string_texts(d.additions@) == added_lines(b, ops)
    &&& string_texts(d.deletions@) == deleted_lines(a, ops)
    &&& string_texts(d.suspicious_patterns@) == inserted_findings(b, ops)
}

// ───────────────────────────── lemmas ─────────────────────────────

/// An LCS of `a[..i]` and `b[..j]` is no longer than either.
pub proof fn lemma_lcs_bound(a: Seq<Seq<char>>, b: Seq<Seq<char>>, i: nat, j: nat)
    ensures
        lcs(a, b, i, j) <= i,
        lcs(a, b, i, j) <= j,
    decreases i + j,
{
    if i > 0 && j > 0 {
        lemma_lcs_bound(a, b, (i - 1) as nat, (j - 1) as nat);
        lemma_lcs_bound(a, b, (i - 1) as nat, j);
        lemma_lcs_bound(a, b, i, (j - 1) as nat);
    }
}

/// Every step of a script from `a[..i]` to `b[..j]` refers to lines inside
/// those prefixes.
pub open spec fn ops_in_range(ops: Seq<DiffOp>, i: nat, j: nat) -> bool {
    forall|k: int| 0 <= k < ops.len() ==> match #[trigger] ops[k] {
        DiffOp::Equal(x, y) => x < i && y < j,
        DiffOp::Delete(x) => x < i,
        DiffOp::Insert(y) => y < j,
    }
}

/// The script's steps stay inside the line lists.
pub proof fn lemma_script_in_range(a: Seq<Seq<char>>, b: Seq<Seq<char>>, i: nat, j: nat)
    requires
        i <= a.len(),
        j <= b.len(),
    ensures
        ops_in_range(script(a, b, i, j), i, j),
    decreases i + j,
{
    if i == 0 && j == 0 {
    } else if i > 0 && j > 0 && a[i - 1] == b[j - 1] {
        lemma_script_in_range(a, b, (i - 1) as nat, (j - 1) as nat);
    } else if j > 0 && (i == 0 || lcs(a, b, i, (j - 1) as nat) >= lcs(a, b, (i - 1) as nat, j)) {
        lemma_script_in_range(a, b, i, (j - 1) as nat);
    } else {
        lemma_script_in_range(a, b, (i - 1) as nat, j);
    }
}

// ───────────────────────────── executable diff ─────────────────────────────

/// The LCS table of two line lists: `t[i][j] == lcs(a, b, i, j)`.
fn lcs_table(a: &Vec<Vec<char>>, b: &Vec<Vec<char>>) -> (t: Vec<Vec<usize>>)
    ensures
        t@.len() == a@.len() + 1,
        forall|i: int| 0 <= i <= a@.len() ==> #[trigger] t@[i]@.len() == b@.len() + 1,
        forall|i: int, j: int| 0 <= i <= a@.len() && 0 <= j <= b@.len()
            ==> #[trigger] t@[i]@[j] == lcs(texts(a@), texts(b@), i as nat, j as nat),
{
    let ghost ta = texts(a@);
    let ghost tb = texts(b@);
    let m: usize = a.len();
    let n: usize = b.len();
    let mut t: Vec<Vec<usize>> = Vec::new();
    let mut i: usize = 0;
    loop
        invariant_except_break
            t@.len() == i,
            forall|r: int| 0 <= r < i ==> #[trigger] t@[r]@.len() == n + 1,
            forall|r: int, c: int| 0 <= r < i && 0 <= c <= n
                ==> #[trigger] t@[r]@[c] == lcs(ta, tb, r as nat, c as nat),
        invariant
            m == a@.len(),
            n == b@.len(),
            ta == texts(a@),
            tb == texts(b@),
            i <= m,
        ensures
            t@.len() == m + 1,
            forall|r: int| 0 <= r <= m ==> #[trigger] t@[r]@.len() == n + 1,
            forall|r: int, c: int| 0 <= r <= m && 0 <= c <= n
                ==> #[trigger] t@[r]@[c] == lcs(ta, tb, r as nat, c as nat),
        decreases m - i,
    {
        let mut row: Vec<usize> = Vec::new();
        let mut j: usize = 0;
        loop
            invariant_except_break
                row@.len() == j,
                forall|c: int| 0 <= c < j ==> #[trigger] row@[c] == lcs(ta, tb, i as nat, c as nat),
            invariant
                m == a@.len(),
                n == b@.len(),
                ta == texts(a@),
                tb == texts(b@),
                i <= m,
                t@.len() == i,
                forall|r: int| 0 <= r < i ==> #[trigger] t@[r]@.len() == n + 1,
                forall|r: int, c: int| 0 <= r < i && 0 <= c <= n
                    ==> #[trigger] t@[r]@[c] == lcs(ta, tb, r as nat, c as nat),
                j <= n,
            ensures
                row@.len() == n + 1,
                forall|c: int| 0 <= c <= n ==> #[trigger] row@[c] == lcs(ta, tb, i as nat, c as nat),
            decreases n - j,
        {
            let v: usize = if i == 0 || j == 0 {
                0
            } else if chars_eq(a[i - 1].as_slice(), b[j - 1].as_slice()) {
                proof {
                    lemma_lcs_bound(ta, tb, (i - 1) as nat, (j - 1) as nat);
                }
                t[i - 1][j - 1] + 1
            } else {
                let x = t[i - 1][j];
                let y = row[j - 1];
                if x >= y { x } else { y }
            };
            row.push(v);
            if j == n {
                break;
            }
            j += 1;
        }
        t.push(row);
        if i == m {
            break;
        }
        i += 1;
    }
    t
}

/// The edit script between two line lists, in forward order.
fn edit_script(a: &Vec<Vec<char>>, b: &Vec<Vec<char>>) -> (ops: Vec<DiffOp>)
    ensures
        ops@ == full_script(texts(a@), texts(b@)),
{
    let ghost ta = texts(a@);
    let ghost tb = texts(b@);
    let t = lcs_table(a, b);
    let mut rev: Vec<DiffOp> = Vec::new();
    let mut i: usize = a.len();
    let mut j: usize = b.len();
    while i > 0 || j > 0
        invariant
            ta == texts(a@),
            tb == texts(b@),
            i <= a@.len(),
            j <= b@.len(),
            t@.len() == a@.len() + 1,
            forall|r: int| 0 <= r <= a@.len() ==> #[trigger] t@[r]@.len() == b@.len() + 1,
            forall|r: int, c: int| 0 <= r <= a@.len() && 0 <= c <= b@.len()
                ==> #[trigger] t@[r]@[c] == lcs(ta, tb, r as nat, c as nat),
            full_script(ta, tb) == script(ta, tb, i as nat, j as nat) + rev@.reverse(),
        decreases i + j,
    {
        let ghost before = rev@;
        if i > 0 && j > 0 && chars_eq(a[i - 1].as_slice(), b[j - 1].as_slice()) {
            rev.push(DiffOp::Equal(i - 1, j - 1));
            i -= 1;
            j -= 1;
        } else if j > 0 && (i == 0 || t[i][j - 1] >= t[i - 1][j]) {
            rev.push(DiffOp::Insert(j - 1));
            j -= 1;
        } else {
            rev.push(DiffOp::Delete(i - 1));
            i -= 1;
        }
        proof {
            assert(rev@.reverse() =~= seq![rev@.last()] + before.reverse());
        }
        assert(full_script(ta, tb) =~= script(ta, tb, i as nat, j as nat) + rev@.reverse());
    }
    let mut ops: Vec<DiffOp> = Vec::new();
    let mut k: usize = rev.len();
    while k > 0
        invariant
            k <= rev@.len(),
            ops@ == rev@.reverse().subrange(0, (rev@.len() - k) as int),
        decreases k,
    {
        k -= 1;
        ops.push(rev[k]);
        assert(ops@ =~= rev@.reverse().subrange(0, (rev@.len() - k) as int));
    }
    assert(ops@ =~= rev@.reverse());
    assert(script(ta, tb, 0, 0) =~= Seq::<DiffOp>::empty());
    assert(full_script(ta, tb) =~= rev@.reverse());
    ops
}

fn pipes_to_shell_exec(l: &[char]) -> (b: bool)
    ensures
        b == pipes_to_shell(l@),
{
    contains_str(l, "| sh") || contains_str(l, "| bash") || contains_str(l, "| zsh")
}

fn fetches_exec(l: &[char]) -> (b: bool)
    ensures
        b == fetches(l@),
{
    contains_str(l, "curl") || contains_str(l, "wget")
}

fn network_call_exec(l: &[char]) -> (b: bool)
    ensures
        b == network_call(l@),
{
    (fetches_exec(l) || contains_str(l, "nc ") || contains_str(l, "netcat"))
        && (contains_str(l, "http://") || contains_str(l, "https://"))
        && !contains_str(l, "pkgdesc") && !contains_str(l, "url=") && !contains_str(l, "source=(")
}

fn inline_exec_exec(l: &[char]) -> (b: bool)
    ensures
        b == inline_exec(l@),
{
    contains_str(l, "eval ") || contains_str(l, "exec ") || contains_str(l, "source ")
}

fn aggressive_delete_exec(l: &[char]) -> (b: bool)
    ensures
        b == aggressive_delete(l@),
{
    (contains_str(l, "rm -rf") || contains_str(l, "rm -f")) && contains_str(l, "/")
        && !contains_str(l, "pkgdir") && !contains_str(l, "srcdir")
}

fn base64_decode_exec(l: &[char]) -> (b: bool)
    ensures
        b == base64_decode(l@),
{
    contains_str(l, "base64 -d") || contains_str(l, "base64 --decode")
}

fn hex_decode_exec(l: &[char]) -> (b: bool)
    ensures
        b == hex_decode(l@),
{
    contains_str(l, "xxd") || contains_str(l, "hexdump")
}

fn dynamic_pkgver_exec(l: &[char]) -> (b: bool)
    ensures
        b == dynamic_pkgver(l@),
{
    contains_str(l, "pkgver=") && (fetches_exec(l) || contains_str(l, "git"))
}

fn language_install_exec(l: &[char]) -> (b: bool)
    ensures
        b == language_install(l@),
{
    (contains_str(l, "pip install") || contains_str(l, "npm install") || contains_str(l, "cargo install"))
        && !contains_str(l, "cargo build") && !contains_str(l, "cargo test")
}

fn system_path_exec(l: &[char]) -> (b: bool)
    ensures
        b == system_path(l@),
{
    (contains_str(l, "/etc/") || contains_str(l, "/usr/") || contains_str(l, "/bin/") || contains_str(l, "/sbin/"))
        && !contains_str(l, "pkgdir") && !contains_str(l, "install=")
}

/// Check a single added line for suspicious patterns, appending findings.
fn check_suspicious_pattern(line: &[char], patterns: &mut Vec<String>)
    ensures
        string_texts(final(patterns)@) == string_texts(old(patterns)@) + suspicious_findings(line@),
{
    let line_s = string_of(line);
    let lower_s = to_lowercase(line_s.as_str());
    let lv = to_chars(lower_s.as_str());
    let l = lv.as_slice();
    let ghost gl = l@;
    assert(gl == unicode_lowercase(line@));
    let ghost start = string_texts(patterns@);
    let pipe = pipes_to_shell_exec(l);
    let c1 = contains_str(l, "curl") && pipe;
    let c2 = contains_str(l, "wget") && pipe;
    let c3 = network_call_exec(l);
    let c4 = inline_exec_exec(l);
    let c5 = aggressive_delete_exec(l);
    let c6 = base64_decode_exec(l);
    let c7 = hex_decode_exec(l);
    let c8 = dynamic_pkgver_exec(l);
    let c9 = language_install_exec(l);
    let c10 = system_path_exec(l);
    let ghost f1 = finding(c1, "Remote script execution: "@, line@);
    let ghost f2 = finding(c2, "Remote script execution: "@, line@);
    let ghost f3 = finding(c3, "Unexpected network call: "@, line@);
    let ghost f4 = finding(c4, "Inline script execution: "@, line@);
    let ghost f5 = finding(c5, "Aggressive file deletion: "@, line@);
    let ghost f6 = finding(c6, "Base64 decode (possible obfuscation): "@, line@);
    let ghost f7 = finding(c7, "Hex decode (possible obfuscation): "@, line@);
    let ghost f8 = finding(c8, "Dynamic pkgver from network: "@, line@);
    let ghost f9 = finding(c9, "Language package manager install in build: "@, line@);
    let ghost f10 = finding(c10, "Modifies system paths outside pkgdir: "@, line@);
    assert(suspicious_findings(line@) == f1 + f2 + f3 + f4 + f5 + f6 + f7 + f8 + f9 + f10) by {
        reveal(suspicious_findings);
    }
    let mut found: Vec<String> = Vec::new();
    assert(string_texts(found@) =~= Seq::<Seq<char>>::empty());
    push_finding(&mut found, c1, "Remote script execution: ", line);
    assert(string_texts(found@) =~= f1);
    push_finding(&mut found, c2, "Remote script execution: ", line);
    push_finding(&mut found, c3, "Unexpected network call: ", line);
    push_finding(&mut found, c4, "Inline script execution: ", line);
    push_finding(&mut found, c5, "Aggressive file deletion: ", line);
    push_finding(&mut found, c6, "Base64 decode (possible obfuscation): ", line);
    push_finding(&mut found, c7, "Hex decode (possible obfuscation): ", line);
    push_finding(&mut found, c8, "Dynamic pkgver from network: ", line);
    push_finding(&mut found, c9, "Language package manager install in build: ", line);
    push_finding(&mut found, c10, "Modifies system paths outside pkgdir: ", line);
    let ghost fv = found@;
    patterns.append(&mut found);
    assert(string_texts(patterns@) =~= start + string_texts(fv));
}

/// Appends `label` followed by `line` when `cond` holds.
fn push_finding(patterns: &mut Vec<String>, cond: bool, label: &str, line: &[char])
    ensures
        string_texts(final(patterns)@) == string_texts(old(patterns)@) + finding(cond, label@, line@),
{
    if cond {
        let mut s = owned(label);
        push_chars(&mut s, line);
        patterns.push(s);
        assert(string_texts(patterns@) =~= string_texts(old(patterns)@) + finding(cond, label@, line@));
    } else {
        assert(string_texts(patterns@) =~= string_texts(old(patterns)@) + finding(cond, label@, line@));
    }
}

/// Analyze a PKGBUILD diff for suspicious patterns using an LCS-based diff.
pub fn analyze_pkgbuild_diff(old_pkgbuild: &str, new_pkgbuild: &str) -> (d: PkgbuildDiff)
    ensures
        diff_of(d, old_pkgbuild@, new_pkgbuild@),
{
    let old_chars = to_chars(old_pkgbuild);
    let new_chars = to_chars(new_pkgbuild);
    let old_lines = split_lines(old_chars.as_slice());
    let new_lines = split_lines(new_chars.as_slice());
    let ghost a = texts(old_lines@);
    let ghost b = texts(new_lines@);
    let ops = edit_script(&old_lines, &new_lines);
    proof {
        lemma_script_in_range(a, b, a.len(), b.len());
    }
    let mut additions: Vec<String> = Vec::new();
    let mut deletions: Vec<String> = Vec::new();
    let mut suspicious_patterns: Vec<String> = Vec::new();
    let mut k: usize = 0;
    while k < ops.len()
        invariant
            a == texts(old_lines@),
            b == texts(new_lines@),
            ops@ == full_script(a, b),
            ops_in_range(ops@, a.len(), b.len()),
            k <= ops@.len(),
            string_texts(additions@) == added_lines(b, ops@.subrange(0, k as int)),
            string_texts(deletions@) == deleted_lines(a, ops@.subrange(0, k as int)),
            string_texts(suspicious_patterns@) == inserted_findings(b, ops@.subrange(0, k as int)),
        decreases ops@.len() - k,
    {
        let op = ops[k];
        let ghost prefix = ops@.subrange(0, k + 1);
        assert(prefix.drop_last() =~= ops@.subrange(0, k as int));
        assert(prefix.last() == op);
        match op {
            DiffOp::Equal(_, _) => {},
            DiffOp::Delete(i) => {
                let t = trimmed(old_lines[i].as_slice());
                if t.len() > 0 && t[0] != '#' {
                    deletions.push(string_of(t.as_slice()));
                    assert(string_texts(deletions@) =~= deleted_lines(a, prefix));
                }
            },
            DiffOp::Insert(j) => {
                let t = trimmed(new_lines[j].as_slice());
                if t.len() > 0 && t[0] != '#' {
                    additions.push(string_of(t.as_slice()));
                    assert(string_texts(additions@) =~= added_lines(b, prefix));
                    check_suspicious_pattern(t.as_slice(), &mut suspicious_patterns);
                }
            },
        }
        k += 1;
    }
    assert(ops@.subrange(0, ops@.len() as int) =~= ops@);
    PkgbuildDiff { additions, deletions, suspicious_patterns }
}

/// The signals a PKGBUILD diff contributes to a trust report.
pub open spec fn diff_signals(findings: Seq<Seq<char>>) -> Seq<SignalModel> {
    if findings.len() == 0 {
        seq![("Build Script Changes"@, 0int, 0int, "No suspicious changes detected"@)]
    } else {
        let penalty = if findings.len() * -10 < -50 { -50 } else { findings.len() * -10 };
        seq![(
            "Build Script Changes"@,
            penalty,
            0int,
            int_decimal(findings.len() as int) + " suspicious change(s) detected"@,
        )] + Seq::new(findings.len(), |i: int| ("Suspicious Pattern"@, -10int, 0int, findings[i]))
    }
}

/// Generate trust signals from a PKGBUILD diff.
pub fn diff_to_signals(diff: &PkgbuildDiff) -> (r: Vec<TrustSignal>)
    requires
        diff.suspicious_patterns@.len() <= 214748364,
    ensures
        signal_models(r@) == diff_signals(string_texts(diff.suspicious_patterns@)),
{
    let ghost f = string_texts(diff.suspicious_patterns@);
    let mut signals: Vec<TrustSignal> = Vec::new();
    let n: usize = diff.suspicious_patterns.len();
    if n == 0 {
        signals.push(make_signal("Build Script Changes", 0, 0, owned("No suspicious changes detected")));
        assert(signal_models(signals@) =~= diff_signals(f));
    } else {
        let ni: i32 = n as i32;
        assert(ni == n);
        assert(0 <= ni <= 214748364);
        let raw: i32 = -(ni * 10);
        let penalty: i32 = if raw < -50 { -50 } else { raw };
        let mut detail = String::new();
        push_decimal(&mut detail, n as i64);
        push_str(&mut detail, " suspicious change(s) detected");
        signals.push(make_signal("Build Script Changes", penalty, 0, detail));
        let mut i: usize = 0;
        while i < n
            invariant
                n == diff.suspicious_patterns@.len(),
                f == string_texts(diff.suspicious_patterns@),
                n > 0,
                i <= n,
                signals@.len() == i + 1,
                signal_models(signals@) == diff_signals(f).subrange(0, i + 1),
            decreases n - i,
        {
            signals.push(make_signal("Suspicious Pattern", -10, 0, diff.suspicious_patterns[i].clone()));
            i += 1;
            assert(signal_models(signals@) =~= diff_signals(f).subrange(0, i + 1));
        }
        assert(diff_signals(f).subrange(0, n + 1) =~= diff_signals(f));
    }
    signals
}

// ───────────────────────────── laws ─────────────────────────────

/// Comparing a line list with itself keeps every line.
pub proof fn lemma_script_self(a: Seq<Seq<char>>, i: nat)
    requires
        i <= a.len(),
    ensures
        script(a, a, i, i) == Seq::new(i, |k: int| DiffOp::Equal(k as usize, k as usize)),
    decreases i,
{
    if i > 0 {
        lemma_script_self(a, (i - 1) as nat);
        assert(script(a, a, i, i) =~= Seq::new(i, |k: int| DiffOp::Equal(k as usize, k as usize)));
    } else {
        assert(script(a, a, 0, 0) =~= Seq::new(0, |k: int| DiffOp::Equal(k as usize, k as usize)));
    }
}

/// A script that only keeps lines adds, deletes and finds nothing.
proof fn lemma_equal_ops_report_nothing(a: Seq<Seq<char>>, ops: Seq<DiffOp>)
    requires
        forall|k: int| 0 <= k < ops.len() ==> #[trigger] ops[k] is Equal,
    ensures
        added_lines(a, ops) == Seq::<Seq<char>>::empty(),
        deleted_lines(a, ops) == Seq::<Seq<char>>::empty(),
        inserted_findings(a, ops) == Seq::<Seq<char>>::empty(),
    decreases ops.len(),
{
    if ops.len() > 0 {
        lemma_equal_ops_report_nothing(a, ops.drop_last());
        assert(ops.last() is Equal);
    }
}

/// A PKGBUILD compared with itself shows no additions, no deletions and no
/// suspicious patterns.
pub proof fn law_self_diff_is_empty(text: Seq<char>, d: PkgbuildDiff)
    requires
        diff_of(d, text, text),
    ensures
        d.additions@.len() == 0,
        d.deletions@.len() == 0,
        d.suspicious_patterns@.len() == 0,
{
    let a = lines(text);
    lemma_script_self(a, a.len());
    let ops = full_script(a, a);
    assert forall|k: int| 0 <= k < ops.len() implies #[trigger] ops[k] is Equal by {}
    lemma_equal_ops_report_nothing(a, ops);
    assert(string_texts(d.additions@).len() == 0);
    assert(string_texts(d.deletions@).len() == 0);
    assert(string_texts(d.suspicious_patterns@).len() == 0);
}


// ───────────────────────────── longest common subsequences ─────────────────────────────

/// `idx` picks the lines of `s` out of the first `n` lines of `a`, in order:
/// `a[idx[k]] == s[k]` with strictly increasing positions below `n`.
pub open spec fn embeds(s: Seq<Seq<char>>, a: Seq<Seq<char>>, n: nat, idx: Seq<int>) -> bool {
    &&& idx.len() == s.len()
    &&& forall|k: int| 0 <= k < idx.len() ==> 0 <= #[trigger] idx[k] < n && a[idx[k]] == s[k]
    &&& forall|k: int, l: int| 0 <= k < l < idx.len() ==> #[trigger] idx[k] < #[trigger] idx[l]
}

/// `s` is a subsequence of `a`: its lines occur in `a` in the same order.
pub open spec fn subsequence(s: Seq<Seq<char>>, a: Seq<Seq<char>>) -> bool {
    exists|idx: Seq<int>| embeds(s, a, a.len(), idx)
}

/// The number of lines an edit script keeps.
pub open spec fn kept_count(ops: Seq<DiffOp>) -> nat
    decreases ops.len(),
{
    if ops.len() == 0 {
        0
    } else {
        kept_count(ops.drop_last()) + if ops.last() is Equal { 1nat } else { 0nat }
    }
}

/// No common subsequence of `a[..i]` and `b[..j]` is longer than the table
/// entry.
proof fn lemma_lcs_longest(
    a: Seq<Seq<char>>,
    b: Seq<Seq<char>>,
    i: nat,
    j: nat,
    s: Seq<Seq<char>>,
    ia: Seq<int>,
    ib: Seq<int>,
)
    requires
        i <= a.len(),
        j <= b.len(),
        embeds(s, a, i, ia),
        embeds(s, b, j, ib),
    ensures
        s.len() <= lcs(a, b, i, j),
    decreases i + j, 1nat,
{
    if s.len() > 0 {
        lemma_lcs_longest_step(a, b, i, j, s, ia, ib);
    }
}

/// The inductive step of `lemma_lcs_longest`, for a non-empty subsequence.
proof fn lemma_lcs_longest_step(
    a: Seq<Seq<char>>,
    b: Seq<Seq<char>>,
    i: nat,
    j: nat,
    s: Seq<Seq<char>>,
    ia: Seq<int>,
    ib: Seq<int>,
)
    requires
        i <= a.len(),
        j <= b.len(),
        embeds(s, a, i, ia),
        embeds(s, b, j, ib),
        s.len() > 0,
    ensures
        s.len() <= lcs(a, b, i, j),
    decreases i + j, 0nat,
{
    let k = s.len() - 1;
    assert(0 <= ia[k] < i && 0 <= ib[k] < j);
    if a[i - 1] == b[j - 1] {
        let s2 = s.drop_last();
        let ia2 = ia.drop_last();
        let ib2 = ib.drop_last();
        assert forall|m: int| 0 <= m < ia2.len() implies 0 <= #[trigger] ia2[m] < (i - 1) as nat && a[ia2[m]] == s2[m] by {
            assert(ia[m] < ia[k]);
        }
        assert forall|m: int| 0 <= m < ib2.len() implies 0 <= #[trigger] ib2[m] < (j - 1) as nat && b[ib2[m]] == s2[m] by {
            assert(ib[m] < ib[k]);
        }
        assert forall|m: int, l: int| 0 <= m < l < ia2.len() implies #[trigger] ia2[m] < #[trigger] ia2[l] by {
            assert(ia[m] < ia[l]);
        }
        assert forall|m: int, l: int| 0 <= m < l < ib2.len() implies #[trigger] ib2[m] < #[trigger] ib2[l] by {
            assert(ib[m] < ib[l]);
        }
        lemma_lcs_longest(a, b, (i - 1) as nat, (j - 1) as nat, s2, ia2, ib2);
    } else if ia[k] < i - 1 {
        assert forall|m: int| 0 <= m < ia.len() implies 0 <= #[trigger] ia[m] < (i - 1) as nat && a[ia[m]] == s[m] by {
            if m < k {
                assert(ia[m] < ia[k]);
            }
        }
        lemma_lcs_longest(a, b, (i - 1) as nat, j, s, ia, ib);
    } else {
        assert(ia[k] == i - 1);
        assert(ib[k] != j - 1);
        assert forall|m: int| 0 <= m < ib.len() implies 0 <= #[trigger] ib[m] < (j - 1) as nat && b[ib[m]] == s[m] by {
            if m < k {
                assert(ib[m] < ib[k]);
            }
        }
        lemma_lcs_longest(a, b, i, (j - 1) as nat, s, ia, ib);
    }
}

/// A common subsequence of `a[..i]` and `b[..j]` as long as the table entry.
proof fn lemma_lcs_witness(a: Seq<Seq<char>>, b: Seq<Seq<char>>, i: nat, j: nat)
    -> (r: (Seq<Seq<char>>, Seq<int>, Seq<int>))
    requires
        i <= a.len(),
        j <= b.len(),
    ensures
        r.0.len() == lcs(a, b, i, j),
        embeds(r.0, a, i, r.1),
        embeds(r.0, b, j, r.2),
    decreases i + j,
{
    if i == 0 || j == 0 {
        (Seq::empty(), Seq::empty(), Seq::empty())
    } else if a[i - 1] == b[j - 1] {
        let w = lemma_lcs_witness(a, b, (i - 1) as nat, (j - 1) as nat);
        let s = w.0.push(a[i - 1]);
        let x = w.1.push(i - 1);
        let y = w.2.push(j - 1);
        assert forall|k: int, l: int| 0 <= k < l < x.len() implies #[trigger] x[k] < #[trigger] x[l] by {
            if l < x.len() - 1 {
                assert(x[k] == w.1[k] && x[l] == w.1[l]);
            } else {
                assert(x[k] == w.1[k]);
            }
        }
        assert forall|k: int, l: int| 0 <= k < l < y.len() implies #[trigger] y[k] < #[trigger] y[l] by {
            if l < y.len() - 1 {
                assert(y[k] == w.2[k] && y[l] == w.2[l]);
            } else {
                assert(y[k] == w.2[k]);
            }
        }
        assert forall|k: int| 0 <= k < x.len() implies 0 <= #[trigger] x[k] < i && a[x[k]] == s[k] by {
            if k < x.len() - 1 {
                assert(x[k] == w.1[k]);
            }
        }
        assert forall|k: int| 0 <= k < y.len() implies 0 <= #[trigger] y[k] < j && b[y[k]] == s[k] by {
            if k < y.len() - 1 {
                assert(y[k] == w.2[k]);
            }
        }
        (s, x, y)
    } else if lcs(a, b, (i - 1) as nat, j) >= lcs(a, b, i, (j - 1) as nat) {
        lemma_lcs_witness(a, b, (i - 1) as nat, j)
    } else {
        lemma_lcs_witness(a, b, i, (j - 1) as nat)
    }
}

/// The lines the script from `a[..i]` to `b[..j]` keeps number the table entry.
proof fn lemma_script_keeps_lcs(a: Seq<Seq<char>>, b: Seq<Seq<char>>, i: nat, j: nat)
    ensures
        kept_count(script(a, b, i, j)) == lcs(a, b, i, j),
    decreases i + j,
{
    if i == 0 && j == 0 {
    } else if i > 0 && j > 0 && a[i - 1] == b[j - 1] {
        lemma_script_keeps_lcs(a, b, (i - 1) as nat, (j - 1) as nat);
        let s = script(a, b, (i - 1) as nat, (j - 1) as nat);
        assert(s.push(DiffOp::Equal((i - 1) as usize, (j - 1) as usize)).drop_last() == s);
    } else if j > 0 && (i == 0 || lcs(a, b, i, (j - 1) as nat) >= lcs(a, b, (i - 1) as nat, j)) {
        lemma_script_keeps_lcs(a, b, i, (j - 1) as nat);
        let s = script(a, b, i, (j - 1) as nat);
        assert(s.push(DiffOp::Insert((j - 1) as usize)).drop_last() == s);
    } else {
        lemma_script_keeps_lcs(a, b, (i - 1) as nat, j);
        let s = script(a, b, (i - 1) as nat, j);
        assert(s.push(DiffOp::Delete((i - 1) as usize)).drop_last() == s);
    }
}

/// No common subsequence of two line lists is longer than the LCS length
/// the diff computes for them.
pub proof fn law_lcs_is_longest(a: Seq<Seq<char>>, b: Seq<Seq<char>>, s: Seq<Seq<char>>)
    requires
        subsequence(s, a),
        subsequence(s, b),
    ensures
        s.len() <= lcs(a, b, a.len(), b.len()),
{
    let ia = choose|idx: Seq<int>| embeds(s, a, a.len(), idx);
    let ib = choose|idx: Seq<int>| embeds(s, b, b.len(), idx);
    lemma_lcs_longest(a, b, a.len(), b.len(), s, ia, ib);
}

/// The LCS length the diff computes is the length of a common subsequence.
pub proof fn law_lcs_is_common(a: Seq<Seq<char>>, b: Seq<Seq<char>>)
    ensures
        exists|s: Seq<Seq<char>>| subsequence(s, a) && subsequence(s, b) && s.len() == lcs(a, b, a.len(), b.len()),
{
    let w = lemma_lcs_witness(a, b, a.len(), b.len());
    assert(embeds(w.0, a, a.len(), w.1));
    assert(embeds(w.0, b, b.len(), w.2));
    assert(subsequence(w.0, a) && subsequence(w.0, b));
}

/// The diff keeps exactly as many lines as a longest common subsequence of
/// the old and new PKGBUILDs has: unchanged lines are never reported as both
/// deleted and added when they could be kept.
pub proof fn law_diff_keeps_a_longest_common_subsequence(old: Seq<char>, new: Seq<char>, s: Seq<Seq<char>>)
    requires
        subsequence(s, lines(old)),
        subsequence(s, lines(new)),
    ensures
        s.len() <= kept_count(full_script(lines(old), lines(new))),
        exists|c: Seq<Seq<char>>| subsequence(c, lines(old)) && subsequence(c, lines(new))
            && c.len() == kept_count(full_script(lines(old), lines(new))),
{
    let a = lines(old);
    let b = lines(new);
    lemma_script_keeps_lcs(a, b, a.len(), b.len());
    law_lcs_is_longest(a, b, s);
    law_lcs_is_common(a, b);
}

// ───────────────────────────── the diff on screen ─────────────────────────────

/// A section of the diff on screen: its heading, one line per item and an
/// empty line; nothing when there are no items.
pub open spec fn diff_section(
    items: Seq<String>,
    style: Style,
    heading: Seq<char>,
    prefix: Seq<char>,
) -> Seq<Seq<(Style, Seq<char>)>> {
    if items.len() == 0 {
        Seq::empty()
    } else {
        seq![seq![(style, heading)]] + prefixed_view(items, prefix) + seq![Seq::empty()]
    }
}

/// The diff of a package's build script on screen: its added lines, its
/// deleted lines and the suspicious patterns among the additions.
pub open spec fn diff_view(d: PkgbuildDiff, package: Seq<char>) -> Seq<Seq<(Style, Seq<char>)>> {
    let title = seq![seq![(Style::Plain, "PKGBUILD diff for '"@ + package + "':"@)], Seq::empty()];
    if d.additions@.len() == 0 && d.deletions@.len() == 0 {
        title + seq![seq![(Style::Plain, "No changes detected."@)]]
    } else {
        title
            + diff_section(d.additions@, Style::GoodBold, "Additions (+):"@, "  + "@)
            + diff_section(d.deletions@, Style::BadBold, "Deletions (-):"@, "  - "@)
            + diff_section(d.suspicious_patterns@, Style::CautionBold, "⚠️  Suspicious patterns detected:"@, "  ! "@)
    }
}

/// Appends a section of the diff.
fn push_section(out: &mut Vec<Vec<Segment>>, items: &Vec<String>, style: Style, heading: &str, prefix: &str)
    ensures
        lines_view(final(out)@) == lines_view(old(out)@) + diff_section(items@, style, heading@, prefix@),
{
    let ghost start = lines_view(out@);
    if items.len() == 0 {
        assert(lines_view(out@) =~= start + diff_section(items@, style, heading@, prefix@));
        return;
    }
    push_line(out, single_line(styled(style, heading)));
    push_prefixed(out, items, prefix);
    push_line(out, empty_line());
    assert(lines_view(out@) =~= start + diff_section(items@, style, heading@, prefix@));
}

/// The diff of a package's build script for the terminal, each line a list
/// of styled pieces; the caller colors the pieces and prints each line.
pub fn diff_lines(diff: &PkgbuildDiff, package: &str) -> (r: Vec<Vec<Segment>>)
    ensures
        lines_view(r@) == diff_view(*diff, package@),
{
    let mut out: Vec<Vec<Segment>> = Vec::new();
    assert(lines_view(out@) =~= Seq::empty());
    let mut title = owned("PKGBUILD diff for '");
    push_str(&mut title, package);
    push_str(&mut title, "':");
    push_line(&mut out, single_line(styled_string(Style::Plain, title)));
    push_line(&mut out, empty_line());
    if diff.additions.len() == 0 && diff.deletions.len() == 0 {
        push_line(&mut out, single_line(styled(Style::Plain, "No changes detected.")));
        assert(lines_view(out@) =~= diff_view(*diff, package@));
        return out;
    }
    let ghost title_view = lines_view(out@);
    push_section(&mut out, &diff.additions, Style::GoodBold, "Additions (+):", "  + ");
    push_section(&mut out, &diff.deletions, Style::BadBold, "Deletions (-):", "  - ");
    push_section(&mut out, &diff.suspicious_patterns, Style::CautionBold, "⚠️  Suspicious patterns detected:", "  ! ");
    assert(lines_view(out@) =~= diff_view(*diff, package@));
    out
}
} // verus!
