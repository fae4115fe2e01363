//! Build-script privacy redaction (before any submission) and anomaly
//! detection (shown to the user locally), plus content hashing.
//!
//! Pattern matching goes through the `regex` crate: what a pattern matches
//! is named (`regex_matches`, `regex_match_spans`), and the rules around the
//! matches are proved here.

use vstd::prelude::*;
use sha2::Digest;
use crate::config::home_dir_text;
use crate::display::{
    field_line, field_start, line_view, lines_view, push_line, push_segment, single_line, styled,
    styled_string, Segment, Style,
};
use crate::trust::{make_signal, signal_model, SignalModel, TrustSignal};
use crate::text::{
    contains, contains_str, decimal, ends_with, int_decimal, lines, owned, push_chars, push_decimal,
    push_decimal_u64,
    push_str, split_lines, starts_with, starts_with_str, str_eq, string_of, string_texts,
    take_chars, take_prefix, texts, to_chars, to_lowercase, trim, trimmed, unicode_lowercase,
    ends_with_str, chars_eq, copy_range, digits_value, split_on_dots, split_dots,
};

verus! {

// ───────────────────────────── hashing ─────────────────────────────

/// The SHA-256 digest of the UTF-8 bytes of a text, as lowercase hex.
pub uninterp spec fn sha256_hex(text: Seq<char>) -> Seq<char>;

/// A lowercase hexadecimal digit.
pub open spec fn lower_hex_digit(c: char) -> bool {
    ('0' <= c && c <= '9') || ('a' <= c && c <= 'f')
}

/// A SHA-256 digest written out: 64 lowercase hexadecimal digits.
pub open spec fn hex_digest(h: Seq<char>) -> bool {
    h.len() == 64 && forall|i: int| 0 <= i < h.len() ==> lower_hex_digit(#[trigger] h[i])
}

/// Calls `sha2::Sha256::digest` on the UTF-8 bytes of `content` and writes
/// the digest as lowercase hexadecimal; the result is named `sha256_hex` of
/// the text. The digest has 32 bytes, and the `LowerHex` format of its array
/// writes two digits from `0123456789abcdef` for each.
#[verifier::external_body]
pub fn sha256_hash(content: &str) -> (r: String)
    ensures
        r@ == sha256_hex(content@),
        hex_digest(r@),
{
    format!("{:x}", sha2::Sha256::digest(content.as_bytes()))
}

// ───────────────────────────── regular expressions ─────────────────────────────

#[verifier::external_type_specification]
#[verifier::external_body]
pub struct ExRegex(regex::Regex);

/// Whether `regex::Regex::new` accepts the pattern.
pub uninterp spec fn regex_compiles(pattern: Seq<char>) -> bool;

/// Whether the compiled pattern matches somewhere in the haystack.
pub uninterp spec fn regex_matches(pattern: Seq<char>, hay: Seq<char>) -> bool;

/// The successive non-overlapping matches of the pattern in the haystack,
/// as character positions `(start, end)`.
pub uninterp spec fn regex_match_spans(pattern: Seq<char>, hay: Seq<char>) -> Seq<(usize, usize)>;

/// A character with a meaning in a regular expression.
pub open spec fn regex_meta(c: char) -> bool {
    c == '\\' || c == '.' || c == '+' || c == '*' || c == '?' || c == '(' || c == ')' || c == '|'
        || c == '[' || c == ']' || c == '{' || c == '}' || c == '^' || c == '$' || c == '#'
        || c == '&' || c == '-' || c == '~'
}

/// The text with a backslash before every regular-expression meta character.
pub open spec fn regex_escaped(text: Seq<char>) -> Seq<char>
    decreases text.len(),
{
    if text.len() == 0 {
        Seq::empty()
    } else {
        regex_escaped(text.drop_last())
            + if regex_meta(text.last()) { seq!['\\', text.last()] } else { seq![text.last()] }
    }
}

/// Match positions lie inside the haystack, in order, without overlap.
pub open spec fn spans_ordered(spans: Seq<(usize, usize)>, len: nat) -> bool {
    &&& forall|k: int| 0 <= k < spans.len() ==> #[trigger] spans[k].0 <= spans[k].1 && spans[k].1 <= len
    &&& forall|k: int| 0 < k < spans.len() ==> #[trigger] spans[k - 1].1 <= spans[k].0
}

/// Calls `regex::Regex::new`; it succeeds exactly when the pattern is named
/// as compiling.
#[verifier::external_body]
fn compile_regex(pattern: &str) -> (r: Option<regex::Regex>)
    ensures
        r is Some <==> regex_compiles(pattern@),
{
    regex::Regex::new(pattern).ok()
}

/// Calls `regex::escape`, which (through `regex_syntax::escape_into`) puts a
/// backslash before each character that `is_meta_character` accepts.
#[verifier::external_body]
fn regex_escape(text: &str) -> (r: String)
    ensures
        r@ == regex_escaped(text@),
{
    regex::escape(text)
}

/// A compiled regular expression together with its source pattern.
pub struct Pattern {
    source: String,
    compiled: regex::Regex,
}

impl Pattern {
    /// The source pattern.
    pub closed spec fn text(&self) -> Seq<char> {
        self.source@
    }

    /// Compiles `source`; `None` when the pattern does not compile.
    pub fn new(source: &str) -> (r: Option<Pattern>)
        ensures
            r is Some <==> regex_compiles(source@),
            r matches Some(p) ==> p.text() == source@,
    {
        match compile_regex(source) {
            Some(compiled) => Some(Pattern { source: owned(source), compiled }),
            None => None,
        }
    }

    /// Calls `regex::Regex::is_match` on the regex compiled from this
    /// pattern; the result is named `regex_matches` of pattern and haystack.
    #[verifier::external_body]
    pub(crate) fn is_match(&self, hay: &str) -> (b: bool)
        ensures
            b == regex_matches(self.text(), hay@),
    {
        self.compiled.is_match(hay)
    }

    /// Calls `regex::Regex::find_iter` on the regex compiled from this
    /// pattern, giving each match as character positions; the result is
    /// named `regex_match_spans` of pattern and haystack.  As the crate
    /// documents, the matches come in order and do not overlap.
    #[verifier::external_body]
    pub(crate) fn match_spans(&self, hay: &str) -> (r: Vec<(usize, usize)>)
        ensures
            r@ == regex_match_spans(self.text(), hay@),
            spans_ordered(r@, hay@.len()),
    {
        self.compiled
            .find_iter(hay)
            .map(|m| (hay[..m.start()].chars().count(), hay[..m.end()].chars().count()))
            .collect()
    }
}

// ───────────────────────────── anomaly detection ─────────────────────────────

/// Category of anomaly detected.
#[derive(Debug, Clone, Copy, PartialEq, Eq, Structural)]
pub enum AnomalyCategory {
    /// Remote script execution (curl | sh, wget | bash, etc.)
    RemoteScriptExecution,
    /// Base64 or hex decoding (obfuscation)
    Obfuscation,
    /// Inline eval/exec calls
    EvalExec,
    /// Aggressive rm -rf outside pkgdir/srcdir
    AggressiveRemoval,
    /// Dynamic pkgver fetched from network
    DynamicPkgver,
    /// Language package manager installs in build (npm, pip, cargo)
    PackageManagerInstall,
    /// System path modifications outside pkgdir
    SystemPathModification,
    /// Suspicious npm/bun install (known indicator of compromise)
    SuspiciousNpmInstall,
}

impl AnomalyCategory {
    /// The display name of the category.
    pub fn label(&self) -> (r: &'static str)
        ensures
            r@ == category_label(*self),
    {
        match self {
            AnomalyCategory::RemoteScriptExecution => "Remote Script Execution",
            AnomalyCategory::Obfuscation => "Obfuscation",
            AnomalyCategory::EvalExec => "eval/exec",
            AnomalyCategory::AggressiveRemoval => "Aggressive Removal",
            AnomalyCategory::DynamicPkgver => "Dynamic pkgver",
            AnomalyCategory::PackageManagerInstall => "Package Manager Install",
            AnomalyCategory::SystemPathModification => "System Path Modification",
            AnomalyCategory::SuspiciousNpmInstall => "Suspicious npm/bun Install",
        }
    }
}

/// The display name of a category.
pub open spec fn category_label(c: AnomalyCategory) -> Seq<char> {
    match c {
        AnomalyCategory::RemoteScriptExecution => "Remote Script Execution"@,
        AnomalyCategory::Obfuscation => "Obfuscation"@,
        AnomalyCategory::EvalExec => "eval/exec"@,
        AnomalyCategory::AggressiveRemoval => "Aggressive Removal"@,
        AnomalyCategory::DynamicPkgver => "Dynamic pkgver"@,
        AnomalyCategory::PackageManagerInstall => "Package Manager Install"@,
        AnomalyCategory::SystemPathModification => "System Path Modification"@,
        AnomalyCategory::SuspiciousNpmInstall => "Suspicious npm/bun Install"@,
    }
}

/// A suspicious pattern detected in a PKGBUILD.
#[derive(Debug)]
pub struct Anomaly {
    pub category: AnomalyCategory,
    pub detail: String,
    pub penalty: i32,
}

/// An anomaly as plain values.
pub type AnomalyModel = (AnomalyCategory, Seq<char>, int);

/// The plain values of an anomaly.
pub open spec fn anomaly_model(a: Anomaly) -> AnomalyModel {
    (a.category, a.detail@, a.penalty as int)
}

/// The plain values of a list of anomalies.
pub open spec fn anomaly_models(v: Seq<Anomaly>) -> Seq<AnomalyModel> {
    Seq::new(v.len(), |i: int| anomaly_model(v[i]))
}

/// Remote script execution patterns and their descriptions.
pub open spec fn remote_patterns() -> Seq<(&'static str, &'static str)> {
    seq![
        (r#"curl\s+.*\|\s*(ba)?sh"#, "curl | sh"),
        (r#"wget\s+.*\|\s*(ba)?sh"#, "wget | bash"),
        (r#"curl\s+.*-o\s+.*\s*&&.*sh"#, "curl download + execute"),
        (r#"wget\s+.*-O\s+.*\s*&&.*sh"#, "wget download + execute"),
        (r#"curl\s+.*\|\s*bash"#, "curl | bash"),
        (r#"wget\s+.*\|\s*bash"#, "wget | bash"),
        (r#"npm\s+install\s+.*\|\s*(ba)?sh"#, "npm install | sh"),
        (r#"bun\s+install\s+.*\|\s*(ba)?sh"#, "bun install | sh"),
        (r#"npx\s+.*\|\s*(ba)?sh"#, "npx | sh"),
        (r#"curl\s+.*\|\s*npx"#, "curl | npx"),
        (r#"wget\s+.*\|\s*npx"#, "wget | npx"),
    ]
}

/// Obfuscation patterns and their descriptions.
pub open spec fn obfuscation_patterns() -> Seq<(&'static str, &'static str)> {
    seq![
        (r#"base64\s+(-d|--decode)"#, "base64 decode"),
        (r#"echo\s+['\"]?\w{20,}"#, "long base64 string"),
        (r#"\\x[0-9a-fA-F]{2}.*\\x[0-9a-fA-F]{2}"#, "hex-encoded string"),
        (r#"eval\s*\$\("#, "eval with command substitution"),
    ]
}

/// eval/exec patterns and their descriptions.
pub open spec fn eval_patterns() -> Seq<(&'static str, &'static str)> {
    seq![
        (r#"\beval\b\s"#, "eval"),
        (r#"\bexec\b\s"#, "exec"),
        (r#"\$\(.*\beval\b"#, "eval in substitution"),
    ]
}

/// The pattern of a forced recursive removal.
pub open spec fn removal_pattern() -> &'static str {
    r#"rm\s+(-[a-zA-Z]*r[a-zA-Z]*f|-[a-zA-Z]*f[a-zA-Z]*r)\s+"#
}

/// The pattern of a pkgver function, which is allowed.
pub open spec fn pkgver_function_pattern() -> &'static str {
    r#"pkgver\s*\(\)\s*\{"#
}

/// Patterns of a version fetched from the network.
pub open spec fn pkgver_patterns() -> Seq<(&'static str, &'static str)> {
    seq![
        (r#"pkgver\s*=.*\$\(curl"#, "pkgver from curl"),
        (r#"pkgver\s*=.*\$\(wget"#, "pkgver from wget"),
    ]
}

/// Language package manager install patterns.
pub open spec fn install_patterns() -> Seq<(&'static str, &'static str)> {
    seq![
        (r#"\bnpm\s+install\b"#, "npm install"),
        (r#"\bnpm\s+i\b"#, "npm i"),
        (r#"\byarn\s+add\b"#, "yarn add"),
        (r#"\bpip\s+install\b"#, "pip install"),
        (r#"\bpip3\s+install\b"#, "pip3 install"),
        (r#"\bcargo\s+install\b"#, "cargo install"),
        (r#"\bbun\s+install\b"#, "bun install"),
        (r#"\bbun\s+i\b"#, "bun i"),
    ]
}

/// System path modification patterns.
pub open spec fn system_path_patterns() -> Seq<(&'static str, &'static str)> {
    seq![
        (r#"echo\s+.*>>?\s*/etc/"#, "write to /etc/"),
        (r#"cp\s+.*\s+/usr/"#, "copy to /usr/"),
        (r#"cp\s+.*\s+/bin/"#, "copy to /bin/"),
        (r#"cp\s+.*\s+/sbin/"#, "copy to /sbin/"),
        (r#"install\s+.*-D\s+.*\s+/usr/"#, "install to /usr/"),
        (r#"chmod\s+.*\s+/usr/"#, "chmod /usr/"),
        (r#"chown\s+.*\s+/usr/"#, "chown /usr/"),
    ]
}

/// Package names known from a compromise of orphaned packages.
pub open spec fn suspicious_packages() -> Seq<&'static str> {
    seq![
        "atomic-lockfile", "js-digest", "lockfile-js", "minimist", "chalk", "fast-glob",
        "semver", "cosmiconfig", "uuid",
    ]
}

/// Scanning a line against patterns in order: the index of the first that
/// matches, -1 when none does, -2 when a pattern fails to compile before a
/// match is found.
pub open spec fn scan(t: Seq<char>, pats: Seq<(&'static str, &'static str)>) -> int
    decreases pats.len(),
{
    if pats.len() == 0 {
        -1
    } else if !regex_compiles(pats[0].0@) {
        -2
    } else if regex_matches(pats[0].0@, t) {
        0
    } else {
        let r = scan(t, pats.drop_first());
        if r >= 0 { r + 1 } else { r }
    }
}

/// The detail of an anomaly on line `n`: line number, what was found, and the
/// line's first 80 characters.
pub open spec fn line_detail(n: nat, middle: Seq<char>, t: Seq<char>) -> Seq<char> {
    "L"@ + decimal(n) + ": "@ + middle + take_chars(t, 80)
}

/// What the regular expressions find on one line: for each list of
/// patterns, the index of the first that matches (-1 when none does, -2 when
/// a pattern fails to compile before a match); whether the removal pattern
/// compiles and matches; and whether the pkgver-function pattern compiles.
#[derive(Debug, Clone, Copy, PartialEq, Eq, Structural)]
pub struct LineScan {
    pub remote: i64,
    pub obfuscation: i64,
    pub eval: i64,
    pub removal: bool,
    pub pkgver_function: bool,
    pub pkgver: i64,
    pub install: i64,
    pub system_path: i64,
}

/// What the regular expressions find on line `t`.
pub open spec fn line_scan(t: Seq<char>) -> LineScan {
    LineScan {
        remote: scan(t, remote_patterns()) as i64,
        obfuscation: scan(t, obfuscation_patterns()) as i64,
        eval: scan(t, eval_patterns()) as i64,
        removal: regex_compiles(removal_pattern()@) && regex_matches(removal_pattern()@, t),
        pkgver_function: regex_compiles(pkgver_function_pattern()@),
        pkgver: scan(t, pkgver_patterns()) as i64,
        install: scan(t, install_patterns()) as i64,
        system_path: scan(t, system_path_patterns()) as i64,
    }
}

/// Every index of a scan names a pattern of its list.
pub open spec fn scan_fits(s: LineScan) -> bool {
    &&& s.remote < remote_patterns().len()
    &&& s.obfuscation < obfuscation_patterns().len()
    &&& s.eval < eval_patterns().len()
    &&& s.pkgver < pkgver_patterns().len()
    &&& s.install < install_patterns().len()
    &&& s.system_path < system_path_patterns().len()
}

/// The anomaly reported when pattern `r` of `pats` matched line `t`
/// numbered `n`; none when no pattern matched (`r` negative).
pub open spec fn found(
    r: int,
    t: Seq<char>,
    n: nat,
    pats: Seq<(&'static str, &'static str)>,
    cat: AnomalyCategory,
    penalty: int,
) -> Option<AnomalyModel> {
    if r >= 0 { Some((cat, line_detail(n, pats[r].1@ + " -- "@, t), penalty)) } else { None }
}

/// The anomaly a list of patterns reports for line `t` numbered `n`.
pub open spec fn list_check(
    t: Seq<char>,
    n: nat,
    pats: Seq<(&'static str, &'static str)>,
    cat: AnomalyCategory,
    penalty: int,
) -> Option<AnomalyModel> {
    found(scan(t, pats), t, n, pats, cat, penalty)
}

/// A forced recursive removal (`matched`) outside the package and source
/// directories.
pub open spec fn removal_found(t: Seq<char>, n: nat, matched: bool) -> Option<AnomalyModel> {
    if matched
        && !(contains(t, "$pkgdir"@) || contains(t, "$srcdir"@) || contains(t, "${pkgdir}"@)
            || contains(t, "${srcdir}"@)) {
        Some((
            AnomalyCategory::AggressiveRemoval,
            line_detail(n, "rm -rf outside pkgdir/srcdir -- "@, t),
            -10,
        ))
    } else {
        None
    }
}

/// A version fetched from the network, pattern `r` of the pkgver list, when
/// the pkgver-function pattern compiles.
pub open spec fn pkgver_found(t: Seq<char>, n: nat, allowed: bool, r: int) -> Option<AnomalyModel> {
    if allowed { found(r, t, n, pkgver_patterns(), AnomalyCategory::DynamicPkgver, -10) } else { None }
}

/// The first known suspicious package named on the line, if any.
pub open spec fn first_package(t: Seq<char>, pkgs: Seq<&'static str>) -> int
    decreases pkgs.len(),
{
    if pkgs.len() == 0 {
        -1
    } else if contains(t, pkgs[0]@) {
        0
    } else {
        let r = first_package(t, pkgs.drop_first());
        if r >= 0 { r + 1 } else { r }
    }
}

/// A package manager install (`install_hit`) in a post-install hook, or a
/// known malicious package named on the line.
pub open spec fn npm_found(t: Seq<char>, n: nat, install_hit: bool) -> Option<AnomalyModel> {
    if contains(t, "post_install"@) && install_hit {
        Some((
            AnomalyCategory::SuspiciousNpmInstall,
            line_detail(n, "Package manager install in post_install hook -- "@, t),
            -25,
        ))
    } else {
        let k = first_package(t, suspicious_packages());
        if k >= 0 {
            Some((
                AnomalyCategory::SuspiciousNpmInstall,
                line_detail(n, "Known malicious package '"@ + suspicious_packages()[k]@ + "' -- "@, t),
                -30,
            ))
        } else {
            None
        }
    }
}

/// The present values among the options, in order.
pub open spec fn somes(v: Seq<Option<AnomalyModel>>) -> Seq<AnomalyModel>
    decreases v.len(),
{
    if v.len() == 0 {
        Seq::empty()
    } else {
        let rest = somes(v.drop_last());
        match v.last() {
            Some(a) => rest.push(a),
            None => rest,
        }
    }
}

/// The checks of line `t` numbered `n`, in order, given what the regular
/// expressions found on it.
pub open spec fn scanned_checks(t: Seq<char>, n: nat, s: LineScan) -> Seq<Option<AnomalyModel>> {
    let install = found(s.install as int, t, n, install_patterns(), AnomalyCategory::PackageManagerInstall, -10);
    seq![
        found(s.remote as int, t, n, remote_patterns(), AnomalyCategory::RemoteScriptExecution, -20),
        found(s.obfuscation as int, t, n, obfuscation_patterns(), AnomalyCategory::Obfuscation, -15),
        found(s.eval as int, t, n, eval_patterns(), AnomalyCategory::EvalExec, -15),
        removal_found(t, n, s.removal),
        pkgver_found(t, n, s.pkgver_function, s.pkgver as int),
        install,
        found(s.system_path as int, t, n, system_path_patterns(), AnomalyCategory::SystemPathModification, -5),
        npm_found(t, n, install is Some),
    ]
}

/// The anomalies of line `t` numbered `n`, in check order, given what the
/// regular expressions found on it.
pub open spec fn scanned_anomalies(t: Seq<char>, n: nat, s: LineScan) -> Seq<AnomalyModel> {
    somes(scanned_checks(t, n, s))
}

/// The anomalies of one trimmed, non-comment line numbered `n`, in check order.
pub open spec fn line_anomalies(t: Seq<char>, n: nat) -> Seq<AnomalyModel> {
    scanned_anomalies(t, n, line_scan(t))
}

/// The anomalies of the first `k` lines.
pub open spec fn anomalies_upto(ls: Seq<Seq<char>>, k: nat) -> Seq<AnomalyModel>
    decreases k,
{
    if k == 0 || k > ls.len() {
        Seq::empty()
    } else {
        let t = trim(ls[k - 1]);
        let rest = anomalies_upto(ls, (k - 1) as nat);
        if starts_with(t, "#"@) { rest } else { rest + line_anomalies(t, k) }
    }
}

/// The anomalies of a PKGBUILD: every non-comment line, trimmed, checked in
/// order; line numbers start at 1.
pub open spec fn anomalies_of(content: Seq<char>) -> Seq<AnomalyModel> {
    anomalies_upto(lines(content), lines(content).len())
}

/// The detail of an anomaly on line `n` with the given middle part.
fn detail_text(n: usize, middle: &str, t: &[char]) -> (s: String)
    ensures
        s@ == line_detail(n as nat, middle@, t@),
{
    let mut s = owned("L");
    push_decimal_u64(&mut s, n as u64);
    push_str(&mut s, ": ");
    push_str(&mut s, middle);
    let head = take_prefix(t, 80);
    push_chars(&mut s, head.as_slice());
    s
}

/// Scans `t` against `pats`.
fn scan_exec(t: &str, pats: &Vec<(&'static str, &'static str)>) -> (r: i64)
    requires
        pats@.len() < 1000,
    ensures
        r == scan(t@, pats@),
{
    let mut i: usize = 0;
    assert(pats@.subrange(0, pats@.len() as int) =~= pats@);
    while i < pats.len()
        invariant
            i <= pats@.len(),
            pats@.len() < 1000,
            scan(t@, pats@) == {
                let r = scan(t@, pats@.subrange(i as int, pats@.len() as int));
                if r >= 0 { r + i } else { r }
            },
        decreases pats@.len() - i,
    {
        let ghost rest = pats@.subrange(i as int, pats@.len() as int);
        assert(rest.drop_first() =~= pats@.subrange(i + 1, pats@.len() as int));
        assert(rest[0] == pats@[i as int]);
        match Pattern::new(pats[i].0) {
            None => {
                return -2;
            },
            Some(p) => {
                if p.is_match(t) {
                    return i as i64;
                }
            },
        }
        i += 1;
    }
    -1
}

/// `scan` stays within the list.
proof fn lemma_scan_range(t: Seq<char>, pats: Seq<(&'static str, &'static str)>)
    ensures
        -2 <= scan(t, pats) < pats.len(),
    decreases pats.len(),
{
    if pats.len() > 0 {
        lemma_scan_range(t, pats.drop_first());
    }
}

fn remote_list() -> (v: Vec<(&'static str, &'static str)>)
    ensures
        v@ == remote_patterns(),
{
    let v = vec![
        (r#"curl\s+.*\|\s*(ba)?sh"#, "curl | sh"),
        (r#"wget\s+.*\|\s*(ba)?sh"#, "wget | bash"),
        (r#"curl\s+.*-o\s+.*\s*&&.*sh"#, "curl download + execute"),
        (r#"wget\s+.*-O\s+.*\s*&&.*sh"#, "wget download + execute"),
        (r#"curl\s+.*\|\s*bash"#, "curl | bash"),
        (r#"wget\s+.*\|\s*bash"#, "wget | bash"),
        (r#"npm\s+install\s+.*\|\s*(ba)?sh"#, "npm install | sh"),
        (r#"bun\s+install\s+.*\|\s*(ba)?sh"#, "bun install | sh"),
        (r#"npx\s+.*\|\s*(ba)?sh"#, "npx | sh"),
        (r#"curl\s+.*\|\s*npx"#, "curl | npx"),
        (r#"wget\s+.*\|\s*npx"#, "wget | npx"),
    ];
    assert(v@ == remote_patterns());
    v
}

fn obfuscation_list() -> (v: Vec<(&'static str, &'static str)>)
    ensures
        v@ == obfuscation_patterns(),
{
    let v = vec![
        (r#"base64\s+(-d|--decode)"#, "base64 decode"),
        (r#"echo\s+['\"]?\w{20,}"#, "long base64 string"),
        (r#"\\x[0-9a-fA-F]{2}.*\\x[0-9a-fA-F]{2}"#, "hex-encoded string"),
        (r#"eval\s*\$\("#, "eval with command substitution"),
    ];
    assert(v@ == obfuscation_patterns());
    v
}

fn eval_list() -> (v: Vec<(&'static str, &'static str)>)
    ensures
        v@ == eval_patterns(),
{
    let v = vec![
        (r#"\beval\b\s"#, "eval"),
        (r#"\bexec\b\s"#, "exec"),
        (r#"\$\(.*\beval\b"#, "eval in substitution"),
    ];
    assert(v@ == eval_patterns());
    v
}

fn pkgver_list() -> (v: Vec<(&'static str, &'static str)>)
    ensures
        v@ == pkgver_patterns(),
{
    let v = vec![
        (r#"pkgver\s*=.*\$\(curl"#, "pkgver from curl"),
        (r#"pkgver\s*=.*\$\(wget"#, "pkgver from wget"),
    ];
    assert(v@ == pkgver_patterns());
    v
}

fn install_list() -> (v: Vec<(&'static str, &'static str)>)
    ensures
        v@ == install_patterns(),
{
    let v = vec![
        (r#"\bnpm\s+install\b"#, "npm install"),
        (r#"\bnpm\s+i\b"#, "npm i"),
        (r#"\byarn\s+add\b"#, "yarn add"),
        (r#"\bpip\s+install\b"#, "pip install"),
        (r#"\bpip3\s+install\b"#, "pip3 install"),
        (r#"\bcargo\s+install\b"#, "cargo install"),
        (r#"\bbun\s+install\b"#, "bun install"),
        (r#"\bbun\s+i\b"#, "bun i"),
    ];
    assert(v@ == install_patterns());
    v
}

fn system_path_list() -> (v: Vec<(&'static str, &'static str)>)
    ensures
        v@ == system_path_patterns(),
{
    let v = vec![
        (r#"echo\s+.*>>?\s*/etc/"#, "write to /etc/"),
        (r#"cp\s+.*\s+/usr/"#, "copy to /usr/"),
        (r#"cp\s+.*\s+/bin/"#, "copy to /bin/"),
        (r#"cp\s+.*\s+/sbin/"#, "copy to /sbin/"),
        (r#"install\s+.*-D\s+.*\s+/usr/"#, "install to /usr/"),
        (r#"chmod\s+.*\s+/usr/"#, "chmod /usr/"),
        (r#"chown\s+.*\s+/usr/"#, "chown /usr/"),
    ];
    assert(v@ == system_path_patterns());
    v
}

/// Runs the regular expressions of the anomaly checks on line `t`.
fn scan_line(t: &str) -> (s: LineScan)
    ensures
        s == line_scan(t@),
        scan_fits(s),
{
    proof {
        lemma_scan_range(t@, remote_patterns());
        lemma_scan_range(t@, obfuscation_patterns());
        lemma_scan_range(t@, eval_patterns());
        lemma_scan_range(t@, pkgver_patterns());
        lemma_scan_range(t@, install_patterns());
        lemma_scan_range(t@, system_path_patterns());
    }
    let remote = scan_exec(t, &remote_list());
    let obfuscation = scan_exec(t, &obfuscation_list());
    let eval = scan_exec(t, &eval_list());
    let removal = match Pattern::new(r#"rm\s+(-[a-zA-Z]*r[a-zA-Z]*f|-[a-zA-Z]*f[a-zA-Z]*r)\s+"#) {
        Some(p) => p.is_match(t),
        None => false,
    };
    let pkgver_function = Pattern::new(r#"pkgver\s*\(\)\s*\{"#).is_some();
    let pkgver = scan_exec(t, &pkgver_list());
    let install = scan_exec(t, &install_list());
    let system_path = scan_exec(t, &system_path_list());
    LineScan { remote, obfuscation, eval, removal, pkgver_function, pkgver, install, system_path }
}

/// The anomaly reported when pattern `r` of `pats` matched.
fn found_exec(
    r: i64,
    t: &[char],
    n: usize,
    pats: &Vec<(&'static str, &'static str)>,
    cat: AnomalyCategory,
    penalty: i32,
) -> (a: Option<Anomaly>)
    requires
        r < pats@.len(),
    ensures
        match a {
            Some(x) => found(r as int, t@, n as nat, pats@, cat, penalty as int) == Some(anomaly_model(x)),
            None => found(r as int, t@, n as nat, pats@, cat, penalty as int) is None,
        },
{
    let len: usize = pats.len();
    if r >= 0 {
        assert(r < len);
        let k: usize = r as usize;
        assert(k as int == r as int);
        let mut middle = owned(pats[k].1);
        push_str(&mut middle, " -- ");
        Some(Anomaly { category: cat, detail: detail_text(n, middle.as_str(), t), penalty })
    } else {
        None
    }
}

fn removal_found_exec(t: &[char], n: usize, matched: bool) -> (a: Option<Anomaly>)
    ensures
        match a {
            Some(x) => removal_found(t@, n as nat, matched) == Some(anomaly_model(x)),
            None => removal_found(t@, n as nat, matched) is None,
        },
{
    if matched {
        let is_safe = contains_str(t, "$pkgdir") || contains_str(t, "$srcdir")
            || contains_str(t, "${pkgdir}") || contains_str(t, "${srcdir}");
        if !is_safe {
            return Some(Anomaly {
                category: AnomalyCategory::AggressiveRemoval,
                detail: detail_text(n, "rm -rf outside pkgdir/srcdir -- ", t),
                penalty: -10,
            });
        }
    }
    None
}

fn npm_found_exec(t: &[char], n: usize, install_hit: bool) -> (a: Option<Anomaly>)
    ensures
        match a {
            Some(x) => npm_found(t@, n as nat, install_hit) == Some(anomaly_model(x)),
            None => npm_found(t@, n as nat, install_hit) is None,
        },
{
    if contains_str(t, "post_install") && install_hit {
        return Some(Anomaly {
            category: AnomalyCategory::SuspiciousNpmInstall,
            detail: detail_text(n, "Package manager install in post_install hook -- ", t),
            penalty: -25,
        });
    }
    let pkgs = vec![
        "atomic-lockfile", "js-digest", "lockfile-js", "minimist", "chalk", "fast-glob",
        "semver", "cosmiconfig", "uuid",
    ];
    assert(pkgs@ == suspicious_packages());
    let mut i: usize = 0;
    assert(pkgs@.subrange(0, pkgs@.len() as int) =~= pkgs@);
    while i < pkgs.len()
        invariant
            i <= pkgs@.len(),
            pkgs@ == suspicious_packages(),
            !(contains(t@, "post_install"@) && install_hit),
            first_package(t@, pkgs@) == {
                let r = first_package(t@, pkgs@.subrange(i as int, pkgs@.len() as int));
                if r >= 0 { r + i } else { r }
            },
        decreases pkgs@.len() - i,
    {
        let ghost rest = pkgs@.subrange(i as int, pkgs@.len() as int);
        assert(rest.drop_first() =~= pkgs@.subrange(i + 1, pkgs@.len() as int));
        assert(rest[0] == pkgs@[i as int]);
        if contains_str(t, pkgs[i]) {
            let mut middle = owned("Known malicious package '");
            push_str(&mut middle, pkgs[i]);
            push_str(&mut middle, "' -- ");
            return Some(Anomaly {
                category: AnomalyCategory::SuspiciousNpmInstall,
                detail: detail_text(n, middle.as_str(), t),
                penalty: -30,
            });
        }
        i += 1;
    }
    None
}

/// Appends an anomaly found by a check, if any.
fn push_found(out: &mut Vec<Anomaly>, found: Option<Anomaly>, Ghost(m): Ghost<Option<AnomalyModel>>)
    requires
        match found {
            Some(a) => m == Some(anomaly_model(a)),
            None => m is None,
        },
    ensures
        anomaly_models(final(out)@) == match m {
            Some(x) => anomaly_models(old(out)@).push(x),
            None => anomaly_models(old(out)@),
        },
{
    match found {
        Some(a) => {
            out.push(a);
            assert(anomaly_models(out@) =~= anomaly_models(old(out)@).push(m.unwrap()));
        },
        None => {},
    }
}

/// Unfolding of `somes` over a prefix.
proof fn lemma_somes_step(v: Seq<Option<AnomalyModel>>, i: int)
    requires
        0 <= i < v.len(),
    ensures
        somes(v.subrange(0, i + 1)) == match v[i] {
            Some(x) => somes(v.subrange(0, i)).push(x),
            None => somes(v.subrange(0, i)),
        },
{
    assert(v.subrange(0, i + 1).drop_last() =~= v.subrange(0, i));
}

/// The anomalies of line `t` numbered `n`, in check order, decided from what
/// the regular expressions found on it (`s`): remote script execution,
/// obfuscation, eval/exec, a forced removal outside the package and source
/// directories, a version fetched from the network, a package manager
/// install, a system path modification, and a package manager install in a
/// post-install hook or a known malicious package.
#[verifier::rlimit(40)]
pub fn anomalies_from_scan(t: &str, n: usize, s: &LineScan) -> (r: Vec<Anomaly>)
    requires
        scan_fits(*s),
    ensures
        anomaly_models(r@) == scanned_anomalies(t@, n as nat, *s),
{
    let tc = to_chars(t);
    let tt = tc.as_slice();
    let ghost opts = scanned_checks(t@, n as nat, *s);
    let mut out: Vec<Anomaly> = Vec::new();
    assert(anomaly_models(out@) =~= somes(opts.subrange(0, 0)));
    let a1 = found_exec(s.remote, tt, n, &remote_list(), AnomalyCategory::RemoteScriptExecution, -20);
    push_found(&mut out, a1, Ghost(opts[0]));
    proof { lemma_somes_step(opts, 0); }
    let a2 = found_exec(s.obfuscation, tt, n, &obfuscation_list(), AnomalyCategory::Obfuscation, -15);
    push_found(&mut out, a2, Ghost(opts[1]));
    proof { lemma_somes_step(opts, 1); }
    let a3 = found_exec(s.eval, tt, n, &eval_list(), AnomalyCategory::EvalExec, -15);
    push_found(&mut out, a3, Ghost(opts[2]));
    proof { lemma_somes_step(opts, 2); }
    let a4 = removal_found_exec(tt, n, s.removal);
    push_found(&mut out, a4, Ghost(opts[3]));
    proof { lemma_somes_step(opts, 3); }
    let a5 = if s.pkgver_function {
        found_exec(s.pkgver, tt, n, &pkgver_list(), AnomalyCategory::DynamicPkgver, -10)
    } else {
        None
    };
    push_found(&mut out, a5, Ghost(opts[4]));
    proof { lemma_somes_step(opts, 4); }
    let a6 = found_exec(s.install, tt, n, &install_list(), AnomalyCategory::PackageManagerInstall, -10);
    let install_hit = a6.is_some();
    push_found(&mut out, a6, Ghost(opts[5]));
    proof { lemma_somes_step(opts, 5); }
    let a7 = found_exec(s.system_path, tt, n, &system_path_list(), AnomalyCategory::SystemPathModification, -5);
    push_found(&mut out, a7, Ghost(opts[6]));
    proof { lemma_somes_step(opts, 6); }
    let a8 = npm_found_exec(tt, n, install_hit);
    push_found(&mut out, a8, Ghost(opts[7]));
    proof {
        lemma_somes_step(opts, 7);
        assert(opts.subrange(0, 8) =~= opts);
    }
    out
}

/// The anomalies of one trimmed, non-comment line, in check order.
fn line_anomalies_exec(t: &[char], n: usize) -> (r: Vec<Anomaly>)
    ensures
        anomaly_models(r@) == line_anomalies(t@, n as nat),
{
    let t_str = string_of(t);
    let s = scan_line(t_str.as_str());
    anomalies_from_scan(t_str.as_str(), n, &s)
}

/// Run anomaly detection on a PKGBUILD: every non-comment line, trimmed, is
/// checked for remote script execution, obfuscation, eval/exec, forced
/// removals, network-fetched versions, package manager installs, system path
/// modifications and known malicious packages.
pub fn detect_anomalies(content: &str) -> (r: Vec<Anomaly>)
    ensures
        anomaly_models(r@) == anomalies_of(content@),
{
    let chars = to_chars(content);
    let ls = split_lines(chars.as_slice());
    let ghost tl = texts(ls@);
    let mut out: Vec<Anomaly> = Vec::new();
    let mut i: usize = 0;
    while i < ls.len()
        invariant
            tl == texts(ls@),
            tl == lines(content@),
            i <= ls@.len(),
            anomaly_models(out@) == anomalies_upto(tl, i as nat),
        decreases ls@.len() - i,
    {
        let t = trimmed(ls[i].as_slice());
        let line_num: usize = i + 1;
        if !starts_with_str(t.as_slice(), "#") {
            let found = line_anomalies_exec(t.as_slice(), line_num);
            let ghost before = anomaly_models(out@);
            let mut found = found;
            out.append(&mut found);
            assert(anomaly_models(out@) =~= before + line_anomalies(t@, line_num as nat));
        }
        i += 1;
    }
    out
}

// ───────────────────────────── structural redaction ─────────────────────────────

/// Result of sanitizing a PKGBUILD.
#[derive(Debug)]
pub struct SanitizedPkgbuild {
    /// The sanitized PKGBUILD text (safe for submission).
    pub text: String,
    /// Number of redactions made.
    pub redaction_count: usize,
    /// List of what was redacted (for logging, not submitted).
    pub redactions: Vec<String>,
}

/// How a matched segment is rewritten.
#[derive(Debug, Clone, Copy, PartialEq, Eq, Structural)]
pub enum Rewrite {
    /// Replaced by the home-path placeholder.
    Path,
    /// Replaced by the hostname placeholder.
    Host,
    /// Replaced by the IP placeholder when it is a private IPv4 address.
    Ip,
    /// Replaced by the email placeholder unless the domain is public.
    Email,
}

/// An IPv4 address in dotted-decimal notation as `Ipv4Addr`'s parser reads
/// it: four decimal octets of one to three ASCII digits, no leading zeros,
/// each at most 255.
pub open spec fn octet_value(o: Seq<char>) -> Option<int>
    decreases o.len(),
{
    if o.len() == 0 || o.len() > 3 || (o.len() > 1 && o[0] == '0') {
        None
    } else if !(forall|i: int| 0 <= i < o.len() ==> '0' <= #[trigger] o[i] && o[i] <= '9') {
        None
    } else {
        let v = digits_value(o);
        if v <= 255 { Some(v) } else { None }
    }
}

/// The four octets of a dotted-decimal IPv4 address, if `s` is one.
pub open spec fn ipv4_octets(s: Seq<char>) -> Option<(int, int, int, int)> {
    let parts = split_on_dots(s);
    if parts.len() != 4 {
        None
    } else {
        match (octet_value(parts[0]), octet_value(parts[1]), octet_value(parts[2]), octet_value(parts[3])) {
            (Some(a), Some(b), Some(c), Some(d)) => Some((a, b, c, d)),
            _ => None,
        }
    }
}

/// A private, loopback or link-local IPv4 address: 10/8, 172.16/12,
/// 192.168/16, 127/8 and 169.254/16.
pub open spec fn private_ipv4(s: Seq<char>) -> bool {
    match ipv4_octets(s) {
        Some((a, b, _c, _d)) => a == 127 || (a == 169 && b == 254) || a == 10
            || (a == 172 && 16 <= b <= 31) || (a == 192 && b == 168),
        None => false,
    }
}

/// Email domains that are public maintainer addresses.
pub open spec fn public_domains() -> Seq<&'static str> {
    seq![
        "archlinux.org", "github.com", "github.io", "gitlab.com", "aur.archlinux.org",
        "manjaro.org", "endeavouros.com", "cachyos.org", "garudalinux.org",
    ]
}

/// An email is public when its Unicode lowercase ends with a public domain.
pub open spec fn public_email(e: Seq<char>) -> bool {
    exists|k: int| 0 <= k < public_domains().len()
        && ends_with(unicode_lowercase(e), #[trigger] public_domains()[k]@)
}

/// What a matched segment becomes.
pub open spec fn rewritten(rule: Rewrite, m: Seq<char>) -> Seq<char> {
    match rule {
        Rewrite::Path => "[REDACTED:path]"@,
        Rewrite::Host => "[REDACTED:hostname]"@,
        Rewrite::Ip => if private_ipv4(m) { "[REDACTED:ip]"@ } else { m },
        Rewrite::Email => if public_email(m) { m } else { "[REDACTED:email]"@ },
    }
}

/// Whether a matched segment is replaced (not kept as it is).
pub open spec fn replaced(rule: Rewrite, m: Seq<char>) -> bool {
    match rule {
        Rewrite::Path => true,
        Rewrite::Host => true,
        Rewrite::Ip => private_ipv4(m),
        Rewrite::Email => !public_email(m),
    }
}

/// The text up to the end of the `k`-th span, with spans rewritten.
pub open spec fn rewrite_upto(text: Seq<char>, spans: Seq<(usize, usize)>, k: nat, rule: Rewrite) -> Seq<char>
    decreases k,
{
    if k == 0 || k > spans.len() {
        Seq::empty()
    } else {
        let prev_end: int = if k >= 2 { spans[k - 2].1 as int } else { 0 };
        let (s, e) = spans[k - 1];
        rewrite_upto(text, spans, (k - 1) as nat, rule) + text.subrange(prev_end, s as int)
            + rewritten(rule, text.subrange(s as int, e as int))
    }
}

/// `text` with every span rewritten by `rule`.
pub open spec fn rewrite_all(text: Seq<char>, spans: Seq<(usize, usize)>, rule: Rewrite) -> Seq<char> {
    let last_end: int = if spans.len() > 0 { spans.last().1 as int } else { 0 };
    rewrite_upto(text, spans, spans.len(), rule) + text.subrange(last_end, text.len() as int)
}

/// Some span is replaced.
pub open spec fn any_replaced(text: Seq<char>, spans: Seq<(usize, usize)>, rule: Rewrite) -> bool {
    exists|k: int| 0 <= k < spans.len()
        && replaced(rule, text.subrange(#[trigger] spans[k].0 as int, spans[k].1 as int))
}

/// The octets of an address in exec form.
fn parse_octet(o: &[char]) -> (r: Option<u32>)
    ensures
        match r {
            Some(v) => octet_value(o@) == Some(v as int),
            None => octet_value(o@) is None,
        },
{
    if o.len() == 0 || o.len() > 3 || (o.len() > 1 && o[0] == '0') {
        return None;
    }
    let mut v: u32 = 0;
    let mut i: usize = 0;
    while i < o.len()
        invariant
            1 <= o@.len() <= 3,
            i <= o@.len(),
            forall|j: int| 0 <= j < i ==> '0' <= #[trigger] o@[j] && o@[j] <= '9',
            v == digits_value(o@.subrange(0, i as int)),
            v < 1000,
            i == 0 ==> v == 0,
            i == 1 ==> v < 10,
            i == 2 ==> v < 100,
        decreases o@.len() - i,
    {
        let c = o[i];
        if !('0' <= c && c <= '9') {
            return None;
        }
        let d: u32 = (c as u32) - ('0' as u32);
        assert(o@.subrange(0, i + 1).drop_last() =~= o@.subrange(0, i as int));
        v = v * 10 + d;
        i += 1;
    }
    assert(o@.subrange(0, o@.len() as int) =~= o@);
    if v <= 255 { Some(v) } else { None }
}

/// Whether the dotted-decimal text `s` is a private IPv4 address.
pub fn is_private_ip(s: &[char]) -> (b: bool)
    ensures
        b == private_ipv4(s@),
{
    let parts = split_dots(s);
    let ghost ps = texts(parts@);
    assert(ps == split_on_dots(s@));
    if parts.len() != 4 {
        return false;
    }
    let a = parse_octet(parts[0].as_slice());
    let b = parse_octet(parts[1].as_slice());
    let c = parse_octet(parts[2].as_slice());
    let d = parse_octet(parts[3].as_slice());
    match (a, b, c, d) {
        (Some(a), Some(b), Some(_), Some(_)) => {
            a == 127 || (a == 169 && b == 254) || a == 10 || (a == 172 && 16 <= b && b <= 31)
                || (a == 192 && b == 168)
        },
        _ => false,
    }
}

/// Check if an email is from a public/maintainer domain (safe to keep).
pub fn is_public_email(email: &str) -> (b: bool)
    ensures
        b == public_email(email@),
{
    let lower = to_lowercase(email);
    let lv = to_chars(lower.as_str());
    let domains = vec![
        "archlinux.org", "github.com", "github.io", "gitlab.com", "aur.archlinux.org",
        "manjaro.org", "endeavouros.com", "cachyos.org", "garudalinux.org",
    ];
    assert(domains@ == public_domains());
    let mut i: usize = 0;
    while i < domains.len()
        invariant
            i <= domains@.len(),
            domains@ == public_domains(),
            lv@ == unicode_lowercase(email@),
            forall|k: int| 0 <= k < i ==> !ends_with(lv@, #[trigger] domains@[k]@),
        decreases domains@.len() - i,
    {
        if ends_with_str(lv.as_slice(), domains[i]) {
            return true;
        }
        i += 1;
    }
    false
}

/// Whether a matched segment is replaced, and what it becomes.
fn rewrite_segment(rule: Rewrite, m: &[char]) -> (r: (bool, Vec<char>))
    ensures
        r.0 == replaced(rule, m@),
        r.1@ == rewritten(rule, m@),
{
    match rule {
        Rewrite::Path => (true, to_chars("[REDACTED:path]")),
        Rewrite::Host => (true, to_chars("[REDACTED:hostname]")),
        Rewrite::Ip => {
            if is_private_ip(m) {
                (true, to_chars("[REDACTED:ip]"))
            } else {
                assert(m@.subrange(0, m@.len() as int) =~= m@);
                (false, copy_range(m, 0, m.len()))
            }
        },
        Rewrite::Email => {
            let ms = string_of(m);
            if is_public_email(ms.as_str()) {
                assert(m@.subrange(0, m@.len() as int) =~= m@);
                (false, copy_range(m, 0, m.len()))
            } else {
                (true, to_chars("[REDACTED:email]"))
            }
        },
    }
}


/// Rewrites every span of `text` by `rule`, and tells whether any span was
/// replaced.
fn rewrite_spans(text: &[char], spans: &Vec<(usize, usize)>, rule: Rewrite) -> (r: (Vec<char>, bool))
    requires
        spans_ordered(spans@, text@.len()),
    ensures
        r.0@ == rewrite_all(text@, spans@, rule),
        r.1 == any_replaced(text@, spans@, rule),
{
    let mut out: Vec<char> = Vec::new();
    let mut any = false;
    let mut prev: usize = 0;
    let mut k: usize = 0;
    while k < spans.len()
        invariant
            k <= spans@.len(),
            spans_ordered(spans@, text@.len()),
            prev == (if k >= 1 { spans@[k - 1].1 as int } else { 0 }),
            prev <= text@.len(),
            out@ == rewrite_upto(text@, spans@, k as nat, rule),
            any == exists|j: int| 0 <= j < k
                && replaced(rule, text@.subrange(#[trigger] spans@[j].0 as int, spans@[j].1 as int)),
        decreases spans@.len() - k,
    {
        let (s, e) = spans[k];
        assert(spans@[k as int].0 <= spans@[k as int].1 && spans@[k as int].1 <= text@.len());
        if k >= 1 {
            assert(spans@[k - 1].1 <= spans@[k as int].0);
        }
        let mut gap = copy_range(text, prev, s);
        let seg = copy_range(text, s, e);
        let (rep, mut new_seg) = rewrite_segment(rule, seg.as_slice());
        out.append(&mut gap);
        out.append(&mut new_seg);
        proof {
            let j = k as int;
            if rep {
                assert(0 <= j < k + 1 && replaced(rule, text@.subrange(spans@[j].0 as int, spans@[j].1 as int)));
            }
        }
        any = any || rep;
        prev = e;
        k += 1;
    }
    let mut tail = copy_range(text, prev, text.len());
    out.append(&mut tail);
    (out, any)
}

/// The state of a sanitization: text, number of redactions, and what was
/// redacted.
pub type RedactionState = (Seq<char>, nat, Seq<Seq<char>>);

/// The plain values of a sanitization result.
pub open spec fn sanitized_model(r: SanitizedPkgbuild) -> RedactionState {
    (r.text@, r.redaction_count as nat, string_texts(r.redactions@))
}

/// The pattern of a path under the home directory.
pub open spec fn home_pattern(home: Seq<char>) -> Seq<char> {
    regex_escaped(home) + "[/\\w.-]*"@
}

/// The pattern of the host name as a whole word.
pub open spec fn host_pattern(host: Seq<char>) -> Seq<char> {
    "\\b"@ + regex_escaped(host) + "\\b"@
}

/// The pattern of a dotted-decimal IPv4 address.
pub open spec fn ip_pattern() -> &'static str {
    r"\b(\d{1,3}\.\d{1,3}\.\d{1,3}\.\d{1,3})\b"
}

/// The pattern of an email address.
pub open spec fn email_pattern() -> &'static str {
    r"[a-zA-Z0-9._%+-]+@[a-zA-Z0-9.-]+\.[a-zA-Z]{2,}"
}

/// Whether some redaction note mentions `word`.
pub open spec fn mentions(notes: Seq<Seq<char>>, word: Seq<char>) -> bool {
    exists|i: int| 0 <= i < notes.len() && contains(#[trigger] notes[i], word)
}

/// Replacing every match at `spans`: when the text changes, the count grows
/// by one and `note` is recorded.
pub open spec fn replaced_state(st: RedactionState, spans: Seq<(usize, usize)>, rule: Rewrite, note: Seq<char>) -> RedactionState {
    let out = rewrite_all(st.0, spans, rule);
    if out != st.0 { (out, st.1 + 1, st.2.push(note)) } else { st }
}

/// A pass that replaces every match of `pat`.
pub open spec fn replace_pass(st: RedactionState, pat: Seq<char>, rule: Rewrite, note: Seq<char>) -> RedactionState {
    if !regex_compiles(pat) { st } else { replaced_state(st, regex_match_spans(pat, st.0), rule, note) }
}

/// Rewriting the matches at `spans` that `rule` replaces: `note` is recorded
/// when some match was replaced and no earlier note mentions `word`; the
/// count grows by one when the text changes.
pub open spec fn filtered_state(
    st: RedactionState,
    spans: Seq<(usize, usize)>,
    rule: Rewrite,
    word: Seq<char>,
    note: Seq<char>,
) -> RedactionState {
    let out = rewrite_all(st.0, spans, rule);
    let notes = if any_replaced(st.0, spans, rule) && !mentions(st.2, word) {
        st.2.push(note)
    } else {
        st.2
    };
    (out, if out != st.0 { st.1 + 1 } else { st.1 }, notes)
}

/// A pass that rewrites the matches of `pat` that `rule` replaces.
pub open spec fn filter_pass(
    st: RedactionState,
    pat: Seq<char>,
    rule: Rewrite,
    word: Seq<char>,
    note: Seq<char>,
) -> RedactionState {
    if !regex_compiles(pat) { st } else { filtered_state(st, regex_match_spans(pat, st.0), rule, word, note) }
}

/// The text of an optional string.
pub open spec fn opt_text(o: Option<&str>) -> Option<Seq<char>> {
    match o {
        Some(s) => Some(s@),
        None => None,
    }
}

/// Sanitizing `content` given the home directory and host name: home paths,
/// then the host name, then private IPv4 addresses, then non-public email
/// addresses are redacted.
pub open spec fn sanitized(content: Seq<char>, home: Option<Seq<char>>, host: Option<Seq<char>>) -> RedactionState {
    let s0: RedactionState = (content, 0, Seq::empty());
    let s1 = match home {
        Some(h) => replace_pass(s0, home_pattern(h), Rewrite::Path, "home path ("@ + h + ")"@),
        None => s0,
    };
    let s2 = match host {
        Some(h) => replace_pass(s1, host_pattern(h), Rewrite::Host, "hostname ("@ + h + ")"@),
        None => s1,
    };
    let s3 = filter_pass(s2, ip_pattern()@, Rewrite::Ip, "IP"@, "private IP addresses"@);
    filter_pass(s3, email_pattern()@, Rewrite::Email, "email"@, "email addresses"@)
}

/// Whether some note mentions `word`.
fn mentions_exec(notes: &Vec<String>, word: &str) -> (b: bool)
    ensures
        b == mentions(string_texts(notes@), word@),
{
    let ghost ns = string_texts(notes@);
    let mut i: usize = 0;
    while i < notes.len()
        invariant
            i <= notes@.len(),
            ns == string_texts(notes@),
            forall|j: int| 0 <= j < i ==> !contains(#[trigger] ns[j], word@),
        decreases notes@.len() - i,
    {
        let cs = to_chars(notes[i].as_str());
        if contains_str(cs.as_slice(), word) {
            assert(contains(ns[i as int], word@));
            return true;
        }
        i += 1;
    }
    false
}

/// Runs a replacing pass on the state.
/// One redaction pass given the matches of its pattern in the text, as
/// character positions in order: every match is rewritten by `rule`; when
/// the text changes, the count grows by one and `note` is recorded.
pub fn apply_replacements(
    text: &mut String,
    count: &mut usize,
    notes: &mut Vec<String>,
    spans: &Vec<(usize, usize)>,
    rule: Rewrite,
    note: String,
)
    requires
        spans_ordered(spans@, old(text)@.len()),
        *old(count) < usize::MAX,
    ensures
        (final(text)@, *final(count) as nat, string_texts(final(notes)@)) == replaced_state(
            (old(text)@, *old(count) as nat, string_texts(old(notes)@)),
            spans@,
            rule,
            note@,
        ),
{
    let chars = to_chars(text.as_str());
    let (out, _any) = rewrite_spans(chars.as_slice(), spans, rule);
    if !chars_eq(out.as_slice(), chars.as_slice()) {
        *text = string_of(out.as_slice());
        *count = *count + 1;
        let ghost before = string_texts(notes@);
        notes.push(note);
        assert(string_texts(notes@) =~= before.push(note@));
    }
}

/// One filtering redaction pass given the matches of its pattern in the
/// text, as character positions in order: the matches that `rule` replaces
/// are rewritten; `note` is recorded when some was and no earlier note
/// mentions `word`; the count grows by one when the text changes.
pub fn apply_filtered_replacements(
    text: &mut String,
    count: &mut usize,
    notes: &mut Vec<String>,
    spans: &Vec<(usize, usize)>,
    rule: Rewrite,
    word: &str,
    note: &str,
)
    requires
        spans_ordered(spans@, old(text)@.len()),
        *old(count) < usize::MAX,
    ensures
        (final(text)@, *final(count) as nat, string_texts(final(notes)@)) == filtered_state(
            (old(text)@, *old(count) as nat, string_texts(old(notes)@)),
            spans@,
            rule,
            word@,
            note@,
        ),
{
    let chars = to_chars(text.as_str());
    let (out, any) = rewrite_spans(chars.as_slice(), spans, rule);
    if any && !mentions_exec(notes, word) {
        let ghost before = string_texts(notes@);
        notes.push(owned(note));
        assert(string_texts(notes@) =~= before.push(note@));
    }
    if !chars_eq(out.as_slice(), chars.as_slice()) {
        *text = string_of(out.as_slice());
        *count = *count + 1;
    }
}

/// Runs a replacing pass on the state.
fn replace_pass_exec(
    text: &mut String,
    count: &mut usize,
    notes: &mut Vec<String>,
    pat: &str,
    rule: Rewrite,
    note: String,
)
    requires
        *old(count) < 100,
    ensures
        (final(text)@, *final(count) as nat, string_texts(final(notes)@)) == replace_pass(
            (old(text)@, *old(count) as nat, string_texts(old(notes)@)),
            pat@,
            rule,
            note@,
        ),
{
    match Pattern::new(pat) {
        None => {},
        Some(p) => {
            let spans = p.match_spans(text.as_str());
            apply_replacements(text, count, notes, &spans, rule, note);
        },
    }
}

/// Runs a filtering pass on the state.
fn filter_pass_exec(
    text: &mut String,
    count: &mut usize,
    notes: &mut Vec<String>,
    pat: &str,
    rule: Rewrite,
    word: &str,
    note: &str,
)
    requires
        *old(count) < 100,
    ensures
        (final(text)@, *final(count) as nat, string_texts(final(notes)@)) == filter_pass(
            (old(text)@, *old(count) as nat, string_texts(old(notes)@)),
            pat@,
            rule,
            word@,
            note@,
        ),
{
    match Pattern::new(pat) {
        None => {},
        Some(p) => {
            let spans = p.match_spans(text.as_str());
            apply_filtered_replacements(text, count, notes, &spans, rule, word, note);
        },
    }
}

/// Sanitizes a PKGBUILD for submission, given the current user's home
/// directory and host name: paths under the home directory, the host name,
/// private IPv4 addresses and non-public email addresses are replaced by
/// placeholders, which keeps the structure of the text for diffs.
pub fn sanitize_with(content: &str, home: Option<&str>, host: Option<&str>) -> (r: SanitizedPkgbuild)
    ensures
        sanitized_model(r) == sanitized(content@, opt_text(home), opt_text(host)),
{
    let mut text = owned(content);
    let mut count: usize = 0;
    let mut notes: Vec<String> = Vec::new();
    assert(string_texts(notes@) =~= Seq::<Seq<char>>::empty());
    match home {
        Some(h) => {
            let mut pat = regex_escape(h);
            push_str(&mut pat, "[/\\w.-]*");
            let mut note = owned("home path (");
            push_str(&mut note, h);
            push_str(&mut note, ")");
            replace_pass_exec(&mut text, &mut count, &mut notes, pat.as_str(), Rewrite::Path, note);
        },
        None => {},
    }
    match host {
        Some(h) => {
            let mut pat = owned("\\b");
            let esc = regex_escape(h);
            push_str(&mut pat, esc.as_str());
            push_str(&mut pat, "\\b");
            let mut note = owned("hostname (");
            push_str(&mut note, h);
            push_str(&mut note, ")");
            replace_pass_exec(&mut text, &mut count, &mut notes, pat.as_str(), Rewrite::Host, note);
        },
        None => {},
    }
    filter_pass_exec(
        &mut text,
        &mut count,
        &mut notes,
        r"\b(\d{1,3}\.\d{1,3}\.\d{1,3}\.\d{1,3})\b",
        Rewrite::Ip,
        "IP",
        "private IP addresses",
    );
    filter_pass_exec(
        &mut text,
        &mut count,
        &mut notes,
        r"[a-zA-Z0-9._%+-]+@[a-zA-Z0-9.-]+\.[a-zA-Z]{2,}",
        Rewrite::Email,
        "email",
        "email addresses",
    );
    SanitizedPkgbuild { text, redaction_count: count, redactions: notes }
}

/// Calls `hostname::get` and converts the name to text lossily; an error
/// gives `None`.  The result depends on the machine: nothing is stated of it.
#[verifier::external_body]
fn host_name_text() -> (r: Option<String>) {
    hostname::get().ok().map(|h| h.to_string_lossy().to_string())
}

/// Sanitizes a PKGBUILD for submission with this machine's home directory
/// and host name, whatever they are.
pub fn sanitize_pkgbuild(content: &str) -> (r: SanitizedPkgbuild)
    ensures
        exists|home: Option<Seq<char>>, host: Option<Seq<char>>|
            sanitized_model(r) == #[trigger] sanitized(content@, home, host),
{
    let home = home_dir_text();
    let host = host_name_text();
    let h = match &home {
        Some(s) => Some(s.as_str()),
        None => None,
    };
    let n = match &host {
        Some(s) => Some(s.as_str()),
        None => None,
    };
    sanitize_with(content, h, n)
}

// ───────────────────────────── the anomaly signal ─────────────────────────────

/// The sum of the anomalies' penalties.
pub open spec fn penalty_total(v: Seq<AnomalyModel>) -> int
    decreases v.len(),
{
    if v.len() == 0 { 0 } else { penalty_total(v.drop_last()) + v.last().2 }
}

/// Every running sum of the penalties fits in an `i32`.
pub open spec fn penalties_fit(v: Seq<AnomalyModel>) -> bool {
    forall|k: int| 0 <= k <= v.len() ==> i32::MIN <= #[trigger] penalty_total(v.subrange(0, k)) <= i32::MAX
}

/// The trust signal of detected anomalies: their penalties summed.
pub open spec fn anomaly_signal_model(v: Seq<AnomalyModel>) -> SignalModel {
    ("PKGBUILD Anomalies"@, penalty_total(v), 0, decimal(v.len()) + " suspicious pattern(s) detected"@)
}

/// The trust signal that carries the cumulative anomaly penalty.
pub fn anomaly_signal(anomalies: &Vec<Anomaly>) -> (s: TrustSignal)
    requires
        penalties_fit(anomaly_models(anomalies@)),
    ensures
        signal_model(s) == anomaly_signal_model(anomaly_models(anomalies@)),
{
    let ghost am = anomaly_models(anomalies@);
    let mut total: i32 = 0;
    let mut i: usize = 0;
    while i < anomalies.len()
        invariant
            am == anomaly_models(anomalies@),
            penalties_fit(am),
            i <= am.len(),
            total == penalty_total(am.subrange(0, i as int)),
        decreases am.len() - i,
    {
        assert(am.subrange(0, i + 1).drop_last() =~= am.subrange(0, i as int));
        assert(i32::MIN <= penalty_total(am.subrange(0, i + 1)) <= i32::MAX);
        total = total + anomalies[i].penalty;
        i += 1;
    }
    assert(am.subrange(0, am.len() as int) =~= am);
    let mut detail = String::new();
    push_decimal_u64(&mut detail, anomalies.len() as u64);
    push_str(&mut detail, " suspicious pattern(s) detected");
    make_signal("PKGBUILD Anomalies", total, 0, detail)
}

/// The style of an anomaly line: red for npm/bun installs, remote scripts and
/// obfuscation, yellow for eval, removals, package managers and dynamic
/// versions, plain for system paths.
pub open spec fn anomaly_style(c: AnomalyCategory) -> Style {
    match c {
        AnomalyCategory::SuspiciousNpmInstall
        | AnomalyCategory::RemoteScriptExecution
        | AnomalyCategory::Obfuscation => Style::Bad,
        AnomalyCategory::EvalExec
        | AnomalyCategory::AggressiveRemoval
        | AnomalyCategory::PackageManagerInstall
        | AnomalyCategory::DynamicPkgver => Style::Caution,
        AnomalyCategory::SystemPathModification => Style::Plain,
    }
}

/// The line of one anomaly.
pub open spec fn anomaly_line(a: AnomalyModel) -> Seq<(Style, Seq<char>)> {
    seq![(anomaly_style(a.0), "    ["@ + category_label(a.0) + "] "@ + a.1)]
}

/// The lines that list anomalies on screen: a heading with their count, one
/// line each, and the total penalty; or one line saying there are none.
pub open spec fn anomalies_view(v: Seq<AnomalyModel>) -> Seq<Seq<(Style, Seq<char>)>> {
    if v.len() == 0 {
        seq![seq![(Style::Good, "  No anomalies detected"@)]]
    } else {
        seq![seq![
            (Style::Plain, "  "@),
            (Style::BadBold, "Suspicious Patterns:"@),
            (Style::Plain, " ("@ + decimal(v.len()) + " found)"@),
        ]]
            + Seq::new(v.len(), |i: int| anomaly_line(v[i]))
            + seq![field_start(Style::Label, "Total penalty:"@) + seq![(Style::Bad, int_decimal(penalty_total(v)))]]
    }
}

/// The style of an anomaly line.
fn anomaly_color(c: AnomalyCategory) -> (r: Style)
    ensures
        r == anomaly_style(c),
{
    match c {
        AnomalyCategory::SuspiciousNpmInstall
        | AnomalyCategory::RemoteScriptExecution
        | AnomalyCategory::Obfuscation => Style::Bad,
        AnomalyCategory::EvalExec
        | AnomalyCategory::AggressiveRemoval
        | AnomalyCategory::PackageManagerInstall
        | AnomalyCategory::DynamicPkgver => Style::Caution,
        AnomalyCategory::SystemPathModification => Style::Plain,
    }
}

/// The lines that list anomalies for the terminal, each a list of styled
/// pieces; the caller colors the pieces and joins the lines with newlines.
pub fn anomaly_lines(anomalies: &Vec<Anomaly>) -> (r: Vec<Vec<Segment>>)
    requires
        penalties_fit(anomaly_models(anomalies@)),
    ensures
        lines_view(r@) == anomalies_view(anomaly_models(anomalies@)),
{
    let ghost am = anomaly_models(anomalies@);
    let mut out: Vec<Vec<Segment>> = Vec::new();
    assert(lines_view(out@) =~= Seq::empty());
    if anomalies.len() == 0 {
        push_line(&mut out, single_line(styled(Style::Good, "  No anomalies detected")));
        assert(lines_view(out@) =~= anomalies_view(am));
        return out;
    }
    let mut head: Vec<Segment> = Vec::new();
    assert(line_view(head@) =~= Seq::empty());
    push_segment(&mut head, styled(Style::Plain, "  "));
    push_segment(&mut head, styled(Style::BadBold, "Suspicious Patterns:"));
    let mut count = owned(" (");
    push_decimal_u64(&mut count, anomalies.len() as u64);
    push_str(&mut count, " found)");
    push_segment(&mut head, styled_string(Style::Plain, count));
    assert(am.len() == anomalies@.len());
    assert(line_view(head@) =~= anomalies_view(am)[0]);
    push_line(&mut out, head);
    let ghost first = lines_view(out@);

    let mut total: i32 = 0;
    let mut i: usize = 0;
    while i < anomalies.len()
        invariant
            am == anomaly_models(anomalies@),
            penalties_fit(am),
            i <= am.len(),
            total == penalty_total(am.subrange(0, i as int)),
            first.len() == 1,
            lines_view(out@) == first + Seq::new(i as nat, |k: int| anomaly_line(am[k])),
        decreases am.len() - i,
    {
        assert(am.subrange(0, i + 1).drop_last() =~= am.subrange(0, i as int));
        assert(i32::MIN <= penalty_total(am.subrange(0, i + 1)) <= i32::MAX);
        let a = &anomalies[i];
        let mut text = owned("    [");
        push_str(&mut text, a.category.label());
        push_str(&mut text, "] ");
        push_str(&mut text, a.detail.as_str());
        let line = single_line(styled_string(anomaly_color(a.category), text));
        assert(line_view(line@) == anomaly_line(am[i as int]));
        push_line(&mut out, line);
        total = total + a.penalty;
        i += 1;
        assert(lines_view(out@) =~= first + Seq::new(i as nat, |k: int| anomaly_line(am[k])));
    }
    assert(am.subrange(0, am.len() as int) =~= am);
    let mut last = field_line(Style::Label, "Total penalty:");
    let mut t = String::new();
    push_decimal(&mut t, total as i64);
    push_segment(&mut last, styled_string(Style::Bad, t));
    assert(line_view(last@) =~= field_start(Style::Label, "Total penalty:"@)
        + seq![(Style::Bad, int_decimal(penalty_total(am)))]);
    push_line(&mut out, last);
    assert(lines_view(out@) =~= anomalies_view(am));
    out
}


// ───────────────────────────── laws ─────────────────────────────

/// A pass that counts nothing leaves the text as it was.
proof fn lemma_pass_count(st: RedactionState, pat: Seq<char>, rule: Rewrite, word: Seq<char>, note: Seq<char>)
    ensures
        replace_pass(st, pat, rule, note).1 >= st.1,
        replace_pass(st, pat, rule, note).1 == st.1 ==> replace_pass(st, pat, rule, note).0 == st.0,
        filter_pass(st, pat, rule, word, note).1 >= st.1,
        filter_pass(st, pat, rule, word, note).1 == st.1 ==> filter_pass(st, pat, rule, word, note).0 == st.0,
{
}

/// When nothing was redacted, the text is left exactly as it was.
pub proof fn law_no_redaction_keeps_text(content: Seq<char>, home: Option<Seq<char>>, host: Option<Seq<char>>)
    requires
        sanitized(content, home, host).1 == 0,
    ensures
        sanitized(content, home, host).0 == content,
{
    let s0: RedactionState = (content, 0, Seq::empty());
    let s1 = match home {
        Some(h) => replace_pass(s0, home_pattern(h), Rewrite::Path, "home path ("@ + h + ")"@),
        None => s0,
    };
    let s2 = match host {
        Some(h) => replace_pass(s1, host_pattern(h), Rewrite::Host, "hostname ("@ + h + ")"@),
        None => s1,
    };
    let s3 = filter_pass(s2, ip_pattern()@, Rewrite::Ip, "IP"@, "private IP addresses"@);
    if let Some(h) = home {
        lemma_pass_count(s0, home_pattern(h), Rewrite::Path, Seq::empty(), "home path ("@ + h + ")"@);
    }
    if let Some(h) = host {
        lemma_pass_count(s1, host_pattern(h), Rewrite::Host, Seq::empty(), "hostname ("@ + h + ")"@);
    }
    lemma_pass_count(s2, ip_pattern()@, Rewrite::Ip, "IP"@, "private IP addresses"@);
    lemma_pass_count(s3, email_pattern()@, Rewrite::Email, "email"@, "email addresses"@);
}

/// No more than one redaction is counted per pass.
pub proof fn law_at_most_four_redactions(content: Seq<char>, home: Option<Seq<char>>, host: Option<Seq<char>>)
    ensures
        sanitized(content, home, host).1 <= 4,
{
}

/// Every anomaly carries a penalty between -30 and -5.
pub proof fn law_anomaly_penalties(content: Seq<char>, k: int)
    requires
        0 <= k < anomalies_of(content).len(),
    ensures
        -30 <= anomalies_of(content)[k].2 <= -5,
{
    lemma_anomalies_upto_penalties(lines(content), lines(content).len());
}

/// The anomalies of the first `n` lines carry penalties between -30 and -5.
proof fn lemma_anomalies_upto_penalties(ls: Seq<Seq<char>>, n: nat)
    ensures
        forall|k: int| 0 <= k < anomalies_upto(ls, n).len() ==> -30 <= #[trigger] anomalies_upto(ls, n)[k].2 <= -5,
    decreases n,
{
    if n > 0 && n <= ls.len() {
        lemma_anomalies_upto_penalties(ls, (n - 1) as nat);
        let t = trim(ls[n - 1]);
        let rest = anomalies_upto(ls, (n - 1) as nat);
        if !starts_with(t, "#"@) {
            let la = line_anomalies(t, n);
            lemma_line_penalties(t, n);
            assert forall|k: int| 0 <= k < (rest + la).len() implies -30 <= #[trigger] (rest + la)[k].2 <= -5 by {
                if k >= rest.len() {
                    assert((rest + la)[k] == la[k - rest.len()]);
                }
            }
        }
    }
}

/// The present values among options whose penalties lie in the range.
proof fn lemma_somes_penalties(v: Seq<Option<AnomalyModel>>)
    requires
        forall|i: int| 0 <= i < v.len() ==> (#[trigger] v[i] matches Some(a) ==> -30 <= a.2 <= -5),
    ensures
        forall|k: int| 0 <= k < somes(v).len() ==> -30 <= #[trigger] somes(v)[k].2 <= -5,
    decreases v.len(),
{
    if v.len() > 0 {
        let d = v.drop_last();
        assert forall|i: int| 0 <= i < d.len() implies (#[trigger] d[i] matches Some(a) ==> -30 <= a.2 <= -5) by {
            assert(d[i] == v[i]);
        }
        lemma_somes_penalties(d);
        let r = somes(d);
        assert(v[v.len() - 1] == v.last());
        match v.last() {
            Some(a) => {
                assert(somes(v) == r.push(a));
                assert forall|k: int| 0 <= k < somes(v).len() implies -30 <= #[trigger] somes(v)[k].2 <= -5 by {
                    if k < r.len() {
                        assert(r.push(a)[k] == r[k]);
                    }
                }
            },
            None => {
                assert(somes(v) == r);
            },
        }
    }
}

/// The anomalies of one line carry penalties between -30 and -5.
proof fn lemma_line_penalties(t: Seq<char>, n: nat)
    ensures
        forall|k: int| 0 <= k < line_anomalies(t, n).len() ==> -30 <= #[trigger] line_anomalies(t, n)[k].2 <= -5,
{
    lemma_somes_penalties(scanned_checks(t, n, line_scan(t)));
}

} // verus!
