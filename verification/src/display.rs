//! What the terminal shows, before colors: score bands, shortened texts,
//! list summaries and labels.

use vstd::prelude::*;
use crate::backends::{opt_string, source_label, PackageInfo, PackageSource};
use crate::trust::{tier_label, TrustReport, TrustSignal};
use crate::text::{
    copy_range, decimal, int_decimal, join, join_strings, owned, push_char, push_decimal,
    push_decimal_u64, push_str, starts_with, starts_with_str, str_eq, string_of, string_texts, to_chars, trim_end,
    to_uppercase, unicode_uppercase,
};

verus! {

/// Search results shown unless all are asked for.
pub const DEFAULT_MAX_RESULTS: usize = 25;

/// Color band of a trust score.
#[derive(Debug, Clone, Copy, PartialEq, Eq, Structural)]
pub enum ScoreColor {
    Green,
    Yellow,
    Red,
}

/// The band of a score: 70 to 100 green, 40 to 69 yellow, otherwise red.
pub open spec fn score_band(score: u32) -> ScoreColor {
    if 70 <= score <= 100 {
        ScoreColor::Green
    } else if 40 <= score <= 69 {
        ScoreColor::Yellow
    } else {
        ScoreColor::Red
    }
}

/// Color tier for the score box.
pub fn score_tier_color(score: u32) -> (c: ScoreColor)
    ensures
        c == score_band(score),
{
    if 70 <= score && score <= 100 {
        ScoreColor::Green
    } else if 40 <= score && score <= 69 {
        ScoreColor::Yellow
    } else {
        ScoreColor::Red
    }
}

/// A text cut to `max_chars` characters: a longer text keeps its first
/// `max_chars` characters, without trailing whitespace, followed by `...`.
pub open spec fn truncated(value: Seq<char>, max_chars: nat) -> Seq<char> {
    if value.len() <= max_chars {
        value
    } else {
        trim_end(value.subrange(0, max_chars as int)) + "..."@
    }
}

/// Cuts a text to `max_chars` characters.
pub fn truncate(value: &str, max_chars: usize) -> (r: String)
    ensures
        r@ == truncated(value@, max_chars as nat),
{
    let chars = to_chars(value);
    if chars.len() <= max_chars {
        return owned(value);
    }
    let head = copy_range(chars.as_slice(), 0, max_chars);
    let mut end: usize = head.len();
    assert(head@.subrange(0, head@.len() as int) =~= head@);
    while end > 0 && crate::text::is_whitespace(head[end - 1])
        invariant
            end <= head@.len(),
            trim_end(head@) == trim_end(head@.subrange(0, end as int)),
        decreases end,
    {
        assert(head@.subrange(0, end as int).drop_last() =~= head@.subrange(0, end - 1));
        end -= 1;
    }
    assert(trim_end(head@.subrange(0, end as int)) == head@.subrange(0, end as int));
    let kept = copy_range(head.as_slice(), 0, end);
    let mut r = string_of(kept.as_slice());
    push_str(&mut r, "...");
    r
}

/// The first `limit` values joined with `, `, followed by `, ... N more`
/// when `N` values are left out.
pub open spec fn summary(values: Seq<Seq<char>>, limit: nat) -> Seq<char> {
    if values.len() > limit {
        join(values.subrange(0, limit as int), ", "@) + ", ... "@ + decimal((values.len() - limit) as nat) + " more"@
    } else {
        join(values, ", "@)
    }
}

/// Summarizes a list, showing at most `limit` values.
pub fn summarize_list(values: &Vec<String>, limit: usize) -> (r: String)
    ensures
        r@ == summary(string_texts(values@), limit as nat),
{
    let n: usize = values.len();
    let m = if n < limit { n } else { limit };
    let mut shown: Vec<String> = Vec::new();
    let mut i: usize = 0;
    while i < m
        invariant
            m <= values@.len(),
            i <= m,
            string_texts(shown@) == string_texts(values@).subrange(0, i as int),
        decreases m - i,
    {
        let ghost before = string_texts(shown@);
        shown.push(values[i].clone());
        assert(string_texts(shown@) =~= before.push(values@[i as int]@));
        i += 1;
        assert(string_texts(shown@) =~= string_texts(values@).subrange(0, i as int));
    }
    let mut r = join_strings(&shown, ", ");
    if n > limit {
        push_str(&mut r, ", ... ");
        push_decimal_u64(&mut r, (n - limit) as u64);
        push_str(&mut r, " more");
    } else {
        assert(string_texts(values@).subrange(0, n as int) =~= string_texts(values@));
    }
    r
}

/// The label of a distribution repository: its distribution's name.
pub open spec fn repo_label(repo: Seq<char>) -> Seq<char> {
    if repo == "endeavouros"@ {
        "EndeavourOS"@
    } else if starts_with(repo, "cachyos"@) {
        "CachyOS"@
    } else {
        repo
    }
}

/// The label of a distribution repository.
pub fn official_repo_label(repo: &str) -> (r: String)
    ensures
        r@ == repo_label(repo@),
{
    let chars = to_chars(repo);
    if str_eq(repo, "endeavouros") {
        owned("EndeavourOS")
    } else if starts_with_str(chars.as_slice(), "cachyos") {
        owned("CachyOS")
    } else {
        owned(repo)
    }
}

/// The points of a signal as shown: `+points/max` when not negative,
/// otherwise the (negative) points alone.
pub open spec fn points_shown(points: i32, max_points: i32) -> Seq<char> {
    if points >= 0 {
        "+"@ + int_decimal(points as int) + "/"@ + int_decimal(max_points as int)
    } else {
        int_decimal(points as int)
    }
}

/// The points of a signal as shown.
pub fn points_text(points: i32, max_points: i32) -> (r: String)
    ensures
        r@ == points_shown(points, max_points),
{
    let mut r = String::new();
    if points >= 0 {
        push_str(&mut r, "+");
        push_decimal(&mut r, points as i64);
        push_str(&mut r, "/");
        push_decimal(&mut r, max_points as i64);
    } else {
        push_decimal(&mut r, points as i64);
    }
    r
}

/// A score out of 100, as shown.
pub fn score_text(score: u32) -> (r: String)
    ensures
        r@ == decimal(score as nat) + "/100"@,
{
    let mut r = String::new();
    push_decimal_u64(&mut r, score as u64);
    push_str(&mut r, "/100");
    r
}

/// How many search results are shown.
pub fn result_limit(show_all: bool, count: usize) -> (r: usize)
    ensures
        r == if show_all { count } else if count < DEFAULT_MAX_RESULTS { count } else { DEFAULT_MAX_RESULTS },
{
    if show_all {
        count
    } else if count < DEFAULT_MAX_RESULTS {
        count
    } else {
        DEFAULT_MAX_RESULTS
    }
}

/// How a recommendation is shown.
#[derive(Debug, Clone, Copy, PartialEq, Eq, Structural)]
pub enum RecommendationStyle {
    /// Safe and Moderate.
    Good,
    /// Caution.
    Caution,
    /// Everything else.
    Bad,
}

/// The style of a recommendation label.
pub fn recommendation_style(recommendation: &str) -> (r: RecommendationStyle)
    ensures
        r == if recommendation@ == "Safe"@ || recommendation@ == "Moderate"@ {
            RecommendationStyle::Good
        } else if recommendation@ == "Caution"@ {
            RecommendationStyle::Caution
        } else {
            RecommendationStyle::Bad
        },
{
    if str_eq(recommendation, "Safe") || str_eq(recommendation, "Moderate") {
        RecommendationStyle::Good
    } else if str_eq(recommendation, "Caution") {
        RecommendationStyle::Caution
    } else {
        RecommendationStyle::Bad
    }
}


// ───────────────────────────── styled lines ─────────────────────────────

/// How a piece of terminal text is shown.
#[derive(Debug, Clone, Copy, PartialEq, Eq, Structural)]
pub enum Style {
    /// As it is.
    Plain,
    /// Dimmed.
    Dimmed,
    /// Bold.
    Bold,
    /// Cyan and bold: section and field headings.
    Heading,
    /// Cyan.
    Label,
    /// White and bold.
    Highlight,
    /// Green.
    Good,
    /// Green and bold.
    GoodBold,
    /// Yellow.
    Caution,
    /// Yellow and bold.
    CautionBold,
    /// Red.
    Bad,
    /// Red and bold.
    BadBold,
    /// Magenta.
    Accent,
}

/// A piece of a terminal line with its style.
#[derive(Debug)]
pub struct Segment {
    pub style: Style,
    pub text: String,
}

/// A segment as plain values.
pub open spec fn segment_view(s: Segment) -> (Style, Seq<char>) {
    (s.style, s.text@)
}

/// A line as plain values.
pub open spec fn line_view(l: Seq<Segment>) -> Seq<(Style, Seq<char>)> {
    l.map_values(|s: Segment| segment_view(s))
}

/// Lines as plain values.
pub open spec fn lines_view(ls: Seq<Vec<Segment>>) -> Seq<Seq<(Style, Seq<char>)>> {
    ls.map_values(|l: Vec<Segment>| line_view(l@))
}

/// A segment holding the text of `text`.
pub fn styled(style: Style, text: &str) -> (s: Segment)
    ensures
        segment_view(s) == (style, text@),
{
    Segment { style, text: owned(text) }
}

/// A segment holding `text`.
pub fn styled_string(style: Style, text: String) -> (s: Segment)
    ensures
        segment_view(s) == (style, text@),
{
    Segment { style, text }
}

/// `n` spaces.
pub open spec fn spaces(n: nat) -> Seq<char> {
    Seq::new(n, |i: int| ' ')
}

/// `s` followed by spaces up to `width` characters, as `{:<width}` pads.
pub open spec fn pad_right(s: Seq<char>, width: nat) -> Seq<char> {
    if s.len() >= width { s } else { s + spaces((width - s.len()) as nat) }
}

/// `s` preceded by spaces up to `width` characters, as `{:>width}` pads.
pub open spec fn pad_left(s: Seq<char>, width: nat) -> Seq<char> {
    if s.len() >= width { s } else { spaces((width - s.len()) as nat) + s }
}

/// Appends `n` spaces to `s`.
fn push_spaces(s: &mut String, n: usize)
    ensures
        final(s)@ == old(s)@ + spaces(n as nat),
{
    let mut i: usize = 0;
    while i < n
        invariant
            i <= n,
            s@ == old(s)@ + spaces(i as nat),
        decreases n - i,
    {
        push_char(s, ' ');
        i += 1;
        assert(spaces(i as nat) =~= spaces((i - 1) as nat).push(' '));
    }
}

/// `text` padded on the right to `width` characters.
pub fn padded_right(text: &str, width: usize) -> (r: String)
    ensures
        r@ == pad_right(text@, width as nat),
{
    let n: usize = to_chars(text).len();
    let mut r = owned(text);
    if n < width {
        push_spaces(&mut r, width - n);
    } else {
        assert(r@ =~= text@);
    }
    r
}

/// `text` padded on the left to `width` characters.
pub fn padded_left(text: &str, width: usize) -> (r: String)
    ensures
        r@ == pad_left(text@, width as nat),
{
    let n: usize = to_chars(text).len();
    let mut r = String::new();
    if n < width {
        push_spaces(&mut r, width - n);
    }
    push_str(&mut r, text);
    r
}


/// The indent and field label that open a field line: two spaces, the label
/// in `style`, one space.
pub open spec fn field_start(style: Style, label: Seq<char>) -> Seq<(Style, Seq<char>)> {
    seq![(Style::Plain, "  "@), (style, label), (Style::Plain, " "@)]
}

proof fn lemma_line_push(l: Seq<Segment>, x: Segment)
    ensures
        line_view(l.push(x)) == line_view(l).push(segment_view(x)),
{
    assert(line_view(l.push(x)) =~= line_view(l).push(segment_view(x)));
}

/// Appends a segment to a line.
pub fn push_segment(l: &mut Vec<Segment>, x: Segment)
    ensures
        line_view(final(l)@) == line_view(old(l)@).push(segment_view(x)),
{
    proof { lemma_line_push(l@, x); }
    l.push(x);
}

/// Appends a line to a list of lines.
pub fn push_line(ls: &mut Vec<Vec<Segment>>, l: Vec<Segment>)
    ensures
        lines_view(final(ls)@) == lines_view(old(ls)@).push(line_view(l@)),
{
    let ghost before = ls@;
    ls.push(l);
    assert(lines_view(ls@) =~= lines_view(before).push(line_view(l@)));
}

/// A line holding one segment.
pub fn single_line(x: Segment) -> (l: Vec<Segment>)
    ensures
        line_view(l@) == seq![segment_view(x)],
{
    let mut l: Vec<Segment> = Vec::new();
    push_segment(&mut l, x);
    assert(line_view(Seq::<Segment>::empty()) =~= Seq::empty());
    l
}

/// The start of a field line.
pub fn field_line(style: Style, label: &str) -> (l: Vec<Segment>)
    ensures
        line_view(l@) == field_start(style, label@),
{
    let mut l: Vec<Segment> = Vec::new();
    assert(line_view(l@) =~= Seq::empty());
    push_segment(&mut l, styled(Style::Plain, "  "));
    push_segment(&mut l, styled(style, label));
    push_segment(&mut l, styled(Style::Plain, " "));
    assert(line_view(l@) =~= field_start(style, label@));
    l
}


// ───────────────────────────── the trust report ─────────────────────────────

/// The border of the score box.
pub const SCORE_BOX_BORDER: &'static str = "══════════════════════════════════════";

/// The plain style of a score band.
pub open spec fn band_style(c: ScoreColor) -> Style {
    match c {
        ScoreColor::Green => Style::Good,
        ScoreColor::Yellow => Style::Caution,
        ScoreColor::Red => Style::Bad,
    }
}

/// The bold style of a score band.
pub open spec fn band_bold(c: ScoreColor) -> Style {
    match c {
        ScoreColor::Green => Style::GoodBold,
        ScoreColor::Yellow => Style::CautionBold,
        ScoreColor::Red => Style::BadBold,
    }
}

/// The style of a recommendation: green for Safe and Moderate, yellow for
/// Caution, red otherwise, always bold.
pub open spec fn recommendation_look(rec: Seq<char>) -> Style {
    if rec == "Safe"@ || rec == "Moderate"@ {
        Style::GoodBold
    } else if rec == "Caution"@ {
        Style::CautionBold
    } else {
        Style::BadBold
    }
}

/// The style of a signal's points: green when it adds, red when it takes
/// away, plain at zero.
pub open spec fn points_style(points: i32) -> Style {
    if points > 0 {
        Style::Good
    } else if points < 0 {
        Style::Bad
    } else {
        Style::Plain
    }
}

/// What a missing field shows.
pub open spec fn unknown_reason() -> Seq<(Style, Seq<char>)> {
    seq![(Style::Dimmed, "Unknown"@), (Style::Plain, "  "@), (Style::Dimmed, "(Reason: Metadata unavailable)"@)]
}

/// A field that shows `Unknown` when it has no value.
pub open spec fn optional_field(label: Seq<char>, v: Option<Seq<char>>) -> Seq<(Style, Seq<char>)> {
    field_start(Style::Heading, label) + match v {
        Some(x) => seq![(Style::Plain, x)],
        None => seq![(Style::Dimmed, "Unknown"@)],
    }
}

/// A field that shows `Unknown` and the reason when it has no value.
pub open spec fn explained_field(label: Seq<char>, v: Option<Seq<char>>) -> Seq<(Style, Seq<char>)> {
    field_start(Style::Heading, label) + match v {
        Some(x) => seq![(Style::Plain, x)],
        None => unknown_reason(),
    }
}

/// The line of one signal: its name padded to 20, its points right-aligned
/// in 7, and its detail.
pub open spec fn signal_line(sig: TrustSignal) -> Seq<(Style, Seq<char>)> {
    seq![
        (Style::Plain, "    "@),
        (Style::Bold, pad_right(sig.name@, 20)),
        (Style::Plain, " "@),
        (points_style(sig.points), pad_left(points_shown(sig.points, sig.max_points), 7)),
        (Style::Plain, "  "@ + sig.detail@),
    ]
}

/// The licenses of a package as shown, when it has any.
pub open spec fn licenses_shown(licenses: Seq<String>) -> Option<Seq<char>> {
    if licenses.len() > 0 { Some(join(string_texts(licenses), ", "@)) } else { None }
}

/// The facts of a package that open a trust report.
pub open spec fn report_facts(
    pkg: PackageInfo,
    report: TrustReport,
    popularity: Option<Seq<char>>,
) -> Seq<Seq<(Style, Seq<char>)>> {
    seq![
        Seq::empty(),
        field_start(Style::Heading, "Package:"@) + seq![(Style::Bold, report.package_name@)],
        field_start(Style::Heading, "Version:"@) + seq![(Style::Plain, pkg.version@)],
        field_start(Style::Heading, "Repository:"@) + seq![(Style::Plain, source_label(pkg.source))],
        field_start(Style::Heading, "Trust Tier:"@) + seq![(Style::Plain, tier_label(report.tier))],
        optional_field("Maintainer:"@, opt_string(pkg.maintainer)),
        optional_field("URL:"@, opt_string(pkg.url)),
        explained_field("Popularity:"@, popularity),
        explained_field("Installed Size:"@, opt_string(pkg.install_size)),
        explained_field("Licenses:"@, licenses_shown(pkg.licenses@)),
    ]
}

/// The score box of a trust report and the heading of its signals.
pub open spec fn score_box_view(report: TrustReport) -> Seq<Seq<(Style, Seq<char>)>> {
    let band = score_band(report.score);
    seq![
        Seq::empty(),
        seq![(Style::Plain, "  "@), (band_style(band), SCORE_BOX_BORDER@)],
        seq![
            (Style::Plain, "  "@),
            (band_bold(band), "Trust Score:"@),
            (Style::Plain, " "@),
            (band_bold(band), decimal(report.score as nat) + "/100"@),
        ],
        seq![
            (Style::Plain, "  "@),
            (band_bold(band), "Recommendation:"@),
            (Style::Plain, " "@),
            (recommendation_look(report.recommendation@), unicode_uppercase(report.recommendation@)),
        ],
        seq![(Style::Plain, "  "@), (band_style(band), SCORE_BOX_BORDER@)],
        Seq::empty(),
        seq![(Style::Plain, "  "@), (Style::Heading, "Signals"@)],
    ]
}

/// The lines of a trust report on screen: the package's facts, the score box
/// and the signals. `popularity` is the popularity as the caller formats it.
pub open spec fn trust_report_view(
    pkg: PackageInfo,
    report: TrustReport,
    popularity: Option<Seq<char>>,
) -> Seq<Seq<(Style, Seq<char>)>> {
    let facts = report_facts(pkg, report, popularity);
    let depends: Seq<Seq<(Style, Seq<char>)>> = if pkg.depends@.len() > 0 {
        seq![field_start(Style::Heading, "Dependencies:"@)
            + seq![(Style::Plain, summary(string_texts(pkg.depends@), 8))]]
    } else {
        Seq::empty()
    };
    let description: Seq<Seq<(Style, Seq<char>)>> = if pkg.description@.len() > 0 {
        seq![field_start(Style::Heading, "Description:"@) + seq![(Style::Plain, pkg.description@)]]
    } else {
        Seq::empty()
    };
    let score_box = score_box_view(report);
    let signals = Seq::new(report.signals@.len(), |i: int| signal_line(report.signals@[i]));
    facts + depends + description + score_box + signals + seq![Seq::empty()]
}

/// An empty line.
pub fn empty_line() -> (l: Vec<Segment>)
    ensures
        line_view(l@) == Seq::<(Style, Seq<char>)>::empty(),
{
    let l: Vec<Segment> = Vec::new();
    assert(line_view(l@) =~= Seq::empty());
    l
}

/// A field line ending in one plain value.
fn value_line(label: &str, value: &str) -> (l: Vec<Segment>)
    ensures
        line_view(l@) == field_start(Style::Heading, label@) + seq![(Style::Plain, value@)],
{
    let mut l = field_line(Style::Heading, label);
    push_segment(&mut l, styled(Style::Plain, value));
    assert(line_view(l@) =~= field_start(Style::Heading, label@) + seq![(Style::Plain, value@)]);
    l
}

/// A field line that shows `Unknown` when there is no value.
fn optional_field_line(label: &str, value: &Option<String>) -> (l: Vec<Segment>)
    ensures
        line_view(l@) == optional_field(label@, opt_string(*value)),
{
    let mut l = field_line(Style::Heading, label);
    match value {
        Some(v) => push_segment(&mut l, styled(Style::Plain, v.as_str())),
        None => push_segment(&mut l, styled(Style::Dimmed, "Unknown")),
    }
    assert(line_view(l@) =~= optional_field(label@, opt_string(*value)));
    l
}

/// A field line that shows `Unknown` and the reason when there is no value.
fn explained_field_line(label: &str, value: &Option<String>) -> (l: Vec<Segment>)
    ensures
        line_view(l@) == explained_field(label@, opt_string(*value)),
{
    let mut l = field_line(Style::Heading, label);
    match value {
        Some(v) => push_segment(&mut l, styled(Style::Plain, v.as_str())),
        None => {
            push_segment(&mut l, styled(Style::Dimmed, "Unknown"));
            push_segment(&mut l, styled(Style::Plain, "  "));
            push_segment(&mut l, styled(Style::Dimmed, "(Reason: Metadata unavailable)"));
        },
    }
    assert(line_view(l@) =~= explained_field(label@, opt_string(*value)));
    l
}

/// A heading line: two spaces and the heading.
pub fn heading_line(text: &str) -> (l: Vec<Segment>)
    ensures
        line_view(l@) == seq![(Style::Plain, "  "@), (Style::Heading, text@)],
{
    let mut l = single_line(styled(Style::Plain, "  "));
    push_segment(&mut l, styled(Style::Heading, text));
    assert(line_view(l@) =~= seq![(Style::Plain, "  "@), (Style::Heading, text@)]);
    l
}

/// The plain style of a score band.
fn band_color(c: ScoreColor) -> (r: Style)
    ensures
        r == band_style(c),
{
    match c {
        ScoreColor::Green => Style::Good,
        ScoreColor::Yellow => Style::Caution,
        ScoreColor::Red => Style::Bad,
    }
}

/// The bold style of a score band.
fn band_bold_color(c: ScoreColor) -> (r: Style)
    ensures
        r == band_bold(c),
{
    match c {
        ScoreColor::Green => Style::GoodBold,
        ScoreColor::Yellow => Style::CautionBold,
        ScoreColor::Red => Style::BadBold,
    }
}

/// The line of one signal.
fn signal_row(sig: &TrustSignal) -> (l: Vec<Segment>)
    ensures
        line_view(l@) == signal_line(*sig),
{
    let mut l: Vec<Segment> = Vec::new();
    assert(line_view(l@) =~= Seq::empty());
    push_segment(&mut l, styled(Style::Plain, "    "));
    push_segment(&mut l, styled_string(Style::Bold, padded_right(sig.name.as_str(), 20)));
    push_segment(&mut l, styled(Style::Plain, " "));
    let points = points_text(sig.points, sig.max_points);
    let style = if sig.points > 0 { Style::Good } else if sig.points < 0 { Style::Bad } else { Style::Plain };
    push_segment(&mut l, styled_string(style, padded_left(points.as_str(), 7)));
    let mut detail = owned("  ");
    push_str(&mut detail, sig.detail.as_str());
    push_segment(&mut l, styled_string(Style::Plain, detail));
    assert(line_view(l@) =~= signal_line(*sig));
    l
}

/// The lines of a trust report for the terminal, each a list of styled
/// pieces; the caller colors the pieces and prints each line. `popularity`
/// is the package's popularity as the caller formats it, when known.
pub fn trust_report_lines(
    pkg: &PackageInfo,
    report: &TrustReport,
    popularity: &Option<String>,
) -> (r: Vec<Vec<Segment>>)
    ensures
        lines_view(r@) == trust_report_view(*pkg, *report, opt_string(*popularity)),
{
    let ghost whole = trust_report_view(*pkg, *report, opt_string(*popularity));
    let ghost facts = report_facts(*pkg, *report, opt_string(*popularity));
    let mut out: Vec<Vec<Segment>> = Vec::new();
    assert(lines_view(out@) =~= Seq::empty());
    let l0 = empty_line();
    assert(line_view(l0@) == facts[0]);
    push_line(&mut out, l0);
    let mut l1 = field_line(Style::Heading, "Package:");
    push_segment(&mut l1, styled(Style::Bold, report.package_name.as_str()));
    assert(line_view(l1@) =~= facts[1]);
    push_line(&mut out, l1);
    let l2 = value_line("Version:", pkg.version.as_str());
    assert(line_view(l2@) == facts[2]);
    push_line(&mut out, l2);
    let source = pkg.source.label();
    let l3 = value_line("Repository:", source.as_str());
    assert(line_view(l3@) == facts[3]);
    push_line(&mut out, l3);
    let l4 = value_line("Trust Tier:", report.tier.label());
    assert(line_view(l4@) == facts[4]);
    push_line(&mut out, l4);
    let l5 = optional_field_line("Maintainer:", &pkg.maintainer);
    assert(line_view(l5@) == facts[5]);
    push_line(&mut out, l5);
    let l6 = optional_field_line("URL:", &pkg.url);
    assert(line_view(l6@) == facts[6]);
    push_line(&mut out, l6);
    let l7 = explained_field_line("Popularity:", popularity);
    assert(line_view(l7@) == facts[7]);
    push_line(&mut out, l7);
    let l8 = explained_field_line("Installed Size:", &pkg.install_size);
    assert(line_view(l8@) == facts[8]);
    push_line(&mut out, l8);
    let licenses: Option<String> = if pkg.licenses.len() > 0 {
        Some(join_strings(&pkg.licenses, ", "))
    } else {
        None
    };
    let l9 = explained_field_line("Licenses:", &licenses);
    assert(line_view(l9@) == facts[9]);
    push_line(&mut out, l9);
    assert(lines_view(out@) =~= facts);
    let ghost at: int = 10;
    if pkg.depends.len() > 0 {
        push_line(&mut out, value_line("Dependencies:", summarize_list(&pkg.depends, 8).as_str()));
        proof { at = at + 1; }
    }
    if !pkg.description.as_str().is_empty() {
        push_line(&mut out, value_line("Description:", pkg.description.as_str()));
        proof { at = at + 1; }
    }
    assert(lines_view(out@) =~= whole.subrange(0, at));

    let ghost boxed = score_box_view(*report);
    let ghost before = lines_view(out@);
    let band = score_tier_color(report.score);
    let plain = band_color(band);
    let bold = band_bold_color(band);
    let b0 = empty_line();
    assert(line_view(b0@) == boxed[0]);
    push_line(&mut out, b0);
    let mut b1 = single_line(styled(Style::Plain, "  "));
    push_segment(&mut b1, styled(plain, SCORE_BOX_BORDER));
    assert(line_view(b1@) =~= boxed[1]);
    push_line(&mut out, b1);
    let mut b2 = single_line(styled(Style::Plain, "  "));
    push_segment(&mut b2, styled(bold, "Trust Score:"));
    push_segment(&mut b2, styled(Style::Plain, " "));
    push_segment(&mut b2, styled_string(bold, score_text(report.score)));
    assert(line_view(b2@) =~= boxed[2]);
    push_line(&mut out, b2);
    let mut b3 = single_line(styled(Style::Plain, "  "));
    push_segment(&mut b3, styled(bold, "Recommendation:"));
    push_segment(&mut b3, styled(Style::Plain, " "));
    let look = match recommendation_style(report.recommendation.as_str()) {
        RecommendationStyle::Good => Style::GoodBold,
        RecommendationStyle::Caution => Style::CautionBold,
        RecommendationStyle::Bad => Style::BadBold,
    };
    push_segment(&mut b3, styled_string(look, to_uppercase(report.recommendation.as_str())));
    assert(line_view(b3@) =~= boxed[3]);
    push_line(&mut out, b3);
    let mut b4 = single_line(styled(Style::Plain, "  "));
    push_segment(&mut b4, styled(plain, SCORE_BOX_BORDER));
    assert(line_view(b4@) =~= boxed[4]);
    push_line(&mut out, b4);
    let b5 = empty_line();
    assert(line_view(b5@) == boxed[5]);
    push_line(&mut out, b5);
    let mut b6 = single_line(styled(Style::Plain, "  "));
    push_segment(&mut b6, styled(Style::Heading, "Signals"));
    assert(line_view(b6@) =~= boxed[6]);
    push_line(&mut out, b6);
    assert(lines_view(out@) =~= before + boxed);

    let ghost base = lines_view(out@);
    let mut i: usize = 0;
    while i < report.signals.len()
        invariant
            i <= report.signals@.len(),
            lines_view(out@) == base + Seq::new(i as nat, |k: int| signal_line(report.signals@[k])),
        decreases report.signals@.len() - i,
    {
        push_line(&mut out, signal_row(&report.signals[i]));
        i += 1;
        assert(lines_view(out@) =~= base + Seq::new(i as nat, |k: int| signal_line(report.signals@[k])));
    }
    push_line(&mut out, empty_line());
    assert(lines_view(out@) =~= whole);
    out
}

// ───────────────────────────── lists ─────────────────────────────

/// One plain line per item: `prefix` and the item.
pub open spec fn prefixed_view(items: Seq<String>, prefix: Seq<char>) -> Seq<Seq<(Style, Seq<char>)>> {
    Seq::new(items.len(), |i: int| seq![(Style::Plain, prefix + items[i]@)])
}

/// Appends one plain line per item: `prefix` and the item.
pub fn push_prefixed(out: &mut Vec<Vec<Segment>>, items: &Vec<String>, prefix: &str)
    ensures
        lines_view(final(out)@) == lines_view(old(out)@) + prefixed_view(items@, prefix@),
{
    let ghost start = lines_view(out@);
    let mut i: usize = 0;
    while i < items.len()
        invariant
            i <= items@.len(),
            lines_view(out@) == start + prefixed_view(items@.subrange(0, i as int), prefix@),
        decreases items@.len() - i,
    {
        let mut t = owned(prefix);
        push_str(&mut t, items[i].as_str());
        let line = single_line(styled_string(Style::Plain, t));
        push_line(out, line);
        i += 1;
        assert(lines_view(out@) =~= start + prefixed_view(items@.subrange(0, i as int), prefix@));
    }
    assert(items@.subrange(0, items@.len() as int) =~= items@);
}

// ───────────────────────────── search results ─────────────────────────────

/// The badge of a source in the search results.
pub open spec fn source_badge(s: PackageSource) -> (Style, Seq<char>) {
    match s {
        PackageSource::Official { repo } => (Style::Good, "official/"@ + repo@),
        PackageSource::Aur => (Style::Caution, "aur"@),
        PackageSource::ThirdParty => (Style::Accent, "third-party"@),
        PackageSource::Unknown => (Style::Plain, "unknown"@),
    }
}

/// The row of one search result: name, version, source and description in
/// columns of 32, 14 and 16 characters.
pub open spec fn result_row(p: PackageInfo) -> Seq<(Style, Seq<char>)> {
    seq![
        (Style::Bold, pad_right(p.name@, 32)),
        (Style::Plain, " "@ + pad_right(truncated(p.version@, 14), 14) + " "@),
        (source_badge(p.source).0, pad_right(source_badge(p.source).1, 16)),
        (Style::Plain, " "@ + truncated(p.description@, 80)),
    ]
}

/// The heading row of the search results.
pub open spec fn results_heading() -> Seq<(Style, Seq<char>)> {
    seq![
        (Style::Heading, pad_right("Package"@, 32)),
        (Style::Plain, " "@),
        (Style::Heading, pad_right("Version"@, 14)),
        (Style::Plain, " "@),
        (Style::Heading, pad_right("Source"@, 16)),
        (Style::Plain, " "@),
        (Style::Heading, "Description"@),
    ]
}

/// The search results on screen: a heading, one row per shown result and,
/// when some are left out, a note saying how many there are.
pub open spec fn results_view(results: Seq<PackageInfo>, show_all: bool) -> Seq<Seq<(Style, Seq<char>)>> {
    if results.len() == 0 {
        seq![seq![(Style::Dimmed, "No packages found."@)]]
    } else {
        let shown: nat = if show_all || results.len() < DEFAULT_MAX_RESULTS {
            results.len()
        } else {
            DEFAULT_MAX_RESULTS as nat
        };
        let note: Seq<Seq<(Style, Seq<char>)>> = if !show_all && results.len() > DEFAULT_MAX_RESULTS {
            seq![seq![(Style::Dimmed, "\nShowing "@ + decimal(DEFAULT_MAX_RESULTS as nat) + " of "@
                + decimal(results.len()) + " results. Use --all to view everything."@)]]
        } else {
            Seq::empty()
        };
        seq![results_heading()] + Seq::new(shown, |i: int| result_row(results[i])) + note
    }
}

/// The badge of a source.
fn badge(s: &PackageSource) -> (r: Segment)
    ensures
        segment_view(r) == (source_badge(*s).0, pad_right(source_badge(*s).1, 16)),
{
    match s {
        PackageSource::Official { repo } => {
            let mut t = owned("official/");
            push_str(&mut t, repo.as_str());
            styled_string(Style::Good, padded_right(t.as_str(), 16))
        },
        PackageSource::Aur => styled_string(Style::Caution, padded_right("aur", 16)),
        PackageSource::ThirdParty => styled_string(Style::Accent, padded_right("third-party", 16)),
        PackageSource::Unknown => styled_string(Style::Plain, padded_right("unknown", 16)),
    }
}

/// The row of one search result.
fn result_line(p: &PackageInfo) -> (l: Vec<Segment>)
    ensures
        line_view(l@) == result_row(*p),
{
    let mut l = single_line(styled_string(Style::Bold, padded_right(p.name.as_str(), 32)));
    let version = truncate(p.version.as_str(), 14);
    let mut middle = owned(" ");
    push_str(&mut middle, padded_right(version.as_str(), 14).as_str());
    push_str(&mut middle, " ");
    push_segment(&mut l, styled_string(Style::Plain, middle));
    push_segment(&mut l, badge(&p.source));
    let mut last = owned(" ");
    push_str(&mut last, truncate(p.description.as_str(), 80).as_str());
    push_segment(&mut l, styled_string(Style::Plain, last));
    assert(line_view(l@) =~= result_row(*p));
    l
}

/// The search results for the terminal, each line a list of styled pieces;
/// the caller colors the pieces and prints each line.
pub fn search_lines(results: &Vec<PackageInfo>, show_all: bool) -> (r: Vec<Vec<Segment>>)
    ensures
        lines_view(r@) == results_view(results@, show_all),
{
    let mut out: Vec<Vec<Segment>> = Vec::new();
    assert(lines_view(out@) =~= Seq::empty());
    if results.len() == 0 {
        push_line(&mut out, single_line(styled(Style::Dimmed, "No packages found.")));
        assert(lines_view(out@) =~= results_view(results@, show_all));
        return out;
    }
    let mut heading = single_line(styled_string(Style::Heading, padded_right("Package", 32)));
    push_segment(&mut heading, styled(Style::Plain, " "));
    push_segment(&mut heading, styled_string(Style::Heading, padded_right("Version", 14)));
    push_segment(&mut heading, styled(Style::Plain, " "));
    push_segment(&mut heading, styled_string(Style::Heading, padded_right("Source", 16)));
    push_segment(&mut heading, styled(Style::Plain, " "));
    push_segment(&mut heading, styled(Style::Heading, "Description"));
    assert(line_view(heading@) =~= results_heading());
    push_line(&mut out, heading);
    let ghost first = lines_view(out@);
    let shown = result_limit(show_all, results.len());
    let mut i: usize = 0;
    while i < shown
        invariant
            shown <= results@.len(),
            i <= shown,
            lines_view(out@) == first + Seq::new(i as nat, |k: int| result_row(results@[k])),
        decreases shown - i,
    {
        push_line(&mut out, result_line(&results[i]));
        i += 1;
        assert(lines_view(out@) =~= first + Seq::new(i as nat, |k: int| result_row(results@[k])));
    }
    if !show_all && results.len() > DEFAULT_MAX_RESULTS {
        let mut note = owned("\nShowing ");
        push_decimal_u64(&mut note, DEFAULT_MAX_RESULTS as u64);
        push_str(&mut note, " of ");
        push_decimal_u64(&mut note, results.len() as u64);
        push_str(&mut note, " results. Use --all to view everything.");
        push_line(&mut out, single_line(styled_string(Style::Dimmed, note)));
    }
    assert(lines_view(out@) =~= results_view(results@, show_all));
    out
}

// ───────────────────────────── advisories ─────────────────────────────

/// The style of an advisory's severity: red and bold when critical, red when
/// high, yellow when medium, plain otherwise.
pub open spec fn severity_style(severity: Seq<char>) -> Style {
    if severity == "critical"@ {
        Style::BadBold
    } else if severity == "high"@ {
        Style::Bad
    } else if severity == "medium"@ {
        Style::Caution
    } else {
        Style::Plain
    }
}

/// The style of an advisory's severity.
pub fn severity_color(severity: &str) -> (r: Style)
    ensures
        r == severity_style(severity@),
{
    if str_eq(severity, "critical") {
        Style::BadBold
    } else if str_eq(severity, "high") {
        Style::Bad
    } else if str_eq(severity, "medium") {
        Style::Caution
    } else {
        Style::Plain
    }
}
} // verus!
