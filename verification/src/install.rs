//! What an installation shows and submits: the trust report shown before
//! it, and what it submits to the trust database under the user's consent.

use vstd::prelude::*;
use crate::compare::PreFlightReport;
use crate::config::ConsentLevel;
use crate::sanitize::{anomaly_models, anomaly_signal, anomaly_signal_model, penalties_fit, Anomaly};
use crate::text::{owned, push_str, string_texts};
use crate::trust::diff::diff_signals;
use crate::trust::{
    clamp_score, diff_to_signals, make_signal, points_total, recommendation_for, rescore,
    signal_model, signal_models, sums_fit, PkgbuildDiff, SignalModel, TrustReport, TrustSignal,
};

verus! {

/// What a snapshot requested by a pre-flight check carries: nothing is
/// queued without consent (`None`); with consent to submit hashes only the
/// snapshot has no PKGBUILD (`Some(false)`); with full consent it carries the
/// sanitized PKGBUILD (`Some(true)`).
pub fn submission_content(consent: ConsentLevel) -> (r: Option<bool>)
    ensures
        r == match consent {
            ConsentLevel::NoSubmission => None::<bool>,
            ConsentLevel::Hash => Some(false),
            ConsentLevel::Full => Some(true),
        },
{
    match consent {
        ConsentLevel::NoSubmission => None,
        ConsentLevel::Hash => Some(false),
        ConsentLevel::Full => Some(true),
    }
}

/// Whether a hash-only snapshot is queued when no PKGBUILD could be fetched:
/// with any consent to submit.
pub fn queues_without_pkgbuild(consent: ConsentLevel) -> (b: bool)
    ensures
        b == (consent != ConsentLevel::NoSubmission),
{
    match consent {
        ConsentLevel::NoSubmission => false,
        _ => true,
    }
}

/// The contribution prompt for a package the trust database does not know:
/// `None` when it is not shown (full consent already queues a snapshot),
/// otherwise whether its answer defaults to yes.
pub fn contribution_prompt_default(consent: ConsentLevel) -> (r: Option<bool>)
    ensures
        r == match consent {
            ConsentLevel::Full => None::<bool>,
            _ => Some(true),
        },
{
    match consent {
        ConsentLevel::Full => None,
        ConsentLevel::NoSubmission => Some(true),
        ConsentLevel::Hash => Some(true),
    }
}

/// Whether an agreed contribution carries the sanitized PKGBUILD: only under
/// consent to submit hashes (without consent the user agrees to this package
/// alone, hash only).
pub fn contribution_includes_text(consent: ConsentLevel) -> (b: bool)
    ensures
        b == (consent == ConsentLevel::Hash),
{
    match consent {
        ConsentLevel::Hash => true,
        _ => false,
    }
}

/// The text hashed for a package without a PKGBUILD: `name-version`.
pub fn fallback_hash_input(name: &str, version: &str) -> (r: String)
    ensures
        r@ == name@ + "-"@ + version@,
{
    let mut r = owned(name);
    push_str(&mut r, "-");
    push_str(&mut r, version);
    r
}


// ───────────────────────────── the report before an installation ─────────────────────────────

/// The signals an installation adds to a package's trust report, in order:
/// the anomalies found in its PKGBUILD, when there are any; the trust
/// database's adjustment, when it is not zero; and the signals of the
/// PKGBUILD's change since the installed version, when it shows suspicious
/// patterns.
pub open spec fn install_extras(
    preflight: Option<PreFlightReport>,
    anomalies: Seq<Anomaly>,
    diff: Option<PkgbuildDiff>,
) -> Seq<SignalModel> {
    let found: Seq<SignalModel> = if anomalies.len() > 0 {
        seq![anomaly_signal_model(anomaly_models(anomalies))]
    } else {
        Seq::empty()
    };
    let db: Seq<SignalModel> = match preflight {
        Some(p) => if p.score_adjustment != 0 {
            seq![("Trust DB"@, p.score_adjustment as int, 0int, p.explanation@)]
        } else {
            Seq::empty()
        },
        None => Seq::empty(),
    };
    let changed: Seq<SignalModel> = match diff {
        Some(d) => if d.suspicious_patterns@.len() > 0 {
            diff_signals(string_texts(d.suspicious_patterns@))
        } else {
            Seq::empty()
        },
        None => Seq::empty(),
    };
    found + db + changed
}

proof fn lemma_models_push(v: Seq<TrustSignal>, x: TrustSignal)
    ensures
        signal_models(v.push(x)) == signal_models(v).push(signal_model(x)),
{
    assert(signal_models(v.push(x)) =~= signal_models(v).push(signal_model(x)));
}

/// The signals an installation adds to a package's trust report (see
/// `install_extras`). `anomalies` are those of the fetched PKGBUILD (none
/// when it could not be fetched), `preflight` the pre-flight check of that
/// PKGBUILD, and `diff` its change since the installed version.
pub fn install_signals(
    preflight: &Option<PreFlightReport>,
    anomalies: &Vec<Anomaly>,
    diff: &Option<PkgbuildDiff>,
) -> (r: Vec<TrustSignal>)
    requires
        penalties_fit(anomaly_models(anomalies@)),
        diff matches Some(d) ==> d.suspicious_patterns@.len() <= 214748364,
    ensures
        signal_models(r@) == install_extras(*preflight, anomalies@, *diff),
{
    let mut extra: Vec<TrustSignal> = Vec::new();
    assert(signal_models(extra@) =~= Seq::empty());
    if anomalies.len() > 0 {
        let s = anomaly_signal(anomalies);
        proof { lemma_models_push(extra@, s); }
        extra.push(s);
    }
    match preflight {
        Some(p) => {
            if p.score_adjustment != 0 {
                let s = make_signal("Trust DB", p.score_adjustment, 0, p.explanation.clone());
                proof { lemma_models_push(extra@, s); }
                extra.push(s);
            }
        },
        None => {},
    }
    match diff {
        Some(d) => {
            if d.suspicious_patterns.len() > 0 {
                let mut more = diff_to_signals(d);
                let ghost before = extra@;
                let ghost added = more@;
                extra.append(&mut more);
                assert(signal_models(extra@) =~= signal_models(before) + signal_models(added));
            }
        },
        None => {},
    }
    assert(signal_models(extra@) =~= install_extras(*preflight, anomalies@, *diff));
    extra
}

/// The trust report shown before an installation: the package's report with
/// `extra` added and the report rescored; unchanged when `extra` is empty.
pub fn assess_install(report: TrustReport, extra: Vec<TrustSignal>) -> (r: TrustReport)
    requires
        sums_fit(signal_models(report.signals@) + signal_models(extra@)),
    ensures
        r.package_name == report.package_name,
        r.tier == report.tier,
        extra@.len() == 0 ==> {
            &&& signal_models(r.signals@) == signal_models(report.signals@)
            &&& r.score == report.score
            &&& r.recommendation@ == report.recommendation@
        },
        extra@.len() > 0 ==> {
            &&& signal_models(r.signals@) == signal_models(report.signals@) + signal_models(extra@)
            &&& r.score == clamp_score(points_total(signal_models(r.signals@)))
            &&& r.recommendation@ == recommendation_for(r.score as int)
        },
{
    if extra.len() == 0 {
        return report;
    }
    let mut r = report;
    rescore(&mut r, extra);
    r
}

} // verus!
