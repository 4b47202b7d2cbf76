//! The candidate selector: given every candidate text found for one
//! package/license pair, applies the fixed precedence policy over
//! confidence tiers to pick exactly one candidate (or none), emits
//! diagnostics, and reports the two quality-failure signals that the
//! driver accumulates across a whole run.
use vstd::prelude::*;

use crate::discovery::{LicenseText, TextModel, opt_text_view, text_views};
use crate::scoring::Confidence;

verus! {

/// How serious a diagnostic is: warnings report a best-effort pick,
/// errors an ambiguity or an absence.
#[derive(Debug, Clone, Copy, PartialEq, Eq, Structural)]
pub enum Severity {
    Warning,
    Error,
}

/// A structured diagnostic from the selector; the caller renders it
/// together with the package and license it concerns.
#[derive(Debug, PartialEq, Eq)]
pub enum Diagnostic {
    /// Several high-confidence candidates were found; the first was
    /// picked.
    MultipleCandidates(Vec<String>),
    /// Only one candidate, of middling confidence.
    LowConfidenceCandidate(String),
    /// Several candidates, none better than middling confidence; the
    /// first was picked.
    MultipleLowConfidence(Vec<String>),
    /// Only one candidate, and a poor match at that.
    VeryLowConfidenceCandidate(String),
    /// Several candidates, all poor matches; the first was picked.
    MultipleVeryLowConfidence(Vec<String>),
    /// No candidate text was found at all.
    NoCandidates,
    /// The package declares no license at all.
    NoLicenseSpecified,
    /// The only generic license file found matches the declared
    /// license very poorly.
    PoorGenericCandidate(String),
}

/// Mathematical model of a diagnostic.
pub enum DiagModel {
    MultipleCandidates(Seq<Seq<char>>),
    LowConfidenceCandidate(Seq<char>),
    MultipleLowConfidence(Seq<Seq<char>>),
    VeryLowConfidenceCandidate(Seq<char>),
    MultipleVeryLowConfidence(Seq<Seq<char>>),
    NoCandidates,
    NoLicenseSpecified,
    PoorGenericCandidate(Seq<char>),
}

pub open spec fn str_views(s: Seq<String>) -> Seq<Seq<char>> {
    s.map_values(|x: String| x@)
}

impl View for Diagnostic {
    type V = DiagModel;

    open spec fn view(&self) -> DiagModel {
        match self {
            Diagnostic::MultipleCandidates(v) => DiagModel::MultipleCandidates(str_views(v@)),
            Diagnostic::LowConfidenceCandidate(p) => DiagModel::LowConfidenceCandidate(p@),
            Diagnostic::MultipleLowConfidence(v) => DiagModel::MultipleLowConfidence(str_views(v@)),
            Diagnostic::VeryLowConfidenceCandidate(p) => DiagModel::VeryLowConfidenceCandidate(p@),
            Diagnostic::MultipleVeryLowConfidence(v) => DiagModel::MultipleVeryLowConfidence(
                str_views(v@),
            ),
            Diagnostic::NoCandidates => DiagModel::NoCandidates,
            Diagnostic::NoLicenseSpecified => DiagModel::NoLicenseSpecified,
            Diagnostic::PoorGenericCandidate(p) => DiagModel::PoorGenericCandidate(p@),
        }
    }
}

pub open spec fn diag_views(s: Seq<Diagnostic>) -> Seq<DiagModel> {
    s.map_values(|d: Diagnostic| d@)
}

/// The severity of each diagnostic: a lone best-effort pick is a
/// warning; ambiguity or absence is an error.
pub open spec fn spec_severity(d: DiagModel) -> Severity {
    match d {
        DiagModel::MultipleCandidates(_) => Severity::Error,
        DiagModel::LowConfidenceCandidate(_) => Severity::Warning,
        DiagModel::MultipleLowConfidence(_) => Severity::Error,
        DiagModel::VeryLowConfidenceCandidate(_) => Severity::Warning,
        DiagModel::MultipleVeryLowConfidence(_) => Severity::Error,
        DiagModel::NoCandidates => Severity::Error,
        DiagModel::NoLicenseSpecified => Severity::Error,
        DiagModel::PoorGenericCandidate(_) => Severity::Error,
    }
}

impl Diagnostic {
    pub fn severity(&self) -> (s: Severity)
        ensures
            s == spec_severity(self@),
    {
        match self {
            Diagnostic::MultipleCandidates(_) => Severity::Error,
            Diagnostic::LowConfidenceCandidate(_) => Severity::Warning,
            Diagnostic::MultipleLowConfidence(_) => Severity::Error,
            Diagnostic::VeryLowConfidenceCandidate(_) => Severity::Warning,
            Diagnostic::MultipleVeryLowConfidence(_) => Severity::Error,
            Diagnostic::NoCandidates => Severity::Error,
            Diagnostic::NoLicenseSpecified => Severity::Error,
            Diagnostic::PoorGenericCandidate(_) => Severity::Error,
        }
    }
}

/// What the selector returns for one package/license pair: the pick,
/// the diagnostics, and the two quality-failure signals the driver
/// folds over the whole run.
pub struct Selection {
    pub selected: Option<LicenseText>,
    pub diagnostics: Vec<Diagnostic>,
    pub missing_license: bool,
    pub low_quality_license: bool,
}

/// The candidates of one confidence tier, in their original order.
pub open spec fn with_confidence(ts: Seq<TextModel>, c: Confidence) -> Seq<TextModel> {
    ts.filter(|t: TextModel| t.confidence == c)
}

pub open spec fn paths_of(ts: Seq<TextModel>) -> Seq<Seq<char>> {
    ts.map_values(|t: TextModel| t.path)
}

/// The selected candidate: the first of the best non-empty tier.
pub open spec fn spec_selected(ts: Seq<TextModel>) -> Option<TextModel> {
    let c = with_confidence(ts, Confidence::Confident);
    let s = with_confidence(ts, Confidence::SemiConfident);
    let u = with_confidence(ts, Confidence::Unsure);
    if c.len() >= 1 {
        Some(c[0])
    } else if s.len() >= 1 {
        Some(s[0])
    } else if u.len() >= 1 {
        Some(u[0])
    } else {
        None
    }
}

/// The missing-license signal: no candidate was found at all.
pub open spec fn spec_missing(ts: Seq<TextModel>) -> bool {
    &&& with_confidence(ts, Confidence::Confident).len() == 0
    &&& with_confidence(ts, Confidence::SemiConfident).len() == 0
    &&& with_confidence(ts, Confidence::Unsure).len() == 0
}

/// The low-quality signal: the pick had to come from the lower
/// tiers and was ambiguous, or was a poor match. Ambiguity among
/// high-confidence candidates is reported but not counted as a
/// quality defect, and a lone middling candidate is accepted with
/// only a warning.
pub open spec fn spec_low_quality(ts: Seq<TextModel>) -> bool {
    let c = with_confidence(ts, Confidence::Confident);
    let s = with_confidence(ts, Confidence::SemiConfident);
    let u = with_confidence(ts, Confidence::Unsure);
    if c.len() >= 1 {
        false
    } else if s.len() == 1 {
        false
    } else if s.len() > 1 {
        true
    } else {
        u.len() >= 1
    }
}

/// The diagnostics for the pick, by the same precedence.
pub open spec fn spec_diags(ts: Seq<TextModel>) -> Seq<DiagModel> {
    let c = with_confidence(ts, Confidence::Confident);
    let s = with_confidence(ts, Confidence::SemiConfident);
    let u = with_confidence(ts, Confidence::Unsure);
    if c.len() == 1 {
        Seq::empty()
    } else if c.len() > 1 {
        seq![DiagModel::MultipleCandidates(paths_of(c))]
    } else if s.len() == 1 {
        seq![DiagModel::LowConfidenceCandidate(s[0].path)]
    } else if s.len() > 1 {
        seq![DiagModel::MultipleLowConfidence(paths_of(s))]
    } else if u.len() == 1 {
        seq![DiagModel::VeryLowConfidenceCandidate(u[0].path)]
    } else if u.len() > 1 {
        seq![DiagModel::MultipleVeryLowConfidence(paths_of(u))]
    } else {
        seq![DiagModel::NoCandidates]
    }
}

/// The paths of a list of candidates, for a diagnostic.
#[verifier::loop_isolation(false)]
fn collect_paths(ts: &Vec<LicenseText>) -> (r: Vec<String>)
    ensures
        str_views(r@) == paths_of(text_views(ts@)),
{
    let mut r: Vec<String> = Vec::new();
    let mut i: usize = 0;
    while i < ts.len()
        invariant
            i <= ts@.len(),
            str_views(r@) =~= paths_of(text_views(ts@)).take(i as int),
        decreases ts@.len() - i,
    {
        r.push(ts[i].path.clone());
        proof {
            assert(str_views(r@) =~= paths_of(text_views(ts@)).take(i as int + 1));
        }
        i += 1;
    }
    proof {
        assert(paths_of(text_views(ts@)).take(ts@.len() as int) =~= paths_of(text_views(ts@)));
    }
    r
}

/// Picks exactly one candidate (or none) for a package/license pair,
/// by the fixed precedence over confidence tiers: a lone
/// high-confidence candidate silently; an ambiguous set with an
/// error naming every path, taking the first; lower tiers with a
/// warning or an error and the low-quality signal; and the
/// missing-license signal when there is no candidate at all.
#[verifier::loop_isolation(false)]
pub fn select(texts: Vec<LicenseText>) -> (r: Selection)
    ensures
        opt_text_view(r.selected) == spec_selected(text_views(texts@)),
        diag_views(r.diagnostics@) == spec_diags(text_views(texts@)),
        r.missing_license == spec_missing(text_views(texts@)),
        r.low_quality_license == spec_low_quality(text_views(texts@)),
{
    let ghost tv = text_views(texts@);
    let mut confident: Vec<LicenseText> = Vec::new();
    let mut semi: Vec<LicenseText> = Vec::new();
    let mut unsure: Vec<LicenseText> = Vec::new();
    let mut rest = texts;
    proof {
        reveal(Seq::filter);
        assert(tv.take(0) =~= Seq::<TextModel>::empty());
        assert(Seq::<TextModel>::empty().filter(|t: TextModel| t.confidence
            == Confidence::Confident) =~= Seq::<TextModel>::empty());
        assert(Seq::<TextModel>::empty().filter(|t: TextModel| t.confidence
            == Confidence::SemiConfident) =~= Seq::<TextModel>::empty());
        assert(Seq::<TextModel>::empty().filter(|t: TextModel| t.confidence
            == Confidence::Unsure) =~= Seq::<TextModel>::empty());
    }
    let ghost mut k: int = 0;
    while rest.len() > 0
        invariant
            0 <= k <= tv.len(),
            rest@.len() == tv.len() - k,
            forall|m: int| 0 <= m < rest@.len() ==> #[trigger] rest@[m]@ == tv[k + m],
            text_views(confident@) == with_confidence(tv.take(k), Confidence::Confident),
            text_views(semi@) == with_confidence(tv.take(k), Confidence::SemiConfident),
            text_views(unsure@) == with_confidence(tv.take(k), Confidence::Unsure),
        decreases rest@.len(),
    {
        let t = rest.remove(0);
        proof {
            reveal(Seq::filter);
            assert(t@ == tv[k]);
            assert(tv.take(k + 1).drop_last() =~= tv.take(k));
            assert(tv.take(k + 1).last() == tv[k]);
        }
        let ghost cb = text_views(confident@);
        let ghost sb = text_views(semi@);
        let ghost ub = text_views(unsure@);
        match t.confidence {
            Confidence::Confident => {
                confident.push(t);
                proof {
                    reveal(Seq::filter);
                    assert(text_views(confident@) =~= cb.push(tv[k]));
                }
            },
            Confidence::SemiConfident => {
                semi.push(t);
                proof {
                    reveal(Seq::filter);
                    assert(text_views(semi@) =~= sb.push(tv[k]));
                }
            },
            Confidence::Unsure => {
                unsure.push(t);
                proof {
                    reveal(Seq::filter);
                    assert(text_views(unsure@) =~= ub.push(tv[k]));
                }
            },
        }
        proof {
            reveal(Seq::filter);
            k = k + 1;
        }
    }
    proof {
        assert(tv.take(tv.len() as int) =~= tv);
    }
    if confident.len() == 1 {
        let first = confident.remove(0);
        return Selection {
            selected: Some(first),
            diagnostics: Vec::new(),
            missing_license: false,
            low_quality_license: false,
        };
    }
    if confident.len() > 1 {
        let paths = collect_paths(&confident);
        let first = confident.remove(0);
        let mut diagnostics: Vec<Diagnostic> = Vec::new();
        diagnostics.push(Diagnostic::MultipleCandidates(paths));
        proof {
            assert(diag_views(diagnostics@) =~= spec_diags(tv));
        }
        return Selection {
            selected: Some(first),
            diagnostics,
            missing_license: false,
            low_quality_license: false,
        };
    }
    if semi.len() == 1 {
        let first = semi.remove(0);
        let mut diagnostics: Vec<Diagnostic> = Vec::new();
        diagnostics.push(Diagnostic::LowConfidenceCandidate(first.path.clone()));
        proof {
            assert(diag_views(diagnostics@) =~= spec_diags(tv));
        }
        return Selection {
            selected: Some(first),
            diagnostics,
            missing_license: false,
            low_quality_license: false,
        };
    }
    if semi.len() > 1 {
        let paths = collect_paths(&semi);
        let first = semi.remove(0);
        let mut diagnostics: Vec<Diagnostic> = Vec::new();
        diagnostics.push(Diagnostic::MultipleLowConfidence(paths));
        proof {
            assert(diag_views(diagnostics@) =~= spec_diags(tv));
        }
        return Selection {
            selected: Some(first),
            diagnostics,
            missing_license: false,
            low_quality_license: true,
        };
    }
    if unsure.len() == 1 {
        let first = unsure.remove(0);
        let mut diagnostics: Vec<Diagnostic> = Vec::new();
        diagnostics.push(Diagnostic::VeryLowConfidenceCandidate(first.path.clone()));
        proof {
            assert(diag_views(diagnostics@) =~= spec_diags(tv));
        }
        return Selection {
            selected: Some(first),
            diagnostics,
            missing_license: false,
            low_quality_license: true,
        };
    }
    if unsure.len() > 1 {
        let paths = collect_paths(&unsure);
        let first = unsure.remove(0);
        let mut diagnostics: Vec<Diagnostic> = Vec::new();
        diagnostics.push(Diagnostic::MultipleVeryLowConfidence(paths));
        proof {
            assert(diag_views(diagnostics@) =~= spec_diags(tv));
        }
        return Selection {
            selected: Some(first),
            diagnostics,
            missing_license: false,
            low_quality_license: true,
        };
    }
    let mut diagnostics: Vec<Diagnostic> = Vec::new();
    diagnostics.push(Diagnostic::NoCandidates);
    proof {
        assert(diag_views(diagnostics@) =~= spec_diags(tv));
    }
    Selection { selected: None, diagnostics, missing_license: true, low_quality_license: false }
}

} // verus!
