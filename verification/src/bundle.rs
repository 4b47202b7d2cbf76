//! The attribution decision for one package: prefer a generic
//! license file when one is found; otherwise gather, score and
//! select a candidate text for each of the package's licenses,
//! accumulating diagnostics and the run-wide quality-failure
//! signals. The formatting of the resulting bundle is the caller's
//! business.
use vstd::prelude::*;

use crate::discovery::{
    Entry,
    EntryModel,
    LicenseText,
    TextModel,
    entry_views,
    find_generic_license_text,
    find_license_text,
    opt_text_view,
    spec_find_all,
    spec_find_generic,
};
use crate::license::{License, Lic, lic_wf};
use crate::scoring::Confidence;
use crate::selection::{
    DiagModel,
    Diagnostic,
    Selection,
    diag_views,
    select,
    spec_diags,
    spec_low_quality,
    spec_missing,
    spec_selected,
};

verus! {

/// One per-license section of a package's attribution: the license
/// and the candidate text chosen for it, when one was found.
pub struct LicenseSection {
    pub license: License,
    pub text: Option<LicenseText>,
}

/// Mathematical model of a section.
pub struct SectionModel {
    pub license: Lic,
    pub text: Option<TextModel>,
}

impl View for LicenseSection {
    type V = SectionModel;

    open spec fn view(&self) -> SectionModel {
        SectionModel { license: self.license@, text: opt_text_view(self.text) }
    }
}

pub open spec fn section_views(s: Seq<LicenseSection>) -> Seq<SectionModel> {
    s.map_values(|x: LicenseSection| x@)
}

/// The attribution outcome for one package: either the generic
/// license file, or one section per license, plus the diagnostics
/// and the two signals the driver folds over the whole run.
pub struct PackageAttribution {
    pub generic: Option<LicenseText>,
    pub sections: Vec<LicenseSection>,
    pub diagnostics: Vec<Diagnostic>,
    pub missing_license: bool,
    pub low_quality_license: bool,
}

/// The diagnostics for a generic license file, by its confidence: a
/// middling match is only warned about, but a very poor match is an
/// error even though the file is still used.
pub open spec fn generic_diags(t: TextModel) -> Seq<DiagModel> {
    match t.confidence {
        Confidence::Confident => Seq::empty(),
        Confidence::SemiConfident => seq![DiagModel::LowConfidenceCandidate(t.path)],
        Confidence::Unsure => seq![DiagModel::PoorGenericCandidate(t.path)],
    }
}

/// One section per member license, from position `i` on.
pub open spec fn member_sections(ev: Seq<EntryModel>, ms: Seq<Lic>, i: int) -> Seq<SectionModel>
    decreases ms.len() - i,
{
    if i < 0 || i >= ms.len() {
        Seq::empty()
    } else {
        seq![
            SectionModel { license: ms[i], text: spec_selected(spec_find_all(ev, ms[i], 0)) },
        ] + member_sections(ev, ms, i + 1)
    }
}

/// The selector diagnostics of every member license, in order.
pub open spec fn member_diags(ev: Seq<EntryModel>, ms: Seq<Lic>, i: int) -> Seq<DiagModel>
    decreases ms.len() - i,
{
    if i < 0 || i >= ms.len() {
        Seq::empty()
    } else {
        spec_diags(spec_find_all(ev, ms[i], 0)) + member_diags(ev, ms, i + 1)
    }
}

/// Whether any member license had no candidate text at all.
pub open spec fn member_missing(ev: Seq<EntryModel>, ms: Seq<Lic>, i: int) -> bool
    decreases ms.len() - i,
{
    if i < 0 || i >= ms.len() {
        false
    } else {
        spec_missing(spec_find_all(ev, ms[i], 0)) || member_missing(ev, ms, i + 1)
    }
}

/// Whether any member license had only a low-quality pick.
pub open spec fn member_low(ev: Seq<EntryModel>, ms: Seq<Lic>, i: int) -> bool
    decreases ms.len() - i,
{
    if i < 0 || i >= ms.len() {
        false
    } else {
        spec_low_quality(spec_find_all(ev, ms[i], 0)) || member_low(ev, ms, i + 1)
    }
}

pub open spec fn spec_attr_sections(ev: Seq<EntryModel>, l: Lic) -> Seq<SectionModel> {
    match spec_find_generic(ev, l, 0) {
        Some(_) => Seq::empty(),
        None => match l {
            Lic::Unspecified => Seq::empty(),
            Lic::Multiple(ms) => member_sections(ev, ms, 0),
            _ => seq![
                SectionModel { license: l, text: spec_selected(spec_find_all(ev, l, 0)) },
            ],
        },
    }
}

pub open spec fn spec_attr_diags(ev: Seq<EntryModel>, l: Lic) -> Seq<DiagModel> {
    match spec_find_generic(ev, l, 0) {
        Some(t) => generic_diags(t),
        None => match l {
            Lic::Unspecified => seq![DiagModel::NoLicenseSpecified],
            Lic::Multiple(ms) => member_diags(ev, ms, 0),
            _ => spec_diags(spec_find_all(ev, l, 0)),
        },
    }
}

pub open spec fn spec_attr_missing(ev: Seq<EntryModel>, l: Lic) -> bool {
    match spec_find_generic(ev, l, 0) {
        Some(_) => false,
        None => match l {
            Lic::Unspecified => false,
            Lic::Multiple(ms) => member_missing(ev, ms, 0),
            _ => spec_missing(spec_find_all(ev, l, 0)),
        },
    }
}

pub open spec fn spec_attr_low(ev: Seq<EntryModel>, l: Lic) -> bool {
    match spec_find_generic(ev, l, 0) {
        Some(_) => false,
        None => match l {
            Lic::Unspecified => false,
            Lic::Multiple(ms) => member_low(ev, ms, 0),
            _ => spec_low_quality(spec_find_all(ev, l, 0)),
        },
    }
}

/// Decides the attribution for one package over its directory
/// entries: a generic license file wins outright (reported when its
/// confidence is middling or poor); otherwise every one of the
/// package's licenses gets its own candidate search and selection,
/// and a package with no license at all gets an error diagnostic.
#[verifier::loop_isolation(false)]
pub fn package_attribution(entries: &Vec<Entry>, license: License) -> (r: PackageAttribution)
    requires
        lic_wf(license@),
    ensures
        opt_text_view(r.generic) == spec_find_generic(entry_views(entries@), license@, 0),
        section_views(r.sections@) == spec_attr_sections(entry_views(entries@), license@),
        diag_views(r.diagnostics@) == spec_attr_diags(entry_views(entries@), license@),
        r.missing_license == spec_attr_missing(entry_views(entries@), license@),
        r.low_quality_license == spec_attr_low(entry_views(entries@), license@),
{
    let ghost ev = entry_views(entries@);
    match find_generic_license_text(entries, &license) {
        Some(t) => {
            let mut diagnostics: Vec<Diagnostic> = Vec::new();
            match t.confidence {
                Confidence::Confident => {},
                Confidence::SemiConfident => {
                    diagnostics.push(Diagnostic::LowConfidenceCandidate(t.path.clone()));
                },
                Confidence::Unsure => {
                    diagnostics.push(Diagnostic::PoorGenericCandidate(t.path.clone()));
                },
            }
            proof {
                assert(diag_views(diagnostics@) =~= generic_diags(t@));
            }
            PackageAttribution {
                generic: Some(t),
                sections: Vec::new(),
                diagnostics,
                missing_license: false,
                low_quality_license: false,
            }
        },
        None => match license {
            License::Unspecified => {
                let mut diagnostics: Vec<Diagnostic> = Vec::new();
                diagnostics.push(Diagnostic::NoLicenseSpecified);
                proof {
                    assert(diag_views(diagnostics@) =~= seq![DiagModel::NoLicenseSpecified]);
                    assert(section_views(Seq::<LicenseSection>::empty()) =~= Seq::<
                        SectionModel,
                    >::empty());
                }
                PackageAttribution {
                    generic: None,
                    sections: Vec::new(),
                    diagnostics,
                    missing_license: false,
                    low_quality_license: false,
                }
            },
            License::Multiple(ls) => {
                let ghost ms = license@->Multiple_0;
                let mut members = ls;
                let ghost mut k: int = 0;
                let mut sections: Vec<LicenseSection> = Vec::new();
                let mut diagnostics: Vec<Diagnostic> = Vec::new();
                let mut missing_license = false;
                let mut low_quality_license = false;
                while members.len() > 0
                    invariant
                        0 <= k <= ms.len(),
                        members@.len() == ms.len() - k,
                        forall|m: int| 0 <= m < members@.len() ==> #[trigger] members@[m]@ == ms[k
                            + m],
                        forall|m: int| 0 <= m < ms.len() ==> lic_wf(#[trigger] ms[m]),
                        member_sections(ev, ms, 0) == section_views(sections@) + member_sections(
                            ev,
                            ms,
                            k,
                        ),
                        member_diags(ev, ms, 0) == diag_views(diagnostics@) + member_diags(
                            ev,
                            ms,
                            k,
                        ),
                        member_missing(ev, ms, 0) == (missing_license || member_missing(
                            ev,
                            ms,
                            k,
                        )),
                        member_low(ev, ms, 0) == (low_quality_license || member_low(ev, ms, k)),
                    decreases members@.len(),
                {
                    let member = members.remove(0);
                    proof {
                        assert(member@ == ms[k]);
                    }
                    let texts = find_license_text(entries, &member);
                    let sel = select(texts);
                    let Selection {
                        selected,
                        diagnostics: mut sel_diags,
                        missing_license: sel_missing,
                        low_quality_license: sel_low,
                    } = sel;
                    let ghost db = diag_views(diagnostics@);
                    let ghost dnew = diag_views(sel_diags@);
                    let ghost sb = section_views(sections@);
                    diagnostics.append(&mut sel_diags);
                    sections.push(LicenseSection { license: member, text: selected });
                    missing_license = missing_license || sel_missing;
                    low_quality_license = low_quality_license || sel_low;
                    proof {
                        assert(diag_views(diagnostics@) =~= db + dnew);
                        assert(section_views(sections@) =~= sb + seq![
                            SectionModel {
                                license: ms[k],
                                text: spec_selected(spec_find_all(ev, ms[k], 0)),
                            },
                        ]);
                        assert((db + dnew) + member_diags(ev, ms, k + 1) =~= db + (dnew
                            + member_diags(ev, ms, k + 1)));
                        assert((sb + seq![
                            SectionModel {
                                license: ms[k],
                                text: spec_selected(spec_find_all(ev, ms[k], 0)),
                            },
                        ]) + member_sections(ev, ms, k + 1) =~= sb + (seq![
                            SectionModel {
                                license: ms[k],
                                text: spec_selected(spec_find_all(ev, ms[k], 0)),
                            },
                        ] + member_sections(ev, ms, k + 1)));
                        k = k + 1;
                    }
                }
                proof {
                    assert(section_views(sections@) + Seq::<SectionModel>::empty()
                        =~= section_views(sections@));
                    assert(diag_views(diagnostics@) + Seq::<DiagModel>::empty() =~= diag_views(
                        diagnostics@,
                    ));
                }
                PackageAttribution {
                    generic: None,
                    sections,
                    diagnostics,
                    missing_license,
                    low_quality_license,
                }
            },
            other => {
                let texts = find_license_text(entries, &other);
                let sel = select(texts);
                let Selection { selected, diagnostics, missing_license, low_quality_license } =
                    sel;
                let mut sections: Vec<LicenseSection> = Vec::new();
                sections.push(LicenseSection { license: other, text: selected });
                proof {
                    assert(section_views(sections@) =~= spec_attr_sections(ev, license@));
                }
                PackageAttribution {
                    generic: None,
                    sections,
                    diagnostics,
                    missing_license,
                    low_quality_license,
                }
            },
        },
    }
}

} // verus!
