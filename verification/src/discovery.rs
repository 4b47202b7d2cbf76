//! License-text discovery: two independent scans over a package
//! root directory's immediate entries. The generic scan looks for a
//! conventionally named license file and returns at most the first
//! match; the specific scan looks for files named after one
//! particular license and returns every match. Matches are scored
//! against the declared license's canonical template; an entry whose
//! content could not be read is silently skipped.
use vstd::prelude::*;

use crate::display::canon;
use crate::license::{License, Lic, lic_wf};
use crate::parse::eq_str;
use crate::scoring::{Confidence, spec_score};

verus! {

/// The uppercase form of a file or license name.
pub uninterp spec fn upper_of(s: Seq<char>) -> Seq<char>;

/// Relies on str::to_uppercase: the result depends on the
/// characters alone.
#[verifier::external_body]
fn uppercase(s: &str) -> (r: String)
    ensures
        r@ == upper_of(s@),
{
    s.to_uppercase()
}

/// A directory entry as the discovery scan sees it: the entry's file
/// name, its full path, and its content where it could be read.
pub struct Entry {
    pub name: String,
    pub path: String,
    pub content: Option<String>,
}

/// Mathematical model of a directory entry.
pub struct EntryModel {
    pub name: Seq<char>,
    pub path: Seq<char>,
    pub content: Option<Seq<char>>,
}

impl View for Entry {
    type V = EntryModel;

    open spec fn view(&self) -> EntryModel {
        EntryModel {
            name: self.name@,
            path: self.path@,
            content: match self.content {
                Some(s) => Some(s@),
                None => None,
            },
        }
    }
}

/// A concrete candidate license file: its path, its content, and the
/// scorer's quality tier for it.
pub struct LicenseText {
    pub path: String,
    pub text: String,
    pub confidence: Confidence,
}

/// Mathematical model of a candidate license file.
pub struct TextModel {
    pub path: Seq<char>,
    pub text: Seq<char>,
    pub confidence: Confidence,
}

impl View for LicenseText {
    type V = TextModel;

    open spec fn view(&self) -> TextModel {
        TextModel { path: self.path@, text: self.text@, confidence: self.confidence }
    }
}

pub open spec fn entry_views(s: Seq<Entry>) -> Seq<EntryModel> {
    s.map_values(|e: Entry| e@)
}

pub open spec fn text_views(s: Seq<LicenseText>) -> Seq<TextModel> {
    s.map_values(|t: LicenseText| t@)
}

pub open spec fn opt_text_view(r: Option<LicenseText>) -> Option<TextModel> {
    match r {
        Some(t) => Some(t@),
        None => None,
    }
}

/// The conventional generic license file names, compared after
/// uppercasing.
pub open spec fn is_generic_name(name: Seq<char>) -> bool {
    let u = upper_of(name);
    u == "LICENSE"@ || u == "LICENCE"@ || u == "LICENSE.MD"@ || u == "LICENSE.TXT"@
}

/// Whether a file name announces the given license: the uppercased
/// name equals the license's uppercased canonical token, or that
/// token behind the conventional prefix. The Apache license keeps
/// its customary short file name.
pub open spec fn spec_name_matches(name: Seq<char>, l: Lic) -> bool {
    let u = upper_of(name);
    match l {
        Lic::Apache_2_0 => u == "LICENSE-APACHE"@,
        Lic::Custom(c) => u == upper_of(c) || u == "LICENSE-"@ + upper_of(c),
        _ => u == upper_of(canon(l)) || u == "LICENSE-"@ + upper_of(canon(l)),
    }
}

/// The scored candidate built from a readable entry.
pub open spec fn scored(e: EntryModel, l: Lic) -> TextModel {
    TextModel { path: e.path, text: e.content->0, confidence: spec_score(e.content->0, l) }
}

/// The generic scan from position `i` on: the first readable entry
/// with a conventional license file name, scored against `l`.
pub open spec fn spec_find_generic(entries: Seq<EntryModel>, l: Lic, i: int) -> Option<TextModel>
    decreases entries.len() - i,
{
    if i < 0 || i >= entries.len() {
        None
    } else if is_generic_name(entries[i].name) && entries[i].content is Some {
        Some(scored(entries[i], l))
    } else {
        spec_find_generic(entries, l, i + 1)
    }
}

/// The specific scan from position `i` on: every readable entry
/// whose name announces `l`, scored against `l`, in directory order.
pub open spec fn spec_find_all(entries: Seq<EntryModel>, l: Lic, i: int) -> Seq<TextModel>
    decreases entries.len() - i,
{
    if i < 0 || i >= entries.len() {
        Seq::empty()
    } else if spec_name_matches(entries[i].name, l) && entries[i].content is Some {
        seq![scored(entries[i], l)] + spec_find_all(entries, l, i + 1)
    } else {
        spec_find_all(entries, l, i + 1)
    }
}

/// Whether a file name is one of the conventional generic license
/// file names.
fn generic_license_name(name: &str) -> (r: bool)
    ensures
        r == is_generic_name(name@),
{
    let u = uppercase(name);
    eq_str(u.as_str(), "LICENSE") || eq_str(u.as_str(), "LICENCE") || eq_str(
        u.as_str(),
        "LICENSE.MD",
    ) || eq_str(u.as_str(), "LICENSE.TXT")
}

/// Whether a file name announces the given license.
fn name_matches(name: &str, license: &License) -> (r: bool)
    requires
        lic_wf(license@),
    ensures
        r == spec_name_matches(name@, license@),
{
    let u = uppercase(name);
    match license {
        License::Apache_2_0 => eq_str(u.as_str(), "LICENSE-APACHE"),
        License::Custom(c) => {
            let cu = uppercase(c.as_str());
            if eq_str(u.as_str(), cu.as_str()) {
                true
            } else {
                let mut pref = "LICENSE-".to_owned();
                pref.append(cu.as_str());
                eq_str(u.as_str(), pref.as_str())
            }
        },
        _ => {
            let d = license.display_string();
            let du = uppercase(d.as_str());
            if eq_str(u.as_str(), du.as_str()) {
                true
            } else {
                let mut pref = "LICENSE-".to_owned();
                pref.append(du.as_str());
                eq_str(u.as_str(), pref.as_str())
            }
        },
    }
}

/// The generic scan: the first readable entry with a conventional
/// license file name, scored against the package's declared license.
/// The scan is a pure function of the directory snapshot, so
/// repeating it over unchanged entries yields the same candidate and
/// the same confidence.
#[verifier::loop_isolation(false)]
pub fn find_generic_license_text(entries: &Vec<Entry>, license: &License) -> (r: Option<
    LicenseText,
>)
    ensures
        opt_text_view(r) == spec_find_generic(entry_views(entries@), license@, 0),
{
    let ghost ev = entry_views(entries@);
    let mut i: usize = 0;
    while i < entries.len()
        invariant
            i <= entries@.len(),
            ev.len() == entries@.len(),
            spec_find_generic(ev, license@, 0) == spec_find_generic(ev, license@, i as int),
        decreases entries@.len() - i,
    {
        proof {
            assert(ev[i as int] == entries@[i as int]@);
        }
        let e = &entries[i];
        if generic_license_name(e.name.as_str()) {
            match &e.content {
                Some(text) => {
                    let confidence = license.score(text.as_str());
                    return Some(
                        LicenseText {
                            path: e.path.clone(),
                            text: text.clone(),
                            confidence,
                        },
                    );
                },
                None => {},
            }
        }
        i += 1;
    }
    None
}

/// The specific scan: every readable entry whose name announces the
/// given license, scored against it, in directory order. The scan is
/// a pure function of the directory snapshot, so repeating it over
/// unchanged entries yields identical candidates and scores.
#[verifier::loop_isolation(false)]
pub fn find_license_text(entries: &Vec<Entry>, license: &License) -> (r: Vec<LicenseText>)
    requires
        lic_wf(license@),
    ensures
        text_views(r@) == spec_find_all(entry_views(entries@), license@, 0),
{
    let ghost ev = entry_views(entries@);
    let mut texts: Vec<LicenseText> = Vec::new();
    let mut i: usize = 0;
    while i < entries.len()
        invariant
            i <= entries@.len(),
            ev.len() == entries@.len(),
            spec_find_all(ev, license@, 0) == text_views(texts@) + spec_find_all(
                ev,
                license@,
                i as int,
            ),
        decreases entries@.len() - i,
    {
        proof {
            assert(ev[i as int] == entries@[i as int]@);
        }
        let e = &entries[i];
        if name_matches(e.name.as_str(), license) {
            match &e.content {
                Some(text) => {
                    let confidence = license.score(text.as_str());
                    let ghost before = text_views(texts@);
                    texts.push(
                        LicenseText {
                            path: e.path.clone(),
                            text: text.clone(),
                            confidence,
                        },
                    );
                    proof {
                        assert(text_views(texts@) =~= before + seq![scored(ev[i as int], license@)]);
                        assert((before + seq![scored(ev[i as int], license@)]) + spec_find_all(
                            ev,
                            license@,
                            i as int + 1,
                        ) =~= before + (seq![scored(ev[i as int], license@)] + spec_find_all(
                            ev,
                            license@,
                            i as int + 1,
                        )));
                    }
                },
                None => {},
            }
        }
        i += 1;
    }
    proof {
        assert(text_views(texts@) + Seq::<TextModel>::empty() =~= text_views(texts@));
    }
    texts
}

} // verus!
