//! The engine's read-only view of a package: its name and its
//! declared license, resolved from the manifest fields the host
//! package manager hands over.
use vstd::prelude::*;

use crate::license::{License, Lic, lic_wf};
use crate::parse::{chars_le, spec_parse};

verus! {

/// A package as the engine sees it: a name and a declared license.
pub struct PackageInfo {
    pub name: String,
    pub license: License,
}

/// Mathematical model of a package.
pub struct PackageModel {
    pub name: Seq<char>,
    pub license: Lic,
}

impl View for PackageInfo {
    type V = PackageModel;

    open spec fn view(&self) -> PackageModel {
        PackageModel { name: self.name@, license: self.license@ }
    }
}

pub open spec fn package_views(s: Seq<PackageInfo>) -> Seq<PackageModel> {
    s.map_values(|p: PackageInfo| p@)
}

/// Resolves a package's declared license from its manifest fields:
/// the license expression string when present, else the canonical
/// path of its referenced license file, else no license at all.
pub fn license_from_metadata(expr: Option<String>, file: Option<String>) -> (r: License)
    ensures
        expr matches Some(e) ==> r@ == spec_parse(e@),
        expr is None ==> (file matches Some(p) ==> r@ == Lic::File(p@)),
        expr is None && file is None ==> r@ == Lic::Unspecified,
        lic_wf(r@),
{
    match expr {
        Some(e) => License::parse(e.as_str()),
        None => match file {
            Some(p) => License::File(p),
            None => License::Unspecified,
        },
    }
}

/// Inserts a package into a list sorted by name, after every
/// package whose name compares at or below its own.
pub open spec fn insert_by_name(x: PackageModel, s: Seq<PackageModel>) -> Seq<PackageModel>
    decreases s.len(),
{
    if s.len() == 0 {
        seq![x]
    } else if chars_le(s[0].name, x.name) {
        seq![s[0]] + insert_by_name(x, s.drop_first())
    } else {
        seq![x] + s
    }
}

/// Sorts packages by name by repeated insertion, keeping packages
/// with equal names in their original order.
pub open spec fn sort_by_name(ps: Seq<PackageModel>) -> Seq<PackageModel>
    decreases ps.len(),
{
    if ps.len() == 0 {
        Seq::empty()
    } else {
        insert_by_name(ps.last(), sort_by_name(ps.drop_last()))
    }
}

proof fn lemma_insert_by_name_at(x: PackageModel, s: Seq<PackageModel>, pos: int)
    requires
        0 <= pos <= s.len(),
        forall|k: int| 0 <= k < pos ==> chars_le((#[trigger] s[k]).name, x.name),
        pos < s.len() ==> !chars_le(s[pos].name, x.name),
    ensures
        insert_by_name(x, s) =~= s.take(pos) + seq![x] + s.skip(pos),
    decreases pos,
{
    if pos > 0 {
        let d = s.drop_first();
        assert forall|k: int| 0 <= k < pos - 1 implies chars_le((#[trigger] d[k]).name, x.name) by {
            assert(d[k] == s[k + 1]);
        }
        lemma_insert_by_name_at(x, d, pos - 1);
    }
}

/// Sorts the package list by name, so that a run processes packages
/// in a deterministic order.
#[verifier::loop_isolation(false)]
pub fn sort_packages(packages: Vec<PackageInfo>) -> (r: Vec<PackageInfo>)
    ensures
        package_views(r@) == sort_by_name(package_views(packages@)),
{
    let ghost pv = package_views(packages@);
    let mut rest = packages;
    let mut sorted: Vec<PackageInfo> = Vec::new();
    let ghost mut k: int = 0;
    proof {
        assert(pv.take(0) =~= Seq::<PackageModel>::empty());
    }
    while rest.len() > 0
        invariant
            0 <= k <= pv.len(),
            rest@.len() == pv.len() - k,
            forall|m: int| 0 <= m < rest@.len() ==> #[trigger] rest@[m]@ == pv[k + m],
            package_views(sorted@) == sort_by_name(pv.take(k)),
        decreases rest@.len(),
    {
        let p = rest.remove(0);
        proof {
            assert(p@ == pv[k]);
            assert(pv.take(k + 1).drop_last() =~= pv.take(k));
            assert(pv.take(k + 1).last() == pv[k]);
        }
        let ghost sv = package_views(sorted@);
        let mut pos: usize = 0;
        while pos < sorted.len() && crate::parse::str_le(sorted[pos].name.as_str(), p.name.as_str())
            invariant
                pos <= sorted@.len(),
                sv == package_views(sorted@),
                forall|m: int| 0 <= m < pos ==> chars_le((#[trigger] sv[m]).name, p@.name),
            decreases sorted@.len() - pos,
        {
            proof {
                assert(sv[pos as int] == sorted@[pos as int]@);
            }
            pos += 1;
        }
        proof {
            assert(pos < sorted@.len() ==> sv[pos as int] == sorted@[pos as int]@);
            lemma_insert_by_name_at(p@, sv, pos as int);
        }
        sorted.insert(pos, p);
        proof {
            assert(package_views(sorted@) =~= sv.take(pos as int) + seq![pv[k]] + sv.skip(
                pos as int,
            ));
            k = k + 1;
        }
    }
    proof {
        assert(pv.take(pv.len() as int) =~= pv);
    }
    sorted
}

} // verus!
