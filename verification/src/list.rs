//! Grouping of packages by their license for the listing output:
//! packages with equal licenses land in one group, groups appear in
//! the order their license was first seen, and each group keeps its
//! packages in input order.
use vstd::prelude::*;

use crate::license::{License, Lic};
use crate::package::{PackageInfo, PackageModel, package_views};
use crate::parse::eq_str;

verus! {

/// One line of the listing: a license and the names of the packages
/// declared under it, in input order.
pub struct LicenseGroup {
    pub license: License,
    pub packages: Vec<String>,
}

/// Mathematical model of a group.
pub struct GroupModel {
    pub license: Lic,
    pub packages: Seq<Seq<char>>,
}

impl View for LicenseGroup {
    type V = GroupModel;

    open spec fn view(&self) -> GroupModel {
        GroupModel {
            license: self.license@,
            packages: self.packages@.map_values(|n: String| n@),
        }
    }
}

pub open spec fn group_views(s: Seq<LicenseGroup>) -> Seq<GroupModel> {
    s.map_values(|g: LicenseGroup| g@)
}

/// The names of the packages declared under exactly this license,
/// in input order.
pub open spec fn names_with(ps: Seq<PackageModel>, l: Lic) -> Seq<Seq<char>> {
    ps.filter(|p: PackageModel| p.license == l).map_values(|p: PackageModel| p.name)
}

/// The group keys of a group list, in group order.
pub open spec fn keys_of(s: Seq<LicenseGroup>) -> Seq<Lic> {
    s.map_values(|g: LicenseGroup| g@.license)
}

/// The distinct licenses of a package list, in the order each was
/// first seen.
pub open spec fn distinct_licenses(ps: Seq<PackageModel>) -> Seq<Lic>
    decreases ps.len(),
{
    if ps.len() == 0 {
        Seq::empty()
    } else {
        let d = distinct_licenses(ps.drop_last());
        if d.contains(ps.last().license) {
            d
        } else {
            d.push(ps.last().license)
        }
    }
}

proof fn lemma_names_with_absent(ps: Seq<PackageModel>, l: Lic)
    requires
        forall|m: int| 0 <= m < ps.len() ==> (#[trigger] ps[m]).license != l,
    ensures
        names_with(ps, l) =~= Seq::<Seq<char>>::empty(),
    decreases ps.len(),
{
    reveal(Seq::filter);
    if ps.len() > 0 {
        let d = ps.drop_last();
        assert forall|m: int| 0 <= m < d.len() implies (#[trigger] d[m]).license != l by {
            assert(d[m] == ps[m]);
        }
        lemma_names_with_absent(d, l);
        assert(ps.last() == ps[ps.len() - 1]);
    }
}

/// Structural equality of two licenses.
#[verifier::loop_isolation(false)]
fn license_eq(a: &License, b: &License) -> (r: bool)
    ensures
        r == (a@ == b@),
    decreases a,
{
    let ra = crate::parse::rank(a);
    let rb = crate::parse::rank(b);
    if ra != rb {
        return false;
    }
    match a {
        License::Custom(x) => {
            if let License::Custom(y) = b {
                eq_str(x.as_str(), y.as_str())
            } else {
                proof {
                    assert(false);
                }
                false
            }
        },
        License::File(x) => {
            if let License::File(y) = b {
                eq_str(x.as_str(), y.as_str())
            } else {
                proof {
                    assert(false);
                }
                false
            }
        },
        License::Multiple(xs) => {
            let License::Multiple(ys) = b else {
                proof {
                    assert(false);
                }
                return false;
            };
            let ghost mx = a@->Multiple_0;
            let ghost my = b@->Multiple_0;
            proof {
                assert forall|m: int| 0 <= m < xs@.len() implies #[trigger] mx[m] == xs@[m]@ by {
                    assert(mx[m] == xs@[m].view_rec());
                }
                assert forall|m: int| 0 <= m < ys@.len() implies #[trigger] my[m] == ys@[m]@ by {
                    assert(my[m] == ys@[m].view_rec());
                }
                assert(mx.len() == xs@.len());
                assert(my.len() == ys@.len());
            }
            if xs.len() != ys.len() {
                return false;
            }
            let mut j: usize = 0;
            while j < xs.len()
                invariant
                    j <= xs@.len(),
                    xs@.len() == ys@.len(),
                    forall|m: int| 0 <= m < j ==> #[trigger] mx[m] == my[m],
                decreases xs@.len() - j,
            {
                let sub = &xs[j];
                proof {
                    assert(*xs == a->Multiple_0);
                    assert(decreases_to!(*a => a->Multiple_0));
                    assert(decreases_to!(*xs => xs@));
                    assert(decreases_to!(xs@ => xs@[j as int]));
                }
                if !license_eq(sub, &ys[j]) {
                    proof {
                        assert(mx[j as int] != my[j as int]);
                        assert(a@ != b@) by {
                            if a@ == b@ {
                                assert(mx == my);
                                assert(mx[j as int] == my[j as int]);
                            }
                        }
                    }
                    return false;
                }
                j += 1;
            }
            proof {
                assert(mx =~= my);
            }
            true
        },
        _ => true,
    }
}

/// The index of the group holding exactly this license, if any.
#[verifier::loop_isolation(false)]
fn find_group(groups: &Vec<LicenseGroup>, l: &License) -> (r: Option<usize>)
    ensures
        match r {
            Some(i) => i < groups@.len() && groups@[i as int]@.license == l@,
            None => forall|i: int|
                0 <= i < groups@.len() ==> (#[trigger] groups@[i])@.license != l@,
        },
{
    let mut i: usize = 0;
    while i < groups.len()
        invariant
            i <= groups@.len(),
            forall|m: int| 0 <= m < i ==> (#[trigger] groups@[m])@.license != l@,
        decreases groups@.len() - i,
    {
        if license_eq(&groups[i].license, l) {
            return Some(i);
        }
        i += 1;
    }
    None
}

/// One more package under a license that already has a group: the
/// group's name list grows, everything else stays.
#[verifier::loop_isolation(false)]
fn append_to_group(groups: &mut Vec<LicenseGroup>, i: usize, name: String)
    requires
        i < old(groups)@.len(),
    ensures
        final(groups)@.len() == old(groups)@.len(),
        forall|q: int|
            0 <= q < final(groups)@.len() && q != i ==> #[trigger] final(groups)@[q] == old(
                groups,
            )@[q],
        final(groups)@[i as int]@.license == old(groups)@[i as int]@.license,
        final(groups)@[i as int]@.packages == old(groups)@[i as int]@.packages.push(name@),
{
    let ghost before = groups@;
    let mut g = groups.remove(i);
    g.packages.push(name);
    let ghost gnew = g@;
    groups.insert(i, g);
    proof {
        assert(before.remove(i as int).subrange(0, i as int) =~= before.subrange(0, i as int));
        assert(before.remove(i as int).subrange(i as int, before.len() - 1) =~= before.subrange(
            i as int + 1,
            before.len() as int,
        ));
        assert(groups@ =~= before.update(i as int, groups@[i as int]));
        assert(groups@[i as int]@ == gnew);
        assert(gnew.packages =~= before[i as int]@.packages.push(name@));
    }
}

proof fn lemma_names_with_step(ps: Seq<PackageModel>, p: PackageModel, l: Lic)
    ensures
        p.license == l ==> names_with(ps.push(p), l) =~= names_with(ps, l).push(p.name),
        p.license != l ==> names_with(ps.push(p), l) =~= names_with(ps, l),
{
    reveal(Seq::filter);
    assert(ps.push(p).drop_last() =~= ps);
    assert(ps.push(p).last() == p);
}

/// Groups the packages by license: packages with equal licenses
/// land in one group, groups appear in the order their license was
/// first seen, and each license has exactly one group. How the
/// groups are rendered and ordered on screen is the caller's
/// business.
#[verifier::loop_isolation(false)]
#[verifier::rlimit(50)]
pub fn group_by_license(packages: Vec<PackageInfo>) -> (groups: Vec<LicenseGroup>)
    ensures
        keys_of(groups@) == distinct_licenses(package_views(packages@)),
        forall|i: int, j: int|
            0 <= i < j < groups@.len() ==> (#[trigger] groups@[i])@.license != (
            #[trigger] groups@[j])@.license,
        forall|i: int|
            0 <= i < groups@.len() ==> (#[trigger] groups@[i])@.packages == names_with(
                package_views(packages@),
                groups@[i]@.license,
            ),
        forall|m: int|
            0 <= m < packages@.len() ==> exists|i: int|
                0 <= i < groups@.len() && (#[trigger] groups@[i])@.license == (
                #[trigger] packages@[m])@.license,
{
    let ghost pv = package_views(packages@);
    let mut groups: Vec<LicenseGroup> = Vec::new();
    let mut rest = packages;
    let ghost mut k: int = 0;
    proof {
        assert(pv.take(0) =~= Seq::<PackageModel>::empty());
    }
    while rest.len() > 0
        invariant
            0 <= k <= pv.len(),
            rest@.len() == pv.len() - k,
            forall|m: int| 0 <= m < rest@.len() ==> #[trigger] rest@[m]@ == pv[k + m],
            keys_of(groups@) == distinct_licenses(pv.take(k)),
            forall|i: int, j: int|
                0 <= i < j < groups@.len() ==> (#[trigger] groups@[i])@.license != (
                #[trigger] groups@[j])@.license,
            forall|i: int|
                0 <= i < groups@.len() ==> (#[trigger] groups@[i])@.packages == names_with(
                    pv.take(k),
                    groups@[i]@.license,
                ),
            forall|m: int| #![trigger pv[m]]
                0 <= m < k ==> exists|i: int|
                    0 <= i < groups@.len() && (#[trigger] groups@[i])@.license == pv[m].license,
        decreases rest@.len(),
    {
        let p = rest.remove(0);
        proof {
            assert(p@ == pv[k]);
            assert(pv.take(k + 1) =~= pv.take(k).push(pv[k]));
            assert(pv.take(k + 1).drop_last() =~= pv.take(k));
            assert(pv.take(k + 1).last() == pv[k]);
        }
        let PackageInfo { name, license } = p;
        match find_group(&groups, &license) {
            Some(i) => {
                let ghost before = groups@;
                append_to_group(&mut groups, i, name);
                proof {
                    assert(keys_of(before)[i as int] == before[i as int]@.license);
                    assert(keys_of(before).contains(pv[k].license));
                    assert(keys_of(groups@) =~= keys_of(before));
                    assert forall|q: int|
                        0 <= q < groups@.len() implies (#[trigger] groups@[q])@.packages
                        == names_with(pv.take(k + 1), groups@[q]@.license) by {
                        if q != i {
                            assert(before[q]@.license != before[i as int]@.license);
                        }
                        lemma_names_with_step(pv.take(k), pv[k], before[q]@.license);
                    }
                    assert forall|m: int| #![trigger pv[m]]
                        0 <= m < k + 1 implies exists|w: int|
                            0 <= w < groups@.len() && (#[trigger] groups@[w])@.license
                                == pv[m].license by {
                        if m < k {
                            let w = choose|w: int|
                                0 <= w < before.len() && (#[trigger] before[w])@.license
                                    == pv[m].license;
                            assert(groups@[w]@.license == pv[m].license);
                        } else {
                            assert(groups@[i as int]@.license == pv[m].license);
                        }
                    }
                    k = k + 1;
                }
            },
            None => {
                proof {
                    assert forall|m: int|
                        0 <= m < pv.take(k).len() implies (#[trigger] pv.take(k)[m]).license
                        != pv[k].license by {
                        if pv.take(k)[m].license == pv[k].license {
                            assert(exists|w: int|
                                0 <= w < groups@.len() && (#[trigger] groups@[w])@.license
                                    == pv[m].license);
                            let w = choose|w: int|
                                0 <= w < groups@.len() && (#[trigger] groups@[w])@.license
                                    == pv[m].license;
                            assert(groups@[w]@.license != pv[k].license);
                        }
                    }
                    lemma_names_with_absent(pv.take(k), pv[k].license);
                }
                let ghost before = groups@;
                proof {
                    assert(!keys_of(before).contains(pv[k].license)) by {
                        if keys_of(before).contains(pv[k].license) {
                            let w = choose|w: int|
                                0 <= w < keys_of(before).len() && keys_of(before)[w]
                                    == pv[k].license;
                            assert(before[w]@.license == pv[k].license);
                        }
                    }
                }
                let mut names: Vec<String> = Vec::new();
                names.push(name);
                let fresh = LicenseGroup { license, packages: names };
                let ghost fm = fresh@;
                groups.push(fresh);
                proof {
                    assert(fm.license == pv[k].license);
                    assert(keys_of(groups@) =~= keys_of(before).push(pv[k].license));
                    assert(fm.packages =~= Seq::<Seq<char>>::empty().push(pv[k].name));
                    assert(groups@ =~= before.push(groups@[before.len() as int]));
                    assert(groups@[before.len() as int]@ == fm);
                    assert forall|q: int|
                        0 <= q < groups@.len() implies (#[trigger] groups@[q])@.packages
                        == names_with(pv.take(k + 1), groups@[q]@.license) by {
                        if q < before.len() {
                            assert(groups@[q] == before[q]);
                            assert(before[q]@.license != pv[k].license);
                            lemma_names_with_step(pv.take(k), pv[k], before[q]@.license);
                        } else {
                            lemma_names_with_step(pv.take(k), pv[k], fm.license);
                        }
                    }
                    assert forall|m: int| #![trigger pv[m]]
                        0 <= m < k + 1 implies exists|w: int|
                            0 <= w < groups@.len() && (#[trigger] groups@[w])@.license
                                == pv[m].license by {
                        if m < k {
                            let w = choose|w: int|
                                0 <= w < before.len() && (#[trigger] before[w])@.license
                                    == pv[m].license;
                            assert(groups@[w]@.license == pv[m].license);
                        } else {
                            assert(groups@[before.len() as int]@.license == pv[m].license);
                        }
                    }
                    k = k + 1;
                }
            },
        }
    }
    proof {
        assert(pv.take(pv.len() as int) =~= pv);
        assert forall|m: int| 0 <= m < packages@.len() implies exists|i: int|
            0 <= i < groups@.len() && (#[trigger] groups@[i])@.license == (
            #[trigger] packages@[m])@.license by {
            assert(pv[m] == packages@[m]@);
            assert(exists|w: int|
                0 <= w < groups@.len() && (#[trigger] groups@[w])@.license == pv[m].license);
        }
    }
    groups
}

} // verus!
