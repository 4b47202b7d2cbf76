//! The compatibility-check driver core: the per-dependency verdicts
//! for a root license against a dependency list, and the failure
//! count that decides the command's overall outcome. Every package
//! is evaluated; nothing aborts early.
use vstd::prelude::*;

use crate::license::{License, Lic, spec_can_include};
use crate::package::{PackageInfo, package_views};

verus! {

/// The verdict for one dependency: known compatible, known
/// incompatible (an error), or undecidable (a warning).
#[derive(Debug, Clone, Copy, PartialEq, Eq, Structural)]
pub enum Verdict {
    Compatible,
    Incompatible,
    Unknown,
}

/// The verdict the tri-state relation gives for one dependency.
pub open spec fn spec_verdict(root: Lic, dep: Lic) -> Verdict {
    match spec_can_include(root, dep) {
        Some(true) => Verdict::Compatible,
        Some(false) => Verdict::Incompatible,
        None => Verdict::Unknown,
    }
}

/// How many of the dependencies from position `i` on are known
/// incompatible.
pub open spec fn spec_fail_count(root: Lic, deps: Seq<crate::package::PackageModel>, i: int) -> nat
    decreases deps.len() - i,
{
    if i < 0 || i >= deps.len() {
        0
    } else {
        (if spec_verdict(root, deps[i].license) == Verdict::Incompatible {
            1nat
        } else {
            0nat
        }) + spec_fail_count(root, deps, i + 1)
    }
}

/// Evaluates every dependency against the root license: one verdict
/// per dependency, in order, and the count of known-incompatible
/// dependencies. The check command fails exactly when that count is
/// positive.
#[verifier::loop_isolation(false)]
pub fn check_packages(root_license: &License, deps: &Vec<PackageInfo>) -> (r: (Vec<
    Verdict,
>, usize))
    ensures
        r.0@.len() == deps@.len(),
        forall|i: int|
            0 <= i < deps@.len() ==> r.0@[i] == spec_verdict(
                root_license@,
                (#[trigger] deps@[i])@.license,
            ),
        r.1 as nat == spec_fail_count(root_license@, package_views(deps@), 0),
{
    let ghost dv = package_views(deps@);
    let mut verdicts: Vec<Verdict> = Vec::new();
    let mut fail: usize = 0;
    let mut i: usize = 0;
    while i < deps.len()
        invariant
            i <= deps@.len(),
            dv.len() == deps@.len(),
            verdicts@.len() == i,
            forall|m: int|
                0 <= m < i ==> verdicts@[m] == spec_verdict(
                    root_license@,
                    (#[trigger] deps@[m])@.license,
                ),
            fail <= i,
            spec_fail_count(root_license@, dv, 0) == fail as nat + spec_fail_count(
                root_license@,
                dv,
                i as int,
            ),
        decreases deps@.len() - i,
    {
        proof {
            assert(dv[i as int] == deps@[i as int]@);
        }
        let verdict = match root_license.can_include(&deps[i].license) {
            Some(true) => Verdict::Compatible,
            Some(false) => Verdict::Incompatible,
            None => Verdict::Unknown,
        };
        if matches!(verdict, Verdict::Incompatible) {
            fail += 1;
        }
        verdicts.push(verdict);
        i += 1;
    }
    (verdicts, fail)
}

} // verus!
