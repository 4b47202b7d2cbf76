//! The license model: a closed tagged union over well-known license
//! identifiers, plus custom expressions, file references, compound
//! ("this OR that") licenses, and the absence of any license, together
//! with the tri-state directed compatibility relation `can_include`.
use vstd::prelude::*;

verus! {

/// A software license, as declared by a package manifest.
///
/// The named variants are identifiers from the SPDX license list.
/// `Custom` holds an expression the engine does not understand,
/// `File` a path to a license file, `Multiple` a set of alternative
/// license terms ("A / B" dual licensing), and `Unspecified` the
/// absence of any license information.
#[allow(non_camel_case_types)]
#[derive(Debug, PartialEq, Eq)]
pub enum License {
    Unlicense,
    MIT,
    X11,
    BSD_2_Clause,
    BSD_3_Clause,
    Apache_2_0,
    LGPL_2_0,
    LGPL_2_1,
    LGPL_2_1Plus,
    LGPL_3_0,
    LGPL_3_0Plus,
    MPL_1_1,
    MPL_2_0,
    GPL_2_0,
    GPL_2_0Plus,
    GPL_3_0,
    GPL_3_0Plus,
    AGPL_3_0,
    AGPL_3_0Plus,
    Custom(String),
    File(String),
    Multiple(Vec<License>),
    Unspecified,
}

/// Mathematical model of a `License` value: the same tree with
/// strings abstracted to character sequences.
#[allow(non_camel_case_types)]
pub enum Lic {
    Unlicense,
    MIT,
    X11,
    BSD_2_Clause,
    BSD_3_Clause,
    Apache_2_0,
    LGPL_2_0,
    LGPL_2_1,
    LGPL_2_1Plus,
    LGPL_3_0,
    LGPL_3_0Plus,
    MPL_1_1,
    MPL_2_0,
    GPL_2_0,
    GPL_2_0Plus,
    GPL_3_0,
    GPL_3_0Plus,
    AGPL_3_0,
    AGPL_3_0Plus,
    Custom(Seq<char>),
    File(Seq<char>),
    Multiple(Seq<Lic>),
    Unspecified,
}

impl License {
    pub open spec fn view_rec(&self) -> Lic
        decreases self,
    {
        match self {
            License::Unlicense => Lic::Unlicense,
            License::MIT => Lic::MIT,
            License::X11 => Lic::X11,
            License::BSD_2_Clause => Lic::BSD_2_Clause,
            License::BSD_3_Clause => Lic::BSD_3_Clause,
            License::Apache_2_0 => Lic::Apache_2_0,
            License::LGPL_2_0 => Lic::LGPL_2_0,
            License::LGPL_2_1 => Lic::LGPL_2_1,
            License::LGPL_2_1Plus => Lic::LGPL_2_1Plus,
            License::LGPL_3_0 => Lic::LGPL_3_0,
            License::LGPL_3_0Plus => Lic::LGPL_3_0Plus,
            License::MPL_1_1 => Lic::MPL_1_1,
            License::MPL_2_0 => Lic::MPL_2_0,
            License::GPL_2_0 => Lic::GPL_2_0,
            License::GPL_2_0Plus => Lic::GPL_2_0Plus,
            License::GPL_3_0 => Lic::GPL_3_0,
            License::GPL_3_0Plus => Lic::GPL_3_0Plus,
            License::AGPL_3_0 => Lic::AGPL_3_0,
            License::AGPL_3_0Plus => Lic::AGPL_3_0Plus,
            License::Custom(s) => Lic::Custom(s@),
            License::File(p) => Lic::File(p@),
            License::Multiple(ls) => Lic::Multiple(
                Seq::new(
                    ls@.len(),
                    |i: int|
                        if 0 <= i < ls@.len() {
                            ls@[i].view_rec()
                        } else {
                            Lic::Unspecified
                        },
                ),
            ),
            License::Unspecified => Lic::Unspecified,
        }
    }
}

impl View for License {
    type V = Lic;

    open spec fn view(&self) -> Lic {
        self.view_rec()
    }
}

/// True for the fixed named identifiers; false for `Custom`, `File`,
/// `Multiple` and `Unspecified`.
pub open spec fn is_named(l: Lic) -> bool {
    match l {
        Lic::Custom(_) => false,
        Lic::File(_) => false,
        Lic::Multiple(_) => false,
        Lic::Unspecified => false,
        _ => true,
    }
}

/// Well-formed license trees: every compound node has at least one
/// member. The parser only builds such trees; rendering requires it.
pub open spec fn lic_wf(l: Lic) -> bool
    decreases l,
{
    match l {
        Lic::Multiple(ls) => ls.len() >= 1 && (forall|i: int|
            0 <= i < ls.len() ==> lic_wf(#[trigger] ls[i])),
        _ => true,
    }
}

/// The static directed compatibility table over named identifiers:
/// `table_allows(a, b)` says a work licensed `a` may include a
/// dependency licensed `b`. Permissive licenses are includable by
/// everything; copyleft licenses only by same-or-stronger copyleft.
/// An unspecified root accepts only the permissive group.
pub open spec fn table_allows(a: Lic, b: Lic) -> bool {
    let permissive = b == Lic::Unlicense || b == Lic::MIT || b == Lic::X11 || b
        == Lic::BSD_2_Clause || b == Lic::BSD_3_Clause;
    match a {
        Lic::Unspecified => permissive,
        Lic::LGPL_2_0 => b == Lic::LGPL_2_0,
        Lic::Unlicense => permissive,
        Lic::MIT => permissive,
        Lic::X11 => permissive,
        Lic::BSD_2_Clause => permissive,
        Lic::BSD_3_Clause => permissive,
        Lic::Apache_2_0 => permissive || b == Lic::Apache_2_0,
        Lic::MPL_1_1 => permissive || b == Lic::MPL_1_1,
        Lic::MPL_2_0 => permissive || b == Lic::Apache_2_0 || b == Lic::MPL_2_0,
        Lic::LGPL_2_1Plus => permissive || b == Lic::MPL_2_0 || b == Lic::LGPL_2_1Plus,
        Lic::LGPL_2_1 => permissive || b == Lic::MPL_2_0 || b == Lic::LGPL_2_1Plus || b
            == Lic::LGPL_2_1,
        Lic::LGPL_3_0Plus => permissive || b == Lic::MPL_2_0 || b == Lic::Apache_2_0 || b
            == Lic::LGPL_2_1Plus || b == Lic::LGPL_3_0Plus,
        Lic::LGPL_3_0 => permissive || b == Lic::MPL_2_0 || b == Lic::Apache_2_0 || b
            == Lic::LGPL_2_1Plus || b == Lic::LGPL_3_0Plus || b == Lic::LGPL_3_0,
        Lic::GPL_2_0Plus => permissive || b == Lic::MPL_2_0 || b == Lic::LGPL_2_1Plus || b
            == Lic::LGPL_2_1 || b == Lic::GPL_2_0Plus,
        Lic::GPL_2_0 => permissive || b == Lic::MPL_2_0 || b == Lic::LGPL_2_1Plus || b
            == Lic::LGPL_2_1 || b == Lic::GPL_2_0Plus || b == Lic::GPL_2_0,
        Lic::GPL_3_0Plus => permissive || b == Lic::MPL_2_0 || b == Lic::Apache_2_0 || b
            == Lic::LGPL_2_1Plus || b == Lic::LGPL_2_1 || b == Lic::GPL_2_0Plus || b
            == Lic::GPL_3_0Plus,
        Lic::GPL_3_0 => permissive || b == Lic::MPL_2_0 || b == Lic::Apache_2_0 || b
            == Lic::LGPL_2_1Plus || b == Lic::LGPL_2_1 || b == Lic::GPL_2_0Plus || b
            == Lic::GPL_3_0Plus || b == Lic::GPL_3_0,
        Lic::AGPL_3_0Plus => permissive || b == Lic::MPL_2_0 || b == Lic::Apache_2_0 || b
            == Lic::LGPL_2_1Plus || b == Lic::LGPL_2_1 || b == Lic::GPL_2_0Plus || b
            == Lic::GPL_3_0Plus || b == Lic::GPL_3_0 || b == Lic::AGPL_3_0Plus,
        Lic::AGPL_3_0 => permissive || b == Lic::MPL_2_0 || b == Lic::Apache_2_0 || b
            == Lic::LGPL_2_1Plus || b == Lic::LGPL_2_1 || b == Lic::GPL_2_0Plus || b
            == Lic::GPL_3_0Plus || b == Lic::GPL_3_0 || b == Lic::AGPL_3_0Plus || b
            == Lic::AGPL_3_0,
        _ => false,
    }
}

/// The tri-state compatibility relation: may a work licensed `a`
/// include a dependency licensed `b`? `Some(true)` means known
/// compatible, `Some(false)` known incompatible, `None` undecidable.
pub open spec fn spec_can_include(a: Lic, b: Lic) -> Option<bool>
    decreases a, b, 1int, 0int,
{
    if b == Lic::Unspecified {
        Some(false)
    } else if a is Custom || b is Custom || a is File || b is File {
        None
    } else if a is Multiple {
        all_include(a->Multiple_0, b, 0)
    } else if b is Multiple {
        any_include(a, b->Multiple_0, 0, false)
    } else if a == Lic::LGPL_2_0 || b == Lic::LGPL_2_0 {
        None
    } else if table_allows(a, b) {
        Some(true)
    } else {
        Some(false)
    }
}

/// The conservative rule for a compound license on the including
/// side: every alternative must individually permit the inclusion.
/// The scan stops at the first `Some(false)` or `None`.
pub open spec fn all_include(ls: Seq<Lic>, b: Lic, i: int) -> Option<bool>
    decreases ls, b, 0int, ls.len() - i,
{
    if i < 0 || i >= ls.len() {
        Some(true)
    } else {
        match spec_can_include(ls[i], b) {
            Some(true) => all_include(ls, b, i + 1),
            Some(false) => Some(false),
            None => None,
        }
    }
}

/// The permissive rule for a compound license on the included side:
/// the dependency may be used under whichever alternative is
/// convenient, so the first alternative known to be includable
/// decides; otherwise any undecidable alternative makes the whole
/// undecidable.
pub open spec fn any_include(a: Lic, ls: Seq<Lic>, i: int, seen_none: bool) -> Option<bool>
    decreases a, ls, 0int, ls.len() - i,
{
    if i < 0 || i >= ls.len() {
        if seen_none {
            None
        } else {
            Some(false)
        }
    } else {
        match spec_can_include(a, ls[i]) {
            Some(true) => Some(true),
            Some(false) => any_include(a, ls, i + 1, seen_none),
            None => any_include(a, ls, i + 1, true),
        }
    }
}

impl License {
    /// The table lookup for two named identifiers.
    fn allows(&self, other: &License) -> (r: bool)
        requires
            is_named(self@) || self@ == Lic::Unspecified,
            is_named(other@),
        ensures
            r == table_allows(self@, other@),
    {
        let permissive = matches!(
            other,
            License::Unlicense
                | License::MIT
                | License::X11
                | License::BSD_2_Clause
                | License::BSD_3_Clause
        );
        match self {
            License::Unlicense | License::MIT | License::X11 => permissive,
            License::BSD_2_Clause | License::BSD_3_Clause => permissive,
            License::Apache_2_0 => permissive || matches!(other, License::Apache_2_0),
            License::LGPL_2_0 => matches!(other, License::LGPL_2_0),
            License::MPL_1_1 => permissive || matches!(other, License::MPL_1_1),
            License::MPL_2_0 => permissive || matches!(
                other,
                License::Apache_2_0 | License::MPL_2_0
            ),
            License::LGPL_2_1Plus => permissive || matches!(
                other,
                License::MPL_2_0 | License::LGPL_2_1Plus
            ),
            License::LGPL_2_1 => permissive || matches!(
                other,
                License::MPL_2_0 | License::LGPL_2_1Plus | License::LGPL_2_1
            ),
            License::LGPL_3_0Plus => permissive || matches!(
                other,
                License::MPL_2_0 | License::Apache_2_0 | License::LGPL_2_1Plus
                    | License::LGPL_3_0Plus
            ),
            License::LGPL_3_0 => permissive || matches!(
                other,
                License::MPL_2_0 | License::Apache_2_0 | License::LGPL_2_1Plus
                    | License::LGPL_3_0Plus | License::LGPL_3_0
            ),
            License::GPL_2_0Plus => permissive || matches!(
                other,
                License::MPL_2_0 | License::LGPL_2_1Plus | License::LGPL_2_1
                    | License::GPL_2_0Plus
            ),
            License::GPL_2_0 => permissive || matches!(
                other,
                License::MPL_2_0 | License::LGPL_2_1Plus | License::LGPL_2_1
                    | License::GPL_2_0Plus | License::GPL_2_0
            ),
            License::GPL_3_0Plus => permissive || matches!(
                other,
                License::MPL_2_0 | License::Apache_2_0 | License::LGPL_2_1Plus
                    | License::LGPL_2_1 | License::GPL_2_0Plus | License::GPL_3_0Plus
            ),
            License::GPL_3_0 => permissive || matches!(
                other,
                License::MPL_2_0 | License::Apache_2_0 | License::LGPL_2_1Plus
                    | License::LGPL_2_1 | License::GPL_2_0Plus | License::GPL_3_0Plus
                    | License::GPL_3_0
            ),
            License::AGPL_3_0Plus => permissive || matches!(
                other,
                License::MPL_2_0 | License::Apache_2_0 | License::LGPL_2_1Plus
                    | License::LGPL_2_1 | License::GPL_2_0Plus | License::GPL_3_0Plus
                    | License::GPL_3_0 | License::AGPL_3_0Plus
            ),
            License::AGPL_3_0 => permissive || matches!(
                other,
                License::MPL_2_0 | License::Apache_2_0 | License::LGPL_2_1Plus
                    | License::LGPL_2_1 | License::GPL_2_0Plus | License::GPL_3_0Plus
                    | License::GPL_3_0 | License::AGPL_3_0Plus | License::AGPL_3_0
            ),
            License::Unspecified => permissive,
            License::Custom(_) | License::File(_) | License::Multiple(_) => false,
        }
    }

    /// Asks whether a work licensed `self` may legally incorporate a
    /// dependency licensed `other`: `Some(true)` for known
    /// compatible, `Some(false)` for known incompatible, `None` when
    /// the question is undecidable with the engine's knowledge.
    #[verifier::loop_isolation(false)]
    pub fn can_include(&self, other: &License) -> (r: Option<bool>)
        ensures
            r == spec_can_include(self@, other@),
        decreases self, other,
    {
        if matches!(other, License::Unspecified) {
            return Some(false);
        }
        if matches!(self, License::Custom(_)) || matches!(other, License::Custom(_)) {
            return None;
        }
        if matches!(self, License::File(_)) || matches!(other, License::File(_)) {
            return None;
        }
        if let License::Multiple(ls) = self {
            let ghost ms = self@->Multiple_0;
            proof {
                assert forall|k: int| 0 <= k < ls@.len() implies #[trigger] ms[k] == ls@[k]@ by {
                    assert(ms[k] == ls@[k].view_rec());
                }
            }
            let mut j: usize = 0;
            while j < ls.len()
                invariant
                    j <= ls.len(),
                    all_include(ms, other@, 0) == all_include(ms, other@, j as int),
                decreases ls.len() - j,
            {
                let sub = &ls[j];
                proof {
                    assert(*ls == self->Multiple_0);
                    assert(decreases_to!(*self => self->Multiple_0));
                    assert(decreases_to!(*ls => ls@));
                    assert(decreases_to!(ls@ => ls@[j as int]));
                }
                match sub.can_include(other) {
                    Some(true) => {},
                    Some(false) => {
                        return Some(false);
                    },
                    None => {
                        return None;
                    },
                }
                j += 1;
            }
            return Some(true);
        }
        if let License::Multiple(ls) = other {
            let ghost ms = other@->Multiple_0;
            proof {
                assert forall|k: int| 0 <= k < ls@.len() implies #[trigger] ms[k] == ls@[k]@ by {
                    assert(ms[k] == ls@[k].view_rec());
                }
            }
            let mut seen_none = false;
            let mut j: usize = 0;
            while j < ls.len()
                invariant
                    j <= ls.len(),
                    any_include(self@, ms, 0, false) == any_include(
                        self@,
                        ms,
                        j as int,
                        seen_none,
                    ),
                decreases ls.len() - j,
            {
                let sub = &ls[j];
                proof {
                    assert(*ls == other->Multiple_0);
                    assert(decreases_to!(*other => other->Multiple_0));
                    assert(decreases_to!(*ls => ls@));
                    assert(decreases_to!(ls@ => ls@[j as int]));
                }
                match self.can_include(sub) {
                    Some(true) => {
                        return Some(true);
                    },
                    Some(false) => {},
                    None => {
                        seen_none = true;
                    },
                }
                j += 1;
            }
            return if seen_none {
                None
            } else {
                Some(false)
            };
        }
        if matches!(self, License::LGPL_2_0) || matches!(other, License::LGPL_2_0) {
            return None;
        }
        if self.allows(other) {
            Some(true)
        } else {
            Some(false)
        }
    }
}

impl Default for License {
    /// The absence of license information is the default.
    fn default() -> (r: License)
        ensures
            r@ == Lic::Unspecified,
    {
        License::Unspecified
    }
}

/// Law: no license may ever include a dependency with no license
/// information at all, whatever the including side is.
pub proof fn lemma_unspecified_never_includable(l: Lic)
    ensures
        spec_can_include(l, Lic::Unspecified) == Some(false),
{
}

/// Law: a custom license expression is never decidable, on either
/// side, except against an unspecified dependency (which is always
/// rejected outright).
pub proof fn lemma_custom_undecidable(l: Lic, s: Seq<char>)
    ensures
        l != Lic::Unspecified ==> spec_can_include(Lic::Custom(s), l) == None::<bool>,
        spec_can_include(l, Lic::Custom(s)) == None::<bool>,
{
}

/// Law (all-must-accept): a compound license on the including side
/// rejects a dependency as soon as one of its alternatives, scanned
/// in order after only accepting alternatives, rejects it.
pub proof fn lemma_multiple_includer_rejects(ls: Seq<Lic>, other: Lic, i: int)
    requires
        0 <= i < ls.len(),
        spec_can_include(ls[i], other) == Some(false),
        forall|j: int| 0 <= j < i ==> spec_can_include(#[trigger] ls[j], other) == Some(true),
    ensures
        spec_can_include(Lic::Multiple(ls), other) == Some(false),
{
    if other == Lic::Unspecified {
    } else {
        assert(!(other is Custom) && !(other is File)) by {
            if other is Custom || other is File {
                assert(spec_can_include(ls[i], other) == None::<bool>);
            }
        }
        lemma_all_include_scan(ls, other, 0, i);
    }
}

/// Law (all-must-accept, positive direction): if every alternative of
/// a compound including license individually permits the dependency,
/// the compound permits it.
pub proof fn lemma_multiple_includer_accepts(ls: Seq<Lic>, other: Lic)
    requires
        other != Lic::Unspecified,
        !(other is Custom),
        !(other is File),
        forall|j: int| 0 <= j < ls.len() ==> spec_can_include(#[trigger] ls[j], other) == Some(
            true,
        ),
    ensures
        spec_can_include(Lic::Multiple(ls), other) == Some(true),
{
    lemma_all_include_all_true(ls, other, 0);
}

proof fn lemma_all_include_scan(ls: Seq<Lic>, other: Lic, j: int, i: int)
    requires
        0 <= j <= i < ls.len(),
        spec_can_include(ls[i], other) == Some(false),
        forall|k: int| j <= k < i ==> spec_can_include(#[trigger] ls[k], other) == Some(true),
    ensures
        all_include(ls, other, j) == Some(false),
    decreases i - j,
{
    if j < i {
        lemma_all_include_scan(ls, other, j + 1, i);
    }
}

proof fn lemma_all_include_all_true(ls: Seq<Lic>, other: Lic, j: int)
    requires
        0 <= j <= ls.len(),
        forall|k: int| j <= k < ls.len() ==> spec_can_include(#[trigger] ls[k], other) == Some(
            true,
        ),
    ensures
        all_include(ls, other, j) == Some(true),
    decreases ls.len() - j,
{
    if j < ls.len() {
        lemma_all_include_all_true(ls, other, j + 1);
    }
}

/// Law (any-acceptable): a simple license may include a compound
/// dependency as soon as one of the dependency's alternatives is
/// known includable, whatever the other alternatives say.
pub proof fn lemma_multiple_included_any(a: Lic, ls: Seq<Lic>, i: int)
    requires
        !(a is Custom),
        !(a is File),
        !(a is Multiple),
        0 <= i < ls.len(),
        spec_can_include(a, ls[i]) == Some(true),
    ensures
        spec_can_include(a, Lic::Multiple(ls)) == Some(true),
{
    assert(!(a is Custom) && !(a is File));
    lemma_any_include_hit(a, ls, 0, i, false);
}

proof fn lemma_any_include_hit(a: Lic, ls: Seq<Lic>, j: int, i: int, seen_none: bool)
    requires
        0 <= j <= i < ls.len(),
        spec_can_include(a, ls[i]) == Some(true),
    ensures
        any_include(a, ls, j, seen_none) == Some(true),
    decreases i - j,
{
    if j < i {
        match spec_can_include(a, ls[j]) {
            Some(true) => {},
            Some(false) => {
                lemma_any_include_hit(a, ls, j + 1, i, seen_none);
            },
            None => {
                lemma_any_include_hit(a, ls, j + 1, i, true);
            },
        }
    }
}

} // verus!
