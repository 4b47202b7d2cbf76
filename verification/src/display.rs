//! Canonical rendering of licenses, the round-trip law tying the
//! renderer to the parser, and the registry of canonical reference
//! texts used by the confidence scorer.
use vstd::prelude::*;

use crate::license::{License, Lic, is_named, lic_wf};
use crate::parse::spec_parse;

verus! {

/// The canonical string for a license: the SPDX identifier for named
/// variants, the stored text for custom expressions, a human marker
/// for file references and for the absence of a license, and the
/// members joined by a separator for compound licenses.
pub open spec fn canon(l: Lic) -> Seq<char>
    decreases l, 0int,
{
    match l {
        Lic::Unlicense => "Unlicense"@,
        Lic::MIT => "MIT"@,
        Lic::X11 => "X11"@,
        Lic::BSD_2_Clause => "BSD-2-Clause"@,
        Lic::BSD_3_Clause => "BSD-3-Clause"@,
        Lic::Apache_2_0 => "Apache-2.0"@,
        Lic::LGPL_2_0 => "LGPL-2.0-only"@,
        Lic::LGPL_2_1 => "LGPL-2.1-only"@,
        Lic::LGPL_2_1Plus => "LGPL-2.1-or-later"@,
        Lic::LGPL_3_0 => "LGPL-3.0-only"@,
        Lic::LGPL_3_0Plus => "LGPL-3.0-or-later"@,
        Lic::MPL_1_1 => "MPL-1.1"@,
        Lic::MPL_2_0 => "MPL-2.0"@,
        Lic::GPL_2_0 => "GPL-2.0-only"@,
        Lic::GPL_2_0Plus => "GPL-2.0-or-later"@,
        Lic::GPL_3_0 => "GPL-3.0-only"@,
        Lic::GPL_3_0Plus => "GPL-3.0-or-later"@,
        Lic::AGPL_3_0 => "AGPL-3.0-only"@,
        Lic::AGPL_3_0Plus => "AGPL-3.0-or-later"@,
        Lic::Custom(s) => s,
        Lic::File(p) => "License specified in file ("@ + p + ")"@,
        Lic::Multiple(ls) => if ls.len() == 0 {
            Seq::empty()
        } else {
            canon(ls[0]) + canon_rest(ls, 1)
        },
        Lic::Unspecified => "No license specified"@,
    }
}

/// The members of a compound license from position `i` on, each
/// preceded by the separator.
pub open spec fn canon_rest(ls: Seq<Lic>, i: int) -> Seq<char>
    decreases ls, ls.len() - i,
{
    if i < 0 || i >= ls.len() {
        Seq::empty()
    } else {
        " / "@ + canon(ls[i]) + canon_rest(ls, i + 1)
    }
}

impl License {
    /// Renders the canonical string for this license.
    #[verifier::loop_isolation(false)]
    pub fn display_string(&self) -> (r: String)
        requires
            lic_wf(self@),
        ensures
            r@ == canon(self@),
        decreases self,
    {
        match self {
            License::Unlicense => "Unlicense".to_owned(),
            License::MIT => "MIT".to_owned(),
            License::X11 => "X11".to_owned(),
            License::BSD_2_Clause => "BSD-2-Clause".to_owned(),
            License::BSD_3_Clause => "BSD-3-Clause".to_owned(),
            License::Apache_2_0 => "Apache-2.0".to_owned(),
            License::LGPL_2_0 => "LGPL-2.0-only".to_owned(),
            License::LGPL_2_1 => "LGPL-2.1-only".to_owned(),
            License::LGPL_2_1Plus => "LGPL-2.1-or-later".to_owned(),
            License::LGPL_3_0 => "LGPL-3.0-only".to_owned(),
            License::LGPL_3_0Plus => "LGPL-3.0-or-later".to_owned(),
            License::MPL_1_1 => "MPL-1.1".to_owned(),
            License::MPL_2_0 => "MPL-2.0".to_owned(),
            License::GPL_2_0 => "GPL-2.0-only".to_owned(),
            License::GPL_2_0Plus => "GPL-2.0-or-later".to_owned(),
            License::GPL_3_0 => "GPL-3.0-only".to_owned(),
            License::GPL_3_0Plus => "GPL-3.0-or-later".to_owned(),
            License::AGPL_3_0 => "AGPL-3.0-only".to_owned(),
            License::AGPL_3_0Plus => "AGPL-3.0-or-later".to_owned(),
            License::Custom(s) => s.clone(),
            License::File(p) => {
                let mut out = "License specified in file (".to_owned();
                out.append(p.as_str());
                out.append(")");
                proof {
                    assert(out@ =~= "License specified in file ("@ + p@ + ")"@);
                }
                out
            },
            License::Multiple(ls) => {
                let ghost ms = self@->Multiple_0;
                proof {
                    assert forall|k: int| 0 <= k < ls@.len() implies #[trigger] ms[k]
                        == ls@[k]@ by {
                        assert(ms[k] == ls@[k].view_rec());
                    }
                    assert(lic_wf(ms[0]));
                    assert(*ls == self->Multiple_0);
                    assert(decreases_to!(*self => self->Multiple_0));
                    assert(decreases_to!(*ls => ls@));
                    assert(decreases_to!(ls@ => ls@[0]));
                }
                let first = &ls[0];
                let mut out = first.display_string();
                let mut j: usize = 1;
                while j < ls.len()
                    invariant
                        1 <= j <= ls.len(),
                        canon(self@) == out@ + canon_rest(ms, j as int),
                    decreases ls.len() - j,
                {
                    proof {
                        assert(lic_wf(ms[j as int]));
                        assert(*ls == self->Multiple_0);
                        assert(decreases_to!(*self => self->Multiple_0));
                        assert(decreases_to!(*ls => ls@));
                        assert(decreases_to!(ls@ => ls@[j as int]));
                    }
                    let sub = &ls[j];
                    let piece = sub.display_string();
                    out.append(" / ");
                    out.append(piece.as_str());
                    proof {
                        assert(canon(self@) =~= out@ + canon_rest(ms, j as int + 1));
                    }
                    j += 1;
                }
                proof {
                    assert(out@ + canon_rest(ms, j as int) =~= out@);
                }
                out
            },
            License::Unspecified => "No license specified".to_owned(),
        }
    }
}

/// Law: rendering a named license and parsing the result gives the
/// same license back.
pub proof fn lemma_parse_round_trip(l: Lic)
    requires
        is_named(l),
    ensures
        spec_parse(canon(l)) == l,
{
    reveal_strlit("Unlicense");
    reveal_strlit("MIT");
    reveal_strlit("X11");
    reveal_strlit("BSD-2-Clause");
    reveal_strlit("BSD-3-Clause");
    reveal_strlit("Apache-2.0");
    reveal_strlit("LGPL-2.0-only");
    reveal_strlit("LGPL-2.0");
    reveal_strlit("LGPL-2.1-only");
    reveal_strlit("LGPL-2.1");
    reveal_strlit("LGPL-2.1-or-later");
    reveal_strlit("LGPL-2.1+");
    reveal_strlit("LGPL-3.0-only");
    reveal_strlit("LGPL-3.0");
    reveal_strlit("LGPL-3.0-or-later");
    reveal_strlit("LGPL-3.0+");
    reveal_strlit("MPL-1.1");
    reveal_strlit("MPL-2.0");
    reveal_strlit("GPL-2.0-only");
    reveal_strlit("GPL-2.0");
    reveal_strlit("GPL-2.0-or-later");
    reveal_strlit("GPL-2.0+");
    reveal_strlit("GPL-3.0-only");
    reveal_strlit("GPL-3.0");
    reveal_strlit("GPL-3.0-or-later");
    reveal_strlit("GPL-3.0+");
    reveal_strlit("AGPL-3.0-only");
    reveal_strlit("AGPL-3.0");
    reveal_strlit("AGPL-3.0-or-later");
    reveal_strlit("AGPL-3.0+");
    let c = canon(l);
    assert(crate::parse::spec_trim(c) =~= c);
    assert("X11"@[0] != "MIT"@[0]);
    assert("BSD-3-Clause"@[4] != "BSD-2-Clause"@[4]);
    assert("LGPL-2.1-only"@[7] != "LGPL-2.0-only"@[7]);
    assert("LGPL-3.0-only"@[5] != "LGPL-2.0-only"@[5]);
    assert("LGPL-3.0-only"@[5] != "LGPL-2.1-only"@[5]);
    assert("LGPL-3.0-or-later"@[5] != "LGPL-2.1-or-later"@[5]);
    assert("MPL-2.0"@[4] != "MPL-1.1"@[4]);
    assert("GPL-2.0-only"@[0] != "BSD-2-Clause"@[0]);
    assert("GPL-2.0-only"@[0] != "BSD-3-Clause"@[0]);
    assert("GPL-3.0-only"@[0] != "BSD-2-Clause"@[0]);
    assert("GPL-3.0-only"@[0] != "BSD-3-Clause"@[0]);
    assert("GPL-3.0-only"@[4] != "GPL-2.0-only"@[4]);
    assert("GPL-3.0-or-later"@[4] != "GPL-2.0-or-later"@[4]);
    assert("AGPL-3.0-only"@[0] != "LGPL-2.0-only"@[0]);
    assert("AGPL-3.0-only"@[0] != "LGPL-2.1-only"@[0]);
    assert("AGPL-3.0-only"@[0] != "LGPL-3.0-only"@[0]);
    assert("AGPL-3.0-or-later"@[0] != "LGPL-2.1-or-later"@[0]);
    assert("AGPL-3.0-or-later"@[0] != "LGPL-3.0-or-later"@[0]);
    match l {
        Lic::Unlicense => assert(spec_parse(canon(l)) == l),
        Lic::MIT => assert(spec_parse(canon(l)) == l),
        Lic::X11 => assert(spec_parse(canon(l)) == l),
        Lic::BSD_2_Clause => assert(spec_parse(canon(l)) == l),
        Lic::BSD_3_Clause => assert(spec_parse(canon(l)) == l),
        Lic::Apache_2_0 => assert(spec_parse(canon(l)) == l),
        Lic::LGPL_2_0 => assert(spec_parse(canon(l)) == l),
        Lic::LGPL_2_1 => assert(spec_parse(canon(l)) == l),
        Lic::LGPL_2_1Plus => assert(spec_parse(canon(l)) == l),
        Lic::LGPL_3_0 => assert(spec_parse(canon(l)) == l),
        Lic::LGPL_3_0Plus => assert(spec_parse(canon(l)) == l),
        Lic::MPL_1_1 => assert(spec_parse(canon(l)) == l),
        Lic::MPL_2_0 => assert(spec_parse(canon(l)) == l),
        Lic::GPL_2_0 => assert(spec_parse(canon(l)) == l),
        Lic::GPL_2_0Plus => assert(spec_parse(canon(l)) == l),
        Lic::GPL_3_0 => assert(spec_parse(canon(l)) == l),
        Lic::GPL_3_0Plus => assert(spec_parse(canon(l)) == l),
        Lic::AGPL_3_0 => assert(spec_parse(canon(l)) == l),
        Lic::AGPL_3_0Plus => assert(spec_parse(canon(l)) == l),
        _ => assert(false),
    }
}

/// Law: any expression that parses to a named license re-parses from
/// its canonical rendering to that same license, so alias spellings
/// and the canonical spelling are interchangeable.
pub proof fn lemma_alias_round_trip(s: Seq<char>)
    requires
        is_named(spec_parse(s)),
    ensures
        spec_parse(canon(spec_parse(s))) == spec_parse(s),
{
    lemma_parse_round_trip(spec_parse(s));
}

} // verus!
