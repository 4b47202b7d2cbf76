//! Parsing of free-form license expression strings into `License`
//! values. Recognized tokens (including legacy alias spellings) map
//! to named variants; an expression containing a separator (`/` or
//! ` OR `) is split and becomes a compound license with its members
//! in canonical order; anything else becomes a custom expression.
//! Parsing never fails.
use vstd::prelude::*;

use crate::license::{License, Lic, is_named};

verus! {

/// The Unicode `White_Space` characters, as trimmed from the ends of
/// an expression.
pub open spec fn is_ws(c: char) -> bool {
    c == '\u{9}' || c == '\u{A}' || c == '\u{B}' || c == '\u{C}' || c == '\u{D}' || c == ' '
        || c == '\u{85}' || c == '\u{A0}' || c == '\u{1680}' || c == '\u{2000}' || c
        == '\u{2001}' || c == '\u{2002}' || c == '\u{2003}' || c == '\u{2004}' || c == '\u{2005}'
        || c == '\u{2006}' || c == '\u{2007}' || c == '\u{2008}' || c == '\u{2009}' || c
        == '\u{200A}' || c == '\u{2028}' || c == '\u{2029}' || c == '\u{202F}' || c == '\u{205F}'
        || c == '\u{3000}'
}

/// Index of the first non-whitespace character at or after `i`.
pub open spec fn ws_prefix(s: Seq<char>, i: int) -> int
    decreases s.len() - i,
{
    if i < 0 || i >= s.len() {
        i
    } else if is_ws(s[i]) {
        ws_prefix(s, i + 1)
    } else {
        i
    }
}

/// Index just past the last non-whitespace character at or before
/// `i - 1`.
pub open spec fn ws_suffix(s: Seq<char>, i: int) -> int
    decreases i,
{
    if i <= 0 || i > s.len() {
        i
    } else if is_ws(s[i - 1]) {
        ws_suffix(s, i - 1)
    } else {
        i
    }
}

/// The expression with leading and trailing whitespace removed.
pub open spec fn spec_trim(s: Seq<char>) -> Seq<char> {
    let lo = ws_prefix(s, 0);
    let hi = ws_suffix(s, s.len() as int);
    if lo <= hi {
        s.subrange(lo, hi)
    } else {
        Seq::empty()
    }
}

/// The recognized license tokens, including legacy alias spellings
/// (`GPL-2.0` parses the same as `GPL-2.0-only`).
pub open spec fn token_lic(s: Seq<char>) -> Option<Lic> {
    if s == "Unlicense"@ {
        Some(Lic::Unlicense)
    } else if s == "MIT"@ {
        Some(Lic::MIT)
    } else if s == "X11"@ {
        Some(Lic::X11)
    } else if s == "BSD-2-Clause"@ {
        Some(Lic::BSD_2_Clause)
    } else if s == "BSD-3-Clause"@ {
        Some(Lic::BSD_3_Clause)
    } else if s == "Apache-2.0"@ {
        Some(Lic::Apache_2_0)
    } else if s == "LGPL-2.0-only"@ || s == "LGPL-2.0"@ {
        Some(Lic::LGPL_2_0)
    } else if s == "LGPL-2.1-only"@ || s == "LGPL-2.1"@ {
        Some(Lic::LGPL_2_1)
    } else if s == "LGPL-2.1-or-later"@ || s == "LGPL-2.1+"@ {
        Some(Lic::LGPL_2_1Plus)
    } else if s == "LGPL-3.0-only"@ || s == "LGPL-3.0"@ {
        Some(Lic::LGPL_3_0)
    } else if s == "LGPL-3.0-or-later"@ || s == "LGPL-3.0+"@ {
        Some(Lic::LGPL_3_0Plus)
    } else if s == "MPL-1.1"@ {
        Some(Lic::MPL_1_1)
    } else if s == "MPL-2.0"@ {
        Some(Lic::MPL_2_0)
    } else if s == "GPL-2.0-only"@ || s == "GPL-2.0"@ {
        Some(Lic::GPL_2_0)
    } else if s == "GPL-2.0-or-later"@ || s == "GPL-2.0+"@ {
        Some(Lic::GPL_2_0Plus)
    } else if s == "GPL-3.0-only"@ || s == "GPL-3.0"@ {
        Some(Lic::GPL_3_0)
    } else if s == "GPL-3.0-or-later"@ || s == "GPL-3.0+"@ {
        Some(Lic::GPL_3_0Plus)
    } else if s == "AGPL-3.0-only"@ || s == "AGPL-3.0"@ {
        Some(Lic::AGPL_3_0)
    } else if s == "AGPL-3.0-or-later"@ || s == "AGPL-3.0+"@ {
        Some(Lic::AGPL_3_0Plus)
    } else {
        None
    }
}

/// A named identifier or a custom expression: what parsing a single
/// separator-free term can produce.
pub open spec fn is_atom(l: Lic) -> bool {
    is_named(l) || l is Custom
}

/// Parsing of one separator-free term: trim, then a recognized token
/// or a custom expression.
pub open spec fn parse_atom_spec(p: Seq<char>) -> Lic {
    let t = spec_trim(p);
    match token_lic(t) {
        Some(l) => l,
        None => Lic::Custom(t),
    }
}

/// Whether the four characters at `i` spell the ` OR ` separator.
pub open spec fn or_at(s: Seq<char>, i: int) -> bool {
    &&& 0 <= i
    &&& i + 4 <= s.len()
    &&& s[i] == ' '
    &&& s[i + 1] == 'O'
    &&& s[i + 2] == 'R'
    &&& s[i + 3] == ' '
}

/// Splits at every `/` and at every (leftmost, non-overlapping)
/// ` OR ` separator, scanning from position `i`.
pub open spec fn split_from(s: Seq<char>, i: int) -> Seq<Seq<char>>
    decreases s.len(), s.len() - i,
{
    if i < 0 || i >= s.len() {
        seq![s]
    } else if s[i] == '/' {
        seq![s.take(i)] + split_from(s.skip(i + 1), 0)
    } else if or_at(s, i) {
        seq![s.take(i)] + split_from(s.skip(i + 4), 0)
    } else {
        split_from(s, i + 1)
    }
}

/// Rank of each variant in the canonical member order of a compound
/// license (declaration order of the variants).
pub open spec fn lic_rank(l: Lic) -> int {
    match l {
        Lic::Unlicense => 0,
        Lic::MIT => 1,
        Lic::X11 => 2,
        Lic::BSD_2_Clause => 3,
        Lic::BSD_3_Clause => 4,
        Lic::Apache_2_0 => 5,
        Lic::LGPL_2_0 => 6,
        Lic::LGPL_2_1 => 7,
        Lic::LGPL_2_1Plus => 8,
        Lic::LGPL_3_0 => 9,
        Lic::LGPL_3_0Plus => 10,
        Lic::MPL_1_1 => 11,
        Lic::MPL_2_0 => 12,
        Lic::GPL_2_0 => 13,
        Lic::GPL_2_0Plus => 14,
        Lic::GPL_3_0 => 15,
        Lic::GPL_3_0Plus => 16,
        Lic::AGPL_3_0 => 17,
        Lic::AGPL_3_0Plus => 18,
        Lic::Custom(_) => 19,
        Lic::File(_) => 20,
        Lic::Multiple(_) => 21,
        Lic::Unspecified => 22,
    }
}

/// Lexicographic order on character sequences, by code point.
pub open spec fn chars_le(a: Seq<char>, b: Seq<char>) -> bool
    decreases a.len(),
{
    if a.len() == 0 {
        true
    } else if b.len() == 0 {
        false
    } else if a[0] != b[0] {
        (a[0] as int) < (b[0] as int)
    } else {
        chars_le(a.drop_first(), b.drop_first())
    }
}

/// The canonical order on parsed terms: by variant rank, custom
/// expressions among themselves by their text.
pub open spec fn atom_le(a: Lic, b: Lic) -> bool {
    if lic_rank(a) != lic_rank(b) {
        lic_rank(a) < lic_rank(b)
    } else {
        match (a, b) {
            (Lic::Custom(x), Lic::Custom(y)) => chars_le(x, y),
            _ => true,
        }
    }
}

/// Inserts `x` into an already sorted sequence, after every element
/// that compares at or below it.
pub open spec fn insert_sorted(x: Lic, s: Seq<Lic>) -> Seq<Lic>
    decreases s.len(),
{
    if s.len() == 0 {
        seq![x]
    } else if atom_le(s[0], x) {
        seq![s[0]] + insert_sorted(x, s.drop_first())
    } else {
        seq![x] + s
    }
}

/// Sorts the members of a compound license into the canonical order
/// by repeated insertion.
pub open spec fn sort_atoms(ps: Seq<Lic>) -> Seq<Lic>
    decreases ps.len(),
{
    if ps.len() == 0 {
        Seq::empty()
    } else {
        insert_sorted(ps.last(), sort_atoms(ps.drop_last()))
    }
}

proof fn lemma_chars_le_total(a: Seq<char>, b: Seq<char>)
    ensures
        chars_le(a, b) || chars_le(b, a),
    decreases a.len(),
{
    if a.len() > 0 && b.len() > 0 && a[0] == b[0] {
        lemma_chars_le_total(a.drop_first(), b.drop_first());
    }
}

proof fn lemma_chars_le_antisym(a: Seq<char>, b: Seq<char>)
    requires
        chars_le(a, b),
        chars_le(b, a),
    ensures
        a =~= b,
    decreases a.len(),
{
    if a.len() > 0 && b.len() > 0 && a[0] == b[0] {
        lemma_chars_le_antisym(a.drop_first(), b.drop_first());
        assert forall|i: int| 0 <= i < a.len() implies a[i] == b[i] by {
            if i > 0 {
                assert(a.drop_first()[i - 1] == b.drop_first()[i - 1]);
            }
        }
    }
}

proof fn lemma_chars_le_trans(a: Seq<char>, b: Seq<char>, c: Seq<char>)
    requires
        chars_le(a, b),
        chars_le(b, c),
    ensures
        chars_le(a, c),
    decreases a.len(),
{
    if a.len() > 0 && b.len() > 0 && c.len() > 0 && a[0] == b[0] && b[0] == c[0] {
        lemma_chars_le_trans(a.drop_first(), b.drop_first(), c.drop_first());
    }
}

proof fn lemma_atom_le_total(a: Lic, b: Lic)
    ensures
        atom_le(a, b) || atom_le(b, a),
{
    if lic_rank(a) == lic_rank(b) {
        if a is Custom && b is Custom {
            lemma_chars_le_total(a->Custom_0, b->Custom_0);
        }
    }
}

proof fn lemma_atom_le_antisym(a: Lic, b: Lic)
    requires
        is_atom(a),
        is_atom(b),
        atom_le(a, b),
        atom_le(b, a),
    ensures
        a == b,
{
    if a is Custom && b is Custom {
        lemma_chars_le_antisym(a->Custom_0, b->Custom_0);
    }
}

proof fn lemma_atom_le_trans(a: Lic, b: Lic, c: Lic)
    requires
        atom_le(a, b),
        atom_le(b, c),
    ensures
        atom_le(a, c),
{
    if lic_rank(a) == lic_rank(b) && lic_rank(b) == lic_rank(c) && a is Custom && b is Custom
        && c is Custom {
        lemma_chars_le_trans(a->Custom_0, b->Custom_0, c->Custom_0);
    }
}

/// A member list in the canonical order.
pub open spec fn atoms_sorted(s: Seq<Lic>) -> bool {
    forall|i: int, j: int| 0 <= i < j < s.len() ==> atom_le(#[trigger] s[i], #[trigger] s[j])
}

proof fn lemma_insert_sorted_order(x: Lic, s: Seq<Lic>)
    requires
        atoms_sorted(s),
    ensures
        atoms_sorted(insert_sorted(x, s)),
        insert_sorted(x, s).to_multiset() =~= s.to_multiset().insert(x),
    decreases s.len(),
{
    broadcast use vstd::seq_lib::group_to_multiset_ensures;

    if s.len() == 0 {
        assert(insert_sorted(x, s) =~= Seq::<Lic>::empty().push(x));
    } else if atom_le(s[0], x) {
        let d = s.drop_first();
        assert forall|i: int, j: int|
            0 <= i < j < d.len() implies atom_le(#[trigger] d[i], #[trigger] d[j]) by {
            assert(d[i] == s[i + 1] && d[j] == s[j + 1]);
        }
        lemma_insert_sorted_order(x, d);
        let r = insert_sorted(x, s);
        let ri = insert_sorted(x, d);
        assert(r == seq![s[0]] + ri);
        assert(r =~= ri.insert(0, s[0]));
        assert(r.drop_first() =~= ri);
        assert(r.to_multiset() =~= ri.to_multiset().insert(s[0]));
        assert(s.to_multiset() =~= d.to_multiset().insert(s[0])) by {
            assert(s =~= d.insert(0, s[0]));
            assert(s.drop_first() =~= d);
        }
        assert forall|i: int, j: int|
            0 <= i < j < r.len() implies atom_le(#[trigger] r[i], #[trigger] r[j]) by {
            if i == 0 {
                assert(r[j] == ri[j - 1]);
                assert(ri.contains(ri[j - 1]));
                assert(ri.to_multiset().count(ri[j - 1]) > 0);
                if ri[j - 1] == x {
                } else {
                    assert(d.to_multiset().count(ri[j - 1]) > 0);
                    assert(d.contains(ri[j - 1]));
                    let w = choose|w: int| 0 <= w < d.len() && d[w] == ri[j - 1];
                    assert(atom_le(s[0], s[w + 1]));
                }
            } else {
                assert(r[i] == ri[i - 1] && r[j] == ri[j - 1]);
            }
        }
    } else {
        lemma_atom_le_total(s[0], x);
        let r = insert_sorted(x, s);
        assert(r == seq![x] + s);
        assert(r =~= s.insert(0, x));
        assert(r.drop_first() =~= s);
        assert(r.to_multiset() =~= s.to_multiset().insert(x));
        assert forall|i: int, j: int|
            0 <= i < j < r.len() implies atom_le(#[trigger] r[i], #[trigger] r[j]) by {
            if i == 0 {
                if j > 1 {
                    lemma_atom_le_trans(x, s[0], s[j - 1]);
                }
            } else {
                assert(r[i] == s[i - 1] && r[j] == s[j - 1]);
            }
        }
    }
}

proof fn lemma_sort_atoms_order(ps: Seq<Lic>)
    ensures
        atoms_sorted(sort_atoms(ps)),
        sort_atoms(ps).to_multiset() =~= ps.to_multiset(),
    decreases ps.len(),
{
    broadcast use vstd::seq_lib::group_to_multiset_ensures;

    if ps.len() > 0 {
        let d = ps.drop_last();
        lemma_sort_atoms_order(d);
        lemma_insert_sorted_order(ps.last(), sort_atoms(d));
        assert(d.push(ps.last()) =~= ps);
        assert(ps.to_multiset() =~= d.to_multiset().insert(ps.last()));
    }
}

proof fn lemma_sorted_unique(s1: Seq<Lic>, s2: Seq<Lic>)
    requires
        atoms_sorted(s1),
        atoms_sorted(s2),
        forall|i: int| 0 <= i < s1.len() ==> is_atom(#[trigger] s1[i]),
        forall|i: int| 0 <= i < s2.len() ==> is_atom(#[trigger] s2[i]),
        s1.to_multiset() == s2.to_multiset(),
    ensures
        s1 =~= s2,
    decreases s1.len(),
{
    broadcast use vstd::seq_lib::group_to_multiset_ensures;

    if s1.len() == 0 {
        assert(s2.to_multiset().len() == 0);
    } else {
        assert(s1.to_multiset().len() == s1.len());
        assert(s2.to_multiset().len() == s2.len());
        assert(s2.len() > 0);
        assert(s2.to_multiset().count(s1[0]) > 0) by {
            assert(s1.contains(s1[0]));
        }
        assert(s2.contains(s1[0]));
        assert(s1.to_multiset().count(s2[0]) > 0) by {
            assert(s2.contains(s2[0]));
        }
        assert(s1.contains(s2[0]));
        let w2 = choose|w: int| 0 <= w < s2.len() && s2[w] == s1[0];
        let w1 = choose|w: int| 0 <= w < s1.len() && s1[w] == s2[0];
        assert(atom_le(s2[0], s1[0])) by {
            if w2 > 0 {
                assert(atom_le(s2[0], s2[w2]));
            } else {
                lemma_atom_le_total(s2[0], s1[0]);
            }
        }
        assert(atom_le(s1[0], s2[0])) by {
            if w1 > 0 {
                assert(atom_le(s1[0], s1[w1]));
            } else {
                lemma_atom_le_total(s1[0], s2[0]);
            }
        }
        lemma_atom_le_antisym(s1[0], s2[0]);
        let d1 = s1.drop_first();
        let d2 = s2.drop_first();
        assert(d1.to_multiset() =~= s1.to_multiset().remove(s1[0])) by {
            assert(s1.remove(0) =~= d1);
        }
        assert(d2.to_multiset() =~= s2.to_multiset().remove(s2[0])) by {
            assert(s2.remove(0) =~= d2);
        }
        assert forall|i: int, j: int|
            0 <= i < j < d1.len() implies atom_le(#[trigger] d1[i], #[trigger] d1[j]) by {
            assert(d1[i] == s1[i + 1] && d1[j] == s1[j + 1]);
        }
        assert forall|i: int, j: int|
            0 <= i < j < d2.len() implies atom_le(#[trigger] d2[i], #[trigger] d2[j]) by {
            assert(d2[i] == s2[i + 1] && d2[j] == s2[j + 1]);
        }
        assert forall|i: int| 0 <= i < d1.len() implies is_atom(#[trigger] d1[i]) by {
            assert(d1[i] == s1[i + 1]);
        }
        assert forall|i: int| 0 <= i < d2.len() implies is_atom(#[trigger] d2[i]) by {
            assert(d2[i] == s2[i + 1]);
        }
        lemma_sorted_unique(d1, d2);
        assert forall|i: int| 0 <= i < s1.len() implies s1[i] == s2[i] by {
            if i > 0 {
                assert(d1[i - 1] == d2[i - 1]);
            }
        }
    }
}

/// Law: the canonical member order depends only on which members a
/// compound license has, not on the order they were written in, so
/// two syntactically different but semantically equal expressions
/// produce the same compound license.
pub proof fn lemma_sort_atoms_canonical(ps1: Seq<Lic>, ps2: Seq<Lic>)
    requires
        forall|i: int| 0 <= i < ps1.len() ==> is_atom(#[trigger] ps1[i]),
        forall|i: int| 0 <= i < ps2.len() ==> is_atom(#[trigger] ps2[i]),
        ps1.to_multiset() == ps2.to_multiset(),
    ensures
        sort_atoms(ps1) == sort_atoms(ps2),
{
    lemma_sort_atoms_order(ps1);
    lemma_sort_atoms_order(ps2);
    lemma_sort_atoms_props(ps1);
    lemma_sort_atoms_props(ps2);
    lemma_sorted_unique(sort_atoms(ps1), sort_atoms(ps2));
}

/// The meaning of parsing a full license expression: trim, then a
/// recognized token; otherwise split at separators into a compound
/// license with canonically ordered members; otherwise a custom
/// expression. Parsing never fails.
pub open spec fn spec_parse(s: Seq<char>) -> Lic {
    let t = spec_trim(s);
    match token_lic(t) {
        Some(l) => l,
        None => {
            let parts = split_from(t, 0);
            if parts.len() >= 2 {
                Lic::Multiple(sort_atoms(parts.map_values(|p: Seq<char>| parse_atom_spec(p))))
            } else {
                Lic::Custom(t)
            }
        },
    }
}

/// The models of a sequence of licenses.
pub open spec fn lic_views(s: Seq<License>) -> Seq<Lic> {
    s.map_values(|l: License| l@)
}

pub(crate) fn eq_str(a: &str, b: &str) -> (r: bool)
    ensures
        r == (a@ == b@),
{
    let sa = a.to_owned();
    let sb = b.to_owned();
    sa == sb
}

fn is_ws_char(c: char) -> (r: bool)
    ensures
        r == is_ws(c),
{
    c == '\u{9}' || c == '\u{A}' || c == '\u{B}' || c == '\u{C}' || c == '\u{D}' || c == ' '
        || c == '\u{85}' || c == '\u{A0}' || c == '\u{1680}' || c == '\u{2000}' || c
        == '\u{2001}' || c == '\u{2002}' || c == '\u{2003}' || c == '\u{2004}' || c == '\u{2005}'
        || c == '\u{2006}' || c == '\u{2007}' || c == '\u{2008}' || c == '\u{2009}' || c
        == '\u{200A}' || c == '\u{2028}' || c == '\u{2029}' || c == '\u{202F}' || c == '\u{205F}'
        || c == '\u{3000}'
}

/// The char-index bounds of the trimmed middle of `s`.
#[verifier::loop_isolation(false)]
fn trim_bounds(s: &str) -> (r: (usize, usize))
    ensures
        r.0 == ws_prefix(s@, 0),
        r.1 == ws_suffix(s@, s@.len() as int),
        r.0 <= s@.len(),
        0 <= r.1 <= s@.len(),
{
    let n = s.unicode_len();
    let mut lo: usize = 0;
    while lo < n && is_ws_char(s.get_char(lo))
        invariant
            0 <= lo <= n,
            ws_prefix(s@, 0) == ws_prefix(s@, lo as int),
        decreases n - lo,
    {
        lo += 1;
    }
    let mut hi: usize = n;
    while hi > 0 && is_ws_char(s.get_char(hi - 1))
        invariant
            0 <= hi <= n,
            ws_suffix(s@, s@.len() as int) == ws_suffix(s@, hi as int),
        decreases hi,
    {
        hi -= 1;
    }
    (lo, hi)
}

/// The recognized-token lookup on an already trimmed term.
fn token_of(t: &str) -> (r: Option<License>)
    ensures
        r is Some <==> token_lic(t@) is Some,
        r matches Some(l) ==> l@ == token_lic(t@)->0,
{
    if eq_str(t, "Unlicense") {
        Some(License::Unlicense)
    } else if eq_str(t, "MIT") {
        Some(License::MIT)
    } else if eq_str(t, "X11") {
        Some(License::X11)
    } else if eq_str(t, "BSD-2-Clause") {
        Some(License::BSD_2_Clause)
    } else if eq_str(t, "BSD-3-Clause") {
        Some(License::BSD_3_Clause)
    } else if eq_str(t, "Apache-2.0") {
        Some(License::Apache_2_0)
    } else if eq_str(t, "LGPL-2.0-only") || eq_str(t, "LGPL-2.0") {
        Some(License::LGPL_2_0)
    } else if eq_str(t, "LGPL-2.1-only") || eq_str(t, "LGPL-2.1") {
        Some(License::LGPL_2_1)
    } else if eq_str(t, "LGPL-2.1-or-later") || eq_str(t, "LGPL-2.1+") {
        Some(License::LGPL_2_1Plus)
    } else if eq_str(t, "LGPL-3.0-only") || eq_str(t, "LGPL-3.0") {
        Some(License::LGPL_3_0)
    } else if eq_str(t, "LGPL-3.0-or-later") || eq_str(t, "LGPL-3.0+") {
        Some(License::LGPL_3_0Plus)
    } else if eq_str(t, "MPL-1.1") {
        Some(License::MPL_1_1)
    } else if eq_str(t, "MPL-2.0") {
        Some(License::MPL_2_0)
    } else if eq_str(t, "GPL-2.0-only") || eq_str(t, "GPL-2.0") {
        Some(License::GPL_2_0)
    } else if eq_str(t, "GPL-2.0-or-later") || eq_str(t, "GPL-2.0+") {
        Some(License::GPL_2_0Plus)
    } else if eq_str(t, "GPL-3.0-only") || eq_str(t, "GPL-3.0") {
        Some(License::GPL_3_0)
    } else if eq_str(t, "GPL-3.0-or-later") || eq_str(t, "GPL-3.0+") {
        Some(License::GPL_3_0Plus)
    } else if eq_str(t, "AGPL-3.0-only") || eq_str(t, "AGPL-3.0") {
        Some(License::AGPL_3_0)
    } else if eq_str(t, "AGPL-3.0-or-later") || eq_str(t, "AGPL-3.0+") {
        Some(License::AGPL_3_0Plus)
    } else {
        None
    }
}

/// Parses one separator-free term of an expression.
fn parse_atom(p: &str) -> (r: License)
    ensures
        r@ == parse_atom_spec(p@),
        is_atom(r@),
{
    let (lo, hi) = trim_bounds(p);
    let t: &str = if lo <= hi {
        p.substring_char(lo, hi)
    } else {
        ""
    };
    proof {
        if lo > hi {
            reveal_strlit("");
            assert(t@ =~= spec_trim(p@));
        }
    }
    match token_of(t) {
        Some(l) => l,
        None => License::Custom(t.to_owned()),
    }
}

pub(crate) fn rank(l: &License) -> (r: u32)
    ensures
        r as int == lic_rank(l@),
{
    match l {
        License::Unlicense => 0,
        License::MIT => 1,
        License::X11 => 2,
        License::BSD_2_Clause => 3,
        License::BSD_3_Clause => 4,
        License::Apache_2_0 => 5,
        License::LGPL_2_0 => 6,
        License::LGPL_2_1 => 7,
        License::LGPL_2_1Plus => 8,
        License::LGPL_3_0 => 9,
        License::LGPL_3_0Plus => 10,
        License::MPL_1_1 => 11,
        License::MPL_2_0 => 12,
        License::GPL_2_0 => 13,
        License::GPL_2_0Plus => 14,
        License::GPL_3_0 => 15,
        License::GPL_3_0Plus => 16,
        License::AGPL_3_0 => 17,
        License::AGPL_3_0Plus => 18,
        License::Custom(_) => 19,
        License::File(_) => 20,
        License::Multiple(_) => 21,
        License::Unspecified => 22,
    }
}

#[verifier::loop_isolation(false)]
pub(crate) fn str_le(a: &str, b: &str) -> (r: bool)
    ensures
        r == chars_le(a@, b@),
{
    let na = a.unicode_len();
    let nb = b.unicode_len();
    let mut i: usize = 0;
    proof {
        assert(a@.skip(0) =~= a@);
        assert(b@.skip(0) =~= b@);
    }
    loop
        invariant
            i <= na,
            i <= nb,
            chars_le(a@, b@) == chars_le(a@.skip(i as int), b@.skip(i as int)),
        decreases na - i,
    {
        if i >= na {
            return true;
        }
        if i >= nb {
            return false;
        }
        let ca = a.get_char(i);
        let cb = b.get_char(i);
        if ca != cb {
            return (ca as u32) < (cb as u32);
        }
        proof {
            assert(a@.skip(i as int).drop_first() =~= a@.skip(i as int + 1));
            assert(b@.skip(i as int).drop_first() =~= b@.skip(i as int + 1));
        }
        i += 1;
    }
}

fn atom_le_exec(a: &License, b: &License) -> (r: bool)
    ensures
        r == atom_le(a@, b@),
{
    let ra = rank(a);
    let rb = rank(b);
    if ra != rb {
        ra < rb
    } else {
        match (a, b) {
            (License::Custom(x), License::Custom(y)) => str_le(x.as_str(), y.as_str()),
            _ => true,
        }
    }
}

proof fn lemma_insert_sorted_at(x: Lic, s: Seq<Lic>, pos: int)
    requires
        0 <= pos <= s.len(),
        forall|k: int| 0 <= k < pos ==> atom_le(#[trigger] s[k], x),
        pos < s.len() ==> !atom_le(s[pos], x),
    ensures
        insert_sorted(x, s) =~= s.take(pos) + seq![x] + s.skip(pos),
    decreases pos,
{
    if pos == 0 {
    } else {
        let d = s.drop_first();
        assert forall|k: int| 0 <= k < pos - 1 implies atom_le(#[trigger] d[k], x) by {
            assert(d[k] == s[k + 1]);
        }
        lemma_insert_sorted_at(x, d, pos - 1);
    }
}

proof fn lemma_insert_sorted_props(x: Lic, s: Seq<Lic>)
    requires
        is_atom(x),
        forall|k: int| 0 <= k < s.len() ==> is_atom(#[trigger] s[k]),
    ensures
        insert_sorted(x, s).len() == s.len() + 1,
        forall|k: int|
            0 <= k < insert_sorted(x, s).len() ==> is_atom(#[trigger] insert_sorted(x, s)[k]),
    decreases s.len(),
{
    if s.len() == 0 {
    } else if atom_le(s[0], x) {
        let d = s.drop_first();
        assert forall|k: int| 0 <= k < d.len() implies is_atom(#[trigger] d[k]) by {
            assert(d[k] == s[k + 1]);
        }
        lemma_insert_sorted_props(x, d);
    }
}

proof fn lemma_sort_atoms_props(ps: Seq<Lic>)
    requires
        forall|k: int| 0 <= k < ps.len() ==> is_atom(#[trigger] ps[k]),
    ensures
        sort_atoms(ps).len() == ps.len(),
        forall|k: int| 0 <= k < sort_atoms(ps).len() ==> is_atom(#[trigger] sort_atoms(ps)[k]),
    decreases ps.len(),
{
    if ps.len() > 0 {
        let d = ps.drop_last();
        assert forall|k: int| 0 <= k < d.len() implies is_atom(#[trigger] d[k]) by {
            assert(d[k] == ps[k]);
        }
        lemma_sort_atoms_props(d);
        lemma_insert_sorted_props(ps.last(), sort_atoms(d));
    }
}

/// Inserts a parsed term into a sorted member list, keeping the
/// canonical order.
#[verifier::loop_isolation(false)]
fn insert_atom(sorted: &mut Vec<License>, lic: License)
    ensures
        lic_views(final(sorted)@) == insert_sorted(lic@, lic_views(old(sorted)@)),
{
    let ghost sv = lic_views(sorted@);
    let mut pos: usize = 0;
    while pos < sorted.len() && atom_le_exec(&sorted[pos], &lic)
        invariant
            pos <= sorted.len(),
            sorted@ == old(sorted)@,
            forall|k: int| 0 <= k < pos ==> atom_le(#[trigger] sv[k], lic@),
        decreases sorted.len() - pos,
    {
        proof {
            assert(sv[pos as int] == sorted@[pos as int]@);
        }
        pos += 1;
    }
    proof {
        assert(pos < sorted@.len() ==> sv[pos as int] == sorted@[pos as int]@);
        lemma_insert_sorted_at(lic@, sv, pos as int);
    }
    sorted.insert(pos, lic);
    proof {
        assert(lic_views(sorted@) =~= sv.take(pos as int) + seq![lic@] + sv.skip(pos as int));
    }
}

impl License {
    /// Parses a free-form license expression. A recognized token
    /// (including legacy alias spellings) becomes its named variant;
    /// an expression containing `/` or ` OR ` is split into a
    /// compound license whose members are parsed individually and
    /// sorted into the canonical order; anything else is kept as a
    /// custom expression. Parsing never fails.
    #[verifier::loop_isolation(false)]
    pub fn parse(s: &str) -> (r: License)
        ensures
            r@ == spec_parse(s@),
            crate::license::lic_wf(r@),
    {
        let (lo, hi) = trim_bounds(s);
        let t: &str = if lo <= hi {
            s.substring_char(lo, hi)
        } else {
            ""
        };
        proof {
            if lo > hi {
                reveal_strlit("");
                assert(t@ =~= spec_trim(s@));
            }
        }
        if let Some(l) = token_of(t) {
            return l;
        }
        let n = t.unicode_len();
        let mut parts: Vec<String> = Vec::new();
        let ghost mut gparts: Seq<Seq<char>> = Seq::empty();
        let mut p: usize = 0;
        let mut i: usize = 0;
        proof {
            assert(t@.skip(0) =~= t@);
            assert(Seq::<Seq<char>>::empty() + split_from(t@, 0) =~= split_from(t@, 0));
        }
        while i < n
            invariant
                p <= i <= n,
                n == t@.len(),
                gparts.len() == parts@.len(),
                forall|k: int| 0 <= k < gparts.len() ==> #[trigger] gparts[k] == parts@[k]@,
                split_from(t@, 0) == gparts + split_from(t@.skip(p as int), i - p),
            decreases n - i,
        {
            let c = t.get_char(i);
            let or_here = c == ' ' && n - i >= 4 && t.get_char(i + 1) == 'O' && t.get_char(i + 2)
                == 'R' && t.get_char(i + 3) == ' ';
            if c == '/' || or_here {
                let part = t.substring_char(p, i).to_owned();
                proof {
                    let rem = t@.skip(p as int);
                    assert(rem[i - p] == t@[i as int]);
                    assert(or_at(t@, i as int) ==> or_at(rem, i - p)) by {
                        if or_at(t@, i as int) {
                            assert(rem[i - p + 1] == t@[i as int + 1]);
                            assert(rem[i - p + 2] == t@[i as int + 2]);
                            assert(rem[i - p + 3] == t@[i as int + 3]);
                        }
                    }
                    assert(rem.take(i - p) =~= t@.subrange(p as int, i as int));
                    gparts = gparts.push(part@);
                }
                parts.push(part);
                if c == '/' {
                    proof {
                        let rem = t@.skip(p as int);
                        assert(rem.skip(i - p + 1) =~= t@.skip(i as int + 1));
                    }
                    i += 1;
                } else {
                    proof {
                        let rem = t@.skip(p as int);
                        assert(rem[i - p + 1] == t@[i as int + 1]);
                        assert(rem[i - p + 2] == t@[i as int + 2]);
                        assert(rem[i - p + 3] == t@[i as int + 3]);
                        assert(rem.skip(i - p + 4) =~= t@.skip(i as int + 4));
                    }
                    i += 4;
                }
                p = i;
            } else {
                proof {
                    let rem = t@.skip(p as int);
                    assert(rem[i - p] == t@[i as int]);
                    assert(!or_at(t@, i as int) ==> !or_at(rem, i - p)) by {
                        if or_at(rem, i - p) {
                            assert(t@[i as int + 1] == rem[i - p + 1]);
                            assert(t@[i as int + 2] == rem[i - p + 2]);
                            assert(t@[i as int + 3] == rem[i - p + 3]);
                        }
                    }
                }
                i += 1;
            }
        }
        let last = t.substring_char(p, n).to_owned();
        proof {
            assert(t@.skip(p as int) =~= t@.subrange(p as int, n as int));
            gparts = gparts.push(last@);
        }
        parts.push(last);
        proof {
            assert(split_from(t@, 0) =~= gparts);
        }
        if parts.len() >= 2 {
            let ghost atoms = gparts.map_values(|q: Seq<char>| parse_atom_spec(q));
            let mut sorted: Vec<License> = Vec::new();
            let mut k: usize = 0;
            while k < parts.len()
                invariant
                    k <= parts@.len(),
                    gparts.len() == parts@.len(),
                    forall|j: int| 0 <= j < gparts.len() ==> #[trigger] gparts[j] == parts@[j]@,
                    atoms == gparts.map_values(|q: Seq<char>| parse_atom_spec(q)),
                    lic_views(sorted@) == sort_atoms(atoms.take(k as int)),
                decreases parts@.len() - k,
            {
                let lic = parse_atom(parts[k].as_str());
                proof {
                    assert(atoms[k as int] == parse_atom_spec(parts@[k as int]@));
                    assert(atoms.take(k as int + 1).drop_last() =~= atoms.take(k as int));
                    assert(atoms.take(k as int + 1).last() == atoms[k as int]);
                }
                insert_atom(&mut sorted, lic);
                k += 1;
            }
            proof {
                assert(atoms.take(gparts.len() as int) =~= atoms);
                assert forall|j: int| 0 <= j < atoms.len() implies is_atom(#[trigger] atoms[j]) by {
                    assert(atoms[j] == parse_atom_spec(gparts[j]));
                }
                lemma_sort_atoms_props(atoms);
                let ms = sort_atoms(atoms);
                assert forall|j: int|
                    0 <= j < ms.len() implies crate::license::lic_wf(#[trigger] ms[j]) by {
                    assert(is_atom(ms[j]));
                }
            }
            let ghost gv = lic_views(sorted@);
            let result = License::Multiple(sorted);
            proof {
                assert(result@->Multiple_0 =~= gv);
                assert(result@ == Lic::Multiple(sort_atoms(atoms)));
            }
            result
        } else {
            License::Custom(t.to_owned())
        }
    }
}

} // verus!
