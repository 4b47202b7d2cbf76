//! The confidence scorer: a word-frequency distance between a
//! candidate text and the canonical template of a license, mapped to
//! a three-tier confidence classification.
use vstd::prelude::*;
use vstd::multiset::Multiset;

use crate::license::{License, Lic};
use crate::templates::spec_template;

verus! {

/// The scorer's three-tier classification of how closely a
/// candidate's text matches its template, also used as the
/// selection-precedence key: `Confident` over `SemiConfident` over
/// `Unsure`.
#[derive(Debug, Clone, Copy, PartialEq, Eq, Structural)]
pub enum Confidence {
    Confident,
    SemiConfident,
    Unsure,
}

/// The word tokens of a text, in order.
pub uninterp spec fn words_of(s: Seq<char>) -> Seq<Seq<char>>;

/// The lowercase form of a word.
pub uninterp spec fn lower_of(s: Seq<char>) -> Seq<char>;

/// Relies on regex's `find_iter` with the pattern `\w+`: the word
/// tokens of a text, in order; they depend on the text alone, and an
/// empty text has none.
#[verifier::external_body]
fn find_words(text: &str) -> (r: Vec<String>)
    ensures
        r.deep_view() == words_of(text@),
        text@.len() == 0 ==> r.deep_view().len() == 0,
{
    let pattern = regex::Regex::new(r"\w+").unwrap();
    pattern.find_iter(text).map(|m| m.as_str().to_owned()).collect()
}

/// Relies on str::to_lowercase: the result depends on the characters
/// alone.
#[verifier::external_body]
fn lowercase(s: &str) -> (r: String)
    ensures
        r@ == lower_of(s@),
{
    s.to_lowercase()
}

/// The lowercase word tokens of a text: what the scorer counts.
pub open spec fn tokens_of(text: Seq<char>) -> Seq<Seq<char>> {
    words_of(text).map_values(|w: Seq<char>| lower_of(w))
}

/// The model of a frequency table: an association list from words to
/// counts.
pub open spec fn pair_views(s: Seq<(String, u64)>) -> Seq<(Seq<char>, nat)> {
    s.map_values(|p: (String, u64)| (p.0@, p.1 as nat))
}

/// One more occurrence of `w`: the first entry for `w` is
/// incremented, or a fresh entry appended.
pub open spec fn bump(fl: Seq<(Seq<char>, nat)>, w: Seq<char>) -> Seq<(Seq<char>, nat)>
    decreases fl.len(),
{
    if fl.len() == 0 {
        seq![(w, 1nat)]
    } else if fl[0].0 == w {
        seq![(fl[0].0, (fl[0].1 + 1) as nat)] + fl.drop_first()
    } else {
        seq![fl[0]] + bump(fl.drop_first(), w)
    }
}

/// The word frequency table of a token stream, keys in first
/// occurrence order.
pub open spec fn freq_of(tokens: Seq<Seq<char>>) -> Seq<(Seq<char>, nat)>
    decreases tokens.len(),
{
    if tokens.len() == 0 {
        Seq::empty()
    } else {
        bump(freq_of(tokens.drop_last()), tokens.last())
    }
}

/// The count recorded for `w`, zero when absent.
pub open spec fn lookup(fl: Seq<(Seq<char>, nat)>, w: Seq<char>) -> nat
    decreases fl.len(),
{
    if fl.len() == 0 {
        0
    } else if fl[0].0 == w {
        fl[0].1
    } else {
        lookup(fl.drop_first(), w)
    }
}

/// The table without its first entry for `w`, if any.
pub open spec fn remove_key(fl: Seq<(Seq<char>, nat)>, w: Seq<char>) -> Seq<(Seq<char>, nat)>
    decreases fl.len(),
{
    if fl.len() == 0 {
        fl
    } else if fl[0].0 == w {
        fl.drop_first()
    } else {
        seq![fl[0]] + remove_key(fl.drop_first(), w)
    }
}

/// The total of all recorded counts.
pub open spec fn pair_sum(fl: Seq<(Seq<char>, nat)>) -> nat
    decreases fl.len(),
{
    if fl.len() == 0 {
        0
    } else {
        fl[0].1 + pair_sum(fl.drop_first())
    }
}

pub open spec fn abs_diff(a: nat, b: nat) -> nat {
    if a >= b {
        (a - b) as nat
    } else {
        (b - a) as nat
    }
}

/// The error count between a candidate and a template frequency
/// table: for each template word the absolute difference of the two
/// counts, the candidate's entry being consumed, plus the full
/// counts of every candidate word left over.
pub open spec fn spec_compare(c: Seq<(Seq<char>, nat)>, t: Seq<(Seq<char>, nat)>) -> nat
    decreases t.len(),
{
    if t.len() == 0 {
        pair_sum(c)
    } else {
        abs_diff(lookup(c, t[0].0), t[0].1) + spec_compare(remove_key(c, t[0].0), t.drop_first())
    }
}

/// The merged template token stream of a compound license: the
/// concatenated template tokens of every member from position `i` on
/// that has a known template, in member order; `None` only when no
/// such member has one.
pub open spec fn multi_template_tokens(ls: Seq<Lic>, i: int) -> Option<Seq<Seq<char>>>
    decreases ls.len() - i,
{
    if i < 0 || i >= ls.len() {
        None
    } else {
        match spec_template(ls[i]) {
            None => multi_template_tokens(ls, i + 1),
            Some(txt) => match multi_template_tokens(ls, i + 1) {
                None => Some(tokens_of(txt)),
                Some(rest) => Some(tokens_of(txt) + rest),
            },
        }
    }
}

/// The token stream of an optional merge, empty when there is none.
pub open spec fn opt_or_empty(o: Option<Seq<Seq<char>>>) -> Seq<Seq<char>> {
    match o {
        None => Seq::empty(),
        Some(r) => r,
    }
}

/// The template token stream a license is scored against: its own
/// template's tokens, or for a compound license the merged tokens of
/// its templated members.
pub open spec fn template_tokens(l: Lic) -> Option<Seq<Seq<char>>> {
    match l {
        Lic::Multiple(ls) => multi_template_tokens(ls, 0),
        _ => match spec_template(l) {
            None => None,
            Some(txt) => Some(tokens_of(txt)),
        },
    }
}

/// The scorer's meaning: the error count between the candidate's and
/// the template's word frequencies, relative to the total template
/// word count; below one tenth is `Confident`, below fifteen
/// hundredths `SemiConfident`, everything else (including a license
/// with no known template) `Unsure`.
pub open spec fn spec_score(text: Seq<char>, l: Lic) -> Confidence {
    match template_tokens(l) {
        None => Confidence::Unsure,
        Some(tt) => {
            let cand = freq_of(tokens_of(text));
            let templ = freq_of(tt);
            let total = pair_sum(templ);
            let errors = spec_compare(cand, templ);
            if 10 * errors < total {
                Confidence::Confident
            } else if 20 * errors < 3 * total {
                Confidence::SemiConfident
            } else {
                Confidence::Unsure
            }
        },
    }
}

proof fn lemma_head_concat(x: (Seq<char>, nat), s: Seq<(Seq<char>, nat)>)
    ensures
        (seq![x] + s)[0] == x,
        (seq![x] + s).drop_first() =~= s,
        (seq![x] + s).len() == s.len() + 1,
{
}

/// Counting one more occurrence raises the total by one.
proof fn lemma_bump_sum(fl: Seq<(Seq<char>, nat)>, w: Seq<char>)
    ensures
        pair_sum(bump(fl, w)) == pair_sum(fl) + 1,
    decreases fl.len(),
{
    if fl.len() == 0 {
        let b = bump(fl, w);
        assert(b == seq![(w, 1nat)]);
        assert(b.len() == 1);
        assert(b[0] == (w, 1nat));
        assert(b.drop_first() =~= Seq::<(Seq<char>, nat)>::empty());
        assert(pair_sum(b.drop_first()) == 0);
        assert(pair_sum(b) == 1);
        assert(pair_sum(fl) == 0);
    } else if fl[0].0 == w {
        let b = bump(fl, w);
        lemma_head_concat((fl[0].0, (fl[0].1 + 1) as nat), fl.drop_first());
        assert(b[0] == (fl[0].0, (fl[0].1 + 1) as nat));
        assert(b.drop_first() == fl.drop_first());
        assert(pair_sum(b) == fl[0].1 + 1 + pair_sum(fl.drop_first()));
        assert(pair_sum(fl) == fl[0].1 + pair_sum(fl.drop_first()));
    } else {
        let b = bump(fl, w);
        lemma_bump_sum(fl.drop_first(), w);
        lemma_head_concat(fl[0], bump(fl.drop_first(), w));
        assert(b[0] == fl[0]);
        assert(b.drop_first() == bump(fl.drop_first(), w));
        assert(pair_sum(b) == fl[0].1 + pair_sum(bump(fl.drop_first(), w)));
    }
}

/// The counts of a token stream total its length.
pub proof fn lemma_freq_sum(tokens: Seq<Seq<char>>)
    ensures
        pair_sum(freq_of(tokens)) == tokens.len(),
    decreases tokens.len(),
{
    if tokens.len() > 0 {
        lemma_freq_sum(tokens.drop_last());
        lemma_bump_sum(freq_of(tokens.drop_last()), tokens.last());
    }
}

/// Law: the frequency table records, for every word, exactly the
/// number of its occurrences in the token stream.
pub proof fn lemma_freq_count(tokens: Seq<Seq<char>>, w: Seq<char>)
    ensures
        lookup(freq_of(tokens), w) == tokens.to_multiset().count(w),
    decreases tokens.len(),
{
    broadcast use vstd::seq_lib::group_to_multiset_ensures;

    if tokens.len() == 0 {
        assert(tokens.to_multiset() =~= Multiset::empty());
    } else {
        let d = tokens.drop_last();
        lemma_freq_count(d, w);
        lemma_bump_count(freq_of(d), tokens.last(), w);
        assert(d.push(tokens.last()) =~= tokens);
        assert(tokens.to_multiset() =~= d.to_multiset().insert(tokens.last()));
    }
}

proof fn lemma_bump_count(fl: Seq<(Seq<char>, nat)>, w: Seq<char>, q: Seq<char>)
    ensures
        lookup(bump(fl, w), q) == lookup(fl, q) + (if q == w {
            1nat
        } else {
            0nat
        }),
    decreases fl.len(),
{
    if fl.len() == 0 {
        let b = bump(fl, w);
        assert(b == seq![(w, 1nat)]);
        assert(b[0] == (w, 1nat));
        assert(b.drop_first() =~= Seq::<(Seq<char>, nat)>::empty());
        assert(lookup(b.drop_first(), q) == 0);
    } else if fl[0].0 == w {
        let b = bump(fl, w);
        lemma_head_concat((fl[0].0, (fl[0].1 + 1) as nat), fl.drop_first());
        assert(b[0] == (fl[0].0, (fl[0].1 + 1) as nat));
        assert(b.drop_first() == fl.drop_first());
    } else {
        let b = bump(fl, w);
        lemma_bump_count(fl.drop_first(), w, q);
        lemma_head_concat(fl[0], bump(fl.drop_first(), w));
        assert(b[0] == fl[0]);
        assert(b.drop_first() == bump(fl.drop_first(), w));
    }
}

proof fn lemma_bump_found(fl: Seq<(Seq<char>, nat)>, w: Seq<char>, k: int)
    requires
        0 <= k < fl.len(),
        fl[k].0 == w,
        forall|j: int| 0 <= j < k ==> (#[trigger] fl[j]).0 != w,
    ensures
        bump(fl, w) =~= fl.update(k, (w, (fl[k].1 + 1) as nat)),
    decreases k,
{
    if k == 0 {
        lemma_head_concat((fl[0].0, (fl[0].1 + 1) as nat), fl.drop_first());
    } else {
        let d = fl.drop_first();
        assert forall|j: int| 0 <= j < k - 1 implies (#[trigger] d[j]).0 != w by {
            assert(d[j] == fl[j + 1]);
        }
        lemma_bump_found(d, w, k - 1);
        lemma_head_concat(fl[0], bump(d, w));
    }
}

proof fn lemma_bump_absent(fl: Seq<(Seq<char>, nat)>, w: Seq<char>)
    requires
        forall|j: int| 0 <= j < fl.len() ==> (#[trigger] fl[j]).0 != w,
    ensures
        bump(fl, w) =~= fl.push((w, 1nat)),
    decreases fl.len(),
{
    if fl.len() == 0 {
    } else {
        let d = fl.drop_first();
        assert forall|j: int| 0 <= j < d.len() implies (#[trigger] d[j]).0 != w by {
            assert(d[j] == fl[j + 1]);
        }
        lemma_bump_absent(d, w);
        lemma_head_concat(fl[0], bump(d, w));
    }
}

proof fn lemma_lookup_found(fl: Seq<(Seq<char>, nat)>, w: Seq<char>, k: int)
    requires
        0 <= k < fl.len(),
        fl[k].0 == w,
        forall|j: int| 0 <= j < k ==> (#[trigger] fl[j]).0 != w,
    ensures
        lookup(fl, w) == fl[k].1,
        remove_key(fl, w) =~= fl.remove(k),
    decreases k,
{
    if k == 0 {
    } else {
        let d = fl.drop_first();
        assert forall|j: int| 0 <= j < k - 1 implies (#[trigger] d[j]).0 != w by {
            assert(d[j] == fl[j + 1]);
        }
        lemma_lookup_found(d, w, k - 1);
        lemma_head_concat(fl[0], remove_key(d, w));
        assert(fl.remove(k) =~= seq![fl[0]] + d.remove(k - 1));
    }
}

proof fn lemma_lookup_absent(fl: Seq<(Seq<char>, nat)>, w: Seq<char>)
    requires
        forall|j: int| 0 <= j < fl.len() ==> (#[trigger] fl[j]).0 != w,
    ensures
        lookup(fl, w) == 0,
        remove_key(fl, w) =~= fl,
    decreases fl.len(),
{
    if fl.len() == 0 {
    } else {
        let d = fl.drop_first();
        assert forall|j: int| 0 <= j < d.len() implies (#[trigger] d[j]).0 != w by {
            assert(d[j] == fl[j + 1]);
        }
        lemma_lookup_absent(d, w);
        lemma_head_concat(fl[0], remove_key(d, w));
    }
}

proof fn lemma_lookup_le_sum(fl: Seq<(Seq<char>, nat)>, w: Seq<char>)
    ensures
        lookup(fl, w) <= pair_sum(fl),
        pair_sum(remove_key(fl, w)) + lookup(fl, w) == pair_sum(fl),
    decreases fl.len(),
{
    if fl.len() == 0 {
    } else if fl[0].0 == w {
    } else {
        lemma_lookup_le_sum(fl.drop_first(), w);
        lemma_head_concat(fl[0], remove_key(fl.drop_first(), w));
    }
}

/// The error count never exceeds the two totals together.
pub proof fn lemma_compare_bound(c: Seq<(Seq<char>, nat)>, t: Seq<(Seq<char>, nat)>)
    ensures
        spec_compare(c, t) <= pair_sum(c) + pair_sum(t),
    decreases t.len(),
{
    if t.len() > 0 {
        let w = t[0].0;
        lemma_lookup_le_sum(c, w);
        lemma_compare_bound(remove_key(c, w), t.drop_first());
    }
}

proof fn lemma_compare_empty(t: Seq<(Seq<char>, nat)>)
    ensures
        spec_compare(Seq::empty(), t) == pair_sum(t),
    decreases t.len(),
{
    if t.len() > 0 {
        lemma_compare_empty(t.drop_first());
    }
}

/// Law: a candidate whose word frequencies equal the template's has
/// no errors at all, so the exact canonical text always scores zero.
pub proof fn lemma_compare_identical(c: Seq<(Seq<char>, nat)>)
    ensures
        spec_compare(c, c) == 0,
    decreases c.len(),
{
    if c.len() > 0 {
        assert(lookup(c, c[0].0) == c[0].1);
        assert(remove_key(c, c[0].0) =~= c.drop_first());
        lemma_compare_identical(c.drop_first());
    }
}

/// Law: feeding a license's own canonical template text back to the
/// scorer yields the top confidence — the error count is zero —
/// whenever the template contains any word token at all.
pub proof fn lemma_template_scores_confident(l: Lic)
    requires
        spec_template(l) is Some,
        tokens_of(spec_template(l)->0).len() > 0,
    ensures
        spec_score(spec_template(l)->0, l) == Confidence::Confident,
{
    let txt = spec_template(l)->0;
    assert(template_tokens(l) == Some(tokens_of(txt)));
    lemma_compare_identical(freq_of(tokens_of(txt)));
    lemma_freq_sum(tokens_of(txt));
}

/// The lowercase word tokens of a text, as counted by the scorer.
#[verifier::loop_isolation(false)]
fn tokenize(text: &str) -> (r: Vec<String>)
    ensures
        r.deep_view() == tokens_of(text@),
        text@.len() == 0 ==> tokens_of(text@).len() == 0,
{
    let words = find_words(text);
    let mut toks: Vec<String> = Vec::new();
    let mut j: usize = 0;
    while j < words.len()
        invariant
            j <= words@.len(),
            words.deep_view() == words_of(text@),
            toks@.len() == j,
            forall|k: int| 0 <= k < j ==> #[trigger] toks@[k]@ == tokens_of(text@)[k],
        decreases words@.len() - j,
    {
        proof {
            assert(words@[j as int]@ == words.deep_view()[j as int]);
        }
        let lw = lowercase(words[j].as_str());
        toks.push(lw);
        j += 1;
    }
    proof {
        assert(toks.deep_view() =~= tokens_of(text@)) by {
            assert(toks.deep_view().len() == tokens_of(text@).len());
            assert forall|k: int|
                0 <= k < toks.deep_view().len() implies toks.deep_view()[k] == tokens_of(text@)[k] by {
                assert(toks.deep_view()[k] == toks@[k]@);
            }
        }
    }
    toks
}

fn eq_string(a: &String, b: &String) -> (r: bool)
    ensures
        r == (a@ == b@),
{
    a.eq(b)
}

/// The index of the first entry for `w`, if any.
#[verifier::loop_isolation(false)]
fn find_key(fl: &Vec<(String, u64)>, w: &String) -> (r: Option<usize>)
    ensures
        match r {
            Some(k) => k < fl@.len() && pair_views(fl@)[k as int].0 == w@ && (forall|m: int|
                0 <= m < k ==> (#[trigger] pair_views(fl@)[m]).0 != w@),
            None => forall|m: int|
                0 <= m < fl@.len() ==> (#[trigger] pair_views(fl@)[m]).0 != w@,
        },
{
    let ghost fv = pair_views(fl@);
    let mut k: usize = 0;
    while k < fl.len()
        invariant
            k <= fl@.len(),
            forall|m: int| 0 <= m < k ==> (#[trigger] fv[m]).0 != w@,
        decreases fl@.len() - k,
    {
        proof {
            assert(fv[k as int].0 == fl@[k as int].0@);
        }
        if eq_string(&fl[k].0, w) {
            return Some(k);
        }
        k += 1;
    }
    None
}

/// Builds the word-to-count frequency table of a token stream, keys
/// in first occurrence order.
#[verifier::loop_isolation(false)]
fn word_frequencies(tokens: &Vec<String>) -> (fl: Vec<(String, u64)>)
    ensures
        pair_views(fl@) == freq_of(tokens.deep_view()),
{
    let ghost dv = tokens.deep_view();
    let mut fl: Vec<(String, u64)> = Vec::new();
    let mut j: usize = 0;
    while j < tokens.len()
        invariant
            j <= tokens@.len(),
            dv.len() == tokens@.len(),
            pair_views(fl@) == freq_of(dv.take(j as int)),
            forall|k: int| 0 <= k < fl@.len() ==> (#[trigger] fl@[k]).1 <= j,
        decreases tokens@.len() - j,
    {
        proof {
            assert(dv[j as int] == tokens@[j as int]@);
        }
        let w = &tokens[j];
        let ghost oldv = pair_views(fl@);
        proof {
            assert(dv.take(j as int + 1).drop_last() =~= dv.take(j as int));
            assert(dv.take(j as int + 1).last() == dv[j as int]);
        }
        match find_key(&fl, w) {
            Some(k) => {
                let mut entry = fl.remove(k);
                entry.1 = entry.1 + 1;
                fl.insert(k, entry);
                proof {
                    lemma_bump_found(oldv, w@, k as int);
                    assert(pair_views(fl@) =~= oldv.update(
                        k as int,
                        (w@, (oldv[k as int].1 + 1) as nat),
                    ));
                }
            },
            None => {
                fl.push((w.clone(), 1));
                proof {
                    lemma_bump_absent(oldv, w@);
                    assert(pair_views(fl@) =~= oldv.push((w@, 1nat)));
                }
            },
        }
        j += 1;
    }
    proof {
        assert(dv.take(dv.len() as int) =~= dv);
    }
    fl
}

/// The error count between the candidate's frequency table and the
/// template's, consuming the candidate table.
#[verifier::loop_isolation(false)]
fn compare(text_freq: Vec<(String, u64)>, template_freq: &Vec<(String, u64)>) -> (errors: u128)
    requires
        pair_sum(pair_views(text_freq@)) <= u64::MAX,
        pair_sum(pair_views(template_freq@)) <= u64::MAX,
    ensures
        errors as nat == spec_compare(pair_views(text_freq@), pair_views(template_freq@)),
{
    let ghost cv0 = pair_views(text_freq@);
    let ghost tv = pair_views(template_freq@);
    let ghost total = spec_compare(cv0, tv);
    proof {
        lemma_compare_bound(cv0, tv);
        assert(tv.skip(0) =~= tv);
    }
    let mut cur = text_freq;
    let mut errors: u128 = 0;
    let mut m: usize = 0;
    while m < template_freq.len()
        invariant
            m <= template_freq@.len(),
            tv.len() == template_freq@.len(),
            errors as nat + spec_compare(pair_views(cur@), tv.skip(m as int)) == total,
            total <= u64::MAX + u64::MAX,
        decreases template_freq@.len() - m,
    {
        proof {
            assert(tv[m as int] == (template_freq@[m as int].0@, template_freq@[m as int].1 as nat));
        }
        let tw = &template_freq[m];
        let tcnt = tw.1;
        let ghost cv = pair_views(cur@);
        let ccnt: u64 = match find_key(&cur, &tw.0) {
            Some(k) => {
                proof {
                    lemma_lookup_found(cv, tw.0@, k as int);
                }
                let entry = cur.remove(k);
                proof {
                    assert(pair_views(cur@) =~= cv.remove(k as int));
                }
                entry.1
            },
            None => {
                proof {
                    lemma_lookup_absent(cv, tw.0@);
                }
                0
            },
        };
        proof {
            assert(tv.skip(m as int)[0] == tv[m as int]);
            assert(tv.skip(m as int).drop_first() =~= tv.skip(m as int + 1));
        }
        let diff: u64 = if ccnt >= tcnt {
            ccnt - tcnt
        } else {
            tcnt - ccnt
        };
        proof {
            assert(diff as nat == abs_diff(lookup(cv, tw.0@), tcnt as nat));
            assert(spec_compare(cv, tv.skip(m as int)) == diff as nat + spec_compare(
                pair_views(cur@),
                tv.skip(m as int + 1),
            ));
        }
        errors = errors + diff as u128;
        m += 1;
    }
    let ghost cvr = pair_views(cur@);
    proof {
        assert(spec_compare(cvr, tv.skip(tv.len() as int)) == pair_sum(cvr));
        assert(cvr.skip(0) =~= cvr);
    }
    let mut i: usize = 0;
    while i < cur.len()
        invariant
            i <= cur@.len(),
            cvr == pair_views(cur@),
            cvr.len() == cur@.len(),
            errors as nat + pair_sum(cvr.skip(i as int)) == total,
            total <= u64::MAX + u64::MAX,
        decreases cur@.len() - i,
    {
        proof {
            assert(cvr.skip(i as int)[0] == cvr[i as int]);
            assert(cvr.skip(i as int).drop_first() =~= cvr.skip(i as int + 1));
            assert(cvr[i as int] == (cur@[i as int].0@, cur@[i as int].1 as nat));
        }
        errors = errors + cur[i].1 as u128;
        i += 1;
    }
    errors
}

impl License {
    /// Scores how well a candidate text matches this license's
    /// canonical template: the word-frequency error count relative
    /// to the template's word count, classified into the three
    /// confidence tiers. A license without a known template (or a
    /// compound license any of whose members lacks one) is always
    /// `Unsure`.
    #[verifier::loop_isolation(false)]
    pub fn score(&self, text: &str) -> (c: Confidence)
        ensures
            c == spec_score(text@, self@),
            text@.len() == 0 ==> c == Confidence::Unsure,
    {
        let toks = tokenize(text);
        let cand = word_frequencies(&toks);
        let mut ttoks: Vec<String> = Vec::new();
        let ghost mut tdv: Seq<Seq<char>> = Seq::empty();
        if let License::Multiple(ls) = self {
            let ghost ms = self@->Multiple_0;
            proof {
                assert forall|k: int| 0 <= k < ls@.len() implies #[trigger] ms[k] == ls@[k]@ by {
                    assert(ms[k] == ls@[k].view_rec());
                }
            }
            let mut any_template = false;
            let mut j: usize = 0;
            while j < ls.len()
                invariant
                    j <= ls@.len(),
                    tdv.len() == ttoks@.len(),
                    forall|k: int| 0 <= k < tdv.len() ==> #[trigger] tdv[k] == ttoks@[k]@,
                    any_template ==> multi_template_tokens(ms, 0) == Some(
                        tdv + opt_or_empty(multi_template_tokens(ms, j as int)),
                    ),
                    !any_template ==> tdv == Seq::<Seq<char>>::empty() && multi_template_tokens(
                        ms,
                        0,
                    ) == multi_template_tokens(ms, j as int),
                decreases ls@.len() - j,
            {
                let member = &ls[j];
                let mut member_template: Option<&'static str> = None;
                if !matches!(member, License::Multiple(_)) {
                    member_template = member.template();
                }
                match member_template {
                    None => {
                        proof {
                            assert(spec_template(ms[j as int]) is None);
                        }
                    },
                    Some(txt) => {
                        let mut mt = tokenize(txt);
                        let ghost mtv = mt.deep_view();
                        proof {
                            assert(mtv == tokens_of(spec_template(ms[j as int])->0));
                        }
                        let ghost told = tdv;
                        let ghost was_any = any_template;
                        ttoks.append(&mut mt);
                        any_template = true;
                        proof {
                            tdv = told + mtv;
                            assert forall|k: int|
                                0 <= k < tdv.len() implies #[trigger] tdv[k] == ttoks@[k]@ by {
                                if k >= told.len() {
                                    assert(tdv[k] == mtv[k - told.len()]);
                                }
                            }
                            let rest = multi_template_tokens(ms, j as int + 1);
                            assert(opt_or_empty(multi_template_tokens(ms, j as int)) =~= mtv
                                + opt_or_empty(rest)) by {
                                if rest is None {
                                    assert(mtv + Seq::<Seq<char>>::empty() =~= mtv);
                                }
                            }
                            if was_any {
                                assert(told + (mtv + opt_or_empty(rest)) =~= (told + mtv)
                                    + opt_or_empty(rest));
                            } else {
                                assert(told + mtv =~= mtv);
                                assert(multi_template_tokens(ms, j as int) == Some(
                                    mtv + opt_or_empty(rest),
                                )) by {
                                    if rest is None {
                                        assert(mtv + Seq::<Seq<char>>::empty() =~= mtv);
                                    }
                                }
                            }
                        }
                    },
                }
                j += 1;
            }
            if !any_template {
                proof {
                    assert(multi_template_tokens(ms, ls@.len() as int) is None);
                }
                return Confidence::Unsure;
            }
            proof {
                assert(multi_template_tokens(ms, ls@.len() as int) is None);
                assert(tdv + Seq::<Seq<char>>::empty() =~= tdv);
            }
        } else {
            match self.template() {
                None => {
                    return Confidence::Unsure;
                },
                Some(txt) => {
                    ttoks = tokenize(txt);
                    proof {
                        tdv = ttoks.deep_view();
                    }
                },
            }
        }
        proof {
            assert(ttoks.deep_view() =~= tdv) by {
                assert forall|k: int|
                    0 <= k < ttoks.deep_view().len() implies ttoks.deep_view()[k] == tdv[k] by {
                    assert(ttoks.deep_view()[k] == ttoks@[k]@);
                }
            }
            assert(template_tokens(self@) == Some(tdv));
        }
        let templ = word_frequencies(&ttoks);
        let ghost tplv = pair_views(templ@);
        let n_toks = toks.len();
        let n_tt = ttoks.len();
        proof {
            lemma_freq_sum(tdv);
            lemma_freq_sum(toks.deep_view());
            assert(toks.deep_view().len() == toks@.len());
            assert(tdv.len() == ttoks@.len());
            assert(n_toks == toks@.len() && n_tt == ttoks@.len());
            assert(pair_sum(tplv) <= u64::MAX);
            assert(pair_sum(pair_views(cand@)) <= u64::MAX);
            assert(tplv.skip(0) =~= tplv);
        }
        let mut total: u64 = 0;
        let mut i: usize = 0;
        while i < templ.len()
            invariant
                i <= templ@.len(),
                tplv == pair_views(templ@),
                tplv.len() == templ@.len(),
                total as nat + pair_sum(tplv.skip(i as int)) == pair_sum(tplv),
                pair_sum(tplv) <= u64::MAX,
            decreases templ@.len() - i,
        {
            proof {
                assert(tplv.skip(i as int)[0] == tplv[i as int]);
                assert(tplv.skip(i as int).drop_first() =~= tplv.skip(i as int + 1));
                assert(tplv[i as int] == (templ@[i as int].0@, templ@[i as int].1 as nat));
            }
            total = total + templ[i].1;
            i += 1;
        }
        proof {
            lemma_compare_bound(pair_views(cand@), tplv);
        }
        let ghost cv = pair_views(cand@);
        let errors = compare(cand, &templ);
        proof {
            assert(errors <= 2 * (u64::MAX as u128));
            if text@.len() == 0 {
                assert(tokens_of(text@) =~= Seq::<Seq<char>>::empty());
                assert(cv =~= Seq::<(Seq<char>, nat)>::empty());
                lemma_compare_empty(tplv);
                assert(errors as nat == total as nat);
            }
        }
        if 10 * errors < total as u128 {
            Confidence::Confident
        } else if 20 * errors < 3 * (total as u128) {
            Confidence::SemiConfident
        } else {
            Confidence::Unsure
        }
    }
}

} // verus!
