//! Keyword matching of window titles against client-matter rules.
//!
//! A rule's score is its weight times the summed byte lengths of the keywords
//! that occur, case-insensitively, in the window title. The weight is a
//! floating-point number, so the weighting is done by the caller; this module
//! computes which keywords match and how long each of them is, and chooses
//! the best rule once the caller has ranked the scores by integers that
//! order them the same way.
use vstd::prelude::*;
use vstd::utf8::encode_utf8;
use crate::text::{all_ascii, ascii_lower, ascii_lower_char, chars_of, contains_chars, lowercase, seq_contains, to_lowercase};

verus! {

/// Length in UTF-8 bytes of the given characters (what `str::len` returns).
pub open spec fn utf8_len(s: Seq<char>) -> usize {
    encode_utf8(s).len() as usize
}

/// Whether keyword `kw` occurs in the lowercased title `title_lower`,
/// ignoring the case of the keyword.
pub open spec fn keyword_matches(title_lower: Seq<char>, kw: Seq<char>) -> bool {
    seq_contains(title_lower, lowercase(kw))
}

/// The form of a keyword that matching uses: its lowercase characters and
/// its length in bytes.
pub open spec fn form_of(kw: Seq<char>) -> (Seq<char>, usize) {
    (lowercase(kw), utf8_len(kw))
}

/// The lengths of the keyword forms whose lowercase text occurs in
/// `title_lower`, in keyword order.
pub open spec fn lengths_of_forms(title_lower: Seq<char>, forms: Seq<(Seq<char>, usize)>) -> Seq<usize>
    decreases forms.len(),
{
    if forms.len() == 0 {
        seq![]
    } else {
        let prev = lengths_of_forms(title_lower, forms.drop_last());
        if seq_contains(title_lower, forms.last().0) {
            prev.push(forms.last().1)
        } else {
            prev
        }
    }
}

/// The byte lengths of the keywords of `kws` that match, in keyword order.
pub open spec fn matched_lengths(title_lower: Seq<char>, kws: Seq<Seq<char>>) -> Seq<usize> {
    lengths_of_forms(title_lower, kws.map_values(|k: Seq<char>| form_of(k)))
}

/// The characters of each keyword.
pub open spec fn keyword_views(keywords: Seq<String>) -> Seq<Seq<char>> {
    keywords.map_values(|k: String| k@)
}

/// The model of keyword forms held as `(lowercase text, byte length)` pairs.
pub open spec fn form_views(forms: Seq<(String, usize)>) -> Seq<(Seq<char>, usize)> {
    forms.map_values(|p: (String, usize)| (p.0@, p.1))
}

/// Given the lowercased title and, for each keyword, its lowercase text and
/// byte length, the lengths of the keywords that occur in the title, in
/// keyword order.
pub fn lengths_of_lowered_matches(title_lower: &str, forms: &Vec<(String, usize)>) -> (r: Vec<usize>)
    ensures
        r@ == lengths_of_forms(title_lower@, form_views(forms@)),
{
    let title_chars = chars_of(title_lower);
    let ghost fv = form_views(forms@);
    let mut r: Vec<usize> = Vec::new();
    let mut i: usize = 0;
    while i < forms.len()
        invariant
            title_chars@ == title_lower@,
            fv == form_views(forms@),
            i <= forms.len(),
            r@ == lengths_of_forms(title_lower@, fv.take(i as int)),
        decreases forms.len() - i,
    {
        let form = &forms[i];
        let kw_chars = chars_of(form.0.as_str());
        assert(fv.take(i + 1).drop_last() =~= fv.take(i as int));
        assert(fv.take(i + 1).last() == (form.0@, form.1));
        if contains_chars(&title_chars, &kw_chars) {
            r.push(form.1);
        }
        i = i + 1;
    }
    assert(fv.take(forms.len() as int) =~= fv);
    r
}

/// The form of an ASCII keyword: its ASCII lowercase and its byte length.
pub open spec fn ascii_form_of(kw: Seq<char>) -> (Seq<char>, usize) {
    (ascii_lower(kw), utf8_len(kw))
}

/// The lengths matched when title and keywords are ASCII text: keywords are
/// compared with `A`..`Z` folded to `a`..`z` in both title and keyword.
pub open spec fn ascii_matched_lengths(title: Seq<char>, kws: Seq<Seq<char>>) -> Seq<usize> {
    lengths_of_forms(ascii_lower(title), kws.map_values(|k: Seq<char>| ascii_form_of(k)))
}

/// For the keywords of one rule, the byte lengths of those that occur in
/// `title` when both are lowercased, in keyword order. Each entry is one term
/// of the rule's score (the weight times this length). For ASCII title and
/// keywords this is matching that ignores the case of letters.
pub fn matched_keyword_lengths(title: &str, keywords: &Vec<String>) -> (r: Vec<usize>)
    ensures
        r@ == matched_lengths(lowercase(title@), keyword_views(keywords@)),
        all_ascii(title@) && (forall|j: int|
            0 <= j < keywords@.len() ==> all_ascii(#[trigger] keywords@[j]@)) ==> r@
            == ascii_matched_lengths(title@, keyword_views(keywords@)),
{
    let title_lower = to_lowercase(title);
    let ghost kv = keyword_views(keywords@);
    let mut forms: Vec<(String, usize)> = Vec::new();
    let mut i: usize = 0;
    while i < keywords.len()
        invariant
            kv == keyword_views(keywords@),
            i <= keywords.len(),
            form_views(forms@) =~= kv.take(i as int).map_values(|k: Seq<char>| form_of(k)),
            forall|j: int|
                0 <= j < i && all_ascii(kv[j]) ==> (#[trigger] form_views(forms@)[j]).0
                    == ascii_lower(kv[j]),
        decreases keywords.len() - i,
    {
        let kw = &keywords[i];
        let ghost before = forms@;
        assert(kv[i as int] == kw@);
        let lower = to_lowercase(kw.as_str());
        let len = kw.as_str().len();
        assert((lower@, len) == form_of(kw@));
        forms.push((lower, len));
        assert(form_views(forms@) =~= form_views(before).push((lower@, len)));
        assert(kv.take(i + 1) =~= kv.take(i as int).push(kw@));
        assert forall|j: int| 0 <= j < i + 1 && all_ascii(kv[j]) implies (#[trigger] form_views(
            forms@,
        )[j]).0 == ascii_lower(kv[j]) by {
            if j < i {
                assert(form_views(forms@)[j] == form_views(before)[j]);
            }
        }
        i = i + 1;
        assert(form_views(forms@) =~= kv.take(i as int).map_values(|k: Seq<char>| form_of(k)));
    }
    assert(kv.take(keywords.len() as int) =~= kv);
    proof {
        if all_ascii(title@) && (forall|j: int|
            0 <= j < keywords@.len() ==> all_ascii(#[trigger] keywords@[j]@)) {
            assert forall|j: int| 0 <= j < kv.len() implies all_ascii(#[trigger] kv[j]) by {
                assert(all_ascii(keywords@[j]@));
            }
            assert(form_views(forms@) =~= kv.map_values(|k: Seq<char>| ascii_form_of(k))) by {
                assert forall|j: int| 0 <= j < kv.len() implies #[trigger] form_views(forms@)[j]
                    == ascii_form_of(kv[j]) by {
                    assert(form_views(forms@)[j] == form_of(kv[j]));
                }
            }
        }
    }
    lengths_of_lowered_matches(title_lower.as_str(), &forms)
}

/// Index of the first candidate with the highest rank among
/// `ranked[0..n)`, considering only positive ranks; `None` when no rank is
/// positive.
pub open spec fn best_index(ranked: Seq<(i64, u32)>, n: int) -> Option<int>
    decreases n,
{
    if n <= 0 {
        None
    } else {
        let prev = best_index(ranked, n - 1);
        let rank = ranked[n - 1].1;
        match prev {
            None => if rank > 0 {
                Some(n - 1)
            } else {
                None
            },
            Some(b) => if rank > ranked[b].1 {
                Some(n - 1)
            } else {
                Some(b)
            },
        }
    }
}

/// The matter of the best-ranked candidate: the first candidate whose rank
/// is positive and highest, or `None` when no rank is positive.
pub open spec fn best_match_spec(ranked: Seq<(i64, u32)>) -> Option<i64> {
    match best_index(ranked, ranked.len() as int) {
        Some(b) => Some(ranked[b].0),
        None => None,
    }
}

/// Chooses among rules ranked by score. Each candidate is a matter id with
/// a rank that orders candidates as their scores do, 0 standing for a score
/// that is not positive. The first candidate with the highest positive rank
/// wins; a later candidate wins only with a strictly higher rank.
pub fn best_match(ranked: &Vec<(i64, u32)>) -> (r: Option<i64>)
    ensures
        r == best_match_spec(ranked@),
{
    let mut best: Option<(i64, u32)> = None;
    let ghost mut best_at: Option<int> = None;
    let mut i: usize = 0;
    while i < ranked.len()
        invariant
            i <= ranked.len(),
            best_at == best_index(ranked@, i as int),
            match best_at {
                None => best is None,
                Some(b) => 0 <= b < i && best == Some(ranked@[b]),
            },
        decreases ranked.len() - i,
    {
        let (id, rank) = ranked[i];
        let better = match best {
            None => rank > 0,
            Some((_, s)) => rank > s,
        };
        if better {
            best = Some((id, rank));
            proof {
                best_at = Some(i as int);
            }
        }
        i = i + 1;
    }
    match best {
        Some((id, _)) => Some(id),
        None => None,
    }
}

proof fn lemma_best_index_facts(ranked: Seq<(i64, u32)>, n: int)
    requires
        0 <= n <= ranked.len(),
    ensures
        match best_index(ranked, n) {
            None => forall|k: int| 0 <= k < n ==> #[trigger] ranked[k].1 == 0,
            Some(b) => 0 <= b < n && ranked[b].1 > 0 && (forall|k: int|
                0 <= k < n ==> #[trigger] ranked[k].1 <= ranked[b].1) && (forall|k: int|
                0 <= k < b ==> #[trigger] ranked[k].1 < ranked[b].1),
        },
    decreases n,
{
    if n > 0 {
        lemma_best_index_facts(ranked, n - 1);
    }
}

/// The chosen candidate has a positive rank that no candidate exceeds, and
/// every candidate before it ranks strictly lower; no candidate is chosen
/// exactly when every rank is 0.
pub proof fn lemma_best_match_is_first_maximum(ranked: Seq<(i64, u32)>)
    ensures
        best_match_spec(ranked) is None <==> forall|k: int| 0 <= k < ranked.len() ==> #[trigger] ranked[k].1 == 0,
        best_match_spec(ranked) is Some ==> exists|b: int|
            0 <= b < ranked.len() && best_match_spec(ranked) == Some(ranked[b].0) && ranked[b].1 > 0
                && (forall|k: int| 0 <= k < ranked.len() ==> #[trigger] ranked[k].1 <= ranked[b].1)
                && (forall|k: int| 0 <= k < b ==> #[trigger] ranked[k].1 < ranked[b].1),
{
    lemma_best_index_facts(ranked, ranked.len() as int);
    if best_match_spec(ranked) is None {
        assert(best_index(ranked, ranked.len() as int) is None);
    } else {
        let b = best_index(ranked, ranked.len() as int)->0;
        assert(ranked[b].1 > 0);
    }
}

proof fn lemma_matched_lengths_unfold(title_lower: Seq<char>, kws: Seq<Seq<char>>)
    requires
        kws.len() > 0,
    ensures
        matched_lengths(title_lower, kws) == (if keyword_matches(title_lower, kws.last()) {
            matched_lengths(title_lower, kws.drop_last()).push(utf8_len(kws.last()))
        } else {
            matched_lengths(title_lower, kws.drop_last())
        }),
{
    let f = kws.map_values(|k: Seq<char>| form_of(k));
    assert(f.drop_last() =~= kws.drop_last().map_values(|k: Seq<char>| form_of(k)));
    assert(f.last() == form_of(kws.last()));
}

/// `len` is the byte length of some keyword of `kws` that matches the title.
pub open spec fn length_of_a_match(title_lower: Seq<char>, kws: Seq<Seq<char>>, len: usize) -> bool {
    exists|j: int|
        0 <= j < kws.len() && keyword_matches(title_lower, #[trigger] kws[j]) && len == utf8_len(
            kws[j],
        )
}

/// Each reported length belongs to a keyword of the rule that matches the
/// title, and no more lengths are reported than there are keywords.
pub proof fn lemma_matched_lengths_come_from_matches(title_lower: Seq<char>, kws: Seq<Seq<char>>)
    ensures
        matched_lengths(title_lower, kws).len() <= kws.len(),
        forall|i: int|
            0 <= i < matched_lengths(title_lower, kws).len() ==> length_of_a_match(
                title_lower,
                kws,
                #[trigger] matched_lengths(title_lower, kws)[i],
            ),
    decreases kws.len(),
{
    if kws.len() > 0 {
        let prev = kws.drop_last();
        lemma_matched_lengths_unfold(title_lower, kws);
        lemma_matched_lengths_come_from_matches(title_lower, prev);
        let m = matched_lengths(title_lower, kws);
        let pm = matched_lengths(title_lower, prev);
        assert forall|i: int| 0 <= i < m.len() implies length_of_a_match(
            title_lower,
            kws,
            #[trigger] m[i],
        ) by {
            if i < pm.len() {
                assert(m[i] == pm[i]);
                assert(length_of_a_match(title_lower, prev, pm[i]));
                let j = choose|j: int|
                    0 <= j < prev.len() && keyword_matches(title_lower, #[trigger] prev[j])
                        && pm[i] == utf8_len(prev[j]);
                assert(kws[j] == prev[j]);
            } else {
                assert(kws[kws.len() - 1] == kws.last());
            }
        }
    }
}

/// A rule none of whose keywords occurs in the title reports no lengths,
/// so its score is zero and it is never chosen.
pub proof fn lemma_no_match_no_lengths(title_lower: Seq<char>, kws: Seq<Seq<char>>)
    requires
        forall|j: int| 0 <= j < kws.len() ==> !keyword_matches(title_lower, #[trigger] kws[j]),
    ensures
        matched_lengths(title_lower, kws) == Seq::<usize>::empty(),
    decreases kws.len(),
{
    if kws.len() > 0 {
        let prev = kws.drop_last();
        assert forall|j: int| 0 <= j < prev.len() implies !keyword_matches(
            title_lower,
            #[trigger] prev[j],
        ) by {
            assert(prev[j] == kws[j]);
        }
        lemma_matched_lengths_unfold(title_lower, kws);
        lemma_no_match_no_lengths(title_lower, prev);
        assert(!keyword_matches(title_lower, kws[kws.len() - 1]));
    }
}

/// When every keyword of the rule occurs in the title, the lengths of all
/// keywords are reported, in order.
pub proof fn lemma_all_match_all_lengths(title_lower: Seq<char>, kws: Seq<Seq<char>>)
    requires
        forall|j: int| 0 <= j < kws.len() ==> keyword_matches(title_lower, #[trigger] kws[j]),
    ensures
        matched_lengths(title_lower, kws) == kws.map_values(|k: Seq<char>| utf8_len(k)),
    decreases kws.len(),
{
    if kws.len() > 0 {
        let prev = kws.drop_last();
        assert forall|j: int| 0 <= j < prev.len() implies keyword_matches(
            title_lower,
            #[trigger] prev[j],
        ) by {
            assert(prev[j] == kws[j]);
        }
        lemma_matched_lengths_unfold(title_lower, kws);
        lemma_all_match_all_lengths(title_lower, prev);
        assert(keyword_matches(title_lower, kws[kws.len() - 1]));
        assert(matched_lengths(title_lower, kws) =~= kws.map_values(|k: Seq<char>| utf8_len(k)));
    }
}

/// Matching reads the title only through its lowercase form: titles whose
/// lowercase forms agree get the same lengths.
pub proof fn lemma_case_insensitive(t1: Seq<char>, t2: Seq<char>, kws: Seq<Seq<char>>)
    requires
        lowercase(t1) == lowercase(t2),
    ensures
        matched_lengths(lowercase(t1), kws) == matched_lengths(lowercase(t2), kws),
{
}

/// The ASCII uppercase of a character: `a`..`z` become `A`..`Z`, every
/// other character stays.
pub open spec fn ascii_upper_char(c: char) -> char {
    if 'a' <= c && c <= 'z' {
        ((c as u32) - 32) as char
    } else {
        c
    }
}

/// The ASCII uppercase of each character.
pub open spec fn ascii_upper(s: Seq<char>) -> Seq<char> {
    s.map_values(|c: char| ascii_upper_char(c))
}

/// For ASCII text the case of the title's letters does not matter: the
/// title written in upper case, in lower case, or as given matches the
/// same keywords.
pub proof fn lemma_title_case_does_not_matter(t: Seq<char>, kws: Seq<Seq<char>>)
    ensures
        ascii_matched_lengths(ascii_upper(t), kws) == ascii_matched_lengths(t, kws),
        ascii_matched_lengths(ascii_lower(t), kws) == ascii_matched_lengths(t, kws),
{
    assert forall|i: int| 0 <= i < t.len() implies ascii_lower_char(ascii_upper_char(#[trigger] t[i]))
        == ascii_lower_char(t[i]) && ascii_lower_char(ascii_lower_char(t[i])) == ascii_lower_char(
        t[i],
    ) by {
        let c = t[i];
        if 'a' <= c && c <= 'z' {
            assert((((c as u32) - 32) as char) as u32 == (c as u32) - 32);
            assert(((((c as u32) - 32) as char) as u32 + 32) as char == c);
        } else if 'A' <= c && c <= 'Z' {
            assert((((c as u32) + 32) as char) as u32 == (c as u32) + 32);
        }
    }
    assert(ascii_lower(ascii_upper(t)) =~= ascii_lower(t));
    assert(ascii_lower(ascii_lower(t)) =~= ascii_lower(t));
}

proof fn lemma_ascii_upper_keeps_form(k: Seq<char>)
    requires
        all_ascii(k),
    ensures
        ascii_form_of(ascii_upper(k)) == ascii_form_of(k),
{
    let u = ascii_upper(k);
    assert forall|i: int| 0 <= i < k.len() implies ascii_lower_char(ascii_upper_char(#[trigger] k[i]))
        == ascii_lower_char(k[i]) && (ascii_upper_char(k[i]) as u32) < 128 by {
        let c = k[i];
        assert((c as u32) < 128);
        if 'a' <= c && c <= 'z' {
            assert((((c as u32) - 32) as char) as u32 == (c as u32) - 32);
            assert(((((c as u32) - 32) as char) as u32 + 32) as char == c);
        } else if 'A' <= c && c <= 'Z' {
            assert((((c as u32) + 32) as char) as u32 == (c as u32) + 32);
        }
    }
    assert(ascii_lower(u) =~= ascii_lower(k));
    assert(vstd::utf8::is_ascii_chars(k)) by {
        assert forall|i: int| 0 <= i < k.len() implies '\0' <= #[trigger] k[i] <= '\u{7f}' by {
            assert(crate::text::is_ascii_char(k[i]));
        }
    }
    assert(vstd::utf8::is_ascii_chars(u)) by {
        assert forall|i: int| 0 <= i < u.len() implies '\0' <= #[trigger] u[i] <= '\u{7f}' by {
            assert(u[i] == ascii_upper_char(k[i]));
        }
    }
    vstd::utf8::is_ascii_chars_encode_utf8(k);
    vstd::utf8::is_ascii_chars_encode_utf8(u);
}

/// For ASCII keywords the case of the keywords' letters does not matter
/// either: keywords written in upper case match, with the same lengths, as
/// written.
pub proof fn lemma_keyword_case_does_not_matter(t: Seq<char>, kws: Seq<Seq<char>>)
    requires
        forall|j: int| 0 <= j < kws.len() ==> all_ascii(#[trigger] kws[j]),
    ensures
        ascii_matched_lengths(t, kws.map_values(|k: Seq<char>| ascii_upper(k)))
            == ascii_matched_lengths(t, kws),
{
    let up = kws.map_values(|k: Seq<char>| ascii_upper(k));
    let fu = up.map_values(|k: Seq<char>| ascii_form_of(k));
    let fk = kws.map_values(|k: Seq<char>| ascii_form_of(k));
    assert forall|j: int| 0 <= j < kws.len() implies #[trigger] fu[j] == fk[j] by {
        lemma_ascii_upper_keeps_form(kws[j]);
    }
    assert(fu =~= fk);
}

/// An empty keyword occurs in every title.
pub proof fn lemma_empty_needle_occurs(hay: Seq<char>)
    ensures
        seq_contains(hay, Seq::<char>::empty()),
{
    assert(hay.subrange(0, 0int + Seq::<char>::empty().len()) =~= Seq::<char>::empty());
}

} // verus!
