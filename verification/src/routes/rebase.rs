//! The computations behind the rebase endpoints.
use vstd::prelude::*;
use crate::pattern::{regex_replace_all, replace_all_matches};
use crate::routes::query::AuthorsResponse;
use crate::text::{chars_of, less_than, same_text, string_of, text_lt, views};

verus! {

pub use crate::routes::query::ListAllItemsQuery;

/// The pattern of a line break that directly follows a word character.
pub open spec fn line_break_after_word() -> Seq<char> {
    "\\b\\n"@
}

/// An author name with each line break after a word turned into a space.
pub open spec fn cleaned_author(a: Seq<char>) -> Option<Seq<char>> {
    regex_replace_all(line_break_after_word(), a, " "@)
}

/// The cleaned names of all authors, in order; `None` where a replacement
/// is rejected.
pub open spec fn cleaned_authors(s: Seq<Seq<char>>) -> Option<Seq<Seq<char>>>
    decreases s.len(),
{
    if s.len() == 0 {
        Some(Seq::empty())
    } else {
        match (cleaned_authors(s.drop_last()), cleaned_author(s.last())) {
            (Some(rest), Some(a)) => Some(rest.push(a)),
            _ => None,
        }
    }
}

/// `s` is in strictly increasing text order (so it has no repeats).
pub open spec fn strictly_sorted(s: Seq<Seq<char>>) -> bool {
    forall|i: int, j: int| 0 <= i < j < s.len() ==> text_lt(s[i], s[j])
}

/// A strictly sorted list has no repeated entry: the authors answer
/// names every author once.
pub proof fn lemma_strictly_sorted_distinct(s: Seq<Seq<char>>)
    requires
        strictly_sorted(s),
    ensures
        forall|i: int, j: int| 0 <= i < s.len() && 0 <= j < s.len() && i != j ==> s[i] != s[j],
{
    assert forall|i: int, j: int| 0 <= i < s.len() && 0 <= j < s.len() && i != j implies s[i] != s[j] by {
        if i < j {
            crate::text::lemma_text_lt_irreflexive(s[i]);
        } else {
            crate::text::lemma_text_lt_irreflexive(s[j]);
        }
    }
}

/// The texts of a list of strings.
pub open spec fn string_texts(v: Seq<String>) -> Seq<Seq<char>> {
    v.map_values(|s: String| s@)
}

proof fn lemma_cleaned_stuck(s: Seq<Seq<char>>, k: int)
    requires
        0 <= k <= s.len(),
        cleaned_authors(s.take(k)) is None,
    ensures
        cleaned_authors(s) is None,
    decreases s.len() - k,
{
    if k < s.len() {
        assert(s.take(k + 1).drop_last() == s.take(k));
        lemma_cleaned_stuck(s, k + 1);
    } else {
        assert(s.take(k) == s);
    }
}

/// Inserts `x` into a strictly sorted list, unless it is already there.
fn insert_sorted(out: &mut Vec<Vec<char>>, x: Vec<char>)
    requires
        strictly_sorted(views(old(out)@)),
    ensures
        strictly_sorted(views(final(out)@)),
        forall|t: Seq<char>|
            #![trigger views(final(out)@).contains(t)]
            #![trigger views(old(out)@).contains(t)]
            views(final(out)@).contains(t) <==> (views(old(out)@).contains(t) || t == x@),
{
    let ghost before = views(out@);
    assert(before == views(old(out)@));
    let mut p: usize = 0;
    while p < out.len() && less_than(&out[p], &x)
        invariant
            p <= out.len(),
            before == views(out@),
            strictly_sorted(before),
            forall|j: int| 0 <= j < p ==> text_lt(before[j], x@),
        decreases out.len() - p,
    {
        p = p + 1;
    }
    if p < out.len() && same_text(&out[p], &x) {
        assert(before[p as int] == x@);
        assert(forall|t: Seq<char>| t == x@ ==> before.contains(t));
        return;
    }
    proof {
        if p < before.len() {
            crate::text::lemma_text_lt_total(before[p as int], x@);
            assert(text_lt(x@, before[p as int]));
            assert forall|j: int| p <= j < before.len() implies text_lt(x@, before[j]) by {
                if j > p {
                    crate::text::lemma_text_lt_transitive(x@, before[p as int], before[j]);
                }
            }
        }
    }
    let ghost xv = x@;
    out.insert(p, x);
    proof {
        assert(views(out@) == before.insert(p as int, xv));
        assert forall|t: Seq<char>|
            #![trigger views(out@).contains(t)]
            #![trigger before.contains(t)]
            views(out@).contains(t) <==> (before.contains(t) || t == xv) by {
            if before.contains(t) {
                let j = choose|j: int| 0 <= j < before.len() && before[j] == t;
                if j < p {
                    assert(views(out@)[j] == t);
                } else {
                    assert(views(out@)[j + 1] == t);
                }
            }
            if t == xv {
                assert(views(out@)[p as int] == t);
            }
            if views(out@).contains(t) {
                let j = choose|j: int| 0 <= j < views(out@).len() && views(out@)[j] == t;
                if j < p {
                    assert(before[j] == t);
                } else if j > p {
                    assert(before[j - 1] == t);
                }
            }
        }
    }
}

/// The distinct cleaned author names, in increasing text order (each line
/// break after a word becomes a space, then the names are sorted and
/// repeats dropped). `None` where the replacement pattern is rejected.
pub fn distinct_authors(authors: &Vec<String>) -> (r: Option<Vec<String>>)
    ensures
        match cleaned_authors(string_texts(authors@)) {
            None => r is None,
            Some(c) => r matches Some(v) && strictly_sorted(string_texts(v@)) && forall|t: Seq<char>|
                string_texts(v@).contains(t) <==> c.contains(t),
        },
{
    let ghost all = string_texts(authors@);
    let mut out: Vec<Vec<char>> = Vec::new();
    let ghost mut cleaned: Seq<Seq<char>> = Seq::empty();
    let mut i: usize = 0;
    while i < authors.len()
        invariant
            i <= authors.len(),
            all == string_texts(authors@),
            cleaned_authors(all.take(i as int)) == Some(cleaned),
            strictly_sorted(views(out@)),
            forall|t: Seq<char>|
                #![trigger views(out@).contains(t)]
                #![trigger cleaned.contains(t)]
                views(out@).contains(t) <==> cleaned.contains(t),
        decreases authors.len() - i,
    {
        assert(all.take(i + 1).drop_last() == all.take(i as int));
        assert(all.take(i + 1).last() == authors@[i as int]@);
        match replace_all_matches("\\b\\n", authors[i].as_str(), " ") {
            None => {
                proof {
                    lemma_cleaned_stuck(all, i + 1);
                }
                return None;
            },
            Some(a) => {
                let ghost av = a@;
                insert_sorted(&mut out, chars_of(a.as_str()));
                proof {
                    assert forall|t: Seq<char>| cleaned.push(av).contains(t) <==> (cleaned.contains(t) || t == av) by {
                        if cleaned.push(av).contains(t) {
                            let j = choose|j: int| 0 <= j < cleaned.push(av).len() && cleaned.push(av)[j] == t;
                            if j < cleaned.len() {
                                assert(cleaned[j] == t);
                            }
                        }
                        if cleaned.contains(t) {
                            let j = choose|j: int| 0 <= j < cleaned.len() && cleaned[j] == t;
                            assert(cleaned.push(av)[j] == t);
                        }
                        if t == av {
                            assert(cleaned.push(av)[cleaned.len() as int] == t);
                        }
                    }
                    cleaned = cleaned.push(av);
                }
            },
        }
        i = i + 1;
    }
    assert(all.take(authors.len() as int) == all);
    let mut names: Vec<String> = Vec::new();
    let mut k: usize = 0;
    while k < out.len()
        invariant
            k <= out.len(),
            string_texts(names@) == views(out@).take(k as int),
        decreases out.len() - k,
    {
        let s = string_of(out[k].as_slice());
        names.push(s);
        assert(views(out@).take(k + 1) == views(out@).take(k as int).push(out@[k as int]@));
        k = k + 1;
    }
    assert(views(out@).take(out.len() as int) == views(out@));
    Some(names)
}

/// The answer of the authors endpoint for the authors of all stored items.
pub fn list_authors_response(authors: &Vec<String>) -> (r: Option<AuthorsResponse>)
    ensures
        match cleaned_authors(string_texts(authors@)) {
            None => r is None,
            Some(c) => r matches Some(a) && strictly_sorted(string_texts(a.author@)) && forall|t: Seq<char>|
                string_texts(a.author@).contains(t) <==> c.contains(t),
        },
{
    match distinct_authors(authors) {
        None => None,
        Some(v) => Some(AuthorsResponse { author: v }),
    }
}

} // verus!
