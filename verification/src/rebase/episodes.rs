//! Gathering the episodes of many API answers into one list ordered by id.
use vstd::prelude::*;
use crate::rebase::types::{RebaseDaliy, RebaseDaliyEpisode};

verus! {

/// The episodes of `s` whose id is `k`, in their order in `s`.
pub open spec fn with_id(s: Seq<RebaseDaliyEpisode>, k: usize) -> Seq<RebaseDaliyEpisode>
    decreases s.len(),
{
    if s.len() == 0 {
        s
    } else if s.last().id == k {
        with_id(s.drop_last(), k).push(s.last())
    } else {
        with_id(s.drop_last(), k)
    }
}

/// `s` is ordered by id, smallest first.
pub open spec fn sorted_by_id(s: Seq<RebaseDaliyEpisode>) -> bool {
    forall|i: int, j: int| 0 <= i <= j < s.len() ==> s[i].id <= s[j].id
}

/// The concatenation of the episode lists of all answers, in order.
pub open spec fn all_episodes(pages: Seq<RebaseDaliy>) -> Seq<RebaseDaliyEpisode>
    decreases pages.len(),
{
    if pages.len() == 0 {
        Seq::empty()
    } else {
        all_episodes(pages.drop_last()) + pages.last().data@
    }
}

pub proof fn lemma_with_id_add(a: Seq<RebaseDaliyEpisode>, b: Seq<RebaseDaliyEpisode>, k: usize)
    ensures
        with_id(a + b, k) == with_id(a, k) + with_id(b, k),
    decreases b.len(),
{
    if b.len() == 0 {
        assert(a + b == a);
        assert(with_id(b, k) == b);
    } else {
        lemma_with_id_add(a, b.drop_last(), k);
        assert((a + b).drop_last() == a + b.drop_last());
        assert((a + b).last() == b.last());
    }
}

pub proof fn lemma_with_id_none(b: Seq<RebaseDaliyEpisode>, k: usize)
    requires
        forall|i: int| 0 <= i < b.len() ==> b[i].id != k,
    ensures
        with_id(b, k) == Seq::<RebaseDaliyEpisode>::empty(),
    decreases b.len(),
{
    if b.len() > 0 {
        lemma_with_id_none(b.drop_last(), k);
    }
}

pub proof fn lemma_with_id_single(x: RebaseDaliyEpisode, k: usize)
    ensures
        with_id(seq![x], k) == (if x.id == k { seq![x] } else { Seq::<RebaseDaliyEpisode>::empty() }),
{
    assert(seq![x].drop_last() =~= Seq::<RebaseDaliyEpisode>::empty());
    assert(with_id(Seq::<RebaseDaliyEpisode>::empty(), k) == Seq::<RebaseDaliyEpisode>::empty());
    assert(seq![x].last() == x);
    if x.id == k {
        assert(Seq::<RebaseDaliyEpisode>::empty().push(x) =~= seq![x]);
    }
}

/// Orders episodes by id, keeping episodes with equal ids in their
/// original order (a stable sort).
pub fn sort_by_id(v: Vec<RebaseDaliyEpisode>) -> (r: Vec<RebaseDaliyEpisode>)
    ensures
        sorted_by_id(r@),
        forall|k: usize| #[trigger] with_id(r@, k) == with_id(v@, k),
{
    let ghost orig = v@;
    let mut rest = v;
    let mut out: Vec<RebaseDaliyEpisode> = Vec::new();
    let ghost mut taken: Seq<RebaseDaliyEpisode> = Seq::empty();
    while rest.len() > 0
        invariant
            orig == taken + rest@,
            sorted_by_id(out@),
            forall|k: usize| #[trigger] with_id(out@, k) == with_id(taken, k),
        decreases rest.len(),
    {
        let x = rest.remove(0);
        let ghost xs = x;
        let mut p: usize = 0;
        while p < out.len() && out[p].id <= x.id
            invariant
                p <= out.len(),
                forall|j: int| 0 <= j < p ==> out@[j].id <= x.id,
            decreases out.len() - p,
        {
            p = p + 1;
        }
        let ghost before = out@;
        assert(forall|j: int| p <= j < before.len() ==> before[j].id > x.id) by {
            if p < before.len() {
                assert(before[p as int].id > x.id);
            }
        }
        out.insert(p, x);
        proof {
            let lo = before.subrange(0, p as int);
            let hi = before.subrange(p as int, before.len() as int);
            assert(before == lo + hi);
            assert(out@ == lo + seq![xs] + hi);
            assert forall|k: usize| #[trigger] with_id(out@, k) == with_id(taken.push(xs), k) by {
                lemma_with_id_add(lo + seq![xs], hi, k);
                lemma_with_id_add(lo, seq![xs], k);
                lemma_with_id_add(lo, hi, k);
                lemma_with_id_add(taken, seq![xs], k);
                lemma_with_id_single(xs, k);
                assert(taken + seq![xs] == taken.push(xs));
                if k == xs.id {
                    lemma_with_id_none(hi, k);
                }
            }
            assert(orig == taken.push(xs) + rest@);
            taken = taken.push(xs);
        }
    }
    assert(taken == orig);
    out
}

/// All episodes of the answers, ordered by id (a stable sort of their
/// concatenation).
pub fn collect_episodes(pages: Vec<RebaseDaliy>) -> (r: Vec<RebaseDaliyEpisode>)
    ensures
        sorted_by_id(r@),
        forall|k: usize| #[trigger] with_id(r@, k) == with_id(all_episodes(pages@), k),
{
    let ghost orig = pages@;
    let mut rest = pages;
    let mut all: Vec<RebaseDaliyEpisode> = Vec::new();
    let ghost mut done: Seq<RebaseDaliy> = Seq::empty();
    while rest.len() > 0
        invariant
            orig == done + rest@,
            all@ == all_episodes(done),
        decreases rest.len(),
    {
        let page = rest.remove(0);
        let ghost ps = page;
        let mut d = page.data;
        all.append(&mut d);
        proof {
            assert(done.push(ps).drop_last() == done);
            assert(orig == done.push(ps) + rest@);
            done = done.push(ps);
        }
    }
    assert(done == orig);
    sort_by_id(all)
}

/// The ids of the episodes, in order.
pub fn episode_ids(v: &Vec<RebaseDaliyEpisode>) -> (r: Vec<usize>)
    ensures
        r@ == v@.map_values(|e: RebaseDaliyEpisode| e.id),
{
    let mut r: Vec<usize> = Vec::new();
    let mut i: usize = 0;
    while i < v.len()
        invariant
            i <= v.len(),
            r@ == v@.take(i as int).map_values(|e: RebaseDaliyEpisode| e.id),
        decreases v.len() - i,
    {
        r.push(v[i].id);
        assert(v@.take(i + 1) == v@.take(i as int).push(v@[i as int]));
        i = i + 1;
    }
    assert(v@.take(v.len() as int) == v@);
    r
}

} // verus!
