//! Choosing the client that answers a query: round robin over the
//! candidates taken in client id order.

use crate::ids::ClientId;
use crate::text::{lemma_text_lt_strict_total, lemma_text_order_total, text_le, text_lt, text_order};
use vstd::prelude::*;
use vstd::relations::sorted_by;

verus! {

broadcast use vstd::seq_lib::group_to_multiset_ensures;

/// The texts of a sequence of client ids.
pub open spec fn ids_view(s: Seq<ClientId>) -> Seq<Seq<char>> {
    s.map_values(|c: ClientId| c@)
}

/// The texts sorted in lexicographic order.
pub open spec fn sorted_texts(s: Seq<Seq<char>>) -> Seq<Seq<char>> {
    s.sort_by(text_order())
}

/// `p` is the first position of `x` in `s`.
pub open spec fn is_first_position(s: Seq<Seq<char>>, x: Seq<char>, p: int) -> bool {
    &&& 0 <= p < s.len()
    &&& s[p] == x
    &&& forall|q: int| 0 <= q < p ==> s[q] != x
}

/// The first position of `x` in `s`, when `s` contains it.
pub open spec fn first_position(s: Seq<Seq<char>>, x: Seq<char>) -> int {
    choose|p: int| is_first_position(s, x, p)
}

/// What round robin selects among `candidates` after `last` was selected:
/// the candidates are sorted; the one after the first occurrence of `last`
/// comes next, wrapping round to the first, and the first one comes when
/// `last` is absent or not a candidate.
pub open spec fn round_robin_pick(last: Option<Seq<char>>, candidates: Seq<Seq<char>>) -> Option<
    Seq<char>,
> {
    if candidates.len() == 0 {
        None
    } else {
        let sorted = sorted_texts(candidates);
        match last {
            Some(l) => if sorted.contains(l) {
                Some(sorted[(first_position(sorted, l) + 1) % (sorted.len() as int)])
            } else {
                Some(sorted[0])
            },
            None => Some(sorted[0]),
        }
    }
}

/// The first position is the only position that is first.
pub proof fn lemma_first_position_unique(s: Seq<Seq<char>>, x: Seq<char>, p: int)
    requires
        is_first_position(s, x, p),
    ensures
        first_position(s, x) == p,
{
    let q = first_position(s, x);
    assert(is_first_position(s, x, q));
    if q < p {
        assert(s[q] != x);
    } else if p < q {
        assert(s[p] != x);
    }
}

fn insert_sorted(v: &mut Vec<ClientId>, c: ClientId)
    requires
        sorted_by(ids_view(old(v)@), text_order()),
    ensures
        sorted_by(ids_view(final(v)@), text_order()),
        ids_view(final(v)@).to_multiset() == ids_view(old(v)@).to_multiset().insert(c@),
        final(v)@.len() == old(v)@.len() + 1,
{
    proof {
        lemma_text_order_total();
    }
    let ghost old_view = ids_view(v@);
    let mut j: usize = 0;
    while j < v.len() && !c.precedes(&v[j])
        invariant
            j <= v.len(),
            v@ == old(v)@,
            forall|k: int| 0 <= k < j ==> text_le(#[trigger] v@[k]@, c@),
        decreases v.len() - j,
    {
        proof {
            lemma_text_lt_strict_total(c@, v@[j as int]@, c@);
        }
        j += 1;
    }
    let ghost jj = j as int;
    v.insert(j, c);
    proof {
        let nv = ids_view(v@);
        assert(nv =~= old_view.insert(jj, c@));
        assert forall|a: int, b: int| 0 <= a < b < nv.len() implies #[trigger] text_order()(
            nv[a],
            nv[b],
        ) by {
            if b < jj {
                assert(old_view[a] == nv[a] && old_view[b] == nv[b]);
            } else if b == jj {
                assert(nv[a] == old_view[a]);
                assert(text_le(old(v)@[a]@, c@));
            } else if a == jj {
                // c precedes old_view[jj] <= old_view[b - 1]
                assert(nv[b] == old_view[b - 1]);
                assert(text_lt(c@, old_view[jj]));
                if b - 1 > jj {
                    assert(text_order()(old_view[jj], old_view[b - 1]));
                    lemma_text_lt_strict_total(c@, old_view[jj], old_view[b - 1]);
                }
            } else if a < jj {
                assert(nv[a] == old_view[a]);
                assert(nv[b] == old_view[b - 1]);
                assert(text_order()(old_view[a], old_view[b - 1]));
            } else {
                assert(nv[a] == old_view[a - 1]);
                assert(nv[b] == old_view[b - 1]);
                assert(text_order()(old_view[a - 1], old_view[b - 1]));
            }
        }
    }
}

/// The candidates sorted by client id, as `sort` orders them.
pub fn sorted_ids(candidates: &[ClientId]) -> (r: Vec<ClientId>)
    ensures
        ids_view(r@) == sorted_texts(ids_view(candidates@)),
{
    let mut r: Vec<ClientId> = Vec::new();
    let mut i: usize = 0;
    while i < candidates.len()
        invariant
            i <= candidates@.len(),
            sorted_by(ids_view(r@), text_order()),
            ids_view(r@).to_multiset() == ids_view(candidates@.take(i as int)).to_multiset(),
        decreases candidates@.len() - i,
    {
        let c = candidates[i].clone();
        insert_sorted(&mut r, c);
        proof {
            assert(ids_view(candidates@.take(i + 1)) =~= ids_view(candidates@.take(i as int)).push(
                candidates@[i as int]@,
            ));
        }
        i += 1;
    }
    proof {
        assert(candidates@.take(i as int) =~= candidates@);
        lemma_text_order_total();
        ids_view(candidates@).lemma_sort_by_ensures(text_order());
        vstd::seq_lib::lemma_sorted_unique(
            ids_view(r@),
            sorted_texts(ids_view(candidates@)),
            text_order(),
        );
    }
    r
}


/// The text of an optional client id.
pub open spec fn opt_id_view(o: Option<ClientId>) -> Option<Seq<char>> {
    match o {
        Some(c) => Some(c@),
        None => None,
    }
}

/// Round robin selection among the clients that can answer a query. It
/// remembers the client it selected last.
pub struct RoundRobinStrategy {
    last_selected: Option<ClientId>,
}

impl RoundRobinStrategy {
    /// The client selected last, if any.
    pub closed spec fn last_view(&self) -> Option<Seq<char>> {
        opt_id_view(self.last_selected)
    }

    /// A strategy that has selected nobody yet.
    pub fn new() -> (r: Self)
        ensures
            r.last_view() == None::<Seq<char>>,
    {
        RoundRobinStrategy { last_selected: None }
    }

    /// The client selected last, if any.
    pub fn last_selected(&self) -> (r: Option<ClientId>)
        ensures
            opt_id_view(r) == self.last_view(),
    {
        match &self.last_selected {
            Some(c) => Some(c.clone()),
            None => None,
        }
    }

    /// Selects the next client among `candidates` and remembers it; with no
    /// candidate it selects nobody and forgets the last selection.
    pub fn next(&mut self, candidates: &[ClientId]) -> (r: Option<ClientId>)
        ensures
            opt_id_view(r) == round_robin_pick(old(self).last_view(), ids_view(candidates@)),
            final(self).last_view() == opt_id_view(r),
    {
        if candidates.len() == 0 {
            self.last_selected = None;
            return None;
        }
        let sorted = sorted_ids(candidates);
        proof {
            lemma_text_order_total();
            ids_view(candidates@).lemma_sort_by_ensures(text_order());
            assert(ids_view(sorted@).len() == ids_view(sorted@).to_multiset().len());
            assert(ids_view(candidates@).len() == ids_view(candidates@).to_multiset().len());
        }
        let n = sorted.len();
        let ghost sv = ids_view(sorted@);
        let mut idx: usize = 0;
        match &self.last_selected {
            Some(last) => {
                let mut p: usize = 0;
                let mut found = false;
                while p < n && !found
                    invariant
                        n == sorted@.len(),
                        sv == ids_view(sorted@),
                        p <= n,
                        found ==> p < n && is_first_position(sv, last@, p as int),
                        !found ==> forall|q: int| 0 <= q < p ==> sv[q] != last@,
                    decreases 2 * (n - p) + (if found { 0int } else { 1int }),
                {
                    if sorted[p].same_as(last) {
                        found = true;
                    } else {
                        p += 1;
                    }
                }
                if found {
                    proof {
                        lemma_first_position_unique(sv, last@, p as int);
                        assert(sv.contains(last@));
                    }
                    idx = (p + 1) % n;
                } else {
                    proof {
                        assert(!sv.contains(last@));
                    }
                }
            },
            None => {},
        }
        let chosen = sorted[idx].clone();
        self.last_selected = Some(chosen.clone());
        Some(chosen)
    }
}

} // verus!
