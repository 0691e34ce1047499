use vstd::prelude::*;

use std::collections::HashMap;

use crate::types::Edge;

verus! {

broadcast use vstd::std_specs::hash::group_hash_axioms;

/// The last position of `ids` that holds `id`: a later keyframe with the
/// same id takes the place of an earlier one.
pub open spec fn last_position(ids: Seq<u32>, id: u32) -> Option<int>
    decreases ids.len(),
{
    if ids.len() == 0 {
        None
    } else if ids.last() == id {
        Some(ids.len() - 1)
    } else {
        last_position(ids.drop_last(), id)
    }
}

/// The edges of `edges` whose two keyframes are both known, in order, each
/// as the positions of its two keyframes in `ids`.
pub open spec fn drawable_edges(edges: Seq<Edge>, ids: Seq<u32>) -> Seq<(usize, usize)>
    decreases edges.len(),
{
    if edges.len() == 0 {
        Seq::empty()
    } else {
        let rest = drawable_edges(edges.drop_last(), ids);
        let e = edges.last();
        match (last_position(ids, e.id0), last_position(ids, e.id1)) {
            (Some(p0), Some(p1)) => rest.push((p0 as usize, p1 as usize)),
            _ => rest,
        }
    }
}

proof fn lemma_last_position_bounds(ids: Seq<u32>, id: u32)
    ensures
        last_position(ids, id) matches Some(p) ==> 0 <= p < ids.len() && ids[p] == id,
    decreases ids.len(),
{
    if ids.len() > 0 && ids.last() != id {
        lemma_last_position_bounds(ids.drop_last(), id);
    }
}

/// Every pair drawn joins the two keyframes of some edge: the keyframes at
/// the two positions carry the edge's two ids.
pub proof fn law_drawn_pairs_are_edges(edges: Seq<Edge>, ids: Seq<u32>)
    requires
        ids.len() <= usize::MAX,
    ensures
        forall|i: int|
            0 <= i < drawable_edges(edges, ids).len() ==> exists|j: int|
                0 <= j < edges.len() && ids[(#[trigger] drawable_edges(edges, ids)[i]).0 as int]
                    == edges[j].id0 && ids[drawable_edges(edges, ids)[i].1 as int]
                    == edges[j].id1,
    decreases edges.len(),
{
    if edges.len() > 0 {
        let d = edges.drop_last();
        law_drawn_pairs_are_edges(d, ids);
        lemma_last_position_bounds(ids, edges.last().id0);
        lemma_last_position_bounds(ids, edges.last().id1);
        let rest = drawable_edges(d, ids);
        let all = drawable_edges(edges, ids);
        assert forall|i: int| 0 <= i < all.len() implies exists|j: int|
            0 <= j < edges.len() && ids[(#[trigger] all[i]).0 as int] == edges[j].id0 && ids[all[i].1 as int]
                == edges[j].id1 by {
            if i < rest.len() {
                assert(all[i] == rest[i]);
                let j = choose|j: int|
                    0 <= j < d.len() && ids[rest[i].0 as int] == d[j].id0 && ids[rest[i].1 as int]
                        == d[j].id1;
                assert(edges[j] == d[j]);
            } else {
                assert(edges[edges.len() - 1] == edges.last());
            }
        }
    }
}

/// Pairs up the keyframes of the SLAM graph's edges: for every edge whose
/// two keyframes are both among `keyframe_ids`, in the order of the edges,
/// the positions of its two keyframes. A keyframe id that occurs more than
/// once stands for its last occurrence.
pub fn edge_endpoints(edges: &Vec<Edge>, keyframe_ids: &Vec<u32>) -> (r: Vec<(usize, usize)>)
    ensures
        r@ == drawable_edges(edges@, keyframe_ids@),
        forall|i: int|
            0 <= i < r@.len() ==> (#[trigger] r@[i]).0 < keyframe_ids@.len() && r@[i].1
                < keyframe_ids@.len(),
{
    let mut positions: HashMap<u32, usize> = HashMap::new();
    let mut k: usize = 0;
    while k < keyframe_ids.len()
        invariant
            k <= keyframe_ids@.len(),
            forall|id: u32|
                #![trigger positions@.contains_key(id)]
                match last_position(keyframe_ids@.take(k as int), id) {
                    Some(p) => positions@.contains_key(id) && positions@[id] as int == p,
                    None => !positions@.contains_key(id),
                },
        decreases keyframe_ids@.len() - k,
    {
        let id = keyframe_ids[k];
        positions.insert(id, k);
        proof {
            let pre = keyframe_ids@.take(k as int);
            let post = keyframe_ids@.take(k + 1);
            assert(post.drop_last() =~= pre);
            assert(post.last() == id);
        }
        k = k + 1;
    }
    assert(keyframe_ids@.take(keyframe_ids@.len() as int) =~= keyframe_ids@);
    let mut r: Vec<(usize, usize)> = Vec::new();
    let mut i: usize = 0;
    while i < edges.len()
        invariant
            i <= edges@.len(),
            forall|id: u32|
                #![trigger positions@.contains_key(id)]
                match last_position(keyframe_ids@, id) {
                    Some(p) => positions@.contains_key(id) && positions@[id] as int == p,
                    None => !positions@.contains_key(id),
                },
            r@ == drawable_edges(edges@.take(i as int), keyframe_ids@),
        decreases edges@.len() - i,
    {
        let e = edges[i];
        assert(edges@.take(i + 1).drop_last() =~= edges@.take(i as int));
        assert(edges@.take(i + 1).last() == e);
        let p0 = positions.get(&e.id0);
        let p1 = positions.get(&e.id1);
        assert(positions@.contains_key(e.id0) == (last_position(keyframe_ids@, e.id0) is Some));
        assert(positions@.contains_key(e.id1) == (last_position(keyframe_ids@, e.id1) is Some));
        match (p0, p1) {
            (Some(a), Some(b)) => {
                r.push((*a, *b));
            },
            _ => {},
        }
        i = i + 1;
    }
    assert(edges@.take(edges@.len() as int) =~= edges@);
    proof {
        lemma_drawable_edges_bounds(edges@, keyframe_ids@);
    }
    r
}

proof fn lemma_drawable_edges_bounds(edges: Seq<Edge>, ids: Seq<u32>)
    requires
        ids.len() <= usize::MAX,
    ensures
        forall|i: int|
            0 <= i < drawable_edges(edges, ids).len() ==> (#[trigger] drawable_edges(edges, ids)[i]).0
                < ids.len() && drawable_edges(edges, ids)[i].1 < ids.len(),
    decreases edges.len(),
{
    if edges.len() > 0 {
        lemma_drawable_edges_bounds(edges.drop_last(), ids);
        lemma_last_position_bounds(ids, edges.last().id0);
        lemma_last_position_bounds(ids, edges.last().id1);
        let rest = drawable_edges(edges.drop_last(), ids);
        let all = drawable_edges(edges, ids);
        assert forall|i: int| 0 <= i < all.len() implies (#[trigger] all[i]).0 < ids.len() && all[i].1
            < ids.len() by {
            if i < rest.len() {
                assert(all[i] == rest[i]);
            }
        }
    }
}

/// The edges of `edges` whose two keyframes both occur in `ids`, in order.
pub open spec fn edges_with_known_keyframes(edges: Seq<Edge>, ids: Seq<u32>) -> Seq<Edge> {
    edges.filter(|e: Edge| ids.contains(e.id0) && ids.contains(e.id1))
}

/// `p` is the last position of `ids` that holds `id`.
pub open spec fn is_last_position(ids: Seq<u32>, id: u32, p: int) -> bool {
    &&& 0 <= p < ids.len()
    &&& ids[p] == id
    &&& forall|q: int| p < q < ids.len() ==> ids[q] != id
}

proof fn lemma_last_position(ids: Seq<u32>, id: u32)
    ensures
        match last_position(ids, id) {
            Some(p) => is_last_position(ids, id, p),
            None => !ids.contains(id),
        },
    decreases ids.len(),
{
    if ids.len() > 0 {
        let d = ids.drop_last();
        lemma_last_position(d, id);
        if ids.last() != id {
            match last_position(d, id) {
                Some(p) => {
                    assert forall|q: int| p < q < ids.len() implies ids[q] != id by {
                        if q < d.len() {
                            assert(ids[q] == d[q]);
                        }
                    }
                },
                None => {
                    if ids.contains(id) {
                        let k = choose|k: int| 0 <= k < ids.len() && ids[k] == id;
                        assert(d[k] == id);
                    }
                },
            }
        }
    }
}

/// Every edge whose two keyframes are both known is drawn, in the order of
/// the edges, and nothing else: the `i`-th pair drawn is the `i`-th such
/// edge, as the last positions of its two keyframes (whatever these
/// positions are, the first included).
pub proof fn law_every_known_edge_is_drawn(edges: Seq<Edge>, ids: Seq<u32>)
    requires
        ids.len() <= usize::MAX,
    ensures
        drawable_edges(edges, ids).len() == edges_with_known_keyframes(edges, ids).len(),
        forall|i: int|
            0 <= i < drawable_edges(edges, ids).len() ==> is_last_position(
                ids,
                edges_with_known_keyframes(edges, ids)[i].id0,
                (#[trigger] drawable_edges(edges, ids)[i]).0 as int,
            ) && is_last_position(
                ids,
                edges_with_known_keyframes(edges, ids)[i].id1,
                drawable_edges(edges, ids)[i].1 as int,
            ),
    decreases edges.len(),
{
    reveal(Seq::filter);
    if edges.len() > 0 {
        let d = edges.drop_last();
        law_every_known_edge_is_drawn(d, ids);
        let e = edges.last();
        lemma_last_position(ids, e.id0);
        lemma_last_position(ids, e.id1);
        let rest = drawable_edges(d, ids);
        let all = drawable_edges(edges, ids);
        let kd = edges_with_known_keyframes(d, ids);
        let ke = edges_with_known_keyframes(edges, ids);
        assert(ke == if ids.contains(e.id0) && ids.contains(e.id1) {
            kd.push(e)
        } else {
            kd
        });
        assert forall|i: int| 0 <= i < all.len() implies is_last_position(
            ids,
            ke[i].id0,
            (#[trigger] all[i]).0 as int,
        ) && is_last_position(ids, ke[i].id1, all[i].1 as int) by {
            if i < rest.len() {
                assert(all[i] == rest[i]);
                assert(ke[i] == kd[i]);
            }
        }
    }
}

} // verus!
