use vstd::prelude::*;

use std::collections::HashMap;
use vstd::std_specs::iter::IteratorSpec;

verus! {

broadcast use vstd::std_specs::hash::group_hash_axioms;

/// One object detection, reduced to what the classifier reads of it: its
/// class and the map landmarks that its image features belong to.
pub struct Detection {
    pub class: u32,
    pub landmark_ids: Vec<u32>,
}

/// For each landmark, for each class, how many detections of that class
/// covered the landmark.
pub type ClassCounts = HashMap<u32, HashMap<u32, u32>>;

/// Turns detections into per-landmark class votes, and picks the class a
/// landmark most likely belongs to.
pub struct LandmarkClassifier {}

/// The tally of a `ClassCounts`, as a map of maps.
pub open spec fn tally(m: ClassCounts) -> Map<u32, Map<u32, u32>> {
    m@.map_values(|inner: HashMap<u32, u32>| inner@)
}

/// The votes of the classes for landmark `id` in `t`; none when the
/// landmark has none.
pub open spec fn votes(t: Map<u32, Map<u32, u32>>, id: u32) -> Map<u32, u32> {
    if t.contains_key(id) { t[id] } else { Map::empty() }
}

/// The number of votes of `class` for landmark `id` in `t`.
pub open spec fn vote_count(t: Map<u32, Map<u32, u32>>, id: u32, class: u32) -> int {
    if votes(t, id).contains_key(class) { votes(t, id)[class] as int } else { 0 }
}

/// How often `id` occurs in `ids`.
pub open spec fn occurrences(ids: Seq<u32>, id: u32) -> nat
    decreases ids.len(),
{
    if ids.len() == 0 {
        0
    } else {
        occurrences(ids.drop_last(), id) + if ids.last() == id { 1nat } else { 0nat }
    }
}

/// How many votes the detections `dets` cast for `class` on landmark `id`:
/// one for every feature of a detection of that class on that landmark.
pub open spec fn cast_votes(dets: Seq<Detection>, id: u32, class: u32) -> nat
    decreases dets.len(),
{
    if dets.len() == 0 {
        0
    } else {
        cast_votes(dets.drop_last(), id, class) + if dets.last().class == class {
            occurrences(dets.last().landmark_ids@, id)
        } else {
            0nat
        }
    }
}

/// Some detection of `dets` has a feature on landmark `id`.
pub open spec fn covers(dets: Seq<Detection>, id: u32) -> bool {
    exists|i: int| 0 <= i < dets.len() && #[trigger] dets[i].landmark_ids@.contains(id)
}

/// `after` is `before` with the votes of `dets` added: a landmark is listed
/// once some detection covers it, a class once it has a vote, and every
/// count grows by the votes cast.
pub open spec fn votes_added(
    before: Map<u32, Map<u32, u32>>,
    after: Map<u32, Map<u32, u32>>,
    dets: Seq<Detection>,
) -> bool {
    &&& forall|id: u32| #[trigger]
        after.contains_key(id) <==> before.contains_key(id) || covers(dets, id)
    &&& forall|id: u32, class: u32| #[trigger]
        votes(after, id).contains_key(class) <==> votes(before, id).contains_key(class)
            || cast_votes(dets, id, class) > 0
    &&& forall|id: u32, class: u32| #[trigger]
        vote_count(after, id, class) == vote_count(before, id, class) + cast_votes(dets, id, class)
}

proof fn lemma_occurrences_bound(ids: Seq<u32>, id: u32)
    ensures
        occurrences(ids, id) <= ids.len(),
        occurrences(ids, id) > 0 <==> ids.contains(id),
    decreases ids.len(),
{
    if ids.len() > 0 {
        lemma_occurrences_bound(ids.drop_last(), id);
        if ids.drop_last().contains(id) {
            let k = choose|k: int| 0 <= k < ids.drop_last().len() && ids.drop_last()[k] == id;
            assert(ids[k] == id);
        }
        if ids.contains(id) && ids.last() != id {
            let k = choose|k: int| 0 <= k < ids.len() && ids[k] == id;
            assert(ids.drop_last()[k] == id);
        }
    }
}

proof fn lemma_occurrences_prefix(ids: Seq<u32>, id: u32, j: int)
    requires
        0 <= j <= ids.len(),
    ensures
        occurrences(ids.take(j), id) <= occurrences(ids, id),
    decreases ids.len() - j,
{
    if j < ids.len() {
        lemma_occurrences_prefix(ids, id, j + 1);
        assert(ids.take(j + 1).drop_last() =~= ids.take(j));
    } else {
        assert(ids.take(j) =~= ids);
    }
}

proof fn lemma_cast_votes_prefix(dets: Seq<Detection>, id: u32, class: u32, i: int)
    requires
        0 <= i < dets.len(),
    ensures
        cast_votes(dets.take(i), id, class) + (if dets[i].class == class {
            occurrences(dets[i].landmark_ids@, id)
        } else {
            0nat
        }) <= cast_votes(dets, id, class),
    decreases dets.len() - i,
{
    assert(dets.take(i + 1).drop_last() =~= dets.take(i));
    if i + 1 < dets.len() {
        lemma_cast_votes_prefix(dets, id, class, i + 1);
    } else {
        assert(dets.take(i + 1) =~= dets);
    }
}

proof fn lemma_cast_votes_concat(a: Seq<Detection>, b: Seq<Detection>, id: u32, class: u32)
    ensures
        cast_votes(a + b, id, class) == cast_votes(a, id, class) + cast_votes(b, id, class),
    decreases b.len(),
{
    if b.len() == 0 {
        assert(a + b =~= a);
    } else {
        lemma_cast_votes_concat(a, b.drop_last(), id, class);
        assert((a + b).drop_last() =~= a + b.drop_last());
        assert((a + b).last() == b.last());
    }
}

/// Votes add up the same however the detections are batched: counting `a`
/// and then `b` gives what counting `a` followed by `b` at once gives.
pub proof fn law_votes_batch(
    t0: Map<u32, Map<u32, u32>>,
    t1: Map<u32, Map<u32, u32>>,
    t2: Map<u32, Map<u32, u32>>,
    a: Seq<Detection>,
    b: Seq<Detection>,
)
    requires
        votes_added(t0, t1, a),
        votes_added(t1, t2, b),
    ensures
        votes_added(t0, t2, a + b),
{
    assert forall|id: u32| #[trigger] covers(a + b, id) <==> covers(a, id) || covers(b, id) by {
        let ab = a + b;
        if covers(ab, id) {
            let w = choose|w: int| 0 <= w < ab.len() && #[trigger] ab[w].landmark_ids@.contains(id);
            if w < a.len() {
                assert(a[w] == ab[w]);
            } else {
                assert(b[w - a.len()] == ab[w]);
            }
        }
        if covers(a, id) {
            let w = choose|w: int| 0 <= w < a.len() && #[trigger] a[w].landmark_ids@.contains(id);
            assert(ab[w] == a[w]);
        }
        if covers(b, id) {
            let w = choose|w: int| 0 <= w < b.len() && #[trigger] b[w].landmark_ids@.contains(id);
            assert(ab[w + a.len()] == b[w]);
        }
    }
    assert forall|id: u32, class: u32| #[trigger]
        vote_count(t2, id, class) == vote_count(t0, id, class) + cast_votes(a + b, id, class) by {
        lemma_cast_votes_concat(a, b, id, class);
    }
    assert forall|id: u32, class: u32| #[trigger]
        votes(t2, id).contains_key(class) <==> votes(t0, id).contains_key(class) || cast_votes(
            a + b,
            id,
            class,
        ) > 0 by {
        lemma_cast_votes_concat(a, b, id, class);
    }
}

/// How many features of `ids` lie on landmark `id`: the length of `ids`
/// with every other landmark left out.
pub open spec fn features_on(ids: Seq<u32>, id: u32) -> nat {
    ids.filter(|x: u32| x == id).len()
}

proof fn lemma_occurrences_features_on(ids: Seq<u32>, id: u32)
    ensures
        occurrences(ids, id) == features_on(ids, id),
    decreases ids.len(),
{
    reveal(Seq::filter);
    if ids.len() > 0 {
        lemma_occurrences_features_on(ids.drop_last(), id);
    }
}

/// One detection casts one vote per feature, whatever its class: counting
/// the detection `d` adds to the votes of `d`'s class for each landmark the
/// number of `d`'s features on that landmark (so a single feature adds
/// exactly one vote), and leaves every other class's votes as they were.
pub proof fn law_one_vote_per_feature(
    before: Map<u32, Map<u32, u32>>,
    after: Map<u32, Map<u32, u32>>,
    d: Detection,
)
    requires
        votes_added(before, after, seq![d]),
    ensures
        forall|id: u32| #[trigger]
            vote_count(after, id, d.class) == vote_count(before, id, d.class) + features_on(
                d.landmark_ids@,
                id,
            ),
        forall|id: u32, class: u32|
            class != d.class ==> #[trigger] vote_count(after, id, class) == vote_count(
                before,
                id,
                class,
            ),
        d.landmark_ids@.len() == 1 ==> vote_count(after, d.landmark_ids@[0], d.class)
            == vote_count(before, d.landmark_ids@[0], d.class) + 1,
{
    let one = seq![d];
    assert(one.drop_last() =~= Seq::<Detection>::empty());
    assert(one.last() == d);
    assert forall|id: u32| #[trigger]
        vote_count(after, id, d.class) == vote_count(before, id, d.class) + features_on(
            d.landmark_ids@,
            id,
        ) by {
        lemma_occurrences_features_on(d.landmark_ids@, id);
        assert(cast_votes(Seq::<Detection>::empty(), id, d.class) == 0);
        assert(cast_votes(one, id, d.class) == occurrences(d.landmark_ids@, id));
    }
    assert forall|id: u32, class: u32|
        class != d.class implies #[trigger] vote_count(after, id, class) == vote_count(
            before,
            id,
            class,
        ) by {
        assert(cast_votes(Seq::<Detection>::empty(), id, class) == 0);
        assert(cast_votes(one, id, class) == 0);
    }
    if d.landmark_ids@.len() == 1 {
        let id = d.landmark_ids@[0];
        reveal_with_fuel(Seq::filter, 2);
        assert(d.landmark_ids@.drop_last() =~= Seq::<u32>::empty());
        assert(features_on(d.landmark_ids@, id) == 1) by {
            lemma_occurrences_features_on(d.landmark_ids@, id);
            assert(occurrences(d.landmark_ids@.drop_last(), id) == 0);
        }
    }
}

impl LandmarkClassifier {
    /// Adds one vote of `class` for landmark `id`.
    fn vote(counts: &mut ClassCounts, id: u32, class: u32)
        requires
            vote_count(tally(*old(counts)), id, class) < u32::MAX,
        ensures
            tally(*final(counts)) == tally(*old(counts)).insert(
                id,
                votes(tally(*old(counts)), id).insert(
                    class,
                    (vote_count(tally(*old(counts)), id, class) + 1) as u32,
                ),
            ),
    {
        let ghost t = tally(*counts);
        let mut classes = match counts.remove(&id) {
            Some(classes) => classes,
            None => HashMap::new(),
        };
        assert(classes@ == votes(t, id));
        let current: u32 = match classes.get(&class) {
            Some(n) => *n,
            None => 0,
        };
        classes.insert(class, current + 1);
        counts.insert(id, classes);
        assert(tally(*counts) =~= t.insert(
            id,
            votes(t, id).insert(class, (vote_count(t, id, class) + 1) as u32),
        ));
    }

    /// Counts the votes of `detections`: every feature of a detection is a
    /// vote of the detection's class for the feature's landmark.
    pub fn record_detections(counts: &mut ClassCounts, detections: &Vec<Detection>)
        requires
            forall|id: u32, class: u32|
                #[trigger] vote_count(tally(*old(counts)), id, class) + cast_votes(
                    detections@,
                    id,
                    class,
                ) <= u32::MAX,
        ensures
            votes_added(tally(*old(counts)), tally(*final(counts)), detections@),
    {
        let ghost t0 = tally(*counts);
        let ghost dets = detections@;
        let mut i: usize = 0;
        while i < detections.len()
            invariant
                i <= dets.len(),
                dets == detections@,
                forall|id: u32, class: u32|
                    #[trigger] vote_count(t0, id, class) + cast_votes(dets, id, class) <= u32::MAX,
                votes_added(t0, tally(*counts), dets.take(i as int)),
            decreases dets.len() - i,
        {
            let det = &detections[i];
            let ghost before_det = tally(*counts);
            let mut j: usize = 0;
            while j < det.landmark_ids.len()
                invariant
                    i < dets.len(),
                    j <= det.landmark_ids@.len(),
                    *det == dets[i as int],
                    forall|id: u32, class: u32|
                        #[trigger] vote_count(t0, id, class) + cast_votes(dets, id, class)
                            <= u32::MAX,
                    votes_added(t0, before_det, dets.take(i as int)),
                    forall|id: u32| #[trigger]
                        tally(*counts).contains_key(id) <==> before_det.contains_key(id)
                            || det.landmark_ids@.take(j as int).contains(id),
                    forall|id: u32, class: u32| #[trigger]
                        votes(tally(*counts), id).contains_key(class) <==> votes(
                            before_det,
                            id,
                        ).contains_key(class) || (class == det.class && occurrences(
                            det.landmark_ids@.take(j as int),
                            id,
                        ) > 0),
                    forall|id: u32, class: u32| #[trigger]
                        vote_count(tally(*counts), id, class) == vote_count(before_det, id, class)
                            + if class == det.class {
                            occurrences(det.landmark_ids@.take(j as int), id)
                        } else {
                            0nat
                        },
                decreases det.landmark_ids@.len() - j,
            {
                let id = det.landmark_ids[j];
                let ghost before_vote = tally(*counts);
                proof {
                    lemma_cast_votes_prefix(dets, id, det.class, i as int);
                    lemma_occurrences_prefix(det.landmark_ids@, id, j as int);
                    lemma_occurrences_prefix(det.landmark_ids@, id, j + 1);
                    assert(det.landmark_ids@.take(j + 1).drop_last() =~= det.landmark_ids@.take(
                        j as int,
                    ));
                    assert(vote_count(t0, id, det.class) + cast_votes(dets, id, det.class)
                        <= u32::MAX);
                }
                Self::vote(counts, id, det.class);
                proof {
                    let ids = det.landmark_ids@;
                    assert(ids.take(j + 1).drop_last() =~= ids.take(j as int));
                    assert(ids.take(j + 1).last() == id);
                    let pre = ids.take(j as int);
                    let post = ids.take(j + 1);
                    assert forall|k: u32| #[trigger]
                        tally(*counts).contains_key(k) <==> before_det.contains_key(k)
                            || post.contains(k) by {
                        if pre.contains(k) {
                            let w = choose|w: int| 0 <= w < pre.len() && #[trigger] pre[w] == k;
                            assert(post[w] == k);
                        }
                        if post.contains(k) && k != id {
                            let w = choose|w: int| 0 <= w < post.len() && #[trigger] post[w] == k;
                            assert(pre[w] == k);
                        }
                        if k == id {
                            assert(post[j as int] == id);
                        }
                    }
                    assert forall|k: u32, c: u32| #[trigger]
                        votes(tally(*counts), k).contains_key(c) <==> votes(
                            before_det,
                            k,
                        ).contains_key(c) || (c == det.class && occurrences(ids.take(j + 1), k)
                            > 0) by {
                        assert(occurrences(post, k) == occurrences(pre, k) + if k == id {
                            1nat
                        } else {
                            0nat
                        });
                        if k == id {
                            assert(votes(tally(*counts), k) == votes(before_vote, k).insert(
                                det.class,
                                (vote_count(before_vote, k, det.class) + 1) as u32,
                            ));
                        } else {
                            assert(votes(tally(*counts), k) == votes(before_vote, k));
                        }
                    }
                    assert forall|k: u32, c: u32| #[trigger]
                        vote_count(tally(*counts), k, c) == vote_count(before_det, k, c)
                            + if c == det.class {
                            occurrences(ids.take(j + 1), k)
                        } else {
                            0nat
                        } by {
                        assert(occurrences(post, k) == occurrences(pre, k) + if k == id {
                            1nat
                        } else {
                            0nat
                        });
                        if k == id {
                            assert(votes(tally(*counts), k) == votes(before_vote, k).insert(
                                det.class,
                                (vote_count(before_vote, k, det.class) + 1) as u32,
                            ));
                            if c == det.class {
                                assert(vote_count(tally(*counts), k, c) == vote_count(before_vote, k, c)
                                    + 1);
                            } else {
                                assert(vote_count(tally(*counts), k, c) == vote_count(
                                    before_vote,
                                    k,
                                    c,
                                ));
                            }
                        } else {
                            assert(votes(tally(*counts), k) == votes(before_vote, k));
                            assert(vote_count(tally(*counts), k, c) == vote_count(before_vote, k, c));
                        }
                    }
                }
                j = j + 1;
            }
            proof {
                let ids = det.landmark_ids@;
                assert(ids.take(ids.len() as int) =~= ids);
                assert(dets.take(i + 1).drop_last() =~= dets.take(i as int));
                assert(dets.take(i + 1).last() == *det);
                assert forall|k: u32| #[trigger]
                    covers(dets.take(i + 1), k) <==> covers(dets.take(i as int), k)
                        || ids.contains(k) by {
                    if covers(dets.take(i + 1), k) {
                        let w = choose|w: int|
                            0 <= w < i + 1 && #[trigger] dets.take(i + 1)[w].landmark_ids@.contains(
                                k,
                            );
                        if w < i {
                            assert(dets.take(i as int)[w] == dets.take(i + 1)[w]);
                        }
                    }
                    if covers(dets.take(i as int), k) {
                        let w = choose|w: int|
                            0 <= w < i && #[trigger] dets.take(i as int)[w].landmark_ids@.contains(
                                k,
                            );
                        assert(dets.take(i + 1)[w] == dets.take(i as int)[w]);
                    }
                    if ids.contains(k) {
                        assert(dets.take(i + 1)[i as int] == *det);
                    }
                }
                assert forall|k: u32, c: u32|
                    #![trigger cast_votes(dets.take(i + 1), k, c)]
                    cast_votes(dets.take(i + 1), k, c) == cast_votes(dets.take(i as int), k, c)
                        + if c == det.class {
                        occurrences(ids, k)
                    } else {
                        0nat
                    } by {}
                assert forall|k: u32, c: u32| #[trigger]
                    votes(tally(*counts), k).contains_key(c) <==> votes(t0, k).contains_key(c)
                        || cast_votes(dets.take(i + 1), k, c) > 0 by {
                    assert(cast_votes(dets.take(i + 1), k, c) == cast_votes(dets.take(i as int), k, c)
                        + if c == det.class {
                        occurrences(ids, k)
                    } else {
                        0nat
                    });
                }
                assert forall|k: u32, c: u32| #[trigger]
                    vote_count(tally(*counts), k, c) == vote_count(t0, k, c) + cast_votes(
                        dets.take(i + 1),
                        k,
                        c,
                    ) by {
                    assert(cast_votes(dets.take(i + 1), k, c) == cast_votes(dets.take(i as int), k, c)
                        + if c == det.class {
                        occurrences(ids, k)
                    } else {
                        0nat
                    });
                }
            }
            i = i + 1;
        }
        proof {
            assert(dets.take(dets.len() as int) =~= dets);
        }
    }

    /// The class with the most votes among `classes`, with its count.
    /// `None` when there are no votes at all. Among classes with equally
    /// many votes, which one comes back depends on the map's inner order.
    pub fn top_class(classes: &HashMap<u32, u32>) -> (r: Option<(u32, u32)>)
        ensures
            r is None <==> classes@.dom() =~= Set::<u32>::empty(),
            r matches Some((class, count)) ==> {
                &&& classes@.contains_key(class)
                &&& classes@[class] == count
                &&& forall|c: u32| #[trigger] classes@.contains_key(c) ==> classes@[c] <= count
            },
    {
        let mut best: Option<(u32, u32)> = None;
        let ghost m = classes@;
        let ghost v = vstd::std_specs::hash::spec_hash_map_iter(classes).remaining();
        let ghost mut seen: int = 0;
        for (class, count) in it: classes.iter()
            invariant
                m == classes@,
                v == vstd::std_specs::hash::spec_hash_map_iter(classes).remaining(),
                it.seq() == v,
                seen == it.index(),
                best is None <==> it.index() == 0,
                best matches Some((b, n)) ==> {
                    &&& m.contains_key(b)
                    &&& m[b] == n
                    &&& forall|i: int|
                        #![trigger it.seq()[i]]
                        0 <= i < it.index() ==> *it.seq()[i].1 <= n
                },
        {
            let better = match best {
                Some((_, n)) => *count >= n,
                None => true,
            };
            if better {
                best = Some((*class, *count));
            }
            proof {
                seen = seen + 1;
            }
        }
        proof {
            assert(seen == v.len());
            if let Some((b, n)) = best {
                assert forall|c: u32| #[trigger] m.contains_key(c) implies m[c] <= n by {
                    assert(v.contains((&c, &m[c])));
                    let i = choose|i: int| 0 <= i < v.len() && v[i] == (&c, &m[c]);
                    assert(*v[i].1 <= n);
                }
            } else {
                if !(m.dom() =~= Set::<u32>::empty()) {
                    let c = choose|c: u32| m.dom().contains(c);
                    assert(v.contains((&c, &m[c])));
                }
            }
        }
        best
    }
}

/// How many of `matches` found no earlier detection.
pub open spec fn fresh_count(matches: Seq<Option<u32>>) -> nat
    decreases matches.len(),
{
    if matches.len() == 0 {
        0
    } else {
        fresh_count(matches.drop_last()) + if matches.last() is None {
            1nat
        } else {
            0nat
        }
    }
}

/// The id that detection `i` of a series gets, when `last` was the last id
/// handed out before the series and `matches` says, for each detection,
/// the id of the earlier detection it was matched to: that id again, or
/// else the next fresh number.
pub open spec fn assigned_id(last: int, matches: Seq<Option<u32>>, i: int) -> int {
    match matches[i] {
        Some(id) => id as int,
        None => last + fresh_count(matches.take(i + 1)),
    }
}

/// The ids of localized detections: a detection found again keeps the id
/// of the earlier one, a new detection gets the next number, and numbers
/// are never handed out twice.
pub struct DetectionIds {
    /// The last id handed out; 0 before the first.
    pub last: u32,
}

impl DetectionIds {
    /// No id handed out yet.
    pub fn new() -> (r: Self)
        ensures
            r.last == 0,
    {
        DetectionIds { last: 0 }
    }

    /// The id of a detection that was matched to the earlier detection
    /// `matched`, if any.
    pub fn id_for(&mut self, matched: Option<u32>) -> (id: u32)
        requires
            matched is None ==> old(self).last < u32::MAX,
        ensures
            match matched {
                Some(m) => id == m && final(self).last == old(self).last,
                None => id == old(self).last + 1 && final(self).last == id,
            },
    {
        match matched {
            Some(m) => m,
            None => {
                self.last = self.last + 1;
                self.last
            },
        }
    }

    /// The ids of a series of detections, given what each was matched to.
    pub fn assign_ids(&mut self, matches: &Vec<Option<u32>>) -> (ids: Vec<u32>)
        requires
            old(self).last + fresh_count(matches@) <= u32::MAX,
        ensures
            ids@.len() == matches@.len(),
            forall|i: int|
                0 <= i < matches@.len() ==> #[trigger] ids@[i] == assigned_id(
                    old(self).last as int,
                    matches@,
                    i,
                ),
            final(self).last == old(self).last + fresh_count(matches@),
    {
        let ghost start = self.last as int;
        let mut ids: Vec<u32> = Vec::new();
        let mut i: usize = 0;
        while i < matches.len()
            invariant
                i <= matches@.len(),
                ids@.len() == i,
                start + fresh_count(matches@) <= u32::MAX,
                self.last == start + fresh_count(matches@.take(i as int)),
                forall|j: int| 0 <= j < i ==> #[trigger] ids@[j] == assigned_id(start, matches@, j),
            decreases matches@.len() - i,
        {
            let ghost next = matches@.take(i + 1);
            assert(next.drop_last() =~= matches@.take(i as int));
            proof {
                lemma_fresh_count_prefix(matches@, i + 1);
            }
            let id = self.id_for(matches[i]);
            ids.push(id);
            i = i + 1;
        }
        assert(matches@.take(matches@.len() as int) =~= matches@);
        ids
    }
}

proof fn lemma_fresh_count_prefix(matches: Seq<Option<u32>>, k: int)
    requires
        0 <= k <= matches.len(),
    ensures
        fresh_count(matches.take(k)) <= fresh_count(matches),
    decreases matches.len(),
{
    if k == matches.len() {
        assert(matches.take(k) =~= matches);
    } else {
        let rest = matches.drop_last();
        assert(rest.take(k) =~= matches.take(k));
        lemma_fresh_count_prefix(rest, k);
    }
}

/// Fresh ids are never handed out twice: in a series of detections, every
/// unmatched detection gets a number above the last one handed out before,
/// and a later unmatched detection a greater number than an earlier one.
pub proof fn law_fresh_ids_increase(last: int, matches: Seq<Option<u32>>, i: int, j: int)
    requires
        0 <= i < j < matches.len(),
        matches[i] is None,
        matches[j] is None,
    ensures
        last < assigned_id(last, matches, i) < assigned_id(last, matches, j),
{
    let a = matches.take(i + 1);
    let b = matches.take(j + 1);
    assert(a.drop_last() =~= matches.take(i));
    assert(b.drop_last() =~= matches.take(j));
    assert(matches.take(j).take(i + 1) =~= a);
    lemma_fresh_count_prefix(matches.take(j), i + 1);
}

} // verus!
