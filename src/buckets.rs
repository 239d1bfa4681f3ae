use crate::text::same_text;
use vstd::prelude::*;

verus! {

/// The positions of the posts that carry one label (a tag or a category), in
/// discovery order; a post that lists the label twice is there twice.
#[derive(Clone, Debug)]
pub struct Bucket {
    pub name: String,
    pub positions: Vec<usize>,
}

/// `pos`, once for each time `label` occurs in `labels`.
pub open spec fn hits(labels: Seq<Seq<char>>, label: Seq<char>, pos: usize) -> Seq<usize>
    decreases labels.len(),
{
    if labels.len() == 0 {
        Seq::empty()
    } else {
        let rest = hits(labels.drop_last(), label, pos);
        if labels.last() == label {
            rest.push(pos)
        } else {
            rest
        }
    }
}

/// The positions at which `label` occurs in the label lists of a sequence of
/// posts, in order, once per occurrence.
pub open spec fn label_positions(lists: Seq<Seq<Seq<char>>>, label: Seq<char>) -> Seq<usize>
    decreases lists.len(),
{
    if lists.len() == 0 {
        Seq::empty()
    } else {
        label_positions(lists.drop_last(), label) + hits(lists.last(), label, (lists.len() - 1) as usize)
    }
}

/// No two buckets share a name.
pub open spec fn names_distinct(buckets: Seq<Bucket>) -> bool {
    forall|a: int, b: int|
        0 <= a < buckets.len() && 0 <= b < buckets.len() && a != b ==> #[trigger] buckets[a].name@
            != #[trigger] buckets[b].name@
}

/// `buckets` has one bucket for each label that occurs in `lists`, holding the
/// positions at which it occurs, and no other bucket.
pub open spec fn buckets_match(buckets: Seq<Bucket>, lists: Seq<Seq<Seq<char>>>) -> bool {
    &&& names_distinct(buckets)
    &&& forall|k: int|
        0 <= k < buckets.len() ==> #[trigger] buckets[k].positions@ == label_positions(
            lists,
            buckets[k].name@,
        ) && buckets[k].positions@.len() > 0
    &&& forall|t: Seq<char>|
        #[trigger] label_positions(lists, t).len() > 0 ==> exists|k: int|
            0 <= k < buckets.len() && #[trigger] buckets[k].name@ == t
}

/// The label map that buckets stand for.
pub open spec fn bucket_map(buckets: Seq<Bucket>) -> Map<Seq<char>, Seq<usize>> {
    Map::new(
        |t: Seq<char>| exists|k: int| 0 <= k < buckets.len() && #[trigger] buckets[k].name@ == t,
        |t: Seq<char>|
            buckets[choose|k: int| 0 <= k < buckets.len() && #[trigger] buckets[k].name@ == t].positions@,
    )
}

/// The texts of a list of strings.
pub open spec fn strings_view(v: Vec<String>) -> Seq<Seq<char>> {
    v@.map_values(|s: String| s@)
}

/// The texts of a list of string lists.
pub open spec fn lists_view(lists: Seq<Vec<String>>) -> Seq<Seq<Seq<char>>> {
    lists.map_values(|v: Vec<String>| strings_view(v))
}

proof fn lemma_hits_bounded(labels: Seq<Seq<char>>, label: Seq<char>, pos: usize)
    ensures
        forall|x: int| 0 <= x < hits(labels, label, pos).len() ==> #[trigger] hits(labels, label, pos)[x] == pos,
    decreases labels.len(),
{
    if labels.len() > 0 {
        lemma_hits_bounded(labels.drop_last(), label, pos);
        let rest = hits(labels.drop_last(), label, pos);
        let h = hits(labels, label, pos);
        assert forall|x: int| 0 <= x < h.len() implies #[trigger] h[x] == pos by {
            if x < rest.len() {
                assert(h[x] == rest[x]);
            }
        }
    }
}

/// Every position in `label_positions(lists, _)` is a position of `lists`.
pub proof fn lemma_label_positions_bounded(lists: Seq<Seq<Seq<char>>>, label: Seq<char>)
    ensures
        forall|x: int|
            0 <= x < label_positions(lists, label).len() ==> #[trigger] label_positions(lists, label)[x]
                < lists.len(),
    decreases lists.len(),
{
    if lists.len() > 0 {
        let prev = lists.drop_last();
        lemma_label_positions_bounded(prev, label);
        let n = (lists.len() - 1) as usize;
        lemma_hits_bounded(lists.last(), label, n);
        let lp = label_positions(lists, label);
        let a = label_positions(prev, label);
        let h = hits(lists.last(), label, n);
        assert(lp == a + h);
        assert forall|x: int| 0 <= x < lp.len() implies #[trigger] lp[x] < lists.len() by {
            if x < a.len() {
                assert(lp[x] == a[x]);
            } else {
                assert(lp[x] == h[x - a.len()]);
            }
        }
    }
}

/// Adds one occurrence of `label` at `pos`: to its bucket, or to a new bucket
/// at the end.
fn add_label(buckets: &mut Vec<Bucket>, label: &String, pos: usize)
    requires
        names_distinct(old(buckets)@),
    ensures
        names_distinct(final(buckets)@),
        final(buckets)@.len() >= old(buckets)@.len(),
        forall|k: int|
            0 <= k < old(buckets)@.len() ==> #[trigger] final(buckets)@[k].name@ == old(buckets)@[k].name@
                && final(buckets)@[k].positions@ == if old(buckets)@[k].name@ == label@ {
                old(buckets)@[k].positions@.push(pos)
            } else {
                old(buckets)@[k].positions@
            },
        (exists|k: int| 0 <= k < old(buckets)@.len() && #[trigger] old(buckets)@[k].name@ == label@)
            ==> final(buckets)@.len() == old(buckets)@.len(),
        (forall|k: int| 0 <= k < old(buckets)@.len() ==> #[trigger] old(buckets)@[k].name@ != label@)
            ==> final(buckets)@.len() == old(buckets)@.len() + 1 && final(buckets)@.last().name@
            == label@ && final(buckets)@.last().positions@ == seq![pos],
{
    let mut k: usize = 0;
    while k < buckets.len() && !same_text(buckets[k].name.as_str(), label.as_str())
        invariant
            k <= buckets@.len(),
            forall|a: int| 0 <= a < k ==> #[trigger] buckets@[a].name@ != label@,
        decreases buckets@.len() - k,
    {
        k = k + 1;
    }
    if k < buckets.len() {
        buckets[k].positions.push(pos);
    } else {
        let mut positions: Vec<usize> = Vec::new();
        positions.push(pos);
        buckets.push(Bucket { name: label.clone(), positions });
    }
}

/// Groups the positions of a sequence of label lists by label: one bucket per
/// label, in order of first occurrence, with the positions at which it occurs.
pub fn label_buckets(lists: &Vec<Vec<String>>) -> (r: Vec<Bucket>)
    ensures
        buckets_match(r@, lists_view(lists@)),
{
    let ghost all = lists_view(lists@);
    let mut buckets: Vec<Bucket> = Vec::new();
    let mut i: usize = 0;
    while i < lists.len()
        invariant
            all == lists_view(lists@),
            i <= lists@.len(),
            buckets_match(buckets@, all.take(i as int)),
        decreases lists@.len() - i,
    {
        let labels = &lists[i];
        let ghost before = all.take(i as int);
        let ghost row = all[i as int];
        assert(row == strings_view(*labels));
        let mut j: usize = 0;
        while j < labels.len()
            invariant
                all == lists_view(lists@),
                i < lists@.len(),
                labels == lists@[i as int],
                row == strings_view(*labels),
                before == all.take(i as int),
                j <= labels@.len(),
                names_distinct(buckets@),
                forall|k: int|
                    0 <= k < buckets@.len() ==> #[trigger] buckets@[k].positions@ == label_positions(
                        before,
                        buckets@[k].name@,
                    ) + hits(row.take(j as int), buckets@[k].name@, i) && buckets@[k].positions@.len() > 0,
                forall|t: Seq<char>|
                    (#[trigger] label_positions(before, t) + hits(row.take(j as int), t, i)).len() > 0
                        ==> exists|k: int| 0 <= k < buckets@.len() && #[trigger] buckets@[k].name@ == t,
            decreases labels@.len() - j,
        {
            let ghost old_b = buckets@;
            let ghost c = labels@[j as int]@;
            assert(row[j as int] == c);
            assert(row.take(j + 1).drop_last() =~= row.take(j as int));
            assert(row.take(j + 1).last() == c);
            add_label(&mut buckets, &labels[j], i);
            proof {
                assert forall|k: int| 0 <= k < buckets@.len() implies #[trigger] buckets@[k].positions@
                    == label_positions(before, buckets@[k].name@) + hits(
                    row.take(j + 1),
                    buckets@[k].name@,
                    i,
                ) && buckets@[k].positions@.len() > 0 by {
                    let t = buckets@[k].name@;
                    if k < old_b.len() {
                        assert(old_b[k].name@ == t);
                    } else {
                        assert(forall|m: int| 0 <= m < old_b.len() ==> #[trigger] old_b[m].name@ != c);
                        if (label_positions(before, c) + hits(row.take(j as int), c, i)).len() > 0 {
                            let m = choose|m: int| 0 <= m < old_b.len() && #[trigger] old_b[m].name@ == c;
                        }
                        assert(label_positions(before, c) + hits(row.take(j as int), c, i) =~= Seq::<usize>::empty());
                        assert(label_positions(before, t) + hits(row.take(j + 1), t, i) =~= seq![i]);
                    }
                }
                assert forall|t: Seq<char>|
                    (#[trigger] label_positions(before, t) + hits(row.take(j + 1), t, i)).len() > 0 implies exists|k: int|
                    0 <= k < buckets@.len() && #[trigger] buckets@[k].name@ == t by {
                    if t == c {
                        if exists|k: int| 0 <= k < old_b.len() && #[trigger] old_b[k].name@ == c {
                            let k = choose|k: int| 0 <= k < old_b.len() && #[trigger] old_b[k].name@ == c;
                            assert(buckets@[k].name@ == t);
                        } else {
                            assert(buckets@[buckets@.len() - 1].name@ == t);
                        }
                    } else {
                        assert(label_positions(before, t) + hits(row.take(j + 1), t, i) == label_positions(before, t) + hits(row.take(j as int), t, i));
                        let k = choose|k: int| 0 <= k < old_b.len() && #[trigger] old_b[k].name@ == t;
                        assert(buckets@[k].name@ == t);
                    }
                }
            }
            j = j + 1;
        }
        proof {
            let next = all.take(i + 1);
            assert(next.drop_last() =~= before);
            assert(next.last() == row);
            assert(row.take(row.len() as int) =~= row);
            assert(row.len() == labels@.len());
            assert forall|t: Seq<char>| #[trigger] label_positions(next, t) == label_positions(before, t) + hits(row.take(j as int), t, i) by {
            }
        }
        i = i + 1;
    }
    assert(all.take(lists@.len() as int) =~= all);
    buckets
}

/// Two bucket lists that both group the same label lists stand for the same
/// label map.
pub proof fn lemma_buckets_determined(b1: Seq<Bucket>, b2: Seq<Bucket>, lists: Seq<Seq<Seq<char>>>)
    requires
        buckets_match(b1, lists),
        buckets_match(b2, lists),
    ensures
        bucket_map(b1) == bucket_map(b2),
{
    let m1 = bucket_map(b1);
    let m2 = bucket_map(b2);
    assert forall|t: Seq<char>| m1.contains_key(t) <==> m2.contains_key(t) by {
        if m1.contains_key(t) {
            let k = choose|k: int| 0 <= k < b1.len() && #[trigger] b1[k].name@ == t;
            assert(b1[k].positions@ == label_positions(lists, t));
            assert(label_positions(lists, t).len() > 0);
        }
        if m2.contains_key(t) {
            let k = choose|k: int| 0 <= k < b2.len() && #[trigger] b2[k].name@ == t;
            assert(b2[k].positions@ == label_positions(lists, t));
            assert(label_positions(lists, t).len() > 0);
        }
    }
    assert forall|t: Seq<char>| m1.contains_key(t) implies m1[t] == m2[t] by {
        let k1 = choose|k: int| 0 <= k < b1.len() && #[trigger] b1[k].name@ == t;
        let k2 = choose|k: int| 0 <= k < b2.len() && #[trigger] b2[k].name@ == t;
        assert(b1[k1].positions@ == label_positions(lists, t));
        assert(b2[k2].positions@ == label_positions(lists, t));
    }
    assert(m1 =~= m2);
}

} // verus!
