use crate::date::{date_later, is_later, Date};
use vstd::prelude::*;

verus! {

/// Sort key `a` goes strictly before sort key `b`: the later date first, and
/// any date before no date.
pub open spec fn key_before(a: Option<Date>, b: Option<Date>) -> bool {
    match (a, b) {
        (Some(x), Some(y)) => date_later(x, y),
        (Some(_), None) => true,
        _ => false,
    }
}

/// Position `p` goes before position `q` in date order: by sort key, and by
/// position among equal keys.
pub open spec fn comes_before(keys: Seq<Option<Date>>, p: int, q: int) -> bool {
    key_before(keys[p], keys[q]) || (!key_before(keys[q], keys[p]) && p < q)
}

/// `order` lists every position of `keys` once, newest first, with equal keys
/// in position order.
pub open spec fn date_ordered(keys: Seq<Option<Date>>, order: Seq<usize>) -> bool {
    &&& order.len() == keys.len()
    &&& forall|a: int| 0 <= a < order.len() ==> #[trigger] order[a] < keys.len()
    &&& forall|x: int| 0 <= x < keys.len() ==> #[trigger] order.contains(x as usize)
    &&& forall|a: int, b: int|
        0 <= a < b < order.len() ==> comes_before(keys, #[trigger] order[a] as int, #[trigger] order[b] as int)
}

proof fn lemma_key_before_asymmetric(x: Option<Date>, y: Option<Date>)
    ensures
        !(key_before(x, y) && key_before(y, x)),
{
}

proof fn lemma_key_before_weak_trans(x: Option<Date>, y: Option<Date>, z: Option<Date>)
    requires
        key_before(x, y),
        !key_before(z, y),
    ensures
        key_before(x, z),
{
}

fn key_goes_before(a: &Option<Date>, b: &Option<Date>) -> (r: bool)
    ensures
        r == key_before(*a, *b),
{
    match (a, b) {
        (Some(x), Some(y)) => is_later(x, y),
        (Some(_), None) => true,
        _ => false,
    }
}

/// The positions of `keys`, newest first; undated positions last; equal keys in
/// position order.
pub fn date_order(keys: &Vec<Option<Date>>) -> (r: Vec<usize>)
    ensures
        date_ordered(keys@, r@),
{
    let mut order: Vec<usize> = Vec::new();
    let n = keys.len();
    let mut i: usize = 0;
    while i < n
        invariant
            n == keys@.len(),
            i <= n,
            order@.len() == i,
            forall|a: int| 0 <= a < order@.len() ==> #[trigger] order@[a] < i,
            forall|x: int| 0 <= x < i ==> #[trigger] order@.contains(x as usize),
            forall|a: int, b: int|
                0 <= a < b < order@.len() ==> comes_before(keys@, #[trigger] order@[a] as int, #[trigger] order@[b] as int),
        decreases n - i,
    {
        let mut j: usize = 0;
        while j < order.len() && !key_goes_before(&keys[i], &keys[order[j]])
            invariant
                n == keys@.len(),
                i < n,
                j <= order@.len(),
                forall|a: int| 0 <= a < order@.len() ==> #[trigger] order@[a] < i,
                forall|a: int| 0 <= a < j ==> !key_before(keys@[i as int], keys@[#[trigger] order@[a] as int]),
            decreases order@.len() - j,
        {
            j = j + 1;
        }
        let ghost old_order = order@;
        order.insert(j, i);
        proof {
            let ki = keys@[i as int];
            assert(order@ == old_order.insert(j as int, i));
            assert forall|a: int, b: int| 0 <= a < b < order@.len() implies comes_before(
                keys@,
                #[trigger] order@[a] as int,
                #[trigger] order@[b] as int,
            ) by {
                if b < j {
                    assert(order@[a] == old_order[a] && order@[b] == old_order[b]);
                } else if b == j {
                    assert(order@[a] == old_order[a]);
                    assert(!key_before(ki, keys@[old_order[a] as int]));
                } else if a < j {
                    assert(order@[a] == old_order[a] && order@[b] == old_order[b - 1]);
                } else if a == j {
                    let ob = old_order[b - 1];
                    let oj = old_order[j as int];
                    assert(key_before(ki, keys@[oj as int]));
                    if b - 1 > j {
                        assert(comes_before(keys@, oj as int, ob as int));
                        lemma_key_before_asymmetric(keys@[oj as int], keys@[ob as int]);
                    }
                    lemma_key_before_weak_trans(ki, keys@[oj as int], keys@[ob as int]);
                } else {
                    assert(order@[a] == old_order[a - 1] && order@[b] == old_order[b - 1]);
                }
            }
            assert forall|x: int| 0 <= x < i + 1 implies #[trigger] order@.contains(x as usize) by {
                if x < i {
                    assert(old_order.contains(x as usize));
                    let k = choose|k: int| 0 <= k < old_order.len() && old_order[k] == x as usize;
                    if k < j {
                        assert(order@[k] == x as usize);
                    } else {
                        assert(order@[k + 1] == x as usize);
                    }
                } else {
                    assert(order@[j as int] == i);
                }
            }
            assert forall|a: int| 0 <= a < order@.len() implies #[trigger] order@[a] < i + 1 by {
                if a < j {
                    assert(order@[a] == old_order[a]);
                } else if a > j {
                    assert(order@[a] == old_order[a - 1]);
                }
            }
        }
        i = i + 1;
    }
    order
}

proof fn lemma_comes_before_asymmetric(keys: Seq<Option<Date>>, p: int, q: int)
    ensures
        !(comes_before(keys, p, q) && comes_before(keys, q, p)),
{
    lemma_key_before_asymmetric(keys[p], keys[q]);
}

proof fn lemma_orders_agree_below(keys: Seq<Option<Date>>, o1: Seq<usize>, o2: Seq<usize>, n: int)
    requires
        date_ordered(keys, o1),
        date_ordered(keys, o2),
        0 <= n <= o1.len(),
    ensures
        forall|a: int| 0 <= a < n ==> o1[a] == o2[a],
    decreases n,
{
    if n > 0 {
        let a = n - 1;
        lemma_orders_agree_below(keys, o1, o2, a);
        let x = o1[a];
        let y = o2[a];
        if x != y {
            assert(x < keys.len());
            assert(o2.contains((x as int) as usize));
            let b = choose|b: int| 0 <= b < o2.len() && o2[b] == x;
            assert(y < keys.len());
            assert(o1.contains((y as int) as usize));
            let c = choose|c: int| 0 <= c < o1.len() && o1[c] == y;
            if b < a {
                assert(o1[b] == x);
                assert(comes_before(keys, o1[b] as int, o1[a] as int));
                lemma_comes_before_asymmetric(keys, x as int, x as int);
            }
            if c < a {
                assert(o2[c] == y);
                assert(comes_before(keys, o2[c] as int, o2[a] as int));
                lemma_comes_before_asymmetric(keys, y as int, y as int);
            }
            assert(comes_before(keys, o2[a] as int, o2[b] as int));
            assert(comes_before(keys, o1[a] as int, o1[c] as int));
            lemma_comes_before_asymmetric(keys, x as int, y as int);
        }
    }
}

/// There is one date order of a list of sort keys: any two lists that order
/// the same keys are equal.
pub proof fn lemma_date_order_unique(keys: Seq<Option<Date>>, o1: Seq<usize>, o2: Seq<usize>)
    requires
        date_ordered(keys, o1),
        date_ordered(keys, o2),
    ensures
        o1 == o2,
{
    lemma_orders_agree_below(keys, o1, o2, o1.len() as int);
    assert(o1 =~= o2);
}

} // verus!
