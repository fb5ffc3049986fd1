//! Stable sorting by keys.
use vstd::prelude::*;

verus! {

/// What orders keys.
pub trait Rank: Sized {
    /// Whether a rank may stand in front of another.
    spec fn le(self, other: Self) -> bool;

    /// Of two ranks, one may stand in front of the other.
    proof fn le_total(a: Self, b: Self)
        ensures
            a.le(b) || b.le(a),
    ;

    /// The order of ranks carries over a rank between them.
    proof fn le_transitive(a: Self, b: Self, c: Self)
        requires
            a.le(b),
            b.le(c),
        ensures
            a.le(c),
    ;
}

/// Keys to sort by.
pub trait SortKey: Sized {
    /// What orders the keys.
    type Rank: Rank;

    /// The rank of a key.
    spec fn rank(self) -> Self::Rank;

    /// Whether a key may stand in front of another.
    fn is_le(&self, other: &Self) -> (res: bool)
        ensures
            res == self.rank().le(other.rank()),
    ;
}

impl Rank for usize {
    open spec fn le(self, other: usize) -> bool {
        self <= other
    }

    proof fn le_total(a: usize, b: usize) {
    }

    proof fn le_transitive(a: usize, b: usize, c: usize) {
    }
}

impl SortKey for usize {
    type Rank = usize;

    open spec fn rank(self) -> usize {
        self
    }

    fn is_le(&self, other: &usize) -> (res: bool) {
        *self <= *other
    }
}

/// The ranks of a sequence of keys.
pub open spec fn ranks<K: SortKey>(keys: Seq<K>) -> Seq<K::Rank> {
    Seq::new(keys.len(), |i: int| keys[i].rank())
}

/// Whether a stable sort puts position `i` in front of position `j`: its rank is the lesser one,
/// or the ranks are alike and it stood in front before.
pub open spec fn comes_before<R: Rank>(ranks: Seq<R>, i: int, j: int) -> bool {
    if i < j {
        ranks[i].le(ranks[j])
    } else {
        i != j && !ranks[j].le(ranks[i])
    }
}

/// `order` holds the positions from `lo` up to, not including, `hi`, each once, in the order of
/// a stable sort.
pub open spec fn orders_range<R: Rank>(
    ranks: Seq<R>,
    lo: int,
    hi: int,
    order: Seq<usize>,
) -> bool {
    &&& order.len() == hi - lo
    &&& forall|a: int| 0 <= a < order.len() ==> lo <= #[trigger] order[a] < hi
    &&& forall|a: int, b: int|
        0 <= a < b < order.len() ==> comes_before(
            ranks,
            #[trigger] order[a] as int,
            #[trigger] order[b] as int,
        )
    &&& forall|i: usize| lo <= i < hi ==> #[trigger] order.contains(i)
}

/// `order` holds the position of every rank once, in the order of a stable sort.
pub open spec fn is_stable_order<R: Rank>(ranks: Seq<R>, order: Seq<usize>) -> bool {
    orders_range(ranks, 0, ranks.len() as int, order)
}

/// The items at the positions of `order`, in that order.
pub open spec fn picked<T>(items: Seq<T>, order: Seq<usize>) -> Seq<T> {
    Seq::new(order.len(), |i: int| items[order[i] as int])
}

/// `result` is the stable sort of `items` by `ranks`, the rank of an item at the item's position.
pub open spec fn is_stable_sort<T, R: Rank>(
    items: Seq<T>,
    ranks: Seq<R>,
    result: Seq<T>,
) -> bool {
    exists|order: Seq<usize>| #[trigger]
        is_stable_order(ranks, order) && result == picked(items, order)
}

/// What comes before something comes before all that comes after it.
proof fn lemma_before_transitive<R: Rank>(ranks: Seq<R>, i: int, j: int, k: int)
    requires
        comes_before(ranks, i, j),
        comes_before(ranks, j, k),
    ensures
        comes_before(ranks, i, k),
{
    R::le_total(ranks[i], ranks[j]);
    R::le_total(ranks[j], ranks[k]);
    R::le_total(ranks[i], ranks[k]);
    if ranks[i].le(ranks[j]) && ranks[j].le(ranks[k]) {
        R::le_transitive(ranks[i], ranks[j], ranks[k]);
    }
    if ranks[k].le(ranks[i]) && ranks[i].le(ranks[j]) {
        R::le_transitive(ranks[k], ranks[i], ranks[j]);
    }
    if ranks[j].le(ranks[k]) && ranks[k].le(ranks[i]) {
        R::le_transitive(ranks[j], ranks[k], ranks[i]);
    }
}

/// Merges the orders of two neighbouring ranges.
fn merge<K: SortKey>(
    keys: &Vec<K>,
    Ghost(lo): Ghost<int>,
    Ghost(mid): Ghost<int>,
    Ghost(hi): Ghost<int>,
    left: &Vec<usize>,
    right: &Vec<usize>,
) -> (order: Vec<usize>)
    requires
        0 <= lo <= mid <= hi <= keys@.len(),
        orders_range(ranks(keys@), lo, mid, left@),
        orders_range(ranks(keys@), mid, hi, right@),
    ensures
        orders_range(ranks(keys@), lo, hi, order@),
{
    let mut order: Vec<usize> = Vec::new();
    let mut i: usize = 0;
    let mut j: usize = 0;
    while i < left.len() || j < right.len()
        invariant
            0 <= lo <= mid <= hi <= keys@.len(),
            orders_range(ranks(keys@), lo, mid, left@),
            orders_range(ranks(keys@), mid, hi, right@),
            i <= left@.len(),
            j <= right@.len(),
            order@.len() == i + j,
            forall|a: int| 0 <= a < order@.len() ==> lo <= #[trigger] order@[a] < hi,
            forall|a: int, b: int|
                0 <= a < b < order@.len() ==> comes_before(
                    ranks(keys@),
                    #[trigger] order@[a] as int,
                    #[trigger] order@[b] as int,
                ),
            forall|a: int, b: int|
                0 <= a < order@.len() && i <= b < left@.len() ==> comes_before(
                    ranks(keys@),
                    #[trigger] order@[a] as int,
                    #[trigger] left@[b] as int,
                ),
            forall|a: int, b: int|
                0 <= a < order@.len() && j <= b < right@.len() ==> comes_before(
                    ranks(keys@),
                    #[trigger] order@[a] as int,
                    #[trigger] right@[b] as int,
                ),
            forall|a: int| 0 <= a < i ==> order@.contains(#[trigger] left@[a]),
            forall|a: int| 0 <= a < j ==> order@.contains(#[trigger] right@[a]),
        decreases left@.len() - i + right@.len() - j,
    {
        let take_left = j >= right.len() || (i < left.len() && keys[left[i]].is_le(
            &keys[right[j]],
        ));
        let ghost before = order@;
        let next = if take_left {
            left[i]
        } else {
            right[j]
        };
        proof {
            if take_left {
                assert forall|b: int| j <= b < right@.len() implies comes_before(
                    ranks(keys@),
                    next as int,
                    #[trigger] right@[b] as int,
                ) by {
                    if b > j {
                        lemma_before_transitive(
                            ranks(keys@),
                            next as int,
                            right@[j as int] as int,
                            right@[b] as int,
                        );
                    }
                }
            } else {
                assert forall|b: int| i <= b < left@.len() implies comes_before(
                    ranks(keys@),
                    next as int,
                    #[trigger] left@[b] as int,
                ) by {
                    if b > i {
                        lemma_before_transitive(
                            ranks(keys@),
                            next as int,
                            left@[i as int] as int,
                            left@[b] as int,
                        );
                    }
                }
            }
        }
        order.push(next);
        proof {
            assert(order@[before.len() as int] == next);
            assert forall|x: usize| before.contains(x) implies order@.contains(x) by {
                let k = choose|k: int| 0 <= k < before.len() && before[k] == x;
                assert(order@[k] == x);
            }
        }
        if take_left {
            i = i + 1;
        } else {
            j = j + 1;
        }
    }
    proof {
        assert forall|x: usize| lo <= x < hi implies #[trigger] order@.contains(x) by {
            if x < mid {
                assert(left@.contains(x));
            } else {
                assert(right@.contains(x));
            }
        }
    }
    order
}

/// The positions from `lo` up to, not including, `hi`, in the order of a stable sort.
fn order_range<K: SortKey>(keys: &Vec<K>, lo: usize, hi: usize) -> (order: Vec<usize>)
    requires
        lo <= hi <= keys@.len(),
    ensures
        orders_range(ranks(keys@), lo as int, hi as int, order@),
    decreases hi - lo,
{
    let mut order: Vec<usize> = Vec::new();
    if lo == hi {
        return order;
    }
    if hi - lo == 1 {
        order.push(lo);
        assert(order@[0] == lo);
        return order;
    }
    let mid: usize = lo + (hi - lo) / 2;
    let left = order_range(keys, lo, mid);
    let right = order_range(keys, mid, hi);
    merge(keys, Ghost(lo as int), Ghost(mid as int), Ghost(hi as int), &left, &right)
}

/// The order in which a stable sort puts the keys.
pub fn stable_order<K: SortKey>(keys: &Vec<K>) -> (order: Vec<usize>)
    ensures
        is_stable_order(ranks(keys@), order@),
{
    order_range(keys, 0, keys.len())
}

/// There is only one order of a stable sort.
pub proof fn stable_order_is_unique<R: Rank>(ranks: Seq<R>, a: Seq<usize>, b: Seq<usize>)
    requires
        is_stable_order(ranks, a),
        is_stable_order(ranks, b),
    ensures
        a == b,
{
    lemma_agree_up_to(ranks, a, b, ranks.len());
    assert(a.take(ranks.len() as int) =~= a);
    assert(b.take(ranks.len() as int) =~= b);
}

/// Two orders of a stable sort agree on their first `n` positions.
proof fn lemma_agree_up_to<R: Rank>(ranks: Seq<R>, a: Seq<usize>, b: Seq<usize>, n: nat)
    requires
        is_stable_order(ranks, a),
        is_stable_order(ranks, b),
        n <= ranks.len(),
    ensures
        a.take(n as int) == b.take(n as int),
    decreases n,
{
    if n > 0 {
        let k = n - 1;
        lemma_agree_up_to(ranks, a, b, k as nat);
        assert forall|i: int| 0 <= i < k implies a[i] == b[i] by {
            assert(a.take(k)[i] == b.take(k)[i]);
        }
        assert(b.contains(a[k]));
        let m = choose|m: int| 0 <= m < b.len() && b[m] == a[k];
        assert(a.contains(b[k]));
        let l = choose|l: int| 0 <= l < a.len() && a[l] == b[k];
        if m < k {
            assert(comes_before(ranks, a[m] as int, a[k] as int));
        }
        if l < k {
            assert(comes_before(ranks, b[l] as int, b[k] as int));
        }
        if m != k && l != k {
            assert(comes_before(ranks, b[k] as int, b[m] as int));
            assert(comes_before(ranks, a[k] as int, a[l] as int));
            R::le_total(ranks[a[k] as int], ranks[b[k] as int]);
        }
        assert(a.take(n as int) =~= b.take(n as int));
    } else {
        assert(a.take(0) =~= b.take(0));
    }
}

/// A stable sort has only one result.
pub proof fn stable_sort_is_unique<T, R: Rank>(
    items: Seq<T>,
    ranks: Seq<R>,
    a: Seq<T>,
    b: Seq<T>,
)
    requires
        is_stable_sort(items, ranks, a),
        is_stable_sort(items, ranks, b),
    ensures
        a == b,
{
    let p = choose|order: Seq<usize>| #[trigger]
        is_stable_order(ranks, order) && a == picked(items, order);
    let q = choose|order: Seq<usize>| #[trigger]
        is_stable_order(ranks, order) && b == picked(items, order);
    stable_order_is_unique(ranks, p, q);
}

/// A stable sort follows an order.
pub proof fn lemma_sort_has_an_order<T, R: Rank>(
    items: Seq<T>,
    ranks: Seq<R>,
    result: Seq<T>,
) -> (order: Seq<usize>)
    requires
        is_stable_sort(items, ranks, result),
    ensures
        is_stable_order(ranks, order),
        result == picked(items, order),
{
    choose|order: Seq<usize>| #[trigger]
        is_stable_order(ranks, order) && result == picked(items, order)
}

/// Positions that a stable sort puts in their order stand in one order only.
pub proof fn lemma_one_order_of_the_same<R: Rank>(ranks: Seq<R>, a: Seq<int>, b: Seq<int>)
    requires
        forall|i: int, j: int|
            0 <= i < j < a.len() ==> comes_before(ranks, #[trigger] a[i], #[trigger] a[j]),
        forall|i: int, j: int|
            0 <= i < j < b.len() ==> comes_before(ranks, #[trigger] b[i], #[trigger] b[j]),
        forall|x: int| #[trigger] a.contains(x) <==> b.contains(x),
    ensures
        a == b,
    decreases a.len(),
{
    if a.len() == 0 || b.len() == 0 {
        if a.len() > 0 {
            assert(a.contains(a[0]));
            assert(b.contains(a[0]));
        }
        if b.len() > 0 {
            assert(b.contains(b[0]));
            assert(a.contains(b[0]));
        }
        assert(a =~= b);
    } else {
        assert(a.contains(a[0]));
        assert(b.contains(a[0]));
        assert(b.contains(b[0]));
        assert(a.contains(b[0]));
        let k = choose|k: int| 0 <= k < b.len() && b[k] == a[0];
        let l = choose|l: int| 0 <= l < a.len() && a[l] == b[0];
        if k > 0 && l > 0 {
            assert(comes_before(ranks, b[0], b[k]));
            assert(comes_before(ranks, a[0], a[l]));
        }
        let c = a.drop_first();
        let d = b.drop_first();
        assert forall|x: int| #[trigger] c.contains(x) <==> d.contains(x) by {
            if c.contains(x) {
                let i = choose|i: int| 0 <= i < c.len() && c[i] == x;
                assert(a[i + 1] == x);
                assert(a.contains(x));
                assert(b.contains(x));
                let j = choose|j: int| 0 <= j < b.len() && b[j] == x;
                assert(comes_before(ranks, a[0], a[i + 1]));
                assert(d[j - 1] == x);
            }
            if d.contains(x) {
                let i = choose|i: int| 0 <= i < d.len() && d[i] == x;
                assert(b[i + 1] == x);
                assert(b.contains(x));
                assert(a.contains(x));
                let j = choose|j: int| 0 <= j < a.len() && a[j] == x;
                assert(comes_before(ranks, b[0], b[i + 1]));
                assert(c[j - 1] == x);
            }
        }
        lemma_one_order_of_the_same(ranks, c, d);
        assert(a =~= seq![a[0]] + c);
        assert(b =~= seq![b[0]] + d);
    }
}

} // verus!
