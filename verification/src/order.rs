//! Putting things in order by a key, keeping the given order among equals.

use vstd::prelude::*;

verus! {

/// A key by which things are put in order.
pub trait SortKey: Sized {
    /// Whether this key comes no later than another.
    spec fn le(self, other: Self) -> bool;

    /// Tells whether this key comes no later than another.
    fn is_le(&self, other: &Self) -> (r: bool)
        ensures
            r == self.le(*other),
    ;

    /// Of two keys one comes no later than the other.
    proof fn total(a: Self, b: Self)
        ensures
            a.le(b) || b.le(a),
    ;

    /// The order goes on from key to key.
    proof fn transitive(a: Self, b: Self, c: Self)
        requires
            a.le(b),
            b.le(c),
        ensures
            a.le(c),
    ;
}

/// Whether the thing at place `a` goes before the one at place `b`: by its key,
/// and by its place where the keys are equal.
pub open spec fn goes_before<K: SortKey>(keys: Seq<K>, a: int, b: int) -> bool {
    keys[a].le(keys[b]) && (!keys[b].le(keys[a]) || a < b)
}

/// Whether `order` lists every place once, each before all that it goes before.
pub open spec fn is_stable_order<K: SortKey>(keys: Seq<K>, order: Seq<usize>) -> bool {
    &&& order.len() == keys.len()
    &&& forall|i: int| 0 <= i < order.len() ==> #[trigger] order[i] < keys.len()
    &&& forall|v: usize| 0 <= v < keys.len() ==> #[trigger] order.contains(v)
    &&& forall|i: int, j: int|
        0 <= i < j < order.len() ==> goes_before(keys, #[trigger] order[i] as int, #[trigger] order[j] as int)
}

/// The places of the keys in order.
pub fn stable_order<K: SortKey>(keys: &Vec<K>) -> (order: Vec<usize>)
    ensures
        is_stable_order(keys@, order@),
{
    let mut order: Vec<usize> = Vec::new();
    let mut k: usize = 0;
    while k < keys.len()
        invariant
            k <= keys@.len(),
            order@.len() == k,
            forall|i: int| 0 <= i < order@.len() ==> #[trigger] order@[i] < k,
            forall|v: usize| 0 <= v < k ==> #[trigger] order@.contains(v),
            forall|i: int, j: int|
                0 <= i < j < order@.len() ==> goes_before(
                    keys@,
                    #[trigger] order@[i] as int,
                    #[trigger] order@[j] as int,
                ),
        decreases keys@.len() - k,
    {
        let mut p: usize = 0;
        while p < order.len() && keys[order[p]].is_le(&keys[k])
            invariant
                k < keys@.len(),
                p <= order@.len(),
                forall|i: int| 0 <= i < order@.len() ==> #[trigger] order@[i] < k,
                forall|i: int| 0 <= i < p ==> keys@[#[trigger] order@[i] as int].le(keys@[k as int]),
            decreases order@.len() - p,
        {
            p = p + 1;
        }
        let ghost before = order@;
        order.insert(p, k);
        proof {
            assert(order@ == before.insert(p as int, k));
            assert forall|v: usize| 0 <= v < k + 1 implies #[trigger] order@.contains(v) by {
                if v == k {
                    assert(order@[p as int] == v);
                } else {
                    assert(before.contains(v));
                    let i = choose|i: int| 0 <= i < before.len() && before[i] == v;
                    if i < p {
                        assert(order@[i] == v);
                    } else {
                        assert(order@[i + 1] == v);
                    }
                }
            }
            assert forall|q: int| p <= q < before.len() implies goes_before(
                keys@,
                k as int,
                #[trigger] before[q] as int,
            ) by {
                let kp = keys@[before[p as int] as int];
                let kq = keys@[before[q] as int];
                let kk = keys@[k as int];
                assert(!kp.le(kk));
                if q > p {
                    assert(goes_before(keys@, before[p as int] as int, before[q] as int));
                    if kq.le(kk) {
                        K::transitive(kp, kq, kk);
                    }
                }
                K::total(kq, kk);
            }
            assert forall|i: int, j: int| 0 <= i < j < order@.len() implies goes_before(
                keys@,
                #[trigger] order@[i] as int,
                #[trigger] order@[j] as int,
            ) by {
                if i < p && j == p {
                    assert(order@[i] == before[i]);
                } else if i == p {
                    assert(order@[j] == before[j - 1]);
                } else {
                    let a = if i < p {
                        i
                    } else {
                        i - 1
                    };
                    let b = if j < p {
                        j
                    } else {
                        j - 1
                    };
                    assert(order@[i] == before[a]);
                    assert(order@[j] == before[b]);
                }
            }
        }
        k = k + 1;
    }
    order
}

proof fn lemma_stable_order_prefix<K: SortKey>(
    keys: Seq<K>,
    a: Seq<usize>,
    b: Seq<usize>,
    n: int,
)
    requires
        is_stable_order(keys, a),
        is_stable_order(keys, b),
        0 <= n <= keys.len(),
    ensures
        a.take(n) == b.take(n),
    decreases n,
{
    if n > 0 {
        lemma_stable_order_prefix(keys, a, b, n - 1);
        let i = n - 1;
        if a[i] != b[i] {
            assert(a.contains(b[i]));
            let p = choose|p: int| 0 <= p < a.len() && a[p] == b[i];
            assert(b.contains(a[i]));
            let q = choose|q: int| 0 <= q < b.len() && b[q] == a[i];
            if p < i {
                assert(a.take(i)[p] == b.take(i)[p]);
                assert(goes_before(keys, b[p] as int, b[i] as int));
            } else if q < i {
                assert(a.take(i)[q] == b.take(i)[q]);
                assert(goes_before(keys, a[q] as int, a[i] as int));
            } else {
                assert(goes_before(keys, a[i] as int, a[p] as int));
                assert(goes_before(keys, b[i] as int, b[q] as int));
            }
        }
        assert(a.take(n) =~= a.take(n - 1).push(a[i]));
        assert(b.take(n) =~= b.take(n - 1).push(b[i]));
    }
}

/// There is one order only: the keys and the given places settle it.
pub proof fn stable_order_is_unique<K: SortKey>(keys: Seq<K>, a: Seq<usize>, b: Seq<usize>)
    requires
        is_stable_order(keys, a),
        is_stable_order(keys, b),
    ensures
        a == b,
{
    lemma_stable_order_prefix(keys, a, b, keys.len() as int);
    assert(a.take(keys.len() as int) == a);
    assert(b.take(keys.len() as int) == b);
}

/// A place on the desktop; places go from left to right, then from top to
/// bottom.
pub struct Place {
    pub x: i32,
    pub y: i32,
}

impl SortKey for Place {
    open spec fn le(self, other: Self) -> bool {
        self.x < other.x || self.x == other.x && self.y <= other.y
    }

    fn is_le(&self, other: &Self) -> (r: bool) {
        self.x < other.x || self.x == other.x && self.y <= other.y
    }

    proof fn total(a: Self, b: Self) {
    }

    proof fn transitive(a: Self, b: Self, c: Self) {
    }
}

/// Whether a text comes no later than another, character by character.
pub open spec fn text_le(a: Seq<char>, b: Seq<char>) -> bool
    decreases a.len(),
{
    if a.len() == 0 {
        true
    } else if b.len() == 0 {
        false
    } else if a[0] != b[0] {
        a[0] < b[0]
    } else {
        text_le(a.drop_first(), b.drop_first())
    }
}

proof fn lemma_text_total(a: Seq<char>, b: Seq<char>)
    ensures
        text_le(a, b) || text_le(b, a),
    decreases a.len(),
{
    if a.len() > 0 && b.len() > 0 && a[0] == b[0] {
        lemma_text_total(a.drop_first(), b.drop_first());
    }
}

proof fn lemma_text_transitive(a: Seq<char>, b: Seq<char>, c: Seq<char>)
    requires
        text_le(a, b),
        text_le(b, c),
    ensures
        text_le(a, c),
    decreases a.len(),
{
    if a.len() > 0 && b.len() > 0 && c.len() > 0 && a[0] == b[0] && b[0] == c[0] {
        lemma_text_transitive(a.drop_first(), b.drop_first(), c.drop_first());
    }
}

/// A title as a sort key.
pub struct Title {
    pub chars: Vec<char>,
}

impl SortKey for Title {
    open spec fn le(self, other: Self) -> bool {
        text_le(self.chars@, other.chars@)
    }

    fn is_le(&self, other: &Self) -> (r: bool) {
        let a: &Vec<char> = &self.chars;
        let b: &Vec<char> = &other.chars;
        let mut i: usize = 0;
        assert(a@.skip(0) == a@);
        assert(b@.skip(0) == b@);
        while i < a.len() && i < b.len() && a[i] == b[i]
            invariant
                i <= a@.len(),
                i <= b@.len(),
                text_le(a@, b@) == text_le(a@.skip(i as int), b@.skip(i as int)),
            decreases a@.len() - i,
        {
            assert(a@.skip(i as int).drop_first() == a@.skip(i + 1));
            assert(b@.skip(i as int).drop_first() == b@.skip(i + 1));
            i = i + 1;
        }
        if i == a.len() {
            true
        } else if i == b.len() {
            false
        } else {
            assert(a@.skip(i as int)[0] == a@[i as int]);
            assert(b@.skip(i as int)[0] == b@[i as int]);
            a[i] < b[i]
        }
    }

    proof fn total(a: Self, b: Self) {
        lemma_text_total(a.chars@, b.chars@);
    }

    proof fn transitive(a: Self, b: Self, c: Self) {
        lemma_text_transitive(a.chars@, b.chars@, c.chars@);
    }
}

/// Texts are ordered by the first character in which they differ, and a text
/// comes before every longer one that begins with it.
pub proof fn texts_are_ordered_at_their_first_difference(a: Seq<char>, b: Seq<char>, n: int)
    requires
        0 <= n <= a.len(),
        n <= b.len(),
        a.take(n) == b.take(n),
    ensures
        n == a.len() ==> text_le(a, b),
        n == b.len() < a.len() ==> !text_le(a, b),
        n < a.len() && n < b.len() && a[n] != b[n] ==> (text_le(a, b) <==> a[n] < b[n]),
    decreases n,
{
    if n > 0 {
        let x = a.drop_first();
        let y = b.drop_first();
        assert(a[0] == a.take(n)[0] && b[0] == b.take(n)[0]);
        assert(n < a.len() ==> x[n - 1] == a[n]);
        assert(n < b.len() ==> y[n - 1] == b[n]);
        assert(x.take(n - 1) =~= a.take(n).drop_first());
        assert(y.take(n - 1) =~= b.take(n).drop_first());
        texts_are_ordered_at_their_first_difference(x, y, n - 1);
    }
}

/// Titles are told apart by their characters: the order says so.
pub proof fn titles_go_by_their_characters(a: Title, b: Title, r: bool, n: int)
    requires
        call_ensures(Title::is_le, (&a, &b), r),
        0 <= n < a.chars@.len(),
        n < b.chars@.len(),
        a.chars@.take(n) == b.chars@.take(n),
        a.chars@[n] != b.chars@[n],
    ensures
        r <==> a.chars@[n] < b.chars@[n],
{
    texts_are_ordered_at_their_first_difference(a.chars@, b.chars@, n);
}

/// Places go from left to right, and from top to bottom where they are equally
/// far left.
pub proof fn places_go_from_left_to_right(a: Place, b: Place, r: bool)
    requires
        call_ensures(Place::is_le, (&a, &b), r),
    ensures
        a.x < b.x ==> r,
        a.x > b.x ==> !r,
        a.x == b.x ==> (r <==> a.y <= b.y),
{
}

/// Things are put in the order of their keys, and those with equal keys in the
/// order in which they were given; every one occurs.
pub proof fn equals_keep_their_order<K: SortKey>(
    keys: &Vec<K>,
    order: Vec<usize>,
    i: int,
    j: int,
    v: usize,
)
    requires
        call_ensures(stable_order::<K>, (keys,), order),
        0 <= i < j < keys@.len(),
        v < keys@.len(),
    ensures
        order@.len() == keys@.len(),
        order@[i] < keys@.len() && order@[j] < keys@.len(),
        keys@[order@[i] as int].le(keys@[order@[j] as int]),
        keys@[order@[j] as int].le(keys@[order@[i] as int]) ==> order@[i] < order@[j],
        order@.contains(v),
{
    assert(goes_before(keys@, order@[i] as int, order@[j] as int));
}

} // verus!
