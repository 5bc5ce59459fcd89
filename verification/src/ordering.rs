//! Stable sorting by a rank, a length and a text.

use crate::text::chars_of;
use vstd::prelude::*;

verus! {

/// What entries are sorted by: rank first, then length, then text.
#[derive(Debug)]
pub struct SortKey {
    pub rank: u8,
    pub length: usize,
    pub text: String,
}

/// A key by its values.
pub type KeyView = (int, int, Seq<char>);

impl View for SortKey {
    type V = KeyView;

    open spec fn view(&self) -> KeyView {
        (self.rank as int, self.length as int, self.text@)
    }
}

/// Keys by their values.
pub open spec fn keys_of(keys: Seq<SortKey>) -> Seq<KeyView> {
    keys.map_values(|key: SortKey| key@)
}

pub proof fn lemma_keys_push(keys: Seq<SortKey>, key: SortKey)
    ensures
        keys_of(keys.push(key)) == keys_of(keys).push(key@),
{
    assert(keys_of(keys.push(key)) =~= keys_of(keys).push(key@));
}

/// One text stands before another: at the first place where they differ its
/// character is smaller, or it ends there.
pub open spec fn text_before(left: Seq<char>, right: Seq<char>) -> bool
    decreases left.len(),
{
    if right.len() == 0 {
        false
    } else if left.len() == 0 {
        true
    } else if left[0] != right[0] {
        left[0] < right[0]
    } else {
        text_before(left.skip(1), right.skip(1))
    }
}

/// One key stands before another.
pub open spec fn key_before(left: KeyView, right: KeyView) -> bool {
    left.0 < right.0 || (left.0 == right.0 && (left.1 < right.1 || (left.1 == right.1
        && text_before(left.2, right.2))))
}

/// One entry goes before another: by its key, or with the same key because it
/// came first.
pub open spec fn goes_before(keys: Seq<KeyView>, i: int, j: int) -> bool {
    key_before(keys[i], keys[j]) || (keys[i] == keys[j] && i < j)
}

/// The places are those of all entries from `from` to `to`, each once, in
/// order.
pub open spec fn ordered(keys: Seq<KeyView>, order: Seq<int>, from: int, to: int) -> bool {
    &&& order.len() == to - from
    &&& forall|a: int| 0 <= a < order.len() ==> from <= #[trigger] order[a] < to
    &&& forall|i: int| from <= i < to ==> #[trigger] order.contains(i)
    &&& forall|a: int, b: int|
        0 <= a < b < order.len() ==> goes_before(keys, #[trigger] order[a], #[trigger] order[b])
}

/// The places of all entries in order.
pub open spec fn stable_order(keys: Seq<KeyView>) -> Seq<int> {
    choose|order: Seq<int>| ordered(keys, order, 0, keys.len() as int)
}

proof fn lemma_text_before_irreflexive(text: Seq<char>)
    ensures
        !text_before(text, text),
    decreases text.len(),
{
    if text.len() > 0 {
        lemma_text_before_irreflexive(text.skip(1));
    }
}

proof fn lemma_text_before_asymmetric(left: Seq<char>, right: Seq<char>)
    requires
        text_before(left, right),
    ensures
        !text_before(right, left),
    decreases left.len(),
{
    if left.len() > 0 && right.len() > 0 && left[0] == right[0] {
        lemma_text_before_asymmetric(left.skip(1), right.skip(1));
    }
}

proof fn lemma_text_before_transitive(a: Seq<char>, b: Seq<char>, c: Seq<char>)
    requires
        text_before(a, b),
        text_before(b, c),
    ensures
        text_before(a, c),
    decreases a.len(),
{
    if a.len() > 0 && b.len() > 0 && c.len() > 0 && a[0] == b[0] && b[0] == c[0] {
        lemma_text_before_transitive(a.skip(1), b.skip(1), c.skip(1));
    }
}

proof fn lemma_text_before_total(left: Seq<char>, right: Seq<char>)
    requires
        left != right,
    ensures
        text_before(left, right) || text_before(right, left),
    decreases left.len(),
{
    if left.len() == 0 || right.len() == 0 {
        if left.len() == 0 && right.len() == 0 {
            assert(left =~= right);
        }
    } else if left[0] == right[0] {
        if left.skip(1) == right.skip(1) {
            assert(left =~= seq![left[0]] + left.skip(1));
            assert(right =~= seq![right[0]] + right.skip(1));
        } else {
            lemma_text_before_total(left.skip(1), right.skip(1));
        }
    }
}

/// Texts are ordered strictly: of two different texts exactly one stands
/// before the other, and no text before itself.
pub proof fn text_order_is_strict(left: Seq<char>, right: Seq<char>)
    ensures
        left == right ==> !text_before(left, right),
        left != right ==> text_before(left, right) != text_before(right, left),
{
    if left == right {
        lemma_text_before_irreflexive(left);
    } else {
        lemma_text_before_total(left, right);
        if text_before(left, right) {
            lemma_text_before_asymmetric(left, right);
        }
    }
}

proof fn lemma_goes_before_transitive(keys: Seq<KeyView>, i: int, j: int, k: int)
    requires
        goes_before(keys, i, j),
        goes_before(keys, j, k),
    ensures
        goes_before(keys, i, k),
{
    let (a, b, c) = (keys[i], keys[j], keys[k]);
    if text_before(a.2, b.2) && text_before(b.2, c.2) {
        lemma_text_before_transitive(a.2, b.2, c.2);
    }
}

proof fn lemma_goes_before_asymmetric(keys: Seq<KeyView>, i: int, j: int)
    requires
        goes_before(keys, i, j),
    ensures
        !goes_before(keys, j, i),
{
    text_order_is_strict(keys[i].2, keys[j].2);
}

proof fn lemma_goes_before_total(keys: Seq<KeyView>, i: int, j: int)
    requires
        i != j,
    ensures
        goes_before(keys, i, j) || goes_before(keys, j, i),
{
    text_order_is_strict(keys[i].2, keys[j].2);
}

/// Every list has an order.
pub proof fn every_list_has_an_order(keys: Seq<KeyView>, k: int)
    requires
        0 <= k <= keys.len(),
    ensures
        exists|order: Seq<int>| ordered(keys, order, 0, k),
    decreases k,
{
    if k == 0 {
        assert(ordered(keys, Seq::empty(), 0, 0));
    } else {
        every_list_has_an_order(keys, k - 1);
        let fewer = k - 1;
        let before = choose|order: Seq<int>| ordered(keys, order, 0, fewer);
        let at = place_for(keys, before, k - 1, before.len() as int);
        lemma_place_for(keys, before, k - 1, before.len() as int);
        let order = before.insert(at, k - 1);
        assert forall|i: int| 0 <= i < k implies #[trigger] order.contains(i) by {
            if i == k - 1 {
                assert(order[at] == i);
            } else {
                assert(before.contains(i));
                let p = choose|p: int| 0 <= p < before.len() && before[p] == i;
                if p < at {
                    assert(order[p] == i);
                } else {
                    assert(order[p + 1] == i);
                }
            }
        }
        assert forall|a: int, b: int| 0 <= a < b < order.len() implies goes_before(
            keys,
            #[trigger] order[a],
            #[trigger] order[b],
        ) by {
            if b < at {
                assert(goes_before(keys, before[a], before[b]));
            } else if b == at {
                assert(order[a] == before[a]);
            } else if a < at {
                assert(goes_before(keys, before[a], before[b - 1]));
            } else if a == at {
                assert(order[b] == before[b - 1]);
            } else {
                assert(goes_before(keys, before[a - 1], before[b - 1]));
            }
        }
        assert(ordered(keys, order, 0, k));
    }
}

/// Where an entry goes among the first `n` of an ordered list: behind the
/// last that goes before it.
spec fn place_for(keys: Seq<KeyView>, order: Seq<int>, x: int, n: int) -> int
    decreases n,
{
    if n <= 0 {
        0
    } else if goes_before(keys, x, order[n - 1]) {
        place_for(keys, order, x, n - 1)
    } else {
        n
    }
}

proof fn lemma_place_for(keys: Seq<KeyView>, order: Seq<int>, x: int, n: int)
    requires
        0 <= n <= order.len(),
        forall|a: int| 0 <= a < order.len() ==> #[trigger] order[a] != x,
        forall|a: int, b: int|
            0 <= a < b < order.len() ==> goes_before(keys, #[trigger] order[a], #[trigger] order[b]),
    ensures
        0 <= place_for(keys, order, x, n) <= n,
        forall|a: int|
            0 <= a < place_for(keys, order, x, n) ==> goes_before(keys, #[trigger] order[a], x),
        forall|b: int|
            place_for(keys, order, x, n) <= b < n ==> goes_before(keys, x, #[trigger] order[b]),
    decreases n,
{
    if n > 0 {
        if goes_before(keys, x, order[n - 1]) {
            lemma_place_for(keys, order, x, n - 1);
        } else {
            lemma_goes_before_total(keys, x, order[n - 1]);
            assert forall|a: int| 0 <= a < n implies goes_before(keys, #[trigger] order[a], x) by {
                if a < n - 1 {
                    lemma_goes_before_transitive(keys, order[a], order[n - 1], x);
                }
            }
        }
    }
}

/// There is one order only: two lists that hold the same entries in order are
/// the same list.
pub proof fn order_is_unique(keys: Seq<KeyView>, left: Seq<int>, right: Seq<int>, to: int)
    requires
        ordered(keys, left, 0, to),
        ordered(keys, right, 0, to),
    ensures
        left == right,
{
    lemma_same_front(keys, left, right, to, left.len() as int);
    assert(left =~= right);
}

proof fn lemma_same_front(keys: Seq<KeyView>, left: Seq<int>, right: Seq<int>, to: int, k: int)
    requires
        ordered(keys, left, 0, to),
        ordered(keys, right, 0, to),
        0 <= k <= left.len(),
    ensures
        forall|a: int| 0 <= a < k ==> left[a] == right[a],
    decreases k,
{
    if k > 0 {
        lemma_same_front(keys, left, right, to, k - 1);
        let x = left[k - 1];
        let y = right[k - 1];
        assert(right.contains(x));
        assert(left.contains(y));
        let m = choose|m: int| 0 <= m < right.len() && right[m] == x;
        let n = choose|n: int| 0 <= n < left.len() && left[n] == y;
        if x != y {
            if m < k - 1 {
                assert(left[m] == x);
                assert(goes_before(keys, left[m], left[k - 1]));
                lemma_goes_before_asymmetric(keys, x, x);
            }
            if n < k - 1 {
                assert(right[n] == y);
                assert(goes_before(keys, right[n], right[k - 1]));
                lemma_goes_before_asymmetric(keys, y, y);
            }
            assert(goes_before(keys, right[k - 1], right[m]));
            assert(goes_before(keys, left[k - 1], left[n]));
            lemma_goes_before_asymmetric(keys, x, y);
        }
    }
}

/// Compares two texts.
pub fn text_is_before(left: &str, right: &str) -> (b: bool)
    ensures
        b == text_before(left@, right@),
{
    let a = chars_of(left);
    let b = chars_of(right);
    let mut at: usize = 0;
    assert(a@.skip(0) =~= a@);
    assert(b@.skip(0) =~= b@);
    while at < a.len() && at < b.len() && a[at] == b[at]
        invariant
            at <= a@.len(),
            at <= b@.len(),
            text_before(a@, b@) == text_before(a@.skip(at as int), b@.skip(at as int)),
        decreases a@.len() - at,
    {
        assert(a@.skip(at as int).skip(1) =~= a@.skip(at + 1));
        assert(b@.skip(at as int).skip(1) =~= b@.skip(at + 1));
        at = at + 1;
    }
    if at >= b.len() {
        false
    } else if at >= a.len() {
        true
    } else {
        a[at] < b[at]
    }
}

fn entry_is_before(keys: &Vec<SortKey>, i: usize, j: usize) -> (b: bool)
    requires
        i < keys@.len(),
        j < keys@.len(),
        i < j,
    ensures
        b == goes_before(keys_of(keys@), i as int, j as int),
{
    let left = &keys[i];
    let right = &keys[j];
    proof {
        assert(keys_of(keys@)[i as int] == left@);
        assert(keys_of(keys@)[j as int] == right@);
        text_order_is_strict(left.text@, right.text@);
    }
    if left.rank != right.rank {
        left.rank < right.rank
    } else if left.length != right.length {
        left.length < right.length
    } else {
        !text_is_before(right.text.as_str(), left.text.as_str())
    }
}

/// Places as numbers.
pub open spec fn places(order: Seq<usize>) -> Seq<int> {
    order.map_values(|place: usize| place as int)
}

pub proof fn lemma_places_push(order: Seq<usize>, place: usize)
    ensures
        places(order.push(place)) == places(order).push(place as int),
{
    assert(places(order.push(place)) =~= places(order).push(place as int));
}

#[verifier::rlimit(40)]
fn merge(keys: &Vec<SortKey>, left: Vec<usize>, right: Vec<usize>, Ghost(bounds): Ghost<
    (int, int, int),
>) -> (merged: Vec<usize>)
    requires
        0 <= bounds.0 <= bounds.1 <= bounds.2 <= keys@.len(),
        ordered(keys_of(keys@), places(left@), bounds.0, bounds.1),
        ordered(keys_of(keys@), places(right@), bounds.1, bounds.2),
    ensures
        ordered(keys_of(keys@), places(merged@), bounds.0, bounds.2),
{
    let ghost all = keys_of(keys@);
    let ghost (from, mid, to) = bounds;
    let ghost l = places(left@);
    let ghost r = places(right@);
    let mut merged: Vec<usize> = Vec::new();
    let mut i: usize = 0;
    let mut j: usize = 0;
    while i < left.len() || j < right.len()
        invariant
            all == keys_of(keys@),
            l == places(left@),
            r == places(right@),
            0 <= from <= mid <= to <= keys@.len(),
            ordered(all, l, from, mid),
            ordered(all, r, mid, to),
            i <= left@.len(),
            j <= right@.len(),
            merged@.len() == i + j,
            forall|a: int| 0 <= a < merged@.len() ==> from <= #[trigger] places(merged@)[a] < to,
            forall|a: int, b: int|
                0 <= a < b < merged@.len() ==> goes_before(
                    all,
                    #[trigger] places(merged@)[a],
                    #[trigger] places(merged@)[b],
                ),
            forall|a: int, b: int|
                0 <= a < merged@.len() && i <= b < l.len() ==> goes_before(
                    all,
                    #[trigger] places(merged@)[a],
                    #[trigger] l[b],
                ),
            forall|a: int, b: int|
                0 <= a < merged@.len() && j <= b < r.len() ==> goes_before(
                    all,
                    #[trigger] places(merged@)[a],
                    #[trigger] r[b],
                ),
            forall|a: int| 0 <= a < i ==> places(merged@).contains(#[trigger] l[a]),
            forall|b: int| 0 <= b < j ==> places(merged@).contains(#[trigger] r[b]),
        decreases left@.len() - i + right@.len() - j,
    {
        let from_left = if i >= left.len() {
            false
        } else if j >= right.len() {
            true
        } else {
            assert(l[i as int] == left@[i as int]);
            assert(r[j as int] == right@[j as int]);
            entry_is_before(keys, left[i], right[j])
        };
        let ghost before = places(merged@);
        let place: usize = if from_left {
            left[i]
        } else {
            right[j]
        };
        proof {
            if i < left@.len() {
                assert(l[i as int] == left@[i as int]);
            }
            if j < right@.len() {
                assert(r[j as int] == right@[j as int]);
            }
            if i < left@.len() && j < right@.len() {
                lemma_goes_before_total(all, l[i as int], r[j as int]);
                if from_left {
                    assert forall|b: int| j <= b < r.len() implies goes_before(
                        all,
                        l[i as int],
                        #[trigger] r[b],
                    ) by {
                        if b > j {
                            lemma_goes_before_transitive(all, l[i as int], r[j as int], r[b]);
                        }
                    }
                } else {
                    assert forall|b: int| i <= b < l.len() implies goes_before(
                        all,
                        r[j as int],
                        #[trigger] l[b],
                    ) by {
                        if b > i {
                            lemma_goes_before_transitive(all, r[j as int], l[i as int], l[b]);
                        }
                    }
                }
            }
        }
        merged.push(place);
        assert(places(merged@) =~= before.push(place as int));
        assert forall|x: int| before.contains(x) implies #[trigger] places(merged@).contains(x) by {
            let at = choose|at: int| 0 <= at < before.len() && before[at] == x;
            assert(places(merged@)[at] == x);
        }
        assert(places(merged@)[before.len() as int] == place);
        assert(places(merged@).contains(place as int));
        if from_left {
            i = i + 1;
        } else {
            j = j + 1;
        }
    }
    proof {
        let m = places(merged@);
        assert forall|x: int| from <= x < to implies #[trigger] m.contains(x) by {
            if x < mid {
                assert(l.contains(x));
                let at = choose|at: int| 0 <= at < l.len() && l[at] == x;
                assert(m.contains(l[at]));
            } else {
                assert(r.contains(x));
                let at = choose|at: int| 0 <= at < r.len() && r[at] == x;
                assert(m.contains(r[at]));
            }
        }
    }
    merged
}

fn sort_between(keys: &Vec<SortKey>, from: usize, to: usize) -> (order: Vec<usize>)
    requires
        from <= to <= keys@.len(),
    ensures
        ordered(keys_of(keys@), places(order@), from as int, to as int),
    decreases to - from,
{
    if to - from == 0 {
        let order: Vec<usize> = Vec::new();
        return order;
    }
    if to - from == 1 {
        let mut order: Vec<usize> = Vec::new();
        order.push(from);
        assert(places(order@)[0] == from);
        assert(places(order@).contains(from as int));
        return order;
    }
    let mid: usize = from + (to - from) / 2;
    let left = sort_between(keys, from, mid);
    let right = sort_between(keys, mid, to);
    merge(keys, left, right, Ghost((from as int, mid as int, to as int)))
}

/// The places of all entries in order.
pub fn sorted_order(keys: &Vec<SortKey>) -> (order: Vec<usize>)
    ensures
        places(order@) == stable_order(keys_of(keys@)),
        ordered(keys_of(keys@), places(order@), 0, keys@.len() as int),
{
    let order = sort_between(keys, 0, keys.len());
    proof {
        let all = keys_of(keys@);
        assert(ordered(all, places(order@), 0, all.len() as int));
        order_is_unique(all, places(order@), stable_order(all), all.len() as int);
    }
    order
}

} // verus!
