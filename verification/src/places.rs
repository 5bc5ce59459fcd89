//! The places of a list's items that a test picks.

use vstd::prelude::*;

verus! {

/// The places ascend.
pub open spec fn places_ascend(places: Seq<int>) -> bool {
    forall|p: int, q: int| 0 <= p < q < places.len() ==> #[trigger] places[p] < #[trigger] places[q]
}

/// The places are those below `k` that a test picks, in order.
pub open spec fn places_are(places: Seq<int>, picks: spec_fn(int) -> bool, k: int) -> bool {
    &&& places_ascend(places)
    &&& forall|p: int| 0 <= p < places.len() ==> 0 <= #[trigger] places[p] < k
    &&& forall|i: int| 0 <= i < k ==> (#[trigger] picks(i) <==> places.contains(i))
}

/// One list holds what stands at some places of another, in order.
pub open spec fn taken_from<A>(list: Seq<A>, all: Seq<A>, places: Seq<int>) -> bool {
    &&& list.len() == places.len()
    &&& forall|p: int|
        #![trigger list[p]]
        #![trigger places[p]]
        0 <= p < list.len() ==> 0 <= places[p] < all.len() && list[p] == all[places[p]]
}

/// Picking the next place, or passing it over.
pub proof fn lemma_place_added(places: Seq<int>, picks: spec_fn(int) -> bool, k: int)
    requires
        0 <= k,
        places_are(places, picks, k),
    ensures
        picks(k) ==> places_are(places.push(k), picks, k + 1),
        !picks(k) ==> places_are(places, picks, k + 1),
{
    let all = places.push(k);
    if places.contains(k) {
        let p = choose|p: int| 0 <= p < places.len() && places[p] == k;
        assert(places[p] < k);
    }
    assert forall|i: int| 0 <= i < k + 1 && picks(k) implies (#[trigger] picks(i) <==> all.contains(
        i,
    )) by {
        if i == k {
            assert(all[places.len() as int] == k);
        } else {
            if places.contains(i) {
                let p = choose|p: int| 0 <= p < places.len() && places[p] == i;
                assert(all[p] == i);
            }
            if all.contains(i) {
                let p = choose|p: int| 0 <= p < all.len() && all[p] == i;
                assert(places[p] == i);
            }
        }
    }
    assert forall|p: int, q: int| 0 <= p < q < all.len() implies #[trigger] all[p]
        < #[trigger] all[q] by {
        assert(all[p] == places[p]);
        assert(places[p] < k);
        if q < places.len() {
            assert(all[q] == places[q]);
        }
    }
}

/// What a filter keeps of a list, by its places there.
pub proof fn lemma_filter_places<A>(all: Seq<A>, test: spec_fn(A) -> bool) -> (places: Seq<int>)
    ensures
        places_are(places, |i: int| test(all[i]), all.len() as int),
        taken_from(all.filter(test), all, places),
    decreases all.len(),
{
    reveal(Seq::filter);
    let picks = |i: int| test(all[i]);
    if all.len() == 0 {
        Seq::empty()
    } else {
        let front = all.drop_last();
        let earlier = lemma_filter_places(front, test);
        let k = front.len() as int;
        assert(places_are(earlier, picks, k)) by {
            assert forall|i: int| 0 <= i < k implies (#[trigger] picks(i) <==> earlier.contains(
                i,
            )) by {
                assert(front[i] == all[i]);
                assert((|i: int| test(front[i]))(i) == test(all[i]));
            }
        }
        lemma_place_added(earlier, picks, k);
        let kept_before = front.filter(test);
        let kept = all.filter(test);
        let places = if test(all.last()) {
            earlier.push(k)
        } else {
            earlier
        };
        assert forall|p: int|
            #![trigger kept[p]]
            #![trigger places[p]]
            0 <= p < kept.len() implies 0 <= places[p] < all.len() && kept[p]
            == all[places[p]] by {
            if p < kept_before.len() {
                assert(kept[p] == kept_before[p]);
                assert(places[p] == earlier[p]);
            }
        }
        assert(picks(k) == test(all.last()));
        places
    }
}

} // verus!
