//! What opening, closing, marking and stepping through tabs change, and what
//! they leave as it was.

use crate::pane::PanelId;
use crate::panels::{
    lemma_first_place, lemma_round, lemma_strip, others, unlisted, without, OpenPanels,
    PanelKind, PanelsView, SaveAction, SpeechRefusal,
};
use crate::places::{lemma_place_added, places_are, taken_from};
use vstd::prelude::*;

verus! {

/// The places at which a list holds another panel.
pub open spec fn of_others(list: Seq<PanelId>, id: PanelId) -> spec_fn(int) -> bool {
    |i: int| list[i] != id
}

/// What is left of a list without a panel: the others, in their order.
pub open spec fn is_rest(rest: Seq<PanelId>, list: Seq<PanelId>, id: PanelId) -> bool {
    exists|places: Seq<int>|
        #![trigger taken_from(rest, list, places)]
        places_are(places, of_others(list, id), list.len() as int) && taken_from(
            rest,
            list,
            places,
        )
}

proof fn lemma_others_places(list: Seq<PanelId>, id: PanelId, k: int) -> (places: Seq<int>)
    requires
        0 <= k <= list.len(),
    ensures
        places_are(places, of_others(list, id), k),
        taken_from(others(list, id, k), list, places),
    decreases k,
{
    let picks = of_others(list, id);
    if k == 0 {
        Seq::empty()
    } else {
        let before = lemma_others_places(list, id, k - 1);
        lemma_place_added(before, picks, k - 1);
        assert(picks(k - 1) == (list[k - 1] != id));
        if list[k - 1] != id {
            before.push(k - 1)
        } else {
            before
        }
    }
}

proof fn lemma_is_rest(list: Seq<PanelId>, id: PanelId)
    ensures
        is_rest(without(list, id), list, id),
{
    let places = lemma_others_places(list, id, list.len() as int);
    assert(taken_from(without(list, id), list, places));
}

/// A panel comes last of its list.
pub open spec fn comes_last(list: Seq<PanelId>, without: PanelId, id: PanelId) -> bool {
    exists|i: int|
        0 <= i < list.len() && #[trigger] list[i] == id && id != without && forall|j: int|
            i < j < list.len() ==> #[trigger] list[j] == without
}

proof fn lemma_last_of_rest(list: Seq<PanelId>, id: PanelId)
    ensures
        without(list, id).len() > 0 ==> comes_last(list, id, without(list, id).last()),
        without(list, id).len() == 0 ==> forall|j: int|
            0 <= j < list.len() ==> #[trigger] list[j] == id,
{
    let places = lemma_others_places(list, id, list.len() as int);
    let picks = of_others(list, id);
    let rest = without(list, id);
    if rest.len() > 0 {
        let last = places[rest.len() - 1];
        assert(rest[rest.len() - 1] == list[last]);
        assert(places.contains(last));
        assert(picks(last));
        assert forall|j: int| last < j < list.len() implies #[trigger] list[j] == id by {
            if list[j] != id {
                assert(picks(j));
                let p = choose|p: int| 0 <= p < places.len() && places[p] == j;
                assert(places[p] <= places[places.len() - 1]);
            }
        }
        assert(list[last] == rest.last());
    } else {
        assert forall|j: int| 0 <= j < list.len() implies #[trigger] list[j] == id by {
            if list[j] != id {
                assert(picks(j));
            }
        }
    }
}

/// A panel that is removed is gone from every list and mark, and every other
/// keeps its place. Where it was on top the last document that is left comes
/// on top, else the last flow, else nothing; where it was not, the panel on
/// top stays.
pub proof fn a_removed_panel_leaves_the_others(
    panels: &mut OpenPanels,
    id: PanelId,
    was_active: bool,
)
    requires
        call_ensures(OpenPanels::remove_document_panel, (panels, id), was_active),
    ensures
        is_rest(final(panels).documents@, old(panels).documents@, id),
        is_rest(final(panels).flows@, old(panels).flows@, id),
        is_rest(final(panels).pinned@, old(panels).pinned@, id),
        old(panels).speech == Some(id) ==> final(panels).speech is None,
        old(panels).speech != Some(id) ==> final(panels).speech == old(panels).speech,
        was_active <==> old(panels).active is Some && (old(panels).active->0).0 == id,
        !was_active ==> final(panels).active == old(panels).active,
        was_active ==> match final(panels).active {
            Some((heir, PanelKind::Document)) => comes_last(old(panels).documents@, id, heir),
            Some((heir, PanelKind::Flow)) => comes_last(old(panels).flows@, id, heir)
                && forall|i: int|
                0 <= i < old(panels).documents@.len() ==> #[trigger] old(panels).documents@[i] == id,
            None => (forall|i: int|
                0 <= i < old(panels).documents@.len() ==> #[trigger] old(panels).documents@[i]
                    == id) && (forall|i: int|
                0 <= i < old(panels).flows@.len() ==> #[trigger] old(panels).flows@[i] == id),
        },
{
    lemma_is_rest(old(panels).documents@, id);
    lemma_is_rest(old(panels).flows@, id);
    lemma_is_rest(old(panels).pinned@, id);
    lemma_last_of_rest(old(panels).documents@, id);
    lemma_last_of_rest(old(panels).flows@, id);
}

/// A panel that opens comes behind those of its kind and on top of all;
/// nothing else changes.
pub proof fn a_new_panel_comes_last_and_on_top(
    documents: &mut OpenPanels,
    flows: &mut OpenPanels,
    pending: &mut OpenPanels,
    id: PanelId,
)
    requires
        call_ensures(OpenPanels::create_document_panel, (documents, id), ()),
        call_ensures(OpenPanels::create_flow_panel, (flows, id), ()),
        call_ensures(OpenPanels::create_pending_document_panel, (pending, id), ()),
    ensures
        final(documents).documents@ == old(documents).documents@.push(id),
        final(documents).flows@ == old(documents).flows@,
        final(documents).active == Some((id, PanelKind::Document)),
        final(documents).pinned@ == old(documents).pinned@,
        final(documents).speech == old(documents).speech,
        final(documents).pending_authority@ == old(documents).pending_authority@,
        final(flows).flows@ == old(flows).flows@.push(id),
        final(flows).documents@ == old(flows).documents@,
        final(flows).active == Some((id, PanelKind::Flow)),
        final(flows).pinned@ == old(flows).pinned@,
        final(flows).speech == old(flows).speech,
        final(pending).documents@ == old(pending).documents@.push(id),
        final(pending).flows@ == old(pending).flows@,
        final(pending).active == Some((id, PanelKind::Document)),
        final(pending).pending_authority@ == old(pending).pending_authority@.insert(id),
{
}

/// A panel takes its document once, and only while it is open and waits.
pub proof fn a_document_is_attached_once(
    first: &mut OpenPanels,
    second: &mut OpenPanels,
    id: PanelId,
    attaches: bool,
    again: bool,
)
    requires
        call_ensures(OpenPanels::attach_runtime_to_pending_panel, (first, id), attaches),
        *old(second) == *final(first),
        call_ensures(OpenPanels::attach_runtime_to_pending_panel, (second, id), again),
    ensures
        attaches <==> old(first).documents@.contains(id) && old(first).pending_authority@.contains(
            id,
        ),
        !again,
        final(first).documents@ == old(first).documents@,
        final(first).flows@ == old(first).flows@,
        final(first).active == old(first).active,
        forall|other: u128|
            other != id ==> (#[trigger] final(first).pending_authority@.contains(other)
                <==> old(first).pending_authority@.contains(other)),
{
}

/// Activating puts an open panel on top as what it is, and does nothing for
/// one that is not open.
pub proof fn activating_puts_on_top_what_is_open(panels: &mut OpenPanels, id: PanelId)
    requires
        call_ensures(OpenPanels::activate_document_id, (panels, id), ()),
    ensures
        final(panels).documents@ == old(panels).documents@,
        final(panels).flows@ == old(panels).flows@,
        final(panels).pinned@ == old(panels).pinned@,
        final(panels).speech == old(panels).speech,
        old(panels).documents@.contains(id) ==> final(panels).active == Some(
            (id, PanelKind::Document),
        ),
        !old(panels).documents@.contains(id) && old(panels).flows@.contains(id)
            ==> final(panels).active == Some((id, PanelKind::Flow)),
        !old(panels).documents@.contains(id) && !old(panels).flows@.contains(id)
            ==> final(panels).active == old(panels).active,
{
}

/// Stepping goes to the next tab of the strip, the documents and behind them
/// the flows, and from its end to its beginning; backwards it goes the other
/// way round. No tab moves.
pub proof fn stepping_goes_to_the_tab_beside(panels: &mut OpenPanels, forward: bool, p: int)
    requires
        old(panels)@.sound(),
        call_ensures(OpenPanels::navigate_active_tab, (panels, forward), ()),
        0 <= p < old(panels).documents@.len() + old(panels).flows@.len(),
        old(panels).active is Some,
        (old(panels).documents@ + old(panels).flows@)[p] == (old(panels).active->0).0,
    ensures
        ({
            let strip = old(panels).documents@ + old(panels).flows@;
            let beside = if forward {
                if p + 1 < strip.len() {
                    p + 1
                } else {
                    0
                }
            } else {
                if p > 0 {
                    p - 1
                } else {
                    strip.len() - 1
                }
            };
            &&& final(panels).active is Some
            &&& (final(panels).active->0).0 == strip[beside]
            &&& (final(panels).active->0).1 == PanelKind::Document <==> beside
                < old(panels).documents@.len()
        }),
        final(panels).documents@ == old(panels).documents@,
        final(panels).flows@ == old(panels).flows@,
        final(panels).pinned@ == old(panels).pinned@,
        final(panels).speech == old(panels).speech,
{
    let before = old(panels)@;
    let strip = before.strip();
    lemma_strip(before);
    lemma_first_place(strip, p, 0);
    lemma_round(p, strip.len() as int);
    let beside = if forward {
        (p + 1) % (strip.len() as int)
    } else {
        (p + strip.len() - 1) % (strip.len() as int)
    };
    assert(0 <= beside < strip.len());
    assert(before.neighbour(forward) == Some(strip[beside]));
    assert(strip.contains(strip[beside]));
    let count = before.documents.len() as int;
    if beside < count {
        assert(strip[beside] == before.documents[beside]);
        assert(before.documents.contains(strip[beside]));
    } else {
        assert(strip[beside] == before.flows[beside - count]);
        assert(before.flows.contains(strip[beside]));
        if before.documents.contains(strip[beside]) {
            let d = choose|d: int|
                0 <= d < before.documents.len() && before.documents[d] == strip[beside];
            assert(!before.flows.contains(before.documents[d]));
        }
    }
}

proof fn lemma_unlisted_places(list: Seq<PanelId>, other: Seq<PanelId>, k: int) -> (places: Seq<int>)
    requires
        0 <= k <= list.len(),
    ensures
        places_are(places, |i: int| !other.contains(list[i]), k),
        taken_from(unlisted(list, other, k), list, places),
    decreases k,
{
    let picks = |i: int| !other.contains(list[i]);
    if k == 0 {
        Seq::empty()
    } else {
        let before = lemma_unlisted_places(list, other, k - 1);
        lemma_place_added(before, picks, k - 1);
        assert(picks(k - 1) == !other.contains(list[k - 1]));
        if other.contains(list[k - 1]) {
            before
        } else {
            before.push(k - 1)
        }
    }
}

proof fn lemma_on_top(state: PanelsView, id: PanelId)
    requires
        state.is_open(id),
    ensures
        state.activated(id).active is Some,
        (state.activated(id).active->0).0 == id,
{
}

/// The number keys count the pinned tabs first, in the order of their pins,
/// and behind them the others in the order of the strip; a number beyond does
/// nothing. The places of the tabs without a pin are handed out.
pub proof fn number_keys_count_pins_first(
    panels: &mut OpenPanels,
    index: usize,
    before: PanelsView,
) -> (places: Seq<int>)
    requires
        old(panels)@ == before,
        before.sound(),
        call_ensures(OpenPanels::activate_tab_shortcut, (panels, index), ()),
    ensures
        places_are(
            places,
            |i: int| !before.pinned.contains((before.documents + before.flows)[i]),
            (before.documents.len() + before.flows.len()) as int,
        ),
        index < before.pinned.len() ==> final(panels).active is Some && (
        final(panels).active->0).0 == before.pinned[index as int],
        before.pinned.len() <= index < before.pinned.len() + places.len()
            ==> final(panels).active is Some && (final(panels).active->0).0 == (before.documents
            + before.flows)[places[index - before.pinned.len()]],
        index >= before.pinned.len() + places.len() ==> final(panels)@ == before,
        final(panels).documents@ == before.documents,
        final(panels).flows@ == before.flows,
        final(panels).pinned@ == before.pinned,
{
    let strip = before.strip();
    assert(strip == before.documents + before.flows);
    let places = lemma_unlisted_places(strip, before.pinned, strip.len() as int);
    lemma_strip(before);
    let order = before.shortcut_order();
    if index < order.len() {
        let id = order[index as int];
        if index < before.pinned.len() {
            assert(id == before.pinned[index as int]);
        } else {
            let q = index - before.pinned.len();
            assert(id == unlisted(strip, before.pinned, strip.len() as int)[q]);
            assert(id == strip[places[q]]);
            assert(strip.contains(id));
        }
        lemma_on_top(before, id);
    }
    places
}

/// Pinning switches the pin of the tab on top and of no other.
pub proof fn a_pin_is_switched_on_the_tab_on_top(panels: &mut OpenPanels, id: PanelId)
    requires
        call_ensures(OpenPanels::toggle_active_tab_pin, (panels,), ()),
    ensures
        old(panels).active is Some && (old(panels).active->0).0 == id ==> (
        final(panels).pinned@.contains(id) <==> !old(panels).pinned@.contains(id)),
        !(old(panels).active is Some && (old(panels).active->0).0 == id) ==> (
        final(panels).pinned@.contains(id) <==> old(panels).pinned@.contains(id)),
        final(panels).documents@ == old(panels).documents@,
        final(panels).flows@ == old(panels).flows@,
        final(panels).active == old(panels).active,
        final(panels).speech == old(panels).speech,
{
    if let Some((top, _)) = old(panels).active {
        crate::panels::a_removed_panel_is_gone(old(panels).pinned@, top, id);
        crate::panels::lemma_pushed(old(panels).pinned@, top, id);
    }
}

/// Only an open document is spoken from; marking it again takes the mark off,
/// and marking another moves it.
pub proof fn one_document_is_spoken_from(
    panels: &mut OpenPanels,
    id: PanelId,
    result: Result<(), SpeechRefusal>,
)
    requires
        call_ensures(OpenPanels::toggle_speech_document, (panels, id), result),
    ensures
        result is Ok <==> old(panels).documents@.contains(id),
        result is Ok && old(panels).speech == Some(id) ==> final(panels).speech is None,
        result is Ok && old(panels).speech != Some(id) ==> final(panels).speech == Some(id),
        result is Err ==> final(panels).speech == old(panels).speech,
        final(panels).documents@ == old(panels).documents@,
        final(panels).active == old(panels).active,
        final(panels).pinned@ == old(panels).pinned@,
{
}

/// What is selected is sent to the document that is spoken from, from another
/// panel than that one, and nowhere else.
pub proof fn a_selection_is_sent_to_the_speech(
    panels: OpenPanels,
    target: Result<PanelId, SpeechRefusal>,
)
    requires
        call_ensures(OpenPanels::send_selection_to_speech_document, (&panels,), target),
    ensures
        target is Ok <==> panels.speech is Some && panels.active is Some && (panels.active->0).0
            != panels.speech->0,
        target is Ok ==> panels.speech == Some(target->Ok_0),
        panels.speech is None ==> target == Err::<PanelId, SpeechRefusal>(
            SpeechRefusal::NoSpeechDocument,
        ),
        panels.speech is Some && panels.active is None ==> target == Err::<PanelId, SpeechRefusal>(
            SpeechRefusal::NothingOpen,
        ),
{
}

/// Saving saves the panel on top: in place where it has a file, else where is
/// asked first; saving elsewhere always asks. Closing closes it.
pub proof fn saving_and_closing_take_the_panel_on_top(
    panels: OpenPanels,
    has_path: bool,
    save: SaveAction,
    save_as: SaveAction,
    close: Option<PanelId>,
)
    requires
        call_ensures(OpenPanels::save_active, (&panels, has_path), save),
        call_ensures(OpenPanels::save_active_as, (&panels,), save_as),
        call_ensures(OpenPanels::close_active_document, (&panels,), close),
    ensures
        panels.active is None ==> save == SaveAction::Nothing && save_as == SaveAction::Nothing
            && close is None,
        panels.active is Some && has_path ==> save == SaveAction::Save(
            (panels.active->0).0,
            (panels.active->0).1,
        ),
        panels.active is Some && !has_path ==> save == SaveAction::SaveAs(
            (panels.active->0).0,
            (panels.active->0).1,
        ),
        panels.active is Some ==> save_as == SaveAction::SaveAs(
            (panels.active->0).0,
            (panels.active->0).1,
        ) && close == Some((panels.active->0).0),
{
}

} // verus!
