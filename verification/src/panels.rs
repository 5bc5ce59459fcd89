//! The open documents and flows of a window: which is on top, which are
//! pinned, and what saving or closing one means.

use crate::fx::{empty_set, set_contains, set_insert, set_remove};
use crate::pane::PanelId;
use crate::text::{chars_of, hexadecimal, hexadecimal_text, text_between};
use rustc_hash::FxHashSet;
use vstd::prelude::*;
use vstd::string::StringExecFns;

verus! {

#[derive(Clone, Copy, Debug, PartialEq, Eq, Structural)]
pub enum PanelKind {
    Document,
    Flow,
}

/// The open panels.
#[derive(Debug)]
pub struct OpenPanels {
    pub documents: Vec<PanelId>,
    pub flows: Vec<PanelId>,
    /// The panel on top, and what it is.
    pub active: Option<(PanelId, PanelKind)>,
    pub pinned: Vec<PanelId>,
    pub speech: Option<PanelId>,
    /// Documents that show before they can be edited.
    pub pending_authority: FxHashSet<u128>,
}

/// The open panels by their values.
#[verifier::ext_equal]
pub struct PanelsView {
    pub documents: Seq<PanelId>,
    pub flows: Seq<PanelId>,
    pub active: Option<(PanelId, PanelKind)>,
    pub pinned: Seq<PanelId>,
    pub speech: Option<PanelId>,
    pub pending_authority: Set<u128>,
}

impl View for OpenPanels {
    type V = PanelsView;

    open spec fn view(&self) -> PanelsView {
        PanelsView {
            documents: self.documents@,
            flows: self.flows@,
            active: self.active,
            pinned: self.pinned@,
            speech: self.speech,
            pending_authority: self.pending_authority@,
        }
    }
}

/// The first `k` panels without one.
pub open spec fn others(list: Seq<PanelId>, id: PanelId, k: int) -> Seq<PanelId>
    decreases k,
{
    if k <= 0 {
        Seq::empty()
    } else if list[k - 1] != id {
        others(list, id, k - 1).push(list[k - 1])
    } else {
        others(list, id, k - 1)
    }
}

/// The list without a panel.
pub open spec fn without(list: Seq<PanelId>, id: PanelId) -> Seq<PanelId> {
    others(list, id, list.len() as int)
}

/// Where an id stands first from `k` on.
pub open spec fn first_place(list: Seq<PanelId>, id: PanelId, k: int) -> Option<int>
    decreases list.len() - k,
{
    if k < 0 || k >= list.len() {
        None
    } else if list[k] == id {
        Some(k)
    } else {
        first_place(list, id, k + 1)
    }
}

/// Those of the first `k` ids that another list does not hold.
pub open spec fn unlisted(list: Seq<PanelId>, other: Seq<PanelId>, k: int) -> Seq<PanelId>
    decreases k,
{
    if k <= 0 {
        Seq::empty()
    } else if other.contains(list[k - 1]) {
        unlisted(list, other, k - 1)
    } else {
        unlisted(list, other, k - 1).push(list[k - 1])
    }
}

impl PanelsView {
    pub open spec fn is_open(self, id: PanelId) -> bool {
        self.documents.contains(id) || self.flows.contains(id)
    }

    /// No panel is open twice, something open is on top wherever anything is
    /// open, and no pin or speech mark is on a panel that is not.
    pub open spec fn sound(self) -> bool {
        &&& match self.active {
            Some((id, PanelKind::Document)) => self.documents.contains(id),
            Some((id, PanelKind::Flow)) => self.flows.contains(id),
            None => self.documents.len() == 0 && self.flows.len() == 0,
        }
        &&& self.documents.no_duplicates()
        &&& self.flows.no_duplicates()
        &&& forall|i: int| 0 <= i < self.pinned.len() ==> self.is_open(#[trigger] self.pinned[i])
        &&& match self.speech {
            Some(id) => self.is_open(id),
            None => true,
        }
        &&& forall|i: int|
            0 <= i < self.documents.len() ==> !self.flows.contains(#[trigger] self.documents[i])
    }

    /// What an open panel is: a document before a flow.
    pub open spec fn kind(self, id: PanelId) -> Option<PanelKind> {
        if self.documents.contains(id) {
            Some(PanelKind::Document)
        } else if self.flows.contains(id) {
            Some(PanelKind::Flow)
        } else {
            None
        }
    }

    /// With an open panel put on top.
    pub open spec fn activated(self, id: PanelId) -> PanelsView {
        match self.kind(id) {
            Some(kind) => PanelsView { active: Some((id, kind)), ..self },
            None => self,
        }
    }

    /// The tab strip: the documents, then the flows.
    pub open spec fn strip(self) -> Seq<PanelId> {
        self.documents + self.flows
    }

    /// The tab beside the one on top, round the strip.
    pub open spec fn neighbour(self, forward: bool) -> Option<PanelId> {
        let tabs = self.strip();
        match self.active {
            Some((id, _)) => match first_place(tabs, id, 0) {
                Some(place) => Some(
                    tabs[if forward {
                        (place + 1) % (tabs.len() as int)
                    } else {
                        (place + tabs.len() - 1) % (tabs.len() as int)
                    }],
                ),
                None => None,
            },
            None => None,
        }
    }

    /// The tabs in the order in which the number keys count them: the pinned
    /// ones first.
    pub open spec fn shortcut_order(self) -> Seq<PanelId> {
        self.pinned + unlisted(self.strip(), self.pinned, self.strip().len() as int)
    }

    /// With the pin of the tab on top switched.
    pub open spec fn pin_switched(self) -> PanelsView {
        match self.active {
            Some((id, _)) => PanelsView {
                pinned: if self.pinned.contains(id) {
                    without(self.pinned, id)
                } else {
                    self.pinned.push(id)
                },
                ..self
            },
            None => self,
        }
    }

    /// Where the selection of the panel on top is sent: to the document that
    /// is spoken from, which is another one.
    pub open spec fn speech_target(self) -> Result<PanelId, SpeechRefusal> {
        match (self.speech, self.active) {
            (None, _) => Err(SpeechRefusal::NoSpeechDocument),
            (Some(_), None) => Err(SpeechRefusal::NothingOpen),
            (Some(speech), Some((id, _))) => if speech == id {
                Err(SpeechRefusal::OwnSpeechDocument)
            } else {
                Ok(speech)
            },
        }
    }

    /// With a document opened, on top.
    pub open spec fn document_opened(self, id: PanelId) -> PanelsView {
        PanelsView {
            documents: self.documents.push(id),
            active: Some((id, PanelKind::Document)),
            ..self
        }
    }

    /// With a flow opened, on top.
    pub open spec fn flow_opened(self, id: PanelId) -> PanelsView {
        PanelsView { flows: self.flows.push(id), active: Some((id, PanelKind::Flow)), ..self }
    }

    /// What comes on top when the top panel goes: the last document, else the
    /// last flow.
    pub open spec fn heir(documents: Seq<PanelId>, flows: Seq<PanelId>) -> Option<
        (PanelId, PanelKind),
    > {
        if documents.len() > 0 {
            Some((documents.last(), PanelKind::Document))
        } else if flows.len() > 0 {
            Some((flows.last(), PanelKind::Flow))
        } else {
            None
        }
    }

    /// With a panel removed.
    pub open spec fn removed(self, id: PanelId) -> PanelsView {
        let documents = without(self.documents, id);
        let flows = without(self.flows, id);
        PanelsView {
            documents,
            flows,
            pinned: without(self.pinned, id),
            speech: if self.speech == Some(id) {
                None
            } else {
                self.speech
            },
            active: if self.active is Some && (self.active->0).0 == id {
                PanelsView::heir(documents, flows)
            } else {
                self.active
            },
            ..self
        }
    }
}

pub(crate) proof fn lemma_others(list: Seq<PanelId>, id: PanelId, k: int)
    requires
        0 <= k <= list.len(),
    ensures
        forall|other: PanelId| #[trigger]
            others(list, id, k).contains(other) <==> (other != id && exists|i: int|
                0 <= i < k && list[i] == other),
    decreases k,
{
    if k > 0 {
        lemma_others(list, id, k - 1);
        let before = others(list, id, k - 1);
        let all = others(list, id, k);
        assert forall|other: PanelId| #[trigger] all.contains(other) <==> (other != id && exists|
            i: int,
        |
            0 <= i < k && list[i] == other) by {
            if all.contains(other) {
                let at = choose|at: int| 0 <= at < all.len() && all[at] == other;
                if at < before.len() {
                    assert(before[at] == other);
                    assert(before.contains(other));
                    let i = choose|i: int| 0 <= i < k - 1 && list[i] == other;
                    assert(list[i] == other);
                } else {
                    assert(list[k - 1] == other);
                }
            }
            if other != id && exists|i: int| 0 <= i < k && list[i] == other {
                let i = choose|i: int| 0 <= i < k && list[i] == other;
                if i < k - 1 {
                    assert(before.contains(other));
                    let at = choose|at: int| 0 <= at < before.len() && before[at] == other;
                    assert(all[at] == other);
                } else {
                    assert(all[all.len() - 1] == other);
                }
            }
        }
    }
}

proof fn lemma_others_distinct(list: Seq<PanelId>, id: PanelId, k: int)
    requires
        0 <= k <= list.len(),
        list.no_duplicates(),
    ensures
        others(list, id, k).no_duplicates(),
    decreases k,
{
    if k > 0 {
        lemma_others_distinct(list, id, k - 1);
        lemma_others(list, id, k - 1);
        let before = others(list, id, k - 1);
        let last = list[k - 1];
        if before.contains(last) {
            let i = choose|i: int| 0 <= i < k - 1 && list[i] == last;
            assert(list[i] == last);
        }
        assert(!before.contains(last));
    }
}

/// A list without a panel holds the others and nothing else.
pub proof fn a_removed_panel_is_gone(list: Seq<PanelId>, id: PanelId, other: PanelId)
    ensures
        without(list, id).contains(other) == (other != id && list.contains(other)),
{
    lemma_others(list, id, list.len() as int);
    if other != id && list.contains(other) {
        let i = choose|i: int| 0 <= i < list.len() && list[i] == other;
        assert(list[i] == other);
    }
}

/// Opening a panel under a fresh id keeps the window sound and puts it on top.
pub proof fn opening_keeps_the_window_sound(state: PanelsView, id: PanelId)
    requires
        state.sound(),
        !state.is_open(id),
    ensures
        state.document_opened(id).sound(),
        state.flow_opened(id).sound(),
{
    let with_document = state.document_opened(id);
    assert(with_document.documents[state.documents.len() as int] == id);
    let with_flow = state.flow_opened(id);
    assert(with_flow.flows[state.flows.len() as int] == id);
    assert forall|x: PanelId| state.documents.contains(x) implies #[trigger] with_document.documents.contains(
    x) by {
        let i = choose|i: int| 0 <= i < state.documents.len() && state.documents[i] == x;
        assert(with_document.documents[i] == x);
    }
    assert forall|x: PanelId| state.flows.contains(x) implies #[trigger] with_flow.flows.contains(
        x,
    ) by {
        let i = choose|i: int| 0 <= i < state.flows.len() && state.flows[i] == x;
        assert(with_flow.flows[i] == x);
    }
    assert forall|i: int| 0 <= i < with_document.documents.len() implies !with_document.flows.contains(
    #[trigger] with_document.documents[i]) by {
        if i < state.documents.len() {
            assert(with_document.documents[i] == state.documents[i]);
        }
    }
    assert forall|i: int| 0 <= i < with_flow.documents.len() implies !with_flow.flows.contains(
        #[trigger] with_flow.documents[i],
    ) by {
        let x = state.documents[i];
        assert(!state.flows.contains(x));
        if with_flow.flows.contains(x) {
            let j = choose|j: int| 0 <= j < with_flow.flows.len() && with_flow.flows[j] == x;
            if j < state.flows.len() {
                assert(state.flows[j] == x);
            } else {
                assert(state.documents.contains(x));
            }
        }
    }
}

/// Removing a panel keeps the window sound: the panel is gone from every
/// list, and something open is on top wherever anything is open.
pub proof fn removing_keeps_the_window_sound(state: PanelsView, id: PanelId)
    requires
        state.sound(),
    ensures
        state.removed(id).sound(),
        !state.removed(id).is_open(id),
{
    let after = state.removed(id);
    lemma_others_distinct(state.documents, id, state.documents.len() as int);
    lemma_others_distinct(state.flows, id, state.flows.len() as int);
    assert forall|x: PanelId| #[trigger]
        after.documents.contains(x) == (x != id && state.documents.contains(x)) by {
        a_removed_panel_is_gone(state.documents, id, x);
    }
    assert forall|x: PanelId| #[trigger]
        after.flows.contains(x) == (x != id && state.flows.contains(x)) by {
        a_removed_panel_is_gone(state.flows, id, x);
    }
    assert forall|i: int| 0 <= i < after.pinned.len() implies after.is_open(
        #[trigger] after.pinned[i],
    ) by {
        let x = after.pinned[i];
        assert(after.pinned.contains(x));
        a_removed_panel_is_gone(state.pinned, id, x);
        let j = choose|j: int| 0 <= j < state.pinned.len() && state.pinned[j] == x;
        assert(state.is_open(state.pinned[j]));
    }
    assert forall|i: int| 0 <= i < after.documents.len() implies !after.flows.contains(
        #[trigger] after.documents[i],
    ) by {
        let x = after.documents[i];
        assert(after.documents.contains(x));
        let j = choose|j: int| 0 <= j < state.documents.len() && state.documents[j] == x;
        assert(!state.flows.contains(state.documents[j]));
    }
    if after.documents.len() > 0 {
        assert(after.documents.contains(after.documents.last()));
    }
    if after.flows.len() > 0 {
        assert(after.flows.contains(after.flows.last()));
    }
}

pub(crate) proof fn lemma_round(place: int, len: int)
    requires
        0 <= place < len,
    ensures
        (place + 1) % len == (if place == len - 1 {
            0
        } else {
            place + 1
        }),
        (place + len - 1) % len == (if place == 0 {
            len - 1
        } else {
            place - 1
        }),
{
    if place == len - 1 {
        vstd::arithmetic::div_mod::lemma_mod_self_0(len);
    } else {
        vstd::arithmetic::div_mod::lemma_small_mod((place + 1) as nat, len as nat);
    }
    if place == 0 {
        vstd::arithmetic::div_mod::lemma_small_mod((len - 1) as nat, len as nat);
    } else {
        vstd::arithmetic::div_mod::lemma_mod_add_multiples_vanish(place - 1, len);
        vstd::arithmetic::div_mod::lemma_small_mod((place - 1) as nat, len as nat);
    }
}

pub(crate) proof fn lemma_unlisted_prefix(list: Seq<PanelId>, other: Seq<PanelId>, j: int, k: int)
    requires
        0 <= j <= k <= list.len(),
    ensures
        unlisted(list, other, j).len() <= unlisted(list, other, k).len(),
        forall|i: int|
            0 <= i < unlisted(list, other, j).len() ==> unlisted(list, other, j)[i]
                == unlisted(list, other, k)[i],
    decreases k,
{
    if j < k {
        lemma_unlisted_prefix(list, other, j, k - 1);
    }
}

pub(crate) proof fn lemma_first_place(list: Seq<PanelId>, place: int, k: int)
    requires
        list.no_duplicates(),
        0 <= k <= place < list.len(),
    ensures
        first_place(list, list[place], k) == Some(place),
    decreases place - k,
{
    if k < place {
        lemma_first_place(list, place, k + 1);
    }
}

/// Stepping to the next tab and back, or back and on, comes to the tab that
/// was on top.
pub proof fn tab_steps_undo_each_other(state: PanelsView, forward: bool)
    requires
        state.sound(),
        state.active is Some,
    ensures
        ({
            let there = state.activated(state.neighbour(forward)->0);
            &&& state.neighbour(forward) is Some
            &&& there.neighbour(!forward) is Some
            &&& there.activated(there.neighbour(!forward)->0) == state
        }),
{
    let tabs = state.strip();
    let n = tabs.len() as int;
    let (id, kind) = state.active->0;
    lemma_strip(state);
    assert(tabs.contains(id));
    let place = choose|place: int| 0 <= place < n && tabs[place] == id;
    lemma_first_place(tabs, place, 0);
    lemma_round(place, n);
    let beside = if forward {
        (place + 1) % n
    } else {
        (place + n - 1) % n
    };
    lemma_first_place(tabs, beside, 0);
    lemma_round(beside, n);
    let there = state.activated(tabs[beside]);
    assert(there.strip() == tabs);
    assert(tabs.contains(tabs[beside]));
    assert(state.is_open(tabs[beside]));
    assert(there.neighbour(!forward) == Some(id));
    if kind == PanelKind::Flow {
        if state.documents.contains(id) {
            let i = choose|i: int| 0 <= i < state.documents.len() && state.documents[i] == id;
            assert(!state.flows.contains(state.documents[i]));
        }
    }
    assert(there.activated(id) =~= state);
}

pub(crate) proof fn lemma_strip(state: PanelsView)
    requires
        state.sound(),
    ensures
        state.strip().no_duplicates(),
        forall|id: PanelId| #[trigger] state.strip().contains(id) == state.is_open(id),
{
    let tabs = state.strip();
    let documents = state.documents.len() as int;
    assert forall|i: int, j: int| 0 <= i < j < tabs.len() implies tabs[i] != tabs[j] by {
        if i < documents && documents <= j {
            assert(tabs[j] == state.flows[j - documents]);
            assert(!state.flows.contains(state.documents[i]));
        } else if documents <= i {
            assert(tabs[i] == state.flows[i - documents]);
            assert(tabs[j] == state.flows[j - documents]);
        }
    }
    assert forall|id: PanelId| #[trigger] tabs.contains(id) == state.is_open(id) by {
        if tabs.contains(id) {
            let i = choose|i: int| 0 <= i < tabs.len() && tabs[i] == id;
            if i < documents {
                assert(state.documents[i] == id);
            } else {
                assert(state.flows[i - documents] == id);
            }
        }
        if state.documents.contains(id) {
            let i = choose|i: int| 0 <= i < documents && state.documents[i] == id;
            assert(tabs[i] == id);
        }
        if state.flows.contains(id) {
            let i = choose|i: int| 0 <= i < state.flows.len() && state.flows[i] == id;
            assert(tabs[documents + i] == id);
        }
    }
}

/// Going from tab to tab, pinning and marking the speech document keep the
/// window sound.
pub proof fn marking_keeps_the_window_sound(state: PanelsView, id: PanelId)
    requires
        state.sound(),
    ensures
        state.activated(id).sound(),
        state.pin_switched().sound(),
        (PanelsView { speech: None, ..state }).sound(),
        state.documents.contains(id) ==> (PanelsView { speech: Some(id), ..state }).sound(),
{
    let switched = state.pin_switched();
    if state.active is Some {
        let top = (state.active->0).0;
        assert forall|i: int| 0 <= i < switched.pinned.len() implies switched.is_open(
            #[trigger] switched.pinned[i],
        ) by {
            let pinned = switched.pinned[i];
            assert(switched.pinned.contains(pinned));
            if state.pinned.contains(top) {
                a_removed_panel_is_gone(state.pinned, top, pinned);
            } else {
                lemma_pushed(state.pinned, top, pinned);
            }
            if state.pinned.contains(pinned) {
                let j = choose|j: int| 0 <= j < state.pinned.len() && state.pinned[j] == pinned;
                assert(state.is_open(state.pinned[j]));
            }
        }
    }
}

/// Pinning a tab and unpinning it leaves the same tabs pinned.
pub proof fn pinning_twice_changes_no_pin(state: PanelsView, id: PanelId)
    ensures
        state.pin_switched().pin_switched().pinned.contains(id) == state.pinned.contains(id),
{
    if state.active is Some {
        let top = (state.active->0).0;
        let once = state.pin_switched();
        if state.pinned.contains(top) {
            a_removed_panel_is_gone(state.pinned, top, top);
            a_removed_panel_is_gone(state.pinned, top, id);
            lemma_pushed(once.pinned, top, id);
        } else {
            lemma_pushed(state.pinned, top, top);
            lemma_pushed(state.pinned, top, id);
            a_removed_panel_is_gone(once.pinned, top, id);
        }
    }
}

pub(crate) proof fn lemma_pushed(list: Seq<PanelId>, new: PanelId, id: PanelId)
    ensures
        list.push(new).contains(id) == (id == new || list.contains(id)),
{
    let all = list.push(new);
    assert(all[list.len() as int] == new);
    if list.contains(id) {
        let i = choose|i: int| 0 <= i < list.len() && list[i] == id;
        assert(all[i] == id);
    }
    if all.contains(id) {
        let i = choose|i: int| 0 <= i < all.len() && all[i] == id;
        if i < list.len() {
            assert(list[i] == id);
        }
    }
}

proof fn lemma_none_taken(list: Seq<PanelId>, id: PanelId, k: int)
    requires
        0 <= k <= list.len(),
        forall|i: int| 0 <= i < k ==> list[i] != id,
    ensures
        others(list, id, k) == list.take(k),
    decreases k,
{
    if k > 0 {
        lemma_none_taken(list, id, k - 1);
        assert(list.take(k - 1).push(list[k - 1]) =~= list.take(k));
    } else {
        assert(list.take(0) =~= Seq::<PanelId>::empty());
    }
}

pub(crate) proof fn lemma_pushed_and_taken(list: Seq<PanelId>, id: PanelId)
    requires
        !list.contains(id),
    ensures
        without(list.push(id), id) == list,
{
    let all = list.push(id);
    assert forall|i: int| 0 <= i < list.len() implies all[i] != id by {
        assert(list[i] == all[i]);
    }
    lemma_none_taken(all, id, list.len() as int);
    assert(all.take(list.len() as int) =~= list);
}

/// Why nothing is sent to, or marked as, the document that is spoken from.
#[derive(Clone, Copy, Debug, PartialEq, Eq, Structural)]
pub enum SpeechRefusal {
    NoSpeechDocument,
    NothingOpen,
    /// The document would be sent to itself.
    OwnSpeechDocument,
    /// A flow cannot be spoken from.
    NotADocument,
}

/// What saving the panel on top does.
#[derive(Clone, Copy, Debug, PartialEq, Eq, Structural)]
pub enum SaveAction {
    Nothing,
    /// Save in place; a document's collaborators hear of it.
    Save(PanelId, PanelKind),
    /// Ask where to save first.
    SaveAs(PanelId, PanelKind),
}

fn retain_others(list: &mut Vec<PanelId>, id: PanelId)
    ensures
        final(list)@ == without(old(list)@, id),
{
    let ghost given = list@;
    let mut kept: Vec<PanelId> = Vec::new();
    let mut next: usize = 0;
    while next < list.len()
        invariant
            list@ == given,
            next <= given.len(),
            kept@ == others(given, id, next as int),
        decreases given.len() - next,
    {
        if list[next] != id {
            kept.push(list[next]);
        }
        next = next + 1;
    }
    *list = kept;
}

/// Whether a list holds a panel.
pub fn holds_panel(list: &Vec<PanelId>, id: PanelId) -> (b: bool)
    ensures
        b == list@.contains(id),
{
    let mut next: usize = 0;
    while next < list.len()
        invariant
            next <= list@.len(),
            forall|i: int| 0 <= i < next ==> list@[i] != id,
        decreases list@.len() - next,
    {
        if list[next] == id {
            assert(list@[next as int] == id);
            return true;
        }
        next = next + 1;
    }
    false
}

impl OpenPanels {
    /// Nothing open.
    pub fn new() -> (panels: Self)
        ensures
            panels@ == (PanelsView {
                documents: Seq::empty(),
                flows: Seq::empty(),
                active: None,
                pinned: Seq::empty(),
                speech: None,
                pending_authority: Set::empty(),
            }),
    {
        OpenPanels {
            documents: Vec::new(),
            flows: Vec::new(),
            active: None,
            pinned: Vec::new(),
            speech: None,
            pending_authority: empty_set(),
        }
    }

    /// Opens a document on top.
    pub fn create_document_panel(&mut self, id: PanelId)
        ensures
            final(self)@ == old(self)@.document_opened(id),
    {
        self.documents.push(id);
        self.active = Some((id, PanelKind::Document));
    }

    /// Opens a flow on top.
    pub fn create_flow_panel(&mut self, id: PanelId)
        ensures
            final(self)@ == old(self)@.flow_opened(id),
    {
        self.flows.push(id);
        self.active = Some((id, PanelKind::Flow));
    }

    /// Opens a document on top that shows before it can be edited.
    pub fn create_pending_document_panel(&mut self, id: PanelId)
        ensures
            final(self)@ == (PanelsView {
                pending_authority: old(self)@.pending_authority.insert(id),
                ..old(self)@.document_opened(id)
            }),
    {
        set_insert(&mut self.pending_authority, id);
        self.create_document_panel(id);
    }

    /// The document of a pending panel has loaded: says whether the panel
    /// takes it. One that was closed meanwhile does not, and either way it is
    /// pending no more.
    pub fn attach_runtime_to_pending_panel(&mut self, id: PanelId) -> (attaches: bool)
        ensures
            attaches == (old(self)@.documents.contains(id) && old(
                self,
            )@.pending_authority.contains(id)),
            final(self)@ == (PanelsView {
                pending_authority: old(self)@.pending_authority.remove(id),
                ..old(self)@
            }),
    {
        let attaches = holds_panel(&self.documents, id) && set_contains(
            &self.pending_authority,
            id,
        );
        set_remove(&mut self.pending_authority, id);
        attaches
    }

    /// Puts a document on top.
    pub fn set_active_document(&mut self, id: PanelId)
        ensures
            final(self)@ == (PanelsView {
                active: Some((id, PanelKind::Document)),
                ..old(self)@
            }),
    {
        self.active = Some((id, PanelKind::Document));
    }

    /// Puts a flow on top.
    pub fn set_active_flow(&mut self, id: PanelId)
        ensures
            final(self)@ == (PanelsView { active: Some((id, PanelKind::Flow)), ..old(self)@ }),
    {
        self.active = Some((id, PanelKind::Flow));
    }

    /// Removes a panel and every mark on it. Says whether the panel on top
    /// changed with it.
    pub fn remove_document_panel(&mut self, id: PanelId) -> (was_active: bool)
        ensures
            was_active == (old(self)@.active is Some && (old(self)@.active->0).0 == id),
            final(self)@ == old(self)@.removed(id),
    {
        let was_active = match self.active {
            Some((active, _)) => active == id,
            None => false,
        };
        retain_others(&mut self.documents, id);
        retain_others(&mut self.flows, id);
        retain_others(&mut self.pinned, id);
        let is_speech = match self.speech {
            Some(speech) => speech == id,
            None => false,
        };
        if is_speech {
            self.speech = None;
        }
        if was_active {
            self.active =
            if self.documents.len() > 0 {
                Some((self.documents[self.documents.len() - 1], PanelKind::Document))
            } else if self.flows.len() > 0 {
                Some((self.flows[self.flows.len() - 1], PanelKind::Flow))
            } else {
                None
            };
        }
        was_active
    }

    /// What a panel is: a document before a flow.
    pub fn kind_of(&self, id: PanelId) -> (kind: Option<PanelKind>)
        ensures
            kind == self@.kind(id),
    {
        if holds_panel(&self.documents, id) {
            Some(PanelKind::Document)
        } else if holds_panel(&self.flows, id) {
            Some(PanelKind::Flow)
        } else {
            None
        }
    }

    /// Puts an open panel on top.
    pub fn activate_document_id(&mut self, id: PanelId)
        ensures
            final(self)@ == old(self)@.activated(id),
    {
        match self.kind_of(id) {
            Some(PanelKind::Document) => {
                self.set_active_document(id);
            },
            Some(PanelKind::Flow) => {
                self.set_active_flow(id);
            },
            None => {},
        }
    }

    /// The tab strip: the documents, then the flows.
    pub fn tabs(&self) -> (tabs: Vec<PanelId>)
        ensures
            tabs@ == self@.strip(),
    {
        let mut tabs: Vec<PanelId> = Vec::new();
        let mut next: usize = 0;
        while next < self.documents.len()
            invariant
                next <= self.documents@.len(),
                tabs@ == self.documents@.take(next as int),
            decreases self.documents@.len() - next,
        {
            tabs.push(self.documents[next]);
            next = next + 1;
            assert(tabs@ =~= self.documents@.take(next as int));
        }
        assert(self.documents@.take(next as int) =~= self.documents@);
        let mut at: usize = 0;
        assert(tabs@ =~= self.documents@ + self.flows@.take(0));
        while at < self.flows.len()
            invariant
                at <= self.flows@.len(),
                tabs@ == self.documents@ + self.flows@.take(at as int),
            decreases self.flows@.len() - at,
        {
            tabs.push(self.flows[at]);
            at = at + 1;
            assert(tabs@ =~= self.documents@ + self.flows@.take(at as int));
        }
        assert(self.flows@.take(at as int) =~= self.flows@);
        tabs
    }

    /// Steps to the tab beside the one on top, round the strip.
    pub fn navigate_active_tab(&mut self, forward: bool)
        ensures
            final(self)@ == (match old(self)@.neighbour(forward) {
                Some(id) => old(self)@.activated(id),
                None => old(self)@,
            }),
    {
        if let Some((id, _)) = self.active {
            let tabs = self.tabs();
            let mut place: usize = 0;
            while place < tabs.len()
                invariant
                    *self == *old(self),
                    self.active is Some && (self.active->0).0 == id,
                    tabs@ == self@.strip(),
                    place <= tabs@.len(),
                    first_place(tabs@, id, 0) == first_place(tabs@, id, place as int),
                decreases tabs@.len() - place,
            {
                if tabs[place] == id {
                    let last: usize = tabs.len() - 1;
                    let beside: usize = if forward {
                        if place == last {
                            0
                        } else {
                            place + 1
                        }
                    } else if place == 0 {
                        last
                    } else {
                        place - 1
                    };
                    proof {
                        lemma_round(place as int, tabs@.len() as int);
                    }
                    self.activate_document_id(tabs[beside]);
                    return;
                }
                place = place + 1;
            }
        }
    }

    /// Goes to the tab that a number key counts to; a number beyond the tabs
    /// does nothing.
    pub fn activate_tab_shortcut(&mut self, index: usize)
        ensures
            final(self)@ == (if index < old(self)@.shortcut_order().len() {
                old(self)@.activated(old(self)@.shortcut_order()[index as int])
            } else {
                old(self)@
            }),
    {
        if index < self.pinned.len() {
            let id: PanelId = self.pinned[index];
            self.activate_document_id(id);
            return;
        }
        let tabs = self.tabs();
        let wanted: usize = index - self.pinned.len();
        let mut seen: usize = 0;
        let mut next: usize = 0;
        while next < tabs.len()
            invariant
                *self == *old(self),
                tabs@ == self@.strip(),
                next <= tabs@.len(),
                seen <= next,
                wanted == index - self.pinned@.len(),
                seen <= wanted,
                seen == unlisted(tabs@, self.pinned@, next as int).len(),
            decreases tabs@.len() - next,
        {
            if !holds_panel(&self.pinned, tabs[next]) {
                if seen == wanted {
                    proof {
                        lemma_unlisted_prefix(tabs@, self.pinned@, next + 1, tabs@.len() as int);
                    }
                    self.activate_document_id(tabs[next]);
                    return;
                }
                seen = seen + 1;
            }
            next = next + 1;
        }
    }

    /// Pins the tab on top, or unpins it.
    pub fn toggle_active_tab_pin(&mut self)
        ensures
            final(self)@ == old(self)@.pin_switched(),
    {
        if let Some((id, _)) = self.active {
            if holds_panel(&self.pinned, id) {
                retain_others(&mut self.pinned, id);
            } else {
                self.pinned.push(id);
            }
        }
    }

    /// Makes a document the one that is spoken from, or takes the mark off.
    /// Nothing but an open document can be.
    pub fn toggle_speech_document(&mut self, id: PanelId) -> (result: Result<(), SpeechRefusal>)
        ensures
            if old(self)@.documents.contains(id) {
                &&& result is Ok
                &&& final(self)@ == (PanelsView {
                    speech: if old(self)@.speech == Some(id) {
                        None
                    } else {
                        Some(id)
                    },
                    ..old(self)@
                })
            } else {
                &&& result == Err::<(), SpeechRefusal>(SpeechRefusal::NotADocument)
                &&& *final(self) == *old(self)
            },
    {
        if !holds_panel(&self.documents, id) {
            return Err(SpeechRefusal::NotADocument);
        }
        let marked = match self.speech {
            Some(speech) => speech == id,
            None => false,
        };
        self.speech =
        if marked {
            None
        } else {
            Some(id)
        };
        Ok(())
    }

    /// Where the selection of the panel on top is sent: to the document that
    /// is spoken from, which is another one.
    pub fn send_selection_to_speech_document(&self) -> (target: Result<PanelId, SpeechRefusal>)
        ensures
            target == self@.speech_target(),
    {
        match (self.speech, self.active) {
            (None, _) => Err(SpeechRefusal::NoSpeechDocument),
            (Some(_), None) => Err(SpeechRefusal::NothingOpen),
            (Some(speech), Some((id, _))) => if speech == id {
                Err(SpeechRefusal::OwnSpeechDocument)
            } else {
                Ok(speech)
            },
        }
    }

    /// The panel that closing the one on top closes.
    pub fn close_active_document(&self) -> (panel: Option<PanelId>)
        ensures
            panel == (match self@.active {
                Some((id, _)) => Some(id),
                None => None,
            }),
    {
        match self.active {
            Some((id, _)) => Some(id),
            None => None,
        }
    }

    /// What saving the panel on top does.
    pub fn save_active(&self, has_path: bool) -> (action: SaveAction)
        ensures
            action == (match self@.active {
                Some((id, kind)) => if has_path {
                    SaveAction::Save(id, kind)
                } else {
                    SaveAction::SaveAs(id, kind)
                },
                None => SaveAction::Nothing,
            }),
    {
        match self.active {
            Some((id, kind)) => if has_path {
                SaveAction::Save(id, kind)
            } else {
                SaveAction::SaveAs(id, kind)
            },
            None => SaveAction::Nothing,
        }
    }

    /// What saving the panel on top elsewhere does.
    pub fn save_active_as(&self) -> (action: SaveAction)
        ensures
            action == (match self@.active {
                Some((id, kind)) => SaveAction::SaveAs(id, kind),
                None => SaveAction::Nothing,
            }),
    {
        match self.active {
            Some((id, kind)) => SaveAction::SaveAs(id, kind),
            None => SaveAction::Nothing,
        }
    }
}

/// A new panel's title: the one given, else its file's name, else an untitled
/// one.
pub fn panel_title(title: Option<String>, file_name: Option<&str>, untitled: String) -> (text: String)
    ensures
        text@ == (match title {
            Some(title) => title@,
            None => match file_name {
                Some(name) => name@,
                None => untitled@,
            },
        }),
{
    match title {
        Some(title) => title,
        None => match file_name {
            Some(name) => String::from_str(name),
            None => untitled,
        },
    }
}

/// A new document's own title: the one given, else its file's name.
pub fn runtime_title(title: Option<String>, file_name: Option<&str>) -> (text: String)
    ensures
        text@ == (match title {
            Some(title) => title@,
            None => match file_name {
                Some(name) => name@,
                None => "Flowstate Document"@,
            },
        }),
{
    panel_title(title, file_name, String::from_str("Flowstate Document"))
}

/// The title of a revision that was opened on its own.
pub fn revision_title(revision_id: u128) -> (title: String)
    ensures
        title@ == "Revision "@ + hexadecimal(revision_id as nat),
{
    let mut title = String::from_str("Revision ");
    let digits = hexadecimal_text(revision_id);
    title.append(digits.as_str());
    title
}

/// How many characters of a quote a title keeps.
pub const QUOTE_TITLE_CHARS: usize = 24;

/// A quote as a title shows it: its first characters, and dots where it is
/// longer.
pub open spec fn short_quote(quote: Seq<char>) -> Seq<char> {
    if quote.len() > QUOTE_TITLE_CHARS {
        quote.take(QUOTE_TITLE_CHARS as int).push('…')
    } else {
        quote
    }
}

/// The title of the tab that shows a comment's original context.
pub fn original_context_title(quote: &str) -> (title: String)
    ensures
        title@ == (if quote@.len() == 0 {
            "Original context"@
        } else {
            "Original context — “"@ + short_quote(quote@) + "”"@
        }),
{
    let chars = chars_of(quote);
    if chars.len() == 0 {
        return String::from_str("Original context");
    }
    let mut title = String::from_str("Original context — “");
    if chars.len() > QUOTE_TITLE_CHARS {
        let front = text_between(&chars, 0, QUOTE_TITLE_CHARS);
        title.append(front.as_str());
        title.push('…');
        title.append("”");
        assert(front@ =~= quote@.take(QUOTE_TITLE_CHARS as int));
        assert(title@ =~= "Original context — “"@ + short_quote(quote@) + "”"@);
    } else {
        title.append(quote);
        title.append("”");
    }
    title
}

/// How a failed open is told.
pub fn open_failed_detail(path: &str, error: &str) -> (text: String)
    ensures
        text@ == "Failed to open "@ + path@ + ": "@ + error@,
{
    let mut text = String::from_str("Failed to open ");
    text.append(path);
    text.append(": ");
    text.append(error);
    text
}

} // verus!
