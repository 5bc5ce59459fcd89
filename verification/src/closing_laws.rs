//! What closing promises: nothing closes before every unsaved document was
//! saved or given up by an answer that says so.

use crate::closing::{
    begun, close_document_panel, panel_close, request_close_window, save_prompt_of, shared_panels,
    stage_from, unshared_dirty, CloseStage, CloseView, Closing, CollaborationSavePrompt, OpenPanel,
    PanelSaveOutcome, SessionPhase,
};
use crate::pane::PanelId;
use vstd::prelude::*;

verus! {

/// What happens while something closes.
pub enum CloseEvent {
    /// A question was answered, by the button that was pressed.
    Answered(Option<usize>),
    SaveEnded(PanelSaveOutcome),
}

/// A close after the first `k` events.
pub open spec fn close_after(begin: CloseView, events: Seq<CloseEvent>, k: int) -> CloseView
    decreases k,
{
    if k <= 0 {
        begin
    } else {
        let before = close_after(begin, events, k - 1);
        match events[k - 1] {
            CloseEvent::Answered(button) => before.answered(button),
            CloseEvent::SaveEnded(outcome) => before.saved(outcome),
        }
    }
}

/// One of the first `k` events was a save that succeeded, at a stage.
pub open spec fn was_saved(
    begin: CloseView,
    events: Seq<CloseEvent>,
    k: int,
    stage: CloseStage,
) -> bool {
    exists|e: int|
        0 <= e < k && #[trigger] close_after(begin, events, e).stage == stage && events[e]
            == CloseEvent::SaveEnded(PanelSaveOutcome::Saved)
}

/// One of the first `k` events answered a question with a button.
pub open spec fn was_answered(
    begin: CloseView,
    events: Seq<CloseEvent>,
    k: int,
    stage: CloseStage,
    button: usize,
) -> bool {
    exists|e: int|
        0 <= e < k && #[trigger] close_after(begin, events, e).stage == stage && events[e]
            == CloseEvent::Answered(Some(button))
}

/// The shared panel of a place needs no save, was saved, or is given up.
pub open spec fn shared_settled(begin: CloseView, events: Seq<CloseEvent>, k: int, i: int) -> bool {
    ||| begin.shared[i].1 == CollaborationSavePrompt::Clean
    ||| was_saved(begin, events, k, CloseStage::SaveShared(i as usize))
    ||| close_after(begin, events, k).discards.contains(begin.shared[i].0)
}

/// The unsaved panel of a place was saved or is given up.
pub open spec fn dirty_settled(begin: CloseView, events: Seq<CloseEvent>, k: int, i: int) -> bool {
    ||| was_saved(begin, events, k, CloseStage::SaveDirty(i as usize))
    ||| close_after(begin, events, k).discards.contains(begin.dirty[i])
}

/// A panel that is given up was asked about and the answer gave it up.
pub open spec fn given_up_by_answer(
    begin: CloseView,
    events: Seq<CloseEvent>,
    k: int,
    panel: PanelId,
) -> bool {
    ||| begin.dirty.contains(panel) && was_answered(begin, events, k, CloseStage::AskDirty, 1)
    ||| exists|i: int|
        0 <= i < begin.shared.len() && (#[trigger] begin.shared[i]).0 == panel && was_answered(
            begin,
            events,
            k,
            CloseStage::AskShared(i as usize),
            1,
        )
}

proof fn lemma_stage_skips_clean(
    shared: Seq<(PanelId, CollaborationSavePrompt)>,
    dirty: Seq<PanelId>,
    from: int,
)
    requires
        0 <= from <= shared.len() <= usize::MAX,
    ensures
        match stage_from(shared, dirty, from) {
            CloseStage::AskShared(i) => from <= i < shared.len() && forall|j: int|
                from <= j < i ==> (#[trigger] shared[j]).1 == CollaborationSavePrompt::Clean,
            CloseStage::AskDirty => dirty.len() > 0 && forall|j: int|
                from <= j < shared.len() ==> (#[trigger] shared[j]).1
                    == CollaborationSavePrompt::Clean,
            CloseStage::Finished => dirty.len() == 0 && forall|j: int|
                from <= j < shared.len() ==> (#[trigger] shared[j]).1
                    == CollaborationSavePrompt::Clean,
            _ => false,
        },
    decreases shared.len() - from,
{
    if from < shared.len() && shared[from].1 == CollaborationSavePrompt::Clean {
        lemma_stage_skips_clean(shared, dirty, from + 1);
    }
}

/// How far a close has come.
spec fn on_course(begin: CloseView, events: Seq<CloseEvent>, k: int) -> bool {
    let now = close_after(begin, events, k);
    let shared_done = match now.stage {
        CloseStage::AskLeave => 0int,
        CloseStage::AskShared(i) => i as int,
        CloseStage::SaveShared(i) => i as int,
        CloseStage::Cancelled => 0int,
        _ => begin.shared.len() as int,
    };
    let dirty_done = match now.stage {
        CloseStage::SaveDirty(i) => i as int,
        CloseStage::Finished => begin.dirty.len() as int,
        _ => 0int,
    };
    &&& now.shared == begin.shared
    &&& now.dirty == begin.dirty
    &&& now.sound()
    &&& forall|i: int| 0 <= i < shared_done ==> #[trigger] shared_settled(begin, events, k, i)
    &&& forall|i: int| 0 <= i < dirty_done ==> #[trigger] dirty_settled(begin, events, k, i)
    &&& begin.shared.len() > 0 && !(now.stage is AskLeave) && !(now.stage is Cancelled)
        ==> was_answered(begin, events, k, CloseStage::AskLeave, 0)
    &&& forall|panel: PanelId| #[trigger]
        now.discards.contains(panel) ==> given_up_by_answer(begin, events, k, panel)
}

proof fn lemma_was_later(begin: CloseView, events: Seq<CloseEvent>, k: int)
    requires
        0 <= k < events.len(),
    ensures
        forall|stage: CloseStage| #[trigger]
            was_saved(begin, events, k, stage) ==> was_saved(begin, events, k + 1, stage),
        forall|stage: CloseStage, button: usize| #[trigger]
            was_answered(begin, events, k, stage, button) ==> was_answered(
                begin,
                events,
                k + 1,
                stage,
                button,
            ),
        forall|panel: PanelId| #[trigger]
            given_up_by_answer(begin, events, k, panel) ==> given_up_by_answer(
                begin,
                events,
                k + 1,
                panel,
            ),
{
    assert forall|stage: CloseStage, button: usize| #[trigger]
        was_answered(begin, events, k, stage, button) implies was_answered(
        begin,
        events,
        k + 1,
        stage,
        button,
    ) by {
        let e = choose|e: int|
            0 <= e < k && #[trigger] close_after(begin, events, e).stage == stage && events[e]
                == CloseEvent::Answered(Some(button));
        assert(close_after(begin, events, e).stage == stage);
    }
    assert forall|stage: CloseStage| #[trigger] was_saved(begin, events, k, stage) implies was_saved(
        begin,
        events,
        k + 1,
        stage,
    ) by {
        let e = choose|e: int|
            0 <= e < k && #[trigger] close_after(begin, events, e).stage == stage && events[e]
                == CloseEvent::SaveEnded(PanelSaveOutcome::Saved);
        assert(close_after(begin, events, e).stage == stage);
    }
    assert forall|panel: PanelId| #[trigger]
        given_up_by_answer(begin, events, k, panel) implies given_up_by_answer(
        begin,
        events,
        k + 1,
        panel,
    ) by {
        if !(begin.dirty.contains(panel) && was_answered(begin, events, k, CloseStage::AskDirty, 1)) {
            let i = choose|i: int|
                0 <= i < begin.shared.len() && (#[trigger] begin.shared[i]).0 == panel
                    && was_answered(begin, events, k, CloseStage::AskShared(i as usize), 1);
            assert(begin.shared[i].0 == panel);
        }
    }
}

proof fn lemma_on_course(begin: CloseView, events: Seq<CloseEvent>, k: int)
    requires
        begin == begun(begin.shared, begin.dirty),
        begin.shared.len() <= usize::MAX,
        begin.dirty.len() <= usize::MAX,
        0 <= k <= events.len(),
    ensures
        on_course(begin, events, k),
    decreases k,
{
    if k > 0 {
        lemma_on_course(begin, events, k - 1);
        lemma_was_later(begin, events, k - 1);
        let before = close_after(begin, events, k - 1);
        let now = close_after(begin, events, k);
        let event = events[k - 1];
        if let CloseStage::AskShared(i) = before.stage {
            lemma_stage_skips_clean(begin.shared, begin.dirty, i + 1);
        }
        if let CloseStage::SaveShared(i) = before.stage {
            lemma_stage_skips_clean(begin.shared, begin.dirty, i + 1);
            if event == CloseEvent::SaveEnded(PanelSaveOutcome::Saved) {
                assert(was_saved(begin, events, k, before.stage));
            }
        }
        if let CloseStage::SaveDirty(i) = before.stage {
            if event == CloseEvent::SaveEnded(PanelSaveOutcome::Saved) {
                assert(was_saved(begin, events, k, before.stage));
            }
        }
        if before.stage is AskLeave {
            lemma_stage_skips_clean(begin.shared, begin.dirty, 0);
        }
        if let CloseEvent::Answered(Some(button)) = event {
            assert(was_answered(begin, events, k, before.stage, button));
        }
        assert forall|panel: PanelId| before.discards.contains(
            panel,
        ) implies #[trigger] now.discards.contains(panel) by {
            let at = choose|at: int| 0 <= at < before.discards.len() && before.discards[at] == panel;
            if now.discards.len() > before.discards.len() {
                if before.stage is AskDirty {
                    assert(now.discards[begin.dirty.len() + at] == panel);
                } else {
                    assert(now.discards[at] == panel);
                }
            }
        }
        assert forall|i: int| shared_settled(begin, events, k - 1, i) implies #[trigger] shared_settled(
        begin, events, k, i) by {}
        assert forall|i: int| dirty_settled(begin, events, k - 1, i) implies #[trigger] dirty_settled(
        begin, events, k, i) by {}
        if event == CloseEvent::Answered(Some(1usize)) {
            if let CloseStage::AskShared(i) = before.stage {
                assert(now.discards[before.discards.len() as int] == begin.shared[i as int].0);
                assert(begin.shared[i as int].0 == now.discards.last());
            }
            if before.stage is AskDirty {
                assert forall|i: int| 0 <= i < begin.dirty.len() implies #[trigger] dirty_settled(
                    begin,
                    events,
                    k,
                    i,
                ) by {
                    assert(now.discards[i] == begin.dirty[i]);
                }
            }
        }
        assert forall|panel: PanelId| #[trigger]
            now.discards.contains(panel) implies given_up_by_answer(begin, events, k, panel) by {
            if !before.discards.contains(panel) {
                let at = choose|at: int| 0 <= at < now.discards.len() && now.discards[at] == panel;
                if before.stage is AskDirty {
                    if at >= begin.dirty.len() {
                        assert(before.discards[at - begin.dirty.len()] == panel);
                    }
                    assert(begin.dirty[at] == panel);
                } else if let CloseStage::AskShared(i) = before.stage {
                    if at < before.discards.len() {
                        assert(before.discards[at] == panel);
                    }
                    assert(begin.shared[i as int].0 == panel);
                }
            }
        }
        assert(now.sound());
    }
}

/// A close that is done has settled every panel it was begun with. Each
/// unsaved panel was handed to a save of its own that succeeded or is given
/// up, sessions were left only once that was agreed to, and a panel is given
/// up only where it was asked about and the answer was not to save.
pub proof fn a_finished_close_has_settled_everything(
    shared: Seq<(PanelId, CollaborationSavePrompt)>,
    dirty: Seq<PanelId>,
    events: Seq<CloseEvent>,
)
    requires
        shared.len() <= usize::MAX,
        dirty.len() <= usize::MAX,
        close_after(begun(shared, dirty), events, events.len() as int).stage
            == CloseStage::Finished,
    ensures
        ({
            let begin = begun(shared, dirty);
            let k = events.len() as int;
            let end = close_after(begin, events, k);
            &&& forall|i: int|
                #![trigger dirty[i]]
                0 <= i < dirty.len() ==> was_saved(
                    begin,
                    events,
                    k,
                    CloseStage::SaveDirty(i as usize),
                ) || end.discards.contains(dirty[i])
            &&& forall|i: int|
                #![trigger shared[i]]
                0 <= i < shared.len() && shared[i].1 != CollaborationSavePrompt::Clean
                    ==> was_saved(begin, events, k, CloseStage::SaveShared(i as usize))
                    || end.discards.contains(shared[i].0)
            &&& shared.len() > 0 ==> was_answered(begin, events, k, CloseStage::AskLeave, 0)
            &&& forall|panel: PanelId| #[trigger]
                end.discards.contains(panel) ==> given_up_by_answer(begin, events, k, panel)
        }),
{
    let begin = begun(shared, dirty);
    let k = events.len() as int;
    lemma_on_course(begin, events, k);
    assert forall|i: int| #![trigger dirty[i]] 0 <= i < dirty.len() implies was_saved(
        begin,
        events,
        k,
        CloseStage::SaveDirty(i as usize),
    ) || close_after(begin, events, k).discards.contains(dirty[i]) by {
        assert(dirty_settled(begin, events, k, i));
    }
    assert forall|i: int|
        #![trigger shared[i]]
        0 <= i < shared.len() && shared[i].1 != CollaborationSavePrompt::Clean implies was_saved(
        begin,
        events,
        k,
        CloseStage::SaveShared(i as usize),
    ) || close_after(begin, events, k).discards.contains(shared[i].0) by {
        assert(shared_settled(begin, events, k, i));
    }
}

/// A save that does not succeed keeps everything open, and so does a question
/// that is answered by neither of its first two buttons, or leaving that is
/// not agreed to.
pub proof fn what_is_not_settled_stays_open(
    state: CloseView,
    button: Option<usize>,
    outcome: PanelSaveOutcome,
)
    ensures
        (state.stage is SaveShared || state.stage is SaveDirty) && !(outcome is Saved)
            ==> state.saved(outcome).stage == CloseStage::Cancelled,
        (state.stage is AskShared || state.stage is AskDirty) && button != Some(0usize) && button
            != Some(1usize) ==> state.answered(button).stage == CloseStage::Cancelled,
        state.stage is AskLeave && button != Some(0usize) ==> state.answered(button).stage
            == CloseStage::Cancelled,
{
}

/// Nothing but such an answer or such a save keeps it open: where leaving is
/// agreed to, every question is answered by a button that saves or gives up,
/// and every save succeeds, a close goes on to its end.
pub proof fn a_close_that_is_agreed_to_goes_on(
    state: CloseView,
    button: Option<usize>,
    outcome: PanelSaveOutcome,
)
    requires
        state.sound(),
        state.shared.len() <= usize::MAX,
        state.stage != CloseStage::Cancelled,
    ensures
        button == Some(0usize) ==> state.answered(button).stage != CloseStage::Cancelled,
        button == Some(1usize) && !(state.stage is AskLeave) ==> state.answered(button).stage
            != CloseStage::Cancelled,
        outcome is Saved ==> state.saved(outcome).stage != CloseStage::Cancelled,
{
    match state.stage {
        CloseStage::AskLeave => lemma_stage_skips_clean(state.shared, state.dirty, 0),
        CloseStage::AskShared(i) => lemma_stage_skips_clean(state.shared, state.dirty, i + 1),
        CloseStage::SaveShared(i) => lemma_stage_skips_clean(state.shared, state.dirty, i + 1),
        _ => {},
    }
}

/// Saving is what the answer to save leads to, and what was asked about is
/// what is saved.
pub proof fn what_is_asked_about_is_saved(state: CloseView, i: usize)
    ensures
        state.stage == CloseStage::AskShared(i) ==> state.answered(Some(0)).stage
            == CloseStage::SaveShared(i),
        state.stage is AskDirty && state.dirty.len() > 0 ==> state.answered(Some(0)).stage
            == CloseStage::SaveDirty(0),
        state.stage == CloseStage::SaveDirty(i) && i + 1 < state.dirty.len() ==> state.saved(
            PanelSaveOutcome::Saved,
        ).stage == CloseStage::SaveDirty((i + 1) as usize),
{
}

/// A session that is live is in one of these phases.
pub open spec fn is_live(phase: Option<SessionPhase>) -> bool {
    match phase {
        None => false,
        Some(SessionPhase::Detached) => false,
        Some(SessionPhase::Creating) => true,
        Some(SessionPhase::Joining) => true,
        Some(SessionPhase::Attached { .. }) => true,
        Some(SessionPhase::Reconnecting) => true,
    }
}

/// The lists that a window's close begins with: a document in a live session
/// is among the shared panels, with a question where it has no file or has
/// changes, any other panel with changes is among the unsaved ones, and
/// nothing else is in either. The places of both lists' panels are handed
/// back.
pub proof fn a_window_asks_about_every_unsaved_panel(panels: Seq<OpenPanel>, k: int) -> (places: (
    Seq<int>,
    Seq<int>,
))
    requires
        0 <= k <= panels.len(),
    ensures
        ({
            let shared = shared_panels(panels, k);
            let dirty = unshared_dirty(panels, k);
            &&& places.0.len() == shared.len()
            &&& places.1.len() == dirty.len()
            &&& forall|p: int|
                #![trigger places.0[p]]
                #![trigger shared[p]]
                0 <= p < shared.len() ==> {
                    let panel = panels[places.0[p]];
                    &&& 0 <= places.0[p] < k
                    &&& shared[p].0 == panel.id
                    &&& shared[p].1 == CollaborationSavePrompt::Clean <==> panel.has_path
                        && !panel.dirty
                    &&& shared[p].1 == CollaborationSavePrompt::Pathless <==> !panel.has_path
                }
            &&& forall|p: int|
                #![trigger places.1[p]]
                #![trigger dirty[p]]
                0 <= p < dirty.len() ==> 0 <= places.1[p] < k && dirty[p] == panels[places.1[p]].id
            &&& forall|p: int, q: int|
                0 <= p < q < places.0.len() ==> #[trigger] places.0[p] < #[trigger] places.0[q]
            &&& forall|p: int, q: int|
                0 <= p < q < places.1.len() ==> #[trigger] places.1[p] < #[trigger] places.1[q]
            &&& forall|i: int|
                #![trigger panels[i]]
                0 <= i < k ==> {
                    let live = panels[i].is_document && is_live(panels[i].phase);
                    &&& (live <==> places.0.contains(i))
                    &&& (panels[i].dirty && !live <==> places.1.contains(i))
                }
        }),
    decreases k,
{
    if k <= 0 {
        (Seq::empty(), Seq::empty())
    } else {
        let (first, second) = a_window_asks_about_every_unsaved_panel(panels, k - 1);
        let panel = panels[k - 1];
        let live = panel.is_document && is_live(panel.phase);
        let left = if live {
            first.push(k - 1)
        } else {
            first
        };
        let right = if panel.dirty && !live {
            second.push(k - 1)
        } else {
            second
        };
        let shared = shared_panels(panels, k);
        let dirty = unshared_dirty(panels, k);
        let shared_before = shared_panels(panels, k - 1);
        let dirty_before = unshared_dirty(panels, k - 1);
        assert forall|p: int| #![trigger left[p]] #![trigger shared[p]] 0 <= p < shared.len() implies {
            let panel = panels[left[p]];
            &&& 0 <= left[p] < k
            &&& shared[p].0 == panel.id
            &&& shared[p].1 == CollaborationSavePrompt::Clean <==> panel.has_path && !panel.dirty
            &&& shared[p].1 == CollaborationSavePrompt::Pathless <==> !panel.has_path
        } by {
            if p < shared_before.len() {
                assert(shared[p] == shared_before[p]);
                assert(left[p] == first[p]);
            }
        }
        assert forall|p: int| #![trigger right[p]] #![trigger dirty[p]] 0 <= p < dirty.len() implies 0
            <= right[p] < k && dirty[p] == panels[right[p]].id by {
            if p < dirty_before.len() {
                assert(dirty[p] == dirty_before[p]);
                assert(right[p] == second[p]);
            }
        }
        assert forall|i: int| #![trigger panels[i]] 0 <= i < k implies {
            let live = panels[i].is_document && is_live(panels[i].phase);
            &&& (live <==> left.contains(i))
            &&& (panels[i].dirty && !live <==> right.contains(i))
        } by {
            lemma_place_listed(first, k - 1, i);
            lemma_place_listed(second, k - 1, i);
        }
        (left, right)
    }
}

proof fn lemma_place_listed(places: Seq<int>, new: int, i: int)
    requires
        forall|p: int| 0 <= p < places.len() ==> #[trigger] places[p] < new,
    ensures
        places.push(new).contains(i) <==> places.contains(i) || i == new,
        !places.contains(new),
{
    let all = places.push(new);
    assert(all[places.len() as int] == new);
    if places.contains(i) {
        let p = choose|p: int| 0 <= p < places.len() && places[p] == i;
        assert(all[p] == i);
    }
    if all.contains(i) && i != new {
        let p = choose|p: int| 0 <= p < all.len() && all[p] == i;
        assert(places[p] == i);
    }
}

/// A window closes without losing work. Where its close is done, every panel
/// with unsaved changes was handed to a save that succeeded or was given up by
/// an answer, and so was every document without a file that leaves a live
/// session; and no live session was left unasked.
pub proof fn a_window_closes_without_losing_work(
    panels: Seq<OpenPanel>,
    events: Seq<CloseEvent>,
    j: int,
)
    requires
        panels.len() <= usize::MAX,
        0 <= j < panels.len(),
        close_after(
            begun(
                shared_panels(panels, panels.len() as int),
                unshared_dirty(panels, panels.len() as int),
            ),
            events,
            events.len() as int,
        ).stage == CloseStage::Finished,
    ensures
        ({
            let shared = shared_panels(panels, panels.len() as int);
            let dirty = unshared_dirty(panels, panels.len() as int);
            let begin = begun(shared, dirty);
            let k = events.len() as int;
            let live = panels[j].is_document && is_live(panels[j].phase);
            &&& panels[j].dirty || live && !panels[j].has_path ==> {
                ||| close_after(begin, events, k).discards.contains(panels[j].id)
                ||| exists|i: int|
                    0 <= i < shared.len() && (#[trigger] shared[i]).0 == panels[j].id && was_saved(
                        begin,
                        events,
                        k,
                        CloseStage::SaveShared(i as usize),
                    )
                ||| exists|i: int|
                    0 <= i < dirty.len() && #[trigger] dirty[i] == panels[j].id && was_saved(
                        begin,
                        events,
                        k,
                        CloseStage::SaveDirty(i as usize),
                    )
            }
            &&& live ==> was_answered(begin, events, k, CloseStage::AskLeave, 0)
        }),
{
    let k = panels.len() as int;
    let shared = shared_panels(panels, k);
    let dirty = unshared_dirty(panels, k);
    let (left, right) = a_window_asks_about_every_unsaved_panel(panels, k);
    lemma_few(left, k);
    lemma_few(right, k);
    a_finished_close_has_settled_everything(shared, dirty, events);
    let live = panels[j].is_document && is_live(panels[j].phase);
    assert(panels[j].dirty || !panels[j].dirty);
    if live {
        let p = choose|p: int| 0 <= p < left.len() && left[p] == j;
        assert(left[p] == j);
        assert(shared[p].0 == panels[j].id);
    } else if panels[j].dirty {
        let p = choose|p: int| 0 <= p < right.len() && right[p] == j;
        assert(right[p] == j);
        assert(dirty[p] == panels[j].id);
    }
}

proof fn lemma_few(places: Seq<int>, k: int)
    requires
        0 <= k,
        forall|p: int| 0 <= p < places.len() ==> 0 <= #[trigger] places[p] < k,
        forall|p: int, q: int|
            0 <= p < q < places.len() ==> #[trigger] places[p] < #[trigger] places[q],
    ensures
        places.len() <= k,
    decreases places.len(),
{
    if places.len() > 0 {
        let rest = places.drop_last();
        assert forall|p: int| 0 <= p < rest.len() implies 0 <= #[trigger] rest[p]
            < places.last() by {
            assert(places[p] < places[places.len() - 1]);
        }
        assert forall|p: int, q: int| 0 <= p < q < rest.len() implies #[trigger] rest[p]
            < #[trigger] rest[q] by {
            assert(places[p] < places[q]);
        }
        lemma_few(rest, places.last());
    }
}

/// One panel closes without losing work, too: it closes at once only where it
/// has no live session and no changes, a live session is asked about first,
/// and changes lead to a question before the end.
pub proof fn a_panel_closes_without_losing_work(panel: OpenPanel, events: Seq<CloseEvent>)
    requires
        close_after(panel_close(panel), events, events.len() as int).stage == CloseStage::Finished,
    ensures
        ({
            let begin = panel_close(panel);
            let k = events.len() as int;
            &&& events.len() == 0 ==> !panel.dirty && !is_live(panel.phase)
            &&& is_live(panel.phase) ==> was_answered(begin, events, k, CloseStage::AskLeave, 0)
            &&& panel.dirty || is_live(panel.phase) && !panel.has_path ==> {
                ||| close_after(begin, events, k).discards.contains(panel.id)
                ||| was_saved(begin, events, k, CloseStage::SaveShared(0)) && begin.shared.len()
                    == 1 && begin.shared[0].0 == panel.id
                ||| was_saved(begin, events, k, CloseStage::SaveDirty(0)) && begin.dirty
                    == seq![panel.id]
            }
        }),
{
    let begin = panel_close(panel);
    a_finished_close_has_settled_everything(begin.shared, begin.dirty, events);
    if is_live(panel.phase) {
        assert(begin.shared[0] == (panel.id, save_prompt_of(panel.has_path, panel.dirty)));
    } else if panel.dirty {
        assert(begin.dirty[0] == panel.id);
    }
}

/// A close moves on by its answers and by what becomes of its saves, as the
/// runs above tell it, and begins with the panels that are open.
pub proof fn a_close_runs_by_its_events(
    close: &mut Closing,
    saving: &mut Closing,
    button: Option<usize>,
    outcome: PanelSaveOutcome,
    failure: Option<String>,
)
    requires
        call_ensures(Closing::answer, (close, button), ()),
        call_ensures(Closing::save_ended, (saving, outcome), failure),
    ensures
        final(close)@ == close_after(old(close)@, seq![CloseEvent::Answered(button)], 1),
        final(saving)@ == close_after(old(saving)@, seq![CloseEvent::SaveEnded(outcome)], 1),
        outcome matches PanelSaveOutcome::Failed(error) ==> failure == Some(error),
        !(outcome is Failed) ==> failure is None,
{
    reveal_with_fuel(close_after, 2);
}

/// A window's close begins with every panel that has something to settle.
pub proof fn a_windows_close_begins_with_its_panels(
    panels: Vec<OpenPanel>,
    close: Closing,
    events: Seq<CloseEvent>,
    j: int,
)
    requires
        call_ensures(request_close_window, (&panels,), close),
        0 <= j < panels@.len() <= usize::MAX,
        close_after(close@, events, events.len() as int).stage == CloseStage::Finished,
    ensures
        ({
            let k = events.len() as int;
            let live = panels@[j].is_document && is_live(panels@[j].phase);
            &&& panels@[j].dirty || live && !panels@[j].has_path ==> {
                ||| close_after(close@, events, k).discards.contains(panels@[j].id)
                ||| exists|i: int|
                    0 <= i < close.shared@.len() && (#[trigger] close.shared@[i]).0 == panels@[j].id
                        && was_saved(close@, events, k, CloseStage::SaveShared(i as usize))
                ||| exists|i: int|
                    0 <= i < close.dirty@.len() && #[trigger] close.dirty@[i] == panels@[j].id
                        && was_saved(close@, events, k, CloseStage::SaveDirty(i as usize))
            }
            &&& live ==> was_answered(close@, events, k, CloseStage::AskLeave, 0)
        }),
{
    a_window_closes_without_losing_work(panels@, events, j);
}

/// One panel's close begins in the same way; nothing closes where none is
/// open.
pub proof fn a_panels_close_begins_with_it(
    panel: Option<OpenPanel>,
    close: Option<Closing>,
    events: Seq<CloseEvent>,
)
    requires
        call_ensures(close_document_panel, (panel,), close),
    ensures
        close is Some <==> panel is Some,
        panel matches Some(panel) ==> (close matches Some(close) && (close_after(
            close@,
            events,
            events.len() as int,
        ).stage == CloseStage::Finished && panel.dirty ==> {
            ||| close_after(close@, events, events.len() as int).discards.contains(panel.id)
            ||| was_saved(close@, events, events.len() as int, CloseStage::SaveShared(0))
            ||| was_saved(close@, events, events.len() as int, CloseStage::SaveDirty(0))
        })),
        panel matches Some(panel) ==> (close matches Some(close) && (is_live(panel.phase)
            ==> close.stage == CloseStage::AskLeave)),
{
    if let Some(panel) = panel {
        let close = close->0;
        if close_after(close@, events, events.len() as int).stage == CloseStage::Finished {
            a_panel_closes_without_losing_work(panel, events);
        }
    }
}

} // verus!
