//! What a window's session keeps over a restart.

use crate::commands::{LeftNavMode, ToolkitTool};
use crate::comments::CommentReadState;
use crate::pane::PanelId;
use crate::panels::PanelKind;
use crate::places::{lemma_place_added, places_are};
use crate::session::{
    is_kept, kept_ids, kept_places, lemma_kept, lemma_last_place, lemma_place, lemma_places,
    place_of, read_stamps_survive_a_restart, snapshot_session, SessionTab, SessionToggles,
    SessionWriter, TemporaryWorkspaceSession, TemporaryWorkspaceSessionEntryKind,
};
use crate::text_set::TextSet;
use crate::workspace::{
    a_session_comes_back, fresh_tabs, restored_documents, texts_added, RestoredSession,
    RestoredTab, Workspace,
};
use vstd::prelude::*;

verus! {

/// No two tabs have one id.
pub open spec fn own_ids(tabs: Seq<SessionTab>) -> bool {
    forall|i: int, j: int|
        0 <= i < j < tabs.len() ==> (#[trigger] tabs[i]).id != (#[trigger] tabs[j]).id
}

proof fn lemma_kept_places(tabs: Seq<SessionTab>, k: int)
    requires
        0 <= k <= tabs.len(),
    ensures
        places_are(
            kept_places(tabs, k),
            |i: int| tabs[i].path is Some && !tabs[i].pending,
            k,
        ),
    decreases k,
{
    let picks = |i: int| tabs[i].path is Some && !tabs[i].pending;
    if k > 0 {
        lemma_kept_places(tabs, k - 1);
        lemma_place_added(kept_places(tabs, k - 1), picks, k - 1);
        assert(picks(k - 1) == is_kept(tabs[k - 1]));
    }
}

proof fn lemma_nowhere(ids: Seq<PanelId>, id: PanelId, k: int)
    requires
        0 <= k <= ids.len(),
    ensures
        place_of(ids, id, k) is None ==> forall|j: int| 0 <= j < k ==> ids[j] != id,
    decreases k,
{
    if k > 0 {
        lemma_nowhere(ids, id, k - 1);
    }
}

/// A session writes down the tabs that have a file and can be edited, in
/// order, and no other: each as what it is, with its file, and a document with
/// its folded headings and where it was read. It says which of them is on top
/// and spoken from and which are pinned, and keeps what shows round them. The
/// places of the tabs it writes down are handed out.
pub proof fn a_session_writes_down_the_saved_tabs(
    tabs: Vec<SessionTab>,
    active: Option<PanelId>,
    pinned: Vec<PanelId>,
    speech: Option<PanelId>,
    toggles: SessionToggles,
    stamps: Vec<(u128, i64)>,
    session: TemporaryWorkspaceSession,
) -> (places: Seq<int>)
    requires
        call_ensures(
            snapshot_session,
            (&tabs, active, &pinned, speech, toggles, &stamps),
            session,
        ),
        own_ids(tabs@),
    ensures
        places_are(
            places,
            |i: int| tabs@[i].path is Some && !tabs@[i].pending,
            tabs@.len() as int,
        ),
        session.entries@.len() == places.len(),
        forall|p: int|
            0 <= p < places.len() ==> {
                let entry = #[trigger] session.entries@[p];
                let tab = tabs@[places[p]];
                &&& entry.kind == tab.kind
                &&& entry.path@ == (tab.path->0)@
                &&& tab.kind == TemporaryWorkspaceSessionEntryKind::Document ==> {
                    &&& entry.collapsed_outline_items@ == tab.collapsed_outline_items@
                    &&& entry.outline_scrolled_paragraph == tab.outline_scrolled_paragraph
                    &&& entry.viewport_paragraph == tab.viewport_paragraph
                }
                &&& tab.kind == TemporaryWorkspaceSessionEntryKind::Flow ==> {
                    &&& entry.collapsed_outline_items@.len() == 0
                    &&& entry.outline_scrolled_paragraph is None
                    &&& entry.viewport_paragraph is None
                }
                &&& session.active_index == Some(p as usize) <==> active == Some(tab.id)
                &&& session.speech_entry_index == Some(p as usize) <==> speech == Some(tab.id)
                &&& session.pinned_entry_indices@.contains(p as usize) <==> pinned@.contains(tab.id)
            },
        session.active_index is Some ==> session.active_index->0 < places.len(),
        session.speech_entry_index is Some ==> session.speech_entry_index->0 < places.len(),
        session.ribbon_collapsed == toggles.ribbon_collapsed,
        session.outline_collapsed == toggles.outline_collapsed,
        session.left_nav_tub == toggles.left_nav_tub,
        session.nav_width_bits == toggles.nav_width_bits,
        session.tub_tool_open == toggles.tub_tool_open,
        session.toolkit_filter == toggles.toolkit_filter,
        session.tub_expanded_dirs == toggles.tub_expanded_dirs,
{
    let total = tabs@.len() as int;
    lemma_kept_places(tabs@, total);
    lemma_kept(tabs@, total);
    let places = kept_places(tabs@, total);
    let ids = kept_ids(tabs@, total);
    assert(session.entries.len() == session.entries@.len());
    assert(ids.len() == session.entries@.len() <= usize::MAX);
    assert(ids.no_duplicates()) by {
        assert forall|i: int, j: int| 0 <= i < ids.len() && 0 <= j < ids.len() && i
            != j implies ids[i] != ids[j] by {
            assert(ids[i] == tabs@[places[i]].id);
            assert(ids[j] == tabs@[places[j]].id);
            if i < j {
                assert(places[i] < places[j]);
            } else {
                assert(places[j] < places[i]);
            }
        }
    }
    if let Some(id) = active {
        lemma_place(ids, id, ids.len() as int);
        lemma_nowhere(ids, id, ids.len() as int);
    }
    if let Some(id) = speech {
        lemma_place(ids, id, ids.len() as int);
        lemma_nowhere(ids, id, ids.len() as int);
    }
    assert forall|p: int| 0 <= p < places.len() implies {
        let entry = #[trigger] session.entries@[p];
        let tab = tabs@[places[p]];
        &&& session.active_index == Some(p as usize) <==> active == Some(tab.id)
        &&& session.speech_entry_index == Some(p as usize) <==> speech == Some(tab.id)
        &&& session.pinned_entry_indices@.contains(p as usize) <==> pinned@.contains(tab.id)
    } by {
        let tab = tabs@[places[p]];
        assert(ids[p] == tab.id);
        lemma_last_place(ids, tab.id, p, ids.len() as int);
        lemma_places(ids, pinned@, pinned@.len() as int, p);
        if pinned@.contains(tab.id) {
            let j = choose|j: int| 0 <= j < pinned@.len() && pinned@[j] == tab.id;
            assert(pinned@[j] == ids[p]);
        }
    }
    places
}

proof fn lemma_texts_added(set: Set<Seq<char>>, texts: Seq<String>, k: int)
    requires
        0 <= k <= texts.len(),
    ensures
        forall|text: Seq<char>| #[trigger]
            texts_added(set, texts, k).contains(text) <==> (set.contains(text) || exists|i: int|
                0 <= i < k && (#[trigger] texts[i])@ == text),
    decreases k,
{
    if k > 0 {
        lemma_texts_added(set, texts, k - 1);
        let fewer = texts_added(set, texts, k - 1);
        assert forall|text: Seq<char>| #[trigger]
            texts_added(set, texts, k).contains(text) <==> (set.contains(text) || exists|i: int|
                0 <= i < k && (#[trigger] texts[i])@ == text) by {
            assert(texts_added(set, texts, k).contains(text) <==> (fewer.contains(text) || text
                == texts[k - 1]@));
            if text == texts[k - 1]@ {
                assert(texts[k - 1]@ == text);
            } else if fewer.contains(text) && !set.contains(text) {
                let i = choose|i: int| 0 <= i < k - 1 && (#[trigger] texts[i])@ == text;
                assert(texts[i]@ == text);
            }
        }
    }
}

/// A restart brings a session back: each tab whose file loads again is open as
/// what it was, with its file where it saves to one, on top, pinned and spoken
/// from exactly where it was; and round the documents shows what showed.
pub proof fn a_restart_brings_a_session_back(
    tabs: Vec<SessionTab>,
    active: Option<PanelId>,
    pinned: Vec<PanelId>,
    speech: Option<PanelId>,
    toggles: SessionToggles,
    stamps: Vec<(u128, i64)>,
    session: TemporaryWorkspaceSession,
    window: &mut Workspace,
    opened: Vec<Option<RestoredTab>>,
    dirs: &mut TextSet,
    read: &mut CommentReadState,
    restored: RestoredSession,
    i: int,
)
    requires
        call_ensures(
            snapshot_session,
            (&tabs, active, &pinned, speech, toggles, &stamps),
            session,
        ),
        own_ids(tabs@),
        call_ensures(
            Workspace::restore_temporary_workspace_session,
            (window, session, &opened, dirs, read),
            restored,
        ),
        opened@.len() == session.entries@.len(),
        fresh_tabs(old(window)@, opened@),
        0 <= i < opened@.len(),
        opened@[i] is Some,
    ensures
        ({
            let came = opened@[i]->0;
            let tab = tabs@[kept_places(tabs@, tabs@.len() as int)[i]];
            let after = *final(window);
            &&& came.kind == PanelKind::Document ==> after.panels.documents@.contains(came.id)
            &&& came.kind == PanelKind::Flow ==> after.panels.flows@.contains(came.id)
            &&& came.keeps_path ==> after@.files.contains((came.id, (tab.path->0)@))
            &&& active == Some(tab.id) ==> after.panels.active == Some((came.id, came.kind))
            &&& after.panels.speech == Some(came.id) <==> speech == Some(tab.id)
            &&& after.panels.pinned@.contains(came.id) <==> pinned@.contains(tab.id)
        }),
        final(window).layout.ribbon_collapsed == toggles.ribbon_collapsed,
        final(window).layout.outline_collapsed == toggles.outline_collapsed,
        final(window).layout.left_nav_mode == LeftNavMode::Tub <==> toggles.left_nav_tub,
        final(window).layout.restored_nav_width_bits == toggles.nav_width_bits,
        toggles.tub_tool_open ==> final(window).layout.active_toolkit_tool == Some(
            ToolkitTool::Tub,
        ),
        restored.toolkit_filter == toggles.toolkit_filter,
        forall|dir: Seq<char>| #[trigger]
            final(dirs)@.contains(dir) <==> (old(dirs)@.contains(dir) || exists|d: int|
                0 <= d < toggles.tub_expanded_dirs@.len() && (
                #[trigger] toggles.tub_expanded_dirs@[d])@ == dir),
        final(window).surfaces == old(window).surfaces,
        final(window).session_owner == old(window).session_owner,
{
    assert(opened.len() == opened@.len());
    a_session_comes_back(
        tabs@,
        active,
        pinned@,
        speech,
        session,
        old(window)@,
        opened@,
        i,
    );
    lemma_texts_added(
        old(dirs)@,
        toggles.tub_expanded_dirs@,
        toggles.tub_expanded_dirs@.len() as int,
    );
    lemma_kept_outside(old(window)@, session.entries@, opened@, opened@.len() as int);
}

proof fn lemma_kept_outside(
    view: crate::workspace::WorkspaceView,
    entries: Seq<crate::session::TemporaryWorkspaceSessionEntry>,
    opened: Seq<Option<RestoredTab>>,
    k: int,
)
    requires
        0 <= k <= opened.len(),
    ensures
        ({
            let after = crate::workspace::tabs_restored(view, entries, opened, k);
            after.surfaces == view.surfaces && after.session_owner == view.session_owner
        }),
    decreases k,
{
    if k > 0 {
        lemma_kept_outside(view, entries, opened, k - 1);
    }
}

proof fn lemma_restored_documents(opened: Seq<Option<RestoredTab>>, k: int)
    requires
        0 <= k <= opened.len(),
    ensures
        places_are(
            restored_documents(opened, k),
            |i: int| opened[i] is Some && (opened[i]->0).kind == PanelKind::Document,
            k,
        ),
    decreases k,
{
    let picks = |i: int| opened[i] is Some && (opened[i]->0).kind == PanelKind::Document;
    if k > 0 {
        lemma_restored_documents(opened, k - 1);
        lemma_place_added(restored_documents(opened, k - 1), picks, k - 1);
        assert(picks(k - 1) == (opened[k - 1] is Some && (opened[k - 1]->0).kind
            == PanelKind::Document));
    }
}

/// Every document that came back is shown as it was written down: the same
/// headings are folded, and it shows where it was read. The places of the
/// documents are handed out.
pub proof fn a_document_comes_back_where_it_was_read(
    session: TemporaryWorkspaceSession,
    window: &mut Workspace,
    opened: Vec<Option<RestoredTab>>,
    dirs: &mut TextSet,
    read: &mut CommentReadState,
    restored: RestoredSession,
) -> (places: Seq<int>)
    requires
        call_ensures(
            Workspace::restore_temporary_workspace_session,
            (window, session, &opened, dirs, read),
            restored,
        ),
        opened@.len() == session.entries@.len(),
    ensures
        places_are(
            places,
            |i: int| opened@[i] is Some && (opened@[i]->0).kind == PanelKind::Document,
            opened@.len() as int,
        ),
        restored.documents@.len() == places.len(),
        forall|p: int|
            0 <= p < places.len() ==> {
                let document = #[trigger] restored.documents@[p];
                let entry = session.entries@[places[p]];
                &&& document.id == (opened@[places[p]]->0).id
                &&& document.scroll_to == entry.viewport_paragraph
                &&& document.outline_scrolled_paragraph == entry.outline_scrolled_paragraph
                &&& entry.collapsed_outline_items@.len() == 0 ==> document.collapsed_outline_items
                    is None
                &&& entry.collapsed_outline_items@.len() > 0 ==> document.collapsed_outline_items
                    is Some && (document.collapsed_outline_items->0)@
                    == entry.collapsed_outline_items@
            },
{
    lemma_restored_documents(opened@, opened@.len() as int);
    restored_documents(opened@, opened@.len() as int)
}

/// What was read of a thread is read after a restart.
pub proof fn what_was_read_stays_read(
    tabs: Vec<SessionTab>,
    active: Option<PanelId>,
    pinned: Vec<PanelId>,
    speech: Option<PanelId>,
    toggles: SessionToggles,
    stamps: Vec<(u128, i64)>,
    session: TemporaryWorkspaceSession,
    read: &mut CommentReadState,
    i: int,
)
    requires
        call_ensures(
            snapshot_session,
            (&tabs, active, &pinned, speech, toggles, &stamps),
            session,
        ),
        call_ensures(
            crate::session::restore_read_state,
            (read, &session.comment_last_seen),
            (),
        ),
        forall|j: int, k: int|
            0 <= j < k < stamps@.len() ==> (#[trigger] stamps@[j]).0 != (#[trigger] stamps@[k]).0,
        0 <= i < stamps@.len(),
    ensures
        final(read).last_seen@.contains_key(stamps@[i].0),
        final(read).last_seen@[stamps@[i].0] == stamps@[i].1,
{
    read_stamps_survive_a_restart(
        old(read).last_seen@,
        stamps@,
        session.comment_last_seen@,
        i,
    );
}

/// Of two changes in a row the later is written, and once: the second asks for
/// no further writing, and after it nothing waits. A window that does not own
/// the session writes nothing.
pub proof fn the_latest_session_is_written_once(
    first: &mut SessionWriter,
    second: &mut SessionWriter,
    due: &mut SessionWriter,
    again: &mut SessionWriter,
    earlier: TemporaryWorkspaceSession,
    later: TemporaryWorkspaceSession,
    schedule: bool,
    reschedule: bool,
    written: Option<TemporaryWorkspaceSession>,
    rest: Option<TemporaryWorkspaceSession>,
)
    requires
        *old(first) == (SessionWriter { owner: old(first).owner, pending: None, scheduled: false }),
        call_ensures(
            SessionWriter::persist_temporary_workspace_session,
            (first, earlier),
            schedule,
        ),
        *old(second) == *final(first),
        call_ensures(
            SessionWriter::persist_temporary_workspace_session,
            (second, later),
            reschedule,
        ),
        *old(due) == *final(second),
        call_ensures(SessionWriter::write_due, (due,), written),
        *old(again) == *final(due),
        call_ensures(SessionWriter::write_due, (again,), rest),
    ensures
        schedule <==> old(first).owner,
        !reschedule,
        old(first).owner ==> written == Some(later),
        !old(first).owner ==> written is None,
        rest is None,
        *final(due) == *old(first),
{
}

} // verus!
