//! How the comments panel takes its turns: with its document, with reloads,
//! and with the actions on its threads.

use crate::comments::{
    CommentReadState, CommentThread, CommentsPanel, ContextChange, Detached, EditorObservation,
    ReviewMark,
};
use crate::pane::PanelId;
use vstd::prelude::*;

verus! {

/// What an author has in hand is the same in two panels.
pub open spec fn same_writing(before: CommentsPanel, after: CommentsPanel) -> bool {
    &&& after.author_user_id == before.author_user_id
    &&& after.author_display_name == before.author_display_name
    &&& after.composer_busy == before.composer_busy
    &&& after.replying_to == before.replying_to
    &&& after.editing_message == before.editing_message
    &&& after.show_resolved == before.show_resolved
    &&& after.filter_mine == before.filter_mine
}

/// An open panel is about the document on top. The threads of another document
/// never stay, nor do marks in an editor that is left; the threads are loaded
/// when the document is another one or the panel was closed. An editor is
/// observed while the panel is open and no longer.
pub proof fn the_panel_is_about_the_document_on_top(
    panel: &mut CommentsPanel,
    attached: bool,
    editor: Option<u128>,
    id: Option<PanelId>,
    change: ContextChange,
)
    requires
        call_ensures(CommentsPanel::set_context, (panel, attached, editor, id), change),
    ensures
        final(panel).open,
        final(panel).attached == attached,
        final(panel).editor == editor,
        final(panel).panel_id == id,
        old(panel).panel_id != id || old(panel).attached != attached
            ==> final(panel).threads@.len() == 0 && final(panel).error is None && change.reload,
        old(panel).panel_id == id && old(panel).attached == attached ==> final(panel).threads@
            == old(panel).threads@ && final(panel).error == old(panel).error && (change.reload
            <==> !old(panel).open),
        old(panel).panel_id != id && old(panel).editor != editor ==> change.clear_marks_of
            == old(panel).editor,
        change.clear_marks_of is Some ==> change.clear_marks_of != editor,
        editor is None ==> change.observation == EditorObservation::Stop,
        editor matches Some(shown) ==> (change.observation == EditorObservation::Keep
            <==> old(panel).open && old(panel).editor == Some(shown)),
        editor matches Some(shown) ==> change.observation == EditorObservation::Keep
            || change.observation == EditorObservation::Observe(shown),
        same_writing(*old(panel), *final(panel)),
        final(panel).busy_threads@ == old(panel).busy_threads@,
        final(panel).unread_threads@ == old(panel).unread_threads@,
        final(panel).refresh_generation == old(panel).refresh_generation,
        final(panel).refresh_pending == old(panel).refresh_pending,
{
}

/// A panel that closes takes its marks, its dots and the author's typing with
/// it, and pushes no marks until it opens again. Closing it once more does
/// nothing.
pub proof fn a_closed_panel_leaves_nothing_behind(
    panel: &mut CommentsPanel,
    again: &mut CommentsPanel,
    detached: Detached,
    nothing: Detached,
    marks: Option<Vec<ReviewMark>>,
)
    requires
        call_ensures(CommentsPanel::detach, (panel,), detached),
        call_ensures(CommentsPanel::detach, (again,), nothing),
        *old(again) == *final(panel),
        call_ensures(CommentsPanel::push_editor_marks, (&*final(panel),), marks),
    ensures
        !final(panel).open,
        marks is None,
        old(panel).open ==> {
            &&& detached.clear_marks_of == old(panel).editor
            &&& final(panel).published_typing is None
            &&& forall|id: u128| !#[trigger] final(panel).unread_threads@.contains(id)
            &&& old(panel).published_typing is Some ==> detached.typing == Some(
                None::<crate::comments::CommentTyping>,
            )
            &&& old(panel).published_typing is None ==> detached.typing is None
        },
        !old(panel).open ==> detached.clear_marks_of is None && detached.typing is None,
        nothing.clear_marks_of is None,
        nothing.typing is None,
        *final(again) == *final(panel),
        final(panel).threads@ == old(panel).threads@,
        final(panel).editor == old(panel).editor,
        final(panel).attached == old(panel).attached,
        same_writing(*old(panel), *final(panel)),
{
}

/// The panel's marks are those of its own open threads, in order, and there
/// are some to push while it is open over an editor.
pub proof fn the_panel_marks_its_own_threads(
    panel: CommentsPanel,
    marks: Option<Vec<ReviewMark>>,
    drawn: Vec<ReviewMark>,
)
    requires
        call_ensures(CommentsPanel::push_editor_marks, (&panel,), marks),
        call_ensures(
            crate::comments::refresh_comment_annotations,
            (&panel.threads,),
            drawn,
        ),
    ensures
        marks is Some <==> panel.open && panel.editor is Some,
        marks matches Some(marks) ==> marks@ == drawn@,
{
}

/// One refresh is pending at a time, and only with the document's service; the
/// next is scheduled once it was due.
pub proof fn one_refresh_is_pending(
    first: &mut CommentsPanel,
    second: &mut CommentsPanel,
    due: &mut CommentsPanel,
    third: &mut CommentsPanel,
    scheduled: (bool, bool, bool),
)
    requires
        call_ensures(CommentsPanel::schedule_refresh, (first,), scheduled.0),
        *old(second) == *final(first),
        call_ensures(CommentsPanel::schedule_refresh, (second,), scheduled.1),
        *old(due) == *final(second),
        call_ensures(CommentsPanel::refresh_due, (due,), ()),
        *old(third) == *final(due),
        call_ensures(CommentsPanel::schedule_refresh, (third,), scheduled.2),
    ensures
        scheduled.0 ==> old(first).attached && !old(first).refresh_pending,
        old(first).attached && !old(first).refresh_pending ==> scheduled.0,
        scheduled.0 ==> final(first).refresh_pending,
        !scheduled.1,
        !final(due).refresh_pending,
        scheduled.2 <==> old(first).attached,
        final(first).threads@ == old(first).threads@,
        final(due).threads@ == old(due).threads@,
        same_writing(*old(first), *final(first)),
        same_writing(*old(due), *final(due)),
{
}

/// Of two reloads the later one counts: what the earlier brings is not taken,
/// whenever it comes. Threads that are there show meanwhile.
pub proof fn the_later_reload_counts(
    first: &mut CommentsPanel,
    second: &mut CommentsPanel,
    stale: &mut CommentsPanel,
    state: &mut CommentReadState,
    generations: (Option<u64>, Option<u64>),
    result: Result<Vec<CommentThread>, String>,
    taken: bool,
)
    requires
        call_ensures(CommentsPanel::reload, (first,), generations.0),
        *old(second) == *final(first),
        call_ensures(CommentsPanel::reload, (second,), generations.1),
        *old(stale) == *final(second),
        generations.0 is Some,
        call_ensures(
            CommentsPanel::finish_reload,
            (stale, generations.0->0, result, state),
            taken,
        ),
    ensures
        generations.1 is Some,
        generations.0 != generations.1,
        !taken,
        *final(stale) == *old(stale),
        final(state).last_seen@ == old(state).last_seen@,
        final(first).threads@ == old(first).threads@,
        final(first).loading <==> old(first).threads@.len() == 0,
{
    let n = old(first).refresh_generation;
    let m = final(first).refresh_generation;
    assert(m == n.wrapping_add(1));
    assert(m.wrapping_add(1) != m);
}

/// What the latest reload brings is taken: the threads as they came, or what
/// went wrong, with the threads as they were. A reload starts only with the
/// document's service.
pub proof fn the_latest_reload_is_taken(
    panel: &mut CommentsPanel,
    end: &mut CommentsPanel,
    state: &mut CommentReadState,
    generation: Option<u64>,
    result: Result<Vec<CommentThread>, String>,
    taken: bool,
)
    requires
        call_ensures(CommentsPanel::reload, (panel,), generation),
        *old(end) == *final(panel),
        generation is Some,
        call_ensures(CommentsPanel::finish_reload, (end, generation->0, result, state), taken),
    ensures
        old(panel).attached,
        taken,
        !final(end).loading,
        result matches Ok(threads) ==> final(end).threads@ == threads@ && final(end).error is None,
        result matches Err(reason) ==> {
            &&& final(end).threads@ == old(panel).threads@
            &&& final(end).unread_threads@ == old(panel).unread_threads@
            &&& final(state).last_seen@ == old(state).last_seen@
            &&& final(end).error matches Some(text) && text@.len() >= reason@.len()
                && text@.subrange(text@.len() - reason@.len(), text@.len() as int) == reason@
        },
        same_writing(*old(panel), *final(end)),
{
    if let Err(reason) = result {
        let text = final(end).error->0;
        assert(text@.subrange(text@.len() - reason@.len(), text@.len() as int) =~= reason@);
    }
}

/// A reload needs the document's service.
pub proof fn a_reload_needs_the_service(panel: &mut CommentsPanel, generation: Option<u64>)
    requires
        call_ensures(CommentsPanel::reload, (panel,), generation),
    ensures
        generation is Some <==> old(panel).attached,
        generation is None ==> *final(panel) == *old(panel),
        generation is Some ==> generation == Some(final(panel).refresh_generation),
{
}

/// Every thread but one is as busy as it was.
pub open spec fn others_as_busy(before: CommentsPanel, after: CommentsPanel, id: u128) -> bool {
    forall|other: u128|
        other != id ==> (#[trigger] after.busy_threads@.contains(other)
            <==> before.busy_threads@.contains(other))
}

/// One action is under way on a thread at a time, and only with the document's
/// service; the next starts once it has ended, whatever came of it. Other
/// threads do not wait. What went wrong is said with its reason.
pub proof fn one_action_runs_on_a_thread(
    first: &mut CommentsPanel,
    second: &mut CommentsPanel,
    end: &mut CommentsPanel,
    third: &mut CommentsPanel,
    id: u128,
    started: (bool, bool, bool),
    result: Result<(), String>,
)
    requires
        call_ensures(CommentsPanel::thread_action, (first, id), started.0),
        *old(second) == *final(first),
        call_ensures(CommentsPanel::thread_action, (second, id), started.1),
        *old(end) == *final(second),
        call_ensures(CommentsPanel::finish_thread_action, (end, id, result), ()),
        *old(third) == *final(end),
        call_ensures(CommentsPanel::thread_action, (third, id), started.2),
    ensures
        started.0 <==> old(first).attached && !old(first).busy_threads@.contains(id),
        started.0 ==> final(first).busy_threads@.contains(id),
        !started.1,
        !final(end).busy_threads@.contains(id),
        started.2 <==> old(first).attached,
        others_as_busy(*old(first), *final(first), id),
        others_as_busy(*old(end), *final(end), id),
        final(first).threads@ == old(first).threads@,
        final(end).threads@ == old(end).threads@,
        final(first).error == old(first).error,
        result is Ok ==> final(end).error == old(end).error,
        result matches Err(reason) ==> (final(end).error matches Some(text) && text@.len()
            >= reason@.len() && text@.subrange(
            text@.len() - reason@.len(),
            text@.len() as int,
        ) == reason@),
        same_writing(*old(first), *final(first)),
        same_writing(*old(end), *final(end)),
{
    if let Err(reason) = result {
        let text = final(end).error->0;
        assert(text@.subrange(text@.len() - reason@.len(), text@.len() as int) =~= reason@);
    }
}

/// A thread is deleted only where the first button answered, and then as any
/// other action on it starts.
pub proof fn a_thread_is_deleted_once_it_is_confirmed(
    panel: &mut CommentsPanel,
    id: u128,
    button: Option<usize>,
    started: bool,
)
    requires
        call_ensures(CommentsPanel::delete_thread, (panel, id, button), started),
    ensures
        started <==> button == Some(0usize) && old(panel).attached
            && !old(panel).busy_threads@.contains(id),
        started ==> final(panel).busy_threads@.contains(id),
        !started ==> forall|other: u128| #[trigger]
            final(panel).busy_threads@.contains(other) <==> old(panel).busy_threads@.contains(other),
        others_as_busy(*old(panel), *final(panel), id),
        final(panel).threads@ == old(panel).threads@,
        same_writing(*old(panel), *final(panel)),
{
}

/// A composer whose comment was taken, or was not, is free again; a comment
/// that was taken shows with the next reload, and one that was not is said
/// with its reason.
pub proof fn the_composer_is_free_again(
    panel: &mut CommentsPanel,
    result: Result<(), String>,
    reload: bool,
)
    requires
        call_ensures(CommentsPanel::comment_created, (panel, result), reload),
    ensures
        !final(panel).composer_busy,
        reload <==> result is Ok,
        result is Ok ==> final(panel).error == old(panel).error,
        result matches Err(reason) ==> (final(panel).error matches Some(text) && text@.len()
            >= reason@.len() && text@.subrange(
            text@.len() - reason@.len(),
            text@.len() as int,
        ) == reason@),
        final(panel).threads@ == old(panel).threads@,
        final(panel).busy_threads@ == old(panel).busy_threads@,
        final(panel).replying_to == old(panel).replying_to,
        final(panel).editing_message == old(panel).editing_message,
{
    if let Err(reason) = result {
        let text = final(panel).error->0;
        assert(text@.subrange(text@.len() - reason@.len(), text@.len() as int) =~= reason@);
    }
}

/// What is switched twice is as it was: the filter on the author's own threads
/// and the fold of the resolved ones.
pub proof fn switches_of_the_panel_go_back(
    mine: &mut CommentsPanel,
    mine_again: &mut CommentsPanel,
    resolved: &mut CommentsPanel,
    resolved_again: &mut CommentsPanel,
)
    requires
        call_ensures(CommentsPanel::toggle_mine, (mine,), ()),
        *old(mine_again) == *final(mine),
        call_ensures(CommentsPanel::toggle_mine, (mine_again,), ()),
        call_ensures(CommentsPanel::toggle_resolved, (resolved,), ()),
        *old(resolved_again) == *final(resolved),
        call_ensures(CommentsPanel::toggle_resolved, (resolved_again,), ()),
    ensures
        final(mine).filter_mine != old(mine).filter_mine,
        final(mine).show_resolved == old(mine).show_resolved,
        *final(mine_again) == *old(mine),
        final(resolved).show_resolved != old(resolved).show_resolved,
        final(resolved).filter_mine == old(resolved).filter_mine,
        *final(resolved_again) == *old(resolved),
{
}

/// One reply box is open at a time: that of the thread it was asked for last,
/// and none once it was asked for again.
pub proof fn one_reply_box_is_open(
    first: &mut CommentsPanel,
    second: &mut CommentsPanel,
    id: u128,
)
    requires
        call_ensures(CommentsPanel::toggle_reply, (first, id), ()),
        *old(second) == *final(first),
        call_ensures(CommentsPanel::toggle_reply, (second, id), ()),
    ensures
        old(first).replying_to != Some(id) ==> final(first).replying_to == Some(id)
            && final(second).replying_to is None,
        old(first).replying_to == Some(id) ==> final(first).replying_to is None
            && final(second).replying_to == Some(id),
        final(first).editing_message == old(first).editing_message,
        final(first).threads@ == old(first).threads@,
        final(first).composer_busy == old(first).composer_busy,
{
}

/// Touching a card takes its dot and no other, and says whether it had one; it
/// has none to take the next time.
pub proof fn touching_a_card_takes_its_dot(
    first: &mut CommentsPanel,
    second: &mut CommentsPanel,
    id: u128,
    cleared: (bool, bool),
)
    requires
        call_ensures(CommentsPanel::view_card, (first, id), cleared.0),
        *old(second) == *final(first),
        call_ensures(CommentsPanel::view_card, (second, id), cleared.1),
    ensures
        cleared.0 <==> old(first).unread_threads@.contains(id),
        !cleared.1,
        forall|other: u128| #[trigger]
            final(first).unread_threads@.contains(other) <==> other != id
                && old(first).unread_threads@.contains(other),
        final(first).threads@ == old(first).threads@,
        same_writing(*old(first), *final(first)),
{
}

/// The composer is sent with enter, and not with any other key, nor while
/// shift is down.
pub proof fn enter_sends_the_composer(
    panel: CommentsPanel,
    key: &str,
    shift: bool,
    submits: bool,
)
    requires
        call_ensures(CommentsPanel::on_composer_key, (&panel, key, shift), submits),
    ensures
        submits ==> key@ == "enter"@ && !shift,
        key@ == "enter"@ && !shift ==> submits,
{
}

/// A new panel is closed, about no document and with nothing in it.
pub proof fn a_new_panel_is_closed(author: u128, name: String, panel: CommentsPanel)
    requires
        call_ensures(CommentsPanel::new, (author, name), panel),
    ensures
        panel.author_user_id == author,
        panel.author_display_name@ == name@,
        !panel.open,
        !panel.attached,
        !panel.composer_busy,
        panel.threads@.len() == 0,
        panel.replying_to is None,
        panel.editing_message is None,
        panel.published_typing is None,
        forall|id: u128| !#[trigger] panel.busy_threads@.contains(id),
        forall|id: u128| !#[trigger] panel.unread_threads@.contains(id),
{
}

} // verus!
