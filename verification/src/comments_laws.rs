//! What reviewing promises: no unseen activity goes unmarked, what is written
//! goes out as it was written, and every thread shows where it stands.

use crate::comments::{
    latest_activity, linked_id, linked_thread, marks_of, message_index, newest_stamp,
    refresh_comment_annotations, seen_after, thread_index, thread_latest_activity, unseen_count,
    unseen_ids, CommentMessage, CommentReadState, CommentThread, CommentTyping, CommentsPanel,
    NewComment, ReviewMark, SentReply, TypingPeer,
};
use crate::comments_view::{listed_indices, CommentsView, ThreadView};
use crate::document_panel::{DocumentOffset, DocumentRange};
use crate::places::{lemma_place_added, places_are};
use crate::text::trimmed;
use vstd::prelude::*;

verus! {

/// A stamp is one of a thread's own or of its messages'.
pub open spec fn is_stamp_of(thread: CommentThread, stamp: int) -> bool {
    ||| stamp == thread.created_at_unix_secs
    ||| stamp == thread.updated_at_unix_secs
    ||| exists|i: int|
        0 <= i < thread.messages@.len() && (stamp == (
        #[trigger] thread.messages@[i]).created_at_unix_secs || stamp
            == thread.messages@[i].updated_at_unix_secs)
}

/// A stamp is at or after all of a thread's own and of its messages'.
pub open spec fn covers(thread: CommentThread, stamp: int) -> bool {
    &&& thread.created_at_unix_secs <= stamp
    &&& thread.updated_at_unix_secs <= stamp
    &&& forall|i: int|
        0 <= i < thread.messages@.len() ==> (
        #[trigger] thread.messages@[i]).created_at_unix_secs <= stamp
            && thread.messages@[i].updated_at_unix_secs <= stamp
}

proof fn lemma_newest(thread: CommentThread, k: int)
    requires
        0 <= k <= thread.messages@.len(),
    ensures
        is_stamp_of(thread, newest_stamp(thread, k)),
        thread.created_at_unix_secs <= newest_stamp(thread, k),
        thread.updated_at_unix_secs <= newest_stamp(thread, k),
        forall|i: int|
            0 <= i < k ==> (#[trigger] thread.messages@[i]).created_at_unix_secs <= newest_stamp(
                thread,
                k,
            ) && thread.messages@[i].updated_at_unix_secs <= newest_stamp(thread, k),
    decreases k,
{
    if k > 0 {
        lemma_newest(thread, k - 1);
        let message = thread.messages@[k - 1];
    }
}

/// A thread's newest activity is the newest of its stamps and its messages'.
pub proof fn the_newest_activity_is_the_newest(thread: CommentThread, stamp: i64)
    requires
        call_ensures(thread_latest_activity, (&thread,), stamp),
    ensures
        covers(thread, stamp as int),
        is_stamp_of(thread, stamp as int),
{
    lemma_newest(thread, thread.messages@.len() as int);
}

/// A thread has activity that was not seen: it was never seen, or something of
/// it is newer.
pub open spec fn has_news(seen: Map<u128, i64>, thread: CommentThread) -> bool {
    !seen.contains_key(thread.comment_id) || !covers(thread, seen[thread.comment_id] as int)
}

proof fn lemma_news(seen: Map<u128, i64>, thread: CommentThread)
    ensures
        crate::comments::is_unseen(seen, thread) == has_news(seen, thread),
{
    lemma_newest(thread, thread.messages@.len() as int);
    let newest = latest_activity(thread);
    if seen.contains_key(thread.comment_id) && newest > seen[thread.comment_id] {
        let stamp = seen[thread.comment_id] as int;
        if covers(thread, stamp) {
            if newest != thread.created_at_unix_secs && newest != thread.updated_at_unix_secs {
                let i = choose|i: int|
                    0 <= i < thread.messages@.len() && (newest == (
                    #[trigger] thread.messages@[i]).created_at_unix_secs || newest
                        == thread.messages@[i].updated_at_unix_secs);
                assert(thread.messages@[i].created_at_unix_secs <= stamp);
            }
        }
    }
}

proof fn lemma_news_counted(seen: Map<u128, i64>, threads: Seq<CommentThread>, k: int) -> (places:
    Seq<int>)
    requires
        0 <= k <= threads.len(),
    ensures
        places_are(places, |i: int| has_news(seen, threads[i]), k),
        unseen_count(seen, threads, k) == places.len(),
    decreases k,
{
    let picks = |i: int| has_news(seen, threads[i]);
    if k <= 0 {
        Seq::empty()
    } else {
        let earlier = lemma_news_counted(seen, threads, k - 1);
        lemma_news(seen, threads[k - 1]);
        lemma_place_added(earlier, picks, k - 1);
        if picks(k - 1) {
            earlier.push(k - 1)
        } else {
            earlier
        }
    }
}

/// The badge counts the threads with activity that was not seen, and no
/// others.
pub proof fn the_badge_counts_what_is_new(
    state: CommentReadState,
    threads: Vec<CommentThread>,
    count: usize,
) -> (places: Seq<int>)
    requires
        call_ensures(CommentReadState::unread_comment_count, (&state, &threads), count),
    ensures
        places_are(
            places,
            |i: int| has_news(state.last_seen@, threads@[i]),
            threads@.len() as int,
        ),
        count == places.len(),
{
    lemma_news_counted(state.last_seen@, threads@, threads@.len() as int)
}

proof fn lemma_seen(seen: Map<u128, i64>, threads: Seq<CommentThread>, k: int, id: u128)
    requires
        0 <= k <= threads.len(),
    ensures
        (forall|i: int| 0 <= i < k ==> (#[trigger] threads[i]).comment_id != id) ==> seen_after(
            seen,
            threads,
            k,
        ).contains_key(id) == seen.contains_key(id) && (seen.contains_key(id) ==> seen_after(
            seen,
            threads,
            k,
        )[id] == seen[id]),
        forall|i: int|
            0 <= i < k && (#[trigger] threads[i]).comment_id == id && (forall|j: int|
                i < j < k ==> (#[trigger] threads[j]).comment_id != id) ==> seen_after(
                seen,
                threads,
                k,
            ).contains_key(id) && seen_after(seen, threads, k)[id] == latest_activity(
                threads[i],
            ) as i64,
    decreases k,
{
    if k > 0 {
        lemma_seen(seen, threads, k - 1, id);
        if threads[k - 1].comment_id == id {
        } else {
            assert forall|i: int|
                0 <= i < k && (#[trigger] threads[i]).comment_id == id && (forall|j: int|
                    i < j < k ==> (#[trigger] threads[j]).comment_id != id) implies seen_after(
                seen,
                threads,
                k,
            ).contains_key(id) && seen_after(seen, threads, k)[id] == latest_activity(
                threads[i],
            ) as i64 by {
                assert(i < k - 1);
                assert(seen_after(seen, threads, k - 1).contains_key(id));
            }
        }
    }
}

/// What was viewed is seen: afterwards none of the viewed threads has news,
/// and threads that were not viewed keep what was seen of them.
pub proof fn viewed_threads_have_no_news(
    state: &mut CommentReadState,
    threads: Vec<CommentThread>,
    other: u128,
)
    requires
        call_ensures(CommentReadState::mark_comment_threads_seen, (state, &threads), ()),
        forall|i: int, j: int|
            0 <= i < j < threads@.len() ==> (#[trigger] threads@[i]).comment_id != (
            #[trigger] threads@[j]).comment_id,
    ensures
        forall|i: int|
            0 <= i < threads@.len() ==> !has_news(final(state).last_seen@, #[trigger] threads@[i]),
        (forall|i: int| 0 <= i < threads@.len() ==> (#[trigger] threads@[i]).comment_id != other)
            ==> final(state).last_seen@.contains_key(other) == old(state).last_seen@.contains_key(
            other,
        ) && (old(state).last_seen@.contains_key(other) ==> final(state).last_seen@[other]
            == old(state).last_seen@[other]),
{
    let k = threads@.len() as int;
    lemma_seen(old(state).last_seen@, threads@, k, other);
    assert forall|i: int| 0 <= i < k implies !has_news(
        final(state).last_seen@,
        #[trigger] threads@[i],
    ) by {
        let thread = threads@[i];
        lemma_seen(old(state).last_seen@, threads@, k, thread.comment_id);
        lemma_newest(thread, thread.messages@.len() as int);
        assert(latest_activity(thread) as i64 == latest_activity(thread)) by {
            let newest = latest_activity(thread);
            if newest != thread.created_at_unix_secs && newest != thread.updated_at_unix_secs {
                let m = choose|m: int|
                    0 <= m < thread.messages@.len() && (newest == (
                    #[trigger] thread.messages@[m]).created_at_unix_secs || newest
                        == thread.messages@[m].updated_at_unix_secs);
            }
        }
        lemma_news(final(state).last_seen@, thread);
    }
}

/// Some of the first `k` threads has an id and news.
pub open spec fn news_of(
    seen: Map<u128, i64>,
    threads: Seq<CommentThread>,
    k: int,
    id: u128,
) -> bool {
    exists|i: int|
        0 <= i < k && (#[trigger] threads[i]).comment_id == id && has_news(seen, threads[i])
}

proof fn lemma_unseen_ids(seen: Map<u128, i64>, threads: Seq<CommentThread>, k: int, id: u128)
    requires
        0 <= k <= threads.len(),
    ensures
        unseen_ids(seen, threads, k).contains(id) == news_of(seen, threads, k, id),
    decreases k,
{
    if k > 0 {
        lemma_unseen_ids(seen, threads, k - 1, id);
        lemma_news(seen, threads[k - 1]);
        if news_of(seen, threads, k - 1, id) {
            let i = choose|i: int|
                0 <= i < k - 1 && (#[trigger] threads[i]).comment_id == id && has_news(
                    seen,
                    threads[i],
                );
            assert(threads[i].comment_id == id);
        }
        if threads[k - 1].comment_id == id && has_news(seen, threads[k - 1]) {
            assert(news_of(seen, threads, k, id));
        }
        if news_of(seen, threads, k, id) {
            let i = choose|i: int|
                0 <= i < k && (#[trigger] threads[i]).comment_id == id && has_news(
                    seen,
                    threads[i],
                );
            if i < k - 1 {
                assert(news_of(seen, threads, k - 1, id));
            }
        }
    }
}

/// A reload that comes last is taken whole: its threads show, those with
/// activity that was not seen get their dot beside the dots that were there,
/// and all of it counts as seen from then on. One that comes late changes
/// nothing.
pub proof fn a_reload_marks_what_is_new(
    panel: &mut CommentsPanel,
    generation: u64,
    threads: Vec<CommentThread>,
    state: &mut CommentReadState,
    taken: bool,
    id: u128,
)
    requires
        call_ensures(CommentsPanel::finish_reload, (panel, generation, Ok(threads), state), taken),
    ensures
        taken <==> generation == old(panel).refresh_generation,
        !taken ==> *final(panel) == *old(panel) && *final(state) == *old(state),
        taken ==> {
            &&& final(panel).threads == threads
            &&& !final(panel).loading
            &&& final(panel).error is None
            &&& final(panel).unread_threads@.contains(id) <==> old(panel).unread_threads@.contains(id) || news_of(
                old(state).last_seen@,
                threads@,
                threads@.len() as int,
                id,
            )
        },
{
    lemma_unseen_ids(old(state).last_seen@, threads@, threads@.len() as int, id);
}

proof fn lemma_marks(threads: Seq<CommentThread>, k: int) -> (places: Seq<int>)
    requires
        0 <= k <= threads.len(),
    ensures
        places_are(places, |i: int| !threads[i].resolved && threads[i].anchor is Some, k),
        marks_of(threads, k).len() == places.len(),
        forall|p: int|
            0 <= p < places.len() ==> Some((#[trigger] marks_of(threads, k)[p]).range)
                == threads[places[p]].anchor,
    decreases k,
{
    let picks = |i: int| !threads[i].resolved && threads[i].anchor is Some;
    if k <= 0 {
        Seq::empty()
    } else {
        let earlier = lemma_marks(threads, k - 1);
        lemma_place_added(earlier, picks, k - 1);
        let before = marks_of(threads, k - 1);
        let marks = marks_of(threads, k);
        if picks(k - 1) {
            let places = earlier.push(k - 1);
            assert forall|p: int| 0 <= p < places.len() implies Some((#[trigger] marks[p]).range)
                == threads[places[p]].anchor by {
                if p < earlier.len() {
                    assert(marks[p] == before[p]);
                }
            }
            places
        } else {
            earlier
        }
    }
}

/// Text is marked exactly where an open thread is about it: one mark for each
/// thread that is not resolved and still has its text, on that text.
pub proof fn open_threads_are_marked(threads: Vec<CommentThread>, marks: Vec<ReviewMark>) -> (places:
    Seq<int>)
    requires
        call_ensures(refresh_comment_annotations, (&threads,), marks),
    ensures
        places_are(
            places,
            |i: int| !threads@[i].resolved && threads@[i].anchor is Some,
            threads@.len() as int,
        ),
        marks@.len() == places.len(),
        forall|p: int|
            0 <= p < places.len() ==> Some((#[trigger] marks@[p]).range)
                == threads@[places[p]].anchor,
{
    lemma_marks(threads@, threads@.len() as int)
}

/// A caret stands within a range.
pub open spec fn caret_within(caret: DocumentOffset, range: DocumentRange) -> bool {
    &&& range.start.paragraph < caret.paragraph || range.start.paragraph == caret.paragraph
        && range.start.byte <= caret.byte
    &&& caret.paragraph < range.end.paragraph || caret.paragraph == range.end.paragraph
        && caret.byte <= range.end.byte
}

/// An open thread is about the text at a caret.
pub open spec fn is_about(thread: CommentThread, caret: DocumentOffset) -> bool {
    !thread.resolved && (thread.anchor matches Some(range) && caret_within(caret, range))
}

proof fn lemma_linked(threads: Seq<CommentThread>, caret: DocumentOffset, from: int)
    requires
        0 <= from <= threads.len(),
    ensures
        match linked_id(threads, caret, from) {
            Some(id) => exists|i: int|
                from <= i < threads.len() && (#[trigger] threads[i]).comment_id == id && is_about(
                    threads[i],
                    caret,
                ) && forall|j: int| from <= j < i ==> !is_about(#[trigger] threads[j], caret),
            None => forall|j: int|
                from <= j < threads.len() ==> !is_about(#[trigger] threads[j], caret),
        },
    decreases threads.len() - from,
{
    if from < threads.len() && !is_about(threads[from], caret) {
        lemma_linked(threads, caret, from + 1);
        if let Some(id) = linked_id(threads, caret, from + 1) {
            let i = choose|i: int|
                from + 1 <= i < threads.len() && (#[trigger] threads[i]).comment_id == id
                    && is_about(threads[i], caret) && forall|j: int|
                    from + 1 <= j < i ==> !is_about(#[trigger] threads[j], caret);
            assert(threads[i].comment_id == id);
        }
    } else if from < threads.len() {
        assert(threads[from].comment_id == threads[from].comment_id);
    }
}

/// The thread that a caret stands in is the first open one about that text.
pub proof fn the_carets_thread_is_about_its_text(
    threads: Vec<CommentThread>,
    caret: DocumentOffset,
    linked: Option<u128>,
)
    requires
        call_ensures(linked_thread, (&threads, caret), linked),
    ensures
        match linked {
            Some(id) => exists|i: int|
                0 <= i < threads@.len() && (#[trigger] threads@[i]).comment_id == id && is_about(
                    threads@[i],
                    caret,
                ) && forall|j: int| 0 <= j < i ==> !is_about(#[trigger] threads@[j], caret),
            None => forall|j: int|
                0 <= j < threads@.len() ==> !is_about(#[trigger] threads@[j], caret),
        },
{
    lemma_linked(threads@, caret, 0);
}

/// A new comment goes out as it was written, without the space around it, on
/// the text that is selected; a mere caret selects none. Nothing goes out
/// empty, twice, or without a service.
pub proof fn a_comment_goes_out_as_written(
    panel: &mut CommentsPanel,
    composer: &str,
    reply: &str,
    selection: Option<DocumentRange>,
    comment: Option<NewComment>,
)
    requires
        call_ensures(CommentsPanel::create_comment, (panel, composer, reply, selection), comment),
    ensures
        comment is Some <==> old(panel).attached && trimmed(composer@).len() > 0 && !old(panel).composer_busy,
        comment is None ==> *final(panel) == *old(panel),
        comment matches Some(comment) ==> {
            &&& comment.body@ == trimmed(composer@)
            &&& final(panel).composer_busy
            &&& comment.selection is Some ==> comment.selection == selection
            &&& (selection matches Some(range) ==> (comment.selection is Some <==> range.start
                != range.end))
        },
        final(panel).threads == old(panel).threads,
{
}

/// An action on a thread goes out once at a time: a reply and an edit as they
/// were written, without the space around them, each for its own thread, and a
/// resolved thread reopens while an open one resolves.
pub proof fn thread_actions_go_out_once(
    replied: &mut CommentsPanel,
    reply: &str,
    composer: &str,
    sent: Option<SentReply>,
    edited: &mut CommentsPanel,
    edit: &str,
    body: Option<String>,
    resolving: &mut CommentsPanel,
    resolved: Option<bool>,
    id: u128,
)
    requires
        call_ensures(CommentsPanel::send_reply, (replied, id, reply, composer), sent),
        call_ensures(CommentsPanel::save_edit, (edited, id, edit), body),
        call_ensures(CommentsPanel::resolve_thread, (resolving, id), resolved),
    ensures
        sent is Some <==> trimmed(reply@).len() > 0,
        sent matches Some(sent) ==> {
            &&& final(replied).replying_to is None
            &&& sent.body is Some <==> old(replied).attached && !old(replied).busy_threads@.contains(id)
            &&& sent.body matches Some(text) ==> text@ == trimmed(reply@)
            &&& old(replied).attached ==> final(replied).busy_threads@.contains(id)
        },
        body is Some <==> trimmed(edit@).len() > 0 && old(edited).attached && !old(edited).busy_threads@.contains(id),
        body matches Some(body) ==> body@ == trimmed(edit@) && final(edited).editing_message is None && final(edited).busy_threads@.contains(id),
        resolved is Some <==> old(resolving).attached && !old(resolving).busy_threads@.contains(id),
        resolved matches Some(to) ==> forall|i: int|
            0 <= i < old(resolving).threads@.len() && (#[trigger] old(resolving).threads@[i]).comment_id == id && (forall|j: int|
                0 <= j < i ==> (#[trigger] old(resolving).threads@[j]).comment_id != id) ==> to
                == !old(resolving).threads@[i].resolved,
        final(resolving).threads == old(resolving).threads,
{
    assert forall|i: int|
        0 <= i < old(resolving).threads@.len() && (#[trigger] old(resolving).threads@[i]).comment_id == id && (forall|j: int|
            0 <= j < i ==> (#[trigger] old(resolving).threads@[j]).comment_id
                != id) implies thread_index(old(resolving).threads@, id, 0) == Some(i) by {
        lemma_thread_index(old(resolving).threads@, id, 0);
    }
}

proof fn lemma_thread_index(threads: Seq<CommentThread>, id: u128, from: int)
    requires
        0 <= from <= threads.len(),
    ensures
        match thread_index(threads, id, from) {
            Some(ix) => from <= ix < threads.len() && threads[ix].comment_id == id && forall|j: int|
                from <= j < ix ==> (#[trigger] threads[j]).comment_id != id,
            None => forall|j: int|
                from <= j < threads.len() ==> (#[trigger] threads[j]).comment_id != id,
        },
    decreases threads.len() - from,
{
    if from < threads.len() && threads[from].comment_id != id {
        lemma_thread_index(threads, id, from + 1);
    }
}

proof fn lemma_message_index(messages: Seq<CommentMessage>, id: u128, from: int)
    requires
        0 <= from <= messages.len(),
    ensures
        match message_index(messages, id, from) {
            Some(ix) => from <= ix < messages.len() && messages[ix].message_id == id && forall|
                j: int,
            |
                from <= j < ix ==> (#[trigger] messages[j]).message_id != id,
            None => forall|j: int|
                from <= j < messages.len() ==> (#[trigger] messages[j]).message_id != id,
        },
    decreases messages.len() - from,
{
    if from < messages.len() && messages[from].message_id != id {
        lemma_message_index(messages, id, from + 1);
    }
}

/// A message is opened for editing with its own text, and jumping to a thread
/// leads to its own text.
pub proof fn a_message_is_edited_from_its_own_text(
    panel: &mut CommentsPanel,
    id: u128,
    message: u128,
    body: Option<String>,
    shown: CommentsPanel,
    range: Option<DocumentRange>,
)
    requires
        call_ensures(CommentsPanel::begin_edit, (panel, id, message), body),
        call_ensures(CommentsPanel::jump_to, (&shown, id), range),
    ensures
        final(panel).editing_message == Some((id, message)),
        body matches Some(text) ==> exists|i: int, m: int|
            #![trigger old(panel).threads@[i].messages@[m]]
            0 <= i < old(panel).threads@.len() && 0 <= m < old(panel).threads@[i].messages@.len()
                && old(panel).threads@[i].comment_id == id && old(panel).threads@[i].messages@[m].message_id == message && old(panel).threads@[i].messages@[m].body@ == text@,
        range is Some ==> shown.editor is Some && exists|i: int|
            0 <= i < shown.threads@.len() && (#[trigger] shown.threads@[i]).comment_id == id
                && shown.threads@[i].anchor == range,
{
    let threads = old(panel).threads@;
    lemma_thread_index(threads, id, 0);
    if let Some(ix) = thread_index(threads, id, 0) {
        lemma_message_index(threads[ix].messages@, message, 0);
        if let Some(at) = message_index(threads[ix].messages@, message, 0) {
            assert(threads[ix].messages@[at].message_id == message);
        }
    }
    lemma_thread_index(shown.threads@, id, 0);
}

/// What others see that an author writes is where the author writes: in the
/// thread that is replied to, else a new one, and nothing where both boxes
/// are empty or the panel is closed. It is published when it changes.
pub proof fn others_see_where_one_writes(
    panel: &mut CommentsPanel,
    composer: &str,
    reply: &str,
    publish: Option<Option<CommentTyping>>,
)
    requires
        call_ensures(CommentsPanel::sync_typing_state, (panel, composer, reply), publish),
    ensures
        ({
            let writes = final(panel).published_typing;
            let replies = old(panel).replying_to is Some && trimmed(reply@).len() > 0;
            &&& !old(panel).open ==> writes is None
            &&& old(panel).open && replies ==> writes == Some(
                CommentTyping::InThread(old(panel).replying_to->0),
            )
            &&& old(panel).open && !replies && trimmed(composer@).len() > 0 ==> writes == Some(
                CommentTyping::NewThread,
            )
            &&& !replies && trimmed(composer@).len() == 0 ==> writes is None
            &&& publish is Some <==> writes != old(panel).published_typing
            &&& publish matches Some(published) ==> published == writes
        }),
{
}

proof fn lemma_listed(panel: CommentsPanel, resolved: bool, k: int)
    requires
        0 <= k <= panel.threads@.len(),
    ensures
        places_are(
            listed_indices(panel, resolved, k),
            |i: int|
                panel.threads@[i].resolved == resolved && (panel.filter_mine
                    ==> panel.threads@[i].author_user_id == Some(panel.author_user_id)),
            k,
        ),
    decreases k,
{
    let picks = |i: int|
        panel.threads@[i].resolved == resolved && (panel.filter_mine
            ==> panel.threads@[i].author_user_id == Some(panel.author_user_id));
    if k > 0 {
        lemma_listed(panel, resolved, k - 1);
        lemma_place_added(listed_indices(panel, resolved, k - 1), picks, k - 1);
        assert(picks(k - 1) == crate::comments_view::listed(
            panel,
            panel.threads@[k - 1],
            resolved,
        ));
    }
}

/// A card is that of a thread: it shows the thread's messages, in order, each
/// as it was written unless it was deleted, and lets an author change what is
/// that author's own and nothing else.
pub open spec fn card_of(card: ThreadView, panel: CommentsPanel, thread: CommentThread) -> bool {
    &&& card.comment_id == thread.comment_id
    &&& card.resolved == thread.resolved
    &&& card.unread == panel.unread_threads@.contains(thread.comment_id)
    &&& card.can_jump <==> thread.anchor is Some
    &&& card.orphaned <==> thread.anchor is None && !thread.general
    &&& card.can_delete <==> thread.author_user_id == Some(panel.author_user_id)
    &&& card.messages@.len() == thread.messages@.len()
    &&& forall|m: int|
        0 <= m < thread.messages@.len() ==> {
            let shown = #[trigger] card.messages@[m];
            let message = thread.messages@[m];
            &&& shown.message_id == message.message_id
            &&& shown.author@ == message.author_display_name@
            &&& !message.deleted ==> shown.body@ == message.body@
            &&& message.deleted ==> shown.body@ == "message deleted"@
            &&& shown.can_change ==> message.author_user_id == panel.author_user_id
                && !message.deleted
            &&& message.author_user_id == panel.author_user_id && !message.deleted
                && panel.editing_message is None ==> shown.can_change
        }
}

/// Every open thread has its card, in order, and with the filter on those that
/// the author started; resolved threads show only where they are unfolded.
pub proof fn every_open_thread_has_its_card(
    panel: CommentsPanel,
    has_selection: bool,
    caret: Option<DocumentOffset>,
    roster: Vec<TypingPeer>,
    view: CommentsView,
) -> (places: Seq<int>)
    requires
        call_ensures(CommentsPanel::render, (&panel, has_selection, caret, &roster), view),
    ensures
        places_are(
            places,
            |i: int|
                panel.threads@[i].resolved == false && (panel.filter_mine
                    ==> panel.threads@[i].author_user_id == Some(panel.author_user_id)),
            panel.threads@.len() as int,
        ),
        view.open_threads@.len() == places.len(),
        forall|p: int|
            0 <= p < places.len() ==> card_of(
                #[trigger] view.open_threads@[p],
                panel,
                panel.threads@[places[p]],
            ),
        !panel.show_resolved ==> view.resolved_threads@.len() == 0,
        view.send_disabled <==> panel.composer_busy || !panel.attached,
{
    let total = panel.threads@.len() as int;
    lemma_listed(panel, false, total);
    let places = listed_indices(panel, false, total);
    assert forall|p: int| 0 <= p < places.len() implies card_of(
        #[trigger] view.open_threads@[p],
        panel,
        panel.threads@[places[p]],
    ) by {
        let card = view.open_threads@[p];
        let thread = panel.threads@[places[p]];
        assert forall|m: int| 0 <= m < thread.messages@.len() implies {
            let shown = #[trigger] card.messages@[m];
            let message = thread.messages@[m];
            &&& shown.message_id == message.message_id
            &&& shown.author@ == message.author_display_name@
            &&& !message.deleted ==> shown.body@ == message.body@
            &&& message.deleted ==> shown.body@ == "message deleted"@
            &&& shown.can_change ==> message.author_user_id == panel.author_user_id
                && !message.deleted
            &&& message.author_user_id == panel.author_user_id && !message.deleted
                && panel.editing_message is None ==> shown.can_change
        } by {
            assert(crate::comments_view::message_shown(
                card.messages@[m],
                panel,
                thread.comment_id,
                thread.messages@[m],
            ));
        }
    }
    places
}

} // verus!
