//! Review comments: their threads, what is new in them, and the rail panel
//! that shows and answers them.

use crate::document_panel::{DocumentOffset, DocumentRange};
use crate::pane::PanelId;
use crate::text::{same_text, trim, trimmed};
use std::collections::{HashMap, HashSet};
use vstd::prelude::*;
use vstd::string::StringExecFns;

verus! {

#[derive(Debug)]
pub struct CommentMessage {
    pub message_id: u128,
    pub author_user_id: u128,
    pub author_display_name: String,
    pub body: String,
    pub created_at_unix_secs: i64,
    pub updated_at_unix_secs: i64,
    pub deleted: bool,
}

#[derive(Debug)]
pub struct CommentThread {
    pub comment_id: u128,
    pub author_user_id: Option<u128>,
    /// A note on the document as a whole.
    pub general: bool,
    /// The commented text, while it is there.
    pub anchor: Option<DocumentRange>,
    pub quoted_text: String,
    pub resolved: bool,
    pub created_at_unix_secs: i64,
    pub updated_at_unix_secs: i64,
    pub messages: Vec<CommentMessage>,
}

/// What someone is writing.
#[derive(Clone, Copy, Debug, PartialEq, Eq, Structural)]
pub enum CommentTyping {
    NewThread,
    InThread(u128),
}

/// A collaborator who is writing.
#[derive(Debug)]
pub struct TypingPeer {
    pub name: String,
    pub color_rgb: u32,
    pub typing: CommentTyping,
}

/// A mark drawn under commented text.
#[derive(Clone, Copy, Debug, PartialEq, Eq, Structural)]
pub struct ReviewMark {
    pub range: DocumentRange,
    pub color_rgb: u32,
}

/// The colour of every review mark.
pub const COMMENT_MARK_RGB: u32 = 0x00d9_9a20;

pub open spec fn later(a: int, b: int) -> int {
    if a >= b {
        a
    } else {
        b
    }
}

/// The newest stamp of a thread's first `k` messages and of the thread.
pub open spec fn newest_stamp(thread: CommentThread, k: int) -> int
    decreases k,
{
    if k <= 0 {
        later(thread.updated_at_unix_secs as int, thread.created_at_unix_secs as int)
    } else {
        let message = thread.messages@[k - 1];
        later(
            newest_stamp(thread, k - 1),
            later(message.updated_at_unix_secs as int, message.created_at_unix_secs as int),
        )
    }
}

/// A thread's newest activity.
pub open spec fn latest_activity(thread: CommentThread) -> int {
    newest_stamp(thread, thread.messages@.len() as int)
}

fn later_of(a: i64, b: i64) -> (stamp: i64)
    ensures
        stamp == later(a as int, b as int),
{
    if a >= b {
        a
    } else {
        b
    }
}

/// A thread's newest activity.
pub fn thread_latest_activity(thread: &CommentThread) -> (stamp: i64)
    ensures
        stamp == latest_activity(*thread),
{
    let mut stamp: i64 = later_of(thread.updated_at_unix_secs, thread.created_at_unix_secs);
    let mut next: usize = 0;
    while next < thread.messages.len()
        invariant
            next <= thread.messages@.len(),
            stamp == newest_stamp(*thread, next as int),
        decreases thread.messages@.len() - next,
    {
        let message = &thread.messages[next];
        stamp =
        later_of(stamp, later_of(message.updated_at_unix_secs, message.created_at_unix_secs));
        next = next + 1;
    }
    stamp
}

/// No message of a thread is newer than its newest activity.
pub proof fn activity_covers_every_message(thread: CommentThread, i: int)
    requires
        0 <= i < thread.messages@.len(),
    ensures
        thread.messages@[i].created_at_unix_secs <= latest_activity(thread),
        thread.messages@[i].updated_at_unix_secs <= latest_activity(thread),
        thread.created_at_unix_secs <= latest_activity(thread),
{
    lemma_newest_covers(thread, i, thread.messages@.len() as int);
}

proof fn lemma_newest_covers(thread: CommentThread, i: int, k: int)
    requires
        0 <= i < k <= thread.messages@.len(),
    ensures
        thread.messages@[i].created_at_unix_secs <= newest_stamp(thread, k),
        thread.messages@[i].updated_at_unix_secs <= newest_stamp(thread, k),
        thread.created_at_unix_secs <= newest_stamp(thread, k),
    decreases k,
{
    if k - 1 > i {
        lemma_newest_covers(thread, i, k - 1);
    } else {
        lemma_newest_start(thread, k - 1);
    }
}

proof fn lemma_newest_start(thread: CommentThread, k: int)
    requires
        0 <= k <= thread.messages@.len(),
    ensures
        thread.created_at_unix_secs <= newest_stamp(thread, k),
    decreases k,
{
    if k > 0 {
        lemma_newest_start(thread, k - 1);
    }
}

/// Which activity of which thread has been seen.
#[derive(Debug)]
pub struct CommentReadState {
    pub last_seen: HashMap<u128, i64>,
}

/// The thread has activity that the seen stamps do not cover.
pub open spec fn is_unseen(seen: Map<u128, i64>, thread: CommentThread) -> bool {
    !seen.contains_key(thread.comment_id) || latest_activity(thread) > seen[thread.comment_id]
}

/// Threads among the first `k` with unseen activity.
pub open spec fn unseen_count(seen: Map<u128, i64>, threads: Seq<CommentThread>, k: int) -> int
    decreases k,
{
    if k <= 0 {
        0
    } else {
        unseen_count(seen, threads, k - 1) + (if is_unseen(seen, threads[k - 1]) {
            1int
        } else {
            0
        })
    }
}

/// The stamps with the first `k` threads' newest activity recorded.
pub open spec fn seen_after(seen: Map<u128, i64>, threads: Seq<CommentThread>, k: int) -> Map<
    u128,
    i64,
>
    decreases k,
{
    if k <= 0 {
        seen
    } else {
        seen_after(seen, threads, k - 1).insert(
            threads[k - 1].comment_id,
            latest_activity(threads[k - 1]) as i64,
        )
    }
}

impl CommentReadState {
    fn unseen(&self, thread: &CommentThread) -> (b: bool)
        ensures
            b == is_unseen(self.last_seen@, *thread),
    {
        broadcast use vstd::std_specs::hash::group_hash_axioms;

        match self.last_seen.get(&thread.comment_id) {
            Some(stamp) => thread_latest_activity(thread) > *stamp,
            None => true,
        }
    }

    /// The count that the closed rail's badge shows.
    pub fn unread_comment_count(&self, threads: &Vec<CommentThread>) -> (count: usize)
        ensures
            count == unseen_count(self.last_seen@, threads@, threads@.len() as int),
    {
        let mut count: usize = 0;
        let mut next: usize = 0;
        while next < threads.len()
            invariant
                next <= threads@.len(),
                count <= next,
                count == unseen_count(self.last_seen@, threads@, next as int),
            decreases threads@.len() - next,
        {
            if self.unseen(&threads[next]) {
                count = count + 1;
            }
            next = next + 1;
        }
        count
    }

    /// Records the threads' newest activity as seen.
    pub fn mark_comment_threads_seen(&mut self, threads: &Vec<CommentThread>)
        ensures
            final(self).last_seen@ == seen_after(
                old(self).last_seen@,
                threads@,
                threads@.len() as int,
            ),
    {
        broadcast use vstd::std_specs::hash::group_hash_axioms;

        let mut next: usize = 0;
        while next < threads.len()
            invariant
                next <= threads@.len(),
                self.last_seen@ == seen_after(old(self).last_seen@, threads@, next as int),
            decreases threads@.len() - next,
        {
            let stamp: i64 = thread_latest_activity(&threads[next]);
            self.last_seen.insert(threads[next].comment_id, stamp);
            next = next + 1;
        }
    }
}

/// Viewed threads leave no badge behind: once they are marked seen none of
/// them is unread, provided no two threads share an id.
pub proof fn viewing_clears_the_badge(seen: Map<u128, i64>, threads: Seq<CommentThread>)
    requires
        forall|i: int, j: int|
            0 <= i < j < threads.len() ==> (#[trigger] threads[i]).comment_id != (
            #[trigger] threads[j]).comment_id,
        forall|i: int|
            0 <= i < threads.len() ==> i64::MIN <= latest_activity(#[trigger] threads[i])
                <= i64::MAX,
    ensures
        unseen_count(
            seen_after(seen, threads, threads.len() as int),
            threads,
            threads.len() as int,
        ) == 0,
{
    let after = seen_after(seen, threads, threads.len() as int);
    assert forall|i: int| 0 <= i < threads.len() implies !is_unseen(
        after,
        #[trigger] threads[i],
    ) by {
        lemma_seen_records(seen, threads, i, threads.len() as int);
    }
    lemma_none_unseen(after, threads, threads.len() as int);
}

proof fn lemma_seen_records(seen: Map<u128, i64>, threads: Seq<CommentThread>, i: int, k: int)
    requires
        0 <= i < k <= threads.len(),
        forall|a: int, b: int|
            0 <= a < b < threads.len() ==> (#[trigger] threads[a]).comment_id != (
            #[trigger] threads[b]).comment_id,
    ensures
        seen_after(seen, threads, k).contains_key(threads[i].comment_id),
        seen_after(seen, threads, k)[threads[i].comment_id] == latest_activity(threads[i]) as i64,
    decreases k,
{
    if i < k - 1 {
        lemma_seen_records(seen, threads, i, k - 1);
        assert(threads[i].comment_id != threads[k - 1].comment_id);
    }
}

proof fn lemma_none_unseen(seen: Map<u128, i64>, threads: Seq<CommentThread>, k: int)
    requires
        0 <= k <= threads.len(),
        forall|i: int| 0 <= i < threads.len() ==> !is_unseen(seen, #[trigger] threads[i]),
    ensures
        unseen_count(seen, threads, k) == 0,
    decreases k,
{
    if k > 0 {
        lemma_none_unseen(seen, threads, k - 1);
        assert(!is_unseen(seen, threads[k - 1]));
    }
}

/// The marks of the first `k` threads: one for each that is unresolved and
/// still has its text.
pub open spec fn marks_of(threads: Seq<CommentThread>, k: int) -> Seq<ReviewMark>
    decreases k,
{
    if k <= 0 {
        Seq::empty()
    } else {
        let thread = threads[k - 1];
        if !thread.resolved && thread.anchor is Some {
            marks_of(threads, k - 1).push(
                ReviewMark { range: thread.anchor->0, color_rgb: COMMENT_MARK_RGB },
            )
        } else {
            marks_of(threads, k - 1)
        }
    }
}

/// The marks to draw for the threads.
pub fn refresh_comment_annotations(threads: &Vec<CommentThread>) -> (marks: Vec<ReviewMark>)
    ensures
        marks@ == marks_of(threads@, threads@.len() as int),
{
    let mut marks: Vec<ReviewMark> = Vec::new();
    let mut next: usize = 0;
    while next < threads.len()
        invariant
            next <= threads@.len(),
            marks@ == marks_of(threads@, next as int),
        decreases threads@.len() - next,
    {
        if !threads[next].resolved {
            if let Some(range) = threads[next].anchor {
                marks.push(ReviewMark { range, color_rgb: COMMENT_MARK_RGB });
            }
        }
        next = next + 1;
    }
    marks
}

/// One place of a document is not behind another.
pub open spec fn at_or_before(a: DocumentOffset, b: DocumentOffset) -> bool {
    a.paragraph < b.paragraph || (a.paragraph == b.paragraph && a.byte <= b.byte)
}

fn not_behind(a: DocumentOffset, b: DocumentOffset) -> (r: bool)
    ensures
        r == at_or_before(a, b),
{
    a.paragraph < b.paragraph || (a.paragraph == b.paragraph && a.byte <= b.byte)
}

/// The caret stands in the thread's text and the thread is open.
pub open spec fn links_to(thread: CommentThread, caret: DocumentOffset) -> bool {
    !thread.resolved && (thread.anchor matches Some(range) && at_or_before(range.start, caret)
        && at_or_before(caret, range.end))
}

/// The first thread that links to the caret.
pub open spec fn linked_id(threads: Seq<CommentThread>, caret: DocumentOffset, from: int) -> Option<
    u128,
>
    decreases threads.len() - from,
{
    if from < 0 || from >= threads.len() {
        None
    } else if links_to(threads[from], caret) {
        Some(threads[from].comment_id)
    } else {
        linked_id(threads, caret, from + 1)
    }
}

/// The first thread that links to the caret.
pub fn linked_thread(threads: &Vec<CommentThread>, caret: DocumentOffset) -> (linked: Option<u128>)
    ensures
        linked == linked_id(threads@, caret, 0),
{
    let mut next: usize = 0;
    while next < threads.len()
        invariant
            next <= threads@.len(),
            linked_id(threads@, caret, 0) == linked_id(threads@, caret, next as int),
        decreases threads@.len() - next,
    {
        let thread = &threads[next];
        if !thread.resolved {
            if let Some(range) = thread.anchor {
                if not_behind(range.start, caret) && not_behind(caret, range.end) {
                    assert(links_to(threads@[next as int], caret));
                    return Some(thread.comment_id);
                }
            }
        }
        next = next + 1;
    }
    None
}

/// The first thread of an id.
pub open spec fn thread_index(threads: Seq<CommentThread>, id: u128, from: int) -> Option<int>
    decreases threads.len() - from,
{
    if from < 0 || from >= threads.len() {
        None
    } else if threads[from].comment_id == id {
        Some(from)
    } else {
        thread_index(threads, id, from + 1)
    }
}

fn find_thread(threads: &Vec<CommentThread>, id: u128) -> (found: Option<usize>)
    ensures
        match found {
            Some(ix) => thread_index(threads@, id, 0) == Some(ix as int) && ix < threads@.len(),
            None => thread_index(threads@, id, 0) is None,
        },
{
    let mut next: usize = 0;
    while next < threads.len()
        invariant
            next <= threads@.len(),
            thread_index(threads@, id, 0) == thread_index(threads@, id, next as int),
        decreases threads@.len() - next,
    {
        if threads[next].comment_id == id {
            return Some(next);
        }
        next = next + 1;
    }
    None
}

/// The first message of an id.
pub open spec fn message_index(messages: Seq<CommentMessage>, id: u128, from: int) -> Option<int>
    decreases messages.len() - from,
{
    if from < 0 || from >= messages.len() {
        None
    } else if messages[from].message_id == id {
        Some(from)
    } else {
        message_index(messages, id, from + 1)
    }
}

fn find_message(messages: &Vec<CommentMessage>, id: u128) -> (found: Option<usize>)
    ensures
        match found {
            Some(ix) => message_index(messages@, id, 0) == Some(ix as int) && ix < messages@.len(),
            None => message_index(messages@, id, 0) is None,
        },
{
    let mut next: usize = 0;
    while next < messages.len()
        invariant
            next <= messages@.len(),
            message_index(messages@, id, 0) == message_index(messages@, id, next as int),
        decreases messages@.len() - next,
    {
        if messages[next].message_id == id {
            return Some(next);
        }
        next = next + 1;
    }
    None
}

/// What a panel does when its document changes.
#[derive(Clone, Copy, Debug, PartialEq, Eq, Structural)]
pub struct ContextChange {
    /// The editor whose marks go.
    pub clear_marks_of: Option<u128>,
    pub observation: EditorObservation,
    pub reload: bool,
}

#[derive(Clone, Copy, Debug, PartialEq, Eq, Structural)]
pub enum EditorObservation {
    Keep,
    Observe(u128),
    Stop,
}

/// A comment to create.
#[derive(Debug)]
pub struct NewComment {
    pub body: String,
    /// The text commented on; none for a general note.
    pub selection: Option<DocumentRange>,
    /// What to publish of the author's typing, where that changes.
    pub typing: Option<Option<CommentTyping>>,
}

/// A reply that leaves its box.
#[derive(Debug)]
pub struct SentReply {
    /// What goes out; nothing where the thread is busy or the document's
    /// service is not there.
    pub body: Option<String>,
    /// What to publish of the author's typing, where that changes.
    pub typing: Option<Option<CommentTyping>>,
}

/// What closing the panel leaves to be done.
#[derive(Debug)]
pub struct Detached {
    /// The editor whose marks go.
    pub clear_marks_of: Option<u128>,
    /// What to publish of the author's typing, where that changes.
    pub typing: Option<Option<CommentTyping>>,
}

/// The rail panel's state.
#[derive(Debug)]
pub struct CommentsPanel {
    /// The document's service is there.
    pub attached: bool,
    pub editor: Option<u128>,
    pub panel_id: Option<PanelId>,
    pub author_user_id: u128,
    pub author_display_name: String,
    pub threads: Vec<CommentThread>,
    pub loading: bool,
    pub busy_threads: HashSet<u128>,
    pub composer_busy: bool,
    pub error: Option<String>,
    pub replying_to: Option<u128>,
    pub editing_message: Option<(u128, u128)>,
    pub show_resolved: bool,
    pub filter_mine: bool,
    pub refresh_generation: u64,
    pub refresh_pending: bool,
    pub open: bool,
    pub unread_threads: HashSet<u128>,
    pub published_typing: Option<CommentTyping>,
}

/// A message with a text before it.
pub open spec fn failure_text(what: Seq<char>, error: Seq<char>) -> Seq<char> {
    what + error
}

pub(crate) fn failure(what: &str, error: &str) -> (text: String)
    ensures
        text@ == failure_text(what@, error@),
{
    let mut text = String::from_str(what);
    text.append(error);
    text
}

/// Ids among the first `k` threads with unseen activity.
pub open spec fn unseen_ids(seen: Map<u128, i64>, threads: Seq<CommentThread>, k: int) -> Set<u128>
    decreases k,
{
    if k <= 0 {
        Set::empty()
    } else if is_unseen(seen, threads[k - 1]) {
        unseen_ids(seen, threads, k - 1).insert(threads[k - 1].comment_id)
    } else {
        unseen_ids(seen, threads, k - 1)
    }
}

impl CommentsPanel {
    /// A closed panel for an author.
    pub fn new(author_user_id: u128, author_display_name: String) -> (panel: Self)
        ensures
            !panel.attached,
            panel.editor is None,
            panel.panel_id is None,
            panel.author_user_id == author_user_id,
            panel.author_display_name == author_display_name,
            panel.threads@.len() == 0,
            !panel.loading,
            panel.busy_threads@ == Set::<u128>::empty(),
            !panel.composer_busy,
            panel.error is None,
            panel.replying_to is None,
            panel.editing_message is None,
            !panel.show_resolved,
            !panel.filter_mine,
            panel.refresh_generation == 0,
            !panel.refresh_pending,
            !panel.open,
            panel.unread_threads@ == Set::<u128>::empty(),
            panel.published_typing is None,
    {
        CommentsPanel {
            attached: false,
            editor: None,
            panel_id: None,
            author_user_id,
            author_display_name,
            threads: Vec::new(),
            loading: false,
            busy_threads: HashSet::new(),
            composer_busy: false,
            error: None,
            replying_to: None,
            editing_message: None,
            show_resolved: false,
            filter_mine: false,
            refresh_generation: 0,
            refresh_pending: false,
            open: false,
            unread_threads: HashSet::new(),
            published_typing: None,
        }
    }

    /// Threads that carry the new-activity dot.
    #[must_use]
    pub fn unread_thread_count(&self) -> (count: usize)
        ensures
            count == self.unread_threads@.len(),
    {
        broadcast use vstd::std_specs::hash::group_hash_axioms;

        self.unread_threads.len()
    }

    /// What others should see that this author writes.
    pub open spec fn typing(self, composer: Seq<char>, reply: Seq<char>) -> Option<CommentTyping> {
        if !self.open {
            None
        } else if self.replying_to is Some && trimmed(reply).len() > 0 {
            Some(CommentTyping::InThread(self.replying_to->0))
        } else if trimmed(composer).len() > 0 {
            Some(CommentTyping::NewThread)
        } else {
            None
        }
    }

    /// What is left to publish for others to see `typing`.
    pub open spec fn unpublished(self, typing: Option<CommentTyping>) -> Option<
        Option<CommentTyping>,
    > {
        if self.published_typing == typing {
            None
        } else {
            Some(typing)
        }
    }

    /// Compares what is written with what was published; hands back what to
    /// publish where they differ.
    pub fn sync_typing_state(&mut self, composer: &str, reply: &str) -> (publish: Option<
        Option<CommentTyping>,
    >)
        ensures
            publish == old(self).unpublished(old(self).typing(composer@, reply@)),
            *final(self) == (CommentsPanel {
                published_typing: old(self).typing(composer@, reply@),
                ..*old(self)
            }),
    {
        let reply_text = trim(reply);
        let composer_text = trim(composer);
        let desired: Option<CommentTyping> = if !self.open {
            None
        } else {
            match self.replying_to {
                Some(thread) if !reply_text.as_str().is_empty() => Some(
                    CommentTyping::InThread(thread),
                ),
                _ => if !composer_text.as_str().is_empty() {
                    Some(CommentTyping::NewThread)
                } else {
                    None
                },
            }
        };
        let same = match (self.published_typing, desired) {
            (None, None) => true,
            (Some(CommentTyping::NewThread), Some(CommentTyping::NewThread)) => true,
            (Some(CommentTyping::InThread(a)), Some(CommentTyping::InThread(b))) => a == b,
            _ => false,
        };
        if same {
            return None;
        }
        self.published_typing = desired;
        Some(desired)
    }

    /// Takes the document on top. Another document, or its service coming or
    /// going, drops the threads; either that or reopening the panel reloads
    /// them. Marks never stay on an editor that is left. An open panel is
    /// live: the editor is observed anew when it is another one, or when the
    /// panel had stopped observing it by closing.
    pub fn set_context(&mut self, attached: bool, editor: Option<u128>, panel_id: Option<PanelId>) -> (
        change: ContextChange)
        ensures
            ({
                let changed = old(self).panel_id != panel_id || old(self).attached != attached;
                &&& change.clear_marks_of == (if changed && old(self).editor != editor {
                    old(self).editor
                } else {
                    None
                })
                &&& change.observation == (match editor {
                    None => EditorObservation::Stop,
                    Some(id) => if old(self).open && old(self).editor == Some(id) {
                        EditorObservation::Keep
                    } else {
                        EditorObservation::Observe(id)
                    },
                })
                &&& change.reload == (changed || !old(self).open)
                &&& changed ==> final(self).threads@.len() == 0 && final(self).error is None
                &&& *final(self) == (CommentsPanel {
                    open: true,
                    attached,
                    editor,
                    panel_id,
                    threads: if changed {
                        final(self).threads
                    } else {
                        old(self).threads
                    },
                    error: if changed {
                        None
                    } else {
                        old(self).error
                    },
                    ..*old(self)
                })
            }),
    {
        let changed = self.panel_id != panel_id || self.attached != attached;
        let reopened = !self.open;
        self.open = true;
        self.attached = attached;
        let clear_marks_of = if changed && self.editor != editor {
            self.editor
        } else {
            None
        };
        let observation = match editor {
            None => EditorObservation::Stop,
            Some(id) => if !reopened && self.editor == Some(id) {
                EditorObservation::Keep
            } else {
                EditorObservation::Observe(id)
            },
        };
        self.editor = editor;
        self.panel_id = panel_id;
        if changed {
            self.threads = Vec::new();
            self.error = None;
        }
        ContextChange { clear_marks_of, observation, reload: changed || reopened }
    }

    /// Ends review: the dots and the author's typing are gone, and the marks
    /// of the editor handed back go too. Nothing happens to a panel that is
    /// closed already.
    pub fn detach(&mut self) -> (detached: Detached)
        ensures
            !old(self).open ==> detached.clear_marks_of is None && detached.typing is None
                && *final(self) == *old(self),
            old(self).open ==> {
                &&& detached.clear_marks_of == old(self).editor
                &&& detached.typing == old(self).unpublished(None)
                &&& final(self).unread_threads@ == Set::<u128>::empty()
                &&& *final(self) == (CommentsPanel {
                    open: false,
                    unread_threads: final(self).unread_threads,
                    published_typing: None,
                    ..*old(self)
                })
            },
    {
        if !self.open {
            return Detached { clear_marks_of: None, typing: None };
        }
        self.open = false;
        self.unread_threads = HashSet::new();
        let typing = self.sync_typing_state("", "");
        Detached { clear_marks_of: self.editor, typing }
    }

    /// The marks to draw in the editor; none to push while the panel is
    /// closed or has no editor.
    pub fn push_editor_marks(&self) -> (marks: Option<Vec<ReviewMark>>)
        ensures
            match marks {
                Some(marks) => self.open && self.editor is Some && marks@ == marks_of(
                    self.threads@,
                    self.threads@.len() as int,
                ),
                None => !self.open || self.editor is None,
            },
    {
        if self.editor.is_none() || !self.open {
            return None;
        }
        Some(refresh_comment_annotations(&self.threads))
    }

    /// An edit asks for a reload: at most one is pending, and only where the
    /// document's service is there.
    pub fn schedule_refresh(&mut self) -> (scheduled: bool)
        ensures
            scheduled == (!old(self).refresh_pending && old(self).attached),
            *final(self) == (CommentsPanel {
                refresh_pending: old(self).refresh_pending || old(self).attached,
                ..*old(self)
            }),
    {
        if self.refresh_pending || !self.attached {
            return false;
        }
        self.refresh_pending = true;
        true
    }

    /// The pending reload is due.
    pub fn refresh_due(&mut self)
        ensures
            *final(self) == (CommentsPanel { refresh_pending: false, ..*old(self) }),
    {
        self.refresh_pending = false;
    }

    /// Starts a reload and hands back its number, none without a service. A
    /// panel with threads shows them meanwhile.
    pub fn reload(&mut self) -> (generation: Option<u64>)
        ensures
            match generation {
                None => !old(self).attached && *final(self) == *old(self),
                Some(generation) => {
                    &&& old(self).attached
                    &&& generation == old(self).refresh_generation.wrapping_add(1)
                    &&& *final(self) == (CommentsPanel {
                        refresh_generation: generation,
                        loading: old(self).threads@.len() == 0,
                        ..*old(self)
                    })
                },
            },
    {
        if !self.attached {
            return None;
        }
        self.refresh_generation = self.refresh_generation.wrapping_add(1);
        self.loading = self.threads.len() == 0;
        Some(self.refresh_generation)
    }

    /// Takes what a reload brought, unless a later one has started. Threads
    /// with unseen activity get their dot and all threads count as seen then.
    pub fn finish_reload(
        &mut self,
        generation: u64,
        result: Result<Vec<CommentThread>, String>,
        read_state: &mut CommentReadState,
    ) -> (taken: bool)
        ensures
            taken == (old(self).refresh_generation == generation),
            !taken ==> *final(self) == *old(self) && *final(read_state) == *old(read_state),
            taken ==> match result {
                Ok(threads) => {
                    &&& final(read_state).last_seen@ == seen_after(
                        old(read_state).last_seen@,
                        threads@,
                        threads@.len() as int,
                    )
                    &&& final(self).unread_threads@ == old(self).unread_threads@.union(
                        unseen_ids(old(read_state).last_seen@, threads@, threads@.len() as int),
                    )
                    &&& *final(self) == (CommentsPanel {
                        threads,
                        error: None,
                        loading: false,
                        unread_threads: final(self).unread_threads,
                        ..*old(self)
                    })
                },
                Err(error) => {
                    &&& *final(read_state) == *old(read_state)
                    &&& final(self).error is Some
                    &&& (final(self).error->0)@ == failure_text(
                        "Loading comments failed: "@,
                        error@,
                    )
                    &&& *final(self) == (CommentsPanel {
                        error: final(self).error,
                        loading: false,
                        ..*old(self)
                    })
                },
            },
    {
        broadcast use vstd::std_specs::hash::group_hash_axioms;

        if self.refresh_generation != generation {
            return false;
        }
        self.loading = false;
        match result {
            Ok(threads) => {
                let ghost dots = self.unread_threads@;
                let ghost seen = read_state.last_seen@;
                let mut next: usize = 0;
                assert(dots.union(Set::empty()) =~= dots);
                while next < threads.len()
                    invariant
                        next <= threads@.len(),
                        read_state.last_seen@ == seen,
                        *read_state == *old(read_state),
                        *self == (CommentsPanel {
                            loading: false,
                            unread_threads: self.unread_threads,
                            ..*old(self)
                        }),
                        self.unread_threads@ == dots.union(
                            unseen_ids(seen, threads@, next as int),
                        ),
                    decreases threads@.len() - next,
                {
                    if read_state.unseen(&threads[next]) {
                        self.unread_threads.insert(threads[next].comment_id);
                    }
                    assert(self.unread_threads@ =~= dots.union(
                        unseen_ids(seen, threads@, next + 1),
                    ));
                    next = next + 1;
                }
                read_state.mark_comment_threads_seen(&threads);
                self.threads = threads;
                self.error = None;
            },
            Err(error) => {
                self.error = Some(failure("Loading comments failed: ", error.as_str()));
            },
        }
        true
    }

    /// Sends what the composer holds: nothing without a service, an empty
    /// text or while another is on its way. The composer is cleared with it,
    /// so the author no longer shows as writing there.
    pub fn create_comment(
        &mut self,
        composer: &str,
        reply: &str,
        selection: Option<DocumentRange>,
    ) -> (comment: Option<NewComment>)
        ensures
            match comment {
                None => (!old(self).attached || trimmed(composer@).len() == 0
                    || old(self).composer_busy) && *final(self) == *old(self),
                Some(comment) => {
                    let typing = old(self).typing(Seq::empty(), reply@);
                    &&& old(self).attached && trimmed(composer@).len() > 0
                        && !old(self).composer_busy
                    &&& comment.body@ == trimmed(composer@)
                    &&& comment.selection == (match selection {
                        Some(range) => if range.start != range.end {
                            Some(range)
                        } else {
                            None
                        },
                        None => None,
                    })
                    &&& comment.typing == old(self).unpublished(typing)
                    &&& *final(self) == (CommentsPanel {
                        composer_busy: true,
                        published_typing: typing,
                        ..*old(self)
                    })
                },
            },
    {
        if !self.attached {
            return None;
        }
        let body = trim(composer);
        if body.as_str().is_empty() || self.composer_busy {
            return None;
        }
        let selection = match selection {
            Some(range) => if range.start != range.end {
                Some(range)
            } else {
                None
            },
            None => None,
        };
        self.composer_busy = true;
        proof {
            reveal_strlit("");
            assert(""@ =~= Seq::<char>::empty());
        }
        let typing = self.sync_typing_state("", reply);
        Some(NewComment { body, selection, typing })
    }

    /// A sent comment was taken or failed; a taken one reloads the threads.
    pub fn comment_created(&mut self, result: Result<(), String>) -> (reload: bool)
        ensures
            reload == (result is Ok),
            match result {
                Ok(_) => *final(self) == (CommentsPanel { composer_busy: false, ..*old(self) }),
                Err(error) => {
                    &&& final(self).error is Some
                    &&& (final(self).error->0)@ == failure_text("Comment failed: "@, error@)
                    &&& *final(self) == (CommentsPanel {
                        composer_busy: false,
                        error: final(self).error,
                        ..*old(self)
                    })
                },
            },
    {
        self.composer_busy = false;
        match result {
            Ok(_) => true,
            Err(error) => {
                self.error = Some(failure("Comment failed: ", error.as_str()));
                false
            },
        }
    }

    /// An action on a thread may start: the document's service is there, and
    /// no other is under way on it.
    pub open spec fn starts(self, comment_id: u128) -> bool {
        self.attached && !self.busy_threads@.contains(comment_id)
    }

    /// The threads with an action under way, once one may have started.
    pub open spec fn started(self, then: CommentsPanel, comment_id: u128) -> bool {
        then.busy_threads@ == (if self.attached {
            self.busy_threads@.insert(comment_id)
        } else {
            self.busy_threads@
        })
    }

    /// Starts an action on a thread: one at a time for each thread, and only
    /// with a service.
    pub fn thread_action(&mut self, comment_id: u128) -> (started: bool)
        ensures
            started == old(self).starts(comment_id),
            old(self).started(*final(self), comment_id),
            *final(self) == (CommentsPanel {
                busy_threads: final(self).busy_threads,
                ..*old(self)
            }),
    {
        broadcast use vstd::std_specs::hash::group_hash_axioms;

        if !self.attached {
            return false;
        }
        self.busy_threads.insert(comment_id)
    }

    /// The question before a thread is deleted was answered: only its first
    /// button starts the deletion.
    pub fn delete_thread(&mut self, comment_id: u128, button: Option<usize>) -> (started: bool)
        ensures
            started == (button == Some(0usize) && old(self).attached && !old(self).busy_threads@.contains(comment_id)),
            final(self).busy_threads@ == (if button == Some(0usize) && old(self).attached {
                old(self).busy_threads@.insert(comment_id)
            } else {
                old(self).busy_threads@
            }),
            *final(self) == (CommentsPanel {
                busy_threads: final(self).busy_threads,
                ..*old(self)
            }),
    {
        match button {
            Some(0) => self.thread_action(comment_id),
            _ => false,
        }
    }

    /// A thread's action ended; the threads reload either way.
    pub fn finish_thread_action(&mut self, comment_id: u128, result: Result<(), String>)
        ensures
            final(self).busy_threads@ == old(self).busy_threads@.remove(comment_id),
            match result {
                Ok(_) => final(self).error == old(self).error,
                Err(error) => final(self).error is Some && (final(self).error->0)@ == failure_text(
                    "Comment action failed: "@,
                    error@,
                ),
            },
            *final(self) == (CommentsPanel {
                busy_threads: final(self).busy_threads,
                error: final(self).error,
                ..*old(self)
            }),
    {
        broadcast use vstd::std_specs::hash::group_hash_axioms;

        self.busy_threads.remove(&comment_id);
        if let Err(error) = result {
            self.error = Some(failure("Comment action failed: ", error.as_str()));
        }
    }

    /// Where jumping to a thread leads: its text, where the panel has an
    /// editor and the text is still there.
    pub fn jump_to(&self, comment_id: u128) -> (range: Option<DocumentRange>)
        ensures
            range == (match thread_index(self.threads@, comment_id, 0) {
                Some(ix) => if self.editor is Some {
                    self.threads@[ix].anchor
                } else {
                    None
                },
                None => None,
            }),
    {
        match find_thread(&self.threads, comment_id) {
            Some(ix) => if self.editor.is_some() {
                self.threads[ix].anchor
            } else {
                None
            },
            None => None,
        }
    }

    /// Enter without shift sends the composer.
    pub fn on_composer_key(&self, key: &str, shift: bool) -> (submits: bool)
        ensures
            submits == (key@ == "enter"@ && !shift),
    {
        same_text(key, "enter") && !shift
    }

    /// Shows only the author's own threads, or all again.
    pub fn toggle_mine(&mut self)
        ensures
            *final(self) == (CommentsPanel { filter_mine: !old(self).filter_mine, ..*old(self) }),
    {
        self.filter_mine = !self.filter_mine;
    }

    /// Unfolds the resolved threads, or folds them away.
    pub fn toggle_resolved(&mut self)
        ensures
            *final(self) == (CommentsPanel { show_resolved: !old(self).show_resolved, ..*old(self) }),
    {
        self.show_resolved = !self.show_resolved;
    }

    /// The reply box of a thread opens, or closes where it was open.
    pub fn toggle_reply(&mut self, comment_id: u128)
        ensures
            *final(self) == (CommentsPanel {
                replying_to: if old(self).replying_to == Some(comment_id) {
                    None
                } else {
                    Some(comment_id)
                },
                ..*old(self)
            }),
    {
        self.replying_to = if self.replying_to == Some(comment_id) {
            None
        } else {
            Some(comment_id)
        };
    }

    /// Sends a reply: nothing for an empty text. The box closes, so the
    /// author no longer shows as replying, and the reply goes out where the
    /// document's service is there and no other action on the thread is under
    /// way.
    pub fn send_reply(&mut self, comment_id: u128, reply: &str, composer: &str) -> (sent: Option<
        SentReply,
    >)
        ensures
            match sent {
                None => trimmed(reply@).len() == 0 && *final(self) == *old(self),
                Some(sent) => {
                    let closed = CommentsPanel { replying_to: None, ..*old(self) };
                    let typing = closed.typing(composer@, Seq::empty());
                    &&& trimmed(reply@).len() > 0
                    &&& match sent.body {
                        Some(body) => old(self).starts(comment_id) && body@ == trimmed(reply@),
                        None => !old(self).starts(comment_id),
                    }
                    &&& sent.typing == old(self).unpublished(typing)
                    &&& old(self).started(*final(self), comment_id)
                    &&& *final(self) == (CommentsPanel {
                        published_typing: typing,
                        busy_threads: final(self).busy_threads,
                        ..closed
                    })
                },
            },
    {
        let body = trim(reply);
        if body.as_str().is_empty() {
            return None;
        }
        self.replying_to = None;
        let typing = self.sync_typing_state(composer, "");
        let body = if self.thread_action(comment_id) {
            Some(body)
        } else {
            None
        };
        Some(SentReply { body, typing })
    }

    /// The text that a message has.
    pub open spec fn message_text(self, comment_id: u128, message_id: u128) -> Option<Seq<char>> {
        match thread_index(self.threads@, comment_id, 0) {
            Some(ix) => match message_index(self.threads@[ix].messages@, message_id, 0) {
                Some(at) => Some(self.threads@[ix].messages@[at].body@),
                None => None,
            },
            None => None,
        }
    }

    /// Opens a message for editing with its present text.
    pub fn begin_edit(&mut self, comment_id: u128, message_id: u128) -> (body: Option<String>)
        ensures
            *final(self) == (CommentsPanel {
                editing_message: Some((comment_id, message_id)),
                ..*old(self)
            }),
            match body {
                Some(body) => old(self).message_text(comment_id, message_id) == Some(body@),
                None => old(self).message_text(comment_id, message_id) is None,
            },
    {
        self.editing_message = Some((comment_id, message_id));
        match find_thread(&self.threads, comment_id) {
            None => None,
            Some(ix) => match find_message(&self.threads[ix].messages, message_id) {
                Some(at) => Some(self.threads[ix].messages[at].body.clone()),
                None => None,
            },
        }
    }

    /// Saves an edited message: nothing for an empty text. The edit closes,
    /// and the text goes out as a reply does.
    pub fn save_edit(&mut self, comment_id: u128, edit: &str) -> (body: Option<String>)
        ensures
            trimmed(edit@).len() == 0 ==> body is None && *final(self) == *old(self),
            trimmed(edit@).len() > 0 ==> {
                &&& match body {
                    Some(body) => old(self).starts(comment_id) && body@ == trimmed(edit@),
                    None => !old(self).starts(comment_id),
                }
                &&& old(self).started(*final(self), comment_id)
                &&& *final(self) == (CommentsPanel {
                    editing_message: None,
                    busy_threads: final(self).busy_threads,
                    ..*old(self)
                })
            },
    {
        let body = trim(edit);
        if body.as_str().is_empty() {
            return None;
        }
        self.editing_message = None;
        if self.thread_action(comment_id) {
            Some(body)
        } else {
            None
        }
    }

    /// Touching a card is viewing it: its dot goes.
    pub fn view_card(&mut self, comment_id: u128) -> (cleared: bool)
        ensures
            cleared == old(self).unread_threads@.contains(comment_id),
            final(self).unread_threads@ == old(self).unread_threads@.remove(comment_id),
            *final(self) == (CommentsPanel {
                unread_threads: final(self).unread_threads,
                ..*old(self)
            }),
    {
        broadcast use vstd::std_specs::hash::group_hash_axioms;

        self.unread_threads.remove(&comment_id)
    }

    /// Resolves a thread, or reopens a resolved one; hands back the state to
    /// set where the action starts.
    pub fn resolve_thread(&mut self, comment_id: u128) -> (resolved: Option<bool>)
        ensures
            resolved == (if old(self).starts(comment_id) {
                Some(
                    !(match thread_index(old(self).threads@, comment_id, 0) {
                        Some(ix) => old(self).threads@[ix].resolved,
                        None => false,
                    }),
                )
            } else {
                None
            }),
            old(self).started(*final(self), comment_id),
            *final(self) == (CommentsPanel {
                busy_threads: final(self).busy_threads,
                ..*old(self)
            }),
    {
        let target = match find_thread(&self.threads, comment_id) {
            Some(ix) => !self.threads[ix].resolved,
            None => true,
        };
        if self.thread_action(comment_id) {
            Some(target)
        } else {
            None
        }
    }
}

} // verus!
