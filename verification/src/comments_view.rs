//! What the comments panel shows.

use crate::comments::{
    linked_id, linked_thread, CommentMessage, CommentThread, CommentTyping, CommentsPanel,
    TypingPeer,
};
use crate::document_panel::DocumentOffset;
use crate::text::{decimal, push_decimal};
use vstd::prelude::*;
use vstd::string::StringExecFns;

verus! {

/// A message of a thread's card.
#[derive(Debug)]
pub struct MessageView {
    pub message_id: u128,
    pub author_user_id: u128,
    pub author: String,
    pub body: String,
    pub deleted: bool,
    pub edited: bool,
    pub editing: bool,
    /// The author may edit or delete it.
    pub can_change: bool,
}

/// A line that says who is writing, with the writer's colour.
#[derive(Debug)]
pub struct TypingLine {
    pub text: String,
    pub color_rgb: u32,
}

/// A thread's card.
#[derive(Debug)]
pub struct ThreadView {
    pub comment_id: u128,
    pub busy: bool,
    pub unread: bool,
    pub linked: bool,
    pub resolved: bool,
    pub orphaned: bool,
    pub can_jump: bool,
    pub quote: String,
    pub jump_tooltip: String,
    pub messages: Vec<MessageView>,
    pub typing: Vec<TypingLine>,
    pub replying: bool,
    pub resolve_label: String,
    pub can_delete: bool,
}

/// The panel.
#[derive(Debug)]
pub struct CommentsView {
    pub header: String,
    pub error: Option<String>,
    pub scope_note: String,
    pub send_label: String,
    pub send_disabled: bool,
    pub typing: Vec<TypingLine>,
    pub waiting: Option<String>,
    pub empty: Option<String>,
    pub open_threads: Vec<ThreadView>,
    /// The label of the accordion; none where no thread is resolved.
    pub resolved_label: Option<String>,
    pub resolved_threads: Vec<ThreadView>,
}

/// A text in curly quotes.
pub open spec fn curly_quoted(text: Seq<char>) -> Seq<char> {
    "“"@ + text + "”"@
}

/// A text in curly quotes.
pub fn curly_quote(text: &str) -> (quoted: String)
    ensures
        quoted@ == curly_quoted(text@),
{
    let mut quoted = String::from_str("“");
    quoted.append(text);
    quoted.append("”");
    quoted
}

/// What a card says of the commented text.
pub open spec fn quote_text(thread: CommentThread) -> Seq<char> {
    if thread.general {
        "General"@
    } else if thread.anchor is None {
        "Original text was removed: "@ + curly_quoted(thread.quoted_text@)
    } else {
        curly_quoted(thread.quoted_text@)
    }
}

fn quote_of(thread: &CommentThread) -> (text: String)
    ensures
        text@ == quote_text(*thread),
{
    if thread.general {
        String::from_str("General")
    } else if thread.anchor.is_none() {
        let mut text = String::from_str("Original text was removed: ");
        let quoted = curly_quote(thread.quoted_text.as_str());
        text.append(quoted.as_str());
        text
    } else {
        curly_quote(thread.quoted_text.as_str())
    }
}

/// A message's card line is drawn as it stands for this panel.
pub open spec fn message_shown(
    view: MessageView,
    panel: CommentsPanel,
    comment_id: u128,
    message: CommentMessage,
) -> bool {
    let editing = panel.editing_message == Some((comment_id, message.message_id));
    &&& view.message_id == message.message_id
    &&& view.author_user_id == message.author_user_id
    &&& view.author@ == message.author_display_name@
    &&& view.body@ == (if message.deleted {
        "message deleted"@
    } else {
        message.body@
    })
    &&& view.deleted == message.deleted
    &&& view.edited == (!message.deleted && message.updated_at_unix_secs
        > message.created_at_unix_secs)
    &&& view.editing == editing
    &&& view.can_change == (message.author_user_id == panel.author_user_id && !message.deleted
        && !editing)
}

/// Lines by their texts.
pub open spec fn line_texts(lines: Seq<TypingLine>) -> Seq<(Seq<char>, u32)> {
    lines.map_values(|line: TypingLine| (line.text@, line.color_rgb))
}

/// Lines that say who is writing: one for each of the first `k` peers who
/// writes `what`.
pub open spec fn typing_lines(
    roster: Seq<TypingPeer>,
    what: CommentTyping,
    suffix: Seq<char>,
    k: int,
) -> Seq<(Seq<char>, u32)>
    decreases k,
{
    if k <= 0 {
        Seq::empty()
    } else if roster[k - 1].typing == what {
        typing_lines(roster, what, suffix, k - 1).push(
            (roster[k - 1].name@ + suffix, roster[k - 1].color_rgb),
        )
    } else {
        typing_lines(roster, what, suffix, k - 1)
    }
}

/// A thread's card is drawn as it stands for this panel.
pub open spec fn thread_shown(
    view: ThreadView,
    panel: CommentsPanel,
    thread: CommentThread,
    linked: Option<u128>,
    roster: Seq<TypingPeer>,
) -> bool {
    let id = thread.comment_id;
    &&& view.comment_id == id
    &&& view.busy == panel.busy_threads@.contains(id)
    &&& view.unread == panel.unread_threads@.contains(id)
    &&& view.linked == (linked == Some(id))
    &&& view.resolved == thread.resolved
    &&& view.orphaned == (!thread.general && thread.anchor is None)
    &&& view.can_jump == (thread.anchor is Some)
    &&& view.quote@ == quote_text(thread)
    &&& view.jump_tooltip@ == (if thread.anchor is Some {
        "Jump to the text"@
    } else {
        "No live anchor"@
    })
    &&& view.messages@.len() == thread.messages@.len()
    &&& forall|i: int|
        0 <= i < thread.messages@.len() ==> message_shown(
            #[trigger] view.messages@[i],
            panel,
            id,
            thread.messages@[i],
        )
    &&& line_texts(view.typing@) == typing_lines(
        roster,
        CommentTyping::InThread(id),
        " is replying…"@,
        roster.len() as int,
    )
    &&& view.replying == (panel.replying_to == Some(id))
    &&& view.resolve_label@ == (if thread.resolved {
        "Reopen"@
    } else {
        "Resolve"@
    })
    &&& view.can_delete == (thread.author_user_id == Some(panel.author_user_id))
}

/// Whether a list shows a thread: its own kind, and with the filter on only
/// threads that the author started.
pub open spec fn listed(panel: CommentsPanel, thread: CommentThread, resolved: bool) -> bool {
    thread.resolved == resolved && (!panel.filter_mine || thread.author_user_id == Some(
        panel.author_user_id,
    ))
}

/// Indices of the listed threads among the first `k`.
pub open spec fn listed_indices(panel: CommentsPanel, resolved: bool, k: int) -> Seq<int>
    decreases k,
{
    if k <= 0 {
        Seq::empty()
    } else if listed(panel, panel.threads@[k - 1], resolved) {
        listed_indices(panel, resolved, k - 1).push(k - 1)
    } else {
        listed_indices(panel, resolved, k - 1)
    }
}

/// A list's cards are those of its threads, in order.
pub open spec fn list_shown(
    views: Seq<ThreadView>,
    panel: CommentsPanel,
    resolved: bool,
    linked: Option<u128>,
    roster: Seq<TypingPeer>,
    k: int,
) -> bool {
    let indices = listed_indices(panel, resolved, k);
    &&& views.len() == indices.len()
    &&& forall|i: int|
        0 <= i < indices.len() ==> thread_shown(
            #[trigger] views[i],
            panel,
            panel.threads@[indices[i]],
            linked,
            roster,
        )
}

/// The panel's title line.
pub open spec fn header_text(open: int, unread: int) -> Seq<char> {
    if unread > 0 {
        "Comments · "@ + decimal(open as nat) + " · "@ + decimal(unread as nat) + " new"@
    } else {
        "Comments · "@ + decimal(open as nat)
    }
}

/// The accordion's label.
pub open spec fn accordion_text(expanded: bool, count: int) -> Seq<char> {
    (if expanded {
        "▾"@
    } else {
        "▸"@
    }) + " Resolved ("@ + decimal(count as nat) + ")"@
}

fn lines_for(roster: &Vec<TypingPeer>, what: CommentTyping, suffix: &str) -> (lines: Vec<TypingLine>)
    ensures
        line_texts(lines@) == typing_lines(roster@, what, suffix@, roster@.len() as int),
{
    let mut lines: Vec<TypingLine> = Vec::new();
    let mut next: usize = 0;
    assert(line_texts(lines@) =~= Seq::empty());
    while next < roster.len()
        invariant
            next <= roster@.len(),
            line_texts(lines@) == typing_lines(roster@, what, suffix@, next as int),
        decreases roster@.len() - next,
    {
        let same = match (roster[next].typing, what) {
            (CommentTyping::NewThread, CommentTyping::NewThread) => true,
            (CommentTyping::InThread(a), CommentTyping::InThread(b)) => a == b,
            _ => false,
        };
        let ghost before = lines@;
        if same {
            let mut text = roster[next].name.clone();
            text.append(suffix);
            let color_rgb: u32 = roster[next].color_rgb;
            lines.push(TypingLine { text, color_rgb });
            assert(line_texts(lines@) =~= line_texts(before).push((text@, color_rgb)));
        }
        next = next + 1;
    }
    lines
}

impl CommentsPanel {
    fn lists(&self, thread: &CommentThread, resolved: bool) -> (b: bool)
        ensures
            b == listed(*self, *thread, resolved),
    {
        thread.resolved == resolved && (!self.filter_mine || match thread.author_user_id {
            Some(author) => author == self.author_user_id,
            None => false,
        })
    }

    fn message_view(&self, comment_id: u128, message: &CommentMessage) -> (view: MessageView)
        ensures
            message_shown(view, *self, comment_id, *message),
    {
        let editing = match self.editing_message {
            Some((thread, id)) => thread == comment_id && id == message.message_id,
            None => false,
        };
        let body = if message.deleted {
            String::from_str("message deleted")
        } else {
            message.body.clone()
        };
        MessageView {
            message_id: message.message_id,
            author_user_id: message.author_user_id,
            author: message.author_display_name.clone(),
            body,
            deleted: message.deleted,
            edited: !message.deleted && message.updated_at_unix_secs
                > message.created_at_unix_secs,
            editing,
            can_change: message.author_user_id == self.author_user_id && !message.deleted
                && !editing,
        }
    }

    /// A thread's card.
    pub fn render_thread(
        &self,
        thread: &CommentThread,
        linked: Option<u128>,
        roster: &Vec<TypingPeer>,
    ) -> (view: ThreadView)
        ensures
            thread_shown(view, *self, *thread, linked, roster@),
    {
        broadcast use vstd::std_specs::hash::group_hash_axioms;

        let id: u128 = thread.comment_id;
        let mut messages: Vec<MessageView> = Vec::new();
        let mut next: usize = 0;
        while next < thread.messages.len()
            invariant
                next <= thread.messages@.len(),
                messages@.len() == next,
                id == thread.comment_id,
                forall|i: int|
                    0 <= i < next ==> message_shown(
                        #[trigger] messages@[i],
                        *self,
                        id,
                        thread.messages@[i],
                    ),
            decreases thread.messages@.len() - next,
        {
            messages.push(self.message_view(id, &thread.messages[next]));
            next = next + 1;
        }
        let anchored = thread.anchor.is_some();
        ThreadView {
            comment_id: id,
            busy: self.busy_threads.contains(&id),
            unread: self.unread_threads.contains(&id),
            linked: match linked {
                Some(other) => other == id,
                None => false,
            },
            resolved: thread.resolved,
            orphaned: !thread.general && !anchored,
            can_jump: anchored,
            quote: quote_of(thread),
            jump_tooltip: if anchored {
                String::from_str("Jump to the text")
            } else {
                String::from_str("No live anchor")
            },
            messages,
            typing: lines_for(roster, CommentTyping::InThread(id), " is replying…"),
            replying: match self.replying_to {
                Some(other) => other == id,
                None => false,
            },
            resolve_label: if thread.resolved {
                String::from_str("Reopen")
            } else {
                String::from_str("Resolve")
            },
            can_delete: match thread.author_user_id {
                Some(author) => author == self.author_user_id,
                None => false,
            },
        }
    }

    fn thread_list(
        &self,
        resolved: bool,
        linked: Option<u128>,
        roster: &Vec<TypingPeer>,
    ) -> (views: Vec<ThreadView>)
        ensures
            list_shown(
                views@,
                *self,
                resolved,
                linked,
                roster@,
                self.threads@.len() as int,
            ),
    {
        let mut views: Vec<ThreadView> = Vec::new();
        let mut next: usize = 0;
        while next < self.threads.len()
            invariant
                next <= self.threads@.len(),
                list_shown(views@, *self, resolved, linked, roster@, next as int),
            decreases self.threads@.len() - next,
        {
            if self.lists(&self.threads[next], resolved) {
                views.push(self.render_thread(&self.threads[next], linked, roster));
            }
            next = next + 1;
        }
        views
    }

    fn count_listed(&self, resolved: bool) -> (count: usize)
        ensures
            count == listed_indices(*self, resolved, self.threads@.len() as int).len(),
    {
        let mut count: usize = 0;
        let mut next: usize = 0;
        while next < self.threads.len()
            invariant
                next <= self.threads@.len(),
                count <= next,
                count == listed_indices(*self, resolved, next as int).len(),
            decreases self.threads@.len() - next,
        {
            if self.lists(&self.threads[next], resolved) {
                count = count + 1;
            }
            next = next + 1;
        }
        count
    }

    /// The panel as it stands. The open thread that the caret stands in is
    /// drawn as linked; resolved threads fold away under their label.
    pub fn render(
        &self,
        has_selection: bool,
        caret: Option<DocumentOffset>,
        roster: &Vec<TypingPeer>,
    ) -> (view: CommentsView)
        ensures
            ({
                let total = self.threads@.len() as int;
                let open = listed_indices(*self, false, total).len() as int;
                let resolved = listed_indices(*self, true, total).len() as int;
                &&& view.header@ == header_text(open, self.unread_threads@.len() as int)
                &&& match self.error {
                    Some(error) => view.error is Some && (view.error->0)@ == error@,
                    None => view.error is None,
                }
                &&& view.scope_note@ == (if has_selection {
                    "Commenting on the selected text"@
                } else {
                    "No selection — this will be a general note"@
                })
                &&& view.send_label@ == (if has_selection {
                    "Comment"@
                } else {
                    "Add general note"@
                })
                &&& view.send_disabled == (self.composer_busy || !self.attached)
                &&& line_texts(view.typing@) == typing_lines(
                    roster@,
                    CommentTyping::NewThread,
                    " is writing a comment…"@,
                    roster@.len() as int,
                )
                &&& view.waiting is Some == !self.attached
                &&& !self.attached ==> (view.waiting->0)@
                    == "Waiting for the document to finish opening…"@
                &&& view.empty is Some == (self.attached && !self.loading && total == 0)
                &&& view.empty is Some ==> (view.empty->0)@
                    == "No comments yet. Select text and press Enter above, or add a general note."@
                &&& view.resolved_label is Some == (resolved > 0)
                &&& resolved > 0 ==> (view.resolved_label->0)@ == accordion_text(
                    self.show_resolved,
                    resolved,
                )
                &&& !self.show_resolved ==> view.resolved_threads@.len() == 0
                &&& list_shown(
                    view.open_threads@,
                    *self,
                    false,
                    match caret {
                        Some(caret) => linked_id(self.threads@, caret, 0),
                        None => None,
                    },
                    roster@,
                    total,
                )
                &&& self.show_resolved ==> list_shown(
                    view.resolved_threads@,
                    *self,
                    true,
                    None,
                    Seq::empty(),
                    total,
                )
            }),
    {
        broadcast use vstd::std_specs::hash::group_hash_axioms;

        let linked = match caret {
            Some(caret) => linked_thread(&self.threads, caret),
            None => None,
        };
        let open: usize = self.count_listed(false);
        let resolved: usize = self.count_listed(true);
        let unread: usize = self.unread_thread_count();
        let mut header = String::from_str("Comments · ");
        push_decimal(&mut header, open as u128);
        if unread > 0 {
            header.append(" · ");
            push_decimal(&mut header, unread as u128);
            header.append(" new");
        }
        let error = match &self.error {
            Some(error) => Some(error.clone()),
            None => None,
        };
        let resolved_label = if resolved > 0 {
            let mut label = String::from_str(if self.show_resolved { "▾" } else { "▸" });
            label.append(" Resolved (");
            push_decimal(&mut label, resolved as u128);
            label.append(")");
            Some(label)
        } else {
            None
        };
        let resolved_threads = if self.show_resolved {
            let nobody: Vec<TypingPeer> = Vec::new();
            self.thread_list(true, None, &nobody)
        } else {
            Vec::new()
        };
        CommentsView {
            header,
            error,
            scope_note: if has_selection {
                String::from_str("Commenting on the selected text")
            } else {
                String::from_str("No selection — this will be a general note")
            },
            send_label: if has_selection {
                String::from_str("Comment")
            } else {
                String::from_str("Add general note")
            },
            send_disabled: self.composer_busy || !self.attached,
            typing: lines_for(roster, CommentTyping::NewThread, " is writing a comment…"),
            waiting: if self.attached {
                None
            } else {
                Some(String::from_str("Waiting for the document to finish opening…"))
            },
            empty: if self.attached && !self.loading && self.threads.len() == 0 {
                Some(
                    String::from_str(
                        "No comments yet. Select text and press Enter above, or add a general note.",
                    ),
                )
            } else {
                None
            },
            open_threads: self.thread_list(false, linked, roster),
            resolved_label,
            resolved_threads,
        }
    }
}

} // verus!
