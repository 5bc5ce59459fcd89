//! The dialog on the comments of a document.

use crate::comments::{
    failure, failure_text, marks_of, refresh_comment_annotations, CommentMessage, CommentThread,
    ReviewMark,
};
use crate::comments_view::{curly_quote, curly_quoted};
use crate::document_panel::DocumentOffset;
use crate::text::{trim, trimmed};
use vstd::prelude::*;
use vstd::string::StringExecFns;

verus! {

/// The dialog's state.
#[derive(Debug)]
pub struct CommentDialog {
    /// The selection that a new comment speaks of, by its two ends.
    pub selection: (DocumentOffset, DocumentOffset),
    pub author_user_id: u128,
    pub author_display_name: String,
    pub comments: Vec<CommentThread>,
    pub loading: bool,
    pub busy: bool,
    pub error: Option<String>,
    pub replying_to: Option<u128>,
    pub editing_message: Option<(u128, u128)>,
}

/// What a request of the dialog was.
#[derive(Clone, Copy, Debug, PartialEq, Eq, Structural)]
pub enum DialogRequest {
    Create,
    Reply,
    Resolve,
    Edit,
    Delete,
}

impl DialogRequest {
    /// What a failed request is answered with, before the reason.
    pub open spec fn failure_prefix(self) -> Seq<char> {
        match self {
            DialogRequest::Create => "Adding comment failed: "@,
            DialogRequest::Reply => "Adding reply failed: "@,
            DialogRequest::Resolve => "Updating comment failed: "@,
            DialogRequest::Edit => "Editing comment failed: "@,
            DialogRequest::Delete => "Deleting comment failed: "@,
        }
    }

    fn prefix(self) -> (text: &'static str)
        ensures
            text@ == self.failure_prefix(),
    {
        match self {
            DialogRequest::Create => "Adding comment failed: ",
            DialogRequest::Reply => "Adding reply failed: ",
            DialogRequest::Resolve => "Updating comment failed: ",
            DialogRequest::Edit => "Editing comment failed: ",
            DialogRequest::Delete => "Deleting comment failed: ",
        }
    }
}

/// The error reads so.
pub open spec fn reads(error: Option<String>, text: Seq<char>) -> bool {
    error matches Some(error) && error@ == text
}

impl CommentDialog {
    /// A dialog that loads the comments.
    pub fn new(
        selection: (DocumentOffset, DocumentOffset),
        author_user_id: u128,
        author_display_name: String,
    ) -> (dialog: Self)
        ensures
            dialog.selection == selection,
            dialog.author_user_id == author_user_id,
            dialog.author_display_name == author_display_name,
            dialog.comments@.len() == 0,
            dialog.loading,
            !dialog.busy,
            dialog.error is None,
            dialog.replying_to is None,
            dialog.editing_message is None,
    {
        CommentDialog {
            selection,
            author_user_id,
            author_display_name,
            comments: Vec::new(),
            loading: true,
            busy: false,
            error: None,
            replying_to: None,
            editing_message: None,
        }
    }

    /// Takes loaded comments, and hands back the marks to draw for them.
    pub fn finish_reload(&mut self, result: Result<Vec<CommentThread>, String>) -> (marks: Option<
        Vec<ReviewMark>,
    >)
        ensures
            match result {
                Ok(comments) => {
                    &&& marks is Some
                    &&& (marks->0)@ == marks_of(comments@, comments@.len() as int)
                    &&& *final(self) == (CommentDialog {
                        comments,
                        loading: false,
                        error: None,
                        ..*old(self)
                    })
                },
                Err(error) => {
                    &&& marks is None
                    &&& reads(
                        final(self).error,
                        failure_text("Loading comments failed: "@, error@),
                    )
                    &&& *final(self) == (CommentDialog {
                        loading: false,
                        error: final(self).error,
                        ..*old(self)
                    })
                },
            },
    {
        self.loading = false;
        match result {
            Ok(comments) => {
                let marks = refresh_comment_annotations(&comments);
                self.comments = comments;
                self.error = None;
                Some(marks)
            },
            Err(error) => {
                self.error = Some(failure("Loading comments failed: ", error.as_str()));
                None
            },
        }
    }

    /// Sends a text that may not be empty, one request at a time.
    fn send_text(&mut self, input: &str, refusal: &str) -> (body: Option<String>)
        ensures
            match body {
                Some(body) => {
                    &&& !old(self).busy
                    &&& trimmed(input@).len() > 0
                    &&& body@ == trimmed(input@)
                    &&& *final(self) == (CommentDialog { busy: true, ..*old(self) })
                },
                None => if old(self).busy {
                    *final(self) == *old(self)
                } else {
                    &&& trimmed(input@).len() == 0
                    &&& reads(final(self).error, refusal@)
                    &&& *final(self) == (CommentDialog { error: final(self).error, ..*old(self) })
                },
            },
    {
        if self.busy {
            return None;
        }
        let body = trim(input);
        if body.as_str().is_empty() {
            self.error = Some(String::from_str(refusal));
            return None;
        }
        self.busy = true;
        Some(body)
    }

    /// Sends a new comment: nothing while a request is under way, and an
    /// empty text is refused.
    pub fn create_comment(&mut self, input: &str) -> (body: Option<String>)
        ensures
            match body {
                Some(body) => {
                    &&& !old(self).busy
                    &&& trimmed(input@).len() > 0
                    &&& body@ == trimmed(input@)
                    &&& *final(self) == (CommentDialog { busy: true, ..*old(self) })
                },
                None => if old(self).busy {
                    *final(self) == *old(self)
                } else {
                    &&& trimmed(input@).len() == 0
                    &&& reads(final(self).error, "Write a comment first."@)
                    &&& *final(self) == (CommentDialog { error: final(self).error, ..*old(self) })
                },
            },
    {
        self.send_text(input, "Write a comment first.")
    }

    /// Sends a reply, as `create_comment` sends a comment.
    pub fn reply(&mut self, input: &str) -> (body: Option<String>)
        ensures
            match body {
                Some(body) => {
                    &&& !old(self).busy
                    &&& trimmed(input@).len() > 0
                    &&& body@ == trimmed(input@)
                    &&& *final(self) == (CommentDialog { busy: true, ..*old(self) })
                },
                None => if old(self).busy {
                    *final(self) == *old(self)
                } else {
                    &&& trimmed(input@).len() == 0
                    &&& reads(final(self).error, "Write a reply first."@)
                    &&& *final(self) == (CommentDialog { error: final(self).error, ..*old(self) })
                },
            },
    {
        self.send_text(input, "Write a reply first.")
    }

    /// Saves an edited message, as `create_comment` sends a comment.
    pub fn save_edit(&mut self, input: &str) -> (body: Option<String>)
        ensures
            match body {
                Some(body) => {
                    &&& !old(self).busy
                    &&& trimmed(input@).len() > 0
                    &&& body@ == trimmed(input@)
                    &&& *final(self) == (CommentDialog { busy: true, ..*old(self) })
                },
                None => if old(self).busy {
                    *final(self) == *old(self)
                } else {
                    &&& trimmed(input@).len() == 0
                    &&& reads(final(self).error, "A comment cannot be empty."@)
                    &&& *final(self) == (CommentDialog { error: final(self).error, ..*old(self) })
                },
            },
    {
        self.send_text(input, "A comment cannot be empty.")
    }

    /// Starts a request without a text: resolving or deleting a thread. One
    /// request at a time.
    pub fn begin_change(&mut self) -> (started: bool)
        ensures
            started == !old(self).busy,
            *final(self) == (CommentDialog { busy: true, ..*old(self) }),
    {
        if self.busy {
            return false;
        }
        self.busy = true;
        true
    }

    /// A request ended. A taken one reloads the comments; a reply's box and
    /// an edit close with it.
    pub fn finish_request(&mut self, request: DialogRequest, result: Result<(), String>) -> (reload:
        bool)
        ensures
            reload == (result is Ok),
            match result {
                Ok(_) => *final(self) == (CommentDialog {
                    busy: false,
                    loading: true,
                    replying_to: if request == DialogRequest::Reply {
                        None
                    } else {
                        old(self).replying_to
                    },
                    editing_message: if request == DialogRequest::Edit {
                        None
                    } else {
                        old(self).editing_message
                    },
                    ..*old(self)
                }),
                Err(error) => {
                    &&& reads(final(self).error, failure_text(request.failure_prefix(), error@))
                    &&& *final(self) == (CommentDialog {
                        busy: false,
                        error: final(self).error,
                        ..*old(self)
                    })
                },
            },
    {
        self.busy = false;
        match result {
            Ok(_) => {
                match request {
                    DialogRequest::Reply => self.replying_to = None,
                    DialogRequest::Edit => self.editing_message = None,
                    _ => {},
                }
                self.loading = true;
                true
            },
            Err(error) => {
                self.error = Some(failure(request.prefix(), error.as_str()));
                false
            },
        }
    }

    /// Opens the reply box of a thread.
    pub fn begin_reply(&mut self, comment_id: u128)
        ensures
            *final(self) == (CommentDialog { replying_to: Some(comment_id), ..*old(self) }),
    {
        self.replying_to = Some(comment_id);
    }

    /// Opens a message for editing.
    pub fn begin_edit(&mut self, comment_id: u128, message_id: u128)
        ensures
            *final(self) == (CommentDialog {
                editing_message: Some((comment_id, message_id)),
                ..*old(self)
            }),
    {
        self.editing_message = Some((comment_id, message_id));
    }

    /// Leaves an edit.
    pub fn cancel_edit(&mut self)
        ensures
            *final(self) == (CommentDialog { editing_message: None, ..*old(self) }),
    {
        self.editing_message = None;
    }
}

/// A message in the dialog.
#[derive(Debug)]
pub struct DialogMessageView {
    pub message_id: u128,
    pub author: String,
    pub body: String,
    pub can_edit: bool,
    pub editing: bool,
    pub edited: bool,
}

/// A thread in the dialog.
#[derive(Debug)]
pub struct DialogThreadView {
    pub comment_id: u128,
    pub quote: String,
    pub messages: Vec<DialogMessageView>,
    pub resolve_label: String,
    pub can_delete: bool,
    pub replying: bool,
    pub dimmed: bool,
}

/// The dialog.
#[derive(Debug)]
pub struct CommentDialogView {
    /// The label of the button that adds a comment; none without a selection.
    pub create_label: Option<String>,
    pub hint: Option<String>,
    pub busy: bool,
    pub status: Option<String>,
    pub error: Option<String>,
    pub threads: Vec<DialogThreadView>,
}

/// A message is drawn as it stands for this dialog.
pub open spec fn dialog_message_shown(
    view: DialogMessageView,
    dialog: CommentDialog,
    comment_id: u128,
    message: CommentMessage,
) -> bool {
    let editing = dialog.editing_message == Some((comment_id, message.message_id));
    &&& view.message_id == message.message_id
    &&& view.author@ == message.author_display_name@
    &&& view.body@ == message.body@
    &&& view.can_edit == (message.author_user_id == dialog.author_user_id && !editing)
    &&& view.editing == editing
    &&& view.edited == (!editing && message.updated_at_unix_secs > message.created_at_unix_secs)
}

/// A thread is drawn as it stands for this dialog. Its first message's
/// author may delete it.
pub open spec fn dialog_thread_shown(
    view: DialogThreadView,
    dialog: CommentDialog,
    thread: CommentThread,
) -> bool {
    &&& view.comment_id == thread.comment_id
    &&& view.quote@ == (if thread.anchor is Some {
        curly_quoted(thread.quoted_text@)
    } else {
        "Original text was removed: "@ + curly_quoted(thread.quoted_text@)
    })
    &&& view.messages@.len() == thread.messages@.len()
    &&& forall|i: int|
        0 <= i < thread.messages@.len() ==> dialog_message_shown(
            #[trigger] view.messages@[i],
            dialog,
            thread.comment_id,
            thread.messages@[i],
        )
    &&& view.resolve_label@ == (if thread.resolved {
        "Reopen"@
    } else {
        "Resolve"@
    })
    &&& view.can_delete == (thread.messages@.len() > 0 && thread.messages@[0].author_user_id
        == dialog.author_user_id)
    &&& view.replying == (dialog.replying_to == Some(thread.comment_id))
    &&& view.dimmed == thread.resolved
}

impl CommentDialog {
    fn message_view(&self, comment_id: u128, message: &CommentMessage) -> (view: DialogMessageView)
        ensures
            dialog_message_shown(view, *self, comment_id, *message),
    {
        let editing = match self.editing_message {
            Some((thread, id)) => thread == comment_id && id == message.message_id,
            None => false,
        };
        DialogMessageView {
            message_id: message.message_id,
            author: message.author_display_name.clone(),
            body: message.body.clone(),
            can_edit: message.author_user_id == self.author_user_id && !editing,
            editing,
            edited: !editing && message.updated_at_unix_secs > message.created_at_unix_secs,
        }
    }

    fn thread_view(&self, thread: &CommentThread) -> (view: DialogThreadView)
        ensures
            dialog_thread_shown(view, *self, *thread),
    {
        let mut messages: Vec<DialogMessageView> = Vec::new();
        let mut next: usize = 0;
        while next < thread.messages.len()
            invariant
                next <= thread.messages@.len(),
                messages@.len() == next,
                forall|i: int|
                    0 <= i < next ==> dialog_message_shown(
                        #[trigger] messages@[i],
                        *self,
                        thread.comment_id,
                        thread.messages@[i],
                    ),
            decreases thread.messages@.len() - next,
        {
            messages.push(self.message_view(thread.comment_id, &thread.messages[next]));
            next = next + 1;
        }
        let quoted = curly_quote(thread.quoted_text.as_str());
        let quote = if thread.anchor.is_some() {
            quoted
        } else {
            let mut text = String::from_str("Original text was removed: ");
            text.append(quoted.as_str());
            text
        };
        DialogThreadView {
            comment_id: thread.comment_id,
            quote,
            messages,
            resolve_label: if thread.resolved {
                String::from_str("Reopen")
            } else {
                String::from_str("Resolve")
            },
            can_delete: thread.messages.len() > 0 && thread.messages[0].author_user_id
                == self.author_user_id,
            replying: match self.replying_to {
                Some(id) => id == thread.comment_id,
                None => false,
            },
            dimmed: thread.resolved,
        }
    }

    /// The dialog as it stands.
    pub fn render(&self) -> (view: CommentDialogView)
        ensures
            ({
                let selected = self.selection.0 != self.selection.1;
                &&& view.create_label is Some == selected
                &&& selected ==> (view.create_label->0)@ == (if self.busy {
                    "Adding..."@
                } else {
                    "Comment"@
                })
                &&& view.hint is Some == !selected
                &&& !selected ==> (view.hint->0)@
                    == "Select text before creating a comment. Existing threads remain available below."@
                &&& view.busy == self.busy
                &&& view.status is Some == (self.loading || self.comments@.len() == 0)
                &&& view.status is Some ==> (view.status->0)@ == (if self.loading {
                    "Loading comments..."@
                } else {
                    "No comments yet."@
                })
                &&& match self.error {
                    Some(error) => reads(view.error, error@),
                    None => view.error is None,
                }
                &&& view.threads@.len() == self.comments@.len()
                &&& forall|i: int|
                    0 <= i < self.comments@.len() ==> dialog_thread_shown(
                        #[trigger] view.threads@[i],
                        *self,
                        self.comments@[i],
                    )
            }),
    {
        let selected = self.selection.0 != self.selection.1;
        let mut threads: Vec<DialogThreadView> = Vec::new();
        let mut next: usize = 0;
        while next < self.comments.len()
            invariant
                next <= self.comments@.len(),
                threads@.len() == next,
                forall|i: int|
                    0 <= i < next ==> dialog_thread_shown(
                        #[trigger] threads@[i],
                        *self,
                        self.comments@[i],
                    ),
            decreases self.comments@.len() - next,
        {
            threads.push(self.thread_view(&self.comments[next]));
            next = next + 1;
        }
        CommentDialogView {
            create_label: if !selected {
                None
            } else if self.busy {
                Some(String::from_str("Adding..."))
            } else {
                Some(String::from_str("Comment"))
            },
            hint: if selected {
                None
            } else {
                Some(
                    String::from_str(
                        "Select text before creating a comment. Existing threads remain available below.",
                    ),
                )
            },
            busy: self.busy,
            status: if self.loading {
                Some(String::from_str("Loading comments..."))
            } else if self.comments.len() == 0 {
                Some(String::from_str("No comments yet."))
            } else {
                None
            },
            error: match &self.error {
                Some(error) => Some(error.clone()),
                None => None,
            },
            threads,
        }
    }
}

} // verus!
