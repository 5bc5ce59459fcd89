//! What the dialogs on comments, revisions and equations send and show.

use crate::comment_dialog::{CommentDialog, CommentDialogView, DialogRequest};
use crate::comments::{CommentThread, ReviewMark};
use crate::equation::{EquationCommit, EquationComposer, EquationPreview};
use crate::pane::PanelId;
use crate::revision_dialog::{
    RevisionDialog, RevisionDialogView, RevisionReply, RevisionSummary,
};
use crate::text_laws::is_blank;
use crate::text::{is_space, trimmed};
use crate::toolkit_laws::says_something;
use vstd::prelude::*;

verus! {

/// A text is another without white space round it.
pub open spec fn is_core_of(inner: Seq<char>, text: Seq<char>) -> bool {
    &&& exists|front: Seq<char>, back: Seq<char>|
        #![trigger front + inner + back]
        is_blank(front) && is_blank(back) && text == front + inner + back
    &&& inner.len() > 0 ==> !is_space(inner[0]) && !is_space(inner.last())
}

pub(crate) proof fn lemma_core(text: Seq<char>)
    ensures
        is_core_of(trimmed(text), text),
        trimmed(text).len() > 0 <==> says_something(text),
{
    let front = crate::text_laws::lemma_trim_front(text);
    let rest = crate::text::trim_front(text);
    let back = crate::text_laws::lemma_trim_back(rest);
    let inner = trimmed(text);
    assert(text =~= front + inner + back);
    if inner.len() > 0 {
        assert(rest[0] == inner[0]);
    }
    crate::toolkit_laws::lemma_says_something(text);
}

/// What is sent of a comment, a reply or an edit is what was written, without
/// the white space round it: one request at a time, and nothing where nothing
/// was written.
pub proof fn the_dialog_sends_what_was_written(
    created: &mut CommentDialog,
    replied: &mut CommentDialog,
    edited: &mut CommentDialog,
    input: &str,
    comment: Option<String>,
    reply: Option<String>,
    edit: Option<String>,
)
    requires
        call_ensures(CommentDialog::create_comment, (created, input), comment),
        call_ensures(CommentDialog::reply, (replied, input), reply),
        call_ensures(CommentDialog::save_edit, (edited, input), edit),
    ensures
        comment is Some <==> !old(created).busy && says_something(input@),
        reply is Some <==> !old(replied).busy && says_something(input@),
        edit is Some <==> !old(edited).busy && says_something(input@),
        comment is Some ==> is_core_of((comment->0)@, input@) && final(created).busy,
        reply is Some ==> is_core_of((reply->0)@, input@) && final(replied).busy,
        edit is Some ==> is_core_of((edit->0)@, input@) && final(edited).busy,
        comment is None ==> final(created).busy == old(created).busy,
        comment is None && !old(created).busy ==> final(created).error is Some,
        final(created).comments == old(created).comments,
        final(replied).replying_to == old(replied).replying_to,
        final(edited).editing_message == old(edited).editing_message,
{
    lemma_core(input@);
}

/// A request that ended lets the next one go: taken it reloads the comments and
/// closes the box it came from, and refused it says why and keeps the box.
pub proof fn a_request_that_ended_lets_the_next_go(
    dialog: &mut CommentDialog,
    request: DialogRequest,
    result: Result<(), String>,
    reload: bool,
)
    requires
        call_ensures(CommentDialog::finish_request, (dialog, request, result), reload),
    ensures
        !final(dialog).busy,
        reload <==> result is Ok,
        final(dialog).loading == (old(dialog).loading || result is Ok),
        result is Err ==> final(dialog).error is Some && final(dialog).replying_to
            == old(dialog).replying_to && final(dialog).editing_message
            == old(dialog).editing_message,
        result is Ok && request == DialogRequest::Reply ==> final(dialog).replying_to is None
            && final(dialog).editing_message == old(dialog).editing_message,
        result is Ok && request == DialogRequest::Edit ==> final(dialog).editing_message is None
            && final(dialog).replying_to == old(dialog).replying_to,
        final(dialog).comments == old(dialog).comments,
{
}

/// Comments that were loaded are the ones that show; where loading failed those
/// that showed stay.
pub proof fn loaded_comments_show(
    dialog: &mut CommentDialog,
    result: Result<Vec<CommentThread>, String>,
    marks: Option<Vec<ReviewMark>>,
)
    requires
        call_ensures(CommentDialog::finish_reload, (dialog, result), marks),
    ensures
        !final(dialog).loading,
        marks is Some <==> result is Ok,
        result is Ok ==> final(dialog).comments == result->Ok_0 && final(dialog).error is None,
        result is Err ==> final(dialog).comments == old(dialog).comments
            && final(dialog).error is Some,
        final(dialog).busy == old(dialog).busy,
        final(dialog).replying_to == old(dialog).replying_to,
        final(dialog).editing_message == old(dialog).editing_message,
{
}

/// Every thread shows in the dialog, message for message in order as it was
/// written, and authors may change their own messages and delete their own
/// threads and no others.
pub proof fn the_dialog_shows_every_thread(dialog: CommentDialog, view: CommentDialogView)
    requires
        call_ensures(CommentDialog::render, (&dialog,), view),
    ensures
        view.threads@.len() == dialog.comments@.len(),
        view.create_label is Some <==> dialog.selection.0 != dialog.selection.1,
        forall|t: int|
            0 <= t < dialog.comments@.len() ==> {
                let shown = #[trigger] view.threads@[t];
                let thread = dialog.comments@[t];
                &&& shown.comment_id == thread.comment_id
                &&& shown.dimmed == thread.resolved
                &&& shown.resolve_label@ == (if thread.resolved {
                    "Reopen"@
                } else {
                    "Resolve"@
                })
                &&& shown.replying <==> dialog.replying_to == Some(thread.comment_id)
                &&& shown.can_delete <==> thread.messages@.len() > 0
                    && thread.messages@[0].author_user_id == dialog.author_user_id
                &&& shown.messages@.len() == thread.messages@.len()
                &&& forall|m: int|
                    0 <= m < thread.messages@.len() ==> {
                        let line = #[trigger] shown.messages@[m];
                        let message = thread.messages@[m];
                        &&& line.message_id == message.message_id
                        &&& line.author@ == message.author_display_name@
                        &&& line.body@ == message.body@
                        &&& line.can_edit ==> message.author_user_id == dialog.author_user_id
                        &&& message.author_user_id == dialog.author_user_id
                            && dialog.editing_message is None ==> line.can_edit
                        &&& line.editing <==> dialog.editing_message == Some(
                            (thread.comment_id, message.message_id),
                        )
                    }
            },
{
    assert forall|t: int| 0 <= t < dialog.comments@.len() implies
        crate::comment_dialog::dialog_thread_shown(
        #[trigger] view.threads@[t],
        dialog,
        dialog.comments@[t],
    ) by {}
}

/// The dialog on revisions shows that it waits, then every revision in order as
/// it is, or why there are none.
pub proof fn the_revisions_show_in_order(
    panel_id: PanelId,
    requested: bool,
    opened: RevisionDialog,
    first: RevisionDialogView,
    dialog: &mut RevisionDialog,
    revisions: Vec<RevisionSummary>,
    view: RevisionDialogView,
)
    requires
        call_ensures(RevisionDialog::new, (panel_id, requested), opened),
        call_ensures(RevisionDialog::render, (&opened,), first),
        *old(dialog) == opened,
        call_ensures(
            RevisionDialog::finish,
            (dialog, RevisionReply::Revisions(revisions)),
            (),
        ),
        call_ensures(RevisionDialog::render, (&*final(dialog),), view),
    ensures
        requested ==> first is Loading,
        !requested ==> first is Error,
        requested && revisions@.len() == 0 ==> view is Empty,
        requested && revisions@.len() > 0 ==> (view matches RevisionDialogView::List(rows) && {
            &&& rows@.len() == revisions@.len()
            &&& forall|i: int|
                0 <= i < rows@.len() ==> (#[trigger] rows@[i]).revision_id
                    == revisions@[i].revision_id && rows@[i].title@ == revisions@[i].title@
                    && rows@[i].summary@ == revisions@[i].summary@
        }),
        final(dialog).panel_id == panel_id,
{
    if let RevisionDialogView::List(rows) = view {
        assert forall|i: int| 0 <= i < rows@.len() implies crate::revision_dialog::row_of(
            #[trigger] rows@[i],
            final(dialog).revisions@[i],
        ) by {}
    }
}

/// A request for revisions that failed says why.
pub proof fn a_failed_request_says_why(
    dialog: &mut RevisionDialog,
    error: String,
    view: RevisionDialogView,
)
    requires
        call_ensures(RevisionDialog::finish, (dialog, RevisionReply::Failed(error)), ()),
        call_ensures(RevisionDialog::render, (&*final(dialog),), view),
    ensures
        view matches RevisionDialogView::Error(text) && text@ == error@,
{
}

/// What is committed of an equation is what was typed, without the white space
/// round it: in place of the one that is edited, or as a new one; and nothing
/// where nothing was typed. The preview shows the same.
pub proof fn an_equation_is_committed_as_typed(
    composer: &mut EquationComposer,
    source: &str,
    commit: EquationCommit,
    preview: EquationPreview,
)
    requires
        call_ensures(EquationComposer::set_source, (composer, source), ()),
        call_ensures(EquationComposer::commit, (&*final(composer),), commit),
        call_ensures(EquationComposer::preview, (&*final(composer),), preview),
    ensures
        commit is Nothing <==> !says_something(source@),
        commit is Insert <==> says_something(source@) && old(composer).equation is None,
        commit matches EquationCommit::Insert(text) ==> is_core_of(text@, source@),
        commit matches EquationCommit::Replace(id, text) ==> old(composer).equation == Some(id)
            && is_core_of(text@, source@),
        preview is Render <==> says_something(source@),
        preview matches EquationPreview::Render(text) ==> is_core_of(text@, source@),
{
    lemma_core(source@);
}

} // verus!
