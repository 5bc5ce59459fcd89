//! The dialog that lists a document's revisions.

use crate::comment_dialog::reads;
use crate::comments::{failure, failure_text};
use crate::pane::PanelId;
use crate::text::{hexadecimal, padded_hexadecimal_text, zero_padded};
use vstd::prelude::*;

verus! {

/// A revision that can be opened.
#[derive(Debug)]
pub struct RevisionSummary {
    pub revision_id: u128,
    pub title: String,
    pub summary: String,
}

/// What a request for revisions brought.
#[derive(Debug)]
pub enum RevisionReply {
    Revisions(Vec<RevisionSummary>),
    Failed(String),
    /// The request was dropped.
    Closed(String),
}

/// The dialog's state.
#[derive(Debug)]
pub struct RevisionDialog {
    pub panel_id: PanelId,
    pub loading: bool,
    pub error: Option<String>,
    pub revisions: Vec<RevisionSummary>,
}

/// A line of the dialog.
#[derive(Debug)]
pub struct RevisionRow {
    pub revision_id: u128,
    pub title: String,
    pub summary: String,
    pub short_id: String,
}

/// What the dialog shows.
#[derive(Debug)]
pub enum RevisionDialogView {
    Loading,
    Error(String),
    Empty,
    /// A line for each revision, in order.
    List(Vec<RevisionRow>),
}

/// The line of a revision.
pub open spec fn row_of(row: RevisionRow, revision: RevisionSummary) -> bool {
    &&& row.revision_id == revision.revision_id
    &&& row.title@ == revision.title@
    &&& row.summary@ == revision.summary@
    &&& row.short_id@ == short_id(revision.revision_id)
}

impl RevisionDialog {
    /// A dialog that waits for the revisions, or says that there are none to
    /// ask for.
    pub fn new(panel_id: PanelId, requested: bool) -> (dialog: Self)
        ensures
            dialog.panel_id == panel_id,
            dialog.loading == requested,
            dialog.revisions@.len() == 0,
            requested ==> dialog.error is None,
            !requested ==> reads(dialog.error, "This document has no revision runtime."@),
    {
        RevisionDialog {
            panel_id,
            loading: requested,
            error: if requested {
                None
            } else {
                Some(String::from_str("This document has no revision runtime."))
            },
            revisions: Vec::new(),
        }
    }

    /// Takes what the request brought.
    pub fn finish(&mut self, reply: RevisionReply)
        ensures
            match reply {
                RevisionReply::Revisions(revisions) => *final(self) == (RevisionDialog {
                    loading: false,
                    revisions,
                    ..*old(self)
                }),
                RevisionReply::Failed(error) => *final(self) == (RevisionDialog {
                    loading: false,
                    error: Some(error),
                    ..*old(self)
                }),
                RevisionReply::Closed(error) => {
                    &&& reads(
                        final(self).error,
                        failure_text("Revision request closed: "@, error@),
                    )
                    &&& *final(self) == (RevisionDialog {
                        loading: false,
                        error: final(self).error,
                        ..*old(self)
                    })
                },
            },
    {
        self.loading = false;
        match reply {
            RevisionReply::Revisions(revisions) => self.revisions = revisions,
            RevisionReply::Failed(error) => self.error = Some(error),
            RevisionReply::Closed(error) => {
                self.error = Some(failure("Revision request closed: ", error.as_str()));
            },
        }
    }

    /// The dialog as it stands.
    pub fn render(&self) -> (view: RevisionDialogView)
        ensures
            match view {
                RevisionDialogView::Loading => self.loading,
                RevisionDialogView::Error(error) => !self.loading && reads(self.error, error@),
                RevisionDialogView::Empty => !self.loading && self.error is None
                    && self.revisions@.len() == 0,
                RevisionDialogView::List(rows) => {
                    &&& !self.loading
                    &&& self.error is None
                    &&& self.revisions@.len() > 0
                    &&& rows@.len() == self.revisions@.len()
                    &&& forall|i: int|
                        0 <= i < rows@.len() ==> row_of(#[trigger] rows@[i], self.revisions@[i])
                },
            },
    {
        if self.loading {
            return RevisionDialogView::Loading;
        }
        if let Some(error) = &self.error {
            return RevisionDialogView::Error(error.clone());
        }
        if self.revisions.len() == 0 {
            return RevisionDialogView::Empty;
        }
        let mut rows: Vec<RevisionRow> = Vec::new();
        let mut next: usize = 0;
        while next < self.revisions.len()
            invariant
                next <= self.revisions@.len(),
                rows@.len() == next,
                forall|i: int|
                    0 <= i < next ==> row_of(#[trigger] rows@[i], self.revisions@[i]),
            decreases self.revisions@.len() - next,
        {
            let revision = &self.revisions[next];
            let low: u128 = revision.revision_id % 0x1_0000_0000_0000_0000;
            rows.push(
                RevisionRow {
                    revision_id: revision.revision_id,
                    title: revision.title.clone(),
                    summary: revision.summary.clone(),
                    short_id: padded_hexadecimal_text(low, 8),
                },
            );
            next = next + 1;
        }
        RevisionDialogView::List(rows)
    }
}

/// A revision's id as the list shows it: its lower half in hexadecimal, at
/// least eight digits.
pub open spec fn short_id(revision_id: u128) -> Seq<char> {
    zero_padded(hexadecimal((revision_id % 0x1_0000_0000_0000_0000) as nat), 8)
}

} // verus!
