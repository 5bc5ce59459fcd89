//! Sharing and joining documents: what each step answers.

use crate::comments::{failure, failure_text};
use crate::panels::{OpenPanels, PanelKind};
use crate::pane::PanelId;
use vstd::prelude::*;

verus! {

/// Something to tell the user.
#[derive(Debug)]
pub struct Notice {
    pub critical: bool,
    pub title: String,
    pub detail: String,
}

/// The notice says so.
pub open spec fn notifies(
    notice: Notice,
    critical: bool,
    title: Seq<char>,
    detail: Seq<char>,
) -> bool {
    notice.critical == critical && notice.title@ == title && notice.detail@ == detail
}

fn failed(title: &str, detail: &str) -> (notice: Notice)
    ensures
        notifies(notice, true, title@, detail@),
{
    Notice {
        critical: true,
        title: String::from_str(title),
        detail: String::from_str(detail),
    }
}

/// How copying an invite goes on.
#[derive(Debug)]
pub enum ShareStep {
    /// Nothing is open.
    NothingOpen,
    /// Wait for the invite.
    AwaitTicket,
    /// Share the document first.
    StartSession,
    Stop(Notice),
}

/// How copying an invite begins: a document that is shared already has its
/// invite asked for, another is shared first.
pub fn copy_active_collaboration_ticket(active: Option<PanelId>, ticket_requested: bool) -> (step: ShareStep)
    ensures
        match step {
            ShareStep::NothingOpen => active is None,
            ShareStep::AwaitTicket => active is Some && ticket_requested,
            ShareStep::StartSession => active is Some && !ticket_requested,
            ShareStep::Stop(_) => false,
        },
{
    if active.is_none() {
        ShareStep::NothingOpen
    } else if ticket_requested {
        ShareStep::AwaitTicket
    } else {
        ShareStep::StartSession
    }
}

/// How copying an invite goes on once the document was to be shared.
pub fn copy_ticket_after_start(started: bool, ticket_requested: bool) -> (step: ShareStep)
    ensures
        match step {
            ShareStep::AwaitTicket => started && ticket_requested,
            ShareStep::Stop(notice) => !(started && ticket_requested) && notifies(
                notice,
                true,
                "Share failed"@,
                if started {
                    "The collaboration ticket is not available yet."@
                } else {
                    "The active document could not be shared."@
                },
            ),
            _ => false,
        },
{
    if !started {
        return ShareStep::Stop(
            failed("Share failed", "The active document could not be shared."),
        );
    }
    if !ticket_requested {
        return ShareStep::Stop(
            failed("Share failed", "The collaboration ticket is not available yet."),
        );
    }
    ShareStep::AwaitTicket
}

/// What is told once the invite has come, or has not.
pub fn copy_ticket_end(result: Result<(), String>) -> (notice: Notice)
    ensures
        match result {
            Ok(_) => notifies(
                notice,
                false,
                "Invite copied"@,
                "A Flowstate invite link was copied to the clipboard."@,
            ),
            Err(error) => notifies(
                notice,
                true,
                "Share failed"@,
                failure_text("Creating collaboration invite failed: "@, error@),
            ),
        },
{
    match result {
        Ok(_) => Notice {
            critical: false,
            title: String::from_str("Invite copied"),
            detail: String::from_str("A Flowstate invite link was copied to the clipboard."),
        },
        Err(error) => {
            let detail = failure("Creating collaboration invite failed: ", error.as_str());
            failed("Share failed", detail.as_str())
        },
    }
}

/// What the clipboard holds.
#[derive(Debug)]
pub enum Clipboard {
    Empty,
    NoText,
    Text(String),
}

/// How joining from the clipboard begins: its text is read as an invite, or
/// the user hears why not.
pub fn join_collaboration_from_clipboard(clipboard: Clipboard) -> (text: Result<String, Notice>)
    ensures
        match (clipboard, text) {
            (Clipboard::Text(held), Ok(text)) => text == held,
            (Clipboard::Empty, Err(notice)) => notifies(
                notice,
                true,
                "Join failed"@,
                "The clipboard does not contain a collaboration invite ticket."@,
            ),
            (Clipboard::NoText, Err(notice)) => notifies(
                notice,
                true,
                "Join failed"@,
                "The clipboard does not contain text."@,
            ),
            _ => false,
        },
{
    match clipboard {
        Clipboard::Text(text) => Ok(text),
        Clipboard::Empty => Err(
            failed("Join failed", "The clipboard does not contain a collaboration invite ticket."),
        ),
        Clipboard::NoText => Err(failed("Join failed", "The clipboard does not contain text.")),
    }
}

/// Why joining failed.
#[derive(Debug)]
pub enum JoinFailure {
    BadInvite(String),
    Session(String),
    ServicesMissing,
    RuntimeStart(String),
    KindMismatch,
    Attachment(String),
}

impl JoinFailure {
    /// How a failed join is told.
    pub open spec fn detail(self) -> Seq<char> {
        match self {
            JoinFailure::BadInvite(error) => failure_text(
                "The clipboard text is not a valid collaboration invite: "@,
                error@,
            ),
            JoinFailure::Session(error) => failure_text(
                "Joining collaboration session failed: "@,
                error@,
            ),
            JoinFailure::ServicesMissing => "The joined collaboration document is unavailable."@,
            JoinFailure::RuntimeStart(error) => failure_text(
                "Joined document runtime could not be started: "@,
                error@,
            ),
            JoinFailure::KindMismatch => "The joined collaboration document kind is inconsistent."@,
            JoinFailure::Attachment(error) => failure_text(
                "Joined document opened, but collaboration attachment failed: "@,
                error@,
            ),
        }
    }

    /// How a failed join is told.
    pub fn notice(&self) -> (notice: Notice)
        ensures
            notifies(notice, true, "Join failed"@, self.detail()),
    {
        let detail = match self {
            JoinFailure::BadInvite(error) => failure(
                "The clipboard text is not a valid collaboration invite: ",
                error.as_str(),
            ),
            JoinFailure::Session(error) => failure(
                "Joining collaboration session failed: ",
                error.as_str(),
            ),
            JoinFailure::ServicesMissing => String::from_str(
                "The joined collaboration document is unavailable.",
            ),
            JoinFailure::RuntimeStart(error) => failure(
                "Joined document runtime could not be started: ",
                error.as_str(),
            ),
            JoinFailure::KindMismatch => String::from_str(
                "The joined collaboration document kind is inconsistent.",
            ),
            JoinFailure::Attachment(error) => failure(
                "Joined document opened, but collaboration attachment failed: ",
                error.as_str(),
            ),
        };
        failed("Join failed", detail.as_str())
    }
}

/// What a joined session opens as: its document, its write authority and its
/// service must be of one kind.
pub fn joined_kind(
    payload: PanelKind,
    services: Option<(PanelKind, PanelKind)>,
) -> (kind: Result<PanelKind, JoinFailure>)
    ensures
        match services {
            None => kind == Err::<PanelKind, JoinFailure>(JoinFailure::ServicesMissing),
            Some((authority, io)) => if payload == authority && authority == io {
                kind == Ok::<PanelKind, JoinFailure>(payload)
            } else {
                kind == Err::<PanelKind, JoinFailure>(JoinFailure::KindMismatch)
            },
        },
{
    match services {
        None => Err(JoinFailure::ServicesMissing),
        Some((authority, io)) => if payload == authority && authority == io {
            Ok(payload)
        } else {
            Err(JoinFailure::KindMismatch)
        },
    }
}

/// Which kind of session a panel starts: none where it is not open or its
/// service is not there. A flow comes before a document.
pub fn start_collaboration_on_document(
    panels: &OpenPanels,
    panel: PanelId,
    has_document_service: bool,
    has_flow_service: bool,
) -> (kind: Option<PanelKind>)
    ensures
        kind == (if panels@.flows.contains(panel) {
            if has_flow_service {
                Some(PanelKind::Flow)
            } else {
                None
            }
        } else if panels@.documents.contains(panel) && has_document_service {
            Some(PanelKind::Document)
        } else {
            None
        }),
{
    if crate::panels::holds_panel(&panels.flows, panel) {
        if has_flow_service {
            return Some(PanelKind::Flow);
        }
        return None;
    }
    if crate::panels::holds_panel(&panels.documents, panel) && has_document_service {
        Some(PanelKind::Document)
    } else {
        None
    }
}

/// The panels whose sessions end when all are left: the documents.
pub fn leave_all_collaboration_sessions(panels: &OpenPanels) -> (left: Vec<PanelId>)
    ensures
        left@ == panels@.documents,
{
    let mut left: Vec<PanelId> = Vec::new();
    let mut next: usize = 0;
    while next < panels.documents.len()
        invariant
            next <= panels.documents@.len(),
            left@ == panels.documents@.take(next as int),
        decreases panels.documents@.len() - next,
    {
        left.push(panels.documents[next]);
        next = next + 1;
        assert(left@ =~= panels.documents@.take(next as int));
    }
    assert(panels.documents@.take(next as int) =~= panels.documents@);
    left
}

/// The panel that the dialog is about: the one on top.
pub fn open_collaboration_dialog_with_mode(panels: &OpenPanels) -> (panel: Option<PanelId>)
    ensures
        panel == (match panels@.active {
            Some((id, _)) => Some(id),
            None => None,
        }),
{
    match panels.active {
        Some((id, _)) => Some(id),
        None => None,
    }
}

/// By what a panel's session is found nearby: its document's id and file. A
/// document is looked at before a flow, and either needs a file.
pub fn collaboration_discovery_context(
    document: Option<(u128, Option<String>)>,
    flow: Option<(Option<u128>, Option<String>)>,
) -> (context: Option<(u128, String)>)
    ensures
        context == (match (document, flow) {
            (Some((id, Some(path))), _) => Some((id, path)),
            (Some((_, None)), _) => None,
            (None, Some((Some(id), Some(path)))) => Some((id, path)),
            _ => None,
        }),
{
    match document {
        Some((id, Some(path))) => Some((id, path)),
        Some((_, None)) => None,
        None => match flow {
            Some((Some(id), Some(path))) => Some((id, path)),
            _ => None,
        },
    }
}

} // verus!
