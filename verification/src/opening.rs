//! Starting a window and opening files.

use crate::load::{IoError, IoErrorKind};
use crate::pane::PanelId;
use crate::panels::{open_failed_detail, OpenPanels, PanelKind, PanelsView};
use crate::paths::{document_format, format_of, imported_title, stem_of, DocumentFormat};
use vstd::prelude::*;
use vstd::string::StringExecFns;

verus! {

/// What a new window does, in order.
#[derive(Debug)]
pub enum StartupStep {
    /// Load the pictures of the recent documents.
    RefreshPreviews,
    /// Settings could not be read: say so.
    ReportWarning(String),
    LoadTub(String),
    /// Open this file once the window is laid out.
    OpenPath(String),
    /// Bring back the tabs of the last session once the window is laid out.
    RestoreSession,
}

/// What a new window does: a file that it was started with comes before the
/// tabs of the last session, which come back only in the window that owns
/// them.
pub fn startup(
    warning: Option<String>,
    tub_root: Option<String>,
    initial_path: Option<String>,
    has_session: bool,
    session_owner: bool,
) -> (steps: Vec<StartupStep>)
    ensures
        steps@ == startup_steps(
            warning,
            tub_root,
            initial_path,
            has_session && session_owner,
        ),
{
    let mut steps: Vec<StartupStep> = Vec::new();
    steps.push(StartupStep::RefreshPreviews);
    if let Some(warning) = warning {
        steps.push(StartupStep::ReportWarning(warning));
    }
    if let Some(root) = tub_root {
        steps.push(StartupStep::LoadTub(root));
    }
    match initial_path {
        Some(path) => {
            steps.push(StartupStep::OpenPath(path));
        },
        None => {
            if has_session && session_owner {
                steps.push(StartupStep::RestoreSession);
            }
        },
    }
    assert(steps@ =~= startup_steps(
        warning,
        tub_root,
        initial_path,
        has_session && session_owner,
    ));
    steps
}

/// What a new window does, in order.
pub open spec fn startup_steps(
    warning: Option<String>,
    tub_root: Option<String>,
    initial_path: Option<String>,
    restores: bool,
) -> Seq<StartupStep> {
    seq![StartupStep::RefreshPreviews] + (match warning {
        Some(warning) => seq![StartupStep::ReportWarning(warning)],
        None => Seq::empty(),
    }) + (match tub_root {
        Some(root) => seq![StartupStep::LoadTub(root)],
        None => Seq::empty(),
    }) + (match initial_path {
        Some(path) => seq![StartupStep::OpenPath(path)],
        None => if restores {
            seq![StartupStep::RestoreSession]
        } else {
            Seq::empty()
        },
    })
}

/// What the zoom slider zooms.
pub fn zoom_target(document_active: bool, flow_active: bool) -> (target: Option<PanelKind>)
    ensures
        target == (if document_active {
            Some(PanelKind::Document)
        } else if flow_active {
            Some(PanelKind::Flow)
        } else {
            None
        }),
{
    if document_active {
        Some(PanelKind::Document)
    } else if flow_active {
        Some(PanelKind::Flow)
    } else {
        None
    }
}

/// How a file is loaded.
#[derive(Debug)]
pub enum LoadPlan {
    Flow,
    /// Convert a word processor's file, or take the picture that was kept of
    /// it, and import it under a title.
    Import { import_title: String },
    /// Take the package out of a PDF.
    Extract,
    /// Open a package; one that is not there begins blank under its name.
    Package,
}

/// How a file is loaded, and the title of its document.
#[derive(Debug)]
pub struct LoadedAs {
    pub plan: LoadPlan,
    /// The file is where the document is saved: an imported one never
    /// overwrites its source.
    pub keeps_path: bool,
    pub title: Option<String>,
}

/// How a file of a name opens.
pub open spec fn opens_as(file_name: Option<Seq<char>>) -> DocumentFormat {
    match file_name {
        Some(name) => format_of(name),
        None => DocumentFormat::Native,
    }
}

/// An imported file's title.
pub open spec fn title_as_document(file_name: Seq<char>) -> Seq<char> {
    stem_of(file_name) + ".db8"@
}

/// How a file is loaded, by its name.
pub fn load_document_for_open(file_name: Option<&str>) -> (loaded: LoadedAs)
    ensures
        ({
            let name = match file_name {
                Some(name) => Some(name@),
                None => None,
            };
            let format = opens_as(name);
            &&& match loaded.plan {
                LoadPlan::Flow => format == DocumentFormat::Flow,
                LoadPlan::Import { import_title } => format == DocumentFormat::Docx
                    && import_title@ == title_as_document(name->0),
                LoadPlan::Extract => format == DocumentFormat::Pdf,
                LoadPlan::Package => format == DocumentFormat::Native,
            }
            &&& loaded.keeps_path == (format == DocumentFormat::Native || format
                == DocumentFormat::Flow)
            &&& match loaded.title {
                Some(title) => !loaded.keeps_path && title@ == title_as_document(name->0),
                None => loaded.keeps_path,
            }
        }),
{
    let name = match file_name {
        None => {
            return LoadedAs { plan: LoadPlan::Package, keeps_path: true, title: None };
        },
        Some(name) => name,
    };
    match document_format(name) {
        DocumentFormat::Flow => LoadedAs { plan: LoadPlan::Flow, keeps_path: true, title: None },
        DocumentFormat::Native => LoadedAs {
            plan: LoadPlan::Package,
            keeps_path: true,
            title: None,
        },
        DocumentFormat::Docx => {
            let import_title = match imported_title(Some(name)) {
                Some(title) => title,
                None => String::from_str("Imported Document"),
            };
            LoadedAs {
                plan: LoadPlan::Import { import_title },
                keeps_path: false,
                title: imported_title(Some(name)),
            }
        },
        DocumentFormat::Pdf => LoadedAs {
            plan: LoadPlan::Extract,
            keeps_path: false,
            title: imported_title(Some(name)),
        },
    }
}

/// A file that is converted never becomes the place where its document is
/// saved, so that no save overwrites it.
pub proof fn an_import_spares_its_source(file_name: Seq<char>, loaded: LoadedAs, name: &str)
    requires
        name@ == file_name,
        call_ensures(load_document_for_open, (Some(name),), loaded),
        format_of(file_name) == DocumentFormat::Docx || format_of(file_name) == DocumentFormat::Pdf,
    ensures
        !loaded.keeps_path,
        loaded.title is Some,
{
}

/// The package inside a PDF: one without it is of another make.
pub fn pdf_package(bytes: Option<Vec<u8>>) -> (package: Result<Vec<u8>, IoError>)
    ensures
        match (bytes, package) {
            (Some(bytes), Ok(package)) => package == bytes,
            (None, Err(error)) => error.kind == IoErrorKind::InvalidData && error.message@
                == "PDF does not contain embedded Flowstate DB8 data"@,
            _ => false,
        },
{
    match bytes {
        Some(bytes) => Ok(bytes),
        None => Err(
            IoError {
                kind: IoErrorKind::InvalidData,
                message: String::from_str("PDF does not contain embedded Flowstate DB8 data"),
            },
        ),
    }
}

/// Where the picture of a file on the opening screen comes from.
#[derive(Clone, Copy, Debug, PartialEq, Eq, Structural)]
pub enum PreviewPlan {
    /// Convert the file, and keep the picture for opening it.
    ConvertAndKeep,
    /// Take the package out of the PDF.
    Extract,
    /// Read the package: its own picture where it holds one.
    Package,
}

/// Where the picture of a file on the opening screen comes from.
pub fn load_document_preview(file_name: Option<&str>) -> (plan: PreviewPlan)
    ensures
        plan == (match opens_as(
            match file_name {
                Some(name) => Some(name@),
                None => None,
            },
        ) {
            DocumentFormat::Docx => PreviewPlan::ConvertAndKeep,
            DocumentFormat::Pdf => PreviewPlan::Extract,
            _ => PreviewPlan::Package,
        }),
{
    match file_name {
        None => PreviewPlan::Package,
        Some(name) => match document_format(name) {
            DocumentFormat::Docx => PreviewPlan::ConvertAndKeep,
            DocumentFormat::Pdf => PreviewPlan::Extract,
            _ => PreviewPlan::Package,
        },
    }
}

/// A file that is being opened.
#[derive(Debug)]
pub struct Opening {
    pub path: String,
    /// The paragraph to show.
    pub target: Option<usize>,
    /// The panel that shows a picture of the file meanwhile.
    pub pending: Option<PanelId>,
}

/// What loading a file gave.
#[derive(Debug)]
pub enum LoadOutcome {
    /// A document, and whether its services started.
    Document { started: Result<(), String> },
    Flow,
    Failed(String),
}

/// What follows a load.
#[derive(Debug)]
pub enum OpenEnd {
    /// The panel with the picture can be edited now.
    Attached(PanelId),
    /// The panel with the picture stays as it is: the document's services
    /// did not start.
    StaysReadOnly(PanelId),
    /// A new panel shows the document.
    NewDocument(PanelId),
    /// Say that the document's services did not start.
    NotStarted(String),
    NewFlow(PanelId),
    /// Say that the file did not open.
    Failed(String),
}

impl Opening {
    pub fn new(path: String, target: Option<usize>) -> (opening: Self)
        ensures
            opening == (Opening { path, target, pending: None }),
    {
        Opening { path, target, pending: None }
    }

    /// A quick picture of the file is there, or is not: a panel shows it
    /// before the document can be edited, at the paragraph that was asked
    /// for.
    pub fn quick_picture(&mut self, panels: &mut OpenPanels, has_picture: bool, id: PanelId) -> (
        scroll_to: Option<usize>)
        ensures
            if has_picture {
                &&& final(panels)@ == (PanelsView {
                    pending_authority: old(panels)@.pending_authority.insert(id),
                    ..old(panels)@.document_opened(id)
                })
                &&& *final(self) == (Opening { pending: Some(id), ..*old(self) })
                &&& scroll_to == old(self).target
            } else {
                &&& *final(panels) == *old(panels)
                &&& *final(self) == *old(self)
                &&& scroll_to is None
            },
    {
        if !has_picture {
            return None;
        }
        panels.create_pending_document_panel(id);
        self.pending = Some(id);
        self.target
    }

    /// The file has loaded. A document goes into the panel with its picture,
    /// if that is still open and waiting, else into a new one; a flow goes
    /// into a new one. The paragraph that was asked for shows.
    pub fn finish(&self, panels: &mut OpenPanels, outcome: LoadOutcome, id: PanelId) -> (end: (
        OpenEnd,
        Option<usize>,
    ))
        ensures
            ends_as(*self, old(panels)@, final(panels)@, outcome, id, end.0),
            end.1 == (if outcome is Document {
                self.target
            } else {
                None
            }),
    {
        match outcome {
            LoadOutcome::Failed(error) => (
                OpenEnd::Failed(open_failed_detail(self.path.as_str(), error.as_str())),
                None,
            ),
            LoadOutcome::Flow => {
                panels.create_flow_panel(id);
                (OpenEnd::NewFlow(id), None)
            },
            LoadOutcome::Document { started } => {
                if let Some(pending) = self.pending {
                    if panels.attach_runtime_to_pending_panel(pending) {
                        return match started {
                            Ok(_) => (OpenEnd::Attached(pending), self.target),
                            Err(_) => (OpenEnd::StaysReadOnly(pending), self.target),
                        };
                    }
                }
                match started {
                    Ok(_) => {
                        panels.create_document_panel(id);
                        (OpenEnd::NewDocument(id), self.target)
                    },
                    Err(error) => (
                        OpenEnd::NotStarted(add_document_panel_failed(error.as_str())),
                        self.target,
                    ),
                }
            },
        }
    }
}

/// A panel with the picture of the file is open and waits for it.
pub open spec fn waits(opening: Opening, panels: PanelsView) -> bool {
    opening.pending is Some && panels.documents.contains(opening.pending->0)
        && panels.pending_authority.contains(opening.pending->0)
}

/// How a load ends, and what it leaves open.
pub open spec fn ends_as(
    opening: Opening,
    before: PanelsView,
    after: PanelsView,
    outcome: LoadOutcome,
    id: PanelId,
    end: OpenEnd,
) -> bool {
    let settled = settled(before, opening.pending);
    match (outcome, end) {
        (LoadOutcome::Document { started }, OpenEnd::Attached(panel)) => waits(opening, before)
            && started is Ok && Some(panel) == opening.pending && after == settled,
        (LoadOutcome::Document { started }, OpenEnd::StaysReadOnly(panel)) => waits(opening, before)
            && started is Err && Some(panel) == opening.pending && after == settled,
        (LoadOutcome::Document { started }, OpenEnd::NewDocument(panel)) => !waits(opening, before)
            && started is Ok && panel == id && after == settled.document_opened(id),
        (LoadOutcome::Document { started: Err(error) }, OpenEnd::NotStarted(detail)) => !waits(
            opening,
            before,
        ) && after == settled && detail@ == "The canonical Loro runtime could not be started: "@
            + error@,
        (LoadOutcome::Flow, OpenEnd::NewFlow(panel)) => panel == id && after == before.flow_opened(
            id,
        ),
        (LoadOutcome::Failed(error), OpenEnd::Failed(detail)) => after == before && detail@
            == "Failed to open "@ + opening.path@ + ": "@ + error@,
        _ => false,
    }
}

/// The panels with one waiting no more.
pub open spec fn settled(panels: PanelsView, pending: Option<PanelId>) -> PanelsView {
    match pending {
        Some(id) => PanelsView {
            pending_authority: panels.pending_authority.remove(id),
            ..panels
        },
        None => panels,
    }
}

/// Opening a file with a quick picture ends with one panel for it, not two:
/// unless the panel was closed meanwhile, the document goes where its picture
/// is.
pub proof fn a_file_opens_in_one_panel(panels: PanelsView, id: PanelId)
    ensures
        ({
            let shown = PanelsView {
                pending_authority: panels.pending_authority.insert(id),
                ..panels.document_opened(id)
            };
            &&& shown.documents.contains(id)
            &&& shown.pending_authority.contains(id)
            &&& settled(shown, Some(id)).documents == panels.documents.push(id)
            &&& settled(shown, Some(id)).active == Some((id, PanelKind::Document))
        }),
{
    let shown = PanelsView {
        pending_authority: panels.pending_authority.insert(id),
        ..panels.document_opened(id)
    };
    assert(shown.documents[panels.documents.len() as int] == id);
}

/// Where a new document's runtime comes from.
#[derive(Clone, Copy, Debug, PartialEq, Eq, Structural)]
pub enum DocumentRuntimeSource {
    /// It is made from what the panel shows.
    FromProjection,
    /// It was loaded, or forked.
    Runtime,
    /// It is live already, with its author.
    Attachment,
}

/// Whether the author is told to a new document's runtime: one that is live
/// already knows.
pub fn registers_author_identity(source: DocumentRuntimeSource) -> (b: bool)
    ensures
        b == (source != DocumentRuntimeSource::Attachment),
{
    match source {
        DocumentRuntimeSource::Attachment => false,
        _ => true,
    }
}

/// Why a document's runtime did not start.
#[derive(Debug)]
pub enum RuntimeFailure {
    Import(String),
    Runtime(String),
    Services(String),
    Projection(String),
}

/// How a failure to start is told.
pub fn create_failure(failure: RuntimeFailure) -> (text: String)
    ensures
        text@ == (match failure {
            RuntimeFailure::Import(error) => "creating canonical Loro document failed: "@ + error@,
            RuntimeFailure::Runtime(error) => "creating canonical Loro runtime failed: "@ + error@,
            RuntimeFailure::Services(error) => "starting Loro-first document services failed: "@
                + error@,
            RuntimeFailure::Projection(error) => "reading canonical startup projection failed: "@
                + error@,
        }),
{
    match failure {
        RuntimeFailure::Import(error) => told("creating canonical Loro document failed: ", &error),
        RuntimeFailure::Runtime(error) => told("creating canonical Loro runtime failed: ", &error),
        RuntimeFailure::Services(error) => told(
            "starting Loro-first document services failed: ",
            &error,
        ),
        RuntimeFailure::Projection(error) => told(
            "reading canonical startup projection failed: ",
            &error,
        ),
    }
}

/// What a window says when a document's panel could not be made.
pub fn add_document_panel_failed(error: &str) -> (text: String)
    ensures
        text@ == "The canonical Loro runtime could not be started: "@ + error@,
{
    let error = String::from_str(error);
    told("The canonical Loro runtime could not be started: ", &error)
}

fn told(what: &str, error: &String) -> (text: String)
    ensures
        text@ == what@ + error@,
{
    let mut text = String::from_str(what);
    text.append(error.as_str());
    text
}

/// How a failure to show a comment's original context is told: the document
/// is not open yet, or the look back failed.
pub fn comment_history_failed(error: Option<&str>) -> (text: String)
    ensures
        text@ == "Opening the comment's original context failed: "@ + (match error {
            Some(error) => error@,
            None => "the document is still opening"@,
        }),
{
    let mut text = String::from_str("Opening the comment's original context failed: ");
    text.append(
        match error {
            Some(error) => error,
            None => "the document is still opening",
        },
    );
    text
}

} // verus!
