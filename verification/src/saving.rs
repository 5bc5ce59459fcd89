//! Saving a panel: asking where, and what became of it.

use crate::closing::PanelSaveOutcome;
use crate::panels::PanelKind;
use crate::paths::{
    document_package_title_for_path, named_with, normalize_db8_path, normalize_fl0_path, SavePath,
    UNTITLED_DOCUMENT_NAME, UNTITLED_FLOW_NAME,
};
use vstd::prelude::*;
use vstd::string::StringExecFns;

verus! {

/// What a save does next.
#[derive(Debug)]
pub enum SaveStep {
    /// Save in place.
    Save,
    /// Ask where to save, under a suggested name.
    AskPath(&'static str),
    SaveAs(SavePath),
    Done(PanelSaveOutcome),
}

/// What the question where to save brought.
#[derive(Debug)]
pub enum PathAnswer {
    Path(SavePath),
    Cancelled,
    /// The question could not be asked.
    NotAsked(String),
    Refused(String),
    /// The question went away without an answer.
    Closed(String),
}

/// What became of writing a panel.
#[derive(Debug)]
pub enum WriteResult {
    Written,
    Failed(String),
    /// The panel's editor is gone.
    NoAccess(String),
}

/// The name that is suggested for a panel without a file.
pub open spec fn suggested_name(kind: PanelKind) -> Seq<char> {
    match kind {
        PanelKind::Document => UNTITLED_DOCUMENT_NAME@,
        PanelKind::Flow => UNTITLED_FLOW_NAME@,
    }
}

/// The extension of a panel's files.
pub open spec fn own_extension(kind: PanelKind) -> Seq<char> {
    match kind {
        PanelKind::Document => ".db8"@,
        PanelKind::Flow => ".fl0"@,
    }
}

/// The path is the one picked, with the extension of the panel's files where
/// it had none.
pub open spec fn normalized_path(kind: PanelKind, picked: SavePath, path: SavePath) -> bool {
    &&& path.directory == picked.directory
    &&& path.name_text() == Some(
        named_with(picked.name_text(), suggested_name(kind), own_extension(kind)),
    )
}

/// How it is told that a panel's editor is gone.
pub open spec fn no_access_text(kind: PanelKind, error: Seq<char>) -> Seq<char> {
    (match kind {
        PanelKind::Document => "failed to access editor before save: "@,
        PanelKind::Flow => "failed to access flow before save: "@,
    }) + error
}

fn no_access(kind: PanelKind, error: &str) -> (text: String)
    ensures
        text@ == no_access_text(kind, error@),
{
    let mut text = String::from_str(
        match kind {
            PanelKind::Document => "failed to access editor before save: ",
            PanelKind::Flow => "failed to access flow before save: ",
        },
    );
    text.append(error);
    text
}

fn normalize(kind: PanelKind, picked: SavePath) -> (path: SavePath)
    ensures
        normalized_path(kind, picked, path),
{
    match kind {
        PanelKind::Document => normalize_db8_path(picked),
        PanelKind::Flow => normalize_fl0_path(picked),
    }
}

impl PanelKind {
    /// A save begins: a panel without a file asks for one first.
    pub fn save(self, has_path: Result<bool, String>) -> (step: SaveStep)
        ensures
            match (has_path, step) {
                (Ok(has_path), SaveStep::Save) => has_path,
                (Ok(has_path), SaveStep::AskPath(name)) => !has_path && name@ == suggested_name(
                    self,
                ),
                (Err(error), SaveStep::Done(PanelSaveOutcome::Failed(text))) => text@
                    == no_access_text(self, error@),
                _ => false,
            },
    {
        match has_path {
            Err(error) => SaveStep::Done(
                PanelSaveOutcome::Failed(no_access(self, error.as_str())),
            ),
            Ok(true) => SaveStep::Save,
            Ok(false) => SaveStep::AskPath(
                match self {
                    PanelKind::Document => UNTITLED_DOCUMENT_NAME,
                    PanelKind::Flow => UNTITLED_FLOW_NAME,
                },
            ),
        }
    }

    /// A save goes on when it is known where to.
    pub fn save_path_picked(self, answer: PathAnswer) -> (step: SaveStep)
        ensures
            match (answer, step) {
                (PathAnswer::Path(picked), SaveStep::SaveAs(path)) => normalized_path(
                    self,
                    picked,
                    path,
                ),
                (PathAnswer::Cancelled, SaveStep::Done(PanelSaveOutcome::Cancelled)) => true,
                (
                    PathAnswer::NotAsked(error),
                    SaveStep::Done(PanelSaveOutcome::Failed(text)),
                ) => text@ == "failed to open save dialog: "@ + error@,
                (PathAnswer::Refused(error), SaveStep::Done(PanelSaveOutcome::Failed(text))) => text
                    == error,
                (PathAnswer::Closed(error), SaveStep::Done(PanelSaveOutcome::Failed(text))) => text@
                    == "save dialog closed unexpectedly: "@ + error@,
                _ => false,
            },
    {
        match answer {
            PathAnswer::Path(picked) => SaveStep::SaveAs(normalize(self, picked)),
            PathAnswer::Cancelled => SaveStep::Done(PanelSaveOutcome::Cancelled),
            PathAnswer::NotAsked(error) => {
                let mut text = String::from_str("failed to open save dialog: ");
                text.append(error.as_str());
                SaveStep::Done(PanelSaveOutcome::Failed(text))
            },
            PathAnswer::Refused(error) => SaveStep::Done(PanelSaveOutcome::Failed(error)),
            PathAnswer::Closed(error) => {
                let mut text = String::from_str("save dialog closed unexpectedly: ");
                text.append(error.as_str());
                SaveStep::Done(PanelSaveOutcome::Failed(text))
            },
        }
    }

    /// A save ends.
    pub fn save_written(self, result: WriteResult) -> (outcome: PanelSaveOutcome)
        ensures
            match (result, outcome) {
                (WriteResult::Written, PanelSaveOutcome::Saved) => true,
                (WriteResult::Failed(error), PanelSaveOutcome::Failed(text)) => text == error,
                (WriteResult::NoAccess(error), PanelSaveOutcome::Failed(text)) => text@
                    == no_access_text(self, error@),
                _ => false,
            },
    {
        match result {
            WriteResult::Written => PanelSaveOutcome::Saved,
            WriteResult::Failed(error) => PanelSaveOutcome::Failed(error),
            WriteResult::NoAccess(error) => PanelSaveOutcome::Failed(
                no_access(self, error.as_str()),
            ),
        }
    }
}

/// What follows when the panel on top asked where to be saved.
#[derive(Debug)]
pub enum SaveAsStep {
    SaveAs(SavePath),
    /// Say that saving failed.
    Tell(String),
    Nothing,
}

/// What follows when the panel on top asked where to be saved: a question
/// that was given up saves nothing and says nothing.
pub fn prompt_save_active_as(kind: PanelKind, answer: PathAnswer) -> (step: SaveAsStep)
    ensures
        match (answer, step) {
            (PathAnswer::Path(picked), SaveAsStep::SaveAs(path)) => normalized_path(
                kind,
                picked,
                path,
            ),
            (PathAnswer::Refused(error), SaveAsStep::Tell(text)) => text == error,
            (
                PathAnswer::Cancelled | PathAnswer::Closed(_) | PathAnswer::NotAsked(_),
                SaveAsStep::Nothing,
            ) => true,
            _ => false,
        },
{
    match answer {
        PathAnswer::Path(picked) => SaveAsStep::SaveAs(normalize(kind, picked)),
        PathAnswer::Refused(error) => SaveAsStep::Tell(error),
        _ => SaveAsStep::Nothing,
    }
}

/// What follows a save of the panel on top.
#[derive(Debug)]
pub struct SaveFollowUp {
    /// The panel's file from now on.
    pub set_path: Option<SavePath>,
    pub persist_session: bool,
    /// A document's collaborators hear of the revision.
    pub refresh_collaborators: bool,
    /// Say that saving failed.
    pub failure: Option<String>,
}

/// What follows a save of the panel on top. An editor that is gone is not
/// told about.
pub fn active_saved(kind: PanelKind, saved_as: Option<SavePath>, result: WriteResult) -> (follow_up:
    SaveFollowUp)
    ensures
        match result {
            WriteResult::Written => follow_up == (SaveFollowUp {
                set_path: saved_as,
                persist_session: saved_as is Some,
                refresh_collaborators: kind == PanelKind::Document,
                failure: None,
            }),
            WriteResult::Failed(error) => follow_up == (SaveFollowUp {
                set_path: None,
                persist_session: false,
                refresh_collaborators: false,
                failure: Some(error),
            }),
            WriteResult::NoAccess(_) => follow_up == (SaveFollowUp {
                set_path: None,
                persist_session: false,
                refresh_collaborators: false,
                failure: None,
            }),
        },
{
    match result {
        WriteResult::Written => {
            let persist_session = saved_as.is_some();
            SaveFollowUp {
                set_path: saved_as,
                persist_session,
                refresh_collaborators: match kind {
                    PanelKind::Document => true,
                    PanelKind::Flow => false,
                },
                failure: None,
            }
        },
        WriteResult::Failed(error) => SaveFollowUp {
            set_path: None,
            persist_session: false,
            refresh_collaborators: false,
            failure: Some(error),
        },
        WriteResult::NoAccess(_) => SaveFollowUp {
            set_path: None,
            persist_session: false,
            refresh_collaborators: false,
            failure: None,
        },
    }
}

/// A step of a document's own save.
#[derive(Debug)]
pub enum PackageStep {
    /// Write the package, as a revision of this title.
    Checkpoint(String),
    /// Read the package back under this title, and sync it.
    SyncBound(String),
}

/// A package's title.
pub open spec fn package_title(file_name: Option<Seq<char>>) -> Seq<char> {
    match file_name {
        Some(name) => name,
        None => "Flowstate Document"@,
    }
}

/// The steps of a document's own save: a linked document is synced too.
pub fn native_save_steps(file_name: Option<&str>, bound: bool) -> (steps: Vec<PackageStep>)
    ensures
        ({
            let title = package_title(
                match file_name {
                    Some(name) => Some(name@),
                    None => None,
                },
            );
            &&& steps@.len() == (if bound {
                2int
            } else {
                1
            })
            &&& steps@[0] matches PackageStep::Checkpoint(own) && own@ == title
            &&& bound ==> (steps@[1] matches PackageStep::SyncBound(own) && own@ == title)
        }),
{
    let mut steps: Vec<PackageStep> = Vec::new();
    steps.push(PackageStep::Checkpoint(document_package_title_for_path(file_name)));
    if bound {
        steps.push(PackageStep::SyncBound(document_package_title_for_path(file_name)));
    }
    steps
}

/// What a document is exported as.
#[derive(Clone, Copy, Debug, PartialEq, Eq, Structural)]
pub enum DocumentExportFormat {
    Native,
    NativeWithExtension,
    Docx,
    Pdf,
}

/// What an export needs.
#[derive(Debug)]
pub struct ExportPlan {
    /// The package, under this title.
    pub package: Option<String>,
    /// What the document shows.
    pub projection: bool,
}

/// What an export needs: its own format the package, a word processor's file
/// what the document shows, and a PDF both.
pub fn native_export_plan(format: DocumentExportFormat, file_name: Option<&str>) -> (plan: ExportPlan)
    ensures
        plan.projection == (format == DocumentExportFormat::Docx || format
            == DocumentExportFormat::Pdf),
        match plan.package {
            Some(title) => format != DocumentExportFormat::Docx && title@ == (if format
                == DocumentExportFormat::Pdf {
                "PDF Source"@
            } else {
                package_title(
                    match file_name {
                        Some(name) => Some(name@),
                        None => None,
                    },
                )
            }),
            None => format == DocumentExportFormat::Docx,
        },
{
    match format {
        DocumentExportFormat::Native => ExportPlan {
            package: Some(document_package_title_for_path(file_name)),
            projection: false,
        },
        DocumentExportFormat::NativeWithExtension => ExportPlan {
            package: Some(document_package_title_for_path(file_name)),
            projection: false,
        },
        DocumentExportFormat::Docx => ExportPlan { package: None, projection: true },
        DocumentExportFormat::Pdf => ExportPlan {
            package: Some(String::from_str("PDF Source")),
            projection: true,
        },
    }
}

/// The title of the package that is kept for recovery.
pub fn recovery_title() -> (title: &'static str)
    ensures
        title@ == "Recovery snapshot"@,
{
    "Recovery snapshot"
}

} // verus!
