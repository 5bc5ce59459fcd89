use flowstate_workspace::load::{
    failed_open, open_projection_source, runtime_io_error, runtime_root_io_kind,
    DocxPreviewBridge, FailedOpen, Fingerprint, IoErrorKind, QuickProjection, RuntimeError,
};
use flowstate_workspace::opening::{
    add_document_panel_failed, comment_history_failed, create_failure, load_document_for_open,
    load_document_preview, pdf_package, registers_author_identity, startup, zoom_target,
    DocumentRuntimeSource, LoadOutcome, LoadPlan, OpenEnd, Opening, PreviewPlan, RuntimeFailure,
    StartupStep,
};
use flowstate_workspace::panels::{
    open_failed_detail, original_context_title, panel_title, revision_title, runtime_title,
    OpenPanels, PanelKind, SaveAction,
};
use flowstate_workspace::paths::{
    default_save_directory, document_format, document_package_title_for_path, file_extension,
    imported_title, is_flow_path, normalize_db8_path, normalize_fl0_path, sandbox_config_dir,
    temporary_workspace_session_path, with_extension, DocumentFormat, SavePath,
};
use flowstate_workspace::closing::PanelSaveOutcome;
use flowstate_workspace::saving::{
    active_saved, native_export_plan, native_save_steps, prompt_save_active_as, recovery_title,
    DocumentExportFormat, PackageStep, PathAnswer, SaveAsStep, SaveStep, WriteResult,
};

fn save_path(name: Option<&str>) -> SavePath {
    SavePath { directory: Some("/cards".to_string()), file_name: name.map(str::to_string) }
}

#[test]
fn extensions_are_read_off_names() {
    assert_eq!(file_extension("a.b.db8").as_deref(), Some("db8"));
    assert_eq!(file_extension(".hidden"), None);
    assert_eq!(file_extension("plain"), None);
    assert_eq!(file_extension("dot."), Some(String::new()));
    assert_eq!(with_extension("a.docx", "db8"), "a.db8");
    assert!(is_flow_path("round.FL0"));
    assert_eq!(document_format("a.DOCX"), DocumentFormat::Docx);
    assert_eq!(document_format("a.pdf"), DocumentFormat::Pdf);
    assert_eq!(document_format("a.txt"), DocumentFormat::Native);
}

#[test]
fn saved_names_get_an_extension() {
    assert_eq!(normalize_db8_path(save_path(Some("aff"))).file_name.unwrap(), "aff.db8");
    assert_eq!(normalize_db8_path(save_path(Some("aff.txt"))).file_name.unwrap(), "aff.txt");
    assert_eq!(normalize_fl0_path(save_path(Some("r1"))).file_name.unwrap(), "r1.fl0");
    assert_eq!(normalize_fl0_path(save_path(Some("r1"))).directory.unwrap(), "/cards");
    assert_eq!(imported_title(Some("case.docx")).as_deref(), Some("case.db8"));
    assert_eq!(imported_title(None), None);
    assert_eq!(document_package_title_for_path(Some("a.db8")), "a.db8");
    assert_eq!(document_package_title_for_path(None), "Flowstate Document");
}

#[test]
fn previews_are_kept_for_unchanged_files() {
    let print = |len: u64| Some(Fingerprint { modified_nanos: 5, len });
    let mut bridge: DocxPreviewBridge<u8> = DocxPreviewBridge::new();
    for ix in 0..5u8 {
        bridge.store_docx_preview_bridge(format!("{ix}.docx"), print(9), ix);
    }
    assert_eq!(bridge.entries.len(), 4);
    assert_eq!(bridge.peek_docx_preview_bridge("0.docx", print(9)), None);
    assert_eq!(bridge.peek_docx_preview_bridge("4.docx", print(9)), Some(&4));
    assert_eq!(bridge.peek_docx_preview_bridge("4.docx", print(8)), None);
    assert_eq!(bridge.take_docx_preview_bridge("4.docx", print(9)), Some(4));
    assert_eq!(bridge.take_docx_preview_bridge("4.docx", print(9)), None);
    bridge.store_docx_preview_bridge("x.docx".to_string(), None, 1);
    assert_eq!(bridge.entries.len(), 3);
}

#[test]
fn faults_keep_their_kind() {
    let fault = |kind| RuntimeError { message: "m".to_string(), root_io_kind: kind };
    assert_eq!(runtime_root_io_kind(&fault(Some(IoErrorKind::NotFound))), Some(IoErrorKind::NotFound));
    assert_eq!(runtime_io_error(fault(None)).kind, IoErrorKind::InvalidData);
    assert!(matches!(failed_open(fault(Some(IoErrorKind::NotFound))), FailedOpen::BeginBlank));
    assert!(matches!(failed_open(fault(None)), FailedOpen::Fail(_)));
    assert_eq!(open_projection_source("a.docx"), QuickProjection::PreviewBridge);
    assert_eq!(open_projection_source("a.pdf"), QuickProjection::Nothing);
    assert_eq!(open_projection_source("a.db8"), QuickProjection::PackageCache);
}

#[test]
fn files_load_by_their_names() {
    let docx = load_document_for_open(Some("case.docx"));
    assert!(!docx.keeps_path);
    assert_eq!(docx.title.as_deref(), Some("case.db8"));
    assert!(matches!(docx.plan, LoadPlan::Import { .. }));
    assert!(matches!(load_document_for_open(Some("a.pdf")).plan, LoadPlan::Extract));
    assert!(load_document_for_open(Some("a.db8")).keeps_path);
    assert!(matches!(load_document_for_open(Some("a.fl0")).plan, LoadPlan::Flow));
    assert!(matches!(load_document_for_open(None).plan, LoadPlan::Package));
    assert_eq!(load_document_preview(Some("a.docx")), PreviewPlan::ConvertAndKeep);
    assert_eq!(load_document_preview(Some("a.pdf")), PreviewPlan::Extract);
    assert_eq!(load_document_preview(None), PreviewPlan::Package);
    assert_eq!(pdf_package(Some(vec![1])).unwrap(), vec![1]);
    assert_eq!(
        pdf_package(None).unwrap_err().message,
        "PDF does not contain embedded Flowstate DB8 data"
    );
}

#[test]
fn a_document_goes_where_its_picture_is() {
    let mut panels = OpenPanels::new();
    let mut opening = Opening::new("/a.db8".to_string(), Some(12));
    assert_eq!(opening.quick_picture(&mut panels, true, 1), Some(12));
    let (end, scroll) = opening.finish(&mut panels, LoadOutcome::Document { started: Ok(()) }, 2);
    assert!(matches!(end, OpenEnd::Attached(1)));
    assert_eq!(scroll, Some(12));
    assert_eq!(panels.documents, vec![1]);
    let mut closed = Opening::new("/b.db8".to_string(), None);
    closed.quick_picture(&mut panels, true, 3);
    panels.remove_document_panel(3);
    assert!(matches!(
        closed.finish(&mut panels, LoadOutcome::Document { started: Ok(()) }, 4).0,
        OpenEnd::NewDocument(4)
    ));
    match closed.finish(&mut panels, LoadOutcome::Failed("gone".to_string()), 5).0 {
        OpenEnd::Failed(text) => assert_eq!(text, "Failed to open /b.db8: gone"),
        _ => panic!("expected a failure"),
    }
    assert!(matches!(closed.finish(&mut panels, LoadOutcome::Flow, 6).0, OpenEnd::NewFlow(6)));
    assert_eq!(panels.active, Some((6, PanelKind::Flow)));
}

#[test]
fn a_window_starts_with_its_file_or_its_session() {
    let steps = startup(None, Some("/tub".to_string()), Some("/a.db8".to_string()), true, true);
    assert_eq!(steps.len(), 3);
    assert!(matches!(steps[0], StartupStep::RefreshPreviews));
    assert!(matches!(steps[2], StartupStep::OpenPath(_)));
    let steps = startup(Some("bad settings".to_string()), None, None, true, true);
    assert!(matches!(steps[1], StartupStep::ReportWarning(_)));
    assert!(matches!(steps[2], StartupStep::RestoreSession));
    assert_eq!(startup(None, None, None, true, false).len(), 1, "a second window starts empty");
    assert_eq!(zoom_target(true, true), Some(PanelKind::Document));
    assert_eq!(zoom_target(false, false), None);
}

#[test]
fn panels_open_close_and_hand_on_the_top() {
    let mut panels = OpenPanels::new();
    panels.create_document_panel(1);
    panels.create_document_panel(2);
    panels.create_flow_panel(3);
    panels.pinned = vec![2, 3];
    panels.speech = Some(3);
    assert!(panels.remove_document_panel(3));
    assert_eq!(panels.active, Some((2, PanelKind::Document)));
    assert_eq!(panels.pinned, vec![2]);
    assert_eq!(panels.speech, None);
    assert!(!panels.remove_document_panel(1));
    assert_eq!(panels.kind_of(2), Some(PanelKind::Document));
    assert_eq!(panels.kind_of(9), None);
    assert_eq!(panels.save_active(true), SaveAction::Save(2, PanelKind::Document));
    assert_eq!(panels.save_active(false), SaveAction::SaveAs(2, PanelKind::Document));
    assert!(panels.remove_document_panel(2));
    assert_eq!(panels.save_active_as(), SaveAction::Nothing);
}

#[test]
fn pending_panels_attach_once() {
    let mut panels = OpenPanels::new();
    panels.create_pending_document_panel(8);
    assert!(panels.attach_runtime_to_pending_panel(8));
    assert!(!panels.attach_runtime_to_pending_panel(8));
}

#[test]
fn titles_fall_back() {
    assert_eq!(panel_title(None, Some("a.db8"), "Untitled 2".to_string()), "a.db8");
    assert_eq!(panel_title(None, None, "Untitled 2".to_string()), "Untitled 2");
    assert_eq!(runtime_title(None, None), "Flowstate Document");
    assert_eq!(revision_title(0xab), "Revision ab");
    assert_eq!(original_context_title(""), "Original context");
    assert_eq!(
        original_context_title("abcdefghijklmnopqrstuvwxyz"),
        "Original context — “abcdefghijklmnopqrstuvwx…”"
    );
    assert_eq!(open_failed_detail("/a", "e"), "Failed to open /a: e");
    assert!(registers_author_identity(DocumentRuntimeSource::Runtime));
    assert!(!registers_author_identity(DocumentRuntimeSource::Attachment));
    assert_eq!(
        create_failure(RuntimeFailure::Import("x".to_string())),
        "creating canonical Loro document failed: x"
    );
    assert_eq!(
        add_document_panel_failed("x"),
        "The canonical Loro runtime could not be started: x"
    );
    assert_eq!(
        comment_history_failed(None),
        "Opening the comment's original context failed: the document is still opening"
    );
}

#[test]
fn a_save_asks_for_a_path_first() {
    assert!(matches!(PanelKind::Document.save(Ok(true)), SaveStep::Save));
    match PanelKind::Flow.save(Ok(false)) {
        SaveStep::AskPath(name) => assert_eq!(name, "Untitled.fl0"),
        _ => panic!("expected a question"),
    }
    match PanelKind::Document.save(Err("released".to_string())) {
        SaveStep::Done(PanelSaveOutcome::Failed(text)) => {
            assert_eq!(text, "failed to access editor before save: released");
        }
        _ => panic!("expected a failure"),
    }
    match PanelKind::Document.save_path_picked(PathAnswer::Path(save_path(Some("aff")))) {
        SaveStep::SaveAs(path) => assert_eq!(path.file_name.unwrap(), "aff.db8"),
        _ => panic!("expected a save"),
    }
    assert!(matches!(
        PanelKind::Document.save_path_picked(PathAnswer::Cancelled),
        SaveStep::Done(PanelSaveOutcome::Cancelled)
    ));
    for (answer, text) in [
        (PathAnswer::NotAsked("x".to_string()), "failed to open save dialog: x"),
        (PathAnswer::Refused("x".to_string()), "x"),
        (PathAnswer::Closed("x".to_string()), "save dialog closed unexpectedly: x"),
    ] {
        match PanelKind::Document.save_path_picked(answer) {
            SaveStep::Done(PanelSaveOutcome::Failed(told)) => assert_eq!(told, text),
            _ => panic!("expected a failure"),
        }
    }
    match PanelKind::Flow.save_written(WriteResult::NoAccess("x".to_string())) {
        PanelSaveOutcome::Failed(text) => assert_eq!(text, "failed to access flow before save: x"),
        _ => panic!("expected a failure"),
    }
}

#[test]
fn saving_the_top_panel_elsewhere() {
    assert!(matches!(
        prompt_save_active_as(PanelKind::Document, PathAnswer::Closed("x".to_string())),
        SaveAsStep::Nothing
    ));
    assert!(matches!(
        prompt_save_active_as(PanelKind::Document, PathAnswer::Refused("x".to_string())),
        SaveAsStep::Tell(_)
    ));
    let saved = active_saved(PanelKind::Document, Some(save_path(Some("a.db8"))), WriteResult::Written);
    assert!(saved.persist_session && saved.refresh_collaborators && saved.set_path.is_some());
    let flow = active_saved(PanelKind::Flow, None, WriteResult::Written);
    assert!(!flow.persist_session && !flow.refresh_collaborators);
    let failed = active_saved(PanelKind::Flow, None, WriteResult::Failed("disk".to_string()));
    assert_eq!(failed.failure.as_deref(), Some("disk"));
}

#[test]
fn packages_are_saved_and_exported() {
    let steps = native_save_steps(Some("a.db8"), true);
    assert_eq!(steps.len(), 2);
    assert!(matches!(steps[1], PackageStep::SyncBound(_)));
    assert_eq!(native_save_steps(None, false).len(), 1);
    let pdf = native_export_plan(DocumentExportFormat::Pdf, Some("a.pdf"));
    assert_eq!(pdf.package.as_deref(), Some("PDF Source"));
    assert!(pdf.projection);
    let docx = native_export_plan(DocumentExportFormat::Docx, Some("a.docx"));
    assert!(docx.package.is_none() && docx.projection);
    let native = native_export_plan(DocumentExportFormat::Native, Some("a.db8"));
    assert_eq!(native.package.as_deref(), Some("a.db8"));
    assert_eq!(recovery_title(), "Recovery snapshot");
}

#[test]
fn temporary_session_file_lands_in_sandbox() {
    let sandbox = sandbox_config_dir("/tmp/flowstate-headless-1");
    assert_eq!(sandbox, "/tmp/flowstate-headless-1/config");
    assert_eq!(
        temporary_workspace_session_path(Some(&sandbox), "/tmp"),
        "/tmp/flowstate-headless-1/config/flowstate-open-tabs-session.json",
        "session file must resolve into the sandbox"
    );
    assert_eq!(
        temporary_workspace_session_path(None, "/tmp/"),
        "/tmp/flowstate-open-tabs-session.json"
    );
    assert_eq!(default_save_directory(None, Some("/home/ada".to_string())), "/home/ada");
    assert_eq!(default_save_directory(Some("/work".to_string()), None), "/work");
    assert_eq!(default_save_directory(None, None), "/");
}
