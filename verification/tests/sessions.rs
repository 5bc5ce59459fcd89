use flowstate_workspace::autosave::{Autosave, AutosaveEnd};
use flowstate_workspace::closing::{
    close_document_panel, collaboration_leave_detail, collaboration_phase_blocks_close,
    collaboration_save_prompt_for_panel, confirm_leave_collaboration_on_panel, leave_prompt, request_close_window,
    save_answer, save_prompt_words, unsaved_message, CloseStage,
    CollaborationSavePrompt, OpenPanel, PanelSaveOutcome, SaveAnswer, SessionPhase,
};
use flowstate_workspace::comments::CommentReadState;
use flowstate_workspace::recent::{
    recent_document_preview_document, RecentDocument, RecentDocuments,
};
use flowstate_workspace::session::{
    restore_read_state, snapshot_session, SessionTab, SessionToggles, SessionWriter,
    TemporaryWorkspaceSessionEntryKind,
};
use flowstate_workspace::styles::{ParagraphStyle, RunSemanticStyle, RunStyles};
use flowstate_workspace::toolkit::{InputParagraph, InputRun};
use std::collections::HashMap;

fn recent(path: &str) -> RecentDocument {
    RecentDocument { path: path.to_string(), file_name: path.to_string() }
}

fn toggles() -> SessionToggles {
    SessionToggles {
        ribbon_collapsed: true,
        outline_collapsed: false,
        left_nav_tub: true,
        nav_width_bits: Some(240.0f32.to_bits()),
        tub_tool_open: false,
        toolkit_filter: None,
        tub_expanded_dirs: Vec::new(),
    }
}

fn tab(id: u128, path: Option<&str>) -> SessionTab {
    SessionTab {
        id,
        kind: TemporaryWorkspaceSessionEntryKind::Document,
        path: path.map(str::to_string),
        pending: false,
        collapsed_outline_items: vec![3],
        outline_scrolled_paragraph: None,
        viewport_paragraph: Some(4),
    }
}

#[test]
fn a_burst_of_edits_saves_once() {
    let mut autosave = Autosave::new(true);
    assert!(autosave.maybe_autosave_document(1, true, true, 10));
    assert!(autosave.maybe_autosave_document(1, true, true, 11));
    assert!(!autosave.autosave_due(1, 10));
    assert!(autosave.autosave_due(1, 11));
    assert!(matches!(autosave.finish_autosave(1, 11, Ok(())), AutosaveEnd::Saved));
    assert!(!autosave.maybe_autosave_document(1, true, true, 11));
    assert!(autosave.maybe_autosave_document(2, true, true, 11), "documents save apart");
}

#[test]
fn autosave_needs_a_file_and_changes() {
    let mut autosave = Autosave::new(true);
    assert!(!autosave.maybe_autosave_document(1, false, true, 1));
    assert!(!autosave.maybe_autosave_document(1, true, false, 1));
    assert!(!Autosave::new(false).maybe_autosave_document(1, true, true, 1));
    assert!(autosave.maybe_autosave_flow(3, true, true));
    assert!(!autosave.maybe_autosave_flow(3, true, true), "one save at a time");
    match autosave.finish_flow_autosave(3, Err("disk".to_string())) {
        AutosaveEnd::Failed { message, .. } => assert!(message.contains("disk")),
        _ => panic!("expected a failure"),
    }
    assert!(autosave.maybe_autosave_flow(3, true, true));
}

#[test]
fn a_failed_save_is_tried_again() {
    let mut autosave = Autosave::new(true);
    autosave.maybe_autosave_document(1, true, true, 5);
    assert!(autosave.autosave_due(1, 5));
    autosave.finish_autosave(1, 5, Err("disk".to_string()));
    assert!(autosave.maybe_autosave_document(1, true, true, 5));
    autosave.reset();
    assert!(!autosave.maybe_autosave_document(1, true, true, 6));
}

#[test]
fn shared_panels_are_left_first() {
    let live = Some(SessionPhase::Attached { peers_present: 2 });
    assert!(collaboration_phase_blocks_close(live));
    assert!(!collaboration_phase_blocks_close(Some(SessionPhase::Detached)));
    assert!(!collaboration_phase_blocks_close(None));
    assert_eq!(collaboration_leave_detail(live), "This tab is live with 2 other people.");
    assert!(confirm_leave_collaboration_on_panel(None).is_none());
    assert_eq!(collaboration_save_prompt_for_panel(false, false), CollaborationSavePrompt::Pathless);
    assert!(save_prompt_words(CollaborationSavePrompt::Clean).is_none());
    assert_ne!(unsaved_message(1), unsaved_message(2));
    assert!(!leave_prompt(2, live).1.is_empty());
}

#[test]
fn a_panel_closes_after_its_questions() {
    let clean = OpenPanel { id: 4, is_document: false, phase: None, has_path: true, dirty: false };
    assert!(close_document_panel(None).is_none());
    assert_eq!(close_document_panel(Some(clean)).unwrap().stage, CloseStage::Finished);

    let unsaved = OpenPanel { dirty: true, ..clean };
    let mut close = close_document_panel(Some(unsaved)).unwrap();
    assert_eq!(close.stage, CloseStage::AskDirty);
    close.answer(Some(1));
    assert_eq!(close.discards, vec![4]);
    assert_eq!(close.stage, CloseStage::Finished);

    let shared = OpenPanel { phase: Some(SessionPhase::Creating), ..unsaved };
    let mut close = close_document_panel(Some(shared)).unwrap();
    assert_eq!(close.stage, CloseStage::AskLeave);
    assert_eq!(close.shared, vec![(4, CollaborationSavePrompt::Dirty)]);
    close.answer(Some(0));
    assert_eq!(close.stage, CloseStage::AskShared(0));
    close.answer(Some(0));
    assert!(close.save_ended(PanelSaveOutcome::Cancelled).is_none());
    assert_eq!(close.stage, CloseStage::Cancelled);
}

#[test]
fn answers_by_button() {
    assert_eq!(save_answer(Some(0)), SaveAnswer::Save);
    assert_eq!(save_answer(Some(1)), SaveAnswer::DontSave);
    assert_eq!(save_answer(Some(2)), SaveAnswer::Cancel);
    assert_eq!(save_answer(None), SaveAnswer::Cancel);
}

#[test]
fn a_window_closes_after_its_questions() {
    let panels = vec![
        OpenPanel { id: 1, is_document: true, phase: None, has_path: true, dirty: true },
        OpenPanel { id: 2, is_document: true, phase: None, has_path: true, dirty: false },
    ];
    let mut close = request_close_window(&panels);
    assert_eq!(close.stage, CloseStage::AskDirty);
    close.answer(Some(0));
    assert_eq!(close.stage, CloseStage::SaveDirty(0));
    assert!(close.save_ended(PanelSaveOutcome::Saved).is_none());
    assert_eq!(close.stage, CloseStage::Finished);
    let mut given_up = request_close_window(&panels);
    given_up.answer(Some(1));
    assert_eq!(given_up.stage, CloseStage::Finished);
    assert_eq!(given_up.discards, vec![1]);
    let mut stays = request_close_window(&panels);
    stays.answer(None);
    assert_eq!(stays.stage, CloseStage::Cancelled);
    let mut failed = request_close_window(&panels);
    failed.answer(Some(0));
    assert_eq!(
        failed.save_ended(PanelSaveOutcome::Failed("disk".to_string())).as_deref(),
        Some("disk")
    );
    assert_eq!(failed.stage, CloseStage::Cancelled);
    assert_eq!(request_close_window(&Vec::new()).stage, CloseStage::Finished);
}

#[test]
fn tabs_come_back_with_their_marks() {
    let tabs = vec![tab(1, Some("/a.db8")), tab(2, None), tab(3, Some("/c.db8"))];
    let session =
        snapshot_session(&tabs, Some(3), &vec![3, 2], Some(1), toggles(), &vec![(0xff, 12)]);
    assert_eq!(session.entries.len(), 2, "a tab without a file is not kept");
    assert_eq!(session.active_index, Some(1));
    assert_eq!(session.pinned_entry_indices, vec![1]);
    assert_eq!(session.speech_entry_index, Some(0));
    assert!(session.is_written());
    let marks = session.restored_marks(&vec![Some(11), Some(13)]);
    assert_eq!(marks.active, Some(13));
    assert_eq!(marks.pinned, vec![13]);
    assert_eq!(marks.speech, Some(11));
    let mut state = CommentReadState { last_seen: HashMap::new() };
    restore_read_state(&mut state, &session.comment_last_seen);
    assert_eq!(state.last_seen.get(&0xff), Some(&12));
    let mut unread = CommentReadState { last_seen: HashMap::new() };
    restore_read_state(&mut unread, &vec![("not hex".to_string(), 4)]);
    assert!(unread.last_seen.is_empty());
}

#[test]
fn writes_are_gathered() {
    let mut writer = SessionWriter::new(true);
    let session = || snapshot_session(&vec![tab(1, Some("/a"))], None, &Vec::new(), None, toggles(), &Vec::new());
    assert!(writer.persist_temporary_workspace_session(session()));
    assert!(!writer.persist_temporary_workspace_session(session()));
    assert!(writer.write_due().is_some());
    assert!(writer.persist_temporary_workspace_session(session()));
    let mut other = SessionWriter::new(false);
    assert!(!other.persist_temporary_workspace_session(session()));
    assert!(other.write_due().is_none(), "only the session's owner writes it");
}

#[test]
fn recent_documents_are_few_and_apart() {
    let mut recents = RecentDocuments::new(vec![recent("a"), recent("b"), recent("c")]);
    recents.record_recent_document(recent("b"));
    let paths: Vec<&str> = recents.list.iter().map(|one| one.path.as_str()).collect();
    assert_eq!(paths, vec!["b", "a", "c"]);
    recents.record_recent_document(recent("d"));
    assert_eq!(recents.list.len(), 3);
    let missing = recents.refresh_recent_document_previews();
    assert_eq!(missing.len(), 3);
    let generation = recents.generation;
    assert!(recents.finish_preview(generation, "d", true));
    assert!(!recents.finish_preview(generation.wrapping_sub(1), "b", true));
    assert_eq!(recents.refresh_recent_document_previews().len(), 2);
}

#[test]
fn previews_are_short() {
    let paragraph = |text: &str| InputParagraph {
        style: ParagraphStyle::Normal,
        runs: vec![InputRun {
            text: text.to_string(),
            styles: RunStyles {
                semantic: RunSemanticStyle::Plain,
                highlight: None,
                direct_underline: false,
                strikethrough: false,
            },
        }],
    };
    let many: Vec<InputParagraph> = (0..20).map(|_| paragraph("x")).collect();
    assert_eq!(recent_document_preview_document(&many).len(), 12);
    let long = vec![paragraph(&"y".repeat(5000))];
    let preview = recent_document_preview_document(&long);
    let shown: usize = preview.iter().flat_map(|one| &one.runs).map(|run| run.text.chars().count()).sum();
    assert_eq!(shown, 2200);
}
