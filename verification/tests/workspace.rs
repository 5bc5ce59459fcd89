use flowstate_workspace::collaboration::{
    join_collaboration_from_clipboard, Clipboard, JoinFailure,
};
use flowstate_workspace::closing::{confirm_leave_collaboration_on_panel, SessionPhase};
use flowstate_workspace::commands::{
    CommandId, Dispatch, LeftNavMode, ToolkitTool, WorkspaceEffect,
};
use flowstate_workspace::comments::CommentReadState;
use flowstate_workspace::history::{HistoryTakeover, RevisionInfo, RevisionKind};
use flowstate_workspace::keymap::{workspace_command_for_keystroke, KeymapEntry};
use flowstate_workspace::opening::{LoadOutcome, OpenEnd};
use flowstate_workspace::palette::{PaletteAction, PaletteEffect, ToggleStates};
use flowstate_workspace::panels::{PanelKind, SpeechRefusal};
use flowstate_workspace::session::{
    snapshot_session, SessionTab, SessionToggles, TemporaryWorkspaceSessionEntryKind,
};
use flowstate_workspace::settings::{
    render_settings_overlay, DocumentStyleSection, WorkspaceSettingsOverlay,
    WorkspaceSettingsSection,
};
use flowstate_workspace::text_set::TextSet;
use flowstate_workspace::windows::{WindowStart, Windows};
use flowstate_workspace::workspace::{
    CollabDialogMode, KeyboardState, OpenStart, OutlineFollowUp, RestoredTab, RevisionFork,
    Workspace,
};

fn keyboard() -> KeyboardState {
    KeyboardState {
        toolkit_search_focused: false,
        tub_file_search_focused: false,
        file_search_focused: false,
        collaboration_dialog_focused: false,
        search_bar_focused: false,
        cell_empty: false,
        editor_knows: false,
    }
}

fn command(workspace: &mut Workspace, id: CommandId) -> bool {
    let fresh = workspace.panels.documents.len() as u128 + 100;
    let target = workspace.run_command(id, keyboard(), fresh);
    workspace.command_taken(target, true)
}

fn active(workspace: &Workspace) -> Option<u128> {
    workspace.panels.active.map(|(id, _)| id)
}

#[test]
fn new_document_command_creates_panel() {
    let mut ws = Workspace::new(true);
    assert!(command(&mut ws, CommandId::NewDocument));
    assert_eq!(ws.panels.documents.len(), 1);
}

#[test]
fn share_command_opens_dialog_over_document() {
    let mut ws = Workspace::new(true);
    ws.new_document(1);
    assert!(command(&mut ws, CommandId::ShareDocument));
    assert_eq!(ws.surfaces.collaboration_dialog, Some((CollabDialogMode::Share, Some(1))));
}

#[test]
fn join_command_opens_dialog_without_document() {
    let mut ws = Workspace::new(true);
    assert!(command(&mut ws, CommandId::JoinSession));
    assert!(ws.surfaces.collaboration_dialog.is_some());
}

#[test]
fn zoom_commands_require_an_editor() {
    let mut ws = Workspace::new(true);
    assert!(!command(&mut ws, CommandId::ZoomIn));
    assert!(!command(&mut ws, CommandId::ZoomOut));
    ws.new_document(1);
    assert!(command(&mut ws, CommandId::ZoomIn));
    assert!(command(&mut ws, CommandId::ZoomOut));
}

#[test]
fn start_collaboration_command_without_document_is_unhandled() {
    let mut ws = Workspace::new(true);
    assert!(!command(&mut ws, CommandId::StartCollaboration), "no active document — command must fall through");
    ws.new_document(1);
    assert!(command(&mut ws, CommandId::StartCollaboration));
    assert_eq!(ws.start_collaboration_on_active_document(), Some((1, PanelKind::Document)));
}

#[test]
fn close_document_command_with_no_document_is_safe() {
    let mut ws = Workspace::new(true);
    command(&mut ws, CommandId::CloseDocument);
    assert!(ws.panels.documents.is_empty());
}

#[test]
fn find_in_document_command_survives_with_and_without_document() {
    let mut ws = Workspace::new(true);
    assert!(!command(&mut ws, CommandId::FindInDocument));
    ws.new_document(1);
    assert!(command(&mut ws, CommandId::FindInDocument));
}

#[test]
fn share_dialog_opens_over_active_document() {
    let mut ws = Workspace::new(true);
    ws.new_document(1);
    assert!(!ws.open_collaboration_dialog());
    assert!(ws.surfaces.collaboration_dialog.is_some());
    assert!(!command(&mut ws, CommandId::NewDocument), "a dialog takes the keyboard");
}

#[test]
fn share_dialog_opens_with_no_document() {
    let mut ws = Workspace::new(true);
    ws.open_collaboration_dialog();
    assert_eq!(ws.surfaces.collaboration_dialog, Some((CollabDialogMode::Share, None)));
}

#[test]
fn join_dialog_opens() {
    let mut ws = Workspace::new(true);
    ws.new_document(1);
    ws.open_join_collaboration_dialog();
    assert!(ws.surfaces.collaboration_dialog.is_some());
}

#[test]
fn share_dialog_reopen_replaces_previous() {
    let mut ws = Workspace::new(true);
    ws.new_document(1);
    ws.open_collaboration_dialog();
    let first = ws.surfaces.collaboration_dialog;
    assert!(ws.open_join_collaboration_dialog(), "reopen must build a fresh dialog");
    assert_ne!(first, ws.surfaces.collaboration_dialog);
}

#[test]
fn close_collaboration_dialog_clears_state() {
    let mut ws = Workspace::new(true);
    ws.new_document(1);
    ws.open_collaboration_dialog();
    ws.close_collaboration_dialog();
    assert!(ws.surfaces.collaboration_dialog.is_none());
}

#[test]
fn new_document_activates_panel() {
    let mut ws = Workspace::new(true);
    assert!(ws.panels.documents.is_empty() && ws.panels.active.is_none());
    ws.new_document(1);
    assert_eq!(ws.panels.documents.len(), 1);
    assert_eq!(ws.panels.active, Some((1, PanelKind::Document)));
}

#[test]
fn second_document_takes_focus_and_activation_switches_back() {
    let mut ws = Workspace::new(true);
    ws.new_document(1);
    let first = active(&ws);
    ws.new_document(2);
    assert_ne!(first, active(&ws), "new document must become active");
    ws.panels.activate_document_id(1);
    assert_eq!(active(&ws), first);
}

#[test]
fn close_active_document_removes_panel() {
    let mut ws = Workspace::new(true);
    ws.new_document(1);
    let id = ws.panels.close_active_document().expect("an active document");
    let follow_up = ws.remove_document_panel(id);
    assert!(follow_up.flush_caches);
    assert_eq!(follow_up.outline, OutlineFollowUp::Clear);
    assert!(ws.panels.documents.is_empty());
    assert_eq!(ws.panels.active, None);
}

#[test]
fn removing_a_panel_shows_another() {
    let mut ws = Workspace::new(true);
    ws.new_flow(1);
    ws.new_document(2);
    ws.new_document(3);
    assert_eq!(ws.remove_document_panel(2).outline, OutlineFollowUp::Keep);
    assert_eq!(ws.remove_document_panel(3).outline, OutlineFollowUp::Refresh);
    assert_eq!(ws.panels.active, Some((1, PanelKind::Flow)));
}

#[test]
fn new_flow_creates_and_activates_flow_panel() {
    let mut ws = Workspace::new(true);
    ws.new_flow(1);
    assert_eq!(ws.panels.flows.len(), 1);
    assert_eq!(ws.panels.active, Some((1, PanelKind::Flow)));
}

#[test]
fn flow_and_document_panels_coexist() {
    let mut ws = Workspace::new(true);
    ws.new_document(1);
    ws.new_flow(2);
    assert_eq!((ws.panels.documents.len(), ws.panels.flows.len()), (1, 1));
    assert_eq!(
        ws.panels.active,
        Some((2, PanelKind::Flow)),
        "flow was opened last and must be active"
    );
}

#[test]
fn next_and_previous_tab_cycle_through_documents() {
    let mut ws = Workspace::new(true);
    for id in 1..=3 {
        ws.new_document(id);
    }
    let start = active(&ws);
    assert!(command(&mut ws, CommandId::NextTab));
    assert_ne!(active(&ws), start, "NextTab must move activation");
    assert!(command(&mut ws, CommandId::PreviousTab));
    assert_eq!(active(&ws), start, "PreviousTab must move back");
}

#[test]
fn switch_to_tab_shortcuts_activate_by_index() {
    let mut ws = Workspace::new(true);
    ws.new_document(1);
    ws.new_document(2);
    assert!(command(&mut ws, CommandId::SwitchToTab1));
    let on_first = active(&ws);
    assert!(command(&mut ws, CommandId::SwitchToTab2));
    let on_second = active(&ws);
    assert!(on_first.is_some() && on_second.is_some());
    assert_ne!(on_first, on_second);
    assert!(command(&mut ws, CommandId::SwitchToTab9));
    assert_eq!(active(&ws), on_second, "an index out of range is harmless");
}

#[test]
fn shortcuts_count_pinned_tabs_first() {
    let mut ws = Workspace::new(true);
    for id in 1..=3 {
        ws.new_document(id);
    }
    command(&mut ws, CommandId::TogglePinTab);
    command(&mut ws, CommandId::SwitchToTab2);
    assert_eq!(active(&ws), Some(1));
    command(&mut ws, CommandId::SwitchToTab1);
    assert_eq!(active(&ws), Some(3));
}

#[test]
fn toggle_pin_tab_round_trips() {
    let mut ws = Workspace::new(true);
    ws.new_document(1);
    assert!(command(&mut ws, CommandId::TogglePinTab));
    assert!(ws.panels.pinned.contains(&1));
    assert!(command(&mut ws, CommandId::TogglePinTab));
    assert!(!ws.panels.pinned.contains(&1));
}

#[test]
fn toggle_ribbon_flips_and_renders() {
    let mut ws = Workspace::new(true);
    let before = ws.layout.ribbon_collapsed;
    assert!(command(&mut ws, CommandId::ToggleRibbon));
    assert_ne!(ws.layout.ribbon_collapsed, before);
    assert!(command(&mut ws, CommandId::ToggleRibbon));
    assert_eq!(ws.layout.ribbon_collapsed, before);
}

#[test]
fn speech_document_toggle_marks_and_clears() {
    let mut ws = Workspace::new(true);
    ws.new_document(1);
    assert!(command(&mut ws, CommandId::ToggleSpeechDocument));
    assert_eq!(ws.panels.speech, Some(1));
    assert!(command(&mut ws, CommandId::ToggleSpeechDocument));
    assert_eq!(ws.panels.speech, None);
}

#[test]
fn send_without_speech_document_refuses_loudly() {
    let mut ws = Workspace::new(true);
    ws.new_document(1);
    assert_eq!(
        ws.panels.send_selection_to_speech_document(),
        Err(SpeechRefusal::NoSpeechDocument)
    );
}

#[test]
fn flow_cannot_be_designated_speech_document() {
    let mut ws = Workspace::new(true);
    ws.new_flow(1);
    assert_eq!(ws.panels.toggle_speech_document(1), Err(SpeechRefusal::NotADocument));
    assert_eq!(ws.panels.speech, None);
}

#[test]
fn self_send_refuses_loudly() {
    let mut ws = Workspace::new(true);
    ws.new_document(1);
    assert!(ws.panels.toggle_speech_document(1).is_ok());
    assert_eq!(
        ws.panels.send_selection_to_speech_document(),
        Err(SpeechRefusal::OwnSpeechDocument)
    );
    ws.new_document(2);
    assert_eq!(ws.panels.send_selection_to_speech_document(), Ok(1));
}

#[test]
fn settings_and_styles_overlays_render_headlessly() {
    let mut ws = Workspace::new(true);
    ws.new_document(1);
    for overlay in [WorkspaceSettingsOverlay::Settings, WorkspaceSettingsOverlay::Styles] {
        ws.surfaces.settings_overlay = Some(overlay);
        let view = render_settings_overlay(
            overlay,
            DocumentStyleSection::Text,
            WorkspaceSettingsSection::General,
        );
        assert_eq!(view.selected_page, 0);
        assert!(!command(&mut ws, CommandId::NewDocument), "an overlay takes the keyboard");
        ws.surfaces.settings_overlay = None;
    }
    assert!(command(&mut ws, CommandId::NewDocument));
}

#[test]
fn file_search_overlay_opens_and_closes() {
    let mut ws = Workspace::new(true);
    assert!(ws.open_file_search_overlay());
    assert!(ws.surfaces.file_search_overlay);
    assert!(!ws.open_file_search_overlay(), "an open one only takes the keyboard");
    ws.close_file_search_overlay();
    assert!(!ws.surfaces.file_search_overlay);
    assert!(ws.open_command_palette());
    assert!(!ws.open_command_palette());
    ws.close_command_palette();
    assert!(!ws.surfaces.command_palette);
}

#[test]
fn join_from_empty_clipboard_prompts() {
    let notice = join_collaboration_from_clipboard(Clipboard::Empty).expect_err("a notice");
    assert!(notice.critical);
    assert_eq!(notice.title, "Join failed");
    assert_eq!(
        notice.detail,
        "The clipboard does not contain a collaboration invite ticket."
    );
}

#[test]
fn leave_collaboration_without_session_is_a_noop() {
    assert_eq!(confirm_leave_collaboration_on_panel(None), None);
    assert!(confirm_leave_collaboration_on_panel(Some(SessionPhase::Attached { peers_present: 1 }))
        .expect("a question")
        .ends_with(" Your copy of the document stays open."));
}

#[test]
fn joined_sessions_open_without_a_file() {
    let mut ws = Workspace::new(true);
    ws.open_join_collaboration_dialog();
    assert!(ws.add_joined_collaboration_panel(1, Ok(())).is_ok());
    assert!(ws.file_of_panel(1).is_none());
    assert!(matches!(ws.joined_session_attached(Ok(())), Ok(true)));
    assert!(ws.surfaces.collaboration_dialog.is_none());
    assert!(matches!(ws.joined_session_attached(Ok(())), Ok(false)));
    ws.add_joined_collaboration_flow_panel(2);
    assert_eq!(ws.start_collaboration_on_active_document(), Some((2, PanelKind::Flow)));
    assert!(matches!(
        ws.add_joined_collaboration_panel(3, Err("no".to_string())),
        Err(JoinFailure::RuntimeStart(error)) if error == "no"
    ));
    assert!(matches!(
        ws.joined_session_attached(Err("late".to_string())),
        Err(JoinFailure::Attachment(error)) if error == "late"
    ));
    assert_eq!(active(&ws), Some(2));
}

#[test]
fn dialogs_need_a_document_with_services() {
    let mut ws = Workspace::new(true);
    assert!(ws.open_revision_dialog().is_none());
    assert!(ws.open_comment_dialog().is_none());
    ws.new_flow(1);
    assert_eq!(ws.open_revision_dialog(), Some((1, false, false)));
    assert!(ws.open_comment_dialog().is_none(), "a flow has no comments");
    ws.new_document(2);
    assert_eq!(ws.open_revision_dialog(), Some((2, true, true)));
    assert_eq!(ws.open_comment_dialog(), Some((2, false)));
    assert_eq!(ws.open_comment_dialog(), Some((2, true)));
    ws.close_revision_dialog();
    ws.close_comment_dialog();
    assert!(ws.surfaces.revision_dialog.is_none() && ws.surfaces.comment_dialog.is_none());
    assert!(ws.open_document_revision(2) && !ws.open_document_revision(1));
    assert_eq!(ws.revision_forked(RevisionFork::Missing, 0xab, 3), None);
    assert_eq!(
        ws.revision_forked(RevisionFork::Started, 0xab, 3).as_deref(),
        Some("Revision ab")
    );
    assert_eq!(active(&ws), Some(3));
}

#[test]
fn double_open_same_path_activates_existing_tab() {
    let mut ws = Workspace::new(true);
    let mut opening = match ws.open_document_path("/a.db8".to_string()) {
        OpenStart::Begun(opening) => opening,
        OpenStart::Shown { .. } => panic!("nothing is open"),
    };
    ws.show_quick_picture(&mut opening, true, 1);
    ws.new_document(2);
    match ws.open_document_path_at_paragraph("/a.db8".to_string(), 4) {
        OpenStart::Shown { panel, scroll_to } => assert_eq!((panel, scroll_to), (1, Some(4))),
        OpenStart::Begun(_) => panic!("the file is open"),
    }
    assert_eq!(ws.panels.documents.len(), 2, "double-open must not create a second panel");
    assert_eq!(active(&ws), Some(1), "double-open must activate the existing tab");
}

#[test]
fn files_open_into_their_panels() {
    let mut ws = Workspace::new(true);
    let mut opening = match ws.open_demo_document() {
        OpenStart::Begun(opening) => opening,
        OpenStart::Shown { .. } => panic!("nothing is open"),
    };
    ws.show_quick_picture(&mut opening, true, 1);
    assert!(!ws.request_document_revisions(1));
    let (end, _) = ws.finish_opening(&opening, LoadOutcome::Document { started: Ok(()) }, true, 2);
    assert!(matches!(end, OpenEnd::Attached(1)));
    assert!(ws.request_document_revisions(1));
    assert_eq!(ws.file_of_panel(1).as_deref(), Some("data/demo.db8"));

    let opening = match ws.prompt_open_document(Some(&vec!["/b.docx".to_string()])) {
        Some(OpenStart::Begun(opening)) => opening,
        _ => panic!("the first picked file opens"),
    };
    let (end, _) = ws.finish_opening(&opening, LoadOutcome::Document { started: Ok(()) }, false, 2);
    assert!(matches!(end, OpenEnd::NewDocument(2)));
    assert!(ws.file_of_panel(2).is_none(), "an import never saves over its source");
    assert!(ws.prompt_open_document(None).is_none());
    assert!(ws.prompt_open_document(Some(&Vec::new())).is_none());

    let opening = match ws.open_document_path("/c.fl0".to_string()) {
        OpenStart::Begun(opening) => opening,
        OpenStart::Shown { .. } => panic!("the flow is not open"),
    };
    let (end, _) = ws.finish_opening(&opening, LoadOutcome::Flow, true, 3);
    assert!(matches!(end, OpenEnd::NewFlow(3)));
    let (end, _) = ws.finish_opening(
        &opening,
        LoadOutcome::Document { started: Err("full".to_string()) },
        true,
        4,
    );
    assert!(matches!(
        end,
        OpenEnd::NotStarted(text)
            if text == "The canonical Loro runtime could not be started: full"
    ));
}

#[test]
fn double_open_across_windows_activates_the_other_window() {
    let mut windows = Windows::new();
    let first = windows.open_workspace_window();
    let opening = match windows.open_document_path("/a.db8".to_string(), None) {
        WindowStart::Begun(opening) => opening,
        WindowStart::ShownIn { .. } => panic!("nothing is open"),
    };
    windows.list[first].finish_opening(
        &opening,
        LoadOutcome::Document { started: Ok(()) },
        true,
        1,
    );
    let second = windows.open_workspace_window();
    match windows.open_document_path("/a.db8".to_string(), Some(2)) {
        WindowStart::ShownIn { window, panel, scroll_to } => {
            assert_eq!((window, panel, scroll_to), (first, 1, Some(2)));
        }
        WindowStart::Begun(_) => panic!("the first window shows the file"),
    }
    assert!(windows.list[second].panels.documents.is_empty(), "no duplicate panel in window two");
    assert_eq!(active(&windows.list[first]), Some(1));
}

#[test]
fn second_window_is_ephemeral_not_session_owner() {
    let mut windows = Windows::new();
    windows.open_workspace_window();
    windows.open_workspace_window();
    assert!(windows.list[0].session_owner, "first window owns the session");
    assert!(!windows.list[1].session_owner, "second window must not own the session");
    assert!(windows.list[1].panels.documents.is_empty());
    assert!(windows.list[1].panels.flows.is_empty());
}

#[test]
fn untitled_tear_off_moves_live() {
    let mut windows = Windows::new();
    windows.open_workspace_window();
    windows.list[0].new_document(1);
    let window = windows.tear_off_document_tab(1, 0).expect("a window of its own");
    assert!(windows.list[0].panels.documents.is_empty(), "the untitled panel moved out");
    assert_eq!(windows.list.len(), 2);
    assert_eq!(windows.list[window].panels.documents, vec![1]);
    windows.list[0].new_flow(2);
    assert!(windows.tear_off_document_tab(2, 0).is_none());
}

#[test]
fn a_torn_off_tab_takes_everything_along() {
    let mut windows = Windows::new();
    windows.open_workspace_window();
    let opening = match windows.open_document_path("/a.db8".to_string(), None) {
        WindowStart::Begun(opening) => opening,
        WindowStart::ShownIn { .. } => panic!("nothing is open"),
    };
    windows.list[0].new_document(7);
    windows.list[0].finish_opening(&opening, LoadOutcome::Document { started: Ok(()) }, true, 1);
    assert!(command(&mut windows.list[0], CommandId::TogglePinTab));
    assert!(command(&mut windows.list[0], CommandId::ToggleRibbon));
    let window = windows.tear_off_document_tab(1, 0).expect("a window of its own");
    assert_eq!(window, 1);
    assert_eq!(windows.list[0].panels.documents, vec![7]);
    assert!(windows.list[0].panels.pinned.is_empty());
    assert_eq!(windows.list[0].file_of_panel(1), None);
    assert!(windows.list[0].layout.ribbon_collapsed);
    let torn = &windows.list[1];
    assert_eq!(torn.panels.documents, vec![1]);
    assert_eq!(active(torn), Some(1));
    assert_eq!(torn.file_of_panel(1).as_deref(), Some("/a.db8"));
    assert!(torn.request_document_revisions(1));
    assert!(torn.panels.pinned.is_empty() && torn.panels.flows.is_empty());
    assert!(!torn.layout.ribbon_collapsed && !torn.session_owner);
}

#[test]
fn a_flow_moves_once_it_has_a_file() {
    let mut windows = Windows::new();
    windows.open_workspace_window();
    windows.open_workspace_window();
    windows.list[0].new_flow(2);
    assert!(!windows.move_document_tab_to_window(2, 0, 1), "an unsaved flow is saved first");
    assert!(windows.tear_off_document_tab(2, 0).is_none());
    assert_eq!(windows.list.len(), 2, "no window opens for a tab that stays");
    let opening = match windows.open_document_path("/a.fl0".to_string(), None) {
        WindowStart::Begun(opening) => opening,
        WindowStart::ShownIn { .. } => panic!("nothing is open"),
    };
    windows.list[0].finish_opening(&opening, LoadOutcome::Flow, true, 3);
    assert_eq!(windows.tear_off_document_tab(3, 0), Some(2));
    assert_eq!(windows.list[0].panels.flows, vec![2]);
    assert_eq!(windows.list[2].panels.flows, vec![3]);
    assert!(windows.list[2].panels.documents.is_empty());
    assert!(windows.list[2].flow_services_run(3));
    assert_eq!(windows.list[2].file_of_panel(3).as_deref(), Some("/a.fl0"));
    assert!(windows.move_document_tab_to_window(3, 2, 1));
    assert!(windows.list[2].panels.flows.is_empty());
    assert_eq!(windows.list[1].panels.flows, vec![3]);
}

#[test]
fn palette_lines_run() {
    let mut ws = Workspace::new(true);
    let mut states =
        ToggleStates { autosave: false, smart_word_selection: true, reduce_motion: false };
    let (_, target) = ws.run_palette_action(
        PaletteAction::Command(CommandId::NewDocument),
        &mut states,
        keyboard(),
        4,
    );
    assert_eq!(target, Dispatch::Handled(WorkspaceEffect::NewDocument));
    assert_eq!(ws.panels.documents, vec![4]);
    let (effect, target) =
        ws.run_palette_action(PaletteAction::ToggleAutosave, &mut states, keyboard(), 5);
    assert_eq!(effect, PaletteEffect::SetAutosave(true));
    assert_eq!(target, Dispatch::Unhandled);
    assert_eq!(
        states,
        ToggleStates { autosave: true, smart_word_selection: true, reduce_motion: false },
    );
    ws.run_palette_action(PaletteAction::ToggleSmartWordSelection, &mut states, keyboard(), 5);
    ws.run_palette_action(PaletteAction::ToggleReduceMotion, &mut states, keyboard(), 5);
    assert_eq!(
        states,
        ToggleStates { autosave: true, smart_word_selection: false, reduce_motion: true },
    );
    let (effect, _) =
        ws.run_palette_action(PaletteAction::GoToParagraph(3), &mut states, keyboard(), 5);
    assert_eq!(effect, PaletteEffect::ShowParagraph(3));
    assert_eq!(ws.panels.documents, vec![4]);
}

#[test]
fn commands_change_the_window_they_are_sent_to() {
    let mut ws = Workspace::new(true);
    assert_eq!(
        ws.run_command(CommandId::NewDocument, keyboard(), 5),
        Dispatch::Handled(WorkspaceEffect::NewDocument),
    );
    assert_eq!(active(&ws), Some(5));
    assert!(ws.request_document_revisions(5));
    assert!(command(&mut ws, CommandId::OpenCommandPalette));
    assert!(ws.surfaces.command_palette);
    assert!(command(&mut ws, CommandId::SwapLeftNav));
    assert_eq!(ws.layout.left_nav_mode, LeftNavMode::Tub);
    assert!(command(&mut ws, CommandId::FocusTubSearch));
    assert_eq!(ws.layout.active_toolkit_tool, Some(ToolkitTool::Tub));
    assert!(command(&mut ws, CommandId::FocusTubSearch));
    assert_eq!(ws.layout.active_toolkit_tool, Some(ToolkitTool::Tub));

    let find = ws.run_command(CommandId::FindInDocument, keyboard(), 6);
    assert_eq!(find, Dispatch::HandledIfDone(WorkspaceEffect::OpenSearchBar(5)));
    assert!(ws.command_taken(find, true));
    let start = ws.run_command(CommandId::StartCollaboration, keyboard(), 6);
    assert!(ws.command_taken(start, true));
    assert!(!ws.command_taken(start, false), "the session did not start");
    let send = ws.run_command(CommandId::SendToSpeechDocument, keyboard(), 6);
    assert!(!ws.command_taken(send, true), "nothing is spoken from");
    assert_eq!(ws.panels.documents, vec![5]);

    ws.new_flow(8);
    assert!(!command(&mut ws, CommandId::FindInDocument), "a flow has no search bar");
    assert!(command(&mut ws, CommandId::ToggleSpeechDocument));
    assert_eq!(ws.panels.speech, None, "a flow cannot be spoken from");
    ws.open_file_search_overlay();
    assert_eq!(ws.run_command(CommandId::ToggleRibbon, keyboard(), 6), Dispatch::Unhandled);
    assert!(!ws.layout.ribbon_collapsed);
}

#[test]
fn live_tab_handoff_moves_the_entity_between_windows() {
    let mut windows = Windows::new();
    windows.open_workspace_window();
    windows.open_workspace_window();
    let opening = match windows.open_document_path("/a.db8".to_string(), None) {
        WindowStart::Begun(opening) => opening,
        WindowStart::ShownIn { .. } => panic!("nothing is open"),
    };
    windows.list[0].finish_opening(
        &opening,
        LoadOutcome::Document { started: Ok(()) },
        true,
        1,
    );
    assert!(windows.move_document_tab_to_window(1, 0, 1));
    assert!(windows.list[0].panels.documents.is_empty(), "the source window let go");
    assert!(!windows.list[0].request_document_revisions(1));
    assert_eq!(windows.list[1].panels.documents, vec![1]);
    assert!(windows.list[1].request_document_revisions(1), "the services rode along");
    assert_eq!(windows.list[1].file_of_panel(1).as_deref(), Some("/a.db8"));
    assert!(!windows.move_document_tab_to_window(9, 1, 0));
}

fn tab(id: u128, flow: bool, path: Option<&str>, pending: bool) -> SessionTab {
    SessionTab {
        id,
        kind: if flow {
            TemporaryWorkspaceSessionEntryKind::Flow
        } else {
            TemporaryWorkspaceSessionEntryKind::Document
        },
        path: path.map(str::to_string),
        pending,
        collapsed_outline_items: vec![3],
        outline_scrolled_paragraph: Some(1),
        viewport_paragraph: Some(2),
    }
}

#[test]
fn a_session_comes_back() {
    let tabs = vec![
        tab(1, false, Some("/a.db8"), false),
        tab(2, false, None, false),
        tab(3, false, Some("/wait.db8"), true),
        tab(4, false, Some("/gone.db8"), false),
        tab(5, true, Some("/f.fl0"), false),
    ];
    let toggles = SessionToggles {
        ribbon_collapsed: true,
        outline_collapsed: false,
        left_nav_tub: true,
        nav_width_bits: Some(7),
        tub_tool_open: true,
        toolkit_filter: Some("tags".to_string()),
        tub_expanded_dirs: vec!["cards".to_string()],
    };
    let stamps = vec![(9, 100)];
    let session = snapshot_session(&tabs, Some(1), &vec![5, 2], Some(1), toggles, &stamps);
    assert_eq!(session.entries.len(), 3);
    let came = |id, kind| Some(RestoredTab { id, kind, keeps_path: true });
    let opened = vec![came(11, PanelKind::Document), None, came(15, PanelKind::Flow)];
    let mut ws = Workspace::new(true);
    let mut dirs = TextSet::new();
    let mut seen = CommentReadState { last_seen: std::collections::HashMap::new() };
    let restored =
        ws.restore_temporary_workspace_session(session, &opened, &mut dirs, &mut seen);
    assert_eq!(ws.panels.documents, vec![11]);
    assert_eq!(ws.panels.flows, vec![15]);
    assert_eq!(ws.panels.active, Some((11, PanelKind::Document)));
    assert_eq!(ws.panels.pinned, vec![15]);
    assert_eq!(ws.panels.speech, Some(11));
    assert_eq!(ws.file_of_panel(15).as_deref(), Some("/f.fl0"));
    assert_eq!(ws.layout.left_nav_mode, LeftNavMode::Tub);
    assert_eq!(ws.layout.active_toolkit_tool, Some(ToolkitTool::Tub));
    assert_eq!(ws.layout.restored_nav_width_bits, Some(7));
    assert!(ws.layout.ribbon_collapsed && !ws.layout.outline_collapsed);
    assert!(dirs.contains("cards"));
    assert_eq!(seen.last_seen.get(&9), Some(&100));
    assert_eq!(restored.documents.len(), 1);
    assert_eq!(restored.documents[0].collapsed_outline_items, Some(vec![3]));
    assert_eq!(restored.documents[0].scroll_to, Some(2));
    assert_eq!(restored.toolkit_filter.as_deref(), Some("tags"));
}

#[test]
fn history_takeover_opens_loads_the_ledger_and_toggles_closed() {
    let mut ws = Workspace::new(true);
    assert!(command(&mut ws, CommandId::OpenHistory));
    assert!(ws.surfaces.history_takeover.is_none(), "there is no document");
    ws.new_flow(4);
    assert_eq!(ws.open_history_takeover(), None, "a flow has no history");
    ws.new_document(5);
    assert!(command(&mut ws, CommandId::OpenHistory));
    assert_eq!(ws.surfaces.history_takeover, Some(5), "takeover opens");

    let saved = |id: u128, title: &str, kind: RevisionKind| RevisionInfo {
        revision_id: id,
        frontier: Vec::new(),
        title: title.to_string(),
        kind,
        created_at_unix_secs: id as i64,
        author_display_name: None,
    };
    let mut takeover = HistoryTakeover::new(5);
    takeover.finish_reload(
        Ok(vec![
            saved(2, "Key moment", RevisionKind::Named),
            saved(1, "Doc", RevisionKind::Session),
        ]),
        true,
    );
    let count = takeover.revision_count();
    assert!(count >= 2, "the ledger loads the save + the named pin (got {count})");

    assert!(command(&mut ws, CommandId::OpenHistory));
    assert!(ws.surfaces.history_takeover.is_none(), "toggle closes the takeover");
}

#[test]
fn tools_of_the_rail_open_and_close() {
    let mut ws = Workspace::new(true);
    assert!(command(&mut ws, CommandId::ToggleTubTool));
    assert_eq!(ws.layout.active_toolkit_tool, Some(ToolkitTool::Tub));
    assert!(command(&mut ws, CommandId::OpenComments));
    assert_eq!(ws.layout.active_toolkit_tool, Some(ToolkitTool::Comments));
    assert!(command(&mut ws, CommandId::OpenComments));
    assert_eq!(ws.layout.active_toolkit_tool, Some(ToolkitTool::Comments));
    ws.toggle_toolkit_tool(ToolkitTool::Comments);
    assert_eq!(ws.layout.active_toolkit_tool, None);
}

#[test]
fn ctrl_tab_keystroke_cycles_tabs_through_the_interceptor() {
    let mut ws = Workspace::new(true);
    ws.new_document(1);
    ws.new_document(2);
    let before = active(&ws);
    let entries = vec![KeymapEntry {
        command: CommandId::NextTab,
        key: "ctrl-tab".to_string(),
        context: None,
    }];
    let pressed = workspace_command_for_keystroke(&entries, &vec![true]).expect("a binding");
    assert!(command(&mut ws, pressed));
    assert_ne!(active(&ws), before, "ctrl-tab must reach the workspace keybinding interceptor");
}
