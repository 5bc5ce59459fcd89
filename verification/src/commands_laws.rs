//! Where the window's commands go, and what each of them does to it.

use crate::commands::{
    ActiveSurface, CommandId, Dispatch, DispatchContext, GridDirection, ToolkitTool,
    WorkspaceEffect,
};
use crate::pane::PanelId;
use crate::panels::PanelKind;
use crate::workspace::{CollabDialogMode, KeyboardState, Workspace};
use vstd::prelude::*;

verus! {

/// Nothing but the document or flow on top has the keyboard: no overlay and no
/// dialog shows, and no input of the window's own is being typed into.
pub open spec fn keyboard_is_free(context: DispatchContext) -> bool {
    &&& !context.settings_overlay_open
    &&& !context.file_search_open
    &&& !context.collaboration_dialog_open
    &&& !context.toolkit_search_focused
    &&& !context.tub_file_search_focused
    &&& !context.search_bar_focused
}

/// While an overlay or a dialog shows, or an input is being typed into, no
/// command reaches the window.
pub proof fn a_taken_keyboard_sends_no_command(
    context: DispatchContext,
    command: CommandId,
    target: Dispatch,
)
    requires
        call_ensures(DispatchContext::handle_window_keybinding, (&context, command), target),
        !keyboard_is_free(context),
    ensures
        target == Dispatch::Unhandled,
{
}

/// A flow on top takes the commands of its grid, each as what it is called;
/// a backspace it takes only in an empty cell.
pub proof fn a_flow_takes_the_commands_of_its_grid(
    context: DispatchContext,
    command: CommandId,
    cell_empty: bool,
    target: Dispatch,
)
    requires
        call_ensures(DispatchContext::handle_window_keybinding, (&context, command), target),
        keyboard_is_free(context),
        context.surface == (ActiveSurface::Flow { cell_empty }),
    ensures
        command == CommandId::Undo ==> target == Dispatch::Handled(WorkspaceEffect::FlowUndo),
        command == CommandId::Redo ==> target == Dispatch::Handled(WorkspaceEffect::FlowRedo),
        command == CommandId::InsertNewline ==> target == Dispatch::Handled(WorkspaceEffect::FlowStepDown),
        command == CommandId::InsertSoftLineBreak ==> target == Dispatch::Handled(WorkspaceEffect::FlowAddResponse),
        command == CommandId::FlowAddSiblingAbove ==> target == Dispatch::Handled(WorkspaceEffect::FlowAddSiblingAbove),
        command == CommandId::DeleteWordForward ==> target == Dispatch::Handled(WorkspaceEffect::FlowDeleteSelected),
        command == CommandId::FlowDeleteSelected ==> target == Dispatch::Handled(WorkspaceEffect::FlowDeleteSelected),
        command == CommandId::ToggleStrikethrough ==> target == Dispatch::Handled(WorkspaceEffect::FlowStrikeSelected),
        command == CommandId::FlowStrike ==> target == Dispatch::Handled(WorkspaceEffect::FlowStrikeSelected),
        command == CommandId::FlowNewFamily ==> target == Dispatch::Handled(WorkspaceEffect::FlowAddFamily),
        command == CommandId::FlowNavigateUp ==> target == Dispatch::Handled(WorkspaceEffect::FlowNavigate(GridDirection::Up)),
        command == CommandId::FlowMoveUp ==> target == Dispatch::Handled(WorkspaceEffect::FlowMoveCell(GridDirection::Up)),
        command == CommandId::FlowNavigateDown ==> target == Dispatch::Handled(WorkspaceEffect::FlowNavigate(GridDirection::Down)),
        command == CommandId::FlowMoveDown ==> target == Dispatch::Handled(WorkspaceEffect::FlowMoveCell(GridDirection::Down)),
        command == CommandId::FlowNavigateLeft ==> target == Dispatch::Handled(WorkspaceEffect::FlowNavigate(GridDirection::Left)),
        command == CommandId::FlowMoveLeft ==> target == Dispatch::Handled(WorkspaceEffect::FlowMoveCell(GridDirection::Left)),
        command == CommandId::FlowNavigateRight ==> target == Dispatch::Handled(WorkspaceEffect::FlowNavigate(GridDirection::Right)),
        command == CommandId::FlowMoveRight ==> target == Dispatch::Handled(WorkspaceEffect::FlowMoveCell(GridDirection::Right)),
        command == CommandId::Backspace && cell_empty ==> target == Dispatch::Handled(
            WorkspaceEffect::FlowRemoveEmptyCell,
        ),
        command == CommandId::Backspace && !cell_empty ==> target == Dispatch::Unhandled,
{
}

/// The window takes its own commands whatever is on top, each as what it is
/// called; the numbered ones count the tabs from one on.
pub proof fn the_window_takes_its_own_commands(
    context: DispatchContext,
    command: CommandId,
    target: Dispatch,
)
    requires
        call_ensures(DispatchContext::handle_window_keybinding, (&context, command), target),
        keyboard_is_free(context),
    ensures
        command == CommandId::Save ==> target == Dispatch::Handled(WorkspaceEffect::SaveActive),
        command == CommandId::NewDocument ==> target == Dispatch::Handled(WorkspaceEffect::NewDocument),
        command == CommandId::OpenDocument ==> target == Dispatch::Handled(WorkspaceEffect::PromptOpenDocument),
        command == CommandId::CloseDocument ==> target == Dispatch::Handled(WorkspaceEffect::CloseActiveDocument),
        command == CommandId::ShareDocument ==> target == Dispatch::Handled(WorkspaceEffect::OpenShareDialog),
        command == CommandId::JoinSession ==> target == Dispatch::Handled(WorkspaceEffect::OpenJoinDialog),
        command == CommandId::OpenCommandPalette ==> target == Dispatch::Handled(WorkspaceEffect::OpenCommandPalette),
        command == CommandId::OpenComments ==> target == Dispatch::Handled(WorkspaceEffect::OpenCommentsPanel),
        command == CommandId::OpenHistory ==> target == Dispatch::Handled(WorkspaceEffect::OpenHistory),
        command == CommandId::ToggleTubTool ==> target == Dispatch::Handled(WorkspaceEffect::ToggleTool(ToolkitTool::Tub)),
        command == CommandId::SwapLeftNav ==> target == Dispatch::Handled(WorkspaceEffect::SwapLeftNav),
        command == CommandId::ToggleRibbon ==> target == Dispatch::Handled(WorkspaceEffect::ToggleRibbon),
        command == CommandId::NextTab ==> target == Dispatch::Handled(WorkspaceEffect::NextTab),
        command == CommandId::PreviousTab ==> target == Dispatch::Handled(WorkspaceEffect::PreviousTab),
        command == CommandId::TogglePinTab ==> target == Dispatch::Handled(WorkspaceEffect::TogglePin),
        command == CommandId::SwitchToTab1 ==> target == Dispatch::Handled(WorkspaceEffect::ActivateTab(0usize)),
        command == CommandId::SwitchToTab2 ==> target == Dispatch::Handled(WorkspaceEffect::ActivateTab(1usize)),
        command == CommandId::SwitchToTab3 ==> target == Dispatch::Handled(WorkspaceEffect::ActivateTab(2usize)),
        command == CommandId::SwitchToTab4 ==> target == Dispatch::Handled(WorkspaceEffect::ActivateTab(3usize)),
        command == CommandId::SwitchToTab5 ==> target == Dispatch::Handled(WorkspaceEffect::ActivateTab(4usize)),
        command == CommandId::SwitchToTab6 ==> target == Dispatch::Handled(WorkspaceEffect::ActivateTab(5usize)),
        command == CommandId::SwitchToTab7 ==> target == Dispatch::Handled(WorkspaceEffect::ActivateTab(6usize)),
        command == CommandId::SwitchToTab8 ==> target == Dispatch::Handled(WorkspaceEffect::ActivateTab(7usize)),
        command == CommandId::SwitchToTab9 ==> target == Dispatch::Handled(WorkspaceEffect::ActivateTab(8usize)),
        command == CommandId::SwitchToTab10 ==> target == Dispatch::Handled(WorkspaceEffect::ActivateTab(9usize)),
        command == CommandId::JoinCollaborationFromClipboard ==> target == Dispatch::HandledIfDone(WorkspaceEffect::JoinFromClipboard),
        command == CommandId::SendToSpeechDocument ==> target == Dispatch::HandledIfDone(WorkspaceEffect::SendToSpeechDocument),
        command == CommandId::SendToSpeechDocumentEnd ==> target == Dispatch::HandledIfDone(WorkspaceEffect::SendToSpeechDocumentEnd),
        command == CommandId::CondenseSelection ==> target == Dispatch::HandledIfDone(WorkspaceEffect::CondenseSelection),
        command == CommandId::FocusTubSearch ==> target == Dispatch::Handled(
            WorkspaceEffect::FocusTubSearch {
                open_tool: context.active_tool != Some(ToolkitTool::Tub),
            },
        ),
        command == CommandId::ScrollToParagraph ==> target == Dispatch::Unhandled,
{
}

/// What is done to the panel on top needs one: to a document's contents a
/// document, to a session or a search any panel, and zooming zooms what is on
/// top. Without one the key goes on to others.
pub proof fn commands_need_what_they_act_on(
    context: DispatchContext,
    command: CommandId,
    target: Dispatch,
)
    requires
        call_ensures(DispatchContext::handle_window_keybinding, (&context, command), target),
        keyboard_is_free(context),
    ensures
        context.surface is Document && command == CommandId::CondensedSelection ==> target == Dispatch::Handled(WorkspaceEffect::ToggleCondensedTool),
        !(context.surface is Document) && command == CommandId::CondensedSelection ==> target
            == Dispatch::Unhandled,
        context.surface is Document && command == CommandId::MarkCard ==> target == Dispatch::Handled(WorkspaceEffect::MarkCard),
        !(context.surface is Document) && command == CommandId::MarkCard ==> target
            == Dispatch::Unhandled,
        context.surface is Document && command == CommandId::ExportFormat ==> target == Dispatch::Handled(WorkspaceEffect::ExportFormat),
        !(context.surface is Document) && command == CommandId::ExportFormat ==> target
            == Dispatch::Unhandled,
        context.surface is Document && command == CommandId::ExportSend ==> target == Dispatch::Handled(WorkspaceEffect::ExportSend),
        !(context.surface is Document) && command == CommandId::ExportSend ==> target
            == Dispatch::Unhandled,
        context.surface is Document && command == CommandId::ToggleInvisibility ==> target == Dispatch::Handled(WorkspaceEffect::ToggleInvisibility),
        !(context.surface is Document) && command == CommandId::ToggleInvisibility ==> target
            == Dispatch::Unhandled,
        context.active_panel is Some && command == CommandId::StartCollaboration ==> target == Dispatch::HandledIfDone(WorkspaceEffect::StartCollaboration),
        context.active_panel is None && command == CommandId::StartCollaboration ==> target
            == Dispatch::Unhandled,
        context.active_panel is Some && command == CommandId::CopyCollaborationTicket ==> target == Dispatch::Handled(WorkspaceEffect::CopyCollaborationTicket),
        context.active_panel is None && command == CommandId::CopyCollaborationTicket ==> target
            == Dispatch::Unhandled,
        context.active_panel is Some && command == CommandId::LeaveCollaboration ==> target == Dispatch::HandledIfDone(WorkspaceEffect::ConfirmLeaveCollaboration),
        context.active_panel is None && command == CommandId::LeaveCollaboration ==> target
            == Dispatch::Unhandled,
        context.active_panel is Some && command == CommandId::FindInDocument ==> target == Dispatch::HandledIfDone(WorkspaceEffect::OpenSearchBar(context.active_panel->0)),
        context.active_panel is None && command == CommandId::FindInDocument ==> target
            == Dispatch::Unhandled,
        context.active_panel is Some && command == CommandId::ToggleSpeechDocument ==> target == Dispatch::Handled(WorkspaceEffect::ToggleSpeechDocument(context.active_panel->0)),
        context.active_panel is None && command == CommandId::ToggleSpeechDocument ==> target
            == Dispatch::Unhandled,
        context.surface is Document && command == CommandId::ZoomIn ==> target == Dispatch::Handled(WorkspaceEffect::ZoomDocumentIn),
        context.surface is Flow && command == CommandId::ZoomIn ==> target == Dispatch::Handled(WorkspaceEffect::ZoomFlowIn),
        context.surface is Nothing && command == CommandId::ZoomIn ==> target
            == Dispatch::Unhandled,
        context.surface is Document && command == CommandId::ZoomOut ==> target == Dispatch::Handled(WorkspaceEffect::ZoomDocumentOut),
        context.surface is Flow && command == CommandId::ZoomOut ==> target == Dispatch::Handled(WorkspaceEffect::ZoomFlowOut),
        context.surface is Nothing && command == CommandId::ZoomOut ==> target
            == Dispatch::Unhandled,
{
}

/// What the text editor knows goes to it while a document is on top, under its
/// own number, and nowhere else.
pub proof fn an_editors_command_goes_to_the_editor(
    context: DispatchContext,
    number: u16,
    target: Dispatch,
)
    requires
        call_ensures(
            DispatchContext::handle_window_keybinding,
            (&context, CommandId::Editing(number)),
            target,
        ),
        keyboard_is_free(context),
    ensures
        context.surface is Document && context.editor_knows ==> target == Dispatch::Handled(
            WorkspaceEffect::EditorCommand(CommandId::Editing(number)),
        ),
        !(context.surface is Document && context.editor_knows) ==> target == Dispatch::Unhandled,
{
}

/// What a document on top is asked to undo or redo its editor undoes or
/// redoes, and what it types its editor types.
pub proof fn a_documents_keys_go_to_its_editor(
    context: DispatchContext,
    command: CommandId,
    target: Dispatch,
)
    requires
        call_ensures(DispatchContext::handle_window_keybinding, (&context, command), target),
        keyboard_is_free(context),
        context.surface is Document,
        context.editor_knows,
        command == CommandId::Undo || command == CommandId::Redo || command
            == CommandId::InsertNewline || command == CommandId::InsertSoftLineBreak || command
            == CommandId::Backspace || command == CommandId::DeleteWordForward || command
            == CommandId::ToggleStrikethrough,
    ensures
        target == Dispatch::Handled(WorkspaceEffect::EditorCommand(command)),
{
}

/// A window whose keyboard is free: nothing stands over its documents, and no
/// input of its own is being typed into.
pub open spec fn window_is_free(window: Workspace, keyboard: KeyboardState) -> bool {
    &&& window.surfaces.settings_overlay is None
    &&& !window.surfaces.file_search_overlay
    &&& window.surfaces.collaboration_dialog is None
    &&& !keyboard.toolkit_search_focused
    &&& !keyboard.tub_file_search_focused
    &&& !keyboard.search_bar_focused
}

/// A command that shows or folds something shows or folds that and nothing
/// else: no panel, file or service changes with it.
pub proof fn commands_show_and_fold_what_they_name(
    window: &mut Workspace,
    command: CommandId,
    keyboard: KeyboardState,
    id: PanelId,
    target: Dispatch,
)
    requires
        window_is_free(*old(window), keyboard),
        call_ensures(Workspace::run_command, (window, command, keyboard, id), target),
        command == CommandId::ToggleRibbon || command == CommandId::SwapLeftNav || command
            == CommandId::ToggleTubTool || command == CommandId::OpenComments || command
            == CommandId::OpenCommandPalette || command == CommandId::ShareDocument || command
            == CommandId::JoinSession || command == CommandId::FocusTubSearch || command
            == CommandId::OpenHistory,
    ensures
        target is Handled,
        final(window)@.panels == old(window)@.panels,
        final(window)@.files == old(window)@.files,
        final(window)@.document_runtimes == old(window)@.document_runtimes,
        final(window)@.flow_document_runtimes == old(window)@.flow_document_runtimes,
        final(window).session_owner == old(window).session_owner,
        final(window).layout.ribbon_collapsed == (old(window).layout.ribbon_collapsed != (command
            == CommandId::ToggleRibbon)),
        (final(window).layout.left_nav_mode == old(window).layout.left_nav_mode) <==> command
            != CommandId::SwapLeftNav,
        final(window).layout.outline_collapsed == old(window).layout.outline_collapsed,
        final(window).layout.active_toolkit_tool == (if command == CommandId::ToggleTubTool
            && old(window).layout.active_toolkit_tool == Some(ToolkitTool::Tub) {
            None
        } else if command == CommandId::ToggleTubTool || command == CommandId::FocusTubSearch {
            Some(ToolkitTool::Tub)
        } else if command == CommandId::OpenComments {
            Some(ToolkitTool::Comments)
        } else {
            old(window).layout.active_toolkit_tool
        }),
        final(window).surfaces.command_palette == (old(window).surfaces.command_palette || command
            == CommandId::OpenCommandPalette),
        final(window).surfaces.collaboration_dialog == (if command == CommandId::ShareDocument
            || command == CommandId::JoinSession {
            Some(
                (
                    if command == CommandId::ShareDocument {
                        CollabDialogMode::Share
                    } else {
                        CollabDialogMode::Join
                    },
                    match old(window).panels.active {
                        Some((top, _)) => Some(top),
                        None => None,
                    },
                ),
            )
        } else {
            None
        }),
        command != CommandId::OpenHistory ==> final(window).surfaces.history_takeover
            == old(window).surfaces.history_takeover,
        command == CommandId::OpenHistory && old(window).surfaces.history_takeover is Some
            ==> final(window).surfaces.history_takeover is None,
        command == CommandId::OpenHistory && old(window).surfaces.history_takeover is None ==> (
        final(window).surfaces.history_takeover is Some <==> old(window).panels.active is Some && (
        old(window).panels.active->0).1 == PanelKind::Document
            && old(window).document_runtimes@.contains((old(window).panels.active->0).0)),
        command == CommandId::OpenHistory && final(window).surfaces.history_takeover is Some
            ==> final(window).surfaces.history_takeover == Some((old(window).panels.active->0).0),
        final(window).surfaces.file_search_overlay == old(window).surfaces.file_search_overlay,
        final(window).surfaces.revision_dialog == old(window).surfaces.revision_dialog,
        final(window).surfaces.comment_dialog == old(window).surfaces.comment_dialog,
{
}

/// The command for a new document opens one under the id it is given, on top,
/// with its services; what was open stays.
pub proof fn a_new_document_opens_on_top(
    window: &mut Workspace,
    keyboard: KeyboardState,
    id: PanelId,
    target: Dispatch,
)
    requires
        window_is_free(*old(window), keyboard),
        call_ensures(
            Workspace::run_command,
            (window, CommandId::NewDocument, keyboard, id),
            target,
        ),
    ensures
        target == Dispatch::Handled(WorkspaceEffect::NewDocument),
        final(window)@.panels.documents == old(window)@.panels.documents.push(id),
        final(window)@.panels.flows == old(window)@.panels.flows,
        final(window)@.panels.active == Some((id, PanelKind::Document)),
        final(window)@.panels.pinned == old(window)@.panels.pinned,
        final(window)@.panels.speech == old(window)@.panels.speech,
        final(window)@.files == old(window)@.files,
        final(window)@.document_runtimes == old(window)@.document_runtimes.insert(id),
        final(window)@.flow_document_runtimes == old(window)@.flow_document_runtimes,
        final(window).surfaces == old(window).surfaces,
        final(window).layout == old(window).layout,
{
}

/// A command for what is on disk, in a session or inside a panel leaves the
/// window as it is; so does any command while its keyboard is taken.
pub proof fn other_commands_leave_the_window(
    window: &mut Workspace,
    command: CommandId,
    keyboard: KeyboardState,
    id: PanelId,
    target: Dispatch,
)
    requires
        call_ensures(Workspace::run_command, (window, command, keyboard, id), target),
        !window_is_free(*old(window), keyboard) || command == CommandId::Save || command
            == CommandId::OpenDocument || command == CommandId::CloseDocument || command
            == CommandId::StartCollaboration || command == CommandId::CopyCollaborationTicket
            || command == CommandId::JoinCollaborationFromClipboard || command
            == CommandId::LeaveCollaboration || command == CommandId::FindInDocument || command
            == CommandId::ZoomIn || command == CommandId::ZoomOut || command
            == CommandId::SendToSpeechDocument || command == CommandId::SendToSpeechDocumentEnd
            || command == CommandId::CondenseSelection || command == CommandId::CondensedSelection
            || command == CommandId::MarkCard || command == CommandId::ExportFormat || command
            == CommandId::ExportSend || command == CommandId::ToggleInvisibility || command
            == CommandId::Undo || command == CommandId::Redo || command is Editing,
    ensures
        final(window)@ == old(window)@,
        !window_is_free(*old(window), keyboard) ==> target == Dispatch::Unhandled,
{
}

/// A command that may fail counts as taken only where what it is about is
/// there and took place: a session where the services of the panel on top run,
/// a search in an open document, and sending where another document than the
/// one on top is spoken from.
pub proof fn a_command_is_taken_where_it_took_place(
    window: Workspace,
    effect: WorkspaceEffect,
    done: bool,
    taken: bool,
)
    requires
        call_ensures(
            Workspace::command_taken,
            (&window, Dispatch::HandledIfDone(effect), done),
            taken,
        ),
    ensures
        effect is OpenSearchBar ==> (taken <==> window.panels.documents@.contains(
            effect->OpenSearchBar_0,
        )),
        effect is StartCollaboration ==> (taken ==> done && window.panels.active is Some),
        effect is StartCollaboration && done && window.panels.active is Some
            && window.panels.documents@.contains((window.panels.active->0).0)
            && !window.panels.flows@.contains((window.panels.active->0).0)
            && window.document_runtimes@.contains((window.panels.active->0).0) ==> taken,
        effect is StartCollaboration && window.panels.active is Some
            && !window.panels.flows@.contains((window.panels.active->0).0)
            && !window.document_runtimes@.contains((window.panels.active->0).0) ==> !taken,
        effect is SendToSpeechDocument || effect is SendToSpeechDocumentEnd ==> (taken <==> done
            && window.panels.speech is Some && window.panels.active is Some && (
        window.panels.active->0).0 != window.panels.speech->0),
        effect is JoinFromClipboard || effect is ConfirmLeaveCollaboration
            || effect is CondenseSelection ==> (taken <==> done),
{
}

} // verus!
