//! The window's commands and where each of them goes.

use crate::pane::PanelId;
use vstd::prelude::*;

verus! {

/// A command that a key, a menu or the palette can give.
#[derive(Clone, Copy, Debug, PartialEq, Eq, Structural)]
pub enum CommandId {
    Save,
    NewDocument,
    OpenDocument,
    CloseDocument,
    ShareDocument,
    JoinSession,
    StartCollaboration,
    CopyCollaborationTicket,
    JoinCollaborationFromClipboard,
    LeaveCollaboration,
    FindInDocument,
    OpenCommandPalette,
    OpenComments,
    OpenHistory,
    ToggleTubTool,
    FocusTubSearch,
    SwapLeftNav,
    ZoomIn,
    ZoomOut,
    ToggleRibbon,
    NextTab,
    PreviousTab,
    TogglePinTab,
    SendToSpeechDocument,
    SendToSpeechDocumentEnd,
    CondenseSelection,
    CondensedSelection,
    MarkCard,
    ToggleSpeechDocument,
    ExportFormat,
    ExportSend,
    ToggleInvisibility,
    SwitchToTab1,
    SwitchToTab2,
    SwitchToTab3,
    SwitchToTab4,
    SwitchToTab5,
    SwitchToTab6,
    SwitchToTab7,
    SwitchToTab8,
    SwitchToTab9,
    SwitchToTab10,
    ScrollToParagraph,
    Undo,
    Redo,
    InsertNewline,
    InsertSoftLineBreak,
    Backspace,
    DeleteWordForward,
    ToggleStrikethrough,
    FlowAddSiblingAbove,
    FlowDeleteSelected,
    FlowStrike,
    FlowNewFamily,
    FlowNavigateUp,
    FlowNavigateDown,
    FlowNavigateLeft,
    FlowNavigateRight,
    FlowMoveUp,
    FlowMoveDown,
    FlowMoveLeft,
    FlowMoveRight,
    /// A command of the text editor's own, by its number there.
    Editing(u16),
}

#[derive(Clone, Copy, Debug, PartialEq, Eq, Structural)]
pub enum GridDirection {
    Up,
    Down,
    Left,
    Right,
}

/// What the left side panel shows.
#[derive(Clone, Copy, Debug, PartialEq, Eq, Structural)]
pub enum LeftNavMode {
    Outline,
    Tub,
}

impl LeftNavMode {
    pub open spec fn other(self) -> LeftNavMode {
        match self {
            LeftNavMode::Outline => LeftNavMode::Tub,
            LeftNavMode::Tub => LeftNavMode::Outline,
        }
    }

    /// The other mode.
    pub fn swapped(self) -> (mode: LeftNavMode)
        ensures
            mode == self.other(),
    {
        match self {
            LeftNavMode::Outline => LeftNavMode::Tub,
            LeftNavMode::Tub => LeftNavMode::Outline,
        }
    }
}

/// A tool of the toolkit rail.
#[derive(Clone, Copy, Debug, PartialEq, Eq, Structural)]
pub enum ToolkitTool {
    Tub,
    Comments,
}

/// The panel on top.
#[derive(Clone, Copy, Debug, PartialEq, Eq, Structural)]
pub enum ActiveSurface {
    Nothing,
    Document,
    /// A flow; whether its active cell is empty.
    Flow { cell_empty: bool },
}

/// What dispatch reads of the window.
#[derive(Clone, Copy, Debug, PartialEq, Eq, Structural)]
pub struct DispatchContext {
    pub settings_overlay_open: bool,
    pub file_search_open: bool,
    pub collaboration_dialog_open: bool,
    pub toolkit_search_focused: bool,
    pub tub_file_search_focused: bool,
    pub file_search_focused: bool,
    pub collaboration_dialog_focused: bool,
    pub search_bar_focused: bool,
    pub surface: ActiveSurface,
    pub active_panel: Option<PanelId>,
    pub active_tool: Option<ToolkitTool>,
    /// The text editor knows the command.
    pub editor_knows: bool,
}

/// What a command does.
#[derive(Clone, Copy, Debug, PartialEq, Eq, Structural)]
pub enum WorkspaceEffect {
    FlowUndo,
    FlowRedo,
    /// The flow's cursor steps to the row below; no row is inserted.
    FlowStepDown,
    FlowAddResponse,
    FlowAddSiblingAbove,
    /// The empty cell goes and the cursor steps to the row above.
    FlowRemoveEmptyCell,
    FlowDeleteSelected,
    FlowStrikeSelected,
    FlowAddFamily,
    FlowNavigate(GridDirection),
    FlowMoveCell(GridDirection),
    SaveActive,
    NewDocument,
    PromptOpenDocument,
    CloseActiveDocument,
    OpenShareDialog,
    OpenJoinDialog,
    StartCollaboration,
    CopyCollaborationTicket,
    JoinFromClipboard,
    ConfirmLeaveCollaboration,
    OpenSearchBar(PanelId),
    OpenCommandPalette,
    OpenCommentsPanel,
    OpenHistory,
    ToggleTool(ToolkitTool),
    /// Focus the tub search, opening the tub tool where it is not open.
    FocusTubSearch { open_tool: bool },
    SwapLeftNav,
    ZoomDocumentIn,
    ZoomDocumentOut,
    ZoomFlowIn,
    ZoomFlowOut,
    ToggleRibbon,
    NextTab,
    PreviousTab,
    TogglePin,
    SendToSpeechDocument,
    SendToSpeechDocumentEnd,
    CondenseSelection,
    ToggleCondensedTool,
    MarkCard,
    ToggleSpeechDocument(PanelId),
    ExportFormat,
    ExportSend,
    ToggleInvisibility,
    ActivateTab(usize),
    EditorCommand(CommandId),
}

/// Where a command goes.
#[derive(Clone, Copy, Debug, PartialEq, Eq, Structural)]
pub enum Dispatch {
    /// Not this window's: the key goes on to others.
    Unhandled,
    /// Done with the effect.
    Handled(WorkspaceEffect),
    /// Done exactly when the effect says that it took place.
    HandledIfDone(WorkspaceEffect),
}

/// The tab a numbered shortcut switches to.
pub open spec fn shortcut_tab(command: CommandId) -> Option<usize> {
    match command {
        CommandId::SwitchToTab1 => Some(0usize),
        CommandId::SwitchToTab2 => Some(1usize),
        CommandId::SwitchToTab3 => Some(2usize),
        CommandId::SwitchToTab4 => Some(3usize),
        CommandId::SwitchToTab5 => Some(4usize),
        CommandId::SwitchToTab6 => Some(5usize),
        CommandId::SwitchToTab7 => Some(6usize),
        CommandId::SwitchToTab8 => Some(7usize),
        CommandId::SwitchToTab9 => Some(8usize),
        CommandId::SwitchToTab10 => Some(9usize),
        _ => None,
    }
}

/// The tab a numbered shortcut switches to.
pub fn tab_index(command: &CommandId) -> (tab: Option<usize>)
    ensures
        tab == shortcut_tab(*command),
{
    match command {
        CommandId::SwitchToTab1 => Some(0),
        CommandId::SwitchToTab2 => Some(1),
        CommandId::SwitchToTab3 => Some(2),
        CommandId::SwitchToTab4 => Some(3),
        CommandId::SwitchToTab5 => Some(4),
        CommandId::SwitchToTab6 => Some(5),
        CommandId::SwitchToTab7 => Some(6),
        CommandId::SwitchToTab8 => Some(7),
        CommandId::SwitchToTab9 => Some(8),
        CommandId::SwitchToTab10 => Some(9),
        _ => None,
    }
}

/// What a flow on top does with a command; nothing for a command that is not
/// a flow's.
pub open spec fn flow_effect(command: CommandId, cell_empty: bool) -> Option<WorkspaceEffect> {
    match command {
        CommandId::Undo => Some(WorkspaceEffect::FlowUndo),
        CommandId::Redo => Some(WorkspaceEffect::FlowRedo),
        CommandId::InsertNewline => Some(WorkspaceEffect::FlowStepDown),
        CommandId::InsertSoftLineBreak => Some(WorkspaceEffect::FlowAddResponse),
        CommandId::FlowAddSiblingAbove => Some(WorkspaceEffect::FlowAddSiblingAbove),
        CommandId::Backspace => if cell_empty {
            Some(WorkspaceEffect::FlowRemoveEmptyCell)
        } else {
            None
        },
        CommandId::DeleteWordForward => Some(WorkspaceEffect::FlowDeleteSelected),
        CommandId::FlowDeleteSelected => Some(WorkspaceEffect::FlowDeleteSelected),
        CommandId::ToggleStrikethrough => Some(WorkspaceEffect::FlowStrikeSelected),
        CommandId::FlowStrike => Some(WorkspaceEffect::FlowStrikeSelected),
        CommandId::FlowNewFamily => Some(WorkspaceEffect::FlowAddFamily),
        CommandId::FlowNavigateUp => Some(WorkspaceEffect::FlowNavigate(GridDirection::Up)),
        CommandId::FlowNavigateDown => Some(WorkspaceEffect::FlowNavigate(GridDirection::Down)),
        CommandId::FlowNavigateLeft => Some(WorkspaceEffect::FlowNavigate(GridDirection::Left)),
        CommandId::FlowNavigateRight => Some(WorkspaceEffect::FlowNavigate(GridDirection::Right)),
        CommandId::FlowMoveUp => Some(WorkspaceEffect::FlowMoveCell(GridDirection::Up)),
        CommandId::FlowMoveDown => Some(WorkspaceEffect::FlowMoveCell(GridDirection::Down)),
        CommandId::FlowMoveLeft => Some(WorkspaceEffect::FlowMoveCell(GridDirection::Left)),
        CommandId::FlowMoveRight => Some(WorkspaceEffect::FlowMoveCell(GridDirection::Right)),
        _ => None,
    }
}

fn effect_on_flow(command: CommandId, cell_empty: bool) -> (effect: Option<WorkspaceEffect>)
    ensures
        effect == flow_effect(command, cell_empty),
{
    match command {
        CommandId::Undo => Some(WorkspaceEffect::FlowUndo),
        CommandId::Redo => Some(WorkspaceEffect::FlowRedo),
        CommandId::InsertNewline => Some(WorkspaceEffect::FlowStepDown),
        CommandId::InsertSoftLineBreak => Some(WorkspaceEffect::FlowAddResponse),
        CommandId::FlowAddSiblingAbove => Some(WorkspaceEffect::FlowAddSiblingAbove),
        CommandId::Backspace => if cell_empty {
            Some(WorkspaceEffect::FlowRemoveEmptyCell)
        } else {
            None
        },
        CommandId::DeleteWordForward | CommandId::FlowDeleteSelected => Some(
            WorkspaceEffect::FlowDeleteSelected,
        ),
        CommandId::ToggleStrikethrough | CommandId::FlowStrike => Some(
            WorkspaceEffect::FlowStrikeSelected,
        ),
        CommandId::FlowNewFamily => Some(WorkspaceEffect::FlowAddFamily),
        CommandId::FlowNavigateUp => Some(WorkspaceEffect::FlowNavigate(GridDirection::Up)),
        CommandId::FlowNavigateDown => Some(WorkspaceEffect::FlowNavigate(GridDirection::Down)),
        CommandId::FlowNavigateLeft => Some(WorkspaceEffect::FlowNavigate(GridDirection::Left)),
        CommandId::FlowNavigateRight => Some(WorkspaceEffect::FlowNavigate(GridDirection::Right)),
        CommandId::FlowMoveUp => Some(WorkspaceEffect::FlowMoveCell(GridDirection::Up)),
        CommandId::FlowMoveDown => Some(WorkspaceEffect::FlowMoveCell(GridDirection::Down)),
        CommandId::FlowMoveLeft => Some(WorkspaceEffect::FlowMoveCell(GridDirection::Left)),
        CommandId::FlowMoveRight => Some(WorkspaceEffect::FlowMoveCell(GridDirection::Right)),
        _ => None,
    }
}

/// A command for the document on top; none on top leaves it unhandled.
pub open spec fn on_document(context: DispatchContext, effect: WorkspaceEffect) -> Dispatch {
    if context.surface is Document {
        Dispatch::Handled(effect)
    } else {
        Dispatch::Unhandled
    }
}

/// Where the window sends a command that no flow took.
pub open spec fn window_dispatch(command: CommandId, context: DispatchContext) -> Dispatch {
    match command {
        CommandId::Save => Dispatch::Handled(WorkspaceEffect::SaveActive),
        CommandId::NewDocument => Dispatch::Handled(WorkspaceEffect::NewDocument),
        CommandId::OpenDocument => Dispatch::Handled(WorkspaceEffect::PromptOpenDocument),
        CommandId::CloseDocument => Dispatch::Handled(WorkspaceEffect::CloseActiveDocument),
        CommandId::ShareDocument => Dispatch::Handled(WorkspaceEffect::OpenShareDialog),
        CommandId::JoinSession => Dispatch::Handled(WorkspaceEffect::OpenJoinDialog),
        CommandId::StartCollaboration => if context.active_panel is Some {
            Dispatch::HandledIfDone(WorkspaceEffect::StartCollaboration)
        } else {
            Dispatch::Unhandled
        },
        CommandId::CopyCollaborationTicket => if context.active_panel is Some {
            Dispatch::Handled(WorkspaceEffect::CopyCollaborationTicket)
        } else {
            Dispatch::Unhandled
        },
        CommandId::JoinCollaborationFromClipboard => Dispatch::HandledIfDone(
            WorkspaceEffect::JoinFromClipboard,
        ),
        CommandId::LeaveCollaboration => if context.active_panel is Some {
            Dispatch::HandledIfDone(WorkspaceEffect::ConfirmLeaveCollaboration)
        } else {
            Dispatch::Unhandled
        },
        CommandId::FindInDocument => match context.active_panel {
            Some(panel) => Dispatch::HandledIfDone(WorkspaceEffect::OpenSearchBar(panel)),
            None => Dispatch::Unhandled,
        },
        CommandId::OpenCommandPalette => Dispatch::Handled(WorkspaceEffect::OpenCommandPalette),
        CommandId::OpenComments => Dispatch::Handled(WorkspaceEffect::OpenCommentsPanel),
        CommandId::OpenHistory => Dispatch::Handled(WorkspaceEffect::OpenHistory),
        CommandId::ToggleTubTool => Dispatch::Handled(
            WorkspaceEffect::ToggleTool(ToolkitTool::Tub),
        ),
        CommandId::FocusTubSearch => Dispatch::Handled(
            WorkspaceEffect::FocusTubSearch {
                open_tool: match context.active_tool {
                    Some(ToolkitTool::Tub) => false,
                    _ => true,
                },
            },
        ),
        CommandId::SwapLeftNav => Dispatch::Handled(WorkspaceEffect::SwapLeftNav),
        CommandId::ZoomIn => match context.surface {
            ActiveSurface::Document => Dispatch::Handled(WorkspaceEffect::ZoomDocumentIn),
            ActiveSurface::Flow { .. } => Dispatch::Handled(WorkspaceEffect::ZoomFlowIn),
            ActiveSurface::Nothing => Dispatch::Unhandled,
        },
        CommandId::ZoomOut => match context.surface {
            ActiveSurface::Document => Dispatch::Handled(WorkspaceEffect::ZoomDocumentOut),
            ActiveSurface::Flow { .. } => Dispatch::Handled(WorkspaceEffect::ZoomFlowOut),
            ActiveSurface::Nothing => Dispatch::Unhandled,
        },
        CommandId::ToggleRibbon => Dispatch::Handled(WorkspaceEffect::ToggleRibbon),
        CommandId::NextTab => Dispatch::Handled(WorkspaceEffect::NextTab),
        CommandId::PreviousTab => Dispatch::Handled(WorkspaceEffect::PreviousTab),
        CommandId::TogglePinTab => Dispatch::Handled(WorkspaceEffect::TogglePin),
        CommandId::SendToSpeechDocument => Dispatch::HandledIfDone(
            WorkspaceEffect::SendToSpeechDocument,
        ),
        CommandId::SendToSpeechDocumentEnd => Dispatch::HandledIfDone(
            WorkspaceEffect::SendToSpeechDocumentEnd,
        ),
        CommandId::CondenseSelection => Dispatch::HandledIfDone(WorkspaceEffect::CondenseSelection),
        CommandId::CondensedSelection => on_document(context, WorkspaceEffect::ToggleCondensedTool),
        CommandId::MarkCard => on_document(context, WorkspaceEffect::MarkCard),
        CommandId::ToggleSpeechDocument => match context.active_panel {
            Some(panel) => Dispatch::Handled(WorkspaceEffect::ToggleSpeechDocument(panel)),
            None => Dispatch::Unhandled,
        },
        CommandId::ExportFormat => on_document(context, WorkspaceEffect::ExportFormat),
        CommandId::ExportSend => on_document(context, WorkspaceEffect::ExportSend),
        CommandId::ToggleInvisibility => on_document(context, WorkspaceEffect::ToggleInvisibility),
        CommandId::ScrollToParagraph => Dispatch::Unhandled,
        CommandId::FlowAddSiblingAbove => Dispatch::Unhandled,
        CommandId::FlowDeleteSelected => Dispatch::Unhandled,
        CommandId::FlowStrike => Dispatch::Unhandled,
        other => if shortcut_tab(other) is Some {
            Dispatch::Handled(WorkspaceEffect::ActivateTab(shortcut_tab(other)->0))
        } else if context.editor_knows {
            on_document(context, WorkspaceEffect::EditorCommand(other))
        } else {
            Dispatch::Unhandled
        },
    }
}

/// Some surface or input other than a document has the keyboard.
pub open spec fn keyboard_taken(context: DispatchContext) -> bool {
    ||| context.settings_overlay_open
    ||| context.file_search_open
    ||| context.collaboration_dialog_open
    ||| context.toolkit_search_focused
    ||| context.tub_file_search_focused
    ||| context.file_search_open && context.file_search_focused
    ||| context.collaboration_dialog_open && context.collaboration_dialog_focused
    ||| context.search_bar_focused
}

/// Where a command goes in a window.
pub open spec fn dispatch(command: CommandId, context: DispatchContext) -> Dispatch {
    if keyboard_taken(context) {
        Dispatch::Unhandled
    } else {
        match context.surface {
            ActiveSurface::Flow { cell_empty } => match flow_effect(command, cell_empty) {
                Some(effect) => Dispatch::Handled(effect),
                None => window_dispatch(command, context),
            },
            _ => window_dispatch(command, context),
        }
    }
}

impl DispatchContext {
    /// An overlay or dialog stands over the documents.
    pub fn non_document_keybinding_surface_is_open(&self) -> (b: bool)
        ensures
            b == (self.settings_overlay_open || self.file_search_open
                || self.collaboration_dialog_open),
    {
        self.settings_overlay_open || self.file_search_open || self.collaboration_dialog_open
    }

    /// A text input of the window's own has the keyboard.
    pub fn focused_workspace_input_is_focused(&self) -> (b: bool)
        ensures
            b == (self.toolkit_search_focused || self.tub_file_search_focused || (
            self.file_search_open && self.file_search_focused) || (self.collaboration_dialog_open
                && self.collaboration_dialog_focused) || self.search_bar_focused),
    {
        self.toolkit_search_focused || self.tub_file_search_focused || (self.file_search_open
            && self.file_search_focused) || (self.collaboration_dialog_open
            && self.collaboration_dialog_focused) || self.search_bar_focused
    }

    fn document_effect(&self, effect: WorkspaceEffect) -> (target: Dispatch)
        ensures
            target == on_document(*self, effect),
    {
        match self.surface {
            ActiveSurface::Document => Dispatch::Handled(effect),
            _ => Dispatch::Unhandled,
        }
    }

    fn dispatch_in_window(&self, command: CommandId) -> (target: Dispatch)
        ensures
            target == window_dispatch(command, *self),
    {
        match command {
            CommandId::Save => Dispatch::Handled(WorkspaceEffect::SaveActive),
            CommandId::NewDocument => Dispatch::Handled(WorkspaceEffect::NewDocument),
            CommandId::OpenDocument => Dispatch::Handled(WorkspaceEffect::PromptOpenDocument),
            CommandId::CloseDocument => Dispatch::Handled(WorkspaceEffect::CloseActiveDocument),
            CommandId::ShareDocument => Dispatch::Handled(WorkspaceEffect::OpenShareDialog),
            CommandId::JoinSession => Dispatch::Handled(WorkspaceEffect::OpenJoinDialog),
            CommandId::StartCollaboration => if self.active_panel.is_some() {
                Dispatch::HandledIfDone(WorkspaceEffect::StartCollaboration)
            } else {
                Dispatch::Unhandled
            },
            CommandId::CopyCollaborationTicket => if self.active_panel.is_some() {
                Dispatch::Handled(WorkspaceEffect::CopyCollaborationTicket)
            } else {
                Dispatch::Unhandled
            },
            CommandId::JoinCollaborationFromClipboard => Dispatch::HandledIfDone(
                WorkspaceEffect::JoinFromClipboard,
            ),
            CommandId::LeaveCollaboration => if self.active_panel.is_some() {
                Dispatch::HandledIfDone(WorkspaceEffect::ConfirmLeaveCollaboration)
            } else {
                Dispatch::Unhandled
            },
            CommandId::FindInDocument => match self.active_panel {
                Some(panel) => Dispatch::HandledIfDone(WorkspaceEffect::OpenSearchBar(panel)),
                None => Dispatch::Unhandled,
            },
            CommandId::OpenCommandPalette => Dispatch::Handled(WorkspaceEffect::OpenCommandPalette),
            CommandId::OpenComments => Dispatch::Handled(WorkspaceEffect::OpenCommentsPanel),
            CommandId::OpenHistory => Dispatch::Handled(WorkspaceEffect::OpenHistory),
            CommandId::ToggleTubTool => Dispatch::Handled(
                WorkspaceEffect::ToggleTool(ToolkitTool::Tub),
            ),
            CommandId::FocusTubSearch => Dispatch::Handled(
                WorkspaceEffect::FocusTubSearch {
                    open_tool: match self.active_tool {
                        Some(ToolkitTool::Tub) => false,
                        _ => true,
                    },
                },
            ),
            CommandId::SwapLeftNav => Dispatch::Handled(WorkspaceEffect::SwapLeftNav),
            CommandId::ZoomIn => match self.surface {
                ActiveSurface::Document => Dispatch::Handled(WorkspaceEffect::ZoomDocumentIn),
                ActiveSurface::Flow { .. } => Dispatch::Handled(WorkspaceEffect::ZoomFlowIn),
                ActiveSurface::Nothing => Dispatch::Unhandled,
            },
            CommandId::ZoomOut => match self.surface {
                ActiveSurface::Document => Dispatch::Handled(WorkspaceEffect::ZoomDocumentOut),
                ActiveSurface::Flow { .. } => Dispatch::Handled(WorkspaceEffect::ZoomFlowOut),
                ActiveSurface::Nothing => Dispatch::Unhandled,
            },
            CommandId::ToggleRibbon => Dispatch::Handled(WorkspaceEffect::ToggleRibbon),
            CommandId::NextTab => Dispatch::Handled(WorkspaceEffect::NextTab),
            CommandId::PreviousTab => Dispatch::Handled(WorkspaceEffect::PreviousTab),
            CommandId::TogglePinTab => Dispatch::Handled(WorkspaceEffect::TogglePin),
            CommandId::SendToSpeechDocument => Dispatch::HandledIfDone(
                WorkspaceEffect::SendToSpeechDocument,
            ),
            CommandId::SendToSpeechDocumentEnd => Dispatch::HandledIfDone(
                WorkspaceEffect::SendToSpeechDocumentEnd,
            ),
            CommandId::CondenseSelection => Dispatch::HandledIfDone(
                WorkspaceEffect::CondenseSelection,
            ),
            CommandId::CondensedSelection => self.document_effect(
                WorkspaceEffect::ToggleCondensedTool,
            ),
            CommandId::MarkCard => self.document_effect(WorkspaceEffect::MarkCard),
            CommandId::ToggleSpeechDocument => match self.active_panel {
                Some(panel) => Dispatch::Handled(WorkspaceEffect::ToggleSpeechDocument(panel)),
                None => Dispatch::Unhandled,
            },
            CommandId::ExportFormat => self.document_effect(WorkspaceEffect::ExportFormat),
            CommandId::ExportSend => self.document_effect(WorkspaceEffect::ExportSend),
            CommandId::ToggleInvisibility => self.document_effect(
                WorkspaceEffect::ToggleInvisibility,
            ),
            CommandId::ScrollToParagraph
            | CommandId::FlowAddSiblingAbove
            | CommandId::FlowDeleteSelected
            | CommandId::FlowStrike => Dispatch::Unhandled,
            other => match tab_index(&other) {
                Some(tab) => Dispatch::Handled(WorkspaceEffect::ActivateTab(tab)),
                None => if self.editor_knows {
                    self.document_effect(WorkspaceEffect::EditorCommand(other))
                } else {
                    Dispatch::Unhandled
                },
            },
        }
    }

    /// Sends a command where it belongs: to the flow on top first, then to
    /// the window, and nowhere while an overlay or an input has the keyboard.
    pub fn handle_window_keybinding(&self, command: CommandId) -> (target: Dispatch)
        ensures
            target == dispatch(command, *self),
    {
        if self.non_document_keybinding_surface_is_open()
            || self.focused_workspace_input_is_focused() {
            return Dispatch::Unhandled;
        }
        if let ActiveSurface::Flow { cell_empty } = self.surface {
            if let Some(effect) = effect_on_flow(command, cell_empty) {
                return Dispatch::Handled(effect);
            }
        }
        self.dispatch_in_window(command)
    }
}

/// While an overlay or an input has the keyboard no command reaches a
/// document, a flow or the window.
pub proof fn no_command_passes_an_open_surface(command: CommandId, context: DispatchContext)
    requires
        keyboard_taken(context),
    ensures
        dispatch(command, context) == Dispatch::Unhandled,
{
}

/// An effect that edits a flow.
pub open spec fn is_flow_effect(effect: WorkspaceEffect) -> bool {
    match effect {
        WorkspaceEffect::FlowUndo => true,
        WorkspaceEffect::FlowRedo => true,
        WorkspaceEffect::FlowStepDown => true,
        WorkspaceEffect::FlowAddResponse => true,
        WorkspaceEffect::FlowAddSiblingAbove => true,
        WorkspaceEffect::FlowRemoveEmptyCell => true,
        WorkspaceEffect::FlowDeleteSelected => true,
        WorkspaceEffect::FlowStrikeSelected => true,
        WorkspaceEffect::FlowAddFamily => true,
        WorkspaceEffect::FlowNavigate(_) => true,
        WorkspaceEffect::FlowMoveCell(_) => true,
        _ => false,
    }
}

/// A flow's effects need a flow on top, and an editor's command a document:
/// no command edits what is not shown.
pub proof fn commands_edit_what_is_on_top(command: CommandId, context: DispatchContext)
    ensures
        match dispatch(command, context) {
            Dispatch::Handled(effect) => {
                &&& is_flow_effect(effect) ==> context.surface is Flow
                &&& effect is EditorCommand ==> context.surface is Document
                    && context.editor_knows
            },
            Dispatch::HandledIfDone(effect) => !is_flow_effect(effect) && !(
            effect is EditorCommand),
            Dispatch::Unhandled => true,
        },
{
}

/// A cell that is not empty keeps its backspace: the flow leaves it to the
/// cell's own text.
pub proof fn backspace_spares_a_cell_with_text(context: DispatchContext)
    requires
        context.surface == (ActiveSurface::Flow { cell_empty: false }),
    ensures
        dispatch(CommandId::Backspace, context) == Dispatch::Unhandled,
{
}

} // verus!
