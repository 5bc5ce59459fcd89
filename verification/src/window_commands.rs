//! Carrying out commands in a window.

use crate::commands::{dispatch, CommandId, Dispatch, LeftNavMode, ToolkitTool, WorkspaceEffect};
use crate::palette::{
    execute_palette_action, palette_effect, states_after, PaletteAction, PaletteEffect,
    ToggleStates,
};
use crate::pane::PanelId;
use crate::panels::{PanelKind, PanelsView};
use crate::workspace::{
    CollabDialogMode, KeyboardState, Layout, Surfaces, Workspace, WorkspaceView,
};
use vstd::prelude::*;

verus! {

impl WorkspaceView {
    /// With a tool of the rail opened, or closed where it is the one that
    /// shows.
    pub open spec fn tool_toggled(self, tool: ToolkitTool) -> WorkspaceView {
        WorkspaceView {
            layout: Layout {
                active_toolkit_tool: if self.layout.active_toolkit_tool == Some(tool) {
                    None
                } else {
                    Some(tool)
                },
                ..self.layout
            },
            ..self
        }
    }

    /// The history that the command for it leaves open.
    pub open spec fn history_after_command(self) -> Option<PanelId> {
        match self.panels.active {
            Some((panel, PanelKind::Document)) if self.surfaces.history_takeover is None
                && self.document_runtimes.contains(panel) => Some(panel),
            _ => None,
        }
    }

    /// With an open document made the one that is spoken from, or the mark
    /// taken off it.
    pub open spec fn speech_toggled(self, panel: PanelId) -> WorkspaceView {
        if self.panels.documents.contains(panel) {
            WorkspaceView {
                panels: PanelsView {
                    speech: if self.panels.speech == Some(panel) {
                        None
                    } else {
                        Some(panel)
                    },
                    ..self.panels
                },
                ..self
            }
        } else {
            self
        }
    }

    /// With the tab beside the one on top put on top.
    pub open spec fn tab_stepped(self, forward: bool) -> WorkspaceView {
        match self.panels.neighbour(forward) {
            Some(id) => WorkspaceView { panels: self.panels.activated(id), ..self },
            None => self,
        }
    }

    /// With the tab on top that a number key counts to.
    pub open spec fn tab_picked(self, index: usize) -> WorkspaceView {
        if index < self.panels.shortcut_order().len() {
            WorkspaceView {
                panels: self.panels.activated(self.panels.shortcut_order()[index as int]),
                ..self
            }
        } else {
            self
        }
    }

    /// Which kind of session the panel on top starts.
    pub open spec fn session_kind(self) -> Option<(PanelId, PanelKind)> {
        match self.active_id() {
            Some(id) => if self.panels.flows.contains(id) {
                if self.flow_document_runtimes.contains(id) {
                    Some((id, PanelKind::Flow))
                } else {
                    None
                }
            } else if self.panels.documents.contains(id) && self.document_runtimes.contains(id) {
                Some((id, PanelKind::Document))
            } else {
                None
            },
            None => None,
        }
    }
}

/// The window once an effect has taken place; `id` is that of the panel that
/// a new document gets. What goes into a panel's contents, to a file or to a
/// session leaves the window as it is.
pub open spec fn carried_out(view: WorkspaceView, effect: WorkspaceEffect, id: PanelId) -> WorkspaceView {
    match effect {
        WorkspaceEffect::NewDocument => view.document_added(id),
        WorkspaceEffect::OpenShareDialog => view.dialog_opened(CollabDialogMode::Share),
        WorkspaceEffect::OpenJoinDialog => view.dialog_opened(CollabDialogMode::Join),
        WorkspaceEffect::OpenCommandPalette => WorkspaceView {
            surfaces: Surfaces { command_palette: true, ..view.surfaces },
            ..view
        },
        WorkspaceEffect::OpenCommentsPanel => WorkspaceView {
            layout: Layout {
                active_toolkit_tool: Some(ToolkitTool::Comments),
                ..view.layout
            },
            ..view
        },
        WorkspaceEffect::OpenHistory => WorkspaceView {
            surfaces: Surfaces {
                history_takeover: view.history_after_command(),
                ..view.surfaces
            },
            ..view
        },
        WorkspaceEffect::ToggleTool(tool) => view.tool_toggled(tool),
        WorkspaceEffect::FocusTubSearch { open_tool } => if open_tool {
            view.tool_toggled(ToolkitTool::Tub)
        } else {
            view
        },
        WorkspaceEffect::SwapLeftNav => WorkspaceView {
            layout: Layout {
                left_nav_mode: match view.layout.left_nav_mode {
                    LeftNavMode::Outline => LeftNavMode::Tub,
                    LeftNavMode::Tub => LeftNavMode::Outline,
                },
                ..view.layout
            },
            ..view
        },
        WorkspaceEffect::ToggleRibbon => WorkspaceView {
            layout: Layout {
                ribbon_collapsed: !view.layout.ribbon_collapsed,
                ..view.layout
            },
            ..view
        },
        WorkspaceEffect::NextTab => view.tab_stepped(true),
        WorkspaceEffect::PreviousTab => view.tab_stepped(false),
        WorkspaceEffect::ActivateTab(index) => view.tab_picked(index),
        WorkspaceEffect::TogglePin => WorkspaceView { panels: view.panels.pin_switched(), ..view },
        WorkspaceEffect::ToggleSpeechDocument(panel) => view.speech_toggled(panel),
        _ => view,
    }
}

/// The window once a command has been sent where it belongs.
pub open spec fn ran(
    view: WorkspaceView,
    command: CommandId,
    keyboard: KeyboardState,
    id: PanelId,
) -> WorkspaceView {
    match dispatch(command, view.context(keyboard)) {
        Dispatch::Unhandled => view,
        Dispatch::Handled(effect) => carried_out(view, effect, id),
        Dispatch::HandledIfDone(effect) => carried_out(view, effect, id),
    }
}

/// Whether a window took a command that went to `target`. For an effect that
/// may fail, the window's own state comes first; where that allows it, `done`
/// says whether what follows outside the window took place.
pub open spec fn took(view: WorkspaceView, target: Dispatch, done: bool) -> bool {
    match target {
        Dispatch::Unhandled => false,
        Dispatch::Handled(_) => true,
        Dispatch::HandledIfDone(effect) => match effect {
            WorkspaceEffect::StartCollaboration => view.session_kind() is Some && done,
            WorkspaceEffect::OpenSearchBar(panel) => view.panels.documents.contains(panel),
            WorkspaceEffect::SendToSpeechDocument => view.panels.speech_target() is Ok && done,
            WorkspaceEffect::SendToSpeechDocumentEnd => view.panels.speech_target() is Ok && done,
            _ => done,
        },
    }
}

impl Workspace {
    /// Carries an effect out on the window.
    fn carry_out(&mut self, effect: WorkspaceEffect, id: PanelId)
        ensures
            final(self)@ == carried_out(old(self)@, effect, id),
    {
        match effect {
            WorkspaceEffect::NewDocument => self.new_document(id),
            WorkspaceEffect::OpenShareDialog => {
                self.open_collaboration_dialog();
            },
            WorkspaceEffect::OpenJoinDialog => {
                self.open_join_collaboration_dialog();
            },
            WorkspaceEffect::OpenCommandPalette => {
                self.open_command_palette();
            },
            WorkspaceEffect::OpenCommentsPanel => self.open_comments_panel(),
            WorkspaceEffect::OpenHistory => {
                self.open_history_takeover();
            },
            WorkspaceEffect::ToggleTool(tool) => self.toggle_toolkit_tool(tool),
            WorkspaceEffect::FocusTubSearch { open_tool } => {
                if open_tool {
                    self.toggle_toolkit_tool(ToolkitTool::Tub);
                }
            },
            WorkspaceEffect::SwapLeftNav => self.swap_left_nav(),
            WorkspaceEffect::ToggleRibbon => self.toggle_ribbon(),
            WorkspaceEffect::NextTab => self.panels.navigate_active_tab(true),
            WorkspaceEffect::PreviousTab => self.panels.navigate_active_tab(false),
            WorkspaceEffect::ActivateTab(index) => self.panels.activate_tab_shortcut(index),
            WorkspaceEffect::TogglePin => self.panels.toggle_active_tab_pin(),
            WorkspaceEffect::ToggleSpeechDocument(panel) => {
                let _ = self.panels.toggle_speech_document(panel);
            },
            _ => {},
        }
    }

    /// Sends a command where it belongs and carries out what it does to the
    /// window; a new document gets `id`. What is left to do, in a panel, with
    /// a file or with a session, is the effect that comes back.
    pub fn run_command(&mut self, command: CommandId, keyboard: KeyboardState, id: PanelId) -> (target:
        Dispatch)
        ensures
            target == dispatch(command, old(self)@.context(keyboard)),
            final(self)@ == (match target {
                Dispatch::Unhandled => old(self)@,
                Dispatch::Handled(effect) => carried_out(old(self)@, effect, id),
                Dispatch::HandledIfDone(effect) => carried_out(old(self)@, effect, id),
            }),
    {
        let target = self.handle_window_keybinding(command, keyboard);
        match target {
            Dispatch::Unhandled => {},
            Dispatch::Handled(effect) => self.carry_out(effect, id),
            Dispatch::HandledIfDone(effect) => self.carry_out(effect, id),
        }
        target
    }

    /// Whether the window took a command that went to `target`; `done` says
    /// whether what was left to do took place.
    pub fn command_taken(&self, target: Dispatch, done: bool) -> (b: bool)
        ensures
            b == took(self@, target, done),
    {
        match target {
            Dispatch::Unhandled => false,
            Dispatch::Handled(_) => true,
            Dispatch::HandledIfDone(effect) => match effect {
                WorkspaceEffect::StartCollaboration => {
                    self.start_collaboration_on_active_document().is_some() && done
                },
                WorkspaceEffect::OpenSearchBar(panel) => {
                    crate::panels::holds_panel(&self.panels.documents, panel)
                },
                WorkspaceEffect::SendToSpeechDocument | WorkspaceEffect::SendToSpeechDocumentEnd => {
                    self.panels.send_selection_to_speech_document().is_ok() && done
                },
                _ => done,
            },
        }
    }
}

impl Workspace {
    /// Runs a palette line: its command goes where the command's key would
    /// send it, and a quick toggle sets the state that it did not have. Says
    /// what the line does, and where its command went.
    pub fn run_palette_action(
        &mut self,
        action: PaletteAction,
        states: &mut ToggleStates,
        keyboard: KeyboardState,
        id: PanelId,
    ) -> (done: (PaletteEffect, Dispatch))
        ensures
            done.0 == palette_effect(action, *old(states)),
            *final(states) == states_after(*old(states), done.0),
            match action {
                PaletteAction::Command(command) => {
                    &&& done.1 == dispatch(command, old(self)@.context(keyboard))
                    &&& final(self)@ == ran(old(self)@, command, keyboard, id)
                },
                _ => done.1 == Dispatch::Unhandled && *final(self) == *old(self),
            },
    {
        let effect = execute_palette_action(action, *states);
        let target = match effect {
            PaletteEffect::Dispatch(command) => self.run_command(command, keyboard, id),
            PaletteEffect::SetAutosave(autosave) => {
                states.autosave = autosave;
                Dispatch::Unhandled
            },
            PaletteEffect::SetSmartWordSelection(smart_word_selection) => {
                states.smart_word_selection = smart_word_selection;
                Dispatch::Unhandled
            },
            PaletteEffect::SetReduceMotion(reduce_motion) => {
                states.reduce_motion = reduce_motion;
                Dispatch::Unhandled
            },
            PaletteEffect::ShowParagraph(_) => Dispatch::Unhandled,
        };
        (effect, target)
    }
}

/// A command that may fail changes nothing of the window by itself.
pub proof fn what_may_fail_leaves_the_window(
    view: WorkspaceView,
    command: CommandId,
    keyboard: KeyboardState,
    id: PanelId,
)
    requires
        !(dispatch(command, view.context(keyboard)) is Handled),
    ensures
        ran(view, command, keyboard, id) == view,
{
}

proof fn lemma_panels_replaced(view: WorkspaceView, panels: PanelsView)
    requires
        view.sound(),
        panels.sound(),
        panels.documents == view.panels.documents,
        panels.flows == view.panels.flows,
    ensures
        (WorkspaceView { panels, ..view }).sound(),
{
    let after = WorkspaceView { panels, ..view };
    assert forall|i: int| 0 <= i < after.files.len() implies after.panels.is_open(
        (#[trigger] after.files[i]).0,
    ) by {
        assert(view.panels.is_open(view.files[i].0));
    }
}

/// An effect keeps the window sound; a new document's id is a fresh one.
pub proof fn effects_keep_the_window_sound(
    view: WorkspaceView,
    effect: WorkspaceEffect,
    id: PanelId,
)
    requires
        view.sound(),
        !view.panels.is_open(id),
    ensures
        carried_out(view, effect, id).sound(),
{
    match effect {
        WorkspaceEffect::NewDocument => {
            crate::workspace::panels_take_their_files_with_them(view, id);
        },
        WorkspaceEffect::NextTab | WorkspaceEffect::PreviousTab => {
            let forward = effect is NextTab;
            if let Some(beside) = view.panels.neighbour(forward) {
                crate::panels::marking_keeps_the_window_sound(view.panels, beside);
                lemma_panels_replaced(view, view.panels.activated(beside));
            }
        },
        WorkspaceEffect::ActivateTab(index) => {
            if index < view.panels.shortcut_order().len() {
                let picked = view.panels.shortcut_order()[index as int];
                crate::panels::marking_keeps_the_window_sound(view.panels, picked);
                lemma_panels_replaced(view, view.panels.activated(picked));
            }
        },
        WorkspaceEffect::TogglePin => {
            crate::panels::marking_keeps_the_window_sound(view.panels, id);
            lemma_panels_replaced(view, view.panels.pin_switched());
        },
        WorkspaceEffect::ToggleSpeechDocument(panel) => {
            crate::panels::marking_keeps_the_window_sound(view.panels, panel);
            lemma_panels_replaced(view, view.speech_toggled(panel).panels);
        },
        _ => {
            lemma_panels_replaced(view, view.panels);
        },
    }
}

/// Pinning is its own undoing: the command sent twice is taken twice, first
/// puts a pin on the tab on top that had none, then takes it off again, and
/// the window is as it was.
pub proof fn the_pin_command_twice_restores(
    view: WorkspaceView,
    keyboard: KeyboardState,
    id: PanelId,
    panel: PanelId,
)
    requires
        view.active_id() == Some(panel),
        !view.panels.pinned.contains(panel),
        !crate::commands::keyboard_taken(view.context(keyboard)),
    ensures
        ({
            let once = ran(view, CommandId::TogglePinTab, keyboard, id);
            &&& dispatch(CommandId::TogglePinTab, view.context(keyboard)) is Handled
            &&& dispatch(CommandId::TogglePinTab, once.context(keyboard)) is Handled
            &&& once.panels.pinned.contains(panel)
            &&& ran(once, CommandId::TogglePinTab, keyboard, id) == view
        }),
{
    crate::panels::lemma_pushed(view.panels.pinned, panel, panel);
    crate::panels::lemma_pushed_and_taken(view.panels.pinned, panel);
}

/// Folding the ribbon is its own undoing.
pub proof fn the_ribbon_command_twice_restores(
    view: WorkspaceView,
    keyboard: KeyboardState,
    id: PanelId,
)
    requires
        !crate::commands::keyboard_taken(view.context(keyboard)),
    ensures
        ({
            let once = ran(view, CommandId::ToggleRibbon, keyboard, id);
            &&& dispatch(CommandId::ToggleRibbon, view.context(keyboard)) is Handled
            &&& dispatch(CommandId::ToggleRibbon, once.context(keyboard)) is Handled
            &&& once.layout.ribbon_collapsed == !view.layout.ribbon_collapsed
            &&& ran(once, CommandId::ToggleRibbon, keyboard, id) == view
        }),
{
}

/// Marking the document on top as the one that is spoken from is its own
/// undoing, where no other has the mark.
pub proof fn the_speech_command_twice_restores(
    view: WorkspaceView,
    keyboard: KeyboardState,
    id: PanelId,
    panel: PanelId,
)
    requires
        view.panels.active == Some((panel, PanelKind::Document)),
        view.panels.documents.contains(panel),
        view.panels.speech is None || view.panels.speech == Some(panel),
        !crate::commands::keyboard_taken(view.context(keyboard)),
    ensures
        ({
            let once = ran(view, CommandId::ToggleSpeechDocument, keyboard, id);
            &&& dispatch(CommandId::ToggleSpeechDocument, view.context(keyboard)) is Handled
            &&& dispatch(CommandId::ToggleSpeechDocument, once.context(keyboard)) is Handled
            &&& once.panels.speech == (if view.panels.speech is None {
                Some(panel)
            } else {
                None
            })
            &&& ran(once, CommandId::ToggleSpeechDocument, keyboard, id) == view
        }),
{
}

} // verus!
