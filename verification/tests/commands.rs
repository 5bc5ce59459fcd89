use flowstate_workspace::commands::{
    tab_index, ActiveSurface, CommandId, Dispatch, DispatchContext, GridDirection, LeftNavMode,
    WorkspaceEffect,
};

fn context(surface: ActiveSurface) -> DispatchContext {
    DispatchContext {
        settings_overlay_open: false,
        file_search_open: false,
        collaboration_dialog_open: false,
        toolkit_search_focused: false,
        tub_file_search_focused: false,
        file_search_focused: false,
        collaboration_dialog_focused: false,
        search_bar_focused: false,
        surface,
        active_panel: Some(4),
        active_tool: None,
        editor_knows: false,
    }
}

#[test]
fn ten_commands_switch_tabs() {
    assert_eq!(tab_index(&CommandId::SwitchToTab1), Some(0));
    assert_eq!(tab_index(&CommandId::SwitchToTab10), Some(9));
    assert_eq!(tab_index(&CommandId::Save), None);
    assert_eq!(
        context(ActiveSurface::Document).handle_window_keybinding(CommandId::SwitchToTab3),
        Dispatch::Handled(WorkspaceEffect::ActivateTab(2))
    );
}

#[test]
fn no_command_passes_a_dialog() {
    let mut dialog = context(ActiveSurface::Document);
    dialog.settings_overlay_open = true;
    assert!(dialog.non_document_keybinding_surface_is_open());
    assert_eq!(dialog.handle_window_keybinding(CommandId::Save), Dispatch::Unhandled);
    let mut field = context(ActiveSurface::Document);
    field.toolkit_search_focused = true;
    assert!(field.focused_workspace_input_is_focused());
    assert_eq!(field.handle_window_keybinding(CommandId::Undo), Dispatch::Unhandled);
}

#[test]
fn flows_take_their_commands() {
    let flow = context(ActiveSurface::Flow { cell_empty: true });
    assert_eq!(
        flow.handle_window_keybinding(CommandId::Undo),
        Dispatch::Handled(WorkspaceEffect::FlowUndo)
    );
    assert_eq!(
        flow.handle_window_keybinding(CommandId::FlowNavigateUp),
        Dispatch::Handled(WorkspaceEffect::FlowNavigate(GridDirection::Up))
    );
    assert_eq!(
        flow.handle_window_keybinding(CommandId::Backspace),
        Dispatch::Handled(WorkspaceEffect::FlowRemoveEmptyCell)
    );
    let written = context(ActiveSurface::Flow { cell_empty: false });
    assert_eq!(written.handle_window_keybinding(CommandId::Backspace), Dispatch::Unhandled);
}

#[test]
fn the_left_panel_swaps() {
    assert_eq!(LeftNavMode::Outline.swapped(), LeftNavMode::Tub);
    assert_eq!(LeftNavMode::Tub.swapped(), LeftNavMode::Outline);
}
