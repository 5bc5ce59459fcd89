use flowstate_workspace::commands::{CommandId, LeftNavMode};
use flowstate_workspace::chrome::{
    icon_button, outline_widths, pin_hint, pin_item_label, platform_icon_button,
    render_document_pane, render_left_nav, render_sidebar_tree_row, reopen_label, tab_marks_view,
    workspace_layout, AppIcon, IconSource, LeftNav, RowAction, TabMark, WidgetIcon,
    WorkspaceLayout,
};
use flowstate_workspace::equation::{EquationCommit, EquationComposer, EquationPreview};
use flowstate_workspace::keymap::{
    binding_keys, check_import, conflict_text, handle_keymap_recording_key, keymap_table_header,
    steal_keymap_binding, update_keymap_command, workspace_command_for_keystroke, KeymapEntry,
    RecordingKey,
};
use flowstate_workspace::keymap_editor::{
    export_keymap, field_changed, import_keymap, CommandTable, ExchangeNotice, KeymapEditor,
};
use flowstate_workspace::outline::OutlineRowGuides;
use flowstate_workspace::settings::{
    overlay_key, paragraph_boxing, render_settings_overlay, reset_document_style_section,
    reset_workspace_settings_section, semantic_boxing, set_paragraph_boxing, set_semantic_boxing,
    tub_root_label, DocumentStyleSection, DocumentTheme, OverlayKey, ParagraphBorder,
    SettingsReset, WorkspaceSettingsOverlay, WorkspaceSettingsSection,
};
use flowstate_workspace::style_pages::{
    document_style_pages, listed_styles, size_field, size_row_field, workspace_settings_pages,
    ColorRow, HighlightRow, ListedStyle, PerStyle, SettingsItem, SizeField, SizeRow, StyleItem,
    StyleSizes, StyleSlot,
};

fn theme(mark: u8) -> DocumentTheme<u8, u8, u8, u8> {
    DocumentTheme {
        default_font_family: format!("font {mark}"),
        body_font_size_bits: mark as u32,
        normal_bold: mark == 1,
        normal_italic: mark == 1,
        normal_underline: mark,
        custom_paragraph_styles: mark,
        custom_semantic_styles: mark,
        custom_highlight_styles: mark,
        default_text_color: mark,
        document_background_color: mark,
    }
}

fn binding(command: CommandId, key: &str) -> KeymapEntry {
    KeymapEntry { command, key: key.to_string(), context: None }
}

#[test]
fn sections_have_pages() {
    let view = render_settings_overlay(
        WorkspaceSettingsOverlay::Settings,
        DocumentStyleSection::Text,
        WorkspaceSettingsSection::Keymap,
    );
    assert_eq!((view.title, view.settings_id, view.selected_page), ("Settings", "app-popup-settings-keymap", 3));
    let view = render_settings_overlay(
        WorkspaceSettingsOverlay::Styles,
        DocumentStyleSection::Size,
        WorkspaceSettingsSection::General,
    );
    assert_eq!((view.title, view.settings_id, view.selected_page), ("Document", "document-popup-settings-size", 3));
    let pages = document_style_pages();
    for (ix, page) in pages.iter().enumerate() {
        assert_eq!(page.section.index(), ix);
    }
    assert_eq!(pages[2].section.title(), "Colors");
    assert_eq!(pages[2].groups[0].items.len(), 12);
    assert_eq!(pages[2].groups[1].title, "Highlights");
    let pages = workspace_settings_pages();
    for (ix, page) in pages.iter().enumerate() {
        assert_eq!(page.section.index(), ix);
    }
    assert_eq!(pages[1].groups[0].items, vec![SettingsItem::ThemePicker]);
    assert!(!pages[1].resets && pages[0].resets);
}

#[test]
fn rows_have_labels() {
    let label = |item: StyleItem| item.label().unwrap_or_default();
    assert_eq!(label(StyleItem::Size(SizeRow::Style(ListedStyle::UltraShrink))), "Ultra Shrink (pt)");
    assert_eq!(label(StyleItem::Size(SizeRow::NormalText)), "Normal size (pt)");
    assert_eq!(
        label(StyleItem::Color(ColorRow::Highlight(HighlightRow::Alternative))),
        "Alt highlight"
    );
    assert_eq!(label(StyleItem::Face(ListedStyle::Tag)), "Tag");
    assert_eq!(StyleItem::Specimen.label(), None);
}

#[test]
fn some_styles_share_a_size() {
    assert_eq!(size_field(ListedStyle::Emphasis), SizeField::Cite);
    assert_eq!(size_field(ListedStyle::Analytic), SizeField::Tag);
    assert_eq!(size_row_field(SizeRow::Style(ListedStyle::Underline)), SizeField::Normal);
    let mut sizes = StyleSizes {
        normal: 1,
        pocket: 2,
        hat: 3,
        block: 4,
        tag: 5,
        cite: 6,
        shrink: 7,
        ultra_shrink: 8,
        undertag: 9,
    };
    sizes.set_style_size(ListedStyle::Emphasis, 60);
    assert_eq!(sizes.style_size(ListedStyle::Cite), 60);
    assert_eq!(sizes.style_size(ListedStyle::Tag), 5);
}

#[test]
fn every_style_has_its_own_box_and_face() {
    let styles = listed_styles();
    assert_eq!(styles.len(), 11);
    assert_eq!(ListedStyle::Undertag.slot(), StyleSlot::Paragraph(6));
    assert_eq!(ListedStyle::Cite.slot(), StyleSlot::Semantic(1));
    let mut faces = PerStyle {
        pocket: 0,
        hat: 0,
        block: 0,
        tag: 0,
        cite: 0,
        shrink: 0,
        ultra_shrink: 0,
        emphasis: 0,
        underline: 0,
        analytic: 0,
        undertag: 0,
    };
    for (ix, style) in styles.iter().enumerate() {
        faces.set(*style, ix);
    }
    for (ix, style) in styles.iter().enumerate() {
        assert_eq!(*faces.get(*style), ix);
    }
}

#[test]
fn a_reset_puts_one_section_back() {
    let (reset, revision) =
        reset_document_style_section(theme(1), theme(2), DocumentStyleSection::Background, u64::MAX);
    assert_eq!(reset.document_background_color, 2);
    assert_eq!(reset.default_text_color, 1);
    assert_eq!(revision, 0);
    let (reset, revision) =
        reset_document_style_section(theme(1), theme(2), DocumentStyleSection::Text, 7);
    assert_eq!(reset.default_font_family, "font 2");
    assert_eq!(reset.custom_paragraph_styles, 1);
    assert_eq!(revision, 7);
    assert_eq!(
        reset_workspace_settings_section(WorkspaceSettingsSection::Collaboration),
        SettingsReset::Discovery { paused: false, bluetooth: false }
    );
    assert_eq!(
        reset_workspace_settings_section(WorkspaceSettingsSection::Appearance),
        SettingsReset::DefaultTheme
    );
    assert_eq!(tub_root_label(None), "No tub selected");
    assert_eq!(tub_root_label(Some("/tub")), "/tub");
}

#[test]
fn boxes_keep_their_spaces() {
    assert_eq!(paragraph_boxing(None), (false, 1.0f32.to_bits()));
    let fresh = set_paragraph_boxing(None, true, 2.0f32.to_bits()).unwrap();
    assert_eq!(f32::from_bits(fresh.space_x_bits), 6.0);
    assert_eq!(f32::from_bits(fresh.space_y_bits), 2.0);
    let own = ParagraphBorder { width_bits: 1, space_x_bits: 2, space_y_bits: 3 };
    assert_eq!(
        set_paragraph_boxing(Some(own), true, 9),
        Some(ParagraphBorder { width_bits: 9, space_x_bits: 2, space_y_bits: 3 })
    );
    assert_eq!(set_paragraph_boxing(Some(own), false, 9), None);
    assert_eq!(semantic_boxing(Some(5)), (true, 5));
    assert_eq!(set_semantic_boxing(false, 5), None);
}

#[test]
fn recording_comes_before_escape() {
    assert_eq!(overlay_key(RecordingKey::Ignored, "escape"), OverlayKey::Recorded);
    assert_eq!(overlay_key(RecordingKey::NotRecording, "escape"), OverlayKey::Close);
    assert_eq!(overlay_key(RecordingKey::NotRecording, "a"), OverlayKey::Pass);
    assert_eq!(handle_keymap_recording_key(None, "a"), RecordingKey::NotRecording);
    assert_eq!(
        handle_keymap_recording_key(Some(CommandId::Save), "shift"),
        RecordingKey::Ignored
    );
    assert_eq!(
        handle_keymap_recording_key(Some(CommandId::Save), "s"),
        RecordingKey::Bind(CommandId::Save)
    );
}

#[test]
fn new_keys_replace_old_ones_and_conflicts_are_named() {
    let entries = vec![binding(CommandId::Save, "cmd-s"), binding(CommandId::Undo, "cmd-z")];
    let keys = binding_keys(" cmd-z, ,nonsense ");
    assert_eq!(keys, vec!["cmd-z".to_string(), "nonsense".to_string()]);
    let update =
        update_keymap_command(&entries, CommandId::Save, &None, &keys, &vec![true, false]);
    assert_eq!(update.entries.len(), 2);
    assert_eq!(update.entries[1].key, "cmd-z");
    assert_eq!(update.conflicts, vec![("cmd-z".to_string(), CommandId::Undo)]);
    assert_eq!(update.error.as_deref(), Some("Not a valid binding: nonsense"));
    let left = steal_keymap_binding(&update.entries, CommandId::Undo, "cmd-z");
    assert_eq!(left.len(), 1);
    assert_eq!(
        workspace_command_for_keystroke(&entries, &vec![false, true]),
        Some(CommandId::Undo)
    );
    assert_eq!(workspace_command_for_keystroke(&entries, &vec![false, false]), None);
    assert_eq!(keymap_table_header(), ("Command", "Shortcut"));
    assert_eq!(conflict_text("a", None), "a is also bound to another command");
    assert_eq!(check_import(&vec!["a".to_string()], &vec![true]), None);
    assert_eq!(
        check_import(&vec!["a".to_string(), "b".to_string()], &vec![false, false]).as_deref(),
        Some("Keymap import refused: invalid bindings (a, b)")
    );
}

#[test]
fn the_keymap_table_keeps_what_is_wrong() {
    let mut editor = KeymapEditor::new();
    editor.take_update(
        CommandId::Save,
        vec![("cmd-z".to_string(), CommandId::Undo)],
        Some("Not a valid binding: x".to_string()),
    );
    editor.toggle_recording(CommandId::Save);
    let mut labels = CommandTable::new();
    labels.insert(CommandId::Undo, "Undo".to_string());
    let row = editor.render_keymap_row(
        CommandId::Save,
        1,
        &vec!["cmd-s".to_string(), "cmd-z".to_string()],
        &labels,
    );
    assert!(row.striped && row.recording);
    assert_eq!(row.keys, "cmd-s, cmd-z");
    assert_eq!(row.record_label, "Press keys…");
    assert_eq!(row.conflicts[0].0, "cmd-z is also bound to Undo");
    assert_eq!(editor.press_key("s"), RecordingKey::Bind(CommandId::Save));
    assert_eq!(editor.ui_generation, 1);
    editor.stolen(CommandId::Save);
    editor.imported();
    let row = editor.render_keymap_row(CommandId::Save, 0, &Vec::new(), &labels);
    assert!(row.conflicts.is_empty() && !row.recording && row.error.is_some());
    editor.take_update(CommandId::Save, Vec::new(), None);
    assert!(editor.render_keymap_row(CommandId::Save, 0, &Vec::new(), &labels).error.is_none());
    assert!(field_changed("a", "b") && !field_changed("a", "a"));
    labels.remove(CommandId::Undo);
    assert!(labels.get(CommandId::Undo).is_none());
}

#[test]
fn keymaps_are_exchanged() {
    assert!(matches!(export_keymap(Ok(())), ExchangeNotice::Activity(text) if text == "Keymap exported"));
    assert!(matches!(
        export_keymap(Err("x".to_string())),
        ExchangeNotice::Failure(text) if text == "Exporting the keymap failed: x"
    ));
    assert!(matches!(import_keymap(Ok(()), None), ExchangeNotice::Activity(text) if text == "Keymap imported"));
    assert!(matches!(
        import_keymap(Err("x".to_string()), None),
        ExchangeNotice::Failure(text) if text == "Importing the keymap failed: x"
    ));
    assert!(matches!(
        import_keymap(Ok(()), Some("refused".to_string())),
        ExchangeNotice::Failure(text) if text == "refused"
    ));
}

#[test]
fn equations_are_composed() {
    let mut composer = EquationComposer::new(None, "");
    assert!(matches!(composer.commit(), EquationCommit::Nothing));
    assert!(matches!(composer.preview(), EquationPreview::Hint(text) if text == "Type LaTeX to preview"));
    composer.set_source("  x^2 ");
    assert!(matches!(composer.commit(), EquationCommit::Insert(text) if text == "x^2"));
    assert_eq!(composer.hint(), "Enter inserts the equation · Esc cancels");
    let editing = EquationComposer::new(Some(4), "y");
    assert!(matches!(editing.commit(), EquationCommit::Replace(4, text) if text == "y"));
    assert_eq!(editing.target_equation(), Some(4));
    assert!(editing.on_key_down("escape") && !editing.on_key_down("enter"));
}

#[test]
fn icons_come_from_the_system_or_the_widgets() {
    assert!(matches!(icon_button(AppIcon::SaveFile, true), IconSource::Asset("icons/save.svg")));
    assert!(matches!(icon_button(AppIcon::Close, true), IconSource::Symbol("xmark")));
    assert!(matches!(icon_button(AppIcon::NewFile, false), IconSource::Widget(WidgetIcon::Plus)));
    assert!(matches!(
        platform_icon_button(AppIcon::SaveFile, true),
        IconSource::Symbol("square.and.arrow.down")
    ));
}

#[test]
fn the_window_lays_itself_out() {
    assert_eq!(workspace_layout(0, 0, true), WorkspaceLayout::Empty);
    assert_eq!(workspace_layout(1, 0, true), WorkspaceLayout::CollapsedRibbon);
    assert_eq!(workspace_layout(0, 1, false), WorkspaceLayout::Ribbon);
    assert_eq!(outline_widths(false), (240, 420));
    assert_eq!(reopen_label(LeftNavMode::Tub, true), "Show tub");
    assert_eq!(reopen_label(LeftNavMode::Outline, true), "Show flow outline");
    assert_eq!(render_left_nav(LeftNavMode::Outline, false), LeftNav::Outline);
    let history = render_document_pane(2, Some(1), true, true, false, Some(1));
    assert!(history.history && !history.document && history.search_bar && history.tab_bar);
    let other = render_document_pane(2, Some(1), false, true, false, Some(2));
    assert!(!other.history && other.document);
    assert!(render_document_pane(0, None, false, false, false, None).empty_state);
}

#[test]
fn tabs_fold_marks_beyond_two() {
    let view = tab_marks_view(true, true, true);
    assert_eq!(view.visible, vec![TabMark::Dirty, TabMark::Speech]);
    assert_eq!(view.overflow, Some(("+1".to_string(), "Collaboration".to_string())));
    assert!(tab_marks_view(true, false, true).overflow.is_none());
    assert_eq!(
        pin_hint("3"),
        "Pinned — Alt+3 switches here (with pins, Alt+N counts pinned tabs first)"
    );
    assert_eq!(pin_item_label(true), "Unpin tab");
}

#[test]
fn tree_rows_are_drawn() {
    let guide = OutlineRowGuides { ancestor_depths: vec![1], extends_from_toggle: true };
    let row = render_sidebar_tree_row(7, true, false, false, true, true, &guide);
    assert_eq!(row.caret, Some("icons/caret-right.svg"));
    assert_eq!(row.guides, vec![false, true, false, false, false, false, false]);
    assert_eq!(row.own_guide, Some(18));
    assert_eq!(row.color, 2);
    assert_eq!(row.accent, Some(55));
    assert!(row.search_highlight && !row.hovers);
    assert_eq!(row.icon_action, RowAction::Nothing);
}
