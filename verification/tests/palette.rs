use flowstate_workspace::commands::CommandId;
use flowstate_workspace::palette::{
    execute_palette_action, fuzzy_score, heading_label, palette_entries, CommandPalette,
    CommandSpec, Heading, PaletteAction, PaletteEffect, PaletteRequest, ToggleStates,
};

fn states() -> ToggleStates {
    ToggleStates { autosave: false, smart_word_selection: true, reduce_motion: false }
}

fn palette() -> CommandPalette {
    let specs = vec![
        CommandSpec { id: CommandId::Save, label: "Save".to_string(), keys: vec!["cmd-s".to_string()] },
        CommandSpec { id: CommandId::NewDocument, label: "New document".to_string(), keys: Vec::new() },
    ];
    let headings = vec![Heading { paragraph_ix: 7, text: "Solvency".to_string() }];
    CommandPalette::new(palette_entries(&specs, states(), &headings).expect("clean headings"))
}

#[test]
fn scores_need_the_query_in_order() {
    assert_eq!(fuzzy_score("new document", "ndoc"), Some(10 + 6 + 10 + 6 + 18 + 18 - 1));
    assert!(fuzzy_score("new document", "dw").is_none());
    assert!(fuzzy_score("Save", "s").is_none());
    assert_eq!(fuzzy_score("save", ""), Some(0));
}

#[test]
fn entries_list_commands_toggles_and_headings() {
    let palette = palette();
    let labels: Vec<&str> = palette.entries.iter().map(|entry| entry.label.as_str()).collect();
    assert!(labels.contains(&"Save"));
    assert!(labels.iter().any(|label| label.contains("Solvency")));
    assert_eq!(palette.entries[0].shortcut.as_deref(), Some("cmd-s"));
    assert_eq!(palette.filtered.len(), palette.entries.len());
}

#[test]
fn typing_filters_and_enter_runs() {
    let mut palette = palette();
    assert!(palette.refresh_filter("solv".to_string()));
    assert_eq!(palette.run_selected(), Some(PaletteAction::GoToParagraph(7)));
    assert!(matches!(
        palette.on_key_down("enter"),
        PaletteRequest::Run(PaletteAction::GoToParagraph(7))
    ));
    assert!(matches!(palette.on_key_down("escape"), PaletteRequest::Close));
    assert!(palette.refresh_filter("zzzz".to_string()));
    assert!(palette.run_selected().is_none());
    assert!(palette.render().is_empty());
}

#[test]
fn headings_are_cut_to_length() {
    let long = "a".repeat(80);
    let label = heading_label(&long);
    assert!(label.ends_with('…'));
    assert!(!heading_label("short").ends_with('…'));
}

#[test]
fn toggles_flip() {
    assert!(matches!(
        execute_palette_action(PaletteAction::ToggleAutosave, states()),
        PaletteEffect::SetAutosave(true)
    ));
    assert!(matches!(
        execute_palette_action(PaletteAction::ToggleSmartWordSelection, states()),
        PaletteEffect::SetSmartWordSelection(false)
    ));
    assert!(matches!(
        execute_palette_action(PaletteAction::GoToParagraph(3), states()),
        PaletteEffect::ShowParagraph(3)
    ));
}

#[test]
fn a_clicked_line_runs() {
    let mut palette = palette();
    assert!(palette.refresh_filter("solv".to_string()));
    assert_eq!(palette.run_index(0), Some(PaletteAction::GoToParagraph(7)));
    assert!(palette.run_index(9).is_none());
    assert_eq!(palette.selected, 9);
}
