use flowstate_workspace::document_panel::{
    action_for_event, title_for_path, DocumentOffset, DocumentPanel, DocumentRange,
    PanelSearchAction, SearchedParagraph,
};
use flowstate_workspace::ids::hyphenated_text;
use flowstate_workspace::search_bar::{DocumentSearchBar, DocumentSearchBarEvent, SearchStatus};
use flowstate_workspace::styles::{
    HighlightStyle, ParagraphStyle, RunSemanticStyle, RunStyles, TextRun,
};

fn plain() -> RunStyles {
    RunStyles {
        semantic: RunSemanticStyle::Plain,
        highlight: None,
        direct_underline: false,
        strikethrough: false,
    }
}

fn at(paragraph: usize, byte: usize) -> DocumentOffset {
    DocumentOffset { paragraph, byte }
}

fn range(paragraph: usize, start: usize, end: usize) -> DocumentRange {
    DocumentRange { start: at(paragraph, start), end: at(paragraph, end) }
}

fn panel() -> DocumentPanel {
    DocumentPanel::new_with_id(
        5,
        None,
        Some("/cards/aff.db8".to_string()),
        Some("aff.db8".to_string()),
    )
}

#[test]
fn a_new_bar_lets_everything_pass() {
    let bar = DocumentSearchBar::new();
    assert!(bar.paragraph_style_enabled(ParagraphStyle::Tag));
    assert!(bar.has_active_run_filters());
    assert!(bar.run_style_matches_for_range(&vec![TextRun { len: 4, styles: plain() }], 0, 4));
    assert_eq!(bar.count_label(), "0 of 0");
    assert!(matches!(bar.render().status, SearchStatus::Count(_)));
}

#[test]
fn toggles_say_what_changed() {
    let mut bar = DocumentSearchBar::new();
    assert_eq!(bar.set_case_sensitive(true), Some(DocumentSearchBarEvent::CaseSensitivityChanged));
    assert_eq!(bar.set_case_sensitive(true), None);
    assert_eq!(bar.set_whole_words(true), Some(DocumentSearchBarEvent::WholeWordsChanged));
    assert_eq!(bar.set_use_regex(true), Some(DocumentSearchBarEvent::RegexModeChanged));
    assert!(bar.render().whole_words_disabled);
    assert!(bar.set_regex_error(Some("unclosed group".to_string())));
    assert!(!bar.set_regex_error(Some("unclosed group".to_string())));
    match bar.render().status {
        SearchStatus::Fault(text) => assert_eq!(text, "unclosed group"),
        _ => panic!("expected a fault"),
    }
}

#[test]
fn keys_in_the_bar() {
    let bar = DocumentSearchBar::new();
    assert_eq!(bar.on_key_down("escape", false), Some(DocumentSearchBarEvent::CloseRequested));
    assert_eq!(bar.on_key_down("x", false), None);
    assert_eq!(bar.close(), DocumentSearchBarEvent::CloseRequested);
}

#[test]
fn run_filters_pick_overlapping_runs() {
    let mut bar = DocumentSearchBar::new();
    for ix in 0..4 {
        bar.toggle_highlight_type(ix);
    }
    for ix in 0..6 {
        bar.toggle_semantic_style(ix);
    }
    bar.toggle_strikethrough();
    assert!(bar.has_active_run_filters());
    let runs = vec![
        TextRun { len: 4, styles: plain() },
        TextRun { len: 4, styles: RunStyles { direct_underline: true, ..plain() } },
    ];
    assert!(!bar.run_style_matches_for_range(&runs, 0, 4));
    assert!(bar.run_style_matches_for_range(&runs, 3, 5));
    bar.toggle_underline();
    assert!(!bar.has_active_run_filters());
    bar.toggle_highlight_type(0);
    let marked = vec![TextRun {
        len: 2,
        styles: RunStyles { highlight: Some(HighlightStyle::Spoken), ..plain() },
    }];
    assert!(bar.run_style_matches_for_range(&marked, 0, 1));
    assert!(!bar.run_style_matches_for_range(&runs, 0, 8));
}

#[test]
fn matches_are_counted_and_walked() {
    let mut panel = panel();
    panel.open_search_bar();
    panel.search_bar.set_query("card".to_string());
    let request = panel.search_request().expect("a query");
    assert_eq!(request.query, "card");
    let paragraphs = vec![
        SearchedParagraph { style: ParagraphStyle::Tag, runs: vec![TextRun { len: 20, styles: plain() }] },
        SearchedParagraph { style: ParagraphStyle::Normal, runs: vec![TextRun { len: 20, styles: plain() }] },
    ];
    panel.refresh_search_matches(Ok(vec![range(0, 0, 4), range(1, 2, 6), range(1, 8, 12)]), &paragraphs);
    assert_eq!(panel.search_matches.len(), 3);
    assert_eq!(panel.search_match_paragraphs(), vec![0, 1, 1]);
    panel.active_search_match = None;
    panel.select_next_search_match();
    assert_eq!(panel.active_search_match, Some(0));
    panel.select_previous_search_match();
    assert_eq!(panel.active_search_match, Some(2));
    panel.select_next_search_match();
    assert_eq!(panel.active_search_match, Some(0));
    assert_eq!(panel.search_bar.count_label(), "1 of 3");
}

#[test]
fn a_replacement_may_be_expanded() {
    let mut panel = panel();
    panel.search_bar.replacement = "$1 cards".to_string();
    assert!(!panel.regex_replace_overrides("$1"));
    panel.search_bar.set_use_regex(true);
    assert!(panel.regex_replace_overrides("$1"));
    assert!(!panel.regex_replace_overrides("no captures"));
    assert!(panel.apply_replace(None).is_none());
    panel.search_matches = vec![range(0, 0, 1)];
    assert!(panel.apply_replace_current(&None).is_none());
    panel.active_search_match = Some(0);
    assert_eq!(panel.apply_replace_current(&None).unwrap(), "$1 cards");
    let expanded = Some(vec![Some("ten cards".to_string())]);
    assert_eq!(panel.apply_replace_current(&expanded).unwrap(), "ten cards");
    let (text, overrides) = panel.apply_replace(expanded).unwrap();
    assert_eq!(text, "$1 cards");
    assert_eq!(overrides.len(), 1);
}

#[test]
fn panels_have_titles() {
    let mut panel = panel();
    assert_eq!(panel.id(), 5);
    assert_eq!(panel.title_text(), "aff.db8");
    panel.set_path("/cards/neg.db8".to_string(), Some("neg.db8".to_string()));
    assert_eq!(panel.title_text(), "neg.db8");
    assert_eq!(panel.path().unwrap(), "/cards/neg.db8");
    assert_ne!(panel.display_title(true), panel.display_title(false));
    assert_eq!(title_for_path(Some("a.db8".to_string())), "a.db8");
}

#[test]
fn bar_events_become_actions() {
    assert_eq!(action_for_event(DocumentSearchBarEvent::QueryChanged), PanelSearchAction::Refresh);
    assert_eq!(action_for_event(DocumentSearchBarEvent::NextRequested), PanelSearchAction::SelectNext);
    assert_eq!(action_for_event(DocumentSearchBarEvent::CloseRequested), PanelSearchAction::Close);
}

#[test]
fn bar_events_carry_the_panel_on() {
    let mut panel = panel();
    panel.open_search_bar();
    let paragraphs = vec![SearchedParagraph {
        style: ParagraphStyle::Normal,
        runs: vec![TextRun { len: 30, styles: plain() }],
    }];
    let found = || Ok(vec![range(0, 0, 4), range(0, 8, 12), range(0, 20, 24)]);

    let event = panel.search_bar.set_query("card".to_string());
    assert_eq!(panel.on_search_event(event, found(), &paragraphs), PanelSearchAction::Refresh);
    assert_eq!(panel.search_matches.len(), 3);
    assert_eq!(panel.active_search_match, Some(0));

    let next = DocumentSearchBarEvent::NextRequested;
    assert_eq!(panel.on_search_event(next, found(), &paragraphs), PanelSearchAction::SelectNext);
    assert_eq!(panel.active_search_match, Some(1));
    let previous = DocumentSearchBarEvent::PreviousRequested;
    panel.on_search_event(previous, found(), &paragraphs);
    panel.on_search_event(previous, found(), &paragraphs);
    assert_eq!(panel.active_search_match, Some(2));
    assert_eq!(panel.search_bar.count_label(), "3 of 3");

    // The document changed meanwhile: a replacement finds the matches anew.
    panel.search_bar.replacement = "block".to_string();
    let replace = DocumentSearchBarEvent::ApplyReplaceCurrentRequested;
    let action = panel.on_search_event(replace, Ok(vec![range(0, 8, 12)]), &paragraphs);
    assert_eq!(action, PanelSearchAction::ReplaceCurrent);
    assert_eq!(panel.search_matches, vec![range(0, 8, 12)]);
    assert_eq!(panel.apply_replace_current(&None).unwrap(), "block");
    panel.replace_ended(false, Ok(vec![]), &paragraphs);
    assert_eq!(panel.search_matches.len(), 1);
    panel.replace_ended(true, Ok(vec![]), &paragraphs);
    assert!(panel.search_matches.is_empty());
    let all = DocumentSearchBarEvent::ApplyReplaceRequested;
    assert_eq!(panel.on_search_event(all, found(), &paragraphs), PanelSearchAction::ReplaceAll);
    assert_eq!(panel.apply_replace(None).unwrap().0, "block");

    let regex = panel.search_bar.set_use_regex(true).expect("the mode changed");
    panel.on_search_event(regex, Err("unclosed group".to_string()), &paragraphs);
    assert!(panel.search_matches.is_empty());
    assert_eq!(panel.search_bar.regex_error.as_deref(), Some("unclosed group"));

    panel.on_search_event(panel.search_bar.close(), found(), &paragraphs);
    assert!(!panel.search_bar_open);
    assert_eq!(panel.active_search_match, None);
}

#[test]
fn panels_get_ids_of_their_own() {
    let one = DocumentPanel::new_with_title(Some("Case".to_string()), None, None);
    let other = DocumentPanel::new_with_title(None, None, None);
    assert_ne!(one.id(), other.id());
    assert_eq!((one.id() >> 76) & 0xf, 4);
    assert_eq!(one.title_text(), "Case");
    assert_eq!(other.title_text(), "Untitled.db8");
    assert_eq!(
        hyphenated_text(0xa1a2a3a4b1b2c1c2d1d2d3d4d5d6d7d8),
        "a1a2a3a4-b1b2-c1c2-d1d2-d3d4d5d6d7d8"
    );
    assert_eq!(hyphenated_text(7), "00000000-0000-0000-0000-000000000007");
}

#[test]
fn styles_are_left_out_and_taken_in() {
    let mut bar = DocumentSearchBar::new();
    assert_eq!(
        bar.toggle_style_filter(ParagraphStyle::Tag),
        Some(DocumentSearchBarEvent::StyleFilterChanged)
    );
    assert!(!bar.paragraph_style_enabled(ParagraphStyle::Tag));
    assert!(bar.paragraph_style_enabled(ParagraphStyle::Hat));
    bar.toggle_style_filter(ParagraphStyle::Tag);
    assert!(bar.paragraph_style_enabled(ParagraphStyle::Tag));
    assert_eq!(bar.toggle_style_filter(ParagraphStyle::Other(9)), None);
}

#[test]
fn closing_the_bar_forgets_the_matches() {
    let mut panel = panel();
    assert!(panel.set_active(true));
    assert!(panel.active);
    assert!(!panel.set_active(false));
    panel.open_search_bar();
    panel.search_matches = vec![range(0, 0, 1), range(1, 0, 1)];
    panel.select_next_search_match();
    assert_eq!(panel.search_bar.count_label(), "1 of 2");
    panel.close_search_bar();
    assert!(!panel.search_bar_open);
    assert!(panel.search_matches.is_empty());
    assert_eq!(panel.active_search_match, None);
    assert_eq!(panel.search_bar.count_label(), "0 of 0");
}
