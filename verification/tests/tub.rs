use flowstate_workspace::chrome::RowAction;
use flowstate_workspace::styles::{ParagraphStyle, RunSemanticStyle, RunStyles};
use flowstate_workspace::text_set::TextSet;
use flowstate_workspace::toolkit::{
    estimated_lines, left_nav_swap, toolkit_fallback_paragraphs, CardHeight, HitInsertion,
    InputParagraph, InputRun, SearchHit, SearchUnitKind, ToolkitSearchFilter, TubState,
};
use flowstate_workspace::commands::{LeftNavMode, ToolkitTool};
use flowstate_workspace::toolkit_view::{render_content_area, RightEdge, ToolkitResults};
use flowstate_workspace::tub::{
    build_tub_tree_items, expanded_tub_search_dirs, filter_tub_files_by_name,
    tub_tree_entries_for_files, TubFile,
};
use flowstate_workspace::tub_nav::{
    render_tub_tree_row, tub_icon, TreeUpdate, TubIcon, TubNav, TubNavBody,
};

fn file(parent: &[&str], name: &str) -> TubFile {
    let mut path = String::from("/tub");
    for part in parent {
        path.push('/');
        path.push_str(part);
    }
    path.push('/');
    path.push_str(name);
    TubFile {
        display_path: path.trim_start_matches("/tub/").to_string(),
        path,
        file_name: name.to_string(),
        parent: parent.iter().map(|part| part.to_string()).collect(),
    }
}

fn files() -> Vec<TubFile> {
    vec![
        file(&["neg", "das"], "politics.db8"),
        file(&[], "readme.db8"),
        file(&["aff"], "solvency.db8"),
        file(&["neg"], "Apolitics.db8"),
    ]
}

fn hit(id: &str) -> SearchHit {
    SearchHit {
        file_id: "f".to_string(),
        unit_id: id.to_string(),
        file_name: "aff.db8".to_string(),
        title: String::new(),
        path: "/tub/aff.db8".to_string(),
        insert_text: "line one\r\nline two".to_string(),
        snippet: "snippet".to_string(),
        preview_paragraphs: Vec::new(),
        paragraph_start: Some(3),
    }
}

#[test]
fn directories_come_before_files_each_in_order() {
    let files = files();
    let mut expanded = TextSet::new();
    expanded.insert("/tub");
    expanded.insert("/tub/neg");
    expanded.insert("/other/aff");
    let items = build_tub_tree_items("/tub", &files, &vec![0, 1, 2, 3], &expanded);
    let labels: Vec<&str> = items.iter().map(|item| item.label.as_str()).collect();
    assert_eq!(labels, vec!["aff", "neg", "readme.db8"]);
    assert!(items[1].expanded && !items[0].expanded);
    assert_eq!(items[1].id, "/tub/neg");
    assert_eq!(items[1].children[0].id, "/tub/neg/das");
    assert_eq!(items[2].id, "/tub/readme.db8");
    let rows = tub_tree_entries_for_files("/tub", &files, &vec![0, 1, 2, 3], &expanded);
    let names: Vec<(&str, usize)> = rows.iter().map(|row| (row.name.as_str(), row.depth)).collect();
    assert_eq!(
        names,
        vec![("aff", 0), ("neg", 0), ("das", 1), ("Apolitics.db8", 1), ("readme.db8", 0)]
    );
}

#[test]
fn names_that_begin_with_the_query_come_first() {
    let files = files();
    assert_eq!(filter_tub_files_by_name(&files, "POLITICS", 200), vec![0, 3]);
    assert_eq!(filter_tub_files_by_name(&files, "neg", 200), vec![3, 0]);
    assert_eq!(filter_tub_files_by_name(&files, " ", 2), vec![0, 1]);
    assert!(filter_tub_files_by_name(&files, "zzz", 200).is_empty());
}

#[test]
fn a_search_opens_the_way_to_what_it_found() {
    let dirs = expanded_tub_search_dirs("/tub", &files(), &vec![0]);
    assert!(dirs.contains("/tub") && dirs.contains("/tub/neg") && dirs.contains("/tub/neg/das"));
    assert!(!dirs.contains("/tub/aff"));
    assert!(expanded_tub_search_dirs("/", &files(), &vec![2]).contains("/aff"));
}

#[test]
fn the_left_panel_follows_a_query() {
    let mut nav = TubNav::new();
    assert_eq!(nav.render_tub_nav(false, ""), (false, TubNavBody::PickFolder));
    nav.set_tub_root("/tub");
    assert_eq!(nav.render_tub_nav(true, "").1, TubNavBody::NoFiles);
    assert!(matches!(nav.take_files("/tub", files(), ""), TreeUpdate::AllFiles));
    assert_eq!(nav.entries.len(), 3);
    nav.remember_tub_dir_toggle("/tub/neg");
    assert!(matches!(nav.refresh_tub_file_search(Some("/tub"), " "), TreeUpdate::AllFiles));
    assert_eq!(nav.entries.len(), 5);
    match nav.refresh_tub_file_search(Some("/tub"), "solv") {
        TreeUpdate::Found(items) => assert_eq!(items[0].label, "aff"),
        _ => panic!("expected what was found"),
    }
    assert_eq!(nav.entries.len(), 2);
    assert_eq!(nav.file_search_generation, 2);
    nav.refresh_tub_file_search(Some("/tub"), "zzz");
    assert_eq!(nav.render_tub_nav(true, "zzz").1.text(), Some("No matching tub files"));
    assert!(matches!(nav.refresh_tub_file_search(None, ""), TreeUpdate::Nothing));
    nav.open_tub_tree_file("/tub/a.db8");
    assert!(nav.is_active_row("/tub/a.db8", false));
    assert!(!nav.is_active_row("/tub/a.db8", true));
}

#[test]
fn another_folder_keeps_its_own_expansions() {
    let mut nav = TubNav::new();
    nav.set_tub_root("/tub");
    nav.take_files("/tub", files(), "");
    nav.remember_tub_dir_toggle("/tub/neg");
    nav.load_tub_root("/other");
    assert!(nav.files.is_empty());
    nav.take_files("/other", files(), "");
    assert_eq!(nav.entries.len(), 3, "a directory of the same name is folded there");
    nav.load_tub_root("/tub");
    nav.take_files("/tub", files(), "");
    assert_eq!(nav.entries.len(), 5);
}

#[test]
fn tree_rows_of_the_tub() {
    let row = render_tub_tree_row(2, true, true, false);
    assert_eq!(row.guides, vec![true, true]);
    assert_eq!(row.own_guide, Some(18));
    assert_eq!(row.icon_action, RowAction::Toggle);
    assert_eq!(render_tub_tree_row(0, false, false, true).accent, Some(100));
    assert_eq!(tub_icon(true, false), TubIcon::FolderClosed);
    let mut nav = TubNav::new();
    assert_eq!(nav.row_clicked("neg", true), None);
    assert!(nav.expanded.contains("neg"));
    assert_eq!(nav.row_clicked("neg", true), None);
    assert!(!nav.expanded.contains("neg"));
    assert_eq!(nav.row_clicked("a.db8", false).as_deref(), Some("a.db8"));
    assert_eq!(nav.active_path.as_deref(), Some("a.db8"));
}

#[test]
fn scans_queue_behind_each_other() {
    let mut state = TubState::new();
    assert!(state.refresh_tub().is_none());
    assert_eq!(state.tub_status, "No tub selected");
    assert!(state.set_tub_root("/tub"));
    assert_eq!(state.tub_status, "Indexing /tub");
    assert!(state.refresh_tub().is_none());
    assert_eq!(state.tub_status, "Indexing queued");
    let follow_up = state.finish_tub_scan("/tub", true, Ok(true), "");
    assert!(follow_up.indexed && follow_up.save_root && follow_up.poll);
    assert_eq!(follow_up.scan.as_deref(), Some("/tub"));
    assert_eq!(follow_up.search.unwrap().kinds.len(), 3);
    let follow_up = state.finish_tub_scan("/tub", true, Ok(true), "warming");
    assert!(follow_up.scan.is_none() && !follow_up.poll);
    assert_eq!(state.tub_status, "Tub indexed");
    assert_eq!(state.toolkit_status, "Searching...");
}

#[test]
fn a_scan_of_a_folder_that_was_left_is_dropped() {
    let mut state = TubState::new();
    state.set_tub_root("/old");
    assert!(!state.set_tub_root("/new"));
    let follow_up = state.finish_tub_scan("/old", true, Ok(true), "");
    assert!(!follow_up.indexed);
    assert_eq!(follow_up.scan.as_deref(), Some("/new"));
    let follow_up = state.finish_tub_scan("/new", false, Err("gone".to_string()), "");
    assert!(!follow_up.indexed && follow_up.scan.is_none());
    assert_eq!(state.tub_status, "Tub unavailable: gone");
    assert_eq!(state.poll_watcher(true), (false, None));
}

#[test]
fn searches_are_numbered() {
    let mut state = TubState::new();
    assert!(state.refresh_toolkit_search("x").is_none());
    assert_eq!(state.toolkit_status, "Select a tub to search evidence.");
    state.set_tub_root("/tub");
    state.finish_tub_scan("/tub", false, Ok(false), "");
    let search = state.set_toolkit_filter(ToolkitSearchFilter::Tags, "warming").unwrap();
    assert_eq!(state.toolkit_status, "Searching...");
    assert_eq!(search.kinds, vec![SearchUnitKind::TagSection]);
    assert_eq!(search.limit, 32);
    assert!(!state.finish_toolkit_search(search.generation.wrapping_sub(1), false, Ok(Vec::new())));
    assert!(state.finish_toolkit_search(search.generation, false, Ok(vec![hit("1"), hit("2")])));
    assert_eq!(state.toolkit_status, "2 results");
    let search = state.refresh_toolkit_search("").unwrap();
    assert_eq!(state.toolkit_status, "Loading tub cards...");
    state.finish_toolkit_search(search.generation, true, Err("disk".to_string()));
    assert_eq!(state.toolkit_status, "Search failed: disk");
    assert!(state.hits.is_empty());
}

#[test]
fn the_toolkit_shows_its_hits() {
    let mut state = TubState::new();
    assert!(matches!(state.render_toolkit_expanded().results, ToolkitResults::PickFolder(_)));
    state.set_tub_root("/tub");
    assert!(matches!(state.render_toolkit_expanded().results, ToolkitResults::Status(_)));
    state.hits = vec![hit("1")];
    let view = state.render_toolkit_expanded();
    assert_eq!(view.filters.len(), 4);
    assert!(view.filters[0].checked && !view.filters[1].checked);
    match view.results {
        ToolkitResults::Hits(cards) => {
            assert_eq!(cards[0].title, "aff.db8");
            assert!(!cards[0].can_expand);
            assert_eq!(cards[0].preview.len(), 2);
            assert_eq!(cards[0].height, CardHeight::Within(36, 258));
        }
        _ => panic!("expected cards"),
    }
    assert_eq!(state.open_toolkit_hit(0), Some(("/tub/aff.db8".to_string(), Some(3))));
    assert_eq!(state.open_toolkit_hit(4), None);
    assert_eq!(render_content_area(true, None).0, RightEdge::Collapsed);
    assert_eq!(
        render_content_area(false, Some(ToolkitTool::Tub)),
        (RightEdge::Tub, (380, 620))
    );
    assert_eq!(
        render_content_area(false, Some(ToolkitTool::Comments)),
        (RightEdge::Comments, (380, 620))
    );
    assert_eq!(render_content_area(false, None), (RightEdge::IconBar, (40, 40)));
}

#[test]
fn long_previews_expand() {
    let mut long = hit("9");
    long.insert_text = "x\n".repeat(200);
    assert!(long.toolkit_hit_preview_can_expand());
    let mut state = TubState::new();
    state.hits = vec![long];
    assert!(!state.is_hit_expanded(&state.hits[0]));
    assert_eq!(state.hits[0].toolkit_preview_document(false).len(), 161);
    state.toggle_toolkit_hit_expanded(0);
    assert!(state.is_hit_expanded(&state.hits[0]));
    assert_eq!(
        state.hits[0].toolkit_preview_document(true).len(),
        state.hits[0].toolkit_hit_insert_paragraphs().len()
    );
    assert_eq!(state.hits[0].toolkit_hit_key(), "f:9");
}

#[test]
fn hits_go_into_documents_or_flows() {
    let mut state = TubState::new();
    state.hits = vec![hit("1")];
    assert!(matches!(
        state.insert_toolkit_hit(0, true, false),
        Some(HitInsertion::Document(_))
    ));
    assert!(matches!(state.insert_toolkit_hit(0, false, true), Some(HitInsertion::Flow { .. })));
    assert!(state.insert_toolkit_hit(0, false, false).is_none());
    assert!(state.insert_toolkit_hit(5, true, true).is_none());
    assert_eq!(left_nav_swap(LeftNavMode::Outline).1, "Swap to tub");
}

#[test]
fn plain_text_becomes_paragraphs() {
    let paragraphs = toolkit_fallback_paragraphs("a\r\nb\rc\n", None);
    let lines: Vec<String> = paragraphs
        .iter()
        .map(|paragraph| paragraph.runs.iter().map(|run| run.text.as_str()).collect())
        .collect();
    assert_eq!(lines, vec!["a", "b", "c"]);
    let cut = toolkit_fallback_paragraphs("a\nb\nc", Some(2));
    assert_eq!(cut.len(), 3);
    assert_eq!(cut[2].runs[0].text, "...");
    assert_eq!(toolkit_fallback_paragraphs("", None)[0].runs[0].text, "No preview text");
    let paragraph = InputParagraph {
        style: ParagraphStyle::Normal,
        runs: vec![InputRun {
            text: "x".repeat(25),
            styles: RunStyles {
                semantic: RunSemanticStyle::Plain,
                highlight: None,
                direct_underline: false,
                strikethrough: false,
            },
        }],
    };
    assert_eq!(estimated_lines(&paragraph, 10), 3);
}
