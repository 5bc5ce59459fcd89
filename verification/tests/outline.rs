use flowstate_workspace::outline::{
    active_visible_outline_paragraph_from_visible, collect_visible_outline_guides,
    collect_visible_outline_paragraphs, outline_item_id, outline_level, outline_level_name,
    outline_nodes_from_entries, outline_paragraph_ix, outline_paragraph_label, outline_row_level,
    outline_signature, OutlineCache, OutlineParagraph,
};
use flowstate_workspace::styles::ParagraphStyle;
use std::collections::HashSet;

fn paragraph(style: ParagraphStyle, text: &str) -> OutlineParagraph {
    OutlineParagraph { style, text: text.to_string() }
}

fn document() -> Vec<OutlineParagraph> {
    vec![
        paragraph(ParagraphStyle::Pocket, "Case"),
        paragraph(ParagraphStyle::Hat, "Solvency"),
        paragraph(ParagraphStyle::Tag, "They solve"),
        paragraph(ParagraphStyle::Normal, "text"),
        paragraph(ParagraphStyle::Hat, "Harms"),
        paragraph(ParagraphStyle::Pocket, "Off case"),
    ]
}

#[test]
fn headings_nest_under_the_last_higher_one() {
    let signature = outline_signature(&document());
    assert_eq!(signature.paragraph_count, 6);
    let nodes = outline_nodes_from_entries(&signature.entries);
    assert_eq!(nodes.len(), 2);
    assert_eq!(nodes[0].children.len(), 2);
    assert_eq!(nodes[0].children[0].children[0].text, "They solve");
    assert_eq!(nodes[1].paragraph_ix, 5);
}

#[test]
fn collapsed_rows_hide_what_is_under_them() {
    let nodes = outline_nodes_from_entries(&outline_signature(&document()).entries);
    let mut shown = Vec::new();
    collect_visible_outline_paragraphs(&nodes, &HashSet::new(), &mut shown);
    assert_eq!(shown, vec![0, 1, 2, 4, 5]);
    let mut collapsed = HashSet::new();
    collapsed.insert(1usize);
    let mut fewer = Vec::new();
    collect_visible_outline_paragraphs(&nodes, &collapsed, &mut fewer);
    assert_eq!(fewer, vec![0, 1, 4, 5]);
    let mut guides = Vec::new();
    collect_visible_outline_guides(&nodes, &collapsed, &mut guides);
    assert_eq!(guides.len(), fewer.len());
}

#[test]
fn the_caret_belongs_to_the_row_above_it() {
    let visible = vec![0, 1, 4];
    assert_eq!(active_visible_outline_paragraph_from_visible(&visible, 3), Some(1));
    assert_eq!(active_visible_outline_paragraph_from_visible(&visible, 4), Some(4));
    assert_eq!(active_visible_outline_paragraph_from_visible(&vec![2], 1), None);
}

#[test]
fn rows_have_ids_and_levels() {
    assert_eq!(outline_paragraph_ix(&outline_item_id(42)), Some(42));
    assert_eq!(outline_paragraph_ix("something else"), None);
    assert_eq!(outline_level(ParagraphStyle::Normal), None);
    assert!(outline_level(ParagraphStyle::Pocket) < outline_level(ParagraphStyle::Hat));
    assert_eq!(outline_level_name(outline_level(ParagraphStyle::Hat).unwrap()), "Hat");
    let nodes = outline_nodes_from_entries(&outline_signature(&document()).entries);
    assert_eq!(outline_row_level(&nodes, Some(4)), outline_level(ParagraphStyle::Hat).unwrap());
    assert_eq!(outline_row_level(&nodes, None), 3);
}

#[test]
fn labels_are_one_short_line() {
    assert_eq!(outline_paragraph_label("  Solvency  "), "Solvency");
    let long = "word ".repeat(40);
    assert!(outline_paragraph_label(&long).len() <= 80);
}

#[test]
fn the_cache_notices_changes() {
    let mut cache = OutlineCache::new(1, 0, outline_signature(&document()));
    assert!(!cache.update_signature(&document(), 1));
    let mut more = document();
    more.push(paragraph(ParagraphStyle::Tag, "New"));
    assert!(cache.update_signature(&more, 2));
    cache.rebuild_visible(3, &HashSet::new());
    assert_eq!(cache.visible_paragraphs, vec![0, 1, 2, 4, 5, 6]);
    let rows = cache.search_match_outline_paragraphs(&vec![3, 6]);
    assert!(rows.contains(&2) && rows.contains(&6) && rows.len() == 2);
}
