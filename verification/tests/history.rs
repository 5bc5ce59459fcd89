use flowstate_workspace::document_panel::{DocumentOffset, DocumentRange};
use flowstate_workspace::history::{
    author_legend, group_header, paint_diff, preview_caption, tick_tooltip, AuthorColor,
    CheckoutOutcome, DiffRequest, FrontierDiff, HistoryTakeover, RemovedSpan, RevisionInfo,
    RevisionKind, TickColor, SESSION_GAP_SECS, UNKNOWN_AUTHOR_RGB,
};
use flowstate_workspace::revision_dialog::{
    RevisionDialog, RevisionDialogView, RevisionReply, RevisionSummary,
};

fn revision(id: u128, kind: RevisionKind, at: i64) -> RevisionInfo {
    RevisionInfo {
        revision_id: id,
        frontier: vec![id as u8],
        title: format!("Moment {id}"),
        kind,
        created_at_unix_secs: at,
        author_display_name: Some("Ada".to_string()),
    }
}

fn takeover() -> HistoryTakeover {
    let mut takeover = HistoryTakeover::new(4);
    takeover.finish_reload(
        Ok(vec![
            revision(3, RevisionKind::Session, 60 + SESSION_GAP_SECS + 1),
            revision(2, RevisionKind::Named, 60),
            revision(1, RevisionKind::Auto, 0),
        ]),
        false,
    );
    takeover
}

fn span(author: Option<u128>) -> RemovedSpan {
    RemovedSpan {
        range: DocumentRange {
            start: DocumentOffset { paragraph: 0, byte: 0 },
            end: DocumentOffset { paragraph: 0, byte: 2 },
        },
        author_user_id: author,
        author_display_name: author.map(|id| format!("Person {id}")),
    }
}

#[test]
fn moments_group_by_sitting() {
    let takeover = takeover();
    assert_eq!(takeover.session_groups(), vec![(0, 2), (2, 3)]);
    let view = takeover.render();
    assert_eq!(view.groups.len(), 2);
    assert_eq!(view.groups[0].group, 1, "the newest group comes first");
    assert_eq!(view.groups[1].rows, vec![1, 0]);
    assert_eq!(view.ticks.len(), 3);
    assert_eq!(view.ticks[1].color, TickColor::Warning);
    assert_eq!(view.ticks[1].height, 26);
}

#[test]
fn a_folded_group_keeps_named_moments() {
    let mut takeover = takeover();
    takeover.toggle_group(0);
    let view = takeover.render();
    assert!(view.groups[1].collapsed);
    assert_eq!(view.groups[1].rows, vec![1]);
}

#[test]
fn selecting_checks_out_and_restores() {
    let mut takeover = takeover();
    let generation = takeover.select(2).expect("a checkout");
    assert_eq!(takeover.checkout_due(generation), Some(vec![2]));
    assert_eq!(takeover.checkout_due(generation.wrapping_sub(1)), None);
    assert!(takeover.finish_checkout(generation, vec![2], CheckoutOutcome::Document));
    assert_eq!(takeover.fork_selected(), Some((4, 2)));
    assert_eq!(takeover.restore_selected(), Some(vec![2]));
    assert!(takeover.finish_restore(Ok(())));
    assert!(takeover.on_key_down("escape"));
}

#[test]
fn a_row_offers_to_be_named() {
    let mut takeover = takeover();
    takeover.select(2);
    let named = revision(2, RevisionKind::Named, 60);
    let row = takeover.render_ledger_row(&named);
    assert!(row.bold && row.selected && row.offers_rename);
    assert_eq!(row.author.as_deref(), Some("Ada"));
    assert_eq!(takeover.begin_rename(2).as_deref(), Some("Moment 2"));
    assert!(takeover.render_ledger_row(&named).renaming);
    assert_eq!(takeover.commit_rename("  Final "), Some((2, "Final".to_string())));
    takeover.finish_rename(Err("offline".to_string()));
    assert!(takeover.error.is_some());
}

#[test]
fn moments_can_be_pinned() {
    let mut takeover = takeover();
    takeover.begin_pin();
    assert!(takeover.render().pinning);
    assert_eq!(takeover.commit_pin(" Round 1 ").as_deref(), Some("Round 1"));
    takeover.finish_pin(Ok(77));
    assert!(!takeover.pinning);
}

#[test]
fn a_diff_is_painted_by_author() {
    let diff = FrontierDiff {
        removed_since: vec![span(Some(5)), span(None), span(Some(5))],
        removed_chars: 6,
        inserted_chars: 4,
    };
    let marks = paint_diff(&diff);
    assert_eq!(marks.len(), 3);
    assert_eq!(marks[0].color, AuthorColor::User(5));
    assert_eq!(marks[1].color, AuthorColor::Rgb(UNKNOWN_AUTHOR_RGB));
    assert_eq!(author_legend(&diff).len(), 2);
    let mut takeover = takeover();
    let generation = takeover.select(1).unwrap();
    takeover.finish_checkout(generation, vec![1], CheckoutOutcome::Document);
    assert!(matches!(takeover.toggle_diff(), DiffRequest::ClearMarks));
    match takeover.toggle_diff() {
        DiffRequest::Fetch(frontier) => assert_eq!(frontier, vec![1]),
        _ => panic!("expected a fetch"),
    }
    assert!(takeover.finish_diff(generation, Ok(diff)).is_some());
    let (legend, summary) = takeover.render().legend.expect("a legend");
    assert_eq!(legend.len(), 2);
    assert_eq!(summary, "−6 · +4 since");
}

#[test]
fn captions_and_headers() {
    assert!(group_header(true, "Mar 3", 4).contains("Mar 3"));
    assert!(tick_tooltip("Final", "10:20").contains("Final"));
    assert_ne!(preview_caption(true, None), preview_caption(false, Some(("Final", "10:20"))));
}

#[test]
fn refreshes_are_scheduled_once() {
    let mut takeover = HistoryTakeover::new(1);
    assert!(takeover.schedule_refresh());
    assert!(!takeover.schedule_refresh());
    takeover.refresh_due();
    assert!(takeover.schedule_refresh());
    assert!(takeover.render().empty);
}

#[test]
fn the_revision_dialog_lists_revisions() {
    let mut dialog = RevisionDialog::new(3, true);
    assert!(matches!(dialog.render(), RevisionDialogView::Loading));
    dialog.finish(RevisionReply::Revisions(Vec::new()));
    assert!(matches!(dialog.render(), RevisionDialogView::Empty));
    dialog.finish(RevisionReply::Revisions(vec![RevisionSummary {
        revision_id: 0xabc,
        title: "Draft".to_string(),
        summary: "2 edits".to_string(),
    }]));
    match dialog.render() {
        RevisionDialogView::List(rows) => {
            assert_eq!(rows.len(), 1);
            assert_eq!(rows[0].revision_id, 0xabc);
            assert_eq!(rows[0].title, "Draft");
            assert_eq!(rows[0].summary, "2 edits");
            assert_eq!(rows[0].short_id, "00000abc");
        }
        _ => panic!("expected a list"),
    }
    dialog.finish(RevisionReply::Failed("offline".to_string()));
    assert!(matches!(dialog.render(), RevisionDialogView::Error(_)));
    assert!(matches!(RevisionDialog::new(3, false).render(), RevisionDialogView::Error(_)));
}

#[test]
fn the_ledger_counts_its_revisions() {
    assert_eq!(HistoryTakeover::new(1).revision_count(), 0);
    assert_eq!(takeover().revision_count(), 3);
}
