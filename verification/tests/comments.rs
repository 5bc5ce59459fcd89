use flowstate_workspace::comment_dialog::{CommentDialog, DialogRequest};
use flowstate_workspace::comments::{
    linked_thread, refresh_comment_annotations, thread_latest_activity, CommentMessage,
    CommentReadState, CommentThread, CommentTyping, CommentsPanel, EditorObservation, TypingPeer,
    COMMENT_MARK_RGB,
};
use flowstate_workspace::comments_view::curly_quote;
use flowstate_workspace::document_panel::{DocumentOffset, DocumentRange};
use flowstate_workspace::commands::ToolkitTool;
use flowstate_workspace::workspace::Workspace;
use std::collections::HashMap;

fn at(paragraph: usize, byte: usize) -> DocumentOffset {
    DocumentOffset { paragraph, byte }
}

fn range(paragraph: usize, start: usize, end: usize) -> DocumentRange {
    DocumentRange { start: at(paragraph, start), end: at(paragraph, end) }
}

fn message(id: u128, author: u128, stamp: i64) -> CommentMessage {
    CommentMessage {
        message_id: id,
        author_user_id: author,
        author_display_name: format!("Person {author}"),
        body: format!("message {id}"),
        created_at_unix_secs: stamp,
        updated_at_unix_secs: stamp,
        deleted: false,
    }
}

fn thread(id: u128, resolved: bool, stamp: i64) -> CommentThread {
    CommentThread {
        comment_id: id,
        author_user_id: Some(1),
        general: false,
        anchor: Some(range(2, 0, 5)),
        quoted_text: "quote".to_string(),
        resolved,
        created_at_unix_secs: stamp,
        updated_at_unix_secs: stamp,
        messages: vec![message(id * 10, 1, stamp)],
    }
}

fn read_state() -> CommentReadState {
    CommentReadState { last_seen: HashMap::new() }
}

#[test]
fn activity_is_the_latest_stamp() {
    let mut one = thread(1, false, 10);
    one.messages.push(message(11, 2, 40));
    one.messages.push(message(12, 2, 30));
    assert_eq!(thread_latest_activity(&one), 40);
}

#[test]
fn viewing_clears_unread() {
    let mut state = read_state();
    let threads = vec![thread(1, false, 10), thread(2, false, 20)];
    assert_eq!(state.unread_comment_count(&threads), 2);
    state.mark_comment_threads_seen(&threads);
    assert_eq!(state.unread_comment_count(&threads), 0);
    let mut newer = threads;
    newer[1].messages.push(message(99, 3, 21));
    assert_eq!(state.unread_comment_count(&newer), 1);
}

#[test]
fn open_threads_are_marked_in_the_text() {
    let marks = refresh_comment_annotations(&vec![thread(1, false, 1), thread(2, true, 1)]);
    assert_eq!(marks.len(), 1);
    assert_eq!(marks[0].color_rgb, COMMENT_MARK_RGB);
    assert_eq!(marks[0].range, range(2, 0, 5));
}

#[test]
fn the_caret_links_its_thread() {
    let threads = vec![thread(7, false, 1)];
    assert_eq!(linked_thread(&threads, at(2, 3)), Some(7));
    assert_eq!(linked_thread(&threads, at(1, 3)), None);
}

#[test]
fn a_panel_loads_writes_and_replies() {
    let mut panel = CommentsPanel::new(1, "Ada".to_string());
    let change = panel.set_context(true, Some(3), Some(9));
    assert!(change.reload);
    let generation = panel.reload().expect("attached");
    let mut state = read_state();
    assert!(!panel.finish_reload(generation.wrapping_sub(1), Ok(Vec::new()), &mut state));
    assert!(panel.finish_reload(generation, Ok(vec![thread(1, false, 5)]), &mut state));
    assert_eq!(panel.threads.len(), 1);
    assert!(panel.create_comment("   ", "", None).is_none());
    let comment = panel.create_comment("  hello ", "", Some(range(0, 0, 3))).expect("a body");
    assert_eq!(comment.body, "hello");
    assert!(panel.create_comment("again", "", None).is_none(), "one at a time");
    assert!(panel.comment_created(Ok(())));
    assert!(!panel.delete_thread(1, Some(1)), "a thread is deleted only when confirmed");
    assert!(!panel.delete_thread(1, None));
    assert!(panel.delete_thread(1, Some(0)));
    panel.finish_thread_action(1, Ok(()));
    assert!(panel.thread_action(1));
    assert!(!panel.thread_action(1), "a busy thread waits");
    panel.finish_thread_action(1, Ok(()));
    panel.toggle_reply(1);
    assert_eq!(panel.replying_to, Some(1));
    assert!(panel.send_reply(1, "  ", "").is_none());
    assert_eq!(panel.send_reply(1, " ok ", "").unwrap().body.as_deref(), Some("ok"));
    assert_eq!(panel.send_reply(1, "more", "").unwrap().body, None, "the first is on its way");
    assert_eq!(panel.jump_to(1), Some(range(2, 0, 5)));
    assert_eq!(panel.jump_to(5), None);
}

#[test]
fn typing_is_published_once() {
    let mut panel = CommentsPanel::new(1, "Ada".to_string());
    panel.set_context(true, Some(3), Some(9));
    assert_eq!(panel.sync_typing_state("h", ""), Some(Some(CommentTyping::NewThread)));
    assert_eq!(panel.sync_typing_state("he", ""), None);
    assert_eq!(panel.sync_typing_state("", ""), Some(None));
}

#[test]
fn the_panel_shows_open_and_resolved_threads() {
    let mut panel = CommentsPanel::new(1, "Ada".to_string());
    panel.set_context(true, Some(3), Some(9));
    let generation = panel.reload().unwrap();
    panel.finish_reload(generation, Ok(vec![thread(1, false, 5), thread(2, true, 6)]), &mut read_state());
    let roster = vec![TypingPeer {
        name: "Bo".to_string(),
        color_rgb: 0x112233,
        typing: CommentTyping::NewThread,
    }];
    let view = panel.render(true, Some(at(2, 2)), &roster);
    assert_eq!(view.open_threads.len(), 1);
    assert!(view.open_threads[0].linked);
    assert_eq!(view.typing.len(), 1);
    assert!(view.typing[0].text.starts_with("Bo"));
    assert!(view.resolved_label.is_some());
    assert!(view.resolved_threads.is_empty());
    panel.toggle_resolved();
    assert_eq!(panel.render(false, None, &roster).resolved_threads.len(), 1);
}

#[test]
fn quotes_are_curled() {
    assert_eq!(curly_quote("hi"), "“hi”");
}

#[test]
fn the_dialog_creates_edits_and_reports() {
    let mut dialog = CommentDialog::new((at(0, 0), at(0, 4)), 1, "Ada".to_string());
    assert!(dialog.render().status.is_some(), "it loads first");
    let marks = dialog.finish_reload(Ok(vec![thread(1, false, 3)])).expect("marks");
    assert_eq!(marks.len(), 1);
    assert!(dialog.create_comment("  ").is_none());
    assert!(dialog.error.is_some(), "an empty comment is refused aloud");
    assert_eq!(dialog.create_comment(" a ").as_deref(), Some("a"));
    assert!(dialog.busy);
    assert!(!dialog.finish_request(DialogRequest::Create, Err("offline".to_string())));
    assert!(dialog.error.as_deref().unwrap().contains("offline"));
    dialog.begin_edit(1, 10);
    assert_eq!(dialog.editing_message, Some((1, 10)));
    dialog.cancel_edit();
    assert_eq!(dialog.editing_message, None);
    dialog.begin_reply(1);
    assert!(dialog.render().threads[0].replying);
}

#[test]
fn comments_panel_owns_review_marks_across_open_close_reopen() {
    let mut workspace = Workspace::new(true);
    workspace.new_document(9);
    let mut panel = CommentsPanel::new(7, "Tester".to_string());
    let mut state = read_state();
    assert!(panel.push_editor_marks().is_none(), "nothing is marked before the panel opens");

    workspace.open_comments_panel();
    let opened = panel.set_context(true, Some(3), Some(9));
    assert!(opened.reload);
    assert!(matches!(opened.observation, EditorObservation::Observe(3)));
    let generation = panel.reload().expect("attached");
    panel.finish_reload(generation, Ok(vec![thread(1, false, 5)]), &mut state);
    assert_eq!(panel.push_editor_marks().map(|marks| marks.len()), Some(1), "review marks armed on open");
    let frame = panel.set_context(true, Some(3), Some(9));
    assert!(!frame.reload, "nothing changed since the last frame");
    assert!(matches!(frame.observation, EditorObservation::Keep));

    workspace.toggle_toolkit_tool(ToolkitTool::Comments);
    assert_eq!(workspace.layout.active_toolkit_tool, None);
    assert_eq!(panel.detach().clear_marks_of, Some(3), "review marks cleared on close");
    assert!(panel.push_editor_marks().is_none());
    assert_eq!(panel.detach().clear_marks_of, None);
    assert_eq!(panel.threads.len(), 1, "the threads stay for a reopening");

    workspace.open_comments_panel();
    assert_eq!(workspace.layout.active_toolkit_tool, Some(ToolkitTool::Comments));
    let reopened = panel.set_context(true, Some(3), Some(9));
    assert!(reopened.reload);
    assert!(matches!(reopened.observation, EditorObservation::Observe(3)), "the panel is live again");
    assert_eq!(
        panel.push_editor_marks().map(|marks| marks.len()),
        Some(1),
        "review marks re-armed on reopen"
    );

    let elsewhere = panel.set_context(true, Some(4), Some(10));
    assert_eq!(elsewhere.clear_marks_of, Some(3), "marks never stay on an editor that is left");
    assert!(panel.threads.is_empty());
    let nowhere = panel.set_context(false, None, None);
    assert!(matches!(nowhere.observation, EditorObservation::Stop));
}

#[test]
fn unread_badge_raises_while_closed_and_clears_on_view() {
    let mut state = read_state();
    let threads = vec![thread(1, false, 5)];
    assert_eq!(state.unread_comment_count(&threads), 1, "badge raises while the rail is closed");

    let mut panel = CommentsPanel::new(7, "Tester".to_string());
    panel.set_context(true, Some(3), Some(9));
    let generation = panel.reload().expect("attached");
    panel.finish_reload(generation, Ok(vec![thread(1, false, 5)]), &mut state);
    assert_eq!(state.unread_comment_count(&threads), 0, "viewing the panel marks threads seen");
    assert_eq!(
        panel.unread_thread_count(),
        1,
        "the viewed thread carries its new-activity dot for this viewing session"
    );
    assert!(!state.last_seen.is_empty(), "the read-state store records the thread");

    assert!(panel.view_card(1));
    assert!(!panel.view_card(1), "a card is viewed once");
    assert_eq!(panel.unread_thread_count(), 0);
}

#[test]
fn comments_panel_opens_before_the_runtime_attaches() {
    let mut panel = CommentsPanel::new(7, "Tester".to_string());
    panel.set_context(false, Some(3), Some(9));
    assert!(panel.open, "panel opens without a runtime");
    assert!(panel.reload().is_none());
    assert!(!panel.schedule_refresh());
    assert!(!panel.thread_action(1));
    let attached = panel.set_context(true, Some(3), Some(9));
    assert!(attached.reload);
    assert!(panel.reload().is_some());
    panel.set_context(true, Some(3), Some(9));
    assert!(panel.open);
}

#[test]
fn sent_and_closed_boxes_stop_the_typing() {
    let mut panel = CommentsPanel::new(1, "Ada".to_string());
    panel.set_context(true, Some(3), Some(9));
    panel.sync_typing_state("draft", "");
    let comment = panel.create_comment("draft", "", None).expect("a body");
    assert_eq!(comment.typing, Some(None), "the composer is empty now");

    panel.toggle_reply(4);
    assert_eq!(panel.sync_typing_state("", "re"), Some(Some(CommentTyping::InThread(4))));
    let sent = panel.send_reply(4, "re", "next").expect("a body");
    assert_eq!(sent.typing, Some(Some(CommentTyping::NewThread)), "the composer holds a draft");

    let detached = panel.detach();
    assert_eq!(detached.typing, Some(None));
    assert_eq!(panel.published_typing, None);
    assert_eq!(panel.detach().typing, None);
}

#[test]
fn threads_are_resolved_edited_and_filtered() {
    let mut panel = CommentsPanel::new(1, "Ada".to_string());
    panel.set_context(true, Some(3), Some(9));
    let generation = panel.reload().unwrap();
    let mut other = thread(3, false, 7);
    other.author_user_id = Some(2);
    panel.finish_reload(
        generation,
        Ok(vec![thread(1, false, 5), thread(2, true, 6), other]),
        &mut read_state(),
    );
    assert_eq!(panel.resolve_thread(1), Some(true));
    assert_eq!(panel.resolve_thread(1), None, "a busy thread waits");
    assert_eq!(panel.resolve_thread(2), Some(false), "a resolved thread reopens");
    panel.finish_thread_action(1, Err("offline".to_string()));
    assert_eq!(panel.error.as_deref(), Some("Comment action failed: offline"));

    assert_eq!(panel.begin_edit(1, 10).as_deref(), Some("message 10"));
    assert!(panel.save_edit(1, "  ").is_none());
    assert_eq!(panel.editing_message, Some((1, 10)), "an empty text keeps the edit open");
    assert_eq!(panel.save_edit(1, " new ").as_deref(), Some("new"));
    assert_eq!(panel.editing_message, None);

    assert_eq!(panel.render(false, None, &Vec::new()).open_threads.len(), 2);
    panel.toggle_mine();
    assert_eq!(panel.render(false, None, &Vec::new()).open_threads.len(), 1);

    assert!(panel.on_composer_key("enter", false));
    assert!(!panel.on_composer_key("enter", true), "shift-enter breaks the line");
    assert!(!panel.on_composer_key("a", false));
}

#[test]
fn the_dialog_changes_one_thing_at_a_time() {
    let mut dialog = CommentDialog::new((at(0, 0), at(0, 4)), 1, "Ada".to_string());
    assert!(dialog.begin_change());
    assert!(!dialog.begin_change());
    assert!(dialog.finish_request(DialogRequest::Resolve, Ok(())));
    assert!(!dialog.busy);
    assert!(dialog.loading);
}
