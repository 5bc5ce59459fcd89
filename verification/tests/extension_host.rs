use flowstate_workspace::extension_host::{
    answer_or_closed, directory_choice, directory_prompt, directory_request, edits_request,
    editor_answer, grant_or_closed, refresh_after_answer, refresh_begin, refresh_failed, run_ended,
    selection_answer, selection_json, serve, DirectoryAccess, DirectoryPick, EditorHostBridge,
    EditorHostRequest, EditorReply, HostRequest, HostStep, RefreshStep, RunResult,
};
use flowstate_workspace::extensions::ExtensionPanelEvent;

#[test]
fn closed_bridge_returns_typed_host_error() {
    let (mut host, requests) = EditorHostBridge::bounded(1);
    drop(requests);
    let error = host.selection().unwrap_err();
    assert_eq!(error.code, "host-unavailable");
}

#[test]
fn a_closed_bridge_refuses_everything() {
    let (mut host, requests) = EditorHostBridge::bounded(1);
    drop(requests);
    assert_eq!(host.snapshot().unwrap_err().message, "Flowstate closed the extension host");
    assert_eq!(host.apply_edits("[]").unwrap_err().code, "host-unavailable");
    assert_eq!(host.refresh_from_disk().unwrap_err().code, "host-unavailable");
    assert_eq!(host.set_action_label("a", "b").unwrap_err().code, "host-unavailable");
    assert_eq!(
        host.request_directory_access(DirectoryAccess::Read, None).unwrap_err().code,
        "host-unavailable"
    );
    host.set_status("nobody hears this");
}

#[test]
fn labels_and_status_pass_through_the_bridge() {
    let (mut host, requests) = EditorHostBridge::bounded(4);
    assert!(host.set_action_label("run", "Run again").is_ok());
    host.set_status("working");
    match requests.recv().unwrap() {
        EditorHostRequest::ActionLabel(action, label) => {
            assert_eq!((action.as_str(), label.as_str()), ("run", "Run again"));
        }
        _ => panic!("expected a label"),
    }
    match requests.recv().unwrap() {
        EditorHostRequest::Status(text) => assert_eq!(text, "working"),
        _ => panic!("expected a status"),
    }
}

#[test]
fn a_selection_is_read_out_of_a_snapshot() {
    assert_eq!(
        selection_json("{\"selection\": {\"head\": 3}, \"text\": \"x\"}").unwrap(),
        "{\"head\":3}"
    );
    assert_eq!(selection_json("{\"text\": \"x\"}").unwrap(), "null");
    assert_eq!(selection_json("[1, 2]").unwrap(), "null");
    assert_eq!(selection_json("{").unwrap_err().code, "json");
}

#[test]
fn editor_replies_become_answers() {
    assert_eq!(editor_answer(Some(EditorReply::Text("{}".to_string()))).unwrap(), "{}");
    let none = editor_answer(None).unwrap_err();
    assert_eq!((none.code.as_str(), none.message.as_str()), ("no-document", "No rich document is active"));
    let gone = editor_answer(Some(EditorReply::Gone("released".to_string()))).unwrap_err();
    assert_eq!((gone.code.as_str(), gone.message.as_str()), ("editor-unavailable", "released"));
    let json = editor_answer(Some(EditorReply::NotJson("bad".to_string()))).unwrap_err();
    assert_eq!(json.code, "json");
    let edits = editor_answer(Some(EditorReply::InvalidEdits("range".to_string()))).unwrap_err();
    assert_eq!((edits.code.as_str(), edits.message.as_str()), ("invalid-edits", "range"));
    let selection = selection_answer(Some(EditorReply::Text("{\"selection\":[1]}".to_string())));
    assert_eq!(selection.unwrap(), "[1]");
    assert_eq!(selection_answer(None).unwrap_err().code, "no-document");
}

#[test]
fn requests_are_served() {
    assert!(matches!(serve("x", true, HostRequest::Snapshot), HostStep::ReadDocument));
    assert!(matches!(serve("x", true, HostRequest::Selection), HostStep::ReadSelection));
    assert!(matches!(serve("x", true, HostRequest::Refresh), HostStep::LookAtFile));
    match serve("x", true, HostRequest::ApplyEdits("[]".to_string())) {
        HostStep::Edit(text) => assert_eq!(text, "[]"),
        _ => panic!("expected an edit"),
    }
    match serve("x", false, HostRequest::Refresh) {
        HostStep::Refuse(error) => assert_eq!(error.code, "no-document"),
        _ => panic!("expected a refusal"),
    }
    match serve("x", false, HostRequest::Status("hi".to_string())) {
        HostStep::Tell(ExtensionPanelEvent::Output { extension_id, output }) => {
            assert_eq!((extension_id.as_str(), output.as_str()), ("x", "hi"));
        }
        _ => panic!("expected output"),
    }
}

#[test]
fn unsaved_changes_are_asked_about_before_a_refresh() {
    assert!(matches!(
        refresh_begin(Ok((Some("a.db8".to_string()), false))),
        RefreshStep::Read(_)
    ));
    assert!(matches!(
        refresh_begin(Ok((Some("a.db8".to_string()), true))),
        RefreshStep::AskDiscard(_)
    ));
    match refresh_begin(Ok((None, true))) {
        RefreshStep::Refuse(error) => assert_eq!(error.code, "unsaved-document"),
        _ => panic!("expected a refusal"),
    }
    match refresh_begin(Err("released".to_string())) {
        RefreshStep::Refuse(error) => assert_eq!(error.code, "editor-unavailable"),
        _ => panic!("expected a refusal"),
    }
    assert!(matches!(
        refresh_after_answer("a.db8".to_string(), Some(0)),
        RefreshStep::Read(_)
    ));
    for button in [Some(1), None] {
        match refresh_after_answer("a.db8".to_string(), button) {
            RefreshStep::Refuse(error) => assert_eq!(error.code, "refresh-cancelled"),
            _ => panic!("expected a refusal"),
        }
    }
    assert_eq!(refresh_failed("gone").code, "refresh-failed");
}

#[test]
fn a_directory_is_granted_after_a_question() {
    assert_eq!(
        directory_prompt(DirectoryAccess::ReadWrite, Some("/cards")),
        "This extension is requesting read and write access to a directory. Suggested path: /cards. The grant takes effect on its next invocation."
    );
    assert_eq!(
        directory_prompt(DirectoryAccess::Read, None),
        "This extension is requesting read-only access to a directory. Suggested path: none. The grant takes effect on its next invocation."
    );
    let pick = || DirectoryPick::Picked(Some("/cards".to_string()));
    assert_eq!(directory_choice(true, pick(), true).unwrap(), "/cards");
    assert_eq!(directory_choice(true, pick(), false).unwrap_err().code, "runtime-unavailable");
    assert_eq!(
        directory_choice(false, pick(), true).unwrap_err().message,
        "Directory access was not granted"
    );
    assert_eq!(
        directory_choice(true, DirectoryPick::Picked(None), true).unwrap_err().message,
        "No directory was selected"
    );
    assert_eq!(
        directory_choice(true, DirectoryPick::Cancelled, true).unwrap_err().code,
        "directory-access-cancelled"
    );
    assert_eq!(
        directory_choice(true, DirectoryPick::Gone("closed".to_string()), true).unwrap_err().code,
        "editor-unavailable"
    );
}

#[test]
fn a_run_reports_its_end() {
    let events = run_ended("x", RunResult::Finished { stdout: b"do\xff".to_vec(), stderr: b"ne".to_vec() });
    assert_eq!(events.len(), 2);
    assert!(matches!(
        &events[0],
        ExtensionPanelEvent::Output { output, .. } if output == "do\u{fffd}ne"
    ));
    assert!(matches!(events[1], ExtensionPanelEvent::Finished { .. }));
    assert_eq!(run_ended("x", RunResult::Finished { stdout: Vec::new(), stderr: Vec::new() }).len(), 1);
    assert!(matches!(run_ended("x", RunResult::Cancelled)[0], ExtensionPanelEvent::Cancelled { .. }));
    assert!(matches!(
        run_ended("x", RunResult::Failed("boom".to_string()))[0],
        ExtensionPanelEvent::Failed { .. }
    ));
}

#[test]
fn requests_carry_the_channel_for_their_answer() {
    let (reply, replies) = std::sync::mpsc::sync_channel(1);
    match edits_request("[{}]", reply) {
        EditorHostRequest::ApplyEdits(edits, to) => {
            assert_eq!(edits, "[{}]");
            assert!(to.send(Ok("{\"generation\":7}".to_string())).is_ok());
        }
        _ => panic!("expected edits"),
    }
    let answer = answer_or_closed(true, replies.recv().ok());
    assert_eq!(answer.unwrap(), "{\"generation\":7}");
    assert_eq!(answer_or_closed(true, None).unwrap_err().code, "host-unavailable");
    assert_eq!(
        answer_or_closed(false, Some(Ok("late".to_string()))).unwrap_err().code,
        "host-unavailable"
    );

    let (reply, replies) = std::sync::mpsc::sync_channel(1);
    match directory_request(DirectoryAccess::Read, Some("/cards"), reply) {
        EditorHostRequest::DirectoryAccess(_, path, to) => {
            assert_eq!(path.as_deref(), Some("/cards"));
            drop(to);
        }
        _ => panic!("expected a directory"),
    }
    assert_eq!(
        grant_or_closed(true, replies.recv().ok()).unwrap_err().message,
        "Flowstate closed the extension host"
    );
}
