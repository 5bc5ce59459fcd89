use flowstate_workspace::closing::SessionPhase;
use flowstate_workspace::collaboration::{
    collaboration_discovery_context, copy_ticket_after_start, copy_active_collaboration_ticket, copy_ticket_end,
    join_collaboration_from_clipboard, joined_kind, leave_all_collaboration_sessions,
    open_collaboration_dialog_with_mode, start_collaboration_on_document, Clipboard, JoinFailure,
    ShareStep,
};
use flowstate_workspace::collaboration_settings::{
    change_binding, connection_draft, create_squad, create_squad_with_id, dropbox_connection_item,
    dropbox_document_binding_item, remote_path, render_collaboration_profile,
    render_collaboration_squads, render_trusted_collaborators, trust_collaborator,
    trust_collaborator_of, trust_view_of, BindingChange, CollaborationScope, DiscoveryOptions,
    TrustForm, TrustedCollaborator,
};
use flowstate_workspace::outbox::{
    acknowledge_db8_outbox, attach_db8_durable_outbox, check_recovered, outbox_path,
    recovery_notice, requeue_recovered, FlowCommit, OutboxAttachment, OutboxEntry,
    OutboxIdentity, OutboxMismatch, PendingCollaborationUpdate,
};
use flowstate_workspace::panels::{OpenPanels, PanelKind};

fn key() -> String {
    iroh::SecretKey::from_bytes(&[7; 32]).public().to_string()
}

fn person(key: &str, verified: bool) -> TrustedCollaborator {
    TrustedCollaborator {
        identity_key: key.to_string(),
        display_name: "Bo".to_string(),
        avatar_path: None,
        color_rgb: None,
        verified,
        scopes: Vec::new(),
    }
}

fn form(identity: &str, compared: bool) -> TrustForm {
    TrustForm { identity: identity.to_string(), name: " Bo ".to_string(), compared }
}

fn entry(n: u8) -> OutboxEntry {
    OutboxEntry {
        identity: OutboxIdentity { document_id: 1, actor_id: 2, replica_id: 3, peer_id: 4 },
        update: vec![n],
        base_frontier: vec![n, 1],
        resulting_frontier: vec![n, 2],
        hash: vec![n, 3],
    }
}

#[test]
fn a_name_is_saved_when_it_changes() {
    assert_eq!(render_collaboration_profile(" Ada ", "Bo").as_deref(), Some("Ada"));
    assert_eq!(render_collaboration_profile("Bo ", "Bo"), None);
    assert_eq!(render_collaboration_profile("  ", "Bo"), None);
}

#[test]
fn trust_needs_a_key_a_document_and_a_comparison() {
    let none = render_trusted_collaborators(&TrustForm::new(), None, &Vec::new(), false);
    assert!(none.add_disabled);
    assert_eq!(none.empty_note, Some("No verified people yet."));
    assert_eq!(
        none.hint,
        Some("Open and save a document first — trust is granted per document.")
    );
    let unkeyed = render_trusted_collaborators(&form("nonsense", true), Some("1234"), &Vec::new(), true);
    assert_eq!(unkeyed.hint, Some("Paste their portable identity key to continue."));
    assert_eq!(unkeyed.safety_line, None);
    let ready = render_trusted_collaborators(
        &form(&format!(" {} ", key()), true),
        Some("1234"),
        &vec![person("k", true)],
        true,
    );
    assert!(!ready.add_disabled && ready.hint.is_none());
    assert_eq!(ready.safety_line.as_deref(), Some("Safety code: 1234"));
    assert_eq!(ready.people, vec![("Bo".to_string(), "k".to_string())]);
    assert!(trust_view_of(&form("x", false), true, None, &Vec::new(), true).add_disabled);
}

#[test]
fn a_person_is_trusted_for_one_document() {
    let trusted = trust_collaborator(&key(), " Bo ", Some("/a.db8".to_string())).expect("trusted");
    assert_eq!(trusted.display_name, "Bo");
    assert!(trusted.verified);
    assert!(matches!(&trusted.scopes[0], CollaborationScope::Document(path) if path == "/a.db8"));
    assert!(trust_collaborator("nonsense", "Bo", Some("/a.db8".to_string())).is_none());
    assert!(trust_collaborator(&key(), "  ", Some("/a.db8".to_string())).is_none());
    assert!(trust_collaborator(&key(), "Bo", None).is_none());
    assert!(trust_collaborator_of("k".to_string(), false, "Bo", Some("/a".to_string())).is_none());
}

#[test]
fn squads_need_a_verified_member() {
    let people = vec![person("k", true), person("u", false)];
    let folder = || Some("/cards".to_string());
    let squad = create_squad(" Team ", " k ", &people, folder()).expect("a squad");
    assert_eq!(squad.id.len(), 36);
    assert_eq!(squad.id.matches('-').count(), 4);
    assert_eq!(squad.id.chars().nth(14), Some('4'));
    assert_eq!(squad.name, "Team");
    let other = create_squad("Team", "k", &people, folder()).expect("a squad");
    assert_ne!(squad.id, other.id);
    assert!(create_squad("Team", "u", &people, folder()).is_none());
    assert!(create_squad(" ", "k", &people, folder()).is_none());
    assert!(create_squad_with_id("id".to_string(), "Team", "k", &people, None).is_none());
    let view = render_collaboration_squads(&vec![squad], false);
    assert_eq!(view.squads, vec![("Team".to_string(), "1 member(s)".to_string())]);
    assert!(view.add_disabled && view.hint.is_some() && view.empty_note.is_none());
    assert!(render_collaboration_squads(&Vec::new(), true).empty_note.is_some());
}

#[test]
fn discovery_options_change_one_at_a_time() {
    let options = DiscoveryOptions { paused: false, bluetooth: true };
    assert_eq!(options.set_paused(true), DiscoveryOptions { paused: true, bluetooth: true });
    assert_eq!(options.set_bluetooth(false), DiscoveryOptions { paused: false, bluetooth: false });
}

#[test]
fn documents_link_to_the_cloud() {
    assert_eq!(dropbox_connection_item(true, "SECRET-REDACTED"), (true, "Connected", "Disconnect"));
    assert_eq!(dropbox_connection_item(true, "").1, "Not connected");
    assert_eq!(remote_path("//team/cards/", "a.db8"), "/team/cards/a.db8");
    assert_eq!(remote_path("///", "a.db8"), "/a.db8");
    let bound = dropbox_document_binding_item(Some("/team/a.db8"), true, false);
    assert_eq!(bound.label, "Linked to /team/a.db8");
    assert!(!bound.disabled);
    assert!(dropbox_document_binding_item(None, true, false).disabled);
    assert!(matches!(change_binding(true, true, "", None), Some(BindingChange::Unlink)));
    match change_binding(true, false, "team", Some("a.db8")) {
        Some(BindingChange::Link(path)) => assert_eq!(path, "/team/a.db8"),
        _ => panic!("expected a link"),
    }
    assert!(change_binding(true, false, "team", None).is_none());
    assert!(change_binding(false, true, "team", None).is_none());
    assert_eq!(connection_draft(" k ", " r "), ("k".to_string(), "r".to_string()));
}

#[test]
fn sharing_starts_a_session_first() {
    assert!(matches!(copy_active_collaboration_ticket(None, false), ShareStep::NothingOpen));
    assert!(matches!(copy_active_collaboration_ticket(Some(1), true), ShareStep::AwaitTicket));
    assert!(matches!(copy_active_collaboration_ticket(Some(1), false), ShareStep::StartSession));
    assert!(matches!(copy_ticket_after_start(false, false), ShareStep::Stop(_)));
    assert!(matches!(copy_ticket_after_start(true, true), ShareStep::AwaitTicket));
    assert!(copy_ticket_end(Err("offline".to_string())).detail.contains("offline"));
    assert!(!copy_ticket_end(Ok(())).critical);
}

#[test]
fn joining_reads_the_clipboard() {
    assert_eq!(join_collaboration_from_clipboard(Clipboard::Text("ticket".to_string())).unwrap(), "ticket");
    assert!(join_collaboration_from_clipboard(Clipboard::Empty).is_err());
    assert!(join_collaboration_from_clipboard(Clipboard::NoText).is_err());
    assert_eq!(
        joined_kind(PanelKind::Document, Some((PanelKind::Document, PanelKind::Document))).unwrap(),
        PanelKind::Document
    );
    assert!(matches!(joined_kind(PanelKind::Document, None), Err(JoinFailure::ServicesMissing)));
    assert!(matches!(
        joined_kind(PanelKind::Document, Some((PanelKind::Flow, PanelKind::Flow))),
        Err(JoinFailure::KindMismatch)
    ));
    assert!(JoinFailure::BadInvite("x".to_string()).notice().detail.contains("x"));
}

#[test]
fn sessions_start_on_open_panels() {
    let mut panels = OpenPanels::new();
    panels.create_document_panel(1);
    panels.create_flow_panel(2);
    assert_eq!(start_collaboration_on_document(&panels, 1, true, false), Some(PanelKind::Document));
    assert_eq!(start_collaboration_on_document(&panels, 1, false, false), None);
    assert_eq!(start_collaboration_on_document(&panels, 2, false, true), Some(PanelKind::Flow));
    assert_eq!(start_collaboration_on_document(&panels, 9, true, true), None);
    assert_eq!(leave_all_collaboration_sessions(&panels), vec![1]);
    assert_eq!(open_collaboration_dialog_with_mode(&panels), Some(2));
    assert_eq!(
        collaboration_discovery_context(Some((7, Some("/a".to_string()))), None),
        Some((7, "/a".to_string()))
    );
    assert_eq!(
        collaboration_discovery_context(Some((7, None)), Some((Some(8), Some("/f".to_string())))),
        None
    );
    assert_eq!(
        collaboration_discovery_context(None, Some((Some(8), Some("/f".to_string())))),
        Some((8, "/f".to_string()))
    );
    assert_eq!(SessionPhase::Creating, SessionPhase::Creating);
}

#[test]
fn recovered_updates_must_be_ours() {
    let here = OutboxIdentity { document_id: 1, actor_id: 2, replica_id: 3, peer_id: 4 };
    assert!(check_recovered(&vec![entry(1)], here).is_ok());
    let cases = [
        (OutboxIdentity { document_id: 9, ..here }, OutboxMismatch::Document),
        (OutboxIdentity { actor_id: 9, ..here }, OutboxMismatch::Actor),
        (OutboxIdentity { replica_id: 9, ..here }, OutboxMismatch::Replica),
        (OutboxIdentity { peer_id: 9, ..here }, OutboxMismatch::Peer),
    ];
    for (other, mismatch) in cases {
        assert_eq!(check_recovered(&vec![entry(1)], other), Err(mismatch));
        assert!(!mismatch.message().is_empty());
    }
}

#[test]
fn recovered_updates_queue_once() {
    let mut queue = Vec::new();
    requeue_recovered(&mut queue, &vec![entry(1), entry(2)]);
    requeue_recovered(&mut queue, &vec![entry(2), entry(3)]);
    assert_eq!(queue.len(), 3);
    let key = acknowledge_db8_outbox(&queue[0]).expect("journaled");
    assert_eq!(key.hash, vec![1, 3]);
    assert!(acknowledge_db8_outbox(&PendingCollaborationUpdate::Presence(vec![1])).is_none());
    assert_eq!(recovery_notice(10, 10), None);
    assert_eq!(
        recovery_notice(11, 10).as_deref(),
        Some(
            "Replaying 11 exact DB8 updates recovered from the durable outbox; \
             live edits remain journaled until replay catches up."
        )
    );
}

fn attachment(entries: Vec<OutboxEntry>) -> OutboxAttachment {
    OutboxAttachment {
        has_lease: true,
        has_authority: true,
        journal: Ok(entries),
        replay: Ok(()),
        panel_open: true,
    }
}

#[test]
fn an_outbox_needs_a_lease_and_an_authority() {
    let here = OutboxIdentity { document_id: 1, actor_id: 2, replica_id: 3, peer_id: 4 };
    let told = |attachment| {
        let mut queue = Vec::new();
        let error = attach_db8_durable_outbox(&mut queue, attachment, here, 10).unwrap_err();
        assert!(queue.is_empty());
        (error.message(), error.blocks_edits())
    };
    let mut one = attachment(Vec::new());
    one.has_lease = false;
    assert_eq!(
        told(one).0,
        "DB8 replica lineage lease is unavailable; this document is source-read-only"
    );
    let mut one = attachment(Vec::new());
    one.has_authority = false;
    assert_eq!(told(one).0, "DB8 authority is unavailable for durable outbox attachment");
    let mut one = attachment(Vec::new());
    one.journal = Err("gone".to_string());
    assert_eq!(told(one), ("gone".to_string(), None));
    let mut one = attachment(vec![entry(1)]);
    one.replay = Err("torn".to_string());
    assert_eq!(
        told(one),
        ("torn".to_string(), Some("durable outbox replay failed: torn".to_string()))
    );
    let mut one = attachment(vec![entry(1)]);
    one.panel_open = false;
    assert_eq!(told(one).0, "collaboration DB8 panel is no longer open");
    let mut strange = entry(1);
    strange.identity.peer_id = 9;
    assert_eq!(told(attachment(vec![strange])).0, "durable outbox Loro peer identity mismatch");
}

#[test]
fn an_attached_outbox_queues_its_entries() {
    let here = OutboxIdentity { document_id: 1, actor_id: 2, replica_id: 3, peer_id: 4 };
    let mut queue = vec![PendingCollaborationUpdate::Presence(vec![0])];
    let attached =
        attach_db8_durable_outbox(&mut queue, attachment(vec![entry(1), entry(2)]), here, 1)
            .expect("attached");
    assert!(attached.replaces_document);
    assert!(attached.notice.is_some());
    assert_eq!(queue.len(), 3);
    let attached =
        attach_db8_durable_outbox(&mut queue, attachment(vec![entry(2)]), here, 1).expect("again");
    assert!(attached.notice.is_none());
    assert_eq!(queue.len(), 3, "an entry is queued once");
    let commit = FlowCommit {
        update: vec![7],
        base_frontier: vec![1],
        resulting_frontier: vec![2],
    };
    let accepted = here.accept(&commit, vec![9]);
    assert!(check_recovered(&vec![accepted], here).is_ok());
    assert_eq!(outbox_path("d", "r"), "collaboration-outbox/d/r.flow-outbox");
}
