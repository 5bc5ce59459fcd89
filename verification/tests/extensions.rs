use flowstate_workspace::a11y::{A11yTree, AccessNode};
use flowstate_workspace::extension_grants::{
    approve, can_cancel, can_grant, can_invoke, directory_grants, grant_directory, grant_id,
    is_trusted,
};
use flowstate_workspace::extension_host::DirectoryAccess;
use flowstate_workspace::extensions::{
    disconnected_controller, discovery_failure, request_extension_action, retain_expanded,
    ActionStep, DiscoveryIssue, ExtensionActionView, ExtensionPanel, ExtensionPanelAdapter,
    ExtensionPanelController, ExtensionPanelEvent, ExtensionRunState, ExtensionView,
};
use flowstate_workspace::text_set::TextSet;

struct Adapter {
    trusted: bool,
}

fn action() -> ExtensionActionView {
    ExtensionActionView { id: "run".to_string(), label: "Run".to_string(), requires_document: true }
}

fn extension(id: &str) -> ExtensionView {
    ExtensionView {
        id: id.to_string(),
        name: id.to_string(),
        version: "1".to_string(),
        component_hash: format!("hash of {id}"),
        actions: vec![action()],
    }
}

impl ExtensionPanelAdapter for Adapter {
    fn installed(&self) -> Result<Vec<ExtensionView>, String> {
        Ok(vec![extension("x")])
    }

    fn is_trusted(&self, _: &str, component_hash: &str) -> bool {
        self.trusted && component_hash == "hash of x"
    }

    fn trust(&self, extension_id: &str, _: &str) -> Result<(), String> {
        if extension_id == "x" {
            Ok(())
        } else {
            Err("unknown".to_string())
        }
    }

    fn invoke(&self, _: &str, action_id: &str) -> Result<(), String> {
        if action_id == "run" {
            Ok(())
        } else {
            Err("no such action".to_string())
        }
    }

    fn cancel(&self, _: &str) -> Result<(), String> {
        Err("Extension is not running".to_string())
    }
}

fn node(key: &str, role: &str) -> AccessNode {
    AccessNode {
        key: key.to_string(),
        role: Some(role.to_string()),
        label: None,
        value: None,
        actions: vec!["Focus".to_string()],
        children: Vec::new(),
        accesskit_id: None,
    }
}

#[test]
fn a_controller_runs_actions() {
    let mut controller = ExtensionPanelController::new(Adapter { trusted: false });
    controller.reload();
    assert_eq!(controller.panel.extensions.len(), 1);
    assert!(controller.requires_trust("x"));
    assert!(controller.trust("x").is_ok());
    controller.invoke("x", "run");
    assert!(controller.panel.is_running("x"));
    controller.cancel("x");
    assert!(matches!(controller.panel.state("x"), ExtensionRunState::Failed(_)));
    controller.invoke("x", "other");
    assert!(matches!(
        controller.panel.state("x"),
        ExtensionRunState::Failed(text) if text == "no such action"
    ));
    let mut trusted = ExtensionPanelController::new(Adapter { trusted: true });
    trusted.reload();
    assert!(!trusted.requires_trust("x"));
}

#[test]
fn without_a_host_nothing_is_installed() {
    let mut controller = disconnected_controller();
    controller.reload();
    assert!(controller.panel.extensions.is_empty());
    controller.invoke("x", "run");
    assert!(!controller.panel.is_running("x"));
}

#[test]
fn news_is_applied_in_order() {
    let mut panel = ExtensionPanel::new();
    let id = || "x".to_string();
    let goes_on = panel.end_round(
        "x",
        vec![
            ExtensionPanelEvent::Started { extension_id: id(), action_id: "run".to_string() },
            ExtensionPanelEvent::Output { extension_id: id(), output: "hello".to_string() },
            ExtensionPanelEvent::ActionLabel {
                extension_id: id(),
                action_id: "run".to_string(),
                label: "Again".to_string(),
            },
        ],
    );
    assert!(goes_on);
    assert_eq!(panel.output("x").as_deref(), Some("hello"));
    assert_eq!(panel.label("x", &action()), "Again");
    assert_eq!(panel.label("y", &action()), "Run");
    assert!(!panel.end_round("x", vec![ExtensionPanelEvent::Finished { extension_id: id() }]));
    panel.apply(ExtensionPanelEvent::Cancelled { extension_id: id() });
    assert!(matches!(panel.state("x"), ExtensionRunState::Cancelled));
    panel.take_installed(Err("no folder".to_string()));
    assert_eq!(panel.error.as_deref(), Some("no folder"));
}

#[test]
fn untrusted_actions_ask_first() {
    assert!(matches!(request_extension_action(true), ActionStep::AskTrust));
    assert!(matches!(request_extension_action(false), ActionStep::Run));
    let mut expanded = TextSet::new();
    expanded.insert("x");
    expanded.insert("gone");
    retain_expanded(&mut expanded, &vec![extension("x")]);
    assert!(expanded.contains("x") && !expanded.contains("gone"));
}

#[test]
fn a_failed_discovery_names_its_issues() {
    let issues = vec![
        DiscoveryIssue { path: "/a".to_string(), message: "bad".to_string() },
        DiscoveryIssue { path: "/b".to_string(), message: "worse".to_string() },
    ];
    assert_eq!(discovery_failure(0, &issues).as_deref(), Some("/a: bad\n/b: worse"));
    assert_eq!(discovery_failure(1, &issues), None);
    assert_eq!(discovery_failure(0, &Vec::new()), None);
}

#[test]
fn directories_are_granted_to_a_component() {
    assert_eq!(grant_id(0xabc), "grant-0000000000000abc");
    let mut grants = Vec::new();
    let response = grant_directory(&mut grants, "x", "h1", DirectoryAccess::Read, "/cards", 0xabc);
    assert_eq!(response.mount_path, "/grants/grant-0000000000000abc");
    assert!(response.available_next_invocation);
    grant_directory(&mut grants, "x", "h1", DirectoryAccess::ReadWrite, "/cards", 0xabc);
    grant_directory(&mut grants, "y", "h1", DirectoryAccess::Read, "/cards", 0xabc);
    assert_eq!(grants.len(), 2, "a second grant replaces the first");
    let mounts = directory_grants(&grants, "x", "h1");
    assert_eq!(mounts.len(), 1);
    assert_eq!(mounts[0].access, DirectoryAccess::ReadWrite);
    assert!(directory_grants(&grants, "x", "h2").is_empty(), "a changed component has none");
}

#[test]
fn trust_is_for_the_component_that_was_shown() {
    assert!(is_trusted(Some("h"), "h", true));
    assert!(!is_trusted(Some("h2"), "h", true));
    assert!(!is_trusted(None, "h", true));
    assert!(approve(Some("h"), "h").is_ok());
    assert_eq!(approve(Some("h2"), "h").unwrap_err(), "Extension changed before approval");
    assert_eq!(approve(None, "h").unwrap_err(), "Extension is no longer installed");
    assert_eq!(can_invoke(false).unwrap_err(), "Extension is no longer installed");
    assert_eq!(can_cancel(false).unwrap_err(), "Extension is not running");
    assert_eq!(can_grant(false, Ok("h".to_string())).unwrap_err().message, "extension missing");
    assert_eq!(can_grant(true, Err("io".to_string())).unwrap_err().code, "directory-grant");
    assert_eq!(can_grant(true, Ok("h".to_string())).unwrap(), "h");
}

#[test]
fn a_tree_of_nodes_is_asked() {
    let mut button = node("b", "Button");
    button.actions.push("Click".to_string());
    let mut named = node("c", "Button");
    named.actions.push("Click".to_string());
    named.label = Some("Save".to_string());
    let mut run = node("d", "TextRun");
    run.value = Some("the quick fox".to_string());
    let mut paragraph = node("e", "Paragraph");
    paragraph.children = vec!["d".to_string()];
    paragraph.accesskit_id = Some("77".to_string());
    let mut unknown = node("f", "");
    unknown.role = None;
    unknown.actions = vec!["Click".to_string()];
    let tree = A11yTree {
        nodes: vec![button, named, run, paragraph, unknown],
        focus: Some("c".to_string()),
    };
    assert_eq!(tree.len(), 5);
    assert_eq!(tree.by_role("Button"), vec![0, 1]);
    assert_eq!(tree.roles(), vec!["Button", "Paragraph", "TextRun"]);
    assert_eq!(tree.by_name("Save"), Some(1));
    assert_eq!(tree.by_name("the quick fox"), Some(2));
    assert_eq!(tree.names(), vec!["Save", "the quick fox"]);
    assert_eq!(tree.actionable_without_name(), vec!["b (Button)", "f (?)"]);
    assert_eq!(tree.focused_node(), Some(1));
    assert_eq!(tree.accesskit_id_of_text("quick").as_deref(), Some("77"));
    assert_eq!(tree.accesskit_id_of_text("slow"), None);
}

#[test]
fn running_one_extension_leaves_the_others() {
    let mut controller = ExtensionPanelController::new(Adapter { trusted: true });
    controller.reload();
    controller.panel.apply(ExtensionPanelEvent::Output {
        extension_id: "y".to_string(),
        output: "done".to_string(),
    });
    controller.panel.apply(ExtensionPanelEvent::Cancelled { extension_id: "y".to_string() });
    controller.invoke("x", "run");
    controller.cancel("x");
    assert!(matches!(controller.panel.state("x"), ExtensionRunState::Failed(_)));
    assert!(matches!(controller.panel.state("y"), ExtensionRunState::Cancelled));
    assert_eq!(controller.panel.output("y").as_deref(), Some("done"));
    assert_eq!(controller.panel.extensions.len(), 1);
    assert!(controller.panel.error.is_none());
}
