//! Collaboration settings: the profile, trusted people, squads and the cloud
//! folder.

use crate::ids::{hyphenated_text, is_written_id, random_id};
use crate::text::{
    chars_of, decimal, push_decimal, same_text, text_between, trim, trimmed,
};
use vstd::prelude::*;
use vstd::string::StringExecFns;

verus! {

/// Whether a text is an identity key.
pub uninterp spec fn is_identity_key(text: Seq<char>) -> bool;

/// `str::parse` to an `iroh::PublicKey` succeeds on the texts that are
/// identity keys, which is a function of the text, here by its name.
#[verifier::external_body]
fn parses_as_key(text: &str) -> (b: bool)
    ensures
        b == is_identity_key(text@),
{
    text.parse::<iroh::PublicKey>().is_ok()
}

/// The name to save when the profile's field changes: none for an empty one
/// or for the name that is saved already.
pub fn render_collaboration_profile(input: &str, persisted: &str) -> (name: Option<String>)
    ensures
        match name {
            Some(name) => name@ == trimmed(input@) && name@.len() > 0 && name@ != persisted@,
            None => trimmed(input@).len() == 0 || trimmed(input@) == persisted@,
        },
{
    let name = trim(input);
    if name.as_str().is_empty() || same_text(name.as_str(), persisted) {
        return None;
    }
    Some(name)
}

/// Where trust reaches.
#[derive(Debug)]
pub enum CollaborationScope {
    Document(String),
    Folder(String),
}

/// A person whose key was compared.
#[derive(Debug)]
pub struct TrustedCollaborator {
    pub identity_key: String,
    pub display_name: String,
    pub avatar_path: Option<String>,
    pub color_rgb: Option<u32>,
    pub verified: bool,
    pub scopes: Vec<CollaborationScope>,
}

/// The form that trusts a person.
#[derive(Debug)]
pub struct TrustForm {
    pub identity: String,
    pub name: String,
    /// The safety codes were compared.
    pub compared: bool,
}

impl TrustForm {
    /// An empty form; it is empty again once a person was saved.
    pub fn new() -> (form: Self)
        ensures
            form.identity@.len() == 0,
            form.name@.len() == 0,
            !form.compared,
    {
        TrustForm { identity: String::new(), name: String::new(), compared: false }
    }
}

/// The trusted people, and the form that trusts another.
#[derive(Debug)]
pub struct TrustView {
    /// Each person's name and key.
    pub people: Vec<(String, String)>,
    pub empty_note: Option<&'static str>,
    /// The code to compare, once the key is one.
    pub safety_line: Option<String>,
    pub compared: bool,
    pub hint: Option<&'static str>,
    pub add_disabled: bool,
}

/// The names and keys of people.
pub open spec fn people_lines(people: Seq<TrustedCollaborator>) -> Seq<(Seq<char>, Seq<char>)> {
    people.map_values(|person: TrustedCollaborator| (person.display_name@, person.identity_key@))
}

/// The page as it stands: the button waits for a key, a saved document and
/// the comparison, and a hint says which of the first two is missing.
pub open spec fn trust_shown(
    view: TrustView,
    form: TrustForm,
    key_is_valid: bool,
    safety_code: Option<Seq<char>>,
    people: Seq<TrustedCollaborator>,
    has_document: bool,
) -> bool {
    &&& view.people@.map_values(|line: (String, String)| (line.0@, line.1@)) == people_lines(people)
    &&& match view.empty_note {
        Some(text) => people.len() == 0 && text@ == "No verified people yet."@,
        None => people.len() > 0,
    }
    &&& match view.safety_line {
        Some(text) => key_is_valid && safety_code is Some && text@ == "Safety code: "@
            + safety_code->0,
        None => !key_is_valid || safety_code is None,
    }
    &&& view.compared == form.compared
    &&& match view.hint {
        Some(text) => text@ == (if !has_document {
            "Open and save a document first — trust is granted per document."@
        } else {
            "Paste their portable identity key to continue."@
        }) && (!has_document || !key_is_valid),
        None => has_document && key_is_valid,
    }
    &&& view.add_disabled == (!key_is_valid || !has_document || !form.compared)
}

fn list_people(people: &Vec<TrustedCollaborator>) -> (lines: Vec<(String, String)>)
    ensures
        lines@.map_values(|line: (String, String)| (line.0@, line.1@)) == people_lines(people@),
{
    let mut lines: Vec<(String, String)> = Vec::new();
    let mut next: usize = 0;
    while next < people.len()
        invariant
            next <= people@.len(),
            lines@.len() == next,
            forall|i: int|
                0 <= i < next ==> (#[trigger] lines@[i]).0@ == people@[i].display_name@
                    && lines@[i].1@ == people@[i].identity_key@,
        decreases people@.len() - next,
    {
        lines.push((people[next].display_name.clone(), people[next].identity_key.clone()));
        next = next + 1;
    }
    assert(lines@.map_values(|line: (String, String)| (line.0@, line.1@)) =~= people_lines(
        people@,
    ));
    lines
}

/// The page for a key that was looked at.
pub fn trust_view_of(
    form: &TrustForm,
    key_is_valid: bool,
    safety_code: Option<&str>,
    people: &Vec<TrustedCollaborator>,
    has_document: bool,
) -> (view: TrustView)
    ensures
        trust_shown(
            view,
            *form,
            key_is_valid,
            match safety_code {
                Some(code) => Some(code@),
                None => None,
            },
            people@,
            has_document,
        ),
{
    let safety_line = match safety_code {
        Some(code) => if key_is_valid {
            let mut line = String::from_str("Safety code: ");
            line.append(code);
            Some(line)
        } else {
            None
        },
        None => None,
    };
    TrustView {
        people: list_people(people),
        empty_note: if people.len() == 0 {
            Some("No verified people yet.")
        } else {
            None
        },
        safety_line,
        compared: form.compared,
        hint: if !has_document {
            Some("Open and save a document first — trust is granted per document.")
        } else if !key_is_valid {
            Some("Paste their portable identity key to continue.")
        } else {
            None
        },
        add_disabled: !key_is_valid || !has_document || !form.compared,
    }
}

/// The page as it stands, with the code of the form's key where there is one.
pub fn render_trusted_collaborators(
    form: &TrustForm,
    safety_code: Option<&str>,
    people: &Vec<TrustedCollaborator>,
    has_document: bool,
) -> (view: TrustView)
    ensures
        trust_shown(
            view,
            *form,
            is_identity_key(trimmed(form.identity@)),
            match safety_code {
                Some(code) => Some(code@),
                None => None,
            },
            people@,
            has_document,
        ),
{
    let key = trim(form.identity.as_str());
    let key_is_valid = parses_as_key(key.as_str());
    trust_view_of(form, key_is_valid, safety_code, people, has_document)
}

/// The person is trusted for one document.
pub open spec fn trusted_for(
    person: TrustedCollaborator,
    key: Seq<char>,
    name: Seq<char>,
    path: Seq<char>,
) -> bool {
    &&& person.identity_key@ == key
    &&& person.display_name@ == name
    &&& person.avatar_path is None
    &&& person.color_rgb is None
    &&& person.verified
    &&& person.scopes@.len() == 1
    &&& person.scopes@[0] matches CollaborationScope::Document(scope) && scope@ == path
}

/// Trusts a person for a document: needs a document, a name and a valid key.
pub fn trust_collaborator_of(
    key: String,
    key_is_valid: bool,
    name: &str,
    document: Option<String>,
) -> (person: Option<TrustedCollaborator>)
    ensures
        match person {
            Some(person) => document is Some && trimmed(name@).len() > 0 && key_is_valid
                && trusted_for(person, key@, trimmed(name@), (document->0)@),
            None => document is None || trimmed(name@).len() == 0 || !key_is_valid,
        },
{
    let display_name = trim(name);
    match document {
        None => None,
        Some(path) => {
            if display_name.as_str().is_empty() || !key_is_valid {
                return None;
            }
            let mut scopes: Vec<CollaborationScope> = Vec::new();
            scopes.push(CollaborationScope::Document(path));
            Some(
                TrustedCollaborator {
                    identity_key: key,
                    display_name,
                    avatar_path: None,
                    color_rgb: None,
                    verified: true,
                    scopes,
                },
            )
        },
    }
}

/// Trusts the person of the form.
pub fn trust_collaborator(identity: &str, name: &str, document: Option<String>) -> (person: Option<
    TrustedCollaborator,
>)
    ensures
        match person {
            Some(person) => document is Some && trimmed(name@).len() > 0 && is_identity_key(
                trimmed(identity@),
            ) && trusted_for(person, trimmed(identity@), trimmed(name@), (document->0)@),
            None => document is None || trimmed(name@).len() == 0 || !is_identity_key(
                trimmed(identity@),
            ),
        },
{
    let key = trim(identity);
    let key_is_valid = parses_as_key(key.as_str());
    trust_collaborator_of(key, key_is_valid, name, document)
}

/// A group that shares a folder.
#[derive(Debug)]
pub struct CollaborationSquad {
    pub id: String,
    pub name: String,
    pub member_identity_keys: Vec<String>,
    pub default_scopes: Vec<CollaborationScope>,
}

/// A key belongs to a verified person.
pub open spec fn is_verified(people: Seq<TrustedCollaborator>, key: Seq<char>) -> bool {
    exists|i: int|
        0 <= i < people.len() && (#[trigger] people[i]).verified && people[i].identity_key@ == key
}

fn has_verified(people: &Vec<TrustedCollaborator>, key: &str) -> (b: bool)
    ensures
        b == is_verified(people@, key@),
{
    let mut next: usize = 0;
    while next < people.len()
        invariant
            next <= people@.len(),
            forall|i: int|
                0 <= i < next ==> !((#[trigger] people@[i]).verified && people@[i].identity_key@
                    == key@),
        decreases people@.len() - next,
    {
        if people[next].verified && same_text(people[next].identity_key.as_str(), key) {
            return true;
        }
        next = next + 1;
    }
    false
}

/// The squad is of one member and one folder.
pub open spec fn squad_of(
    squad: CollaborationSquad,
    name: Seq<char>,
    member: Seq<char>,
    folder: Seq<char>,
) -> bool {
    &&& squad.name@ == name
    &&& squad.member_identity_keys@.len() == 1
    &&& squad.member_identity_keys@[0]@ == member
    &&& squad.default_scopes@.len() == 1
    &&& squad.default_scopes@[0] matches CollaborationScope::Folder(scope) && scope@ == folder
}

/// Founds a squad under an id: needs a folder, a name and a verified member.
pub fn create_squad_with_id(
    id: String,
    name: &str,
    member: &str,
    people: &Vec<TrustedCollaborator>,
    folder: Option<String>,
) -> (squad: Option<CollaborationSquad>)
    ensures
        match squad {
            Some(squad) => {
                &&& folder is Some
                &&& trimmed(name@).len() > 0
                &&& is_verified(people@, trimmed(member@))
                &&& squad.id == id
                &&& squad_of(squad, trimmed(name@), trimmed(member@), (folder->0)@)
            },
            None => folder is None || trimmed(name@).len() == 0 || !is_verified(
                people@,
                trimmed(member@),
            ),
        },
{
    let name = trim(name);
    let member = trim(member);
    let verified = has_verified(people, member.as_str());
    match folder {
        None => None,
        Some(folder) => {
            if name.as_str().is_empty() || !verified {
                return None;
            }
            let mut member_identity_keys: Vec<String> = Vec::new();
            member_identity_keys.push(member);
            let mut default_scopes: Vec<CollaborationScope> = Vec::new();
            default_scopes.push(CollaborationScope::Folder(folder));
            Some(CollaborationSquad { id, name, member_identity_keys, default_scopes })
        },
    }
}

/// Founds a squad under a fresh id.
pub fn create_squad(
    name: &str,
    member: &str,
    people: &Vec<TrustedCollaborator>,
    folder: Option<String>,
) -> (squad: Option<CollaborationSquad>)
    ensures
        match squad {
            Some(squad) => {
                &&& folder is Some
                &&& trimmed(name@).len() > 0
                &&& is_verified(people@, trimmed(member@))
                &&& is_written_id(squad.id@)
                &&& squad_of(squad, trimmed(name@), trimmed(member@), (folder->0)@)
            },
            None => folder is None || trimmed(name@).len() == 0 || !is_verified(
                people@,
                trimmed(member@),
            ),
        },
{
    let id = hyphenated_text(random_id());
    create_squad_with_id(id, name, member, people, folder)
}

/// How a squad's size is written.
pub open spec fn squad_size(members: nat) -> Seq<char> {
    decimal(members) + " member(s)"@
}

fn squad_size_label(members: usize) -> (text: String)
    ensures
        text@ == squad_size(members as nat),
{
    let mut text = String::new();
    push_decimal(&mut text, members as u128);
    text.append(" member(s)");
    assert(text@ =~= decimal(members as nat) + " member(s)"@);
    text
}

/// The squads, and the form that founds another.
#[derive(Debug)]
pub struct SquadsView {
    /// Each squad's name, and how many it has.
    pub squads: Vec<(String, String)>,
    pub empty_note: Option<&'static str>,
    pub hint: Option<&'static str>,
    pub add_disabled: bool,
}

/// The squads as they are listed; another needs a saved document's folder.
pub fn render_collaboration_squads(squads: &Vec<CollaborationSquad>, has_folder: bool) -> (view:
    SquadsView)
    ensures
        view.squads@.len() == squads@.len(),
        forall|i: int|
            0 <= i < squads@.len() ==> (#[trigger] view.squads@[i]).0@ == squads@[i].name@
                && view.squads@[i].1@ == squad_size(squads@[i].member_identity_keys@.len()),
        match view.empty_note {
            Some(text) => squads@.len() == 0 && text@
                == "No squads yet. Squads share a default folder scope."@,
            None => squads@.len() > 0,
        },
        match view.hint {
            Some(text) => !has_folder && text@
                == "Open a saved document first — a squad covers that document's folder."@,
            None => has_folder,
        },
        view.add_disabled == !has_folder,
{
    let mut lines: Vec<(String, String)> = Vec::new();
    let mut next: usize = 0;
    while next < squads.len()
        invariant
            next <= squads@.len(),
            lines@.len() == next,
            forall|i: int|
                0 <= i < next ==> (#[trigger] lines@[i]).0@ == squads@[i].name@ && lines@[i].1@
                    == squad_size(squads@[i].member_identity_keys@.len()),
        decreases squads@.len() - next,
    {
        let squad = &squads[next];
        lines.push((squad.name.clone(), squad_size_label(squad.member_identity_keys.len())));
        next = next + 1;
    }
    SquadsView {
        squads: lines,
        empty_note: if squads.len() == 0 {
            Some("No squads yet. Squads share a default folder scope.")
        } else {
            None
        },
        hint: if has_folder {
            None
        } else {
            Some("Open a saved document first — a squad covers that document's folder.")
        },
        add_disabled: !has_folder,
    }
}

/// How people nearby are found.
#[derive(Clone, Copy, Debug, PartialEq, Eq, Structural)]
pub struct DiscoveryOptions {
    pub paused: bool,
    pub bluetooth: bool,
}

impl DiscoveryOptions {
    /// Discovery is paused or goes on; the other option stays.
    pub fn set_paused(self, paused: bool) -> (options: Self)
        ensures
            options == (DiscoveryOptions { paused, ..self }),
    {
        DiscoveryOptions { paused, bluetooth: self.bluetooth }
    }

    /// Bluetooth is used or not; the other option stays.
    pub fn set_bluetooth(self, bluetooth: bool) -> (options: Self)
        ensures
            options == (DiscoveryOptions { bluetooth, ..self }),
    {
        DiscoveryOptions { paused: self.paused, bluetooth }
    }
}

/// The cloud folder's line: whether it is connected, how that reads, and the
/// label of its button.
pub fn dropbox_connection_item(enabled: bool, access_token: &str) -> (line: (
    bool,
    &'static str,
    &'static str,
))
    ensures
        line.0 == (enabled && access_token@.len() > 0),
        line.1@ == (if line.0 {
            "Connected"@
        } else {
            "Not connected"@
        }),
        line.2@ == (if line.0 {
            "Disconnect"@
        } else {
            "Connect Dropbox"@
        }),
{
    if enabled && !access_token.is_empty() {
        (true, "Connected", "Disconnect")
    } else {
        (false, "Not connected", "Connect Dropbox")
    }
}

/// A document's link to the cloud folder.
#[derive(Debug)]
pub struct BindingView {
    pub label: String,
    pub button: String,
    pub disabled: bool,
}

/// A document's link as it is shown: one that is linked can always be
/// unlinked, another needs a file and a connection.
pub fn dropbox_document_binding_item(remote_path: Option<&str>, has_path: bool, connected: bool) -> (view: BindingView)
    ensures
        view.label@ == (match remote_path {
            Some(path) => "Linked to "@ + path@,
            None => "This document is local only"@,
        }),
        view.button@ == (if remote_path is Some {
            "Unlink"@
        } else {
            "Link to Dropbox"@
        }),
        view.disabled == (!has_path || (!connected && remote_path is None)),
{
    match remote_path {
        Some(path) => {
            let mut label = String::from_str("Linked to ");
            label.append(path);
            BindingView { label, button: String::from_str("Unlink"), disabled: !has_path }
        },
        None => BindingView {
            label: String::from_str("This document is local only"),
            button: String::from_str("Link to Dropbox"),
            disabled: !has_path || !connected,
        },
    }
}

/// What connecting hands on: the key and the root as they were typed, less
/// the space around them.
pub fn connection_draft(app_key: &str, root: &str) -> (draft: (String, String))
    ensures
        draft.0@ == trimmed(app_key@),
        draft.1@ == trimmed(root@),
{
    (trim(app_key), trim(root))
}

/// What the link's button does.
#[derive(Debug)]
pub enum BindingChange {
    Unlink,
    /// Link the document to this path.
    Link(String),
}

/// What the link's button does: needs a file, and linking one needs a name
/// that can be written.
pub fn change_binding(has_path: bool, is_bound: bool, root: &str, file_name: Option<&str>) -> (change:
    Option<BindingChange>)
    ensures
        match change {
            None => !has_path || (!is_bound && file_name is None),
            Some(BindingChange::Unlink) => has_path && is_bound,
            Some(BindingChange::Link(path)) => has_path && !is_bound && file_name is Some && path@
                == remote_path_of(root@, (file_name->0)@),
        },
{
    if !has_path {
        return None;
    }
    if is_bound {
        return Some(BindingChange::Unlink);
    }
    match file_name {
        Some(name) => Some(BindingChange::Link(remote_path(root, name))),
        None => None,
    }
}

/// A text without the slashes at its front.
pub open spec fn without_front_slashes(text: Seq<char>) -> Seq<char>
    decreases text.len(),
{
    if text.len() > 0 && text[0] == '/' {
        without_front_slashes(text.skip(1))
    } else {
        text
    }
}

/// A text without the slashes at its back.
pub open spec fn without_back_slashes(text: Seq<char>) -> Seq<char>
    decreases text.len(),
{
    if text.len() > 0 && text.last() == '/' {
        without_back_slashes(text.drop_last())
    } else {
        text
    }
}

/// A text without the slashes at its ends.
pub open spec fn without_slashes(text: Seq<char>) -> Seq<char> {
    without_back_slashes(without_front_slashes(text))
}

fn trim_slashes(text: &str) -> (inner: String)
    ensures
        inner@ == without_slashes(text@),
{
    let chars = chars_of(text);
    let mut from: usize = 0;
    assert(chars@.skip(0) =~= chars@);
    while from < chars.len() && chars[from] == '/'
        invariant
            from <= chars@.len(),
            without_front_slashes(chars@) == without_front_slashes(chars@.skip(from as int)),
        decreases chars@.len() - from,
    {
        assert(chars@.skip(from as int).skip(1) =~= chars@.skip(from + 1));
        from = from + 1;
    }
    let ghost front = chars@.skip(from as int);
    assert(without_front_slashes(chars@) == front);
    let mut to: usize = chars.len();
    assert(chars@.subrange(from as int, to as int) =~= front);
    while to > from && chars[to - 1] == '/'
        invariant
            from <= to <= chars@.len(),
            without_back_slashes(front) == without_back_slashes(
                chars@.subrange(from as int, to as int),
            ),
        decreases to - from,
    {
        assert(chars@.subrange(from as int, to as int).drop_last() =~= chars@.subrange(
            from as int,
            to - 1,
        ));
        to = to - 1;
    }
    text_between(&chars, from, to)
}

/// Where a document goes in the cloud folder.
pub open spec fn remote_path_of(root: Seq<char>, file_name: Seq<char>) -> Seq<char> {
    if without_slashes(root).len() == 0 {
        "/"@ + file_name
    } else {
        "/"@ + without_slashes(root) + "/"@ + file_name
    }
}

/// Where a document goes in the cloud folder.
pub fn remote_path(root: &str, file_name: &str) -> (path: String)
    ensures
        path@ == remote_path_of(root@, file_name@),
{
    let root = trim_slashes(root);
    let mut path = String::from_str("/");
    if !root.as_str().is_empty() {
        path.append(root.as_str());
        path.append("/");
    }
    path.append(file_name);
    path
}

} // verus!
