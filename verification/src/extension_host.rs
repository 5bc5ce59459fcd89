//! Serving a running extension: the requests it makes of the editor and the
//! panel, and their answers.

use crate::extensions::ExtensionPanelEvent;
use std::sync::mpsc::{Receiver, SyncSender};
use vstd::prelude::*;
use vstd::string::StringExecFns;

verus! {

/// An answer that is an error.
#[derive(Debug)]
pub struct HostError {
    pub code: String,
    pub message: String,
}

/// The error reads so.
pub open spec fn host_error_is(error: HostError, code: Seq<char>, message: Seq<char>) -> bool {
    error.code@ == code && error.message@ == message
}

/// An error of a code.
pub fn host_error(code: &str, message: &str) -> (error: HostError)
    ensures
        host_error_is(error, code@, message@),
{
    HostError { code: String::from_str(code), message: String::from_str(message) }
}

/// No document is on top.
pub fn no_document() -> (error: HostError)
    ensures
        host_error_is(error, "no-document"@, "No rich document is active"@),
{
    host_error("no-document", "No rich document is active")
}

/// The editor is gone.
pub fn host_access(message: &str) -> (error: HostError)
    ensures
        host_error_is(error, "editor-unavailable"@, message@),
{
    host_error("editor-unavailable", message)
}

/// A text that should be JSON is not.
pub fn host_json(message: &str) -> (error: HostError)
    ensures
        host_error_is(error, "json"@, message@),
{
    host_error("json", message)
}

/// The host has closed.
pub fn unavailable() -> (error: HostError)
    ensures
        host_error_is(error, "host-unavailable"@, "Flowstate closed the extension host"@),
{
    host_error("host-unavailable", "Flowstate closed the extension host")
}

#[derive(Clone, Copy, Debug, PartialEq, Eq, Structural)]
pub enum DirectoryAccess {
    Read,
    ReadWrite,
}

/// A granted directory.
#[derive(Debug)]
pub struct DirectoryGrantResponse {
    pub grant_id: String,
    pub mount_path: String,
    pub available_next_invocation: bool,
}

/// The sending end of a channel with room for so many.
#[verifier::external_type_specification]
#[verifier::external_body]
#[verifier::reject_recursive_types(T)]
pub struct ExSyncSender<T>(std::sync::mpsc::SyncSender<T>);

/// The receiving end of a channel.
#[verifier::external_type_specification]
#[verifier::external_body]
#[verifier::reject_recursive_types(T)]
pub struct ExReceiver<T>(std::sync::mpsc::Receiver<T>);

/// A request that an extension makes, with the channel for its answer.
pub enum EditorHostRequest {
    Snapshot(SyncSender<Result<String, HostError>>),
    Selection(SyncSender<Result<String, HostError>>),
    ApplyEdits(String, SyncSender<Result<String, HostError>>),
    Refresh(SyncSender<Result<String, HostError>>),
    ActionLabel(String, String),
    Status(String),
    DirectoryAccess(
        DirectoryAccess,
        Option<String>,
        SyncSender<Result<DirectoryGrantResponse, HostError>>,
    ),
}

/// The request hands these edits on, and where the answer goes.
pub open spec fn hands_edits(
    request: EditorHostRequest,
    edits_json: Seq<char>,
    reply: SyncSender<Result<String, HostError>>,
) -> bool {
    request matches EditorHostRequest::ApplyEdits(edits, to) && edits@ == edits_json && to == reply
}

/// The request labels this action so.
pub open spec fn hands_label(
    request: EditorHostRequest,
    action_id: Seq<char>,
    label: Seq<char>,
) -> bool {
    request matches EditorHostRequest::ActionLabel(action, text) && action@ == action_id && text@
        == label
}

/// The request says this.
pub open spec fn hands_status(request: EditorHostRequest, message: Seq<char>) -> bool {
    request matches EditorHostRequest::Status(text) && text@ == message
}

/// The request asks for a directory: how it is to be used, where it may be,
/// and where the answer goes.
pub open spec fn asks_for_directory(
    request: EditorHostRequest,
    mode: DirectoryAccess,
    suggested_path: Option<&str>,
    reply: SyncSender<Result<DirectoryGrantResponse, HostError>>,
) -> bool {
    request matches EditorHostRequest::DirectoryAccess(asked, path, to) && asked == mode && to
        == reply && match (path, suggested_path) {
        (Some(path), Some(suggested)) => path@ == suggested@,
        (None, None) => true,
        _ => false,
    }
}

/// The request that edits the document.
pub fn edits_request(edits_json: &str, reply: SyncSender<Result<String, HostError>>) -> (request:
    EditorHostRequest)
    ensures
        hands_edits(request, edits_json@, reply),
{
    EditorHostRequest::ApplyEdits(String::from_str(edits_json), reply)
}

/// The request that labels an action anew.
pub fn label_request(action_id: &str, label: &str) -> (request: EditorHostRequest)
    ensures
        hands_label(request, action_id@, label@),
{
    EditorHostRequest::ActionLabel(String::from_str(action_id), String::from_str(label))
}

/// The request that says what an extension is doing.
pub fn status_request(message: &str) -> (request: EditorHostRequest)
    ensures
        hands_status(request, message@),
{
    EditorHostRequest::Status(String::from_str(message))
}

/// The request for a directory.
pub fn directory_request(
    mode: DirectoryAccess,
    suggested_path: Option<&str>,
    reply: SyncSender<Result<DirectoryGrantResponse, HostError>>,
) -> (request: EditorHostRequest)
    ensures
        asks_for_directory(request, mode, suggested_path, reply),
{
    let path = match suggested_path {
        Some(path) => Some(String::from_str(path)),
        None => None,
    };
    EditorHostRequest::DirectoryAccess(mode, path, reply)
}

/// `std::sync::mpsc::sync_channel` makes a channel with room for so many.
/// What passes through it is up to its two ends, so nothing is said of them.
#[verifier::external_body]
fn channel<T>(capacity: usize) -> (ends: (SyncSender<T>, Receiver<T>)) {
    std::sync::mpsc::sync_channel(capacity)
}

/// `SyncSender::send`, and whether the other end was still there, which is up
/// to whoever holds it. It waits while the channel is full.
#[verifier::external_body]
fn send<T>(sender: &SyncSender<T>, value: T) -> (sent: bool) {
    sender.send(value).is_ok()
}

/// `Receiver::recv`: what the other end sent, or none once that is gone. It
/// waits for one of the two, and which it is is up to the other end.
#[verifier::external_body]
fn receive<T>(receiver: &Receiver<T>) -> (value: Option<T>) {
    receiver.recv().ok()
}

/// The two ends came from a call that makes a channel with room for so many.
pub closed spec fn made<T>(capacity: usize, sender: SyncSender<T>, receiver: Receiver<T>) -> bool {
    call_ensures(channel::<T>, (capacity,), (sender, receiver))
}

/// The value was sent, and this is whether the other end was still there.
pub closed spec fn put<T>(sender: SyncSender<T>, value: T, sent: bool) -> bool {
    call_ensures(send::<T>, (&sender, value), sent)
}

/// The other end was waited for, and this came.
pub closed spec fn came<T>(receiver: Receiver<T>, value: Option<T>) -> bool {
    call_ensures(receive::<T>, (&receiver,), value)
}

/// What came in reply to a request; nothing is waited for where the request
/// was not taken.
pub open spec fn replied<T>(receiver: Receiver<T>, sent: bool, reply: Option<T>) -> bool {
    if sent {
        came(receiver, reply)
    } else {
        reply is None
    }
}

/// What an extension hears: the answer, or that the host has closed where
/// the request was not taken or no answer came.
pub open spec fn hears<A>(
    answer: Result<A, HostError>,
    sent: bool,
    reply: Option<Result<A, HostError>>,
) -> bool {
    match (sent, reply) {
        (true, Some(reply)) => answer == reply,
        _ => answer is Err && host_error_is(
            answer->Err_0,
            "host-unavailable"@,
            "Flowstate closed the extension host"@,
        ),
    }
}

/// The request was sent, its reply waited for, and this is what the extension
/// hears of it.
pub open spec fn exchanged<A>(
    requests: SyncSender<EditorHostRequest>,
    request: EditorHostRequest,
    replies: Receiver<Result<A, HostError>>,
    answer: Result<A, HostError>,
) -> bool {
    exists|sent: bool, reply: Option<Result<A, HostError>>|
        #![trigger put(requests, request, sent), replied(replies, sent, reply)]
        put(requests, request, sent) && replied(replies, sent, reply) && hears(answer, sent, reply)
}

/// What an extension hears: the answer, or that the host has closed where
/// the request was not taken or no answer came.
pub fn answer_or_closed(sent: bool, reply: Option<Result<String, HostError>>) -> (answer: Result<
    String,
    HostError,
>)
    ensures
        hears(answer, sent, reply),
{
    match (sent, reply) {
        (true, Some(reply)) => reply,
        _ => Err(unavailable()),
    }
}

/// What an extension hears about a directory, as for other answers.
pub fn grant_or_closed(
    sent: bool,
    reply: Option<Result<DirectoryGrantResponse, HostError>>,
) -> (answer: Result<DirectoryGrantResponse, HostError>)
    ensures
        hears(answer, sent, reply),
{
    match (sent, reply) {
        (true, Some(reply)) => reply,
        _ => Err(unavailable()),
    }
}

/// The extension's end of the bridge to the editor.
pub struct EditorHostBridge {
    pub requests: SyncSender<EditorHostRequest>,
}

impl EditorHostBridge {
    /// A bridge with room for so many requests, and the end that serves them.
    pub fn bounded(capacity: usize) -> (ends: (Self, Receiver<EditorHostRequest>))
        ensures
            made(capacity, ends.0.requests, ends.1),
    {
        let (requests, receiver) = channel(capacity);
        (EditorHostBridge { requests }, receiver)
    }

    /// Sends a request and waits for its answer.
    fn exchange(
        &self,
        request: EditorHostRequest,
        replies: Receiver<Result<String, HostError>>,
    ) -> (answer: Result<String, HostError>)
        ensures
            exchanged(self.requests, request, replies, answer),
    {
        let ghost asked = request;
        let sent = send(&self.requests, request);
        let reply = if sent {
            receive(&replies)
        } else {
            None
        };
        assert(put(self.requests, asked, sent));
        assert(replied(replies, sent, reply));
        answer_or_closed(sent, reply)
    }

    /// The document as a text.
    pub fn snapshot(&mut self) -> (answer: Result<String, HostError>)
        ensures
            *final(self) == *old(self),
            exists|
                reply: SyncSender<Result<String, HostError>>,
                replies: Receiver<Result<String, HostError>>,
            | #[trigger]
                made(1, reply, replies) && exchanged(
                    old(self).requests,
                    EditorHostRequest::Snapshot(reply),
                    replies,
                    answer,
                ),
    {
        let (reply, replies) = channel(1);
        assert(made(1, reply, replies));
        self.exchange(EditorHostRequest::Snapshot(reply), replies)
    }

    /// The selection as a text.
    pub fn selection(&mut self) -> (answer: Result<String, HostError>)
        ensures
            *final(self) == *old(self),
            exists|
                reply: SyncSender<Result<String, HostError>>,
                replies: Receiver<Result<String, HostError>>,
            | #[trigger]
                made(1, reply, replies) && exchanged(
                    old(self).requests,
                    EditorHostRequest::Selection(reply),
                    replies,
                    answer,
                ),
    {
        let (reply, replies) = channel(1);
        assert(made(1, reply, replies));
        self.exchange(EditorHostRequest::Selection(reply), replies)
    }

    /// Edits the document.
    pub fn apply_edits(&mut self, edits_json: &str) -> (answer: Result<String, HostError>)
        ensures
            *final(self) == *old(self),
            exists|
                reply: SyncSender<Result<String, HostError>>,
                replies: Receiver<Result<String, HostError>>,
                request: EditorHostRequest,
            |
                #![trigger made(1, reply, replies), hands_edits(request, edits_json@, reply)]
                made(1, reply, replies) && hands_edits(request, edits_json@, reply) && exchanged(
                    old(self).requests,
                    request,
                    replies,
                    answer,
                ),
    {
        let (reply, replies) = channel(1);
        assert(made(1, reply, replies));
        self.exchange(edits_request(edits_json, reply), replies)
    }

    /// Reads the document from its file again.
    pub fn refresh_from_disk(&mut self) -> (answer: Result<String, HostError>)
        ensures
            *final(self) == *old(self),
            exists|
                reply: SyncSender<Result<String, HostError>>,
                replies: Receiver<Result<String, HostError>>,
            | #[trigger]
                made(1, reply, replies) && exchanged(
                    old(self).requests,
                    EditorHostRequest::Refresh(reply),
                    replies,
                    answer,
                ),
    {
        let (reply, replies) = channel(1);
        assert(made(1, reply, replies));
        self.exchange(EditorHostRequest::Refresh(reply), replies)
    }

    /// Labels an action anew.
    pub fn set_action_label(&mut self, action_id: &str, label: &str) -> (answer: Result<
        (),
        HostError,
    >)
        ensures
            *final(self) == *old(self),
            exists|request: EditorHostRequest, sent: bool|
                #![trigger put(old(self).requests, request, sent)]
                hands_label(request, action_id@, label@) && put(old(self).requests, request, sent)
                    && hears(answer, sent, Some(Ok(()))),
    {
        let request = label_request(action_id, label);
        let ghost asked = request;
        let sent = send(&self.requests, request);
        assert(put(self.requests, asked, sent));
        if sent {
            Ok(())
        } else {
            Err(unavailable())
        }
    }

    /// Says what it is doing; nobody need hear it.
    pub fn set_status(&mut self, message: &str)
        ensures
            *final(self) == *old(self),
            exists|request: EditorHostRequest, sent: bool|
                #![trigger put(old(self).requests, request, sent)]
                hands_status(request, message@) && put(old(self).requests, request, sent),
    {
        let request = status_request(message);
        let ghost asked = request;
        let _sent = send(&self.requests, request);
        assert(put(self.requests, asked, _sent));
    }

    /// Asks for a directory.
    pub fn request_directory_access(
        &mut self,
        mode: DirectoryAccess,
        suggested_path: Option<&str>,
    ) -> (answer: Result<DirectoryGrantResponse, HostError>)
        ensures
            *final(self) == *old(self),
            exists|
                reply: SyncSender<Result<DirectoryGrantResponse, HostError>>,
                replies: Receiver<Result<DirectoryGrantResponse, HostError>>,
                request: EditorHostRequest,
            |
                #![trigger made(1, reply, replies), asks_for_directory(request, mode, suggested_path, reply)]
                made(1, reply, replies) && asks_for_directory(request, mode, suggested_path, reply)
                    && exchanged(old(self).requests, request, replies, answer),
    {
        let (reply, replies) = channel(1);
        assert(made(1, reply, replies));
        let request = directory_request(mode, suggested_path, reply);
        let ghost asked = request;
        let sent = send(&self.requests, request);
        let answer = if sent {
            receive(&replies)
        } else {
            None
        };
        assert(put(self.requests, asked, sent));
        assert(replied(replies, sent, answer));
        grant_or_closed(sent, answer)
    }
}

/// What an object in JSON holds under a key, written as JSON: none where the
/// key is not there, an error where the text is not JSON.
pub uninterp spec fn json_member_of(text: Seq<char>, key: Seq<char>) -> Result<
    Option<Seq<char>>,
    Seq<char>,
>;

/// `serde_json::from_str`, `Value::get` and `serde_json::to_string`: what the
/// text holds under a key is a function of the two, here by its name.
#[verifier::external_body]
fn json_member(text: &str, key: &str) -> (member: Result<Option<String>, String>)
    ensures
        match (member, json_member_of(text@, key@)) {
            (Ok(Some(own)), Ok(Some(named))) => own@ == named,
            (Ok(None), Ok(None)) => true,
            (Err(own), Err(named)) => own@ == named,
            _ => false,
        },
{
    match serde_json::from_str::<serde_json::Value>(text) {
        Ok(value) => match value.get(key) {
            Some(member) => match serde_json::to_string(member) {
                Ok(written) => Ok(Some(written)),
                Err(error) => Err(error.to_string()),
            },
            None => Ok(None),
        },
        Err(error) => Err(error.to_string()),
    }
}

/// The selection from what a snapshot holds under its key: nothing is
/// written as null.
pub fn selection_from(member: Result<Option<String>, String>) -> (selection: Result<
    String,
    HostError,
>)
    ensures
        match (member, selection) {
            (Ok(Some(text)), Ok(selection)) => selection == text,
            (Ok(None), Ok(selection)) => selection@ == "null"@,
            (Err(message), Err(error)) => host_error_is(error, "json"@, message@),
            _ => false,
        },
{
    match member {
        Ok(Some(text)) => Ok(text),
        Ok(None) => Ok(String::from_str("null")),
        Err(message) => Err(host_json(message.as_str())),
    }
}

/// The selection that a snapshot holds.
pub fn selection_json(snapshot: &str) -> (selection: Result<String, HostError>)
    ensures
        match (json_member_of(snapshot@, "selection"@), selection) {
            (Ok(Some(text)), Ok(selection)) => selection@ == text,
            (Ok(None), Ok(selection)) => selection@ == "null"@,
            (Err(message), Err(error)) => host_error_is(error, "json"@, message),
            _ => false,
        },
{
    selection_from(json_member(snapshot, "selection"))
}

/// What an editor gave back for a read or an edit.
#[derive(Debug)]
pub enum EditorReply {
    Text(String),
    /// The editor is gone.
    Gone(String),
    /// The document could not be written as JSON.
    NotJson(String),
    /// The edits were refused.
    InvalidEdits(String),
}

/// The answer to a request for the document, or to edits of it: needs one on
/// top.
pub fn editor_answer(reply: Option<EditorReply>) -> (answer: Result<String, HostError>)
    ensures
        match reply {
            None => answer is Err && host_error_is(
                answer->Err_0,
                "no-document"@,
                "No rich document is active"@,
            ),
            Some(EditorReply::Text(text)) => answer == Ok::<String, HostError>(text),
            Some(EditorReply::Gone(error)) => answer is Err && host_error_is(
                answer->Err_0,
                "editor-unavailable"@,
                error@,
            ),
            Some(EditorReply::NotJson(error)) => answer is Err && host_error_is(
                answer->Err_0,
                "json"@,
                error@,
            ),
            Some(EditorReply::InvalidEdits(error)) => answer is Err && host_error_is(
                answer->Err_0,
                "invalid-edits"@,
                error@,
            ),
        },
{
    match reply {
        None => Err(no_document()),
        Some(EditorReply::Text(text)) => Ok(text),
        Some(EditorReply::Gone(error)) => Err(host_access(error.as_str())),
        Some(EditorReply::NotJson(error)) => Err(host_json(error.as_str())),
        Some(EditorReply::InvalidEdits(error)) => Err(
            host_error("invalid-edits", error.as_str()),
        ),
    }
}

/// The answer to a request for the selection: that of the document, and then
/// its selection.
pub fn selection_answer(reply: Option<EditorReply>) -> (answer: Result<String, HostError>)
    ensures
        match reply {
            Some(EditorReply::Text(text)) => match (
                json_member_of(text@, "selection"@),
                answer,
            ) {
                (Ok(Some(held)), Ok(selection)) => selection@ == held,
                (Ok(None), Ok(selection)) => selection@ == "null"@,
                (Err(message), Err(error)) => host_error_is(error, "json"@, message),
                _ => false,
            },
            None => answer is Err && host_error_is(
                answer->Err_0,
                "no-document"@,
                "No rich document is active"@,
            ),
            Some(EditorReply::Gone(error)) => answer is Err && host_error_is(
                answer->Err_0,
                "editor-unavailable"@,
                error@,
            ),
            Some(EditorReply::NotJson(error)) => answer is Err && host_error_is(
                answer->Err_0,
                "json"@,
                error@,
            ),
            Some(EditorReply::InvalidEdits(error)) => answer is Err && host_error_is(
                answer->Err_0,
                "invalid-edits"@,
                error@,
            ),
        },
{
    match reply {
        Some(EditorReply::Text(text)) => selection_json(text.as_str()),
        other => editor_answer(other),
    }
}

/// A request as it is served: what it asks, without the channel for its
/// answer.
#[derive(Debug)]
pub enum HostRequest {
    Snapshot,
    Selection,
    ApplyEdits(String),
    Refresh,
    ActionLabel(String, String),
    Status(String),
    DirectoryAccess(DirectoryAccess, Option<String>),
}

/// What serving a request does first.
#[derive(Debug)]
pub enum HostStep {
    /// Answer at once.
    Refuse(HostError),
    /// Read the document, and answer with it.
    ReadDocument,
    /// Read the document, and answer with its selection.
    ReadSelection,
    /// Edit the document, and answer with what came of it.
    Edit(String),
    /// Look at the document's file and whether it has unsaved changes.
    LookAtFile,
    /// Tell the panel; nobody waits for an answer.
    Tell(ExtensionPanelEvent),
    /// Ask the user whether to grant a directory.
    AskDirectory(String),
}

/// What serving a request does first. Reads and edits need a document on top;
/// labels and what it says go to the panel.
pub fn serve(extension_id: &str, has_document: bool, request: HostRequest) -> (step: HostStep)
    ensures
        match (request, step) {
            (HostRequest::Snapshot, HostStep::ReadDocument) => has_document,
            (HostRequest::Selection, HostStep::ReadSelection) => has_document,
            (HostRequest::ApplyEdits(edits), HostStep::Edit(text)) => has_document && text == edits,
            (HostRequest::Refresh, HostStep::LookAtFile) => has_document,
            (
                HostRequest::Snapshot
                | HostRequest::Selection
                | HostRequest::ApplyEdits(_)
                | HostRequest::Refresh,
                HostStep::Refuse(error),
            ) => !has_document && host_error_is(
                error,
                "no-document"@,
                "No rich document is active"@,
            ),
            (HostRequest::ActionLabel(action, text), HostStep::Tell(event)) => event
                matches ExtensionPanelEvent::ActionLabel { extension_id: id, action_id, label }
                && id@ == extension_id@ && action_id == action && label == text,
            (HostRequest::Status(text), HostStep::Tell(event)) => event
                matches ExtensionPanelEvent::Output { extension_id: id, output } && id@
                == extension_id@ && output == text,
            (
                HostRequest::DirectoryAccess(mode, suggested),
                HostStep::AskDirectory(detail),
            ) => detail@ == directory_prompt_text(
                mode,
                match suggested {
                    Some(path) => Some(path@),
                    None => None,
                },
            ),
            _ => false,
        },
{
    match request {
        HostRequest::ActionLabel(action_id, label) => HostStep::Tell(
            ExtensionPanelEvent::ActionLabel {
                extension_id: String::from_str(extension_id),
                action_id,
                label,
            },
        ),
        HostRequest::Status(output) => HostStep::Tell(
            ExtensionPanelEvent::Output { extension_id: String::from_str(extension_id), output },
        ),
        HostRequest::DirectoryAccess(mode, suggested) => {
            let detail = match &suggested {
                Some(path) => directory_prompt(mode, Some(path.as_str())),
                None => directory_prompt(mode, None),
            };
            HostStep::AskDirectory(detail)
        },
        HostRequest::Snapshot => if has_document {
            HostStep::ReadDocument
        } else {
            HostStep::Refuse(no_document())
        },
        HostRequest::Selection => if has_document {
            HostStep::ReadSelection
        } else {
            HostStep::Refuse(no_document())
        },
        HostRequest::ApplyEdits(edits) => if has_document {
            HostStep::Edit(edits)
        } else {
            HostStep::Refuse(no_document())
        },
        HostRequest::Refresh => if has_document {
            HostStep::LookAtFile
        } else {
            HostStep::Refuse(no_document())
        },
    }
}

/// How reading a document from its file again goes on.
#[derive(Debug)]
pub enum RefreshStep {
    /// Read this file.
    Read(String),
    /// Ask whether to give up unsaved changes, and then read this file.
    AskDiscard(String),
    Refuse(HostError),
}

/// How reading a document from its file again begins, from the document's
/// file and whether it has unsaved changes: needs a file, and unsaved changes
/// are asked about. An editor that is gone says why.
pub fn refresh_begin(document: Result<(Option<String>, bool), String>) -> (step: RefreshStep)
    ensures
        match (document, step) {
            (Err(message), RefreshStep::Refuse(error)) => host_error_is(
                error,
                "editor-unavailable"@,
                message@,
            ),
            (Ok((None, _)), RefreshStep::Refuse(error)) => host_error_is(
                error,
                "unsaved-document"@,
                "The active document has no on-disk path"@,
            ),
            (Ok((Some(path), dirty)), RefreshStep::Read(read)) => !dirty && read == path,
            (Ok((Some(path), dirty)), RefreshStep::AskDiscard(read)) => dirty && read == path,
            _ => false,
        },
{
    match document {
        Err(message) => RefreshStep::Refuse(host_access(message.as_str())),
        Ok((None, _)) => RefreshStep::Refuse(
            host_error("unsaved-document", "The active document has no on-disk path"),
        ),
        Ok((Some(path), dirty)) => if dirty {
            RefreshStep::AskDiscard(path)
        } else {
            RefreshStep::Read(path)
        },
    }
}

/// How reading goes on after the question: only on the first button.
pub fn refresh_after_answer(path: String, button: Option<usize>) -> (step: RefreshStep)
    ensures
        match step {
            RefreshStep::Read(read) => button == Some(0usize) && read == path,
            RefreshStep::Refuse(error) => button != Some(0usize) && host_error_is(
                error,
                "refresh-cancelled"@,
                "Document refresh was cancelled"@,
            ),
            RefreshStep::AskDiscard(_) => false,
        },
{
    match button {
        Some(0) => RefreshStep::Read(path),
        _ => RefreshStep::Refuse(
            host_error("refresh-cancelled", "Document refresh was cancelled"),
        ),
    }
}

/// The answer where the file could not be read.
pub fn refresh_failed(message: &str) -> (error: HostError)
    ensures
        host_error_is(error, "refresh-failed"@, message@),
{
    host_error("refresh-failed", message)
}

/// Unsaved changes are never given up unasked: a file is read over them only
/// after the first button.
pub proof fn unsaved_changes_are_asked_about(
    path: String,
    dirty: bool,
    begin: RefreshStep,
    button: Option<usize>,
    after: RefreshStep,
)
    requires
        dirty,
        call_ensures(refresh_begin, (Ok::<(Option<String>, bool), String>((Some(path), dirty)),), begin),
        call_ensures(refresh_after_answer, (path, button), after),
    ensures
        begin is AskDiscard,
        after is Read ==> button == Some(0usize),
{
}

/// The question before a directory is granted.
pub open spec fn directory_prompt_text(
    mode: DirectoryAccess,
    suggested_path: Option<Seq<char>>,
) -> Seq<char> {
    "This extension is requesting "@ + (match mode {
        DirectoryAccess::Read => "read-only"@,
        DirectoryAccess::ReadWrite => "read and write"@,
    }) + " access to a directory. Suggested path: "@ + (match suggested_path {
        Some(path) => path,
        None => "none"@,
    }) + ". The grant takes effect on its next invocation."@
}

/// The question before a directory is granted.
pub fn directory_prompt(mode: DirectoryAccess, suggested_path: Option<&str>) -> (detail: String)
    ensures
        detail@ == directory_prompt_text(
            mode,
            match suggested_path {
                Some(path) => Some(path@),
                None => None,
            },
        ),
{
    let mut detail = String::from_str("This extension is requesting ");
    detail.append(
        match mode {
            DirectoryAccess::Read => "read-only",
            DirectoryAccess::ReadWrite => "read and write",
        },
    );
    detail.append(" access to a directory. Suggested path: ");
    detail.append(
        match suggested_path {
            Some(path) => path,
            None => "none",
        },
    );
    detail.append(". The grant takes effect on its next invocation.");
    detail
}

/// What picking a directory brought.
#[derive(Debug)]
pub enum DirectoryPick {
    /// The first of the picked directories, none where the list was empty.
    Picked(Option<String>),
    Cancelled,
    /// The window is gone.
    Gone(String),
}

/// The directory to grant, once the user was asked and has picked; else the
/// answer that refuses it.
pub fn directory_choice(approved: bool, pick: DirectoryPick, has_runtime: bool) -> (choice: Result<
    String,
    HostError,
>)
    ensures
        if !approved {
            choice is Err && host_error_is(
                choice->Err_0,
                "directory-access-cancelled"@,
                "Directory access was not granted"@,
            )
        } else {
            match pick {
                DirectoryPick::Picked(Some(path)) => if has_runtime {
                    choice == Ok::<String, HostError>(path)
                } else {
                    choice is Err && host_error_is(
                        choice->Err_0,
                        "runtime-unavailable"@,
                        "Extension runtime is unavailable"@,
                    )
                },
                DirectoryPick::Picked(None) => choice is Err && host_error_is(
                    choice->Err_0,
                    "directory-access-cancelled"@,
                    "No directory was selected"@,
                ),
                DirectoryPick::Cancelled => choice is Err && host_error_is(
                    choice->Err_0,
                    "directory-access-cancelled"@,
                    "Directory access was not granted"@,
                ),
                DirectoryPick::Gone(error) => choice is Err && host_error_is(
                    choice->Err_0,
                    "editor-unavailable"@,
                    error@,
                ),
            }
        },
{
    if !approved {
        return Err(host_error("directory-access-cancelled", "Directory access was not granted"));
    }
    match pick {
        DirectoryPick::Picked(Some(path)) => if has_runtime {
            Ok(path)
        } else {
            Err(host_error("runtime-unavailable", "Extension runtime is unavailable"))
        },
        DirectoryPick::Picked(None) => Err(
            host_error("directory-access-cancelled", "No directory was selected"),
        ),
        DirectoryPick::Cancelled => Err(
            host_error("directory-access-cancelled", "Directory access was not granted"),
        ),
        DirectoryPick::Gone(error) => Err(host_access(error.as_str())),
    }
}

/// How a run ended.
#[derive(Debug)]
pub enum RunResult {
    /// It finished, and wrote this to its two outputs.
    Finished { stdout: Vec<u8>, stderr: Vec<u8> },
    Cancelled,
    Failed(String),
}

/// Bytes as text, with a mark in place of what is not UTF-8.
pub uninterp spec fn lossy_text(bytes: Seq<u8>) -> Seq<char>;

/// `String::from_utf8_lossy` reads bytes as text; the text is named, not
/// spelled out.
#[verifier::external_body]
fn read_lossy(bytes: &Vec<u8>) -> (text: String)
    ensures
        text@ == lossy_text(bytes@),
{
    String::from_utf8_lossy(bytes).into_owned()
}

/// The news of a run's end: what it wrote comes first, where it wrote
/// anything.
pub fn run_ended(extension_id: &str, result: RunResult) -> (events: Vec<ExtensionPanelEvent>)
    ensures
        match result {
            RunResult::Finished { stdout, stderr } => {
                let output = stdout@ + stderr@;
                &&& events@.len() == (if output.len() > 0 {
                    2int
                } else {
                    1
                })
                &&& output.len() > 0 ==> (events@[0] matches ExtensionPanelEvent::Output {
                    extension_id: id,
                    output: said,
                } && id@ == extension_id@ && said@ == lossy_text(output))
                &&& events@.last() matches ExtensionPanelEvent::Finished { extension_id: id } && id@
                    == extension_id@
            },
            RunResult::Cancelled => {
                &&& events@.len() == 1
                &&& events@[0] matches ExtensionPanelEvent::Cancelled { extension_id: id } && id@
                    == extension_id@
            },
            RunResult::Failed(error) => {
                &&& events@.len() == 1
                &&& events@[0] matches ExtensionPanelEvent::Failed { extension_id: id, message }
                    && id@ == extension_id@ && message == error
            },
        },
{
    let mut events: Vec<ExtensionPanelEvent> = Vec::new();
    match result {
        RunResult::Finished { stdout, stderr } => {
            let mut bytes = stdout;
            let mut rest = stderr;
            bytes.append(&mut rest);
            if bytes.len() > 0 {
                events.push(
                    ExtensionPanelEvent::Output {
                        extension_id: String::from_str(extension_id),
                        output: read_lossy(&bytes),
                    },
                );
            }
            events.push(
                ExtensionPanelEvent::Finished { extension_id: String::from_str(extension_id) },
            );
        },
        RunResult::Cancelled => {
            events.push(
                ExtensionPanelEvent::Cancelled { extension_id: String::from_str(extension_id) },
            );
        },
        RunResult::Failed(message) => {
            events.push(
                ExtensionPanelEvent::Failed {
                    extension_id: String::from_str(extension_id),
                    message,
                },
            );
        },
    }
    events
}

} // verus!
