//! What an extension hears, what goes out for it, and what its panel keeps.

use crate::extension_host::{
    answer_or_closed, directory_prompt, directory_request, edits_request, editor_answer,
    grant_or_closed, host_access, host_error, host_json, label_request, no_document,
    refresh_failed, selection_answer, selection_from, selection_json, status_request, unavailable,
    DirectoryAccess, DirectoryGrantResponse, EditorHostRequest, EditorReply, HostError,
};
use crate::extensions::{
    discovery_failure, extension_index, only_installed, retain_expanded, DiscoveryIssue, ExtensionPanel,
    ExtensionView, PairTable, RunValue,
};
use crate::prompt_laws::holds_at;
use crate::text_set::TextSet;
use std::sync::mpsc::SyncSender;
use vstd::prelude::*;

verus! {

/// A request carries what it was made of, and nothing else.
pub proof fn a_request_carries_what_it_was_made_of(
    edits: &str,
    label: (&str, &str),
    message: &str,
    mode: DirectoryAccess,
    suggested: Option<&str>,
    reply: SyncSender<Result<String, HostError>>,
    grant_reply: SyncSender<Result<DirectoryGrantResponse, HostError>>,
    requests: (EditorHostRequest, EditorHostRequest, EditorHostRequest, EditorHostRequest),
)
    requires
        call_ensures(edits_request, (edits, reply), requests.0),
        call_ensures(label_request, (label.0, label.1), requests.1),
        call_ensures(status_request, (message,), requests.2),
        call_ensures(directory_request, (mode, suggested, grant_reply), requests.3),
    ensures
        requests.0 matches EditorHostRequest::ApplyEdits(text, to) && text@ == edits@ && to
            == reply,
        requests.1 matches EditorHostRequest::ActionLabel(action, text) && action@ == label.0@
            && text@ == label.1@,
        requests.2 matches EditorHostRequest::Status(text) && text@ == message@,
        requests.3 matches EditorHostRequest::DirectoryAccess(asked, path, to) && asked == mode
            && to == grant_reply && (path is Some <==> suggested is Some) && (path is Some ==> (
        path->0)@ == (suggested->0)@),
{
}

/// An extension hears the answer to its request; where the request was not
/// taken, or no answer came, it hears that the host has closed.
pub proof fn an_extension_hears_its_answer(
    sent: bool,
    reply: Option<Result<String, HostError>>,
    answer: Result<String, HostError>,
    granted: Option<Result<DirectoryGrantResponse, HostError>>,
    grant: Result<DirectoryGrantResponse, HostError>,
)
    requires
        call_ensures(answer_or_closed, (sent, reply), answer),
        call_ensures(grant_or_closed, (sent, granted), grant),
    ensures
        sent && reply is Some ==> answer == reply->0,
        !sent || reply is None ==> (answer matches Err(error) && error.code@
            == "host-unavailable"@),
        sent && granted is Some ==> grant == granted->0,
        !sent || granted is None ==> (grant matches Err(error) && error.code@
            == "host-unavailable"@),
{
}

/// Each error of the host has a code of its own, and says what it was told.
pub proof fn every_host_error_has_its_code(
    code: &str,
    message: &str,
    own: HostError,
    errors: (HostError, HostError, HostError, HostError, HostError),
)
    requires
        call_ensures(host_error, (code, message), own),
        call_ensures(no_document, (), errors.0),
        call_ensures(host_access, (message,), errors.1),
        call_ensures(host_json, (message,), errors.2),
        call_ensures(unavailable, (), errors.3),
        call_ensures(refresh_failed, (message,), errors.4),
    ensures
        own.code@ == code@,
        own.message@ == message@,
        errors.0.code@ == "no-document"@,
        errors.1.code@ == "editor-unavailable"@,
        errors.1.message@ == message@,
        errors.2.code@ == "json"@,
        errors.2.message@ == message@,
        errors.3.code@ == "host-unavailable"@,
        errors.4.code@ == "refresh-failed"@,
        errors.4.message@ == message@,
{
}

/// What the editor said goes back as it was said: its text as it is, and each
/// fault under its own code. Without a document there is nothing to ask.
pub proof fn the_editors_word_goes_back(
    text: String,
    fault: String,
    answers: (
        Result<String, HostError>,
        Result<String, HostError>,
        Result<String, HostError>,
        Result<String, HostError>,
        Result<String, HostError>,
    ),
)
    requires
        call_ensures(editor_answer, (Some(EditorReply::Text(text)),), answers.0),
        call_ensures(editor_answer, (None::<EditorReply>,), answers.1),
        call_ensures(editor_answer, (Some(EditorReply::Gone(fault)),), answers.2),
        call_ensures(editor_answer, (Some(EditorReply::NotJson(fault)),), answers.3),
        call_ensures(editor_answer, (Some(EditorReply::InvalidEdits(fault)),), answers.4),
    ensures
        answers.0 == Ok::<String, HostError>(text),
        answers.1 matches Err(error) && error.code@ == "no-document"@,
        answers.2 matches Err(error) && error.code@ == "editor-unavailable"@ && error.message@
            == fault@,
        answers.3 matches Err(error) && error.code@ == "json"@ && error.message@ == fault@,
        answers.4 matches Err(error) && error.code@ == "invalid-edits"@ && error.message@
            == fault@,
{
}

/// The selection that goes back is that of the document's snapshot, and a
/// fault goes back as it does for the document itself.
pub proof fn the_selection_is_the_snapshots(
    snapshot: String,
    text: &str,
    selection: Result<String, HostError>,
    reply: EditorReply,
    whole: Result<String, HostError>,
    answers: (Result<String, HostError>, Result<String, HostError>),
)
    requires
        text@ == snapshot@,
        call_ensures(selection_json, (text,), selection),
        call_ensures(selection_answer, (Some(EditorReply::Text(snapshot)),), answers.0),
        !(reply is Text),
        call_ensures(editor_answer, (Some(reply),), whole),
        call_ensures(selection_answer, (Some(reply),), answers.1),
    ensures
        selection is Ok <==> answers.0 is Ok,
        selection matches Ok(held) ==> (answers.0 matches Ok(given) && given@ == held@),
        selection matches Err(error) ==> (answers.0 matches Err(given) && given.code@
            == error.code@ && given.message@ == error.message@),
        answers.1 is Err && whole is Err,
        (answers.1->Err_0).code@ == (whole->Err_0).code@,
        (answers.1->Err_0).message@ == (whole->Err_0).message@,
{
}

/// A selection is what the snapshot holds under its key, and null where it
/// holds none.
pub proof fn a_selection_is_taken_as_it_is(
    member: Result<Option<String>, String>,
    selection: Result<String, HostError>,
)
    requires
        call_ensures(selection_from, (member,), selection),
    ensures
        selection is Ok <==> member is Ok,
        member matches Ok(Some(text)) ==> selection == Ok::<String, HostError>(text),
        member matches Ok(None) ==> (selection matches Ok(text) && text@ == "null"@),
        member matches Err(message) ==> (selection matches Err(error) && error.code@ == "json"@
            && error.message@ == message@),
{
}

/// The question before a directory is granted names the path that was
/// suggested, and says whether the directory could be written to.
pub proof fn the_question_names_the_directory(
    path: &str,
    questions: (String, String),
)
    requires
        call_ensures(directory_prompt, (DirectoryAccess::Read, Some(path)), questions.0),
        call_ensures(directory_prompt, (DirectoryAccess::ReadWrite, Some(path)), questions.1),
    ensures
        exists|at: int| holds_at(questions.0@, path@, at),
        exists|at: int| holds_at(questions.1@, path@, at),
        holds_at(questions.0@, "read-only"@, "This extension is requesting "@.len() as int),
        holds_at(questions.1@, "read and write"@, "This extension is requesting "@.len() as int),
{
    let start = "This extension is requesting "@;
    let middle = " access to a directory. Suggested path: "@;
    let read = "read-only"@;
    let write = "read and write"@;
    let a = start.len() as int;
    assert(questions.0@.subrange(a, a + read.len()) =~= read);
    assert(questions.1@.subrange(a, a + write.len()) =~= write);
    let b = a + read.len() + middle.len();
    let c = a + write.len() + middle.len();
    assert(questions.0@.subrange(b, b + path@.len()) =~= path@);
    assert(questions.1@.subrange(c, c + path@.len()) =~= path@);
    assert(holds_at(questions.0@, path@, b));
    assert(holds_at(questions.1@, path@, c));
}

/// A table gives back under two texts what was put there last.
pub proof fn a_pair_finds_what_was_put_under_it<V>(
    table: &mut PairTable<V>,
    first: String,
    second: String,
    value: V,
    a: &str,
    b: &str,
    found: Option<&V>,
)
    requires
        call_ensures(PairTable::<V>::insert, (table, first, second, value), ()),
        a@ == first@,
        b@ == second@,
        call_ensures(PairTable::<V>::get, (&*final(table), a, b), found),
    ensures
        found matches Some(held) && *held == value,
{
}

/// What is installed is taken as it came; a look that failed keeps what was
/// known and says why. Nothing of what runs changes.
pub proof fn a_failed_look_keeps_what_was_known(
    panel: &mut ExtensionPanel,
    result: Result<Vec<ExtensionView>, String>,
    id: Seq<char>,
)
    requires
        call_ensures(ExtensionPanel::take_installed, (panel, result), ()),
    ensures
        result matches Ok(extensions) ==> final(panel).extensions@ == extensions@
            && final(panel).error is None,
        result matches Err(error) ==> final(panel).extensions@ == old(panel).extensions@
            && final(panel).error == Some(error),
        final(panel).run_value(id) == old(panel).run_value(id),
        final(panel).output_text(id) == old(panel).output_text(id),
{
}

/// A cancel that could not be made is the failure of its own extension; one
/// that was made changes nothing by itself, and other extensions run on.
pub proof fn a_failed_cancel_is_its_own_extensions(
    panel: &mut ExtensionPanel,
    extension: &str,
    result: Result<(), String>,
    id: Seq<char>,
)
    requires
        call_ensures(ExtensionPanel::take_cancelled, (panel, extension, result), ()),
    ensures
        result is Ok || id != extension@ ==> final(panel).run_value(id)
            == old(panel).run_value(id),
        result matches Err(error) ==> final(panel).run_value(extension@) == RunValue::Failed(
            error@,
        ),
        final(panel).extensions@ == old(panel).extensions@,
        final(panel).error == old(panel).error,
        final(panel).output_text(id) == old(panel).output_text(id),
{
    assert(final(panel).run_value(id) == final(panel).run_value(id));
    assert(final(panel).run_value(extension@) == final(panel).run_value(extension@));
}

proof fn lemma_extension_index(extensions: Seq<ExtensionView>, id: Seq<char>, from: int)
    requires
        0 <= from <= extensions.len(),
    ensures
        match extension_index(extensions, id, from) {
            Some(at) => from <= at < extensions.len() && extensions[at].id@ == id,
            None => forall|i: int| from <= i < extensions.len() ==> (#[trigger] extensions[i]).id@
                != id,
        },
    decreases extensions.len() - from,
{
    if from < extensions.len() && extensions[from].id@ != id {
        lemma_extension_index(extensions, id, from + 1);
    }
}

/// Trust is asked for an extension that is installed, by the hash that it has
/// there.
pub proof fn trust_is_asked_for_what_is_installed(
    panel: ExtensionPanel,
    extension: &str,
    hash: Option<String>,
)
    requires
        call_ensures(ExtensionPanel::trust_subject, (&panel, extension), hash),
    ensures
        hash is Some <==> exists|i: int|
            0 <= i < panel.extensions@.len() && (#[trigger] panel.extensions@[i]).id@
                == extension@,
        hash matches Some(text) ==> exists|i: int|
            0 <= i < panel.extensions@.len() && (#[trigger] panel.extensions@[i]).id@
                == extension@ && panel.extensions@[i].component_hash@ == text@,
{
    lemma_extension_index(panel.extensions@, extension@, 0);
}

/// Some extension of an id is installed.
pub open spec fn is_installed(extensions: Seq<ExtensionView>, id: Seq<char>) -> bool {
    exists|i: int| 0 <= i < extensions.len() && (#[trigger] extensions[i]).id@ == id
}

/// What is unfolded stays so while it is installed, and nothing unfolds.
pub proof fn what_is_gone_folds_away(
    expanded: &mut TextSet,
    extensions: Vec<ExtensionView>,
    id: Seq<char>,
)
    requires
        call_ensures(retain_expanded, (expanded, &extensions), ()),
    ensures
        final(expanded)@.contains(id) <==> old(expanded)@.contains(id) && is_installed(
            extensions@,
            id,
        ),
{
    lemma_extension_index(extensions@, id, 0);
    assert(only_installed(old(expanded)@, extensions@, final(expanded)@));
}

/// Faults fail the look for extensions only where nothing was found.
pub proof fn faults_count_where_nothing_was_found(
    found: usize,
    issues: Vec<DiscoveryIssue>,
    failure: Option<String>,
)
    requires
        call_ensures(discovery_failure, (found, &issues), failure),
    ensures
        found > 0 ==> failure is None,
        issues@.len() == 0 ==> failure is None,
        found == 0 && issues@.len() > 0 ==> failure is Some,
{
}

} // verus!
