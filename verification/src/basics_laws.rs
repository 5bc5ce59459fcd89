//! What numbers, sets, failures and names keep on their way through the
//! library.

use crate::load::{failed_open, runtime_io_error, FailedOpen, IoError, IoErrorKind, RuntimeError};
use crate::outbox::{outbox_path, recovery_notice};
use crate::pane::PanelId;
use crate::panels::{
    holds_panel, open_failed_detail, panel_title, runtime_title, OpenPanels, PanelKind,
};
use crate::paths::{
    default_save_directory, document_package_title_for_path, imported_title,
};
use crate::saving::{
    native_export_plan, native_save_steps, DocumentExportFormat, ExportPlan, PackageStep,
};
use crate::text::{
    decimal_text, hexadecimal_text, numerals_read_back, padded_hexadecimal_text,
    padded_numerals_read_back, parse_number, same_text, text_between,
};
use crate::text_set::TextSet;
use vstd::prelude::*;

verus! {

/// A number that is written out reads back as itself, in tens and in
/// sixteens, padded or not.
pub proof fn a_number_reads_back(
    number: u128,
    texts: (String, String, String),
    width: usize,
    read: (&str, &str, &str),
    found: (Option<u128>, Option<u128>, Option<u128>),
)
    requires
        call_ensures(decimal_text, (number,), texts.0),
        call_ensures(hexadecimal_text, (number,), texts.1),
        call_ensures(padded_hexadecimal_text, (number, width), texts.2),
        read.0@ == texts.0@,
        read.1@ == texts.1@,
        read.2@ == texts.2@,
        call_ensures(parse_number, (read.0, 10u32, u128::MAX), found.0),
        call_ensures(parse_number, (read.1, 16u32, u128::MAX), found.1),
        call_ensures(parse_number, (read.2, 16u32, u128::MAX), found.2),
    ensures
        found.0 == Some(number),
        found.1 == Some(number),
        found.2 == Some(number),
{
    numerals_read_back(number as nat, 10, u128::MAX as int);
    numerals_read_back(number as nat, 16, u128::MAX as int);
    padded_numerals_read_back(number as nat, 16, width as int, u128::MAX as int);
}

/// Texts are the same where they have the same characters, and a part of a
/// text is what stands there.
pub proof fn a_part_is_what_stands_there(
    left: &str,
    right: &str,
    same: bool,
    chars: Vec<char>,
    from: usize,
    to: usize,
    part: String,
    i: int,
)
    requires
        call_ensures(same_text, (left, right), same),
        from <= to <= chars@.len(),
        call_ensures(text_between, (&chars, from, to), part),
    ensures
        same <==> left@ == right@,
        part@.len() == to - from,
        0 <= i < to - from ==> part@[i] == chars@[from + i],
{
}

/// A set holds what was put in and not taken out, and says of a text that is
/// put in whether it is new. Toggling turns one text over and no other.
pub proof fn a_set_holds_what_was_put_in(
    fresh: TextSet,
    put: &mut TextSet,
    again: &mut TextSet,
    taken: &mut TextSet,
    turned: &mut TextSet,
    text: &str,
    other: &str,
    new: (bool, bool),
    held: (bool, bool, bool, bool),
)
    requires
        call_ensures(TextSet::new, (), fresh),
        call_ensures(TextSet::insert, (put, text), new.0),
        *old(again) == *final(put),
        call_ensures(TextSet::insert, (again, text), new.1),
        call_ensures(TextSet::remove, (taken, text), ()),
        call_ensures(TextSet::toggle, (turned, text), ()),
        call_ensures(TextSet::contains, (&fresh, other), held.0),
        call_ensures(TextSet::contains, (&*final(put), other), held.1),
        call_ensures(TextSet::contains, (&*final(taken), other), held.2),
        call_ensures(TextSet::contains, (&*final(turned), other), held.3),
    ensures
        !held.0,
        new.0 <==> !old(put)@.contains(text@),
        !new.1,
        held.1 <==> other@ == text@ || old(put)@.contains(other@),
        held.2 <==> other@ != text@ && old(taken)@.contains(other@),
        other@ == text@ ==> (held.3 <==> !old(turned)@.contains(text@)),
        other@ != text@ ==> (held.3 <==> old(turned)@.contains(other@)),
{
}

/// A document begins blank only where its file is not there; any other failure
/// is told as it was, and as broken data where its kind is not known.
pub proof fn only_a_missing_file_begins_blank(
    error: RuntimeError,
    next: FailedOpen,
    io: IoError,
)
    requires
        call_ensures(failed_open, (error,), next),
        call_ensures(runtime_io_error, (error,), io),
    ensures
        next is BeginBlank <==> error.root_io_kind == Some(IoErrorKind::NotFound),
        next matches FailedOpen::Fail(told) ==> told.message@ == error.message@ && told.kind
            == io.kind,
        io.message@ == error.message@,
        error.root_io_kind matches Some(kind) ==> io.kind == kind,
        error.root_io_kind is None ==> io.kind == IoErrorKind::InvalidData,
{
}

/// A save writes the package once under its name, and brings the bound file up
/// to date after that, where there is one.
pub proof fn a_save_writes_the_package_first(
    name: &str,
    bound: bool,
    steps: Vec<PackageStep>,
    title: String,
)
    requires
        call_ensures(native_save_steps, (Some(name), bound), steps),
        call_ensures(document_package_title_for_path, (Some(name),), title),
    ensures
        title@ == name@,
        steps@.len() > 0,
        steps@[0] matches PackageStep::Checkpoint(own) && own@ == name@,
        bound <==> steps@.len() == 2,
        !bound <==> steps@.len() == 1,
        bound ==> (steps@[1] matches PackageStep::SyncBound(own) && own@ == name@),
{
}

/// A word processor's file is made from what the document shows, a package
/// from the document itself, and a PDF from both.
pub proof fn an_export_is_made_from_what_it_holds(
    format: DocumentExportFormat,
    name: &str,
    plan: ExportPlan,
)
    requires
        call_ensures(native_export_plan, (format, Some(name)), plan),
    ensures
        format == DocumentExportFormat::Docx ==> plan.projection && plan.package is None,
        format == DocumentExportFormat::Pdf ==> plan.projection && plan.package is Some,
        format == DocumentExportFormat::Native || format
            == DocumentExportFormat::NativeWithExtension ==> !plan.projection && (
        plan.package matches Some(title) && title@ == name@),
{
}

/// A panel is titled as it was asked for, else by its file, else as one
/// without a file; so is its document.
pub proof fn a_title_that_was_asked_for_comes_first(
    title: String,
    name: &str,
    untitled: String,
    texts: (String, String, String),
    documents: (String, String, String),
)
    requires
        call_ensures(panel_title, (Some(title), Some(name), untitled), texts.0),
        call_ensures(panel_title, (None::<String>, Some(name), untitled), texts.1),
        call_ensures(panel_title, (None::<String>, None::<&str>, untitled), texts.2),
        call_ensures(runtime_title, (Some(title), Some(name)), documents.0),
        call_ensures(runtime_title, (None::<String>, Some(name)), documents.1),
        call_ensures(runtime_title, (None::<String>, None::<&str>), documents.2),
    ensures
        texts.0@ == title@,
        texts.1@ == name@,
        texts.2@ == untitled@,
        documents.0@ == title@,
        documents.1@ == name@,
        documents.2@ == "Flowstate Document"@,
{
}

/// A file that did not open is said with its path and the reason, and what was
/// put away is said only where it is more than the limit.
pub proof fn failures_name_their_file(
    path: &str,
    reason: &str,
    text: String,
    recovered: usize,
    limit: usize,
    notice: Option<String>,
)
    requires
        call_ensures(open_failed_detail, (path, reason), text),
        call_ensures(recovery_notice, (recovered, limit), notice),
    ensures
        reason@.is_suffix_of(text@),
        exists|at: int| crate::prompt_laws::holds_at(text@, path@, at),
        notice is Some <==> recovered > limit,
{
    assert(text@.subrange(text@.len() - reason@.len(), text@.len() as int) =~= reason@);
    let at = "Failed to open "@.len() as int;
    assert(text@.subrange(at, at + path@.len()) =~= path@);
    assert(crate::prompt_laws::holds_at(text@, path@, at));
}

/// Two replicas of a document have outboxes of their own.
pub proof fn every_replica_has_its_outbox(
    document: &str,
    left: &str,
    right: &str,
    paths: (String, String),
)
    requires
        call_ensures(outbox_path, (document, left), paths.0),
        call_ensures(outbox_path, (document, right), paths.1),
    ensures
        paths.0@ == paths.1@ <==> left@ == right@,
{
    if paths.0@ == paths.1@ {
        let head = ("collaboration-outbox/"@ + document@ + "/"@).len() as int;
        let tail = ".flow-outbox"@.len() as int;
        assert(paths.0@.subrange(head, paths.0@.len() - tail) =~= left@);
        assert(paths.1@.subrange(head, paths.1@.len() - tail) =~= right@);
    }
}

/// A save is offered where the window works, else at home.
pub proof fn a_save_is_offered_where_one_works(
    working: Option<String>,
    home: Option<String>,
    directory: String,
)
    requires
        call_ensures(default_save_directory, (working, home), directory),
    ensures
        working matches Some(place) ==> directory@ == place@,
        working is None && home is Some ==> directory@ == (home->0)@,
        working is None && home is None ==> directory@ == "/"@,
{
}

/// An imported file's document is titled as a document of this kind.
pub proof fn an_import_is_titled_as_a_document(name: Option<&str>, title: Option<String>)
    requires
        call_ensures(imported_title, (name,), title),
    ensures
        title is Some <==> name is Some,
        title matches Some(text) ==> ".db8"@.is_suffix_of(text@),
{
    if let Some(text) = title {
        let end = ".db8"@;
        assert(text@.subrange(text@.len() - end.len(), text@.len() as int) =~= end);
    }
}

/// A panel that is put on top is on top as what it was put there, and nothing
/// opens or closes with it.
pub proof fn what_is_put_on_top_is_on_top(
    documents: &mut OpenPanels,
    flows: &mut OpenPanels,
    id: PanelId,
    list: Vec<PanelId>,
    holds: bool,
)
    requires
        call_ensures(OpenPanels::set_active_document, (documents, id), ()),
        call_ensures(OpenPanels::set_active_flow, (flows, id), ()),
        call_ensures(holds_panel, (&list, id), holds),
    ensures
        final(documents)@.active == Some((id, PanelKind::Document)),
        final(documents)@.documents == old(documents)@.documents,
        final(documents)@.flows == old(documents)@.flows,
        final(documents)@.pinned == old(documents)@.pinned,
        final(documents)@.speech == old(documents)@.speech,
        final(flows)@.active == Some((id, PanelKind::Flow)),
        final(flows)@.documents == old(flows)@.documents,
        final(flows)@.flows == old(flows)@.flows,
        final(flows)@.pinned == old(flows)@.pinned,
        final(flows)@.speech == old(flows)@.speech,
        holds <==> exists|i: int| 0 <= i < list@.len() && #[trigger] list@[i] == id,
{
}

} // verus!
