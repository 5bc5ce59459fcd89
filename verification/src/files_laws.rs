//! What file names, saves, recent documents and kept previews promise.

use crate::closing::PanelSaveOutcome;
use crate::load::{entry_for, one_per_file, BridgeEntry, DocxPreviewBridge, Fingerprint};
use crate::opening::{load_document_for_open, LoadPlan, LoadedAs};
use crate::panels::PanelKind;
use crate::paths::{
    document_format, extension_of, file_extension, last_dot, lemma_last_dot, stem_of,
    with_extension, DocumentFormat, SavePath,
};
use crate::places::{lemma_place_added, places_are};
use crate::recent::{
    entry_values, other_entries, preview_of, preview_runs, recent_document_preview_document,
    values_of, RecentDocument, RecentDocuments,
};
use crate::saving::{
    active_saved, prompt_save_active_as, PathAnswer, SaveAsStep, SaveFollowUp, SaveStep,
    WriteResult,
};
use crate::text_laws::same_letter;
use crate::toolkit::{InputParagraph, ParagraphValue, RunValue};
use vstd::prelude::*;

verus! {

/// A text without a dot in it.
pub open spec fn no_dot(text: Seq<char>) -> bool {
    forall|i: int| 0 <= i < text.len() ==> #[trigger] text[i] != '.'
}

proof fn lemma_extension(stem: Seq<char>, extension: Seq<char>)
    requires
        stem.len() > 0,
        no_dot(extension),
        stem + "."@ + extension != ".."@,
    ensures
        extension_of(stem + "."@ + extension) == Some(extension),
        stem_of(stem + "."@ + extension) == stem,
{
    reveal_strlit(".");
    let name = stem + "."@ + extension;
    let at = stem.len() as int;
    lemma_last_dot(name, name.len() as int);
    assert(name[at] == '.');
    let found = last_dot(name, name.len() as int)->0;
    if found > at {
        assert(name[found] == extension[found - at - 1]);
    }
    assert(found == at);
    assert(name.skip(at + 1) =~= extension);
    assert(name.take(at) =~= stem);
}

/// A name's extension is what stands behind its last dot, and another takes its
/// place without touching the rest.
pub proof fn an_extension_stands_behind_the_last_dot(
    stem: Seq<char>,
    own: Seq<char>,
    name: &str,
    other: &str,
    extension: Option<String>,
    renamed: String,
)
    requires
        stem.len() > 0,
        no_dot(own),
        name@ == stem + "."@ + own,
        name@ != ".."@,
        call_ensures(file_extension, (name,), extension),
        call_ensures(with_extension, (name, other), renamed),
    ensures
        extension is Some,
        (extension->0)@ == own,
        renamed@ == stem + "."@ + other@,
{
    lemma_extension(stem, own);
}

/// A name without a dot, or with one only in front, has no extension, and
/// another is added behind it.
pub proof fn a_name_without_a_dot_has_no_extension(
    name: &str,
    other: &str,
    extension: Option<String>,
    renamed: String,
)
    requires
        forall|i: int| 0 < i < name@.len() ==> #[trigger] name@[i] != '.',
        call_ensures(file_extension, (name,), extension),
        call_ensures(with_extension, (name, other), renamed),
    ensures
        extension is None,
        renamed@ == name@ + "."@ + other@,
{
    lemma_last_dot(name@, name@.len() as int);
}

/// Two texts are equal but for the case of letters.
pub open spec fn equal_but_for_case(left: Seq<char>, right: Seq<char>) -> bool {
    left.len() == right.len() && forall|i: int|
        0 <= i < left.len() ==> same_letter(#[trigger] left[i], right[i])
}

proof fn lemma_equal_but_for_case(left: Seq<char>, right: Seq<char>)
    ensures
        equal_but_for_case(left, right) <==> crate::text::same_ignoring_ascii_case(left, right),
{
    let l = left.map_values(|c: char| crate::text::ascii_lower(c));
    let r = right.map_values(|c: char| crate::text::ascii_lower(c));
    if crate::text::same_ignoring_ascii_case(left, right) {
        assert(l.len() == r.len());
        assert forall|i: int| 0 <= i < left.len() implies same_letter(#[trigger] left[i], right[i]) by {
            assert(l[i] == r[i]);
        }
    }
    if equal_but_for_case(left, right) {
        assert forall|i: int| 0 <= i < l.len() implies l[i] == r[i] by {
            assert(same_letter(left[i], right[i]));
        }
        assert(l =~= r);
    }
}

/// A file opens by its extension, whatever its case: a flow, a word processor's
/// file and a PDF by theirs, and every other as a package.
pub proof fn a_file_opens_by_its_extension(
    stem: Seq<char>,
    own: Seq<char>,
    name: &str,
    format: DocumentFormat,
)
    requires
        stem.len() > 0,
        no_dot(own),
        name@ == stem + "."@ + own,
        name@ != ".."@,
        call_ensures(document_format, (name,), format),
    ensures
        format == DocumentFormat::Flow <==> equal_but_for_case(own, "fl0"@),
        format == DocumentFormat::Docx <==> equal_but_for_case(own, "docx"@),
        format == DocumentFormat::Pdf <==> equal_but_for_case(own, "pdf"@),
{
    lemma_extension(stem, own);
    lemma_equal_but_for_case(own, "fl0"@);
    lemma_equal_but_for_case(own, "docx"@);
    lemma_equal_but_for_case(own, "pdf"@);
    reveal_strlit("fl0");
    reveal_strlit("docx");
    reveal_strlit("pdf");
    assert("fl0"@.len() == 3 && "docx"@.len() == 4 && "pdf"@.len() == 3);
    if equal_but_for_case(own, "fl0"@) && equal_but_for_case(own, "pdf"@) {
        assert(same_letter(own[0], "fl0"@[0]));
        assert(same_letter(own[0], "pdf"@[0]));
        assert("fl0"@[0] == 'f' && "pdf"@[0] == 'p');
    }
}

/// A file that is a package or a flow is saved where it was opened; one that is
/// imported is not, and is titled by its name as a document.
pub proof fn an_imported_file_is_not_saved_over(
    stem: Seq<char>,
    own: Seq<char>,
    name: &str,
    loaded: LoadedAs,
)
    requires
        stem.len() > 0,
        no_dot(own),
        name@ == stem + "."@ + own,
        name@ != ".."@,
        call_ensures(load_document_for_open, (Some(name),), loaded),
    ensures
        loaded.plan is Import <==> equal_but_for_case(own, "docx"@),
        loaded.plan is Extract <==> equal_but_for_case(own, "pdf"@),
        loaded.plan is Flow <==> equal_but_for_case(own, "fl0"@),
        loaded.keeps_path <==> !(loaded.plan is Import || loaded.plan is Extract),
        loaded.plan matches LoadPlan::Import { import_title } ==> import_title@ == stem + ".db8"@,
        loaded.title is Some <==> !loaded.keeps_path,
        loaded.title is Some ==> (loaded.title->0)@ == stem + ".db8"@,
{
    lemma_extension(stem, own);
    lemma_equal_but_for_case(own, "fl0"@);
    lemma_equal_but_for_case(own, "docx"@);
    lemma_equal_but_for_case(own, "pdf"@);
    reveal_strlit("fl0");
    reveal_strlit("docx");
    reveal_strlit("pdf");
    assert("fl0"@.len() == 3 && "docx"@.len() == 4 && "pdf"@.len() == 3);
    if equal_but_for_case(own, "fl0"@) && equal_but_for_case(own, "pdf"@) {
        assert(same_letter(own[0], "fl0"@[0]));
        assert(same_letter(own[0], "pdf"@[0]));
        assert("fl0"@[0] == 'f' && "pdf"@[0] == 'p');
    }
}

/// A panel is saved where it was asked to be: in the directory that was picked,
/// under the name that was picked, with the extension of its kind only where
/// the name has none.
pub proof fn a_panel_is_saved_under_the_name_picked(
    kind: PanelKind,
    picked: SavePath,
    step: SaveStep,
    again: SaveAsStep,
)
    requires
        call_ensures(PanelKind::save_path_picked, (kind, PathAnswer::Path(picked)), step),
        call_ensures(prompt_save_active_as, (kind, PathAnswer::Path(picked)), again),
        picked.file_name is Some,
    ensures
        ({
            let name = (picked.file_name->0)@;
            let named = if extension_of(name) is Some {
                name
            } else if kind == PanelKind::Document {
                name + ".db8"@
            } else {
                name + ".fl0"@
            };
            &&& step matches SaveStep::SaveAs(path) && path.directory == picked.directory
                && path.file_name is Some && (path.file_name->0)@ == named
            &&& again matches SaveAsStep::SaveAs(path) && path.directory == picked.directory
                && path.file_name is Some && (path.file_name->0)@ == named
        }),
{
}

/// A panel with a file is saved in place, and one without asks where first; a
/// save that is given up or fails is not one that was done.
pub proof fn a_save_says_what_became_of_it(
    kind: PanelKind,
    has_path: bool,
    first: SaveStep,
    cancelled: SaveStep,
    error: String,
    refused: SaveStep,
    written: PanelSaveOutcome,
    failed: PanelSaveOutcome,
    gone: PanelSaveOutcome,
)
    requires
        call_ensures(PanelKind::save, (kind, Ok::<bool, String>(has_path)), first),
        call_ensures(PanelKind::save_path_picked, (kind, PathAnswer::Cancelled), cancelled),
        call_ensures(PanelKind::save_path_picked, (kind, PathAnswer::Refused(error)), refused),
        call_ensures(PanelKind::save_written, (kind, WriteResult::Written), written),
        call_ensures(PanelKind::save_written, (kind, WriteResult::Failed(error)), failed),
        call_ensures(PanelKind::save_written, (kind, WriteResult::NoAccess(error)), gone),
    ensures
        has_path <==> first is Save,
        !has_path && kind == PanelKind::Document ==> (first matches SaveStep::AskPath(name) && name@
            == "Untitled.db8"@),
        !has_path && kind == PanelKind::Flow ==> (first matches SaveStep::AskPath(name) && name@
            == "Untitled.fl0"@),
        cancelled == SaveStep::Done(PanelSaveOutcome::Cancelled),
        refused == SaveStep::Done(PanelSaveOutcome::Failed(error)),
        written == PanelSaveOutcome::Saved,
        failed == PanelSaveOutcome::Failed(error),
        gone is Failed,
{
}

/// Only a save that was written gives the panel its file and is told to a
/// document's collaborators, and only one that failed is told to the author.
pub proof fn what_follows_a_save(
    kind: PanelKind,
    saved_as: Option<SavePath>,
    result: WriteResult,
    follow_up: SaveFollowUp,
)
    requires
        call_ensures(active_saved, (kind, saved_as, result), follow_up),
    ensures
        result is Written ==> follow_up.set_path == saved_as && follow_up.failure is None,
        !(result is Written) ==> follow_up.set_path is None,
        follow_up.persist_session <==> result is Written && saved_as is Some,
        follow_up.refresh_collaborators <==> result is Written && kind == PanelKind::Document,
        follow_up.failure is Some <==> result is Failed,
        result matches WriteResult::Failed(error) ==> follow_up.failure == Some(error),
{
}

/// The places of the documents of other paths.
pub open spec fn of_other_paths(list: Seq<RecentDocument>, path: Seq<char>) -> spec_fn(int) -> bool {
    |i: int| list[i].path@ != path
}

proof fn lemma_other_entries_places(list: Seq<RecentDocument>, path: Seq<char>, k: int) -> (places:
    Seq<int>)
    requires
        0 <= k <= list.len(),
    ensures
        places_are(places, of_other_paths(list, path), k),
        other_entries(entry_values(list), path, k).len() == places.len(),
        forall|p: int|
            0 <= p < places.len() ==> #[trigger] other_entries(entry_values(list), path, k)[p]
                == entry_values(list)[places[p]],
    decreases k,
{
    let picks = of_other_paths(list, path);
    if k == 0 {
        Seq::empty()
    } else {
        let before = lemma_other_entries_places(list, path, k - 1);
        lemma_place_added(before, picks, k - 1);
        assert(picks(k - 1) == (list[k - 1].path@ != path));
        assert(entry_values(list)[k - 1].0 == list[k - 1].path@);
        let places = if picks(k - 1) {
            before.push(k - 1)
        } else {
            before
        };
        assert forall|p: int| 0 <= p < places.len() implies #[trigger] other_entries(
            entry_values(list),
            path,
            k,
        )[p] == entry_values(list)[places[p]] by {
            if p < before.len() {
                assert(other_entries(entry_values(list), path, k)[p] == other_entries(
                    entry_values(list),
                    path,
                    k - 1,
                )[p]);
            }
        }
        places
    }
}

/// A document that was opened comes first, once; behind it stand the others in
/// their order, and of more than three the oldest go. The places of the others
/// are handed out.
pub proof fn the_latest_document_comes_first(
    recents: &mut RecentDocuments,
    recent: RecentDocument,
    before: Seq<RecentDocument>,
) -> (places: Seq<int>)
    requires
        old(recents).list@ == before,
        call_ensures(RecentDocuments::record_recent_document, (recents, recent), ()),
    ensures
        places_are(places, of_other_paths(before, recent.path@), before.len() as int),
        final(recents).list@.len() == (if places.len() < 2 {
            places.len() + 1
        } else {
            3
        }),
        final(recents).list@[0].path@ == recent.path@,
        final(recents).list@[0].file_name@ == recent.file_name@,
        forall|i: int|
            1 <= i < final(recents).list@.len() ==> (#[trigger] final(recents).list@[i]).path@
                == before[places[i - 1]].path@ && final(recents).list@[i].file_name@
                == before[places[i - 1]].file_name@,
        final(recents).previewed@ == old(recents).previewed@,
{
    let places = lemma_other_entries_places(before, recent.path@, before.len() as int);
    let after = entry_values(final(recents).list@);
    let entry = (recent.path@, recent.file_name@);
    assert(entry_values(before).len() == before.len());
    let others = other_entries(entry_values(before), recent.path@, before.len() as int);
    let all = seq![entry] + others;
    assert(after.len() == final(recents).list@.len());
    assert(after[0] == all[0]);
    assert(final(recents).list@[0].path@ == after[0].0);
    assert forall|i: int| 1 <= i < final(recents).list@.len() implies (
    #[trigger] final(recents).list@[i]).path@ == before[places[i - 1]].path@
        && final(recents).list@[i].file_name@ == before[places[i - 1]].file_name@ by {
        assert(after[i] == all[i]);
        assert(all[i] == others[i - 1]);
        assert(others[i - 1] == entry_values(before)[places[i - 1]]);
        assert(after[i].0 == final(recents).list@[i].path@);
    }
    places
}

/// What runs say, one after another.
pub open spec fn runs_say(runs: Seq<RunValue>) -> Seq<char>
    decreases runs.len(),
{
    if runs.len() == 0 {
        Seq::empty()
    } else {
        runs_say(runs.drop_last()) + runs.last().text
    }
}

/// What paragraphs say, one after another.
pub open spec fn paragraphs_say(paragraphs: Seq<ParagraphValue>) -> Seq<char>
    decreases paragraphs.len(),
{
    if paragraphs.len() == 0 {
        Seq::empty()
    } else {
        paragraphs_say(paragraphs.drop_last()) + runs_say(paragraphs.last().runs)
    }
}

/// The front of a text within a limit.
pub open spec fn cut_at(text: Seq<char>, limit: int) -> Seq<char> {
    if text.len() <= limit {
        text
    } else {
        text.take(limit)
    }
}

proof fn lemma_runs_cut(runs: Seq<RunValue>, budget: int, k: int)
    requires
        0 <= budget,
        0 <= k <= runs.len(),
    ensures
        runs_say(preview_runs(runs, budget, k).0) == cut_at(runs_say(runs.take(k)), budget),
        preview_runs(runs, budget, k).1 == budget - cut_at(runs_say(runs.take(k)), budget).len(),
    decreases k,
{
    if k > 0 {
        lemma_runs_cut(runs, budget, k - 1);
        let (shown, left) = preview_runs(runs, budget, k - 1);
        let run = runs[k - 1];
        let before = runs_say(runs.take(k - 1));
        assert(runs.take(k).drop_last() =~= runs.take(k - 1));
        let all = runs_say(runs.take(k));
        assert(all == before + run.text);
        if left <= 0 || run.text.len() == 0 {
            if run.text.len() == 0 {
                assert(all =~= before);
            } else {
                assert(cut_at(all, budget) =~= cut_at(before, budget));
            }
        } else if run.text.len() <= left {
            assert(shown.push(run).drop_last() =~= shown);
            assert(cut_at(all, budget) =~= before + run.text);
        } else {
            let cut = RunValue { text: run.text.take(left), ..run };
            assert(shown.push(cut).drop_last() =~= shown);
            assert(cut_at(all, budget) =~= before + run.text.take(left));
        }
    } else {
        assert(runs.take(0) =~= Seq::empty());
    }
}

proof fn lemma_preview_cut(paragraphs: Seq<ParagraphValue>, budget: int, k: int)
    requires
        0 <= budget,
        0 <= k <= paragraphs.len(),
    ensures
        paragraphs_say(preview_of(paragraphs, budget, k).0) == cut_at(
            paragraphs_say(paragraphs.take(k)),
            budget,
        ),
        preview_of(paragraphs, budget, k).1 == budget - cut_at(
            paragraphs_say(paragraphs.take(k)),
            budget,
        ).len(),
    decreases k,
{
    if k > 0 {
        lemma_preview_cut(paragraphs, budget, k - 1);
        let (shown, left) = preview_of(paragraphs, budget, k - 1);
        let paragraph = paragraphs[k - 1];
        let total = paragraph.runs.len() as int;
        lemma_runs_cut(paragraph.runs, left, total);
        assert(paragraph.runs.take(total) =~= paragraph.runs);
        let (runs, rest) = preview_runs(paragraph.runs, left, total);
        let before = paragraphs_say(paragraphs.take(k - 1));
        let own = runs_say(paragraph.runs);
        assert(paragraphs.take(k).drop_last() =~= paragraphs.take(k - 1));
        let all = paragraphs_say(paragraphs.take(k));
        assert(all == before + own);
        assert(cut_at(all, budget) =~= cut_at(before, budget) + cut_at(own, left));
        if runs.len() == 0 {
            assert(runs_say(runs) =~= Seq::empty());
            assert(cut_at(before, budget) + cut_at(own, left) =~= cut_at(before, budget));
        } else {
            let line = ParagraphValue { style: paragraph.style, runs };
            assert(shown.push(line).drop_last() =~= shown);
        }
    } else {
        assert(paragraphs.take(0) =~= Seq::empty());
    }
}

/// A preview says what the first twelve paragraphs say, up to two thousand two
/// hundred characters.
pub proof fn a_preview_says_how_the_document_begins(
    paragraphs: Vec<InputParagraph>,
    preview: Vec<InputParagraph>,
)
    requires
        call_ensures(recent_document_preview_document, (&paragraphs,), preview),
    ensures
        paragraphs_say(values_of(preview@)) == cut_at(
            paragraphs_say(cut_front(values_of(paragraphs@))),
            2200,
        ),
{
    let values = values_of(paragraphs@);
    assert(values.len() == paragraphs@.len());
    let count = crate::recent::preview_count(paragraphs@.len() as int);
    lemma_preview_cut(values, 2200, count);
    assert(cut_front(values) =~= values.take(count));
}

/// The first twelve paragraphs.
pub open spec fn cut_front(paragraphs: Seq<ParagraphValue>) -> Seq<ParagraphValue> {
    if paragraphs.len() <= 12 {
        paragraphs
    } else {
        paragraphs.take(12)
    }
}

/// A preview that was kept is handed to the next open of the file as it is,
/// once; a file that changed since gets none, and no other file does.
pub proof fn a_kept_preview_is_handed_over_once<D>(
    stored: &mut DocxPreviewBridge<D>,
    taken: &mut DocxPreviewBridge<D>,
    again: &mut DocxPreviewBridge<D>,
    changed: &mut DocxPreviewBridge<D>,
    path: String,
    same: &str,
    fingerprint: Fingerprint,
    other: Fingerprint,
    document: D,
    first: Option<D>,
    second: Option<D>,
    stale: Option<D>,
)
    requires
        old(stored).entries@.len() <= 4,
        one_per_file(old(stored).entries@),
        same@ == path@,
        other != fingerprint,
        call_ensures(
            DocxPreviewBridge::<D>::store_docx_preview_bridge,
            (stored, path, Some(fingerprint), document),
            (),
        ),
        *old(taken) == *final(stored),
        call_ensures(
            DocxPreviewBridge::<D>::take_docx_preview_bridge,
            (taken, same, Some(fingerprint)),
            first,
        ),
        *old(again) == *final(taken),
        call_ensures(
            DocxPreviewBridge::<D>::take_docx_preview_bridge,
            (again, same, Some(fingerprint)),
            second,
        ),
        *old(changed) == *final(stored),
        call_ensures(
            DocxPreviewBridge::<D>::take_docx_preview_bridge,
            (changed, same, Some(other)),
            stale,
        ),
    ensures
        first == Some(document),
        second is None,
        stale is None,
        final(stored).entries@.len() <= 4,
{
    let entry = BridgeEntry { path, fingerprint, document };
    crate::load::a_stored_preview_is_found(old(stored).entries@, entry);
    let kept = final(stored).entries@;
    let at = kept.len() - 1;
    assert(kept[at] == entry);
    let left = final(taken).entries@;
    assert(left =~= kept.take(at));
    assert forall|i: int| 0 <= i < left.len() implies (#[trigger] left[i]).path@ != path@ by {
        assert(left[i] == kept[i]);
        assert(kept[i].path@ != kept[at].path@);
    }
    lemma_not_there(left, path@, fingerprint, 0);
    lemma_other_print(kept, path@, other, 0);
}

proof fn lemma_not_there<D>(
    entries: Seq<BridgeEntry<D>>,
    path: Seq<char>,
    fingerprint: Fingerprint,
    from: int,
)
    requires
        0 <= from <= entries.len(),
        forall|i: int| 0 <= i < entries.len() ==> (#[trigger] entries[i]).path@ != path,
    ensures
        entry_for(entries, path, fingerprint, from) is None,
    decreases entries.len() - from,
{
    if from < entries.len() {
        assert(entries[from].path@ != path);
        lemma_not_there(entries, path, fingerprint, from + 1);
    }
}

proof fn lemma_other_print<D>(
    entries: Seq<BridgeEntry<D>>,
    path: Seq<char>,
    other: Fingerprint,
    from: int,
)
    requires
        0 <= from <= entries.len(),
        entries.len() > 0,
        one_per_file(entries),
        entries.last().path@ == path,
        entries.last().fingerprint != other,
    ensures
        entry_for(entries, path, other, from) is None,
    decreases entries.len() - from,
{
    if from < entries.len() {
        if from < entries.len() - 1 {
            assert(entries[from].path@ != entries[entries.len() - 1].path@);
        }
        lemma_other_print(entries, path, other, from + 1);
    }
}

} // verus!
