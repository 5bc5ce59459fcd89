//! What extensions may touch, what they are told and what the panel shows of
//! them.

use crate::extension_grants::{
    approve, directory_grants, grant_directory, grant_values, grants_in_force,
    is_trusted, mount_values, other_grants, DirectoryGrant, PersistedGrant,
};
use crate::extension_host::{
    directory_choice, refresh_after_answer, refresh_begin, run_ended, serve, DirectoryAccess,
    DirectoryGrantResponse, DirectoryPick, HostError, HostRequest, HostStep, RefreshStep,
    RunResult,
};
use crate::extensions::{
    request_extension_action, run_after, run_after_all,
    ActionStep, ExtensionActionView, ExtensionPanel, ExtensionPanelEvent, ExtensionRunState,
    RunValue,
};
use crate::places::{lemma_place_added, places_are};
use vstd::prelude::*;

verus! {

/// The places of the grants that an extension has as the component it is now.
pub open spec fn granted_to(
    grants: Seq<PersistedGrant>,
    extension_id: Seq<char>,
    component_hash: Seq<char>,
) -> spec_fn(int) -> bool {
    |i: int| grants[i].extension_id@ == extension_id && grants[i].component_hash@ == component_hash
}

proof fn lemma_in_force(
    grants: Seq<PersistedGrant>,
    extension_id: Seq<char>,
    component_hash: Seq<char>,
    k: int,
) -> (places: Seq<int>)
    requires
        0 <= k <= grants.len(),
    ensures
        places_are(places, granted_to(grants, extension_id, component_hash), k),
        grants_in_force(grant_values(grants), extension_id, component_hash, k).len()
            == places.len(),
        forall|p: int|
            0 <= p < places.len() ==> {
                let mount = #[trigger] grants_in_force(
                    grant_values(grants),
                    extension_id,
                    component_hash,
                    k,
                )[p];
                let grant = grants[places[p]];
                &&& mount.0 == grant.grant_id@
                &&& mount.1 == grant.host_path@
                &&& mount.2 == DirectoryAccess::ReadWrite <==> grant.read_write
            },
    decreases k,
{
    let picks = granted_to(grants, extension_id, component_hash);
    let values = grant_values(grants);
    if k == 0 {
        Seq::empty()
    } else {
        let before = lemma_in_force(grants, extension_id, component_hash, k - 1);
        lemma_place_added(before, picks, k - 1);
        assert(values[k - 1] == grants[k - 1]@);
        assert(picks(k - 1) == (grants[k - 1].extension_id@ == extension_id
            && grants[k - 1].component_hash@ == component_hash));
        let places = if picks(k - 1) {
            before.push(k - 1)
        } else {
            before
        };
        let fewer = grants_in_force(values, extension_id, component_hash, k - 1);
        let all = grants_in_force(values, extension_id, component_hash, k);
        assert forall|p: int| 0 <= p < places.len() implies {
            let mount = #[trigger] all[p];
            let grant = grants[places[p]];
            &&& mount.0 == grant.grant_id@
            &&& mount.1 == grant.host_path@
            &&& mount.2 == DirectoryAccess::ReadWrite <==> grant.read_write
        } by {
            if p < before.len() {
                assert(all[p] == fewer[p]);
            }
        }
        places
    }
}

/// An extension gets the directories that were granted to it as the component
/// it is now, in order, each as it was granted, and no other: not those of
/// another extension, and not those of a component that has changed. The
/// places of its grants are handed out.
pub proof fn an_extension_gets_what_was_granted_to_it(
    grants: Vec<PersistedGrant>,
    extension_id: &str,
    component_hash: &str,
    mounts: Vec<DirectoryGrant>,
) -> (places: Seq<int>)
    requires
        call_ensures(directory_grants, (&grants, extension_id, component_hash), mounts),
    ensures
        places_are(
            places,
            granted_to(grants@, extension_id@, component_hash@),
            grants@.len() as int,
        ),
        mounts@.len() == places.len(),
        forall|p: int|
            0 <= p < mounts@.len() ==> {
                let mount = #[trigger] mounts@[p];
                let grant = grants@[places[p]];
                &&& mount.grant_id@ == grant.grant_id@
                &&& mount.host_path@ == grant.host_path@
                &&& mount.access == DirectoryAccess::ReadWrite <==> grant.read_write
            },
{
    let places = lemma_in_force(grants@, extension_id@, component_hash@, grants@.len() as int);
    let values = mount_values(mounts@);
    assert(values.len() == mounts@.len());
    assert forall|p: int| 0 <= p < mounts@.len() implies {
        let mount = #[trigger] mounts@[p];
        let grant = grants@[places[p]];
        &&& mount.grant_id@ == grant.grant_id@
        &&& mount.host_path@ == grant.host_path@
        &&& mount.access == DirectoryAccess::ReadWrite <==> grant.read_write
    } by {
        assert(values[p] == crate::extension_grants::mount_value(mounts@[p]));
    }
    places
}

/// The places of the grants but one extension's of an id.
pub open spec fn but_for(
    grants: Seq<PersistedGrant>,
    extension_id: Seq<char>,
    id: Seq<char>,
) -> spec_fn(int) -> bool {
    |i: int| grants[i].extension_id@ != extension_id || grants[i].grant_id@ != id
}

proof fn lemma_other_grants(
    grants: Seq<PersistedGrant>,
    extension_id: Seq<char>,
    id: Seq<char>,
    k: int,
) -> (places: Seq<int>)
    requires
        0 <= k <= grants.len(),
    ensures
        places_are(places, but_for(grants, extension_id, id), k),
        other_grants(grant_values(grants), extension_id, id, k).len() == places.len(),
        forall|p: int|
            0 <= p < places.len() ==> #[trigger] other_grants(
                grant_values(grants),
                extension_id,
                id,
                k,
            )[p] == grants[places[p]]@,
    decreases k,
{
    let picks = but_for(grants, extension_id, id);
    let values = grant_values(grants);
    if k == 0 {
        Seq::empty()
    } else {
        let before = lemma_other_grants(grants, extension_id, id, k - 1);
        lemma_place_added(before, picks, k - 1);
        assert(values[k - 1] == grants[k - 1]@);
        assert(picks(k - 1) == (grants[k - 1].extension_id@ != extension_id
            || grants[k - 1].grant_id@ != id));
        let places = if picks(k - 1) {
            before.push(k - 1)
        } else {
            before
        };
        let fewer = other_grants(values, extension_id, id, k - 1);
        let all = other_grants(values, extension_id, id, k);
        assert forall|p: int| 0 <= p < places.len() implies #[trigger] all[p]
            == grants[places[p]]@ by {
            if p < before.len() {
                assert(all[p] == fewer[p]);
            }
        }
        places
    }
}

/// A directory that is granted comes last, under the id that the answer names,
/// to the extension and the component it was granted to, as it was asked for;
/// an earlier grant of it goes, and every other stays. The places of those
/// that stay are handed out.
pub proof fn a_grant_replaces_an_earlier_one(
    grants: &mut Vec<PersistedGrant>,
    extension_id: &str,
    component_hash: &str,
    access: DirectoryAccess,
    host_path: &str,
    path_hash: u64,
    response: DirectoryGrantResponse,
    before: Seq<PersistedGrant>,
) -> (places: Seq<int>)
    requires
        old(grants)@ == before,
        call_ensures(
            grant_directory,
            (grants, extension_id, component_hash, access, host_path, path_hash),
            response,
        ),
    ensures
        places_are(
            places,
            but_for(before, extension_id@, response.grant_id@),
            before.len() as int,
        ),
        final(grants)@.len() == places.len() + 1,
        forall|p: int|
            0 <= p < places.len() ==> (#[trigger] final(grants)@[p])@ == before[places[p]]@,
        ({
            let granted = final(grants)@[places.len() as int];
            &&& granted.extension_id@ == extension_id@
            &&& granted.component_hash@ == component_hash@
            &&& granted.grant_id@ == response.grant_id@
            &&& granted.host_path@ == host_path@
            &&& granted.read_write <==> access == DirectoryAccess::ReadWrite
        }),
        response.mount_path@ == "/grants/"@ + response.grant_id@,
        response.available_next_invocation,
{
    let id = response.grant_id@;
    let places = lemma_other_grants(before, extension_id@, id, before.len() as int);
    let values = grant_values(final(grants)@);
    assert(grant_values(before).len() == before.len());
    assert(values.len() == final(grants)@.len());
    assert forall|p: int| 0 <= p < places.len() implies (#[trigger] final(grants)@[p])@
        == before[places[p]]@ by {
        assert(values[p] == final(grants)@[p]@);
        assert(values[p] == other_grants(
            grant_values(before),
            extension_id@,
            id,
            before.len() as int,
        )[p]);
    }
    assert(values[places.len() as int] == final(grants)@[places.len() as int]@);
    places
}

/// Only the component that was approved, and is installed, is trusted; an
/// approval of another is not taken.
pub proof fn trust_is_in_one_component(
    digest: Option<&str>,
    component_hash: &str,
    approved: bool,
    trusted: bool,
    result: Result<(), String>,
)
    requires
        call_ensures(is_trusted, (digest, component_hash, approved), trusted),
        call_ensures(approve, (digest, component_hash), result),
    ensures
        trusted ==> approved && result is Ok,
        result is Ok <==> digest is Some && (digest->0)@ == component_hash@,
        result is Ok && approved ==> trusted,
{
}

/// An action runs at once only where nobody must be asked.
pub proof fn an_untrusted_extension_asks_first(requires_trust: bool, step: ActionStep)
    requires
        call_ensures(request_extension_action, (requires_trust,), step),
    ensures
        step == ActionStep::AskTrust <==> requires_trust,
        step == ActionStep::Run <==> !requires_trust,
{
}

/// A directory is granted only where the author agreed, picked one, and the
/// extension's runtime is there; then it is the one that was picked.
pub proof fn a_directory_is_granted_where_it_was_picked(
    approved: bool,
    pick: DirectoryPick,
    has_runtime: bool,
    choice: Result<String, HostError>,
)
    requires
        call_ensures(directory_choice, (approved, pick, has_runtime), choice),
    ensures
        choice is Ok <==> approved && has_runtime && pick is Picked && pick->Picked_0 is Some,
        choice is Ok ==> Some(choice->Ok_0) == pick->Picked_0,
{
}

/// A document is read from its file again at once where it has no unsaved
/// changes, else only where the author pressed the first button; and it is its
/// own file that is read.
pub proof fn a_document_is_read_over_only_when_agreed(
    path: String,
    dirty: bool,
    begin: RefreshStep,
    button: Option<usize>,
    after: RefreshStep,
)
    requires
        call_ensures(
            refresh_begin,
            (Ok::<(Option<String>, bool), String>((Some(path), dirty)),),
            begin,
        ),
        call_ensures(refresh_after_answer, (path, button), after),
    ensures
        begin == (if dirty {
            RefreshStep::AskDiscard(path)
        } else {
            RefreshStep::Read(path)
        }),
        button == Some(0usize) ==> after == RefreshStep::Read(path),
        button != Some(0usize) ==> after is Refuse,
{
}

/// What a request is served with: reads and edits with the document on top and
/// refused where there is none, edits as they were given, and words for the
/// panel with the panel.
pub proof fn requests_are_served_with_what_they_ask(
    extension_id: &str,
    has_document: bool,
    request: HostRequest,
    step: HostStep,
)
    requires
        call_ensures(serve, (extension_id, has_document, request), step),
    ensures
        request is Snapshot && has_document ==> step is ReadDocument,
        request is Selection && has_document ==> step is ReadSelection,
        request is Refresh && has_document ==> step is LookAtFile,
        request matches HostRequest::ApplyEdits(edits) ==> (has_document ==> step == HostStep::Edit(
            edits,
        )),
        !has_document && (request is Snapshot || request is Selection || request is Refresh
            || request is ApplyEdits) ==> step is Refuse,
        request is DirectoryAccess ==> step is AskDirectory,
        request is ActionLabel || request is Status ==> step is Tell,
{
}

/// A label that an extension gives one of its actions is the one that shows,
/// and it labels no other action and no other extension's.
pub proof fn a_label_that_is_given_shows(
    panel: &mut ExtensionPanel,
    extension_id: &str,
    has_document: bool,
    action: String,
    text: String,
    step: HostStep,
    own: ExtensionActionView,
    other: ExtensionActionView,
    label: String,
    before: String,
    after: String,
)
    requires
        call_ensures(
            serve,
            (extension_id, has_document, HostRequest::ActionLabel(action, text)),
            step,
        ),
        step is Tell,
        call_ensures(ExtensionPanel::apply, (panel, step->Tell_0), ()),
        own.id@ == action@,
        call_ensures(ExtensionPanel::label, (&*final(panel), extension_id, &own), label),
        other.id@ != action@,
        call_ensures(ExtensionPanel::label, (&*old(panel), extension_id, &other), before),
        call_ensures(ExtensionPanel::label, (&*final(panel), extension_id, &other), after),
    ensures
        label@ == text@,
        after@ == before@,
{
}

/// What an extension says is the last that shows of it, and of no other.
pub proof fn what_an_extension_says_shows(
    panel: &mut ExtensionPanel,
    extension_id: &str,
    other: &str,
    has_document: bool,
    text: String,
    step: HostStep,
    shown: Option<String>,
    before: Option<String>,
    after: Option<String>,
)
    requires
        call_ensures(serve, (extension_id, has_document, HostRequest::Status(text)), step),
        step is Tell,
        call_ensures(ExtensionPanel::apply, (panel, step->Tell_0), ()),
        other@ != extension_id@,
        call_ensures(ExtensionPanel::output, (&*final(panel), extension_id), shown),
        call_ensures(ExtensionPanel::output, (&*old(panel), other), before),
        call_ensures(ExtensionPanel::output, (&*final(panel), other), after),
    ensures
        shown is Some,
        (shown->0)@ == text@,
        after is Some <==> before is Some,
        after is Some ==> (after->0)@ == (before->0)@,
{
}

/// Whose run the news is of; none where it is not of a run.
pub open spec fn run_of(event: ExtensionPanelEvent) -> Option<Seq<char>> {
    match event {
        ExtensionPanelEvent::Started { extension_id, .. } => Some(extension_id@),
        ExtensionPanelEvent::Failed { extension_id, .. } => Some(extension_id@),
        ExtensionPanelEvent::Finished { extension_id } => Some(extension_id@),
        ExtensionPanelEvent::Cancelled { extension_id } => Some(extension_id@),
        _ => None,
    }
}

proof fn lemma_last_news(
    events: Seq<ExtensionPanelEvent>,
    id: Seq<char>,
    before: RunValue,
    at: int,
    k: int,
)
    requires
        -1 <= at < k <= events.len(),
        forall|i: int| at < i < k ==> run_of(#[trigger] events[i]) != Some(id),
    ensures
        run_after_all(events, id, before, k) == run_after_all(events, id, before, at + 1),
    decreases k - at,
{
    if k > at + 1 {
        lemma_last_news(events, id, before, at, k - 1);
        assert(run_of(events[k - 1]) != Some(id));
    }
}

/// What an extension does is what the last news of its run says: a start that
/// it runs that action, a failure why, an end that it is idle, and a
/// cancelling that it was cancelled. Without news of its run it does what it
/// did.
pub proof fn the_last_news_of_a_run_counts(
    panel: &mut ExtensionPanel,
    events: Vec<ExtensionPanelEvent>,
    extension_id: &str,
    state: ExtensionRunState,
    before: ExtensionRunState,
    at: int,
)
    requires
        call_ensures(ExtensionPanel::apply_all, (panel, events), ()),
        call_ensures(ExtensionPanel::state, (&*final(panel), extension_id), state),
        call_ensures(ExtensionPanel::state, (&*old(panel), extension_id), before),
        -1 <= at < events@.len(),
        at >= 0 ==> run_of(events@[at]) == Some(extension_id@),
        forall|i: int| at < i < events@.len() ==> run_of(#[trigger] events@[i]) != Some(
            extension_id@,
        ),
    ensures
        at < 0 ==> state@ == before@,
        at >= 0 ==> match events@[at] {
            ExtensionPanelEvent::Started { action_id, .. } => state
                matches ExtensionRunState::Running { action_id: own } && own@ == action_id@,
            ExtensionPanelEvent::Failed { message, .. } => state
                matches ExtensionRunState::Failed(own) && own@ == message@,
            ExtensionPanelEvent::Finished { .. } => state is Idle,
            ExtensionPanelEvent::Cancelled { .. } => state is Cancelled,
            _ => false,
        },
{
    let id = extension_id@;
    let first = old(panel).run_value(id);
    if at < events@.len() {
        lemma_last_news(events@, id, first, at, events@.len() as int);
    }
    assert(state@ == run_after_all(events@, id, first, at + 1));
    if at >= 0 {
        assert(state@ == run_after(events@[at], id, run_after_all(events@, id, first, at)));
    }
}

/// A run that has ended is one that runs no more: finished it is idle and
/// shows what it wrote, failed it says why, and no other extension changes.
pub proof fn a_run_that_ended_runs_no_more(
    panel: &mut ExtensionPanel,
    extension_id: &str,
    other: &str,
    result: RunResult,
    events: Vec<ExtensionPanelEvent>,
    state: ExtensionRunState,
    running: bool,
    before: bool,
    after: bool,
)
    requires
        call_ensures(run_ended, (extension_id, result), events),
        call_ensures(ExtensionPanel::apply_all, (panel, events), ()),
        call_ensures(ExtensionPanel::state, (&*final(panel), extension_id), state),
        call_ensures(ExtensionPanel::is_running, (&*final(panel), extension_id), running),
        other@ != extension_id@,
        call_ensures(ExtensionPanel::is_running, (&*old(panel), other), before),
        call_ensures(ExtensionPanel::is_running, (&*final(panel), other), after),
    ensures
        !running,
        result is Finished ==> state is Idle,
        result is Cancelled ==> state is Cancelled,
        result matches RunResult::Failed(error) ==> (state matches ExtensionRunState::Failed(own)
            && own@ == error@),
        after == before,
{
    let id = extension_id@;
    let n = events@.len() as int;
    let first = old(panel).run_value(id);
    let others = old(panel).run_value(other@);
    reveal_with_fuel(run_after_all, 4);
    assert(events@.last() == events@[n - 1]);
    assert(run_after_all(events@, id, first, n) == run_after(
        events@[n - 1],
        id,
        run_after_all(events@, id, first, n - 1),
    ));
}

/// Starting an action clears what the extension said before and shows that it
/// runs, or why it could not.
pub proof fn a_started_action_runs(
    panel: &mut ExtensionPanel,
    extension_id: &str,
    action_id: &str,
    result: Result<(), String>,
    state: ExtensionRunState,
    output: Option<String>,
)
    requires
        call_ensures(ExtensionPanel::take_invoked, (panel, extension_id, action_id, result), ()),
        call_ensures(ExtensionPanel::state, (&*final(panel), extension_id), state),
        call_ensures(ExtensionPanel::output, (&*final(panel), extension_id), output),
    ensures
        output is None,
        result is Ok ==> (state matches ExtensionRunState::Running { action_id: own } && own@
            == action_id@),
        result is Err ==> (state matches ExtensionRunState::Failed(own) && own@
            == (result->Err_0)@),
        final(panel).extensions == old(panel).extensions,
{
}

} // verus!
