//! What autosave saves, and when.

use crate::autosave::{Autosave, AutosaveEnd};
use crate::pane::PanelId;
use vstd::prelude::*;

verus! {

/// An edit of a document waits for its moment.
pub open spec fn waits_at(autosave: Autosave, panel: PanelId, generation: u64) -> bool {
    autosave.pending@.contains_key(panel) && autosave.pending@[panel] == generation
}

/// A document counts as saved at an edit.
pub open spec fn saved_at(autosave: Autosave, panel: PanelId, generation: u64) -> bool {
    autosave.saved@.contains_key(panel) && autosave.saved@[panel] == generation
}

/// A document that changed waits for a quiet moment exactly where autosave is
/// on, it has a file, and the change is neither saved nor waits already.
pub proof fn a_change_waits_for_a_quiet_moment(
    autosave: &mut Autosave,
    panel: PanelId,
    has_path: bool,
    dirty: bool,
    generation: u64,
    scheduled: bool,
)
    requires
        call_ensures(
            Autosave::maybe_autosave_document,
            (autosave, panel, has_path, dirty, generation),
            scheduled,
        ),
    ensures
        scheduled <==> old(autosave).enabled && has_path && dirty && !saved_at(
            *old(autosave),
            panel,
            generation,
        ) && !waits_at(*old(autosave), panel, generation),
        scheduled ==> waits_at(*final(autosave), panel, generation),
        forall|other: u128, at: u64|
            other != panel ==> (#[trigger] waits_at(*final(autosave), other, at) <==> waits_at(
                *old(autosave),
                other,
                at,
            )),
        !scheduled ==> final(autosave)@ == old(autosave)@,
        final(autosave).saved@ == old(autosave).saved@,
        final(autosave).enabled == old(autosave).enabled,
{
}

/// Of two edits in a row the later one is saved, and once: the earlier one's
/// moment passes, the later one's saves it, and nothing waits after it.
pub proof fn only_the_last_edit_is_saved(
    first: &mut Autosave,
    second: &mut Autosave,
    early: &mut Autosave,
    late: &mut Autosave,
    again: &mut Autosave,
    panel: PanelId,
    earlier: u64,
    later: u64,
    scheduled: bool,
    rescheduled: bool,
    passes: bool,
    saves: bool,
    repeats: bool,
)
    requires
        old(first).enabled,
        earlier != later,
        !saved_at(*old(first), panel, earlier),
        !waits_at(*old(first), panel, earlier),
        !saved_at(*old(first), panel, later),
        call_ensures(
            Autosave::maybe_autosave_document,
            (first, panel, true, true, earlier),
            scheduled,
        ),
        *old(second) == *final(first),
        call_ensures(
            Autosave::maybe_autosave_document,
            (second, panel, true, true, later),
            rescheduled,
        ),
        *old(early) == *final(second),
        call_ensures(Autosave::autosave_due, (early, panel, earlier), passes),
        *old(late) == *final(early),
        call_ensures(Autosave::autosave_due, (late, panel, later), saves),
        *old(again) == *final(late),
        call_ensures(Autosave::autosave_due, (again, panel, later), repeats),
    ensures
        scheduled,
        rescheduled,
        !passes,
        saves,
        !repeats,
        saved_at(*final(late), panel, later),
        !final(late).pending@.contains_key(panel),
{
}

/// A save that fails is told and tried again at the next change: the edit
/// counts as unsaved. One that succeeds is not repeated.
pub proof fn a_failed_save_is_tried_again(
    due: &mut Autosave,
    ended: &mut Autosave,
    next: &mut Autosave,
    panel: PanelId,
    generation: u64,
    result: Result<(), String>,
    save: bool,
    end: AutosaveEnd,
    scheduled: bool,
)
    requires
        old(due).enabled,
        waits_at(*old(due), panel, generation),
        call_ensures(Autosave::autosave_due, (due, panel, generation), save),
        *old(ended) == *final(due),
        call_ensures(Autosave::finish_autosave, (ended, panel, generation, result), end),
        *old(next) == *final(ended),
        call_ensures(
            Autosave::maybe_autosave_document,
            (next, panel, true, true, generation),
            scheduled,
        ),
    ensures
        save,
        end is Saved <==> result is Ok,
        scheduled <==> result is Err,
        end matches AutosaveEnd::Failed { message, report } ==> message == result->Err_0,
{
}

/// What ends or begins for one document leaves every other's state alone.
pub proof fn documents_save_apart(
    due: &mut Autosave,
    ended: &mut Autosave,
    panel: PanelId,
    generation: u64,
    other: PanelId,
    at: u64,
    save: bool,
    result: Result<(), String>,
    end: AutosaveEnd,
)
    requires
        call_ensures(Autosave::autosave_due, (due, panel, generation), save),
        call_ensures(Autosave::finish_autosave, (ended, panel, generation, result), end),
        other != panel,
    ensures
        waits_at(*final(due), other, at) <==> waits_at(*old(due), other, at),
        saved_at(*final(due), other, at) <==> saved_at(*old(due), other, at),
        waits_at(*final(ended), other, at) <==> waits_at(*old(ended), other, at),
        saved_at(*final(ended), other, at) <==> saved_at(*old(ended), other, at),
{
}

/// A flow is saved at once where autosave is on and it has a file and unsaved
/// changes, one save at a time: while one is under way no second starts, and
/// after it the next may.
pub proof fn a_flow_is_saved_one_at_a_time(
    first: &mut Autosave,
    second: &mut Autosave,
    ended: &mut Autosave,
    third: &mut Autosave,
    panel: PanelId,
    has_path: bool,
    dirty: bool,
    save: bool,
    beside: bool,
    result: Result<(), String>,
    end: AutosaveEnd,
    next: bool,
)
    requires
        !old(first).flows_in_flight@.contains(panel),
        call_ensures(Autosave::maybe_autosave_flow, (first, panel, has_path, dirty), save),
        *old(second) == *final(first),
        call_ensures(Autosave::maybe_autosave_flow, (second, panel, has_path, dirty), beside),
        *old(ended) == *final(second),
        call_ensures(Autosave::finish_flow_autosave, (ended, panel, result), end),
        *old(third) == *final(ended),
        call_ensures(Autosave::maybe_autosave_flow, (third, panel, has_path, dirty), next),
    ensures
        save <==> old(first).enabled && has_path && dirty,
        !beside,
        next == save,
        end is Saved <==> result is Ok,
        final(first).pending@ == old(first).pending@,
        final(first).saved@ == old(first).saved@,
{
}

/// Autosave that is switched off saves nothing more.
pub proof fn autosave_that_is_off_saves_nothing(
    reset: &mut Autosave,
    document: &mut Autosave,
    flow: &mut Autosave,
    panel: PanelId,
    has_path: bool,
    dirty: bool,
    generation: u64,
    scheduled: bool,
    save: bool,
)
    requires
        call_ensures(Autosave::reset, (reset,), ()),
        *old(document) == *final(reset),
        call_ensures(
            Autosave::maybe_autosave_document,
            (document, panel, has_path, dirty, generation),
            scheduled,
        ),
        *old(flow) == *final(reset),
        call_ensures(Autosave::maybe_autosave_flow, (flow, panel, has_path, dirty), save),
    ensures
        !scheduled,
        !save,
        !saved_at(*final(reset), panel, generation),
{
}

} // verus!
