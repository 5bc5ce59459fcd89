//! Autosave: documents after a quiet moment, flows one save at a time.

use crate::comments::{failure, failure_text};
use crate::fx::{
    empty_map, empty_set, map_get, map_insert, map_remove, set_contains, set_insert, set_remove,
};
use crate::pane::PanelId;
use rustc_hash::{FxHashMap, FxHashSet};
use vstd::prelude::*;

verus! {

/// How long the keyboard must rest before a document is saved.
pub const AUTOSAVE_DEBOUNCE_MILLIS: u64 = 900;

/// What autosave remembers.
#[derive(Debug)]
pub struct Autosave {
    pub enabled: bool,
    /// The edit that each document was saved at.
    pub saved: FxHashMap<u128, u64>,
    /// The edit that each document waits to be saved at.
    pub pending: FxHashMap<u128, u64>,
    pub flows_in_flight: FxHashSet<u128>,
}

/// What autosave remembers, by its values.
#[verifier::ext_equal]
pub struct AutosaveView {
    pub enabled: bool,
    pub saved: Map<u128, u64>,
    pub pending: Map<u128, u64>,
    pub flows_in_flight: Set<u128>,
}

impl View for Autosave {
    type V = AutosaveView;

    open spec fn view(&self) -> AutosaveView {
        AutosaveView {
            enabled: self.enabled,
            saved: self.saved@,
            pending: self.pending@,
            flows_in_flight: self.flows_in_flight@,
        }
    }
}

/// A key's value is this one.
pub open spec fn is_at(map: Map<u128, u64>, key: u128, value: u64) -> bool {
    map.contains_key(key) && map[key] == value
}

impl AutosaveView {
    /// An edit of a document waits to be saved: where autosave is on, the
    /// document has a file and unsaved changes, and this edit is neither
    /// saved nor waiting.
    pub open spec fn wants(self, panel: u128, has_path: bool, dirty: bool, generation: u64) -> bool {
        self.enabled && has_path && dirty && !is_at(self.saved, panel, generation) && !is_at(
            self.pending,
            panel,
            generation,
        )
    }

    /// After an edit began to wait: it takes the place of an earlier one.
    pub open spec fn waiting(self, panel: u128, generation: u64) -> AutosaveView {
        AutosaveView { pending: self.pending.insert(panel, generation), ..self }
    }

    /// After the edit's quiet moment: the document is being saved at it.
    pub open spec fn saving(self, panel: u128, generation: u64) -> AutosaveView {
        AutosaveView {
            pending: self.pending.remove(panel),
            saved: self.saved.insert(panel, generation),
            ..self
        }
    }

    /// After a save failed: the edit counts as unsaved again.
    pub open spec fn failed(self, panel: u128, generation: u64) -> AutosaveView {
        if is_at(self.saved, panel, generation) {
            AutosaveView { saved: self.saved.remove(panel), ..self }
        } else {
            self
        }
    }
}

/// An autosave's end.
#[derive(Debug)]
pub enum AutosaveEnd {
    Saved,
    /// Why it failed, and how the user is told.
    Failed { message: String, report: String },
}

fn ended(result: Result<(), String>) -> (end: AutosaveEnd)
    ensures
        match (end, result) {
            (AutosaveEnd::Saved, Ok(_)) => true,
            (AutosaveEnd::Failed { message, report }, Err(error)) => message == error && report@
                == failure_text("Autosave failed: "@, error@),
            _ => false,
        },
{
    match result {
        Ok(_) => AutosaveEnd::Saved,
        Err(error) => {
            let report = failure("Autosave failed: ", error.as_str());
            AutosaveEnd::Failed { message: error, report }
        },
    }
}

impl Autosave {
    pub fn new(enabled: bool) -> (autosave: Self)
        ensures
            autosave@ == (AutosaveView {
                enabled,
                saved: Map::empty(),
                pending: Map::empty(),
                flows_in_flight: Set::empty(),
            }),
    {
        Autosave {
            enabled,
            saved: empty_map(),
            pending: empty_map(),
            flows_in_flight: empty_set(),
        }
    }

    /// A document changed: says whether its save now waits for a quiet
    /// moment.
    pub fn maybe_autosave_document(
        &mut self,
        panel: PanelId,
        has_path: bool,
        has_unsaved_changes: bool,
        generation: u64,
    ) -> (scheduled: bool)
        ensures
            scheduled == old(self)@.wants(panel, has_path, has_unsaved_changes, generation),
            final(self)@ == (if scheduled {
                old(self)@.waiting(panel, generation)
            } else {
                old(self)@
            }),
    {
        if !self.enabled || !has_path || !has_unsaved_changes {
            return false;
        }
        if map_get(&self.saved, panel) == Some(generation) || map_get(&self.pending, panel) == Some(
            generation,
        ) {
            return false;
        }
        map_insert(&mut self.pending, panel, generation);
        true
    }

    /// The quiet moment of an edit has passed: says whether to save now. A
    /// later edit of the document has its own moment.
    pub fn autosave_due(&mut self, panel: PanelId, generation: u64) -> (save: bool)
        ensures
            save == is_at(old(self)@.pending, panel, generation),
            final(self)@ == (if save {
                old(self)@.saving(panel, generation)
            } else {
                old(self)@
            }),
    {
        if map_get(&self.pending, panel) != Some(generation) {
            return false;
        }
        map_remove(&mut self.pending, panel);
        map_insert(&mut self.saved, panel, generation);
        true
    }

    /// A document's save ended.
    pub fn finish_autosave(
        &mut self,
        panel: PanelId,
        generation: u64,
        result: Result<(), String>,
    ) -> (end: AutosaveEnd)
        ensures
            final(self)@ == (if result is Ok {
                old(self)@
            } else {
                old(self)@.failed(panel, generation)
            }),
            match (end, result) {
                (AutosaveEnd::Saved, Ok(_)) => true,
                (AutosaveEnd::Failed { message, report }, Err(error)) => message == error && report@
                    == failure_text("Autosave failed: "@, error@),
                _ => false,
            },
    {
        if result.is_err() && map_get(&self.saved, panel) == Some(generation) {
            map_remove(&mut self.saved, panel);
        }
        ended(result)
    }

    /// Autosave goes off: what was saved is forgotten, and no flow counts as
    /// being saved.
    pub fn reset(&mut self)
        ensures
            final(self)@ == (AutosaveView {
                enabled: false,
                saved: Map::empty(),
                pending: old(self)@.pending,
                flows_in_flight: Set::empty(),
            }),
    {
        self.enabled = false;
        self.saved = empty_map();
        self.flows_in_flight = empty_set();
    }

    /// A flow changed: says whether to save it now. Only one save of a flow is
    /// under way at a time.
    pub fn maybe_autosave_flow(
        &mut self,
        panel: PanelId,
        has_path: bool,
        has_unsaved_changes: bool,
    ) -> (save: bool)
        ensures
            save == (old(self)@.enabled && !old(self)@.flows_in_flight.contains(panel) && has_path
                && has_unsaved_changes),
            final(self)@ == (if save {
                AutosaveView {
                    flows_in_flight: old(self)@.flows_in_flight.insert(panel),
                    ..old(self)@
                }
            } else {
                old(self)@
            }),
    {
        if !self.enabled || set_contains(&self.flows_in_flight, panel) || !has_path
            || !has_unsaved_changes {
            return false;
        }
        set_insert(&mut self.flows_in_flight, panel);
        true
    }

    /// A flow's save ended.
    pub fn finish_flow_autosave(&mut self, panel: PanelId, result: Result<(), String>) -> (end:
        AutosaveEnd)
        ensures
            final(self)@ == (AutosaveView {
                flows_in_flight: old(self)@.flows_in_flight.remove(panel),
                ..old(self)@
            }),
            match (end, result) {
                (AutosaveEnd::Saved, Ok(_)) => true,
                (AutosaveEnd::Failed { message, report }, Err(error)) => message == error && report@
                    == failure_text("Autosave failed: "@, error@),
                _ => false,
            },
    {
        set_remove(&mut self.flows_in_flight, panel);
        ended(result)
    }
}

/// Of a burst of edits only the last is saved: once a later edit waits, the
/// earlier one's moment passes without a save, and the later one's saves it.
pub proof fn a_burst_of_edits_saves_once(state: AutosaveView, panel: u128, first: u64, last: u64)
    requires
        first != last,
    ensures
        ({
            let both = state.waiting(panel, first).waiting(panel, last);
            &&& !is_at(both.pending, panel, first)
            &&& is_at(both.pending, panel, last)
            &&& !both.saving(panel, last).pending.contains_key(panel)
        }),
{
}

/// No edit is lost: a document with a file and unsaved changes is always
/// waiting at its present edit, being saved at it, or about to wait.
pub proof fn no_edit_is_passed_over(state: AutosaveView, panel: u128, generation: u64)
    requires
        state.enabled,
    ensures
        state.wants(panel, true, true, generation) || is_at(state.saved, panel, generation)
            || is_at(state.pending, panel, generation),
{
}

/// A failed save is tried again: the edit may wait once more.
pub proof fn a_failed_save_may_be_tried_again(state: AutosaveView, panel: u128, generation: u64)
    requires
        state.enabled,
        is_at(state.pending, panel, generation),
    ensures
        state.saving(panel, generation).failed(panel, generation).wants(
            panel,
            true,
            true,
            generation,
        ),
{
}

/// One document's autosave leaves every other's alone.
pub proof fn documents_autosave_apart(state: AutosaveView, panel: u128, other: u128, generation: u64)
    requires
        panel != other,
    ensures
        ({
            let after = state.waiting(panel, generation).saving(panel, generation).failed(
                panel,
                generation,
            );
            &&& after.pending.contains_key(other) == state.pending.contains_key(other)
            &&& state.pending.contains_key(other) ==> after.pending[other] == state.pending[other]
            &&& after.saved.contains_key(other) == state.saved.contains_key(other)
            &&& state.saved.contains_key(other) ==> after.saved[other] == state.saved[other]
        }),
{
}

} // verus!
