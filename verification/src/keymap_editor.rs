//! The table of key bindings: what is said under each row, and the row that
//! records.

use crate::commands::CommandId;
use crate::keymap::{
    conflict_values, handle_keymap_recording_key, is_modifier, RecordingKey,
};
use crate::text::{join_texts, joined_with, same_text, texts};
use vstd::prelude::*;
use vstd::string::StringExecFns;

verus! {

/// One value for some of the commands.
#[derive(Debug)]
pub struct CommandTable<V> {
    pub entries: Vec<(CommandId, V)>,
}

/// Where a command's entry stands among those from `from` on.
pub open spec fn entry_at<V>(entries: Seq<(CommandId, V)>, command: CommandId, from: int) -> Option<int>
    decreases entries.len() - from,
{
    if from < 0 || from >= entries.len() {
        None
    } else if entries[from].0 == command {
        Some(from)
    } else {
        entry_at(entries, command, from + 1)
    }
}

/// A command's value in a list.
pub open spec fn value_in<V>(entries: Seq<(CommandId, V)>, command: CommandId) -> Option<V> {
    match entry_at(entries, command, 0) {
        Some(at) => Some(entries[at].1),
        None => None,
    }
}

/// The first `k` entries without a command's.
pub open spec fn entries_without<V>(
    entries: Seq<(CommandId, V)>,
    command: CommandId,
    k: int,
) -> Seq<(CommandId, V)>
    decreases k,
{
    if k <= 0 {
        Seq::empty()
    } else if entries[k - 1].0 == command {
        entries_without(entries, command, k - 1)
    } else {
        entries_without(entries, command, k - 1).push(entries[k - 1])
    }
}

proof fn lemma_entry_at<V>(entries: Seq<(CommandId, V)>, command: CommandId, from: int)
    requires
        0 <= from <= entries.len(),
    ensures
        match entry_at(entries, command, from) {
            Some(at) => from <= at < entries.len() && entries[at].0 == command && forall|i: int|
                from <= i < at ==> (#[trigger] entries[i]).0 != command,
            None => forall|i: int|
                from <= i < entries.len() ==> (#[trigger] entries[i]).0 != command,
        },
    decreases entries.len() - from,
{
    if from < entries.len() && entries[from].0 != command {
        lemma_entry_at(entries, command, from + 1);
    }
}

proof fn lemma_value_push<V>(
    entries: Seq<(CommandId, V)>,
    entry: (CommandId, V),
    command: CommandId,
)
    ensures
        value_in(entries.push(entry), command) == (match value_in(entries, command) {
            Some(value) => Some(value),
            None => if entry.0 == command {
                Some(entry.1)
            } else {
                None
            },
        }),
{
    let more = entries.push(entry);
    lemma_entry_at(entries, command, 0);
    lemma_entry_at(more, command, 0);
    match (entry_at(entries, command, 0), entry_at(more, command, 0)) {
        (Some(at), Some(other)) => {
            assert(more[at] == entries[at]);
            if other < at {
                assert(entries[other] == more[other]);
            }
        },
        (Some(at), None) => {
            assert(more[at] == entries[at]);
        },
        (None, Some(other)) => {
            if other < entries.len() {
                assert(entries[other] == more[other]);
            }
        },
        (None, None) => {
            assert(more[entries.len() as int] == entry);
        },
    }
}

proof fn lemma_without<V>(
    entries: Seq<(CommandId, V)>,
    command: CommandId,
    other: CommandId,
    k: int,
)
    requires
        0 <= k <= entries.len(),
    ensures
        value_in(entries_without(entries, command, k), other) == (if other == command {
            None
        } else {
            value_in(entries.take(k), other)
        }),
    decreases k,
{
    if k > 0 {
        lemma_without(entries, command, other, k - 1);
        assert(entries.take(k) =~= entries.take(k - 1).push(entries[k - 1]));
        lemma_value_push(entries.take(k - 1), entries[k - 1], other);
        lemma_value_push(entries_without(entries, command, k - 1), entries[k - 1], other);
    }
}

impl<V> CommandTable<V> {
    /// A command's value.
    pub open spec fn value(self, command: CommandId) -> Option<V> {
        value_in(self.entries@, command)
    }

    pub fn new() -> (table: Self)
        ensures
            forall|command: CommandId| #[trigger] table.value(command) is None,
    {
        CommandTable { entries: Vec::new() }
    }

    pub fn get(&self, command: CommandId) -> (value: Option<&V>)
        ensures
            match (value, self.value(command)) {
                (Some(own), Some(held)) => *own == held,
                (None, None) => true,
                _ => false,
            },
    {
        let mut next: usize = 0;
        while next < self.entries.len()
            invariant
                next <= self.entries@.len(),
                entry_at(self.entries@, command, 0) == entry_at(
                    self.entries@,
                    command,
                    next as int,
                ),
            decreases self.entries@.len() - next,
        {
            if self.entries[next].0 == command {
                return Some(&self.entries[next].1);
            }
            next = next + 1;
        }
        None
    }

    /// Takes a command's value out; the others stay.
    pub fn remove(&mut self, command: CommandId)
        ensures
            forall|other: CommandId| #[trigger]
                final(self).value(other) == (if other == command {
                    None
                } else {
                    old(self).value(other)
                }),
    {
        let ghost given = self.entries@;
        let mut kept: Vec<(CommandId, V)> = Vec::new();
        std::mem::swap(&mut kept, &mut self.entries);
        let mut at: usize = 0;
        let ghost mut seen: int = 0;
        assert(kept@ =~= entries_without(given, command, 0) + given.skip(0));
        while at < kept.len()
            invariant
                0 <= seen <= given.len(),
                at == entries_without(given, command, seen).len(),
                kept@ == entries_without(given, command, seen) + given.skip(seen),
            decreases kept@.len() - at,
        {
            let ghost before = entries_without(given, command, seen);
            assert(kept@[at as int] == given[seen]);
            if kept[at].0 == command {
                kept.remove(at);
                assert(kept@ =~= before + given.skip(seen + 1));
            } else {
                assert(kept@ =~= before.push(given[seen]) + given.skip(seen + 1));
                at = at + 1;
            }
            proof {
                seen = seen + 1;
            }
        }
        assert(seen == given.len());
        assert(kept@ =~= entries_without(given, command, given.len() as int));
        self.entries = kept;
        assert forall|other: CommandId| #[trigger]
            self.value(other) == (if other == command {
                None
            } else {
                old(self).value(other)
            }) by {
            lemma_without(given, command, other, given.len() as int);
            assert(given.take(given.len() as int) =~= given);
        }
    }

    /// Gives a command a value in place of any that it had.
    pub fn insert(&mut self, command: CommandId, value: V)
        ensures
            forall|other: CommandId| #[trigger]
                final(self).value(other) == (if other == command {
                    Some(value)
                } else {
                    old(self).value(other)
                }),
    {
        self.remove(command);
        let ghost middle = *self;
        self.entries.push((command, value));
        assert forall|other: CommandId| #[trigger]
            self.value(other) == (if other == command {
                Some(value)
            } else {
                old(self).value(other)
            }) by {
            lemma_value_push(middle.entries@, (command, value), other);
            assert(middle.value(other) == (if other == command {
                None
            } else {
                old(self).value(other)
            }));
        }
    }
}

/// The table's state.
#[derive(Debug)]
pub struct KeymapEditor {
    /// The row that records.
    pub recording: Option<CommandId>,
    pub errors: CommandTable<String>,
    /// Keys of a row that other commands have too.
    pub conflicts: CommandTable<Vec<(String, CommandId)>>,
    /// Moves on when rows must be drawn anew from the keymap.
    pub ui_generation: u64,
}

/// A row as it is drawn.
#[derive(Debug)]
pub struct KeymapRowView {
    pub striped: bool,
    /// The keys as the field begins with them.
    pub keys: String,
    pub recording: bool,
    pub record_label: &'static str,
    pub error: Option<String>,
    /// What is said of each conflict, with its key and the other command.
    pub conflicts: Vec<(String, String, CommandId)>,
}

impl KeymapEditor {
    /// What is said under a command's row.
    pub open spec fn error_text(self, command: CommandId) -> Option<Seq<char>> {
        match self.errors.value(command) {
            Some(text) => Some(text@),
            None => None,
        }
    }

    /// A row's conflicts.
    pub open spec fn conflict_list(self, command: CommandId) -> Seq<(Seq<char>, CommandId)> {
        match self.conflicts.value(command) {
            Some(list) => conflict_values(list@),
            None => Seq::empty(),
        }
    }

    pub fn new() -> (editor: Self)
        ensures
            editor.recording is None,
            forall|command: CommandId| #[trigger] editor.error_text(command) is None,
            forall|command: CommandId| #[trigger] editor.conflict_list(command).len() == 0,
            editor.ui_generation == 0,
    {
        let editor = KeymapEditor {
            recording: None,
            errors: CommandTable::new(),
            conflicts: CommandTable::new(),
            ui_generation: 0,
        };
        assert forall|command: CommandId| #[trigger] editor.error_text(command) is None by {
            assert(editor.errors.value(command) is None);
        }
        assert forall|command: CommandId| #[trigger] editor.conflict_list(command).len() == 0 by {
            assert(editor.conflicts.value(command) is None);
        }
        editor
    }

    /// A row's keys changed: what is wrong with them is said under it, and
    /// what was said before is gone.
    pub fn take_update(
        &mut self,
        command: CommandId,
        conflicts: Vec<(String, CommandId)>,
        error: Option<String>,
    )
        ensures
            forall|other: CommandId| #[trigger]
                final(self).error_text(other) == (if other == command {
                    match error {
                        Some(text) => Some(text@),
                        None => None,
                    }
                } else {
                    old(self).error_text(other)
                }),
            forall|other: CommandId| #[trigger]
                final(self).conflict_list(other) == (if other == command {
                    conflict_values(conflicts@)
                } else {
                    old(self).conflict_list(other)
                }),
            final(self).error_text(command) == (match error {
                Some(text) => Some(text@),
                None => None,
            }),
            final(self).conflict_list(command) == conflict_values(conflicts@),
            final(self).recording == old(self).recording,
            final(self).ui_generation == old(self).ui_generation,
    {
        let ghost listed = conflicts@;
        if conflicts.len() == 0 {
            assert(conflict_values(listed) =~= Seq::empty());
            self.conflicts.remove(command);
        } else {
            self.conflicts.insert(command, conflicts);
        }
        let ghost middle = *self;
        match error {
            Some(text) => {
                self.errors.insert(command, text);
            },
            None => {
                self.errors.remove(command);
            },
        }
        assert forall|other: CommandId| #[trigger]
            self.conflict_list(other) == (if other == command {
                conflict_values(listed)
            } else {
                old(self).conflict_list(other)
            }) by {
            assert(self.conflicts.value(other) == middle.conflicts.value(other));
        }
        assert forall|other: CommandId| #[trigger]
            self.error_text(other) == (if other == command {
                match error {
                    Some(text) => Some(text@),
                    None => None,
                }
            } else {
                old(self).error_text(other)
            }) by {
            assert(middle.errors.value(other) == old(self).errors.value(other));
            assert(self.errors.value(other) == (if other == command {
                error
            } else {
                middle.errors.value(other)
            }));
        }
    }

    /// A row's button was pressed: it starts to record, or stops.
    pub fn toggle_recording(&mut self, command: CommandId)
        ensures
            *final(self) == (KeymapEditor {
                recording: if old(self).recording == Some(command) {
                    None
                } else {
                    Some(command)
                },
                ..*old(self)
            }),
    {
        let stops = match self.recording {
            Some(other) => other == command,
            None => false,
        };
        self.recording =
        if stops {
            None
        } else {
            Some(command)
        };
    }

    /// A key is pressed. While a row records, Escape ends that, a modifier
    /// alone is passed over, and another chord is the row's new binding.
    pub fn press_key(&mut self, key: &str) -> (outcome: RecordingKey)
        ensures
            outcome == (match old(self).recording {
                None => RecordingKey::NotRecording,
                Some(command) => if key@ == "escape"@ {
                    RecordingKey::Cancelled
                } else if is_modifier(key@) {
                    RecordingKey::Ignored
                } else {
                    RecordingKey::Bind(command)
                },
            }),
            *final(self) == (KeymapEditor {
                recording: if outcome == RecordingKey::Cancelled || outcome is Bind {
                    None
                } else {
                    old(self).recording
                },
                ui_generation: if outcome is Bind {
                    old(self).ui_generation.wrapping_add(1)
                } else {
                    old(self).ui_generation
                },
                ..*old(self)
            }),
    {
        let outcome = handle_keymap_recording_key(self.recording, key);
        match outcome {
            RecordingKey::Cancelled => {
                self.recording = None;
            },
            RecordingKey::Bind(_) => {
                self.recording = None;
                self.ui_generation = self.ui_generation.wrapping_add(1);
            },
            _ => {},
        }
        outcome
    }

    /// A conflicted key was taken from the other command: the row has no
    /// conflict any more.
    pub fn stolen(&mut self, winner: CommandId)
        ensures
            forall|other: CommandId| #[trigger]
                final(self).conflict_list(other) == (if other == winner {
                    Seq::empty()
                } else {
                    old(self).conflict_list(other)
                }),
            final(self).conflict_list(winner) == Seq::<(Seq<char>, CommandId)>::empty(),
            final(self).errors == old(self).errors,
            final(self).recording == old(self).recording,
            final(self).ui_generation == old(self).ui_generation.wrapping_add(1),
    {
        self.conflicts.remove(winner);
        self.ui_generation = self.ui_generation.wrapping_add(1);
        assert forall|other: CommandId| #[trigger]
            self.conflict_list(other) == (if other == winner {
                Seq::empty()
            } else {
                old(self).conflict_list(other)
            }) by {
            assert(self.conflicts.value(other) == (if other == winner {
                None
            } else {
                old(self).conflicts.value(other)
            }));
        }
    }

    /// Imported bindings were taken: every row is drawn anew.
    pub fn imported(&mut self)
        ensures
            *final(self) == (KeymapEditor {
                ui_generation: old(self).ui_generation.wrapping_add(1),
                ..*old(self)
            }),
    {
        self.ui_generation = self.ui_generation.wrapping_add(1);
    }

    /// A row as it is drawn. The labels are those of the commands that its
    /// conflicts name, none for one that has no row.
    pub fn render_keymap_row(
        &self,
        command: CommandId,
        row_ix: usize,
        keys: &Vec<String>,
        other_labels: &CommandTable<String>,
    ) -> (view: KeymapRowView)
        ensures
            view.striped == (row_ix % 2 == 1),
            view.keys@ == joined_with(texts(keys@), ", "@),
            view.recording == (self.recording == Some(command)),
            view.record_label@ == (if view.recording {
                "Press keys…"@
            } else {
                "Record"@
            }),
            match view.error {
                Some(text) => self.error_text(command) == Some(text@),
                None => self.error_text(command) is None,
            },
            view.conflicts@.len() == self.conflict_list(command).len(),
            forall|i: int|
                0 <= i < view.conflicts@.len() ==> {
                    let line = #[trigger] view.conflicts@[i];
                    let conflict = self.conflict_list(command)[i];
                    &&& line.1@ == conflict.0
                    &&& line.2 == conflict.1
                    &&& line.0@ == conflict.0 + " is also bound to "@ + (match other_labels.value(
                        conflict.1,
                    ) {
                        Some(label) => label@,
                        None => "another command"@,
                    })
                },
    {
        let recording = match self.recording {
            Some(other) => other == command,
            None => false,
        };
        let error = match self.errors.get(command) {
            Some(text) => Some(text.clone()),
            None => None,
        };
        let mut lines: Vec<(String, String, CommandId)> = Vec::new();
        if let Some(list) = self.conflicts.get(command) {
            let mut next: usize = 0;
            while next < list.len()
                invariant
                    next <= list@.len(),
                    lines@.len() == next,
                    forall|i: int|
                        0 <= i < next ==> {
                            let line = #[trigger] lines@[i];
                            &&& line.1@ == list@[i].0@
                            &&& line.2 == list@[i].1
                            &&& line.0@ == list@[i].0@ + " is also bound to "@ + (
                            match other_labels.value(list@[i].1) {
                                Some(label) => label@,
                                None => "another command"@,
                            })
                        },
                decreases list@.len() - next,
            {
                let key = list[next].0.as_str();
                let other = list[next].1;
                let label = match other_labels.get(other) {
                    Some(label) => Some(label.as_str()),
                    None => None,
                };
                let text = crate::keymap::conflict_text(key, label);
                lines.push((text, list[next].0.clone(), other));
                next = next + 1;
            }
        }
        KeymapRowView {
            striped: row_ix % 2 == 1,
            keys: join_texts(keys, ", "),
            recording,
            record_label: if recording {
                "Press keys…"
            } else {
                "Record"
            },
            error,
            conflicts: lines,
        }
    }
}

/// Whether a row's field says something new.
pub fn field_changed(value: &str, last: &str) -> (b: bool)
    ensures
        b == (value@ != last@),
{
    !same_text(value, last)
}

/// What came of an export or an import, as it is told.
#[derive(Debug)]
pub enum ExchangeNotice {
    Activity(String),
    Failure(String),
}

/// How an export ended.
pub fn export_keymap(result: Result<(), String>) -> (notice: ExchangeNotice)
    ensures
        match (result, notice) {
            (Ok(_), ExchangeNotice::Activity(text)) => text@ == "Keymap exported"@,
            (Err(error), ExchangeNotice::Failure(text)) => text@ == "Exporting the keymap failed: "@
                + error@,
            _ => false,
        },
{
    match result {
        Ok(_) => ExchangeNotice::Activity(String::from_str("Keymap exported")),
        Err(error) => {
            let mut text = String::from_str("Exporting the keymap failed: ");
            text.append(error.as_str());
            ExchangeNotice::Failure(text)
        },
    }
}

/// How an import ended: a file that did not read, bindings that are not
/// valid, or bindings to save.
pub fn import_keymap(read: Result<(), String>, refusal: Option<String>) -> (notice: ExchangeNotice)
    ensures
        match (read, refusal, notice) {
            (Err(error), _, ExchangeNotice::Failure(text)) => text@
                == "Importing the keymap failed: "@ + error@,
            (Ok(_), Some(refusal), ExchangeNotice::Failure(text)) => text == refusal,
            (Ok(_), None, ExchangeNotice::Activity(text)) => text@ == "Keymap imported"@,
            _ => false,
        },
{
    match read {
        Err(error) => {
            let mut text = String::from_str("Importing the keymap failed: ");
            text.append(error.as_str());
            ExchangeNotice::Failure(text)
        },
        Ok(_) => match refusal {
            Some(refusal) => ExchangeNotice::Failure(refusal),
            None => ExchangeNotice::Activity(String::from_str("Keymap imported")),
        },
    }
}

} // verus!
