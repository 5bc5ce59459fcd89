//! Key bindings: editing, recording and stealing them.

use crate::commands::CommandId;
use crate::text::{
    chars_of, join_texts, joined_with, lemma_texts_push, same_text, text_between, texts, trim,
    trimmed,
};
use vstd::prelude::*;
use vstd::string::StringExecFns;

verus! {

/// A key that gives a command.
#[derive(Debug)]
pub struct KeymapEntry {
    pub command: CommandId,
    pub key: String,
    pub context: Option<String>,
}

/// A binding by its values.
#[verifier::ext_equal]
pub struct EntryValue {
    pub command: CommandId,
    pub key: Seq<char>,
    pub context: Option<Seq<char>>,
}

impl View for KeymapEntry {
    type V = EntryValue;

    open spec fn view(&self) -> EntryValue {
        EntryValue {
            command: self.command,
            key: self.key@,
            context: context_text(self.context),
        }
    }
}

pub open spec fn context_text(context: Option<String>) -> Option<Seq<char>> {
    match context {
        Some(text) => Some(text@),
        None => None,
    }
}

/// Bindings by their values.
pub open spec fn entry_values(entries: Seq<KeymapEntry>) -> Seq<EntryValue> {
    entries.map_values(|entry: KeymapEntry| entry@)
}

proof fn lemma_entries_push(entries: Seq<KeymapEntry>, entry: KeymapEntry)
    ensures
        entry_values(entries.push(entry)) == entry_values(entries).push(entry@),
{
    assert(entry_values(entries.push(entry)) =~= entry_values(entries).push(entry@));
}

fn copy_context(context: &Option<String>) -> (copy: Option<String>)
    ensures
        context_text(copy) == context_text(*context),
{
    match context {
        Some(text) => Some(text.clone()),
        None => None,
    }
}

fn copy_entry(entry: &KeymapEntry) -> (copy: KeymapEntry)
    ensures
        copy@ == entry@,
{
    KeymapEntry {
        command: entry.command,
        key: entry.key.clone(),
        context: copy_context(&entry.context),
    }
}

/// The parts of a text between its commas, up to `k`, and what follows the
/// last of them.
pub open spec fn comma_parts(text: Seq<char>, k: int) -> (Seq<Seq<char>>, Seq<char>)
    decreases k,
{
    if k <= 0 {
        (Seq::empty(), Seq::empty())
    } else {
        let (parts, rest) = comma_parts(text, k - 1);
        if text[k - 1] == ',' {
            (parts.push(rest), Seq::empty())
        } else {
            (parts, rest.push(text[k - 1]))
        }
    }
}

/// The keys among the first `k` parts: without the spaces round them, and
/// none for a part that is empty.
pub open spec fn keys_in(parts: Seq<Seq<char>>, k: int) -> Seq<Seq<char>>
    decreases k,
{
    if k <= 0 {
        Seq::empty()
    } else if trimmed(parts[k - 1]).len() == 0 {
        keys_in(parts, k - 1)
    } else {
        keys_in(parts, k - 1).push(trimmed(parts[k - 1]))
    }
}

/// The keys that a field lists, with commas between them.
pub open spec fn listed_keys(text: Seq<char>) -> Seq<Seq<char>> {
    let (parts, rest) = comma_parts(text, text.len() as int);
    let all = parts.push(rest);
    keys_in(all, all.len() as int)
}

/// Adds a part's key.
fn push_key(keys: &mut Vec<String>, part: &str)
    ensures
        texts(final(keys)@) == (if trimmed(part@).len() == 0 {
            texts(old(keys)@)
        } else {
            texts(old(keys)@).push(trimmed(part@))
        }),
{
    let key = trim(part);
    if !key.as_str().is_empty() {
        proof {
            lemma_texts_push(keys@, key);
        }
        keys.push(key);
    }
}

proof fn lemma_keys_front(parts: Seq<Seq<char>>, rest: Seq<char>, k: int)
    requires
        0 <= k <= parts.len(),
    ensures
        keys_in(parts.push(rest), k) == keys_in(parts, k),
    decreases k,
{
    if k > 0 {
        lemma_keys_front(parts, rest, k - 1);
    }
}

/// The keys that a field lists.
pub fn binding_keys(value: &str) -> (keys: Vec<String>)
    ensures
        texts(keys@) == listed_keys(value@),
{
    let chars = chars_of(value);
    let mut keys: Vec<String> = Vec::new();
    let mut from: usize = 0;
    let mut next: usize = 0;
    assert(texts(keys@) =~= Seq::empty());
    while next < chars.len()
        invariant
            from <= next <= chars@.len(),
            comma_parts(chars@, next as int).1 == chars@.subrange(from as int, next as int),
            texts(keys@) == keys_in(
                comma_parts(chars@, next as int).0,
                comma_parts(chars@, next as int).0.len() as int,
            ),
        decreases chars@.len() - next,
    {
        let ghost (parts, rest) = comma_parts(chars@, next as int);
        if chars[next] == ',' {
            let part = text_between(&chars, from, next);
            push_key(&mut keys, part.as_str());
            proof {
                lemma_keys_front(parts, rest, parts.len() as int);
                assert(parts.push(rest)[parts.len() as int] == rest);
            }
            from = next + 1;
            assert(chars@.subrange(from as int, next + 1) =~= Seq::empty());
        } else {
            assert(rest.push(chars@[next as int]) =~= chars@.subrange(from as int, next + 1));
        }
        next = next + 1;
    }
    let ghost (parts, rest) = comma_parts(chars@, chars@.len() as int);
    let part = text_between(&chars, from, next);
    push_key(&mut keys, part.as_str());
    proof {
        lemma_keys_front(parts, rest, parts.len() as int);
        assert(parts.push(rest)[parts.len() as int] == rest);
    }
    keys
}

/// The bindings of other commands among the first `k`.
pub open spec fn of_other_commands(entries: Seq<EntryValue>, command: CommandId, k: int) -> Seq<
    EntryValue,
>
    decreases k,
{
    if k <= 0 {
        Seq::empty()
    } else if entries[k - 1].command != command {
        of_other_commands(entries, command, k - 1).push(entries[k - 1])
    } else {
        of_other_commands(entries, command, k - 1)
    }
}

/// New bindings of a command for those of the first `k` keys that are valid.
pub open spec fn new_entries(
    command: CommandId,
    context: Option<Seq<char>>,
    keys: Seq<Seq<char>>,
    valid: Seq<bool>,
    k: int,
) -> Seq<EntryValue>
    decreases k,
{
    if k <= 0 {
        Seq::empty()
    } else if valid[k - 1] {
        new_entries(command, context, keys, valid, k - 1).push(
            EntryValue { command, key: keys[k - 1], context },
        )
    } else {
        new_entries(command, context, keys, valid, k - 1)
    }
}

/// Those of the first `k` keys that are not valid.
pub open spec fn invalid_keys(keys: Seq<Seq<char>>, valid: Seq<bool>, k: int) -> Seq<Seq<char>>
    decreases k,
{
    if k <= 0 {
        Seq::empty()
    } else if valid[k - 1] {
        invalid_keys(keys, valid, k - 1)
    } else {
        invalid_keys(keys, valid, k - 1).push(keys[k - 1])
    }
}

/// A key is bound to the command.
pub open spec fn is_bound(entries: Seq<EntryValue>, command: CommandId, key: Seq<char>) -> bool {
    exists|i: int|
        0 <= i < entries.len() && (#[trigger] entries[i]).command == command && entries[i].key == key
}

/// Keys of a command that are bound to others too, among the first `k`
/// bindings, each with the other command.
pub open spec fn conflicts_in(entries: Seq<EntryValue>, command: CommandId, k: int) -> Seq<
    (Seq<char>, CommandId),
>
    decreases k,
{
    if k <= 0 {
        Seq::empty()
    } else {
        let entry = entries[k - 1];
        if entry.command != command && is_bound(entries, command, entry.key) {
            conflicts_in(entries, command, k - 1).push((entry.key, entry.command))
        } else {
            conflicts_in(entries, command, k - 1)
        }
    }
}

/// Conflicts by their values.
pub open spec fn conflict_values(conflicts: Seq<(String, CommandId)>) -> Seq<
    (Seq<char>, CommandId),
> {
    conflicts.map_values(|conflict: (String, CommandId)| (conflict.0@, conflict.1))
}

/// What editing a command's keys leads to.
#[derive(Debug)]
pub struct KeymapUpdate {
    pub entries: Vec<KeymapEntry>,
    pub conflicts: Vec<(String, CommandId)>,
    /// What is said under the row.
    pub error: Option<String>,
}

fn bound(entries: &Vec<KeymapEntry>, command: CommandId, key: &str) -> (b: bool)
    ensures
        b == is_bound(entry_values(entries@), command, key@),
{
    let ghost all = entry_values(entries@);
    let mut next: usize = 0;
    while next < entries.len()
        invariant
            next <= entries@.len(),
            all == entry_values(entries@),
            forall|i: int|
                0 <= i < next ==> !((#[trigger] all[i]).command == command && all[i].key == key@),
        decreases entries@.len() - next,
    {
        assert(all[next as int] == entries@[next as int]@);
        if entries[next].command == command && same_text(entries[next].key.as_str(), key) {
            return true;
        }
        next = next + 1;
    }
    false
}

/// Gives a command new keys in place of its old ones. Keys that are not
/// valid are named and left out; keys that other commands have are named as
/// conflicts.
pub fn update_keymap_command(
    entries: &Vec<KeymapEntry>,
    command: CommandId,
    context: &Option<String>,
    keys: &Vec<String>,
    valid: &Vec<bool>,
) -> (update: KeymapUpdate)
    requires
        keys@.len() == valid@.len(),
    ensures
        ({
            let before = entry_values(entries@);
            let bad = invalid_keys(texts(keys@), valid@, keys@.len() as int);
            let after = of_other_commands(before, command, before.len() as int) + new_entries(
                command,
                context_text(*context),
                texts(keys@),
                valid@,
                keys@.len() as int,
            );
            &&& entry_values(update.entries@) == after
            &&& conflict_values(update.conflicts@) == conflicts_in(
                after,
                command,
                after.len() as int,
            )
            &&& update.error is Some == (bad.len() > 0)
            &&& bad.len() > 0 ==> (update.error->0)@ == "Not a valid binding: "@ + joined_with(
                bad,
                ", "@,
            )
        }),
{
    let ghost before = entry_values(entries@);
    let mut after: Vec<KeymapEntry> = Vec::new();
    let mut next: usize = 0;
    assert(entry_values(after@) =~= Seq::empty());
    while next < entries.len()
        invariant
            next <= entries@.len(),
            before == entry_values(entries@),
            entry_values(after@) == of_other_commands(before, command, next as int),
        decreases entries@.len() - next,
    {
        assert(before[next as int] == entries@[next as int]@);
        if entries[next].command != command {
            let entry = copy_entry(&entries[next]);
            proof {
                lemma_entries_push(after@, entry);
            }
            after.push(entry);
        }
        next = next + 1;
    }
    assert(before.len() == entries@.len());
    let ghost kept = entry_values(after@);
    let mut bad: Vec<String> = Vec::new();
    let mut at: usize = 0;
    assert(texts(bad@) =~= Seq::empty());
    assert(kept + new_entries(command, context_text(*context), texts(keys@), valid@, 0) =~= kept);
    while at < keys.len()
        invariant
            at <= keys@.len(),
            keys@.len() == valid@.len(),
            entry_values(after@) == kept + new_entries(
                command,
                context_text(*context),
                texts(keys@),
                valid@,
                at as int,
            ),
            texts(bad@) == invalid_keys(texts(keys@), valid@, at as int),
        decreases keys@.len() - at,
    {
        assert(texts(keys@)[at as int] == keys@[at as int]@);
        let ghost added = new_entries(
            command,
            context_text(*context),
            texts(keys@),
            valid@,
            at as int,
        );
        if valid[at] {
            let entry = KeymapEntry {
                command,
                key: keys[at].clone(),
                context: copy_context(context),
            };
            proof {
                lemma_entries_push(after@, entry);
                assert((kept + added).push(entry@) =~= kept + added.push(entry@));
            }
            after.push(entry);
        } else {
            let key = keys[at].clone();
            proof {
                lemma_texts_push(bad@, key);
            }
            bad.push(key);
        }
        at = at + 1;
    }
    let ghost all = entry_values(after@);
    let mut conflicts: Vec<(String, CommandId)> = Vec::new();
    let mut i: usize = 0;
    assert(conflict_values(conflicts@) =~= Seq::empty());
    while i < after.len()
        invariant
            i <= after@.len(),
            all == entry_values(after@),
            conflict_values(conflicts@) == conflicts_in(all, command, i as int),
        decreases after@.len() - i,
    {
        let entry = &after[i];
        assert(all[i as int] == entry@);
        let ghost earlier = conflicts@;
        if entry.command != command && bound(&after, command, entry.key.as_str()) {
            conflicts.push((entry.key.clone(), entry.command));
            assert(conflict_values(conflicts@) =~= conflict_values(earlier).push(
                (entry.key@, entry.command),
            ));
        }
        i = i + 1;
    }
    assert(texts(bad@).len() == bad@.len());
    assert(all.len() == after@.len());
    let error = if bad.len() > 0 {
        let mut text = String::from_str("Not a valid binding: ");
        let list = join_texts(&bad, ", ");
        text.append(list.as_str());
        Some(text)
    } else {
        None
    };
    KeymapUpdate { entries: after, conflicts, error }
}

/// The bindings but one command's binding of a key, among the first `k`.
pub open spec fn without_binding(
    entries: Seq<EntryValue>,
    command: CommandId,
    key: Seq<char>,
    k: int,
) -> Seq<EntryValue>
    decreases k,
{
    if k <= 0 {
        Seq::empty()
    } else if entries[k - 1].command == command && entries[k - 1].key == key {
        without_binding(entries, command, key, k - 1)
    } else {
        without_binding(entries, command, key, k - 1).push(entries[k - 1])
    }
}

/// Takes a key away from a command.
pub fn steal_keymap_binding(entries: &Vec<KeymapEntry>, loser: CommandId, key: &str) -> (left: Vec<
    KeymapEntry,
>)
    ensures
        entry_values(left@) == without_binding(
            entry_values(entries@),
            loser,
            key@,
            entries@.len() as int,
        ),
{
    let ghost before = entry_values(entries@);
    let mut left: Vec<KeymapEntry> = Vec::new();
    let mut next: usize = 0;
    assert(entry_values(left@) =~= Seq::empty());
    while next < entries.len()
        invariant
            next <= entries@.len(),
            before == entry_values(entries@),
            entry_values(left@) == without_binding(before, loser, key@, next as int),
        decreases entries@.len() - next,
    {
        assert(before[next as int] == entries@[next as int]@);
        if !(entries[next].command == loser && same_text(entries[next].key.as_str(), key)) {
            let entry = copy_entry(&entries[next]);
            proof {
                lemma_entries_push(left@, entry);
            }
            left.push(entry);
        }
        next = next + 1;
    }
    left
}

/// A stolen key is gone from the command that lost it, and every other
/// binding stays.
pub proof fn a_stolen_key_is_gone(
    entries: Seq<EntryValue>,
    loser: CommandId,
    key: Seq<char>,
    command: CommandId,
    other: Seq<char>,
    k: int,
)
    requires
        0 <= k <= entries.len(),
    ensures
        is_bound(without_binding(entries, loser, key, k), command, other) == (is_bound(
            entries.take(k),
            command,
            other,
        ) && !(command == loser && other == key)),
    decreases k,
{
    let after = without_binding(entries, loser, key, k);
    let front = entries.take(k);
    if k > 0 {
        a_stolen_key_is_gone(entries, loser, key, command, other, k - 1);
        let before = without_binding(entries, loser, key, k - 1);
        let shorter = entries.take(k - 1);
        if is_bound(after, command, other) {
            let i = choose|i: int|
                0 <= i < after.len() && (#[trigger] after[i]).command == command && after[i].key
                    == other;
            if i < before.len() {
                assert(before[i] == after[i]);
                assert(is_bound(before, command, other));
                let j = choose|j: int|
                    0 <= j < shorter.len() && (#[trigger] shorter[j]).command == command
                        && shorter[j].key == other;
                assert(front[j] == shorter[j]);
            } else {
                assert(front[k - 1] == after[i]);
            }
        }
        if is_bound(front, command, other) && !(command == loser && other == key) {
            let j = choose|j: int|
                0 <= j < front.len() && (#[trigger] front[j]).command == command && front[j].key
                    == other;
            if j < k - 1 {
                assert(shorter[j] == front[j]);
                assert(is_bound(before, command, other));
                let i = choose|i: int|
                    0 <= i < before.len() && (#[trigger] before[i]).command == command
                        && before[i].key == other;
                assert(after[i] == before[i]);
            } else {
                assert(after[after.len() - 1] == front[j]);
            }
        }
    }
}

/// What a pressed key does while a row records.
#[derive(Clone, Copy, Debug, PartialEq, Eq, Structural)]
pub enum RecordingKey {
    /// No row records.
    NotRecording,
    /// Escape ends the recording.
    Cancelled,
    /// A modifier alone is no binding.
    Ignored,
    /// The chord is the command's new binding.
    Bind(CommandId),
}

/// A modifier's name.
pub open spec fn is_modifier(key: Seq<char>) -> bool {
    key == "shift"@ || key == "control"@ || key == "alt"@ || key == "platform"@ || key
        == "function"@ || key == "capslock"@ || key.len() == 0
}

/// What a pressed key does while a row records.
pub fn handle_keymap_recording_key(recording: Option<CommandId>, key: &str) -> (outcome:
    RecordingKey)
    ensures
        outcome == (match recording {
            None => RecordingKey::NotRecording,
            Some(command) => if key@ == "escape"@ {
                RecordingKey::Cancelled
            } else if is_modifier(key@) {
                RecordingKey::Ignored
            } else {
                RecordingKey::Bind(command)
            },
        }),
{
    match recording {
        None => RecordingKey::NotRecording,
        Some(command) => if same_text(key, "escape") {
            RecordingKey::Cancelled
        } else if same_text(key, "shift") || same_text(key, "control") || same_text(key, "alt")
            || same_text(key, "platform") || same_text(key, "function") || same_text(
            key,
            "capslock",
        ) || key.is_empty() {
            RecordingKey::Ignored
        } else {
            RecordingKey::Bind(command)
        },
    }
}

/// The command of the first of the entries from `from` on that a keystroke
/// completes.
pub open spec fn first_completed(
    entries: Seq<EntryValue>,
    completed: Seq<bool>,
    from: int,
) -> Option<CommandId>
    decreases entries.len() - from,
{
    if from < 0 || from >= entries.len() {
        None
    } else if completed[from] {
        Some(entries[from].command)
    } else {
        first_completed(entries, completed, from + 1)
    }
}

/// The command that a keystroke runs: that of the first entry whose binding
/// it completes.
pub fn workspace_command_for_keystroke(entries: &Vec<KeymapEntry>, completed: &Vec<bool>) -> (command:
    Option<CommandId>)
    requires
        completed@.len() == entries@.len(),
    ensures
        command == first_completed(entry_values(entries@), completed@, 0),
{
    let ghost all = entry_values(entries@);
    let mut next: usize = 0;
    while next < entries.len()
        invariant
            next <= entries@.len(),
            completed@.len() == entries@.len(),
            all == entry_values(entries@),
            first_completed(all, completed@, 0) == first_completed(all, completed@, next as int),
        decreases entries@.len() - next,
    {
        assert(all[next as int] == entries@[next as int]@);
        if completed[next] {
            return Some(entries[next].command);
        }
        next = next + 1;
    }
    None
}

/// The headings of the table of bindings.
pub fn keymap_table_header() -> (headings: (&'static str, &'static str))
    ensures
        headings.0@ == "Command"@,
        headings.1@ == "Shortcut"@,
{
    ("Command", "Shortcut")
}

/// How a conflict is told.
pub fn conflict_text(key: &str, other_label: Option<&str>) -> (text: String)
    ensures
        text@ == key@ + " is also bound to "@ + (match other_label {
            Some(label) => label@,
            None => "another command"@,
        }),
{
    let mut text = String::from_str(key);
    text.append(" is also bound to ");
    text.append(
        match other_label {
            Some(label) => label,
            None => "another command",
        },
    );
    text
}

/// Whether imported bindings are taken: any that is not valid refuses them
/// all, and is named.
pub fn check_import(keys: &Vec<String>, valid: &Vec<bool>) -> (refusal: Option<String>)
    requires
        keys@.len() == valid@.len(),
    ensures
        ({
            let bad = invalid_keys(texts(keys@), valid@, keys@.len() as int);
            &&& refusal is Some == (bad.len() > 0)
            &&& bad.len() > 0 ==> (refusal->0)@ == "Keymap import refused: invalid bindings ("@
                + joined_with(bad, ", "@) + ")"@
        }),
{
    let mut bad: Vec<String> = Vec::new();
    let mut at: usize = 0;
    assert(texts(bad@) =~= Seq::empty());
    while at < keys.len()
        invariant
            at <= keys@.len(),
            keys@.len() == valid@.len(),
            texts(bad@) == invalid_keys(texts(keys@), valid@, at as int),
        decreases keys@.len() - at,
    {
        assert(texts(keys@)[at as int] == keys@[at as int]@);
        if !valid[at] {
            let key = keys[at].clone();
            proof {
                lemma_texts_push(bad@, key);
            }
            bad.push(key);
        }
        at = at + 1;
    }
    assert(texts(bad@).len() == bad@.len());
    if bad.len() == 0 {
        return None;
    }
    let mut text = String::from_str("Keymap import refused: invalid bindings (");
    let list = join_texts(&bad, ", ");
    text.append(list.as_str());
    text.append(")");
    Some(text)
}

} // verus!
