//! What editing, stealing and recording keys leads to.

use crate::commands::CommandId;
use crate::keymap::{
    binding_keys, check_import, comma_parts, conflict_values, conflicts_in, entry_values,
    first_completed, invalid_keys, is_bound, keys_in, new_entries, of_other_commands,
    steal_keymap_binding, update_keymap_command, workspace_command_for_keystroke, KeymapEntry,
    KeymapUpdate, RecordingKey,
};
use crate::keymap_editor::{CommandTable, KeymapEditor, KeymapRowView};
use crate::places::{lemma_place_added, places_are};
use crate::text::{joined_with, texts, trimmed};
use vstd::prelude::*;

verus! {

/// A text without a comma in it.
pub open spec fn no_comma(text: Seq<char>) -> bool {
    forall|i: int| 0 <= i < text.len() ==> #[trigger] text[i] != ','
}

proof fn lemma_parts_front(text: Seq<char>, longer: Seq<char>, k: int)
    requires
        0 <= k <= text.len() <= longer.len(),
        longer.take(text.len() as int) == text,
    ensures
        comma_parts(longer, k) == comma_parts(text, k),
    decreases k,
{
    if k > 0 {
        lemma_parts_front(text, longer, k - 1);
        assert(longer[k - 1] == longer.take(text.len() as int)[k - 1]);
    }
}

proof fn lemma_part_grows(text: Seq<char>, part: Seq<char>, k: int)
    requires
        0 <= k <= part.len(),
        no_comma(part),
    ensures
        comma_parts(text + part, text.len() as int + k) == (
            comma_parts(text, text.len() as int).0,
            comma_parts(text, text.len() as int).1 + part.take(k),
        ),
    decreases k,
{
    let all = text + part;
    let n = text.len() as int;
    if k == 0 {
        assert(all.take(n) =~= text);
        lemma_parts_front(text, all, n);
        assert(comma_parts(text, n).1 + part.take(0) =~= comma_parts(text, n).1);
    } else {
        lemma_part_grows(text, part, k - 1);
        assert(all[n + k - 1] == part[k - 1]);
        assert((comma_parts(text, n).1 + part.take(k - 1)).push(part[k - 1])
            =~= comma_parts(text, n).1 + part.take(k));
    }
}

/// The parts of texts that were joined with commas are those texts.
proof fn lemma_parts_joined(parts: Seq<Seq<char>>)
    requires
        parts.len() > 0,
        forall|i: int| 0 <= i < parts.len() ==> no_comma(#[trigger] parts[i]),
    ensures
        ({
            let text = joined_with(parts, seq![',']);
            comma_parts(text, text.len() as int) == (parts.drop_last(), parts.last())
        }),
    decreases parts.len(),
{
    let comma = seq![','];
    let text = joined_with(parts, comma);
    let last = parts.last();
    assert(no_comma(parts[parts.len() - 1]));
    if parts.len() == 1 {
        lemma_part_grows(Seq::empty(), last, last.len() as int);
        assert(Seq::<char>::empty() + last =~= last);
        assert(last.take(last.len() as int) =~= last);
        assert(comma_parts(Seq::<char>::empty(), 0) == (
            Seq::<Seq<char>>::empty(),
            Seq::<char>::empty(),
        ));
        assert(parts.drop_last() =~= Seq::empty());
    } else {
        let before = parts.drop_last();
        assert forall|i: int| 0 <= i < before.len() implies no_comma(#[trigger] before[i]) by {
            assert(before[i] == parts[i]);
        }
        lemma_parts_joined(before);
        let front = joined_with(before, comma);
        let cut = front + comma;
        assert(cut.take(front.len() as int) =~= front);
        lemma_parts_front(front, cut, front.len() as int);
        assert(cut[front.len() as int] == ',');
        assert(before.drop_last().push(before.last()) =~= before);
        assert(comma_parts(cut, cut.len() as int) == (before, Seq::<char>::empty()));
        lemma_part_grows(cut, last, last.len() as int);
        assert(cut + last =~= text);
        assert(last.take(last.len() as int) =~= last);
        assert(Seq::<char>::empty() + last =~= last);
    }
}

proof fn lemma_keys_places(parts: Seq<Seq<char>>, k: int) -> (places: Seq<int>)
    requires
        0 <= k <= parts.len(),
    ensures
        places_are(places, |i: int| trimmed(parts[i]).len() > 0, k),
        keys_in(parts, k).len() == places.len(),
        forall|p: int|
            0 <= p < places.len() ==> #[trigger] keys_in(parts, k)[p] == trimmed(parts[places[p]]),
    decreases k,
{
    let picks = |i: int| trimmed(parts[i]).len() > 0;
    if k == 0 {
        Seq::empty()
    } else {
        let before = lemma_keys_places(parts, k - 1);
        lemma_place_added(before, picks, k - 1);
        assert(picks(k - 1) == (trimmed(parts[k - 1]).len() > 0));
        let places = if picks(k - 1) {
            before.push(k - 1)
        } else {
            before
        };
        assert forall|p: int| 0 <= p < places.len() implies #[trigger] keys_in(parts, k)[p]
            == trimmed(parts[places[p]]) by {
            if p < before.len() {
                assert(keys_in(parts, k)[p] == keys_in(parts, k - 1)[p]);
            }
        }
        places
    }
}

/// A field lists the keys between its commas, in order, without the white
/// space round them; a part with nothing in it is no key. The places of the
/// parts that are keys are handed out.
pub proof fn a_field_lists_what_stands_between_commas(
    parts: Seq<Seq<char>>,
    value: &str,
    keys: Vec<String>,
) -> (places: Seq<int>)
    requires
        call_ensures(binding_keys, (value,), keys),
        parts.len() > 0,
        forall|i: int| 0 <= i < parts.len() ==> no_comma(#[trigger] parts[i]),
        value@ == joined_with(parts, seq![',']),
    ensures
        places_are(places, |i: int| trimmed(parts[i]).len() > 0, parts.len() as int),
        keys@.len() == places.len(),
        forall|p: int| 0 <= p < keys@.len() ==> (#[trigger] keys@[p])@ == trimmed(parts[places[p]]),
{
    lemma_parts_joined(parts);
    assert(parts.drop_last().push(parts.last()) =~= parts);
    let places = lemma_keys_places(parts, parts.len() as int);
    let all = texts(keys@);
    assert(all == keys_in(parts, parts.len() as int));
    assert(all.len() == keys@.len());
    assert forall|p: int| 0 <= p < keys@.len() implies (#[trigger] keys@[p])@ == trimmed(
        parts[places[p]],
    ) by {
        assert(all[p] == keys@[p]@);
    }
    places
}

/// A command has a key.
pub open spec fn has_key(entries: Seq<KeymapEntry>, command: CommandId, key: Seq<char>) -> bool {
    exists|i: int|
        0 <= i < entries.len() && (#[trigger] entries[i]).command == command && entries[i].key@
            == key
}

/// A key is among those given, and valid.
pub open spec fn is_given(keys: Seq<String>, valid: Seq<bool>, key: Seq<char>) -> bool {
    exists|i: int| 0 <= i < keys.len() && (#[trigger] keys[i])@ == key && valid[i]
}

proof fn lemma_bound(entries: Seq<KeymapEntry>, command: CommandId, key: Seq<char>)
    ensures
        has_key(entries, command, key) <==> is_bound(entry_values(entries), command, key),
{
    let values = entry_values(entries);
    if has_key(entries, command, key) {
        let i = choose|i: int|
            0 <= i < entries.len() && (#[trigger] entries[i]).command == command && entries[i].key@
                == key;
        assert(values[i] == entries[i]@);
    }
    if is_bound(values, command, key) {
        let i = choose|i: int|
            0 <= i < values.len() && (#[trigger] values[i]).command == command && values[i].key
                == key;
        assert(values[i] == entries[i]@);
        assert(entries[i].key@ == key);
    }
}

proof fn lemma_of_others(
    entries: Seq<crate::keymap::EntryValue>,
    command: CommandId,
    k: int,
    other: CommandId,
    key: Seq<char>,
)
    requires
        0 <= k <= entries.len(),
    ensures
        is_bound(of_other_commands(entries, command, k), other, key) <==> other != command
            && is_bound(entries.take(k), other, key),
    decreases k,
{
    let kept = of_other_commands(entries, command, k);
    if k > 0 {
        let before = of_other_commands(entries, command, k - 1);
        lemma_of_others(entries, command, k - 1, other, key);
        let last = entries[k - 1];
        let front = entries.take(k - 1);
        let all = entries.take(k);
        assert(all =~= front.push(last));
        lemma_bound_push(front, last, other, key);
        lemma_bound_push(before, last, other, key);
    }
}

proof fn lemma_bound_push(
    entries: Seq<crate::keymap::EntryValue>,
    entry: crate::keymap::EntryValue,
    command: CommandId,
    key: Seq<char>,
)
    ensures
        is_bound(entries.push(entry), command, key) <==> is_bound(entries, command, key) || (
        entry.command == command && entry.key == key),
{
    let all = entries.push(entry);
    if is_bound(entries, command, key) {
        let i = choose|i: int|
            0 <= i < entries.len() && (#[trigger] entries[i]).command == command && entries[i].key
                == key;
        assert(all[i] == entries[i]);
    }
    if entry.command == command && entry.key == key {
        assert(all[entries.len() as int] == entry);
    }
    if is_bound(all, command, key) {
        let i = choose|i: int|
            0 <= i < all.len() && (#[trigger] all[i]).command == command && all[i].key == key;
        if i < entries.len() {
            assert(entries[i] == all[i]);
        }
    }
}

proof fn lemma_bound_in_both(
    left: Seq<crate::keymap::EntryValue>,
    right: Seq<crate::keymap::EntryValue>,
    command: CommandId,
    key: Seq<char>,
)
    ensures
        is_bound(left + right, command, key) <==> is_bound(left, command, key) || is_bound(
            right,
            command,
            key,
        ),
    decreases right.len(),
{
    if right.len() == 0 {
        assert(left + right =~= left);
    } else {
        lemma_bound_in_both(left, right.drop_last(), command, key);
        assert(left + right =~= (left + right.drop_last()).push(right.last()));
        assert(right =~= right.drop_last().push(right.last()));
        lemma_bound_push(left + right.drop_last(), right.last(), command, key);
        lemma_bound_push(right.drop_last(), right.last(), command, key);
    }
}

proof fn lemma_new_entries(
    command: CommandId,
    context: Option<Seq<char>>,
    keys: Seq<String>,
    valid: Seq<bool>,
    k: int,
    other: CommandId,
    key: Seq<char>,
)
    requires
        0 <= k <= keys.len(),
    ensures
        is_bound(new_entries(command, context, texts(keys), valid, k), other, key) <==> other
            == command && exists|i: int|
            0 <= i < k && (#[trigger] keys[i])@ == key && valid[i],
        forall|i: int|
            0 <= i < new_entries(command, context, texts(keys), valid, k).len() ==> (
            #[trigger] new_entries(command, context, texts(keys), valid, k)[i]).context == context,
    decreases k,
{
    if k > 0 {
        lemma_new_entries(command, context, keys, valid, k - 1, other, key);
        let before = new_entries(command, context, texts(keys), valid, k - 1);
        assert(texts(keys)[k - 1] == keys[k - 1]@);
        if valid[k - 1] {
            lemma_bound_push(
                before,
                crate::keymap::EntryValue { command, key: keys[k - 1]@, context },
                other,
                key,
            );
        }
        if exists|i: int| 0 <= i < k && (#[trigger] keys[i])@ == key && valid[i] {
            let i = choose|i: int| 0 <= i < k && (#[trigger] keys[i])@ == key && valid[i];
            if i < k - 1 {
                assert(keys[i]@ == key);
            }
        }
        if exists|i: int| 0 <= i < k - 1 && (#[trigger] keys[i])@ == key && valid[i] {
            let i = choose|i: int| 0 <= i < k - 1 && (#[trigger] keys[i])@ == key && valid[i];
            assert(keys[i]@ == key);
        }
    }
}

proof fn lemma_invalid(keys: Seq<String>, valid: Seq<bool>, k: int)
    requires
        0 <= k <= keys.len(),
    ensures
        invalid_keys(texts(keys), valid, k).len() > 0 <==> exists|i: int|
            0 <= i < k && !#[trigger] valid[i],
    decreases k,
{
    if k > 0 {
        lemma_invalid(keys, valid, k - 1);
        if exists|i: int| 0 <= i < k && !#[trigger] valid[i] {
            let i = choose|i: int| 0 <= i < k && !#[trigger] valid[i];
            if i < k - 1 {
                assert(!valid[i]);
            }
        }
    }
}

/// A command that is given keys has the valid ones of them and no other, each
/// in its context; every other command keeps its own. Something is said
/// exactly where a key is not valid.
pub proof fn a_command_has_the_keys_it_is_given(
    entries: Vec<KeymapEntry>,
    command: CommandId,
    context: Option<String>,
    keys: Vec<String>,
    valid: Vec<bool>,
    update: KeymapUpdate,
    other: CommandId,
    key: Seq<char>,
)
    requires
        keys@.len() == valid@.len(),
        call_ensures(
            update_keymap_command,
            (&entries, command, &context, &keys, &valid),
            update,
        ),
    ensures
        has_key(update.entries@, command, key) <==> is_given(keys@, valid@, key),
        other != command ==> (has_key(update.entries@, other, key) <==> has_key(
            entries@,
            other,
            key,
        )),
        update.error is Some <==> exists|i: int| 0 <= i < keys@.len() && !#[trigger] valid@[i],
{
    let before = entry_values(entries@);
    let n = keys@.len() as int;
    let text = crate::keymap::context_text(context);
    let others = of_other_commands(before, command, before.len() as int);
    let fresh = new_entries(command, text, texts(keys@), valid@, n);
    lemma_bound(update.entries@, command, key);
    lemma_bound(update.entries@, other, key);
    lemma_bound(entries@, other, key);
    lemma_bound_in_both(others, fresh, command, key);
    lemma_bound_in_both(others, fresh, other, key);
    lemma_of_others(before, command, before.len() as int, command, key);
    lemma_of_others(before, command, before.len() as int, other, key);
    assert(before.take(before.len() as int) =~= before);
    lemma_new_entries(command, text, keys@, valid@, n, command, key);
    lemma_new_entries(command, text, keys@, valid@, n, other, key);
    lemma_invalid(keys@, valid@, n);
}

/// A conflict of a key with another command is among those named.
pub open spec fn is_named(
    conflicts: Seq<(String, CommandId)>,
    key: Seq<char>,
    other: CommandId,
) -> bool {
    exists|i: int|
        0 <= i < conflicts.len() && (#[trigger] conflicts[i]).0@ == key && conflicts[i].1 == other
}

proof fn lemma_conflicts(
    entries: Seq<crate::keymap::EntryValue>,
    command: CommandId,
    k: int,
    key: Seq<char>,
    other: CommandId,
)
    requires
        0 <= k <= entries.len(),
    ensures
        conflicts_in(entries, command, k).contains((key, other)) <==> other != command && is_bound(
            entries,
            command,
            key,
        ) && is_bound(entries.take(k), other, key),
    decreases k,
{
    if k > 0 {
        lemma_conflicts(entries, command, k - 1, key, other);
        let before = conflicts_in(entries, command, k - 1);
        let after = conflicts_in(entries, command, k);
        let last = entries[k - 1];
        assert(entries.take(k) =~= entries.take(k - 1).push(last));
        lemma_bound_push(entries.take(k - 1), last, other, key);
        if after.len() > before.len() {
            assert(after == before.push((last.key, last.command)));
            if before.contains((key, other)) {
                let i = choose|i: int| 0 <= i < before.len() && before[i] == (key, other);
                assert(after[i] == (key, other));
            }
            if last.key == key && last.command == other {
                assert(after[before.len() as int] == (key, other));
            }
            if after.contains((key, other)) {
                let i = choose|i: int| 0 <= i < after.len() && after[i] == (key, other);
                if i < before.len() {
                    assert(before[i] == (key, other));
                }
            }
        }
    }
}

/// A key that a command was given is named as a conflict with another command
/// exactly where that one has it too.
pub proof fn a_shared_key_is_named(
    entries: Vec<KeymapEntry>,
    command: CommandId,
    context: Option<String>,
    keys: Vec<String>,
    valid: Vec<bool>,
    update: KeymapUpdate,
    other: CommandId,
    key: Seq<char>,
)
    requires
        keys@.len() == valid@.len(),
        call_ensures(
            update_keymap_command,
            (&entries, command, &context, &keys, &valid),
            update,
        ),
        other != command,
    ensures
        is_named(update.conflicts@, key, other) <==> is_given(keys@, valid@, key) && has_key(
            entries@,
            other,
            key,
        ),
{
    let after = entry_values(update.entries@);
    let values = conflict_values(update.conflicts@);
    a_command_has_the_keys_it_is_given(
        entries,
        command,
        context,
        keys,
        valid,
        update,
        other,
        key,
    );
    lemma_bound(update.entries@, command, key);
    lemma_bound(update.entries@, other, key);
    lemma_conflicts(after, command, after.len() as int, key, other);
    assert(after.take(after.len() as int) =~= after);
    assert(values == conflicts_in(after, command, after.len() as int));
    assert(values.len() == update.conflicts@.len());
    if is_named(update.conflicts@, key, other) {
        let i = choose|i: int|
            0 <= i < update.conflicts@.len() && (#[trigger] update.conflicts@[i]).0@ == key
                && update.conflicts@[i].1 == other;
        assert(values[i] == (key, other));
    }
    if values.contains((key, other)) {
        let i = choose|i: int| 0 <= i < values.len() && values[i] == (key, other);
        assert(update.conflicts@[i].0@ == key && update.conflicts@[i].1 == other);
    }
}

/// A key that is stolen is the loser's no more; every other binding stays.
pub proof fn stealing_takes_one_key(
    entries: Vec<KeymapEntry>,
    loser: CommandId,
    key: &str,
    left: Vec<KeymapEntry>,
    command: CommandId,
    other: Seq<char>,
)
    requires
        call_ensures(steal_keymap_binding, (&entries, loser, key), left),
    ensures
        has_key(left@, command, other) <==> has_key(entries@, command, other) && !(command == loser
            && other == key@),
{
    let values = entry_values(entries@);
    assert(values.len() == entries@.len());
    lemma_bound(entries@, command, other);
    lemma_bound(left@, command, other);
    crate::keymap::a_stolen_key_is_gone(
        values,
        loser,
        key@,
        command,
        other,
        entries@.len() as int,
    );
    assert(values.take(entries@.len() as int) =~= values);
}

proof fn lemma_first_completed(entries: Seq<KeymapEntry>, completed: Seq<bool>, from: int)
    requires
        0 <= from <= entries.len(),
        completed.len() == entries.len(),
    ensures
        match first_completed(entry_values(entries), completed, from) {
            Some(command) => exists|i: int|
                from <= i < entries.len() && #[trigger] completed[i] && entries[i].command
                    == command && forall|j: int| from <= j < i ==> !#[trigger] completed[j],
            None => forall|j: int| from <= j < entries.len() ==> !#[trigger] completed[j],
        },
    decreases entries.len() - from,
{
    if from < entries.len() {
        if completed[from] {
            assert(entry_values(entries)[from] == entries[from]@);
        } else {
            lemma_first_completed(entries, completed, from + 1);
        }
    }
}

/// A keystroke runs the command of the first binding that it completes, and
/// none where it completes none.
pub proof fn a_keystroke_runs_the_first_it_completes(
    entries: Vec<KeymapEntry>,
    completed: Vec<bool>,
    command: Option<CommandId>,
)
    requires
        completed@.len() == entries@.len(),
        call_ensures(workspace_command_for_keystroke, (&entries, &completed), command),
    ensures
        command is None <==> forall|i: int|
            0 <= i < completed@.len() ==> !#[trigger] completed@[i],
        command is Some ==> exists|i: int|
            0 <= i < entries@.len() && #[trigger] completed@[i] && entries@[i].command
                == command->0 && forall|j: int| 0 <= j < i ==> !#[trigger] completed@[j],
{
    lemma_first_completed(entries@, completed@, 0);
}

/// Bindings are taken in only where every one of them is valid.
pub proof fn an_import_is_taken_whole_or_not(
    keys: Vec<String>,
    valid: Vec<bool>,
    refusal: Option<String>,
)
    requires
        keys@.len() == valid@.len(),
        call_ensures(check_import, (&keys, &valid), refusal),
    ensures
        refusal is None <==> forall|i: int| 0 <= i < valid@.len() ==> #[trigger] valid@[i],
{
    lemma_invalid(keys@, valid@, keys@.len() as int);
}

/// A row that records takes the next chord as its binding and then records no
/// more; escape ends the recording without one, and a modifier alone goes on
/// with it. Where no row records no key is taken.
pub proof fn a_recording_row_takes_the_next_chord(
    pressed: &mut KeymapEditor,
    key: &str,
    outcome: RecordingKey,
)
    requires
        call_ensures(KeymapEditor::press_key, (pressed, key), outcome),
    ensures
        old(pressed).recording is None ==> outcome == RecordingKey::NotRecording
            && final(pressed).recording is None,
        old(pressed).recording is Some && key@ == "escape"@ ==> outcome == RecordingKey::Cancelled
            && final(pressed).recording is None && final(pressed).ui_generation
            == old(pressed).ui_generation,
        old(pressed).recording is Some && (key@ == "shift"@ || key@ == "control"@ || key@ == "alt"@
            || key@ == "platform"@ || key@ == "function"@ || key@ == "capslock"@) ==> outcome
            == RecordingKey::Ignored && final(pressed).recording == old(pressed).recording,
        old(pressed).recording is Some && key@.len() == 1 ==> outcome == RecordingKey::Bind(
            old(pressed).recording->0,
        ) && final(pressed).recording is None,
        final(pressed).errors == old(pressed).errors,
        final(pressed).conflicts == old(pressed).conflicts,
{
    reveal_strlit("escape");
    reveal_strlit("shift");
    reveal_strlit("control");
    reveal_strlit("alt");
    reveal_strlit("platform");
    reveal_strlit("function");
    reveal_strlit("capslock");
    assert("escape"@[0] == 'e');
    assert("shift"@[0] == 's' && "control"@[0] == 'c' && "alt"@[0] == 'a' && "platform"@[0] == 'p'
        && "function"@[0] == 'f' && "capslock"@[0] == 'c');
    assert("escape"@.len() == 6 && "shift"@.len() == 5 && "control"@.len() == 7 && "alt"@.len() == 3
        && "platform"@.len() == 8 && "function"@.len() == 8 && "capslock"@.len() == 8);
}

/// Pressing a row's button starts its recording, ends it where it records, and
/// moves it over from another row: no two rows record.
pub proof fn one_row_records(pressed: &mut KeymapEditor, again: &mut KeymapEditor, command: CommandId)
    requires
        call_ensures(KeymapEditor::toggle_recording, (pressed, command), ()),
        *old(again) == *final(pressed),
        call_ensures(KeymapEditor::toggle_recording, (again, command), ()),
        old(pressed).recording != Some(command),
    ensures
        final(pressed).recording == Some(command),
        final(again).recording is None,
        final(again).errors == old(pressed).errors,
        final(again).conflicts == old(pressed).conflicts,
{
}

/// What is wrong with a row's keys is said under that row, conflict by
/// conflict, and is gone once the keys are right or were stolen.
pub proof fn a_rows_faults_are_said_under_it(
    updated: &mut KeymapEditor,
    stolen: &mut KeymapEditor,
    command: CommandId,
    conflicts: Vec<(String, CommandId)>,
    error: Option<String>,
    row_ix: usize,
    keys: Vec<String>,
    labels: CommandTable<String>,
    view: KeymapRowView,
    after: KeymapRowView,
)
    requires
        call_ensures(KeymapEditor::take_update, (updated, command, conflicts, error), ()),
        call_ensures(
            KeymapEditor::render_keymap_row,
            (&*final(updated), command, row_ix, &keys, &labels),
            view,
        ),
        *old(stolen) == *final(updated),
        call_ensures(KeymapEditor::stolen, (stolen, command), ()),
        call_ensures(
            KeymapEditor::render_keymap_row,
            (&*final(stolen), command, row_ix, &keys, &labels),
            after,
        ),
    ensures
        view.error is Some <==> error is Some,
        view.error is Some ==> (view.error->0)@ == (error->0)@,
        view.conflicts@.len() == conflicts@.len(),
        forall|i: int|
            0 <= i < conflicts@.len() ==> (#[trigger] view.conflicts@[i]).1@ == conflicts@[i].0@
                && view.conflicts@[i].2 == conflicts@[i].1,
        after.conflicts@.len() == 0,
        view.recording <==> old(updated).recording == Some(command),
{
    let values = conflict_values(conflicts@);
    assert(values.len() == conflicts@.len());
    assert forall|i: int| 0 <= i < conflicts@.len() implies (#[trigger] view.conflicts@[i]).1@
        == conflicts@[i].0@ && view.conflicts@[i].2 == conflicts@[i].1 by {
        assert(values[i] == (conflicts@[i].0@, conflicts@[i].1));
    }
}

} // verus!
