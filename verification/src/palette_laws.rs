//! What the palette lists, how it ranks and what its lines do.

use crate::commands::{CommandId, Dispatch};
use crate::palette::{
    command_entries, entry_score, entry_views, fuzzy_score, go_to_label, heading_entries, hits,
    hits_worth, lemma_first_hit, lemma_hits_shape, lemma_worth_prefix, palette_entries, score,
    toggle_entries, CommandPalette, CommandSpec, Heading, PaletteAction, PaletteEntry,
    PaletteRequest, ToggleStates,
};
use crate::pane::PanelId;
use crate::places::{lemma_place_added, places_are};
use crate::text::{byte_len, is_word_char, lowered, trimmed};
use crate::workspace::{KeyboardState, Workspace};
use vstd::prelude::*;

verus! {

/// The query's characters stand in the label in their order, each at the first
/// place behind the one before.
pub open spec fn first_places(label: Seq<char>, query: Seq<char>, places: Seq<int>) -> bool {
    &&& places.len() == query.len()
    &&& forall|k: int|
        0 <= k < places.len() ==> 0 <= #[trigger] places[k] < label.len() && label[places[k]]
            == query[k]
    &&& forall|k: int, i: int|
        #![trigger places[k], label[i]]
        0 <= k < places.len() && 0 <= i < places[k] && (k > 0 ==> places[k - 1] < i) ==> label[i]
            != query[k]
    &&& forall|k: int, l: int|
        0 <= k < l < places.len() ==> #[trigger] places[k] < #[trigger] places[l]
}

proof fn lemma_first_places(label: Seq<char>, query: Seq<char>)
    ensures
        hits(label, query) is Some ==> first_places(label, query, hits(label, query)->0),
    decreases query.len(),
{
    if hits(label, query) is Some {
        lemma_hits_shape(label, query);
        let places = hits(label, query)->0;
        if query.len() > 0 {
            let front = query.drop_last();
            lemma_first_places(label, front);
            lemma_hits_shape(label, front);
            let earlier = hits(label, front)->0;
            let from = if earlier.len() == 0 {
                0
            } else {
                earlier.last() + 1
            };
            lemma_first_hit(label, from, query.last());
            assert(places == earlier.push(places.last()));
            assert forall|k: int, i: int|
                #![trigger places[k], label[i]]
                0 <= k < places.len() && 0 <= i < places[k] && (k > 0 ==> places[k - 1]
                    < i) implies label[i] != query[k] by {
                if k < earlier.len() {
                    assert(places[k] == earlier[k]);
                    if k > 0 {
                        assert(places[k - 1] == earlier[k - 1]);
                    }
                    assert(front[k] == query[k]);
                } else if k > 0 {
                    assert(places[k - 1] == earlier.last());
                }
            }
        }
    }
}

/// What a character of the query adds to a label's score, given the place of
/// the one before it: ten, eight more right behind it, six more where a word
/// begins.
pub open spec fn adds(label: Seq<char>, before: Option<int>, place: int) -> int {
    let follows = before is Some && before->0 + 1 == place;
    let begins = place == 0 || !is_word_char(label[place - 1]);
    if follows && begins {
        24
    } else if follows {
        18
    } else if begins {
        16
    } else {
        10
    }
}

/// A label is scored by where the query's characters fall: a query of one
/// character scores what that adds, less one for every eight characters of the
/// label, and each further character adds its own. The places are handed out.
pub proof fn a_score_adds_up_character_by_character(
    label: &str,
    query: &str,
    front: &str,
    points: Option<i64>,
    fewer: Option<i64>,
) -> (places: Seq<int>)
    requires
        24 * label@.len() <= i64::MAX,
        call_ensures(fuzzy_score, (label, query), points),
        call_ensures(fuzzy_score, (label, front), fewer),
        query@.len() > 0,
        front@ == query@.drop_last(),
        points is Some,
    ensures
        fewer is Some,
        first_places(label@, query@, places),
        query@.len() == 1 ==> points->0 == adds(label@, None, places[0]) - label@.len() as int / 8,
        query@.len() > 1 ==> points->0 == fewer->0 + adds(
            label@,
            Some(places[places.len() - 2]),
            places[places.len() - 1],
        ),
{
    lemma_first_places(label@, query@);
    lemma_hits_shape(label@, query@);
    lemma_hits_shape(label@, front@);
    let places = hits(label@, query@)->0;
    let earlier = hits(label@, front@)->0;
    assert(places == earlier.push(places.last()));
    assert(places.take(earlier.len() as int) =~= earlier);
    lemma_worth_prefix(label@, earlier, places, earlier.len() as int);
    let n = places.len() as int;
    assert(hits_worth(label@, places, n) == hits_worth(label@, places, n - 1)
        + crate::palette::hit_worth(label@, places, n - 1));
    if n == 1 {
        assert(hits_worth(label@, places, 0) == 0);
    }
    places
}

/// An empty query scores every label alike.
pub proof fn an_empty_query_scores_nothing(label: &str, query: &str, points: Option<i64>)
    requires
        24 * label@.len() <= i64::MAX,
        call_ensures(fuzzy_score, (label, query), points),
        query@.len() == 0,
    ensures
        points == Some(0i64),
{
}

/// A line of the list stands for an entry.
pub open spec fn is_listed(list: Seq<usize>, entry: int) -> bool {
    exists|i: int| 0 <= i < list.len() && #[trigger] list[i] == entry
}

/// The list holds the entries whose labels hold the query, whatever the case,
/// each once: the better scored first, and of those scored alike the one that
/// was registered first. The best is selected.
pub proof fn the_best_entries_come_first(palette: &mut CommandPalette, query: String, done: bool)
    requires
        call_ensures(CommandPalette::refresh_filter, (palette, query), done),
        done,
    ensures
        final(palette).entries == old(palette).entries,
        final(palette).selected == 0,
        final(palette).query == query,
        forall|e: int|
            0 <= e < old(palette).entries@.len() ==> (is_listed(final(palette).filtered@, e) <==> (
            #[trigger] score(
                lowered(old(palette).entries@[e].label@),
                lowered(query@),
            )) is Some),
        forall|i: int, j: int|
            0 <= i < j < final(palette).filtered@.len() ==> {
                let a = #[trigger] final(palette).filtered@[i];
                let b = #[trigger] final(palette).filtered@[j];
                let better = score(
                    lowered(old(palette).entries@[a as int].label@),
                    lowered(query@),
                )->0;
                let worse = score(
                    lowered(old(palette).entries@[b as int].label@),
                    lowered(query@),
                )->0;
                better >= worse && (better == worse ==> a < b)
            },
{
    let entries = old(palette).entries@;
    let list = final(palette).filtered@;
    assert forall|e: int| 0 <= e < entries.len() implies (is_listed(list, e) <==> (
    #[trigger] score(lowered(entries[e].label@), lowered(query@))) is Some) by {
        assert(entry_score(entries, query@, e) == score(
            lowered(entries[e].label@),
            lowered(query@),
        ));
        if is_listed(list, e) {
            let i = choose|i: int| 0 <= i < list.len() && #[trigger] list[i] == e;
            assert(entry_score(entries, query@, list[i] as int) is Some);
        }
    }
    assert forall|i: int, j: int| 0 <= i < j < list.len() implies {
        let a = #[trigger] list[i];
        let b = #[trigger] list[j];
        let better = score(lowered(entries[a as int].label@), lowered(query@))->0;
        let worse = score(lowered(entries[b as int].label@), lowered(query@))->0;
        better >= worse && (better == worse ==> a < b)
    } by {
        assert(crate::palette::ranks_before(entries, query@, list[i] as int, list[j] as int));
    }
}

/// Down goes to the line below and from the last to the first, up the other
/// way; enter runs the selected line and escape closes. Nothing else changes.
pub proof fn keys_walk_the_lines(
    palette: &mut CommandPalette,
    key: &str,
    request: PaletteRequest,
)
    requires
        old(palette).indices_valid(),
        old(palette).selected < old(palette).filtered@.len(),
        call_ensures(CommandPalette::on_key_down, (palette, key), request),
    ensures
        final(palette).entries == old(palette).entries,
        final(palette).filtered == old(palette).filtered,
        final(palette).query == old(palette).query,
        key@ == "down"@ && old(palette).selected + 1 < old(palette).filtered@.len()
            ==> final(palette).selected == old(palette).selected + 1 && request
            == PaletteRequest::Stay,
        key@ == "down"@ && old(palette).selected + 1 == old(palette).filtered@.len()
            ==> final(palette).selected == 0 && request == PaletteRequest::Stay,
        key@ == "up"@ && old(palette).selected > 0 ==> final(palette).selected
            == old(palette).selected - 1 && request == PaletteRequest::Stay,
        key@ == "up"@ && old(palette).selected == 0 ==> final(palette).selected
            == old(palette).filtered@.len() - 1 && request == PaletteRequest::Stay,
        key@ == "enter"@ ==> request == PaletteRequest::Run(
            old(palette).entries@[old(palette).filtered@[old(palette).selected as int] as int].action,
        ) && final(palette).selected == old(palette).selected,
        key@ == "escape"@ ==> request == PaletteRequest::Close && final(palette).selected
            == old(palette).selected,
{
    reveal_strlit("up");
    reveal_strlit("down");
    reveal_strlit("enter");
    reveal_strlit("escape");
    assert("up"@.len() == 2 && "down"@.len() == 4 && "enter"@.len() == 5 && "escape"@.len() == 6);
    assert(old(palette).filtered.len() == old(palette).filtered@.len());
    let count = old(palette).filtered@.len() as int;
    let next = old(palette).selected as int + 1;
    assert(next < count ==> next % count == next) by {
        if next < count {
            vstd::arithmetic::div_mod::lemma_small_mod(next as nat, count as nat);
        }
    }
    assert(next == count ==> next % count == 0) by {
        if next == count {
            vstd::arithmetic::div_mod::lemma_mod_self_0(count);
        }
    }
}

proof fn lemma_command_lines(specs: Seq<CommandSpec>) -> (places: Seq<int>)
    ensures
        places_are(
            places,
            |i: int| specs[i].id != CommandId::OpenCommandPalette,
            specs.len() as int,
        ),
        command_entries(specs).len() == places.len(),
        forall|p: int|
            0 <= p < places.len() ==> {
                let line = #[trigger] command_entries(specs)[p];
                let spec = specs[places[p]];
                &&& line.label == spec.label@
                &&& line.action == PaletteAction::Command(spec.id)
                &&& spec.keys@.len() == 0 ==> line.shortcut is None
                &&& spec.keys@.len() > 0 ==> line.shortcut == Some(spec.keys@[0]@)
            },
    decreases specs.len(),
{
    let picks = |i: int| specs[i].id != CommandId::OpenCommandPalette;
    if specs.len() == 0 {
        Seq::empty()
    } else {
        let front = specs.drop_last();
        let before = lemma_command_lines(front);
        let k = front.len() as int;
        assert(places_are(before, picks, k)) by {
            let earlier = |i: int| front[i].id != CommandId::OpenCommandPalette;
            assert forall|i: int| 0 <= i < k implies (#[trigger] picks(i) <==> before.contains(i)) by {
                assert(earlier(i) == picks(i));
            }
        }
        lemma_place_added(before, picks, k);
        assert(picks(k) == (specs.last().id != CommandId::OpenCommandPalette));
        let places = if picks(k) {
            before.push(k)
        } else {
            before
        };
        assert forall|p: int| 0 <= p < places.len() implies {
            let line = #[trigger] command_entries(specs)[p];
            let spec = specs[places[p]];
            &&& line.label == spec.label@
            &&& line.action == PaletteAction::Command(spec.id)
            &&& spec.keys@.len() == 0 ==> line.shortcut is None
            &&& spec.keys@.len() > 0 ==> line.shortcut == Some(spec.keys@[0]@)
        } by {
            if p < before.len() {
                assert(command_entries(specs)[p] == command_entries(front)[p]);
                assert(front[before[p]] == specs[before[p]]);
            }
        }
        places
    }
}

/// Before all else the palette lists every registered command but its own, in
/// their order, each under its label, running it, with the first of its keys.
/// The places of the commands are handed out.
pub proof fn every_command_has_its_line(
    specs: Vec<CommandSpec>,
    states: ToggleStates,
    headings: Vec<Heading>,
    entries: Option<Vec<PaletteEntry>>,
) -> (places: Seq<int>)
    requires
        call_ensures(palette_entries, (&specs, states, &headings), entries),
        entries is Some,
    ensures
        places_are(
            places,
            |i: int| specs@[i].id != CommandId::OpenCommandPalette,
            specs@.len() as int,
        ),
        (entries->0)@.len() >= places.len() + 3,
        forall|p: int|
            0 <= p < places.len() ==> {
                let line = #[trigger] (entries->0)@[p];
                let spec = specs@[places[p]];
                &&& line.label@ == spec.label@
                &&& line.action == PaletteAction::Command(spec.id)
                &&& spec.keys@.len() == 0 ==> line.shortcut is None
                &&& spec.keys@.len() > 0 ==> line.shortcut is Some && (line.shortcut->0)@
                    == spec.keys@[0]@
            },
        (entries->0)@[places.len() as int].action == PaletteAction::ToggleAutosave,
        (entries->0)@[places.len() as int + 1].action == PaletteAction::ToggleSmartWordSelection,
        (entries->0)@[places.len() as int + 2].action == PaletteAction::ToggleReduceMotion,
{
    let places = lemma_command_lines(specs@);
    let lines = (entries->0)@;
    let views = entry_views(lines);
    assert(views.len() == lines.len());
    assert(views == command_entries(specs@) + toggle_entries(states) + heading_entries(headings@));
    assert(toggle_entries(states).len() == 3);
    assert forall|i: int| 0 <= i < lines.len() implies #[trigger] lines[i]@ == views[i] by {}
    assert forall|p: int| 0 <= p < places.len() implies {
        let line = #[trigger] (entries->0)@[p];
        let spec = specs@[places[p]];
        &&& line.label@ == spec.label@
        &&& line.action == PaletteAction::Command(spec.id)
        &&& spec.keys@.len() == 0 ==> line.shortcut is None
        &&& spec.keys@.len() > 0 ==> line.shortcut is Some && (line.shortcut->0)@ == spec.keys@[0]@
    } by {
        assert(lines[p]@ == views[p]);
        assert(views[p] == command_entries(specs@)[p]);
    }
    let n = places.len() as int;
    assert(lines[n]@ == views[n] && views[n] == toggle_entries(states)[0]);
    assert(lines[n + 1]@ == views[n + 1] && views[n + 1] == toggle_entries(states)[1]);
    assert(lines[n + 2]@ == views[n + 2] && views[n + 2] == toggle_entries(states)[2]);
    places
}

proof fn lemma_heading_lines(headings: Seq<Heading>) -> (places: Seq<int>)
    ensures
        places_are(
            places,
            |i: int| trimmed(headings[i].text@).len() > 0,
            headings.len() as int,
        ),
        heading_entries(headings).len() == places.len(),
        forall|p: int|
            0 <= p < places.len() ==> {
                let line = #[trigger] heading_entries(headings)[p];
                let heading = headings[places[p]];
                &&& line.label == go_to_label(trimmed(heading.text@))
                &&& line.action == PaletteAction::GoToParagraph(heading.paragraph_ix)
                &&& line.shortcut is None
            },
    decreases headings.len(),
{
    let picks = |i: int| trimmed(headings[i].text@).len() > 0;
    if headings.len() == 0 {
        Seq::empty()
    } else {
        let front = headings.drop_last();
        let before = lemma_heading_lines(front);
        let k = front.len() as int;
        assert(places_are(before, picks, k)) by {
            let earlier = |i: int| trimmed(front[i].text@).len() > 0;
            assert forall|i: int| 0 <= i < k implies (#[trigger] picks(i) <==> before.contains(i)) by {
                assert(earlier(i) == picks(i));
            }
        }
        lemma_place_added(before, picks, k);
        assert(picks(k) == (trimmed(headings.last().text@).len() > 0));
        let places = if picks(k) {
            before.push(k)
        } else {
            before
        };
        assert forall|p: int| 0 <= p < places.len() implies {
            let line = #[trigger] heading_entries(headings)[p];
            let heading = headings[places[p]];
            &&& line.label == go_to_label(trimmed(heading.text@))
            &&& line.action == PaletteAction::GoToParagraph(heading.paragraph_ix)
            &&& line.shortcut is None
        } by {
            if p < before.len() {
                assert(heading_entries(headings)[p] == heading_entries(front)[p]);
                assert(front[before[p]] == headings[before[p]]);
            }
        }
        places
    }
}

/// Behind the commands and the toggles the palette lists every heading that
/// has text, in their order, each leading to its own paragraph, under its text
/// where that is short enough. The places of the headings, and of the first of
/// their lines, are handed out.
pub proof fn every_heading_has_its_line(
    specs: Vec<CommandSpec>,
    states: ToggleStates,
    headings: Vec<Heading>,
    entries: Option<Vec<PaletteEntry>>,
) -> (listed: (Seq<int>, int))
    requires
        call_ensures(palette_entries, (&specs, states, &headings), entries),
        entries is Some,
    ensures
        places_are(
            listed.0,
            |i: int| trimmed(headings@[i].text@).len() > 0,
            headings@.len() as int,
        ),
        3 <= listed.1 <= (entries->0)@.len(),
        (entries->0)@.len() == listed.1 + listed.0.len(),
        forall|l: int|
            listed.1 <= l < (entries->0)@.len() ==> {
                let line = #[trigger] (entries->0)@[l];
                let heading = headings@[listed.0[l - listed.1]];
                &&& line.action == PaletteAction::GoToParagraph(heading.paragraph_ix)
                &&& line.shortcut is None
                &&& byte_len("Go to: "@ + trimmed(heading.text@)) <= 72 ==> line.label@
                    == "Go to: "@ + trimmed(heading.text@)
            },
{
    let places = lemma_heading_lines(headings@);
    let lines = (entries->0)@;
    let views = entry_views(lines);
    let first = command_entries(specs@).len() as int + 3;
    assert(views.len() == lines.len());
    assert(views == command_entries(specs@) + toggle_entries(states) + heading_entries(headings@));
    assert(toggle_entries(states).len() == 3);
    assert forall|l: int| first <= l < lines.len() implies {
        let line = #[trigger] lines[l];
        let heading = headings@[places[l - first]];
        &&& line.action == PaletteAction::GoToParagraph(heading.paragraph_ix)
        &&& line.shortcut is None
        &&& byte_len("Go to: "@ + trimmed(heading.text@)) <= 72 ==> line.label@ == "Go to: "@
            + trimmed(heading.text@)
    } by {
        assert(lines[l]@ == views[l]);
        assert(views[l] == heading_entries(headings@)[l - first]);
    }
    (places, first)
}

/// A quick toggle turns its own setting over and no other, and touches no
/// panel; a heading's line touches neither.
pub proof fn a_toggle_turns_its_own_setting_over(
    window: &mut Workspace,
    action: PaletteAction,
    states: &mut ToggleStates,
    keyboard: KeyboardState,
    id: PanelId,
    done: (crate::palette::PaletteEffect, Dispatch),
)
    requires
        call_ensures(
            Workspace::run_palette_action,
            (window, action, states, keyboard, id),
            done,
        ),
    ensures
        final(states).autosave == (old(states).autosave != (action
            == PaletteAction::ToggleAutosave)),
        final(states).smart_word_selection == (old(states).smart_word_selection != (action
            == PaletteAction::ToggleSmartWordSelection)),
        final(states).reduce_motion == (old(states).reduce_motion != (action
            == PaletteAction::ToggleReduceMotion)),
        !(action is Command) ==> final(window)@ == old(window)@ && done.1 == Dispatch::Unhandled,
        action matches PaletteAction::GoToParagraph(paragraph) ==> done.0
            == crate::palette::PaletteEffect::ShowParagraph(paragraph),
{
}

/// A line of the palette does what the key of its command does.
pub proof fn a_line_does_what_its_key_does(
    by_line: &mut Workspace,
    by_key: &mut Workspace,
    command: CommandId,
    states: &mut ToggleStates,
    keyboard: KeyboardState,
    id: PanelId,
    done: (crate::palette::PaletteEffect, Dispatch),
    target: Dispatch,
)
    requires
        old(by_line)@ == old(by_key)@,
        call_ensures(
            Workspace::run_palette_action,
            (by_line, PaletteAction::Command(command), states, keyboard, id),
            done,
        ),
        call_ensures(Workspace::run_command, (by_key, command, keyboard, id), target),
    ensures
        done.1 == target,
        final(by_line)@ == final(by_key)@,
        *final(states) == *old(states),
{
}

} // verus!
