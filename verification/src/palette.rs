//! The command palette: one fuzzy-searchable list of every command, the
//! settings' quick toggles and the headings of the document on top.

use crate::commands::CommandId;
use crate::text::{
    byte_len, chars_of, front_of, front_within, is_word_char, lowered, same_text, to_lowercase, trim,
    trimmed,
};
use vstd::prelude::*;
use vstd::string::StringExecFns;

verus! {

#[derive(Clone, Copy, Debug, PartialEq, Eq, Structural)]
pub enum PaletteAction {
    Command(CommandId),
    ToggleAutosave,
    ToggleSmartWordSelection,
    ToggleReduceMotion,
    /// Show a heading's paragraph.
    GoToParagraph(usize),
}

/// A line of the palette.
#[derive(Debug)]
pub struct PaletteEntry {
    pub label: String,
    pub action: PaletteAction,
    pub shortcut: Option<String>,
}

/// A registered command: its label and the keys bound to it.
#[derive(Debug)]
pub struct CommandSpec {
    pub id: CommandId,
    pub label: String,
    pub keys: Vec<String>,
}

/// The quick toggles' present state.
#[derive(Clone, Copy, Debug, PartialEq, Eq, Structural)]
pub struct ToggleStates {
    pub autosave: bool,
    pub smart_word_selection: bool,
    pub reduce_motion: bool,
}

/// A heading of the document on top.
#[derive(Debug)]
pub struct Heading {
    pub paragraph_ix: usize,
    pub text: String,
}

/// First place at or after `from` where the label has the character.
pub open spec fn first_hit(label: Seq<char>, from: int, c: char) -> Option<int>
    decreases label.len() - from,
{
    if from < 0 || from >= label.len() {
        None
    } else if label[from] == c {
        Some(from)
    } else {
        first_hit(label, from + 1, c)
    }
}

/// Where the query's characters fall in the label, each at the first place
/// behind the one before; none where one of them is missing.
pub open spec fn hits(label: Seq<char>, query: Seq<char>) -> Option<Seq<int>>
    decreases query.len(),
{
    if query.len() == 0 {
        Some(Seq::empty())
    } else {
        match hits(label, query.drop_last()) {
            None => None,
            Some(earlier) => match first_hit(
                label,
                if earlier.len() == 0 {
                    0
                } else {
                    earlier.last() + 1
                },
                query.last(),
            ) {
                None => None,
                Some(hit) => Some(earlier.push(hit)),
            },
        }
    }
}

/// What one hit is worth: ten, eight more right behind the hit before, six
/// more at the start of a word.
pub open spec fn hit_worth(label: Seq<char>, places: Seq<int>, k: int) -> int {
    10 + (if k > 0 && places[k - 1] == places[k] - 1 {
        8int
    } else {
        0
    }) + (if places[k] == 0 || !is_word_char(label[places[k] - 1]) {
        6int
    } else {
        0
    })
}

/// What the first `k` hits are worth together.
pub open spec fn hits_worth(label: Seq<char>, places: Seq<int>, k: int) -> int
    decreases k,
{
    if k <= 0 {
        0
    } else {
        hits_worth(label, places, k - 1) + hit_worth(label, places, k - 1)
    }
}

/// A label's score for a query: its hits' worth less one for every eight
/// characters; nothing where the query is no subsequence of the label.
pub open spec fn score(label: Seq<char>, query: Seq<char>) -> Option<int> {
    if query.len() == 0 {
        Some(0)
    } else {
        match hits(label, query) {
            None => None,
            Some(places) => Some(
                hits_worth(label, places, places.len() as int) - label.len() as int / 8,
            ),
        }
    }
}

pub(crate) proof fn lemma_first_hit(label: Seq<char>, from: int, c: char)
    requires
        0 <= from,
    ensures
        match first_hit(label, from, c) {
            None => forall|i: int| from <= i < label.len() ==> label[i] != c,
            Some(hit) => from <= hit < label.len() && label[hit] == c && forall|i: int|
                from <= i < hit ==> label[i] != c,
        },
    decreases label.len() - from,
{
    if from < label.len() && label[from] != c {
        lemma_first_hit(label, from + 1, c);
    }
}

pub(crate) proof fn lemma_hits_shape(label: Seq<char>, query: Seq<char>)
    ensures
        match hits(label, query) {
            None => true,
            Some(places) => {
                &&& places.len() == query.len()
                &&& places.len() <= label.len()
                &&& forall|k: int|
                    0 <= k < places.len() ==> k <= #[trigger] places[k] < label.len()
                        && label[places[k]] == query[k]
                &&& forall|k: int, l: int|
                    0 <= k < l < places.len() ==> #[trigger] places[k] < #[trigger] places[l]
            },
        },
    decreases query.len(),
{
    if query.len() > 0 {
        let shorter = query.drop_last();
        lemma_hits_shape(label, shorter);
        if let Some(earlier) = hits(label, shorter) {
            let from = if earlier.len() == 0 {
                0
            } else {
                earlier.last() + 1
            };
            lemma_first_hit(label, from, query.last());
            if let Some(hit) = first_hit(label, from, query.last()) {
                let places = earlier.push(hit);
                assert forall|k: int| 0 <= k < places.len() implies k <= #[trigger] places[k]
                    < label.len() && label[places[k]] == query[k] by {
                    if k < earlier.len() {
                        assert(places[k] == earlier[k]);
                    }
                }
                assert forall|k: int, l: int| 0 <= k < l < places.len() implies #[trigger] places[k]
                    < #[trigger] places[l] by {
                    assert(places[k] == earlier[k]);
                    if l == earlier.len() {
                        assert(earlier[k] <= earlier.last());
                    } else {
                        assert(places[l] == earlier[l]);
                    }
                }
            }
        }
    }
}

/// The query's characters stand at these places of the label, in their order.
pub open spec fn stands_at(label: Seq<char>, query: Seq<char>, places: Seq<int>) -> bool {
    &&& places.len() == query.len()
    &&& forall|k: int|
        0 <= k < places.len() ==> 0 <= #[trigger] places[k] < label.len() && label[places[k]]
            == query[k]
    &&& forall|k: int, l: int|
        0 <= k < l < places.len() ==> #[trigger] places[k] < #[trigger] places[l]
}

/// Where the characters stand somewhere, the hits are there too, and none of
/// them comes later.
proof fn lemma_hits_are_first(label: Seq<char>, query: Seq<char>, places: Seq<int>)
    requires
        stands_at(label, query, places),
    ensures
        hits(label, query) is Some,
        query.len() > 0 ==> (hits(label, query)->0).last() <= places.last(),
    decreases query.len(),
{
    if query.len() > 0 {
        let shorter = query.drop_last();
        let front = places.drop_last();
        assert(stands_at(label, shorter, front)) by {
            assert forall|k: int| 0 <= k < front.len() implies 0 <= #[trigger] front[k]
                < label.len() && label[front[k]] == shorter[k] by {
                assert(front[k] == places[k]);
            }
            assert forall|k: int, l: int| 0 <= k < l < front.len() implies #[trigger] front[k]
                < #[trigger] front[l] by {
                assert(places[k] < places[l]);
            }
        }
        lemma_hits_are_first(label, shorter, front);
        lemma_hits_shape(label, shorter);
        let earlier = hits(label, shorter)->0;
        let from = if earlier.len() == 0 {
            0
        } else {
            earlier.last() + 1
        };
        let end = places.len() - 1;
        if earlier.len() > 0 {
            assert(places[end - 1] < places[end]);
        }
        assert(label[places[end]] == query.last());
        lemma_first_hit(label, from, query.last());
    }
}

/// A label is scored exactly where it has the query's characters in their
/// order.
pub proof fn a_scored_label_holds_the_query(label: Seq<char>, query: Seq<char>)
    ensures
        score(label, query) is Some <==> exists|places: Seq<int>| #[trigger]
            stands_at(label, query, places),
{
    if score(label, query) is Some {
        lemma_hits_shape(label, query);
        assert(stands_at(label, query, hits(label, query)->0));
    }
    if exists|places: Seq<int>| #[trigger] stands_at(label, query, places) {
        let places = choose|places: Seq<int>| #[trigger] stands_at(label, query, places);
        lemma_hits_are_first(label, query, places);
    }
}

proof fn lemma_worth_bounds(label: Seq<char>, places: Seq<int>, k: int)
    requires
        0 <= k,
    ensures
        0 <= hits_worth(label, places, k) <= 24 * k,
    decreases k,
{
    if k > 0 {
        lemma_worth_bounds(label, places, k - 1);
    }
}

/// The score of a label for a query, both in one case already.
pub fn fuzzy_score(label: &str, query: &str) -> (points: Option<i64>)
    requires
        24 * label@.len() <= i64::MAX,
    ensures
        match points {
            Some(points) => score(label@, query@) == Some(points as int),
            None => score(label@, query@) is None,
        },
{
    let label_chars = chars_of(label);
    let query_chars = chars_of(query);
    if query_chars.len() == 0 {
        return Some(0);
    }
    let mut total: i64 = 0;
    let mut label_ix: usize = 0;
    let mut previous_hit: Option<usize> = None;
    let ghost mut places: Seq<int> = Seq::empty();
    let mut next: usize = 0;
    assert(query@.take(0) =~= Seq::empty());
    while next < query_chars.len()
        invariant
            24 * label@.len() <= i64::MAX,
            label_chars@ == label@,
            query_chars@ == query@,
            next <= query@.len(),
            query@.len() > 0,
            hits(label@, query@.take(next as int)) == Some(places),
            places.len() == next,
            places.len() <= label@.len(),
            label_ix == (if places.len() == 0 {
                0
            } else {
                places.last() + 1
            }),
            label_ix <= label@.len(),
            forall|k: int| 0 <= k < places.len() ==> k <= #[trigger] places[k] < label@.len(),
            previous_hit == (if places.len() == 0 {
                None
            } else {
                Some(places.last() as usize)
            }),
            total == hits_worth(label@, places, next as int),
        decreases query@.len() - next,
    {
        let needle = query_chars[next];
        let ghost from: int = label_ix as int;
        proof {
            let taken = query@.take(next + 1);
            assert(taken.drop_last() =~= query@.take(next as int));
            assert(taken.last() == needle);
            lemma_first_hit(label@, from, needle);
            lemma_hits_shape(label@, taken);
        }
        while label_ix < label_chars.len() && label_chars[label_ix] != needle
            invariant
                label_chars@ == label@,
                from <= label_ix <= label@.len(),
                first_hit(label@, from, needle) == first_hit(label@, label_ix as int, needle),
            decreases label@.len() - label_ix,
        {
            label_ix = label_ix + 1;
        }
        if label_ix >= label_chars.len() {
            proof {
                lemma_prefix_decides(label@, query@, next + 1);
            }
            return None;
        }
        let hit: usize = label_ix;
        let ghost before = places;
        proof {
            places = places.push(hit as int);
            assert(places.take(before.len() as int) =~= before);
            lemma_worth_prefix(label@, before, places, next as int);
            lemma_worth_bounds(label@, before, next as int);
            assert(places[next as int] == hit);
            assert forall|k: int| 0 <= k < places.len() implies k <= #[trigger] places[k]
                < label@.len() by {
                if k < next {
                    assert(places[k] == before[k]);
                }
            }
        }
        let contiguous = match previous_hit {
            Some(previous) => hit > 0 && previous == hit - 1,
            None => false,
        };
        let word_start = hit == 0 || !label_chars[hit - 1].is_alphanumeric();
        total = total + 10;
        if contiguous {
            total = total + 8;
        }
        if word_start {
            total = total + 6;
        }
        assert(total == hits_worth(label@, places, next + 1));
        previous_hit = Some(hit);
        label_ix = hit + 1;
        next = next + 1;
    }
    assert(query@.take(next as int) =~= query@);
    proof {
        lemma_worth_bounds(label@, places, next as int);
    }
    let length: usize = label_chars.len();
    Some(total - (length / 8) as i64)
}

pub(crate) proof fn lemma_worth_prefix(label: Seq<char>, before: Seq<int>, places: Seq<int>, k: int)
    requires
        0 <= k <= before.len(),
        before.len() < places.len(),
        places.take(before.len() as int) == before,
    ensures
        hits_worth(label, before, k) == hits_worth(label, places, k),
    decreases k,
{
    if k > 0 {
        lemma_worth_prefix(label, before, places, k - 1);
        assert(places.take(before.len() as int)[k - 1] == places[k - 1]);
        if k > 1 {
            assert(places.take(before.len() as int)[k - 2] == places[k - 2]);
        }
    }
}

pub(crate) proof fn lemma_prefix_decides(label: Seq<char>, query: Seq<char>, k: int)
    requires
        0 <= k <= query.len(),
        hits(label, query.take(k)) is None,
    ensures
        hits(label, query) is None,
    decreases query.len() - k,
{
    if k < query.len() {
        assert(query.take(k + 1).drop_last() =~= query.take(k));
        lemma_prefix_decides(label, query, k + 1);
    } else {
        assert(query.take(k) =~= query);
    }
}

/// An entry's score for the query, both lowered.
pub open spec fn entry_score(entries: Seq<PaletteEntry>, query: Seq<char>, ix: int) -> Option<int> {
    score(lowered(entries[ix].label@), lowered(query))
}

/// One entry stands before another: a better score, or the same and an
/// earlier place in the registry.
pub open spec fn ranks_before(
    entries: Seq<PaletteEntry>,
    query: Seq<char>,
    left: int,
    right: int,
) -> bool {
    let a = entry_score(entries, query, left)->0;
    let b = entry_score(entries, query, right)->0;
    a > b || (a == b && left < right)
}

/// The list holds exactly the entries that the query finds, best first.
pub open spec fn ranked(
    entries: Seq<PaletteEntry>,
    query: Seq<char>,
    filtered: Seq<usize>,
    upto: int,
) -> bool {
    &&& forall|i: int, j: int|
        0 <= i < j < filtered.len() ==> ranks_before(
            entries,
            query,
            #[trigger] filtered[i] as int,
            #[trigger] filtered[j] as int,
        )
    &&& forall|i: int|
        0 <= i < filtered.len() ==> (#[trigger] filtered[i] < upto && entry_score(
            entries,
            query,
            filtered[i] as int,
        ) is Some)
    &&& forall|ix: int|
        0 <= ix < upto && (#[trigger] entry_score(entries, query, ix)) is Some ==> exists|i: int|
            0 <= i < filtered.len() && #[trigger] filtered[i] == ix
}

/// The palette's state.
#[derive(Debug)]
pub struct CommandPalette {
    pub entries: Vec<PaletteEntry>,
    pub query: String,
    pub filtered: Vec<usize>,
    pub selected: usize,
}

/// What a key pressed in the palette asks for.
#[derive(Clone, Copy, Debug, PartialEq, Eq, Structural)]
pub enum PaletteRequest {
    Nothing,
    /// The key is the palette's; nothing leaves it.
    Stay,
    Close,
    /// Close the palette and run the action.
    Run(PaletteAction),
}

/// A drawn line of the palette.
#[derive(Debug)]
pub struct PaletteRow {
    pub label: String,
    pub shortcut: Option<String>,
    pub selected: bool,
}

/// Lines drawn at most.
pub const PALETTE_ROWS: usize = 64;

impl CommandPalette {
    /// Every label is short enough to score.
    pub open spec fn scorable(self) -> bool {
        forall|i: int|
            0 <= i < self.entries@.len() ==> 24 * lowered((#[trigger] self.entries@[i]).label@).len()
                <= i64::MAX
    }

    /// Every listed index is an entry's.
    pub open spec fn indices_valid(self) -> bool {
        forall|i: int|
            0 <= i < self.filtered@.len() ==> #[trigger] self.filtered@[i] < self.entries@.len()
    }

    /// All entries in registry order, the first selected.
    pub fn new(entries: Vec<PaletteEntry>) -> (palette: Self)
        ensures
            palette.entries == entries,
            palette.query@ == Seq::<char>::empty(),
            palette.selected == 0,
            palette.filtered@.len() == entries@.len(),
            forall|i: int| 0 <= i < entries@.len() ==> #[trigger] palette.filtered@[i] == i,
            palette.indices_valid(),
    {
        let mut filtered: Vec<usize> = Vec::new();
        let mut next: usize = 0;
        while next < entries.len()
            invariant
                next <= entries@.len(),
                filtered@.len() == next,
                forall|i: int| 0 <= i < next ==> #[trigger] filtered@[i] == i,
            decreases entries@.len() - next,
        {
            filtered.push(next);
            next = next + 1;
        }
        CommandPalette { entries, query: String::new(), filtered, selected: 0 }
    }

    /// The typed query changed: the entries it finds are listed best first
    /// and the best is selected. The query and the labels are compared in
    /// lower case. A label whose score cannot be held refuses the query and
    /// changes nothing.
    pub fn refresh_filter(&mut self, query: String) -> (done: bool)
        ensures
            done == old(self).scorable(),
            done ==> {
                &&& ranked(
                    old(self).entries@,
                    query@,
                    final(self).filtered@,
                    old(self).entries@.len() as int,
                )
                &&& *final(self) == (CommandPalette {
                    query,
                    filtered: final(self).filtered,
                    selected: 0,
                    ..*old(self)
                })
                &&& final(self).indices_valid()
            },
            !done ==> *final(self) == *old(self),
    {
        let lower_query = to_lowercase(query.as_str());
        let mut scores: Vec<i64> = Vec::new();
        let mut filtered: Vec<usize> = Vec::new();
        let mut next: usize = 0;
        let ghost entries = self.entries@;
        while next < self.entries.len()
            invariant
                *self == *old(self),
                entries == self.entries@,
                next <= entries.len(),
                lower_query@ == lowered(query@),
                scores@.len() == filtered@.len(),
                forall|i: int|
                    0 <= i < next ==> 24 * lowered((#[trigger] entries[i]).label@).len()
                        <= i64::MAX,
                ranked(entries, query@, filtered@, next as int),
                forall|i: int|
                    0 <= i < filtered@.len() ==> entry_score(
                        entries,
                        query@,
                        #[trigger] filtered@[i] as int,
                    ) == Some(scores@[i] as int),
            decreases entries.len() - next,
        {
            let lower_label = to_lowercase(self.entries[next].label.as_str());
            let length: usize = lower_label.as_str().unicode_len();
            if length as u128 * 24 > i64::MAX as u128 {
                assert(24 * lowered(entries[next as int].label@).len() > i64::MAX);
                return false;
            }
            match fuzzy_score(lower_label.as_str(), lower_query.as_str()) {
                None => {
                    assert(ranked(entries, query@, filtered@, next + 1));
                },
                Some(points) => {
                    let mut at: usize = filtered.len();
                    while at > 0 && scores[at - 1] < points
                        invariant
                            at <= filtered@.len(),
                            scores@.len() == filtered@.len(),
                            forall|i: int| at <= i < scores@.len() ==> #[trigger] scores@[i] < points,
                        decreases at,
                    {
                        at = at - 1;
                    }
                    let ghost listed = filtered@;
                    let ghost points_listed = scores@;
                    proof {
                        assert forall|i: int| 0 <= i < at implies #[trigger] points_listed[i]
                            >= points by {
                            if i < at - 1 {
                                assert(ranks_before(
                                    entries,
                                    query@,
                                    listed[i] as int,
                                    listed[at - 1] as int,
                                ));
                                assert(entry_score(entries, query@, listed[i] as int) == Some(
                                    points_listed[i] as int,
                                ));
                                assert(entry_score(entries, query@, listed[at - 1] as int) == Some(
                                    points_listed[at - 1] as int,
                                ));
                            }
                        }
                    }
                    filtered.insert(at, next);
                    scores.insert(at, points);
                    proof {
                        lemma_ranked_insert(
                            entries,
                            query@,
                            listed,
                            points_listed,
                            at as int,
                            next,
                            points as int,
                        );
                        assert(filtered@ =~= listed.insert(at as int, next));
                        assert(scores@ =~= points_listed.insert(at as int, points));
                        assert forall|i: int| 0 <= i < filtered@.len() implies entry_score(
                            entries,
                            query@,
                            #[trigger] filtered@[i] as int,
                        ) == Some(scores@[i] as int) by {
                            if i < at {
                                assert(filtered@[i] == listed[i]);
                            } else if i > at {
                                assert(filtered@[i] == listed[i - 1]);
                            }
                        }
                    }
                },
            }
            next = next + 1;
        }
        self.query = query;
        self.filtered = filtered;
        self.selected = 0;
        true
    }

    /// The action of the selected line, none where no line is selected.
    pub fn run_selected(&self) -> (action: Option<PaletteAction>)
        requires
            self.indices_valid(),
        ensures
            action == (if self.selected < self.filtered@.len() {
                Some(self.entries@[self.filtered@[self.selected as int] as int].action)
            } else {
                None
            }),
    {
        if self.selected < self.filtered.len() {
            let entry: usize = self.filtered[self.selected];
            Some(self.entries[entry].action)
        } else {
            None
        }
    }

    /// Selects a line and hands back its action.
    pub fn run_index(&mut self, list_ix: usize) -> (action: Option<PaletteAction>)
        requires
            old(self).indices_valid(),
        ensures
            *final(self) == (CommandPalette { selected: list_ix, ..*old(self) }),
            action == (if list_ix < old(self).filtered@.len() {
                Some(old(self).entries@[old(self).filtered@[list_ix as int] as int].action)
            } else {
                None
            }),
    {
        self.selected = list_ix;
        self.run_selected()
    }

    /// What a key does: escape closes, up and down walk the lines and wrap,
    /// enter runs the selected line.
    pub fn on_key_down(&mut self, key: &str) -> (request: PaletteRequest)
        requires
            old(self).indices_valid(),
            old(self).selected < usize::MAX,
        ensures
            *final(self) == (CommandPalette { selected: final(self).selected, ..*old(self) }),
            final(self).selected == (if key@ == "up"@ && old(self).filtered@.len() > 0 {
                if old(self).selected == 0 {
                    (old(self).filtered@.len() - 1) as usize
                } else {
                    (old(self).selected - 1) as usize
                }
            } else if key@ == "down"@ && old(self).filtered@.len() > 0 {
                ((old(self).selected + 1) % (old(self).filtered@.len() as int)) as usize
            } else {
                old(self).selected
            }),
            request == (if key@ == "escape"@ {
                PaletteRequest::Close
            } else if key@ == "up"@ || key@ == "down"@ {
                PaletteRequest::Stay
            } else if key@ == "enter"@ {
                if old(self).selected < old(self).filtered@.len() {
                    PaletteRequest::Run(
                        old(self).entries@[old(self).filtered@[old(self).selected as int] as int].action,
                    )
                } else {
                    PaletteRequest::Stay
                }
            } else {
                PaletteRequest::Nothing
            }),
    {
        proof {
            reveal_strlit("escape");
            reveal_strlit("up");
            reveal_strlit("down");
            reveal_strlit("enter");
            assert("escape"@.len() == 6 && "up"@.len() == 2 && "down"@.len() == 4 && "enter"@.len()
                == 5);
        }
        if same_text(key, "escape") {
            return PaletteRequest::Close;
        }
        if same_text(key, "up") {
            if self.filtered.len() > 0 {
                self.selected = if self.selected == 0 {
                    self.filtered.len() - 1
                } else {
                    self.selected - 1
                };
            }
            return PaletteRequest::Stay;
        }
        if same_text(key, "down") {
            if self.filtered.len() > 0 {
                self.selected = (self.selected + 1) % self.filtered.len();
            }
            return PaletteRequest::Stay;
        }
        if same_text(key, "enter") {
            return match self.run_selected() {
                Some(action) => PaletteRequest::Run(action),
                None => PaletteRequest::Stay,
            };
        }
        PaletteRequest::Nothing
    }

    /// The lines drawn: the first of the list, none of them standing for "No
    /// matching commands".
    pub fn render(&self) -> (rows: Vec<PaletteRow>)
        requires
            self.indices_valid(),
        ensures
            rows@.len() == (if self.filtered@.len() < PALETTE_ROWS {
                self.filtered@.len()
            } else {
                PALETTE_ROWS as nat
            }),
            forall|i: int|
                0 <= i < rows@.len() ==> {
                    let entry = self.entries@[self.filtered@[i] as int];
                    &&& (#[trigger] rows@[i]).label@ == entry.label@
                    &&& rows@[i].selected == (i == self.selected)
                    &&& match (rows@[i].shortcut, entry.shortcut) {
                        (Some(shown), Some(key)) => shown@ == key@,
                        (None, None) => true,
                        _ => false,
                    }
                },
    {
        let mut rows: Vec<PaletteRow> = Vec::new();
        let mut next: usize = 0;
        while next < self.filtered.len() && next < PALETTE_ROWS
            invariant
                self.indices_valid(),
                next <= self.filtered@.len(),
                next <= PALETTE_ROWS,
                rows@.len() == next,
                forall|i: int|
                    0 <= i < rows@.len() ==> {
                        let entry = self.entries@[self.filtered@[i] as int];
                        &&& (#[trigger] rows@[i]).label@ == entry.label@
                        &&& rows@[i].selected == (i == self.selected)
                        &&& match (rows@[i].shortcut, entry.shortcut) {
                            (Some(shown), Some(key)) => shown@ == key@,
                            (None, None) => true,
                            _ => false,
                        }
                    },
            decreases self.filtered@.len() - next,
        {
            let entry = &self.entries[self.filtered[next]];
            let shortcut = match &entry.shortcut {
                Some(key) => Some(key.clone()),
                None => None,
            };
            rows.push(
                PaletteRow { label: entry.label.clone(), shortcut, selected: next == self.selected },
            );
            next = next + 1;
        }
        rows
    }
}

proof fn lemma_ranked_insert(
    entries: Seq<PaletteEntry>,
    query: Seq<char>,
    listed: Seq<usize>,
    points_listed: Seq<i64>,
    at: int,
    ix: usize,
    points: int,
)
    requires
        0 <= at <= listed.len(),
        points_listed.len() == listed.len(),
        ix < entries.len(),
        ranked(entries, query, listed, ix as int),
        entry_score(entries, query, ix as int) == Some(points),
        forall|i: int|
            0 <= i < listed.len() ==> entry_score(entries, query, #[trigger] listed[i] as int)
                == Some(points_listed[i] as int),
        forall|i: int| 0 <= i < at ==> #[trigger] points_listed[i] >= points,
        forall|i: int| at <= i < listed.len() ==> #[trigger] points_listed[i] < points,
    ensures
        ranked(entries, query, listed.insert(at, ix), ix + 1),
{
    let new = listed.insert(at, ix);
    assert forall|i: int, j: int| 0 <= i < j < new.len() implies ranks_before(
        entries,
        query,
        #[trigger] new[i] as int,
        #[trigger] new[j] as int,
    ) by {
        let oi = if i < at { i } else { i - 1 };
        let oj = if j < at { j } else { j - 1 };
        if i == at {
            assert(new[j] == listed[oj]);
            assert(points_listed[oj] < points);
        } else if j == at {
            assert(new[i] == listed[oi]);
            assert(points_listed[oi] >= points);
        } else {
            assert(new[i] == listed[oi]);
            assert(new[j] == listed[oj]);
            assert(ranks_before(entries, query, listed[oi] as int, listed[oj] as int));
        }
    }
    assert forall|i: int| 0 <= i < new.len() implies (#[trigger] new[i] < ix + 1 && entry_score(
        entries,
        query,
        new[i] as int,
    ) is Some) by {
        if i < at {
            assert(new[i] == listed[i]);
        } else if i > at {
            assert(new[i] == listed[i - 1]);
        }
    }
    assert forall|k: int|
        0 <= k < ix + 1 && (#[trigger] entry_score(entries, query, k)) is Some implies exists|i: int|
        0 <= i < new.len() && #[trigger] new[i] == k by {
        if k == ix {
            assert(new[at] == k);
        } else {
            let i = choose|i: int| 0 <= i < listed.len() && #[trigger] listed[i] == k;
            let ni = if i < at { i } else { i + 1 };
            assert(new[ni] == k);
        }
    }
}

/// A palette line as a value.
#[verifier::ext_equal]
pub struct EntryView {
    pub label: Seq<char>,
    pub action: PaletteAction,
    pub shortcut: Option<Seq<char>>,
}

impl View for PaletteEntry {
    type V = EntryView;

    open spec fn view(&self) -> EntryView {
        EntryView {
            label: self.label@,
            action: self.action,
            shortcut: match self.shortcut {
                Some(key) => Some(key@),
                None => None,
            },
        }
    }
}

pub open spec fn entry_views(entries: Seq<PaletteEntry>) -> Seq<EntryView> {
    entries.map_values(|entry: PaletteEntry| entry@)
}

/// The lines of the registered commands, the palette's own left out, each
/// with the first key bound to it.
pub open spec fn command_entries(specs: Seq<CommandSpec>) -> Seq<EntryView>
    decreases specs.len(),
{
    if specs.len() == 0 {
        Seq::empty()
    } else {
        let earlier = command_entries(specs.drop_last());
        let spec = specs.last();
        if spec.id == CommandId::OpenCommandPalette {
            earlier
        } else {
            earlier.push(
                EntryView {
                    label: spec.label@,
                    action: PaletteAction::Command(spec.id),
                    shortcut: if spec.keys@.len() > 0 {
                        Some(spec.keys@[0]@)
                    } else {
                        None
                    },
                },
            )
        }
    }
}

/// The quick toggles' lines, each named after the state it will set.
pub open spec fn toggle_entries(states: ToggleStates) -> Seq<EntryView> {
    seq![
        EntryView {
            label: if states.autosave {
                "Autosave: turn off"@
            } else {
                "Autosave: turn on"@
            },
            action: PaletteAction::ToggleAutosave,
            shortcut: None,
        },
        EntryView {
            label: if states.smart_word_selection {
                "Smart word selection: turn off"@
            } else {
                "Smart word selection: turn on"@
            },
            action: PaletteAction::ToggleSmartWordSelection,
            shortcut: None,
        },
        EntryView {
            label: if states.reduce_motion {
                "Reduce motion: turn off"@
            } else {
                "Reduce motion: turn on"@
            },
            action: PaletteAction::ToggleReduceMotion,
            shortcut: None,
        },
    ]
}

/// Bytes a heading's line may take.
pub const GO_TO_BYTES: usize = 72;

/// Bytes kept of a heading's line that takes more.
pub const GO_TO_KEPT: usize = 69;

/// A heading's line before it is cut.
pub open spec fn go_to_text(heading: Seq<char>) -> Seq<char> {
    "Go to: "@ + heading
}

/// The line can be cut where it must be: it is short enough, or a character
/// ends at the cut.
pub open spec fn cuts_clean(heading: Seq<char>) -> bool {
    byte_len(go_to_text(heading)) <= GO_TO_BYTES || byte_len(
        front_within(go_to_text(heading), GO_TO_KEPT as int),
    ) == GO_TO_KEPT
}

/// A heading's line, cut with an ellipsis where it takes too many bytes.
pub open spec fn go_to_label(heading: Seq<char>) -> Seq<char> {
    if byte_len(go_to_text(heading)) <= GO_TO_BYTES {
        go_to_text(heading)
    } else {
        front_within(go_to_text(heading), GO_TO_KEPT as int).push('…')
    }
}

/// The lines of the headings that have text, in document order.
pub open spec fn heading_entries(headings: Seq<Heading>) -> Seq<EntryView>
    decreases headings.len(),
{
    if headings.len() == 0 {
        Seq::empty()
    } else {
        let earlier = heading_entries(headings.drop_last());
        let heading = headings.last();
        if trimmed(heading.text@).len() == 0 {
            earlier
        } else {
            earlier.push(
                EntryView {
                    label: go_to_label(trimmed(heading.text@)),
                    action: PaletteAction::GoToParagraph(heading.paragraph_ix),
                    shortcut: None,
                },
            )
        }
    }
}

/// The line for a heading without surrounding white space.
pub fn heading_label(heading: &str) -> (label: String)
    requires
        cuts_clean(heading@),
    ensures
        label@ == go_to_label(heading@),
{
    let mut label = String::new();
    label.append("Go to: ");
    label.append(heading);
    assert(label@ =~= go_to_text(heading@));
    if crate::text::byte_count(label.as_str()) <= GO_TO_BYTES {
        return label;
    }
    let chars = chars_of(label.as_str());
    let mut short = front_of(&chars, GO_TO_KEPT);
    short.push('…');
    short
}

fn heading_cuts_clean(heading: &str) -> (b: bool)
    ensures
        b == cuts_clean(heading@),
{
    let mut label = String::new();
    label.append("Go to: ");
    label.append(heading);
    assert(label@ =~= go_to_text(heading@));
    if crate::text::byte_count(label.as_str()) <= GO_TO_BYTES {
        return true;
    }
    let chars = chars_of(label.as_str());
    let short = front_of(&chars, GO_TO_KEPT);
    crate::text::byte_count(short.as_str()) == GO_TO_KEPT
}

/// Every line of the palette: the commands, the quick toggles and the
/// headings of the document on top. None where a heading's line would have
/// to be cut inside a character.
pub fn palette_entries(
    specs: &Vec<CommandSpec>,
    states: ToggleStates,
    headings: &Vec<Heading>,
) -> (entries: Option<Vec<PaletteEntry>>)
    ensures
        match entries {
            Some(entries) => {
                &&& forall|i: int|
                    0 <= i < headings@.len() ==> trimmed((#[trigger] headings@[i]).text@).len() == 0
                        || cuts_clean(trimmed(headings@[i].text@))
                &&& entry_views(entries@) == command_entries(specs@) + toggle_entries(states)
                    + heading_entries(headings@)
            },
            None => exists|i: int|
                0 <= i < headings@.len() && trimmed((#[trigger] headings@[i]).text@).len() > 0
                    && !cuts_clean(trimmed(headings@[i].text@)),
        },
{
    let mut entries: Vec<PaletteEntry> = Vec::new();
    let mut next: usize = 0;
    assert(specs@.take(0) =~= Seq::empty());
    assert(entry_views(entries@) =~= Seq::empty());
    while next < specs.len()
        invariant
            next <= specs@.len(),
            entry_views(entries@) == command_entries(specs@.take(next as int)),
        decreases specs@.len() - next,
    {
        let ghost before = entries@;
        proof {
            let taken = specs@.take(next + 1);
            assert(taken.drop_last() =~= specs@.take(next as int));
            assert(taken.last() == specs@[next as int]);
        }
        let spec = &specs[next];
        let own = match spec.id {
            CommandId::OpenCommandPalette => true,
            _ => false,
        };
        if !own {
            let shortcut = if spec.keys.len() > 0 {
                Some(spec.keys[0].clone())
            } else {
                None
            };
            let entry = PaletteEntry {
                label: spec.label.clone(),
                action: PaletteAction::Command(spec.id),
                shortcut,
            };
            entries.push(entry);
            assert(entry_views(entries@) =~= entry_views(before).push(entry@));
        }
        next = next + 1;
    }
    assert(specs@.take(next as int) =~= specs@);
    let ghost commands = entry_views(entries@);
    let autosave = String::from_str(
        if states.autosave {
            "Autosave: turn off"
        } else {
            "Autosave: turn on"
        },
    );
    entries.push(
        PaletteEntry { label: autosave, action: PaletteAction::ToggleAutosave, shortcut: None },
    );
    let words = String::from_str(
        if states.smart_word_selection {
            "Smart word selection: turn off"
        } else {
            "Smart word selection: turn on"
        },
    );
    entries.push(
        PaletteEntry {
            label: words,
            action: PaletteAction::ToggleSmartWordSelection,
            shortcut: None,
        },
    );
    let motion = String::from_str(
        if states.reduce_motion {
            "Reduce motion: turn off"
        } else {
            "Reduce motion: turn on"
        },
    );
    entries.push(
        PaletteEntry { label: motion, action: PaletteAction::ToggleReduceMotion, shortcut: None },
    );
    let ghost fixed = commands + toggle_entries(states);
    assert(entry_views(entries@) =~= fixed);
    let mut at: usize = 0;
    assert(headings@.take(0) =~= Seq::empty());
    assert(entry_views(entries@) =~= fixed + heading_entries(headings@.take(0)));
    while at < headings.len()
        invariant
            at <= headings@.len(),
            fixed == command_entries(specs@) + toggle_entries(states),
            forall|i: int|
                0 <= i < at ==> trimmed((#[trigger] headings@[i]).text@).len() == 0 || cuts_clean(
                    trimmed(headings@[i].text@),
                ),
            entry_views(entries@) == fixed + heading_entries(headings@.take(at as int)),
        decreases headings@.len() - at,
    {
        let ghost before = entries@;
        let ghost listed = heading_entries(headings@.take(at as int));
        proof {
            let taken = headings@.take(at + 1);
            assert(taken.drop_last() =~= headings@.take(at as int));
            assert(taken.last() == headings@[at as int]);
        }
        let heading = trim(headings[at].text.as_str());
        if !heading.as_str().is_empty() {
            if !heading_cuts_clean(heading.as_str()) {
                return None;
            }
            let entry = PaletteEntry {
                label: heading_label(heading.as_str()),
                action: PaletteAction::GoToParagraph(headings[at].paragraph_ix),
                shortcut: None,
            };
            entries.push(entry);
            assert(entry_views(entries@) =~= entry_views(before).push(entry@));
            assert(entry_views(entries@) =~= fixed + listed.push(entry@));
        }
        at = at + 1;
    }
    assert(headings@.take(at as int) =~= headings@);
    Some(entries)
}

/// What running a palette line does.
#[derive(Clone, Copy, Debug, PartialEq, Eq, Structural)]
pub enum PaletteEffect {
    Dispatch(CommandId),
    SetAutosave(bool),
    SetSmartWordSelection(bool),
    SetReduceMotion(bool),
    ShowParagraph(usize),
}

/// What running a palette line does.
pub open spec fn palette_effect(action: PaletteAction, states: ToggleStates) -> PaletteEffect {
    match action {
        PaletteAction::Command(command) => PaletteEffect::Dispatch(command),
        PaletteAction::ToggleAutosave => PaletteEffect::SetAutosave(!states.autosave),
        PaletteAction::ToggleSmartWordSelection => PaletteEffect::SetSmartWordSelection(
            !states.smart_word_selection,
        ),
        PaletteAction::ToggleReduceMotion => PaletteEffect::SetReduceMotion(!states.reduce_motion),
        PaletteAction::GoToParagraph(paragraph) => PaletteEffect::ShowParagraph(paragraph),
    }
}

/// The quick toggles once a palette line has run.
pub open spec fn states_after(states: ToggleStates, effect: PaletteEffect) -> ToggleStates {
    match effect {
        PaletteEffect::SetAutosave(autosave) => ToggleStates { autosave, ..states },
        PaletteEffect::SetSmartWordSelection(smart_word_selection) => ToggleStates {
            smart_word_selection,
            ..states
        },
        PaletteEffect::SetReduceMotion(reduce_motion) => ToggleStates { reduce_motion, ..states },
        _ => states,
    }
}

/// A toggle's line says what it sets: the state that its label names is the
/// one that running it leaves, and no other state changes.
pub proof fn toggles_set_what_their_lines_say(states: ToggleStates)
    ensures
        ({
            let lines = toggle_entries(states);
            let autosave = states_after(states, palette_effect(lines[0].action, states));
            let words = states_after(states, palette_effect(lines[1].action, states));
            let motion = states_after(states, palette_effect(lines[2].action, states));
            &&& lines[0].label == (if autosave.autosave {
                "Autosave: turn on"@
            } else {
                "Autosave: turn off"@
            })
            &&& autosave == (ToggleStates { autosave: !states.autosave, ..states })
            &&& lines[1].label == (if words.smart_word_selection {
                "Smart word selection: turn on"@
            } else {
                "Smart word selection: turn off"@
            })
            &&& words == (ToggleStates {
                smart_word_selection: !states.smart_word_selection,
                ..states
            })
            &&& lines[2].label == (if motion.reduce_motion {
                "Reduce motion: turn on"@
            } else {
                "Reduce motion: turn off"@
            })
            &&& motion == (ToggleStates { reduce_motion: !states.reduce_motion, ..states })
        }),
{
}

/// Runs a palette line: a command goes the way every command goes, a toggle
/// sets the state that it does not have.
pub fn execute_palette_action(action: PaletteAction, states: ToggleStates) -> (effect:
    PaletteEffect)
    ensures
        effect == palette_effect(action, states),
{
    match action {
        PaletteAction::Command(command) => PaletteEffect::Dispatch(command),
        PaletteAction::ToggleAutosave => PaletteEffect::SetAutosave(!states.autosave),
        PaletteAction::ToggleSmartWordSelection => PaletteEffect::SetSmartWordSelection(
            !states.smart_word_selection,
        ),
        PaletteAction::ToggleReduceMotion => PaletteEffect::SetReduceMotion(!states.reduce_motion),
        PaletteAction::GoToParagraph(paragraph) => PaletteEffect::ShowParagraph(paragraph),
    }
}

} // verus!
