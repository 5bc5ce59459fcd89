//! History mode: the ledger of a document's moments, the tape that scrubs
//! over them, and what may be done with the moment that is shown.

use crate::comment_dialog::reads;
use crate::comments::{failure, failure_text};
use crate::document_panel::DocumentRange;
use crate::pane::PanelId;
use crate::text::{decimal, push_decimal, same_text, trim, trimmed};
use std::collections::HashSet;
use vstd::prelude::*;
use vstd::string::StringExecFns;

verus! {

/// How a moment came to be recorded.
#[derive(Clone, Copy, Debug, PartialEq, Eq, Structural)]
pub enum RevisionKind {
    Named,
    Session,
    Auto,
}

/// A recorded moment.
#[derive(Debug)]
pub struct RevisionInfo {
    pub revision_id: u128,
    pub frontier: Vec<u8>,
    pub title: String,
    pub kind: RevisionKind,
    pub created_at_unix_secs: i64,
    pub author_display_name: Option<String>,
}

/// Text of the shown moment that is no longer there.
#[derive(Debug)]
pub struct RemovedSpan {
    pub range: DocumentRange,
    pub author_user_id: Option<u128>,
    pub author_display_name: Option<String>,
}

/// What changed between the shown moment and now.
#[derive(Debug)]
pub struct FrontierDiff {
    pub removed_since: Vec<RemovedSpan>,
    pub removed_chars: usize,
    pub inserted_chars: usize,
}

/// The colour of a change: its author's own, or grey for an unknown one.
#[derive(Clone, Copy, Debug, PartialEq, Eq, Structural)]
pub enum AuthorColor {
    User(u128),
    Rgb(u32),
}

/// A mark under text that is gone.
#[derive(Clone, Copy, Debug, PartialEq, Eq, Structural)]
pub struct DiffMark {
    pub range: DocumentRange,
    pub color: AuthorColor,
}

/// The colour of a change whose author is not known.
pub const UNKNOWN_AUTHOR_RGB: u32 = 0x008a_8a8a;

/// A gap this long between records starts a new group.
pub const SESSION_GAP_SECS: i64 = 1800;

/// A record that belongs to the group of the one before it.
pub open spec fn continues(revisions: Seq<RevisionInfo>, ix: int) -> bool {
    revisions[ix].created_at_unix_secs - revisions[ix - 1].created_at_unix_secs
        <= SESSION_GAP_SECS
}

/// The groups of the first `k` records, each by its first index and the one
/// behind its last.
pub open spec fn groups_of(revisions: Seq<RevisionInfo>, k: int) -> Seq<(int, int)>
    decreases k,
{
    if k <= 0 {
        Seq::empty()
    } else {
        let before = groups_of(revisions, k - 1);
        if before.len() > 0 && continues(revisions, k - 1) {
            before.drop_last().push((before.last().0, k))
        } else {
            before.push((k - 1, k))
        }
    }
}

/// Index pairs as numbers.
pub open spec fn spans(groups: Seq<(usize, usize)>) -> Seq<(int, int)> {
    groups.map_values(|group: (usize, usize)| (group.0 as int, group.1 as int))
}

/// The groups stand side by side, none is empty, and together they hold every
/// record. A record begins a group exactly where the gap before it is too
/// long.
pub proof fn groups_cut_the_ledger_at_its_gaps(revisions: Seq<RevisionInfo>, k: int)
    requires
        0 <= k <= revisions.len(),
    ensures
        ({
            let groups = groups_of(revisions, k);
            &&& (groups.len() == 0) == (k == 0)
            &&& k > 0 ==> groups[0].0 == 0 && groups.last().1 == k
            &&& forall|g: int|
                0 <= g < groups.len() ==> (#[trigger] groups[g]).0 < groups[g].1 && (g > 0
                    ==> groups[g - 1].1 == groups[g].0)
            &&& forall|g: int|
                0 < g < groups.len() ==> 0 < (#[trigger] groups[g]).0 < k && !continues(
                    revisions,
                    groups[g].0,
                )
            &&& forall|g: int, ix: int|
                0 <= g < groups.len() && (#[trigger] groups[g]).0 < ix < groups[g].1
                    ==> #[trigger] continues(revisions, ix)
        }),
    decreases k,
{
    if k > 0 {
        groups_cut_the_ledger_at_its_gaps(revisions, k - 1);
    }
}

/// The rows that a group shows, newest first: all, or when it is collapsed
/// its named moments only.
pub open spec fn ledger_rows(
    revisions: Seq<RevisionInfo>,
    start: int,
    end: int,
    collapsed: bool,
) -> Seq<int>
    decreases end - start,
{
    if end <= start {
        Seq::empty()
    } else if !collapsed || revisions[end - 1].kind == RevisionKind::Named {
        seq![end - 1] + ledger_rows(revisions, start, end - 1, collapsed)
    } else {
        ledger_rows(revisions, start, end - 1, collapsed)
    }
}

/// Named moments stay visible in a collapsed group, and an open group shows
/// every moment.
pub proof fn named_moments_stay_visible(
    revisions: Seq<RevisionInfo>,
    start: int,
    end: int,
    collapsed: bool,
    ix: int,
)
    requires
        start <= ix < end,
        !collapsed || revisions[ix].kind == RevisionKind::Named,
    ensures
        ledger_rows(revisions, start, end, collapsed).contains(ix),
    decreases end - start,
{
    let rows = ledger_rows(revisions, start, end, collapsed);
    if ix == end - 1 {
        assert(rows[0] == ix);
    } else {
        named_moments_stay_visible(revisions, start, end - 1, collapsed, ix);
        let rest = ledger_rows(revisions, start, end - 1, collapsed);
        let at = choose|i: int| 0 <= i < rest.len() && rest[i] == ix;
        if !collapsed || revisions[end - 1].kind == RevisionKind::Named {
            assert(rows[at + 1] == ix);
        }
    }
}

/// What a debounced checkout brought.
#[derive(Debug)]
pub enum CheckoutOutcome {
    Document,
    NoDocument,
    Failed(String),
}

/// What switching the diff asks for.
#[derive(Debug)]
pub enum DiffRequest {
    /// Fetch the change from this frontier to now.
    Fetch(Vec<u8>),
    /// Take the marks off the preview.
    ClearMarks,
    Nothing,
}

/// The state of history mode.
#[derive(Debug)]
pub struct HistoryTakeover {
    pub panel_id: PanelId,
    /// Oldest first.
    pub revisions: Vec<RevisionInfo>,
    pub selected: Option<u128>,
    /// The frontier in the preview; none while it shows the present.
    pub shown_frontier: Option<Vec<u8>>,
    pub loading_preview: bool,
    pub error: Option<String>,
    pub renaming: Option<u128>,
    pub pinning: bool,
    pub busy: bool,
    pub diff_enabled: bool,
    pub diff: Option<FrontierDiff>,
    pub collapsed_groups: HashSet<usize>,
    pub checkout_generation: u64,
    pub refresh_pending: bool,
}

/// The first record of an id.
pub open spec fn revision_index(revisions: Seq<RevisionInfo>, id: u128, from: int) -> Option<int>
    decreases revisions.len() - from,
{
    if from < 0 || from >= revisions.len() {
        None
    } else if revisions[from].revision_id == id {
        Some(from)
    } else {
        revision_index(revisions, id, from + 1)
    }
}

/// The marks of the first `k` spans.
pub open spec fn diff_marks(spans: Seq<RemovedSpan>) -> Seq<DiffMark> {
    spans.map_values(
        |span: RemovedSpan|
            DiffMark { range: span.range, color: author_color(span.author_user_id) },
    )
}

pub open spec fn author_color(author: Option<u128>) -> AuthorColor {
    match author {
        Some(user) => AuthorColor::User(user),
        None => AuthorColor::Rgb(UNKNOWN_AUTHOR_RGB),
    }
}

fn color_of(author: Option<u128>) -> (color: AuthorColor)
    ensures
        color == author_color(author),
{
    match author {
        Some(user) => AuthorColor::User(user),
        None => AuthorColor::Rgb(UNKNOWN_AUTHOR_RGB),
    }
}

/// The marks that dress the preview.
pub fn paint_diff(diff: &FrontierDiff) -> (marks: Vec<DiffMark>)
    ensures
        marks@ == diff_marks(diff.removed_since@),
{
    let mut marks: Vec<DiffMark> = Vec::new();
    let mut next: usize = 0;
    while next < diff.removed_since.len()
        invariant
            next <= diff.removed_since@.len(),
            marks@ == diff_marks(diff.removed_since@.take(next as int)),
        decreases diff.removed_since@.len() - next,
    {
        let span = &diff.removed_since[next];
        marks.push(DiffMark { range: span.range, color: color_of(span.author_user_id) });
        next = next + 1;
        assert(marks@ =~= diff_marks(diff.removed_since@.take(next as int)));
    }
    assert(diff.removed_since@.take(next as int) =~= diff.removed_since@);
    marks
}

/// An author in the legend.
pub open spec fn author_entry(span: RemovedSpan) -> (Option<u128>, Seq<char>) {
    (
        span.author_user_id,
        match span.author_display_name {
            Some(name) => name@,
            None => "Unknown"@,
        },
    )
}

/// An author of that id is in the legend.
pub open spec fn legend_has(legend: Seq<(Option<u128>, Seq<char>)>, author: Option<u128>) -> bool {
    exists|i: int| 0 <= i < legend.len() && (#[trigger] legend[i]).0 == author
}

/// The authors of the first `k` spans, each once, under the name of their
/// first span.
pub open spec fn legend_of(spans: Seq<RemovedSpan>, k: int) -> Seq<(Option<u128>, Seq<char>)>
    decreases k,
{
    if k <= 0 {
        Seq::empty()
    } else {
        let before = legend_of(spans, k - 1);
        if legend_has(before, spans[k - 1].author_user_id) {
            before
        } else {
            before.push(author_entry(spans[k - 1]))
        }
    }
}

/// Legend entries by their texts.
pub open spec fn entry_texts(entries: Seq<(Option<u128>, String)>) -> Seq<
    (Option<u128>, Seq<char>),
> {
    entries.map_values(|entry: (Option<u128>, String)| (entry.0, entry.1@))
}

/// The legend of a diff.
pub fn author_legend(diff: &FrontierDiff) -> (legend: Vec<(Option<u128>, String)>)
    ensures
        entry_texts(legend@) == legend_of(
            diff.removed_since@,
            diff.removed_since@.len() as int,
        ),
{
    let mut legend: Vec<(Option<u128>, String)> = Vec::new();
    let mut next: usize = 0;
    assert(entry_texts(legend@) =~= Seq::empty());
    while next < diff.removed_since.len()
        invariant
            next <= diff.removed_since@.len(),
            entry_texts(legend@) == legend_of(diff.removed_since@, next as int),
        decreases diff.removed_since@.len() - next,
    {
        let span = &diff.removed_since[next];
        let mut known = false;
        let mut i: usize = 0;
        while i < legend.len()
            invariant
                i <= legend@.len(),
                known == exists|j: int|
                    0 <= j < i && (#[trigger] entry_texts(legend@)[j]).0 == span.author_user_id,
            decreases legend@.len() - i,
        {
            assert(entry_texts(legend@)[i as int].0 == legend@[i as int].0);
            let same = match (legend[i].0, span.author_user_id) {
                (Some(a), Some(b)) => a == b,
                (None, None) => true,
                _ => false,
            };
            if same {
                known = true;
            }
            i = i + 1;
        }
        let ghost before = legend@;
        assert(known == legend_has(entry_texts(before), span.author_user_id));
        if !known {
            let name = match &span.author_display_name {
                Some(name) => name.clone(),
                None => String::from_str("Unknown"),
            };
            let ghost text = name@;
            legend.push((span.author_user_id, name));
            assert(entry_texts(legend@) =~= entry_texts(before).push((span.author_user_id, text)));
        }
        next = next + 1;
    }
    legend
}

impl HistoryTakeover {
    /// History mode over a document's panel, showing the present.
    pub fn new(panel_id: PanelId) -> (takeover: Self)
        ensures
            takeover.panel_id == panel_id,
            takeover.revisions@.len() == 0,
            takeover.selected is None,
            takeover.shown_frontier is None,
            !takeover.loading_preview,
            takeover.error is None,
            takeover.renaming is None,
            !takeover.pinning,
            !takeover.busy,
            takeover.diff_enabled,
            takeover.diff is None,
            takeover.collapsed_groups@ == Set::<usize>::empty(),
            takeover.checkout_generation == 0,
            !takeover.refresh_pending,
    {
        HistoryTakeover {
            panel_id,
            revisions: Vec::new(),
            selected: None,
            shown_frontier: None,
            loading_preview: false,
            error: None,
            renaming: None,
            pinning: false,
            busy: false,
            diff_enabled: true,
            diff: None,
            collapsed_groups: HashSet::new(),
            checkout_generation: 0,
            refresh_pending: false,
        }
    }

    /// How many records the ledger holds.
    #[must_use]
    pub fn revision_count(&self) -> (count: usize)
        ensures
            count == self.revisions@.len(),
    {
        self.revisions.len()
    }

    /// A change of the document asks for a reload; at most one is pending.
    pub fn schedule_refresh(&mut self) -> (scheduled: bool)
        ensures
            scheduled == !old(self).refresh_pending,
            *final(self) == (HistoryTakeover { refresh_pending: true, ..*old(self) }),
    {
        if self.refresh_pending {
            return false;
        }
        self.refresh_pending = true;
        true
    }

    /// The pending reload is due.
    pub fn refresh_due(&mut self)
        ensures
            *final(self) == (HistoryTakeover { refresh_pending: false, ..*old(self) }),
    {
        self.refresh_pending = false;
    }

    /// Takes loaded records, which come newest first. On the first load every
    /// group but the newest starts collapsed.
    pub fn finish_reload(
        &mut self,
        result: Result<Vec<RevisionInfo>, String>,
        collapse_old_groups: bool,
    )
        ensures
            match result {
                Ok(newest_first) => {
                    &&& final(self).revisions@ == newest_first@.reverse()
                    &&& collapse_old_groups ==> forall|g: usize| #[trigger]
                        final(self).collapsed_groups@.contains(g) <==> g + 1 < groups_of(
                            newest_first@.reverse(),
                            newest_first@.len() as int,
                        ).len()
                    &&& *final(self) == (HistoryTakeover {
                        revisions: final(self).revisions,
                        error: None,
                        collapsed_groups: if collapse_old_groups {
                            final(self).collapsed_groups
                        } else {
                            old(self).collapsed_groups
                        },
                        ..*old(self)
                    })
                },
                Err(error) => {
                    &&& reads(final(self).error, failure_text("Loading history failed: "@, error@))
                    &&& *final(self) == (HistoryTakeover {
                        error: final(self).error,
                        ..*old(self)
                    })
                },
            },
    {
        broadcast use vstd::std_specs::hash::group_hash_axioms;

        match result {
            Ok(newest_first) => {
                let ghost given = newest_first@;
                let mut newest_first = newest_first;
                let mut revisions: Vec<RevisionInfo> = Vec::new();
                while newest_first.len() > 0
                    invariant
                        newest_first@.len() + revisions@.len() == given.len(),
                        newest_first@ == given.take(newest_first@.len() as int),
                        revisions@ == given.skip(newest_first@.len() as int).reverse(),
                    decreases newest_first@.len(),
                {
                    let ghost left = newest_first@.len() - 1;
                    if let Some(revision) = newest_first.pop() {
                        revisions.push(revision);
                    }
                    assert(newest_first@ =~= given.take(left));
                    assert(revisions@ =~= given.skip(left).reverse());
                }
                assert(given.skip(0) =~= given);
                self.revisions = revisions;
                self.error = None;
                if collapse_old_groups {
                    let groups = self.session_groups();
                    assert(groups@.len() == spans(groups@).len());
                    let mut collapsed: HashSet<usize> = HashSet::new();
                    let old_groups: usize = if groups.len() > 0 {
                        groups.len() - 1
                    } else {
                        0
                    };
                    let mut next: usize = 0;
                    while next < old_groups
                        invariant
                            next <= old_groups,
                            forall|g: usize| #[trigger] collapsed@.contains(g) <==> g < next,
                        decreases old_groups - next,
                    {
                        collapsed.insert(next);
                        next = next + 1;
                    }
                    self.collapsed_groups = collapsed;
                }
            },
            Err(error) => {
                self.error = Some(failure("Loading history failed: ", error.as_str()));
            },
        }
    }

    /// The ledger's groups, oldest first.
    pub fn session_groups(&self) -> (groups: Vec<(usize, usize)>)
        ensures
            spans(groups@) == groups_of(self.revisions@, self.revisions@.len() as int),
            groups@.len() <= self.revisions@.len(),
    {
        let mut groups: Vec<(usize, usize)> = Vec::new();
        let mut next: usize = 0;
        assert(spans(groups@) =~= Seq::empty());
        while next < self.revisions.len()
            invariant
                next <= self.revisions@.len(),
                groups@.len() <= next,
                next > 0 ==> groups@.len() > 0,
                spans(groups@) == groups_of(self.revisions@, next as int),
            decreases self.revisions@.len() - next,
        {
            let ghost before = groups@;
            let joins = next > 0 && self.revisions[next].created_at_unix_secs as i128
                - self.revisions[next - 1].created_at_unix_secs as i128 <= SESSION_GAP_SECS as i128;
            if joins {
                let last: usize = groups.len() - 1;
                let start: usize = groups[last].0;
                groups.set(last, (start, next + 1));
                assert(spans(groups@) =~= spans(before).drop_last().push(
                    (spans(before).last().0, next + 1),
                ));
            } else {
                groups.push((next, next + 1));
                assert(spans(groups@) =~= spans(before).push((next as int, next + 1)));
            }
            next = next + 1;
        }
        groups
    }

    fn find(&self, revision_id: u128) -> (found: Option<usize>)
        ensures
            match found {
                Some(ix) => revision_index(self.revisions@, revision_id, 0) == Some(ix as int) && ix
                    < self.revisions@.len(),
                None => revision_index(self.revisions@, revision_id, 0) is None,
            },
    {
        let mut next: usize = 0;
        while next < self.revisions.len()
            invariant
                next <= self.revisions@.len(),
                revision_index(self.revisions@, revision_id, 0) == revision_index(
                    self.revisions@,
                    revision_id,
                    next as int,
                ),
            decreases self.revisions@.len() - next,
        {
            if self.revisions[next].revision_id == revision_id {
                return Some(next);
            }
            next = next + 1;
        }
        None
    }

    /// The frontier of the selected moment.
    pub open spec fn selected_frontier(self) -> Option<Seq<u8>> {
        match self.selected {
            Some(id) => match revision_index(self.revisions@, id, 0) {
                Some(ix) => Some(self.revisions@[ix].frontier@),
                None => None,
            },
            None => None,
        }
    }

    fn chosen_frontier(&self) -> (frontier: Option<Vec<u8>>)
        ensures
            match frontier {
                Some(frontier) => self.selected_frontier() == Some(frontier@),
                None => self.selected_frontier() is None,
            },
    {
        match self.selected {
            Some(id) => match self.find(id) {
                Some(ix) => Some(copied(&self.revisions[ix].frontier)),
                None => None,
            },
            None => None,
        }
    }

    /// Selects a moment, which checks it out after the debounce. Selecting
    /// the selected one again does nothing.
    pub fn select(&mut self, revision_id: u128) -> (checkout: Option<u64>)
        ensures
            if old(self).selected == Some(revision_id) {
                checkout is None && *final(self) == *old(self)
            } else {
                &&& checkout == Some(old(self).checkout_generation.wrapping_add(1))
                &&& *final(self) == (HistoryTakeover {
                    selected: Some(revision_id),
                    renaming: None,
                    loading_preview: true,
                    checkout_generation: old(self).checkout_generation.wrapping_add(1),
                    ..*old(self)
                })
            },
    {
        let same = match self.selected {
            Some(id) => id == revision_id,
            None => false,
        };
        if same {
            return None;
        }
        self.selected = Some(revision_id);
        self.renaming = None;
        Some(self.schedule_checkout())
    }

    /// Numbers a checkout: only the one that was scheduled last runs.
    fn schedule_checkout(&mut self) -> (generation: u64)
        ensures
            generation == old(self).checkout_generation.wrapping_add(1),
            *final(self) == (HistoryTakeover {
                loading_preview: true,
                checkout_generation: generation,
                ..*old(self)
            }),
    {
        self.checkout_generation = self.checkout_generation.wrapping_add(1);
        self.loading_preview = true;
        self.checkout_generation
    }

    /// The frontier to check out once the debounce has passed; none where a
    /// later selection has replaced it.
    pub fn checkout_due(&self, generation: u64) -> (frontier: Option<Vec<u8>>)
        ensures
            match frontier {
                Some(frontier) => self.checkout_generation == generation
                    && self.selected_frontier() == Some(frontier@),
                None => self.checkout_generation != generation || self.selected_frontier() is None,
            },
    {
        if self.checkout_generation != generation {
            return None;
        }
        self.chosen_frontier()
    }

    /// Takes a checkout, unless a later selection has replaced it. Says
    /// whether the preview now shows the document.
    pub fn finish_checkout(
        &mut self,
        generation: u64,
        frontier: Vec<u8>,
        outcome: CheckoutOutcome,
    ) -> (shown: bool)
        ensures
            shown == (old(self).checkout_generation == generation && outcome is Document),
            if old(self).checkout_generation != generation {
                *final(self) == *old(self)
            } else {
                match outcome {
                    CheckoutOutcome::Document => *final(self) == (HistoryTakeover {
                        loading_preview: false,
                        shown_frontier: Some(frontier),
                        error: None,
                        ..*old(self)
                    }),
                    CheckoutOutcome::NoDocument => {
                        &&& reads(
                            final(self).error,
                            "The historical view returned no document"@,
                        )
                        &&& *final(self) == (HistoryTakeover {
                            loading_preview: false,
                            error: final(self).error,
                            ..*old(self)
                        })
                    },
                    CheckoutOutcome::Failed(error) => {
                        &&& reads(
                            final(self).error,
                            failure_text("Checking out that moment failed: "@, error@),
                        )
                        &&& *final(self) == (HistoryTakeover {
                            loading_preview: false,
                            error: final(self).error,
                            ..*old(self)
                        })
                    },
                }
            },
    {
        if self.checkout_generation != generation {
            return false;
        }
        self.loading_preview = false;
        match outcome {
            CheckoutOutcome::Document => {
                self.shown_frontier = Some(frontier);
                self.error = None;
                true
            },
            CheckoutOutcome::NoDocument => {
                self.error = Some(String::from_str("The historical view returned no document"));
                false
            },
            CheckoutOutcome::Failed(error) => {
                self.error =
                Some(failure("Checking out that moment failed: ", error.as_str()));
                false
            },
        }
    }

    /// The frontier to compare with now: that of the shown moment, while the
    /// diff is on.
    pub fn refresh_diff(&self) -> (frontier: Option<Vec<u8>>)
        ensures
            match frontier {
                Some(frontier) => self.diff_enabled && self.shown_frontier is Some && frontier@ == (
                self.shown_frontier->0)@,
                None => !self.diff_enabled || self.shown_frontier is None,
            },
    {
        if !self.diff_enabled {
            return None;
        }
        match &self.shown_frontier {
            Some(frontier) => Some(copied(frontier)),
            None => None,
        }
    }

    /// Takes a computed diff, unless another moment has been chosen or the
    /// diff was switched off; hands back the marks for the preview.
    pub fn finish_diff(&mut self, generation: u64, result: Result<FrontierDiff, String>) -> (marks:
        Option<Vec<DiffMark>>)
        ensures
            if old(self).checkout_generation != generation || !old(self).diff_enabled {
                marks is None && *final(self) == *old(self)
            } else {
                match result {
                    Ok(diff) => {
                        &&& marks is Some
                        &&& (marks->0)@ == diff_marks(diff.removed_since@)
                        &&& *final(self) == (HistoryTakeover { diff: Some(diff), ..*old(self) })
                    },
                    Err(error) => {
                        &&& marks is None
                        &&& reads(
                            final(self).error,
                            failure_text("Computing the diff failed: "@, error@),
                        )
                        &&& *final(self) == (HistoryTakeover {
                            error: final(self).error,
                            ..*old(self)
                        })
                    },
                }
            },
    {
        if self.checkout_generation != generation || !self.diff_enabled {
            return None;
        }
        match result {
            Ok(diff) => {
                let marks = paint_diff(&diff);
                self.diff = Some(diff);
                Some(marks)
            },
            Err(error) => {
                self.error = Some(failure("Computing the diff failed: ", error.as_str()));
                None
            },
        }
    }

    /// Switches the diff: on it is fetched for the shown moment, off its
    /// marks go.
    pub fn toggle_diff(&mut self) -> (request: DiffRequest)
        ensures
            if old(self).diff_enabled {
                request == DiffRequest::ClearMarks && *final(self) == (HistoryTakeover {
                    diff_enabled: false,
                    diff: None,
                    ..*old(self)
                })
            } else {
                &&& *final(self) == (HistoryTakeover { diff_enabled: true, ..*old(self) })
                &&& match old(self).shown_frontier {
                    Some(shown) => request matches DiffRequest::Fetch(frontier) && frontier@
                        == shown@,
                    None => request == DiffRequest::Nothing,
                }
            },
    {
        self.diff_enabled = !self.diff_enabled;
        if self.diff_enabled {
            match self.refresh_diff() {
                Some(frontier) => DiffRequest::Fetch(frontier),
                None => DiffRequest::Nothing,
            }
        } else {
            self.diff = None;
            DiffRequest::ClearMarks
        }
    }

    /// Restores the selected moment, one restore at a time: hands back the
    /// frontier to restore.
    pub fn restore_selected(&mut self) -> (frontier: Option<Vec<u8>>)
        ensures
            match frontier {
                Some(frontier) => {
                    &&& !old(self).busy
                    &&& old(self).selected_frontier() == Some(frontier@)
                    &&& *final(self) == (HistoryTakeover { busy: true, ..*old(self) })
                },
                None => (old(self).busy || old(self).selected_frontier() is None) && *final(self)
                    == *old(self),
            },
    {
        match self.chosen_frontier() {
            None => None,
            Some(frontier) => {
                if self.busy {
                    return None;
                }
                self.busy = true;
                Some(frontier)
            },
        }
    }

    /// A restore ended. One that was taken leaves history mode.
    pub fn finish_restore(&mut self, result: Result<(), String>) -> (exit: bool)
        ensures
            exit == (result is Ok),
            match result {
                Ok(_) => *final(self) == (HistoryTakeover { busy: false, ..*old(self) }),
                Err(error) => {
                    &&& reads(final(self).error, failure_text("Restore failed: "@, error@))
                    &&& *final(self) == (HistoryTakeover {
                        busy: false,
                        error: final(self).error,
                        ..*old(self)
                    })
                },
            },
    {
        self.busy = false;
        match result {
            Ok(_) => true,
            Err(error) => {
                self.error = Some(failure("Restore failed: ", error.as_str()));
                false
            },
        }
    }

    /// The moment to open as a document of its own, with the panel it is of.
    pub fn fork_selected(&self) -> (fork: Option<(PanelId, u128)>)
        ensures
            fork == (match self.selected {
                Some(id) => Some((self.panel_id, id)),
                None => None,
            }),
    {
        match self.selected {
            Some(id) => Some((self.panel_id, id)),
            None => None,
        }
    }

    /// Starts naming a moment, with its present title.
    pub fn begin_rename(&mut self, revision_id: u128) -> (title: Option<String>)
        ensures
            *final(self) == (HistoryTakeover { renaming: Some(revision_id), ..*old(self) }),
            match (title, revision_index(old(self).revisions@, revision_id, 0)) {
                (Some(title), Some(ix)) => title@ == old(self).revisions@[ix].title@,
                (None, None) => true,
                _ => false,
            },
    {
        self.renaming = Some(revision_id);
        match self.find(revision_id) {
            Some(ix) => Some(self.revisions[ix].title.clone()),
            None => None,
        }
    }

    /// Names the moment: nothing where none is being named or the name is
    /// empty.
    pub fn commit_rename(&mut self, input: &str) -> (rename: Option<(u128, String)>)
        ensures
            match rename {
                Some((id, title)) => {
                    &&& old(self).renaming == Some(id)
                    &&& trimmed(input@).len() > 0
                    &&& title@ == trimmed(input@)
                    &&& *final(self) == (HistoryTakeover { renaming: None, ..*old(self) })
                },
                None => (old(self).renaming is None || trimmed(input@).len() == 0) && *final(self)
                    == *old(self),
            },
    {
        match self.renaming {
            None => None,
            Some(id) => {
                let title = trim(input);
                if title.as_str().is_empty() {
                    return None;
                }
                self.renaming = None;
                Some((id, title))
            },
        }
    }

    /// A naming ended; the records reload either way.
    pub fn finish_rename(&mut self, result: Result<(), String>)
        ensures
            match result {
                Ok(_) => *final(self) == *old(self),
                Err(error) => {
                    &&& reads(
                        final(self).error,
                        failure_text("Naming that moment failed: "@, error@),
                    )
                    &&& *final(self) == (HistoryTakeover {
                        error: final(self).error,
                        ..*old(self)
                    })
                },
            },
    {
        if let Err(error) = result {
            self.error = Some(failure("Naming that moment failed: ", error.as_str()));
        }
    }

    /// Opens the field for a checkpoint's name.
    pub fn begin_pin(&mut self)
        ensures
            *final(self) == (HistoryTakeover { pinning: true, ..*old(self) }),
    {
        self.pinning = true;
    }

    /// Pins the present under a name: nothing for an empty one.
    pub fn commit_pin(&mut self, input: &str) -> (title: Option<String>)
        ensures
            match title {
                Some(title) => {
                    &&& trimmed(input@).len() > 0
                    &&& title@ == trimmed(input@)
                    &&& *final(self) == (HistoryTakeover { pinning: false, ..*old(self) })
                },
                None => trimmed(input@).len() == 0 && *final(self) == *old(self),
            },
    {
        let title = trim(input);
        if title.as_str().is_empty() {
            return None;
        }
        self.pinning = false;
        Some(title)
    }

    /// A pin ended: a taken one is selected; the records reload either way.
    pub fn finish_pin(&mut self, result: Result<u128, String>)
        ensures
            match result {
                Ok(id) => *final(self) == (HistoryTakeover { selected: Some(id), ..*old(self) }),
                Err(error) => {
                    &&& reads(final(self).error, failure_text("Checkpoint failed: "@, error@))
                    &&& *final(self) == (HistoryTakeover {
                        error: final(self).error,
                        ..*old(self)
                    })
                },
            },
    {
        match result {
            Ok(id) => self.selected = Some(id),
            Err(error) => self.error = Some(failure("Checkpoint failed: ", error.as_str())),
        }
    }

    /// Collapses a group, or opens it again.
    pub fn toggle_group(&mut self, group: usize)
        ensures
            final(self).collapsed_groups@ == (if old(self).collapsed_groups@.contains(group) {
                old(self).collapsed_groups@.remove(group)
            } else {
                old(self).collapsed_groups@.insert(group)
            }),
            *final(self) == (HistoryTakeover {
                collapsed_groups: final(self).collapsed_groups,
                ..*old(self)
            }),
    {
        broadcast use vstd::std_specs::hash::group_hash_axioms;

        if !self.collapsed_groups.remove(&group) {
            self.collapsed_groups.insert(group);
        }
        assert(old(self).collapsed_groups@.remove(group).insert(group)
            =~= old(self).collapsed_groups@.insert(group));
    }

    /// Escape leaves history mode.
    pub fn on_key_down(&self, key: &str) -> (exits: bool)
        ensures
            exits == (key@ == "escape"@),
    {
        same_text(key, "escape")
    }
}

/// Copies bytes.
pub(crate) fn copied(bytes: &Vec<u8>) -> (copy: Vec<u8>)
    ensures
        copy@ == bytes@,
{
    let mut copy: Vec<u8> = Vec::new();
    let mut next: usize = 0;
    while next < bytes.len()
        invariant
            next <= bytes@.len(),
            copy@ == bytes@.take(next as int),
        decreases bytes@.len() - next,
    {
        copy.push(bytes[next]);
        next = next + 1;
        assert(copy@ =~= bytes@.take(next as int));
    }
    assert(bytes@.take(next as int) =~= bytes@);
    copy
}

/// The colours of the theme that a moment is drawn in.
#[derive(Clone, Copy, Debug, PartialEq, Eq, Structural)]
pub enum TickColor {
    Warning,
    Link,
    Muted,
    Danger,
}

/// A moment's tick on the tape.
#[derive(Debug)]
pub struct TickView {
    pub revision_id: u128,
    pub height: u16,
    pub width: u16,
    pub color: TickColor,
    pub faded: bool,
}

/// A group of the ledger.
#[derive(Debug)]
pub struct GroupView {
    pub group: usize,
    pub collapsed: bool,
    /// The newest record, whose day heads the group.
    pub newest: usize,
    pub count: usize,
    /// Records to show, newest first.
    pub rows: Vec<usize>,
}

/// A record's row in the ledger, without its time.
#[derive(Debug)]
pub struct LedgerRowView {
    pub color: TickColor,
    pub bold: bool,
    pub title: String,
    pub author: Option<String>,
    pub selected: bool,
    pub renaming: bool,
    pub offers_rename: bool,
}

/// What history mode shows.
#[derive(Debug)]
pub struct HistoryView {
    pub error: Option<String>,
    /// Newest group first.
    pub groups: Vec<GroupView>,
    pub ticks: Vec<TickView>,
    pub empty: bool,
    pub restore_disabled: bool,
    pub fork_disabled: bool,
    pub pin_disabled: bool,
    pub pinning: bool,
    /// The record in the caption of the preview.
    pub captioned: Option<usize>,
    /// Who removed what, and how much changed: while the diff shows.
    pub legend: Option<(Vec<(Option<u128>, String)>, String)>,
}

/// A kind's colour.
pub open spec fn kind_tint(kind: RevisionKind) -> TickColor {
    match kind {
        RevisionKind::Named => TickColor::Warning,
        RevisionKind::Session => TickColor::Link,
        RevisionKind::Auto => TickColor::Muted,
    }
}

/// A kind's colour.
pub fn kind_color(kind: RevisionKind) -> (color: TickColor)
    ensures
        color == kind_tint(kind),
{
    match kind {
        RevisionKind::Named => TickColor::Warning,
        RevisionKind::Session => TickColor::Link,
        RevisionKind::Auto => TickColor::Muted,
    }
}

/// A tick's height and width.
pub open spec fn tick_size(kind: RevisionKind) -> (u16, u16) {
    match kind {
        RevisionKind::Named => (26, 5),
        RevisionKind::Session => (18, 3),
        RevisionKind::Auto => (10, 3),
    }
}

/// A moment's tick.
pub open spec fn tick_of(revision: RevisionInfo, selected: Option<u128>) -> TickView {
    let chosen = selected == Some(revision.revision_id);
    TickView {
        revision_id: revision.revision_id,
        height: tick_size(revision.kind).0,
        width: tick_size(revision.kind).1,
        color: if chosen {
            TickColor::Danger
        } else {
            kind_tint(revision.kind)
        },
        faded: revision.kind == RevisionKind::Auto && !chosen,
    }
}

/// A group is drawn as it stands.
pub open spec fn group_shown(view: GroupView, takeover: HistoryTakeover, g: int) -> bool {
    let span = groups_of(takeover.revisions@, takeover.revisions@.len() as int)[g];
    let collapsed = takeover.collapsed_groups@.contains(g as usize);
    &&& view.group == g
    &&& view.collapsed == collapsed
    &&& view.newest == span.1 - 1
    &&& view.count == span.1 - span.0
    &&& view.rows@.map_values(|ix: usize| ix as int) == ledger_rows(
        takeover.revisions@,
        span.0,
        span.1,
        collapsed,
    )
}

/// The change counts.
pub open spec fn diff_summary(diff: FrontierDiff) -> Seq<char> {
    "−"@ + decimal(diff.removed_chars as nat) + " · +"@ + decimal(diff.inserted_chars as nat)
        + " since"@
}

impl HistoryTakeover {
    fn rows_of(&self, start: usize, end: usize, collapsed: bool) -> (rows: Vec<usize>)
        requires
            start <= end <= self.revisions@.len(),
        ensures
            rows@.map_values(|ix: usize| ix as int) == ledger_rows(
                self.revisions@,
                start as int,
                end as int,
                collapsed,
            ),
    {
        let mut rows: Vec<usize> = Vec::new();
        let mut left: usize = end;
        let ghost whole = ledger_rows(self.revisions@, start as int, end as int, collapsed);
        assert(rows@.map_values(|ix: usize| ix as int) =~= Seq::<int>::empty());
        assert(rows@.map_values(|ix: usize| ix as int) + whole =~= whole);
        while left > start
            invariant
                start <= left <= end <= self.revisions@.len(),
                rows@.map_values(|ix: usize| ix as int) + ledger_rows(
                    self.revisions@,
                    start as int,
                    left as int,
                    collapsed,
                ) == whole,
            decreases left - start,
        {
            let ghost shown = rows@.map_values(|ix: usize| ix as int);
            let ghost rest = ledger_rows(self.revisions@, start as int, left - 1, collapsed);
            left = left - 1;
            if !collapsed || self.revisions[left].kind == RevisionKind::Named {
                rows.push(left);
                assert(rows@.map_values(|ix: usize| ix as int) =~= shown.push(left as int));
                assert(shown.push(left as int) + rest =~= shown + (seq![left as int] + rest));
            }
        }
        assert(rows@.map_values(|ix: usize| ix as int) + Seq::<int>::empty()
            =~= rows@.map_values(|ix: usize| ix as int));
        rows
    }

    fn tick(&self, revision: &RevisionInfo) -> (view: TickView)
        ensures
            view == tick_of(*revision, self.selected),
    {
        let chosen = match self.selected {
            Some(id) => id == revision.revision_id,
            None => false,
        };
        let (height, width): (u16, u16) = match revision.kind {
            RevisionKind::Named => (26, 5),
            RevisionKind::Session => (18, 3),
            RevisionKind::Auto => (10, 3),
        };
        TickView {
            revision_id: revision.revision_id,
            height,
            width,
            color: if chosen {
                TickColor::Danger
            } else {
                kind_color(revision.kind)
            },
            faded: revision.kind == RevisionKind::Auto && !chosen,
        }
    }

    /// A record's row in the ledger: the selected one offers to be named,
    /// unless it is being named.
    pub fn render_ledger_row(&self, revision: &RevisionInfo) -> (view: LedgerRowView)
        ensures
            view.color == kind_tint(revision.kind),
            view.bold == (revision.kind == RevisionKind::Named),
            view.title@ == revision.title@,
            match view.author {
                Some(name) => revision.author_display_name is Some && name@
                    == (revision.author_display_name->0)@,
                None => revision.author_display_name is None,
            },
            view.selected == (self.selected == Some(revision.revision_id)),
            view.renaming == (self.renaming == Some(revision.revision_id)),
            view.offers_rename == (view.selected && !view.renaming),
    {
        let selected = match self.selected {
            Some(id) => id == revision.revision_id,
            None => false,
        };
        let renaming = match self.renaming {
            Some(id) => id == revision.revision_id,
            None => false,
        };
        LedgerRowView {
            color: kind_color(revision.kind),
            bold: match revision.kind {
                RevisionKind::Named => true,
                _ => false,
            },
            title: revision.title.clone(),
            author: match &revision.author_display_name {
                Some(name) => Some(name.clone()),
                None => None,
            },
            selected,
            renaming,
            offers_rename: selected && !renaming,
        }
    }

    /// History mode as it stands.
    pub fn render(&self) -> (view: HistoryView)
        ensures
            ({
                let groups = groups_of(self.revisions@, self.revisions@.len() as int);
                &&& match (self.error, view.error) {
                    (Some(error), Some(shown)) => shown@ == error@,
                    (None, None) => true,
                    _ => false,
                }
                &&& view.groups@.len() == groups.len()
                &&& forall|i: int|
                    0 <= i < groups.len() ==> group_shown(
                        #[trigger] view.groups@[i],
                        *self,
                        groups.len() - 1 - i,
                    )
                &&& view.ticks@ == self.revisions@.map_values(
                    |revision: RevisionInfo| tick_of(revision, self.selected),
                )
                &&& view.empty == (self.revisions@.len() == 0)
                &&& view.restore_disabled == (self.busy || self.selected is None)
                &&& view.fork_disabled == (self.busy || self.selected is None)
                &&& view.pin_disabled == self.busy
                &&& view.pinning == self.pinning
                &&& match view.captioned {
                    Some(ix) => !self.loading_preview && self.selected is Some && revision_index(
                        self.revisions@,
                        self.selected->0,
                        0,
                    ) == Some(ix as int),
                    None => self.loading_preview || self.selected_frontier() is None,
                }
                &&& match view.legend {
                    Some((legend, summary)) => {
                        &&& self.diff_enabled
                        &&& self.diff is Some
                        &&& entry_texts(legend@) == legend_of(
                            self.diff->0.removed_since@,
                            self.diff->0.removed_since@.len() as int,
                        )
                        &&& summary@ == diff_summary(self.diff->0)
                    },
                    None => !self.diff_enabled || self.diff is None,
                }
            }),
    {
        broadcast use vstd::std_specs::hash::group_hash_axioms;

        let spans_here = self.session_groups();
        let ghost all = groups_of(self.revisions@, self.revisions@.len() as int);
        proof {
            groups_cut_the_ledger_at_its_gaps(self.revisions@, self.revisions@.len() as int);
            lemma_groups_within(self.revisions@, self.revisions@.len() as int);
        }
        let mut groups: Vec<GroupView> = Vec::new();
        let mut left: usize = spans_here.len();
        while left > 0
            invariant
                left <= spans_here@.len(),
                spans(spans_here@) == all,
                all == groups_of(self.revisions@, self.revisions@.len() as int),
                forall|g: int|
                    0 <= g < all.len() ==> 0 <= (#[trigger] all[g]).0 < all[g].1
                        <= self.revisions@.len(),
                groups@.len() == spans_here@.len() - left,
                forall|i: int|
                    0 <= i < groups@.len() ==> group_shown(
                        #[trigger] groups@[i],
                        *self,
                        all.len() - 1 - i,
                    ),
            decreases left,
        {
            left = left - 1;
            let (start, end): (usize, usize) = spans_here[left];
            assert(spans(spans_here@)[left as int] == (start as int, end as int));
            let collapsed = self.collapsed_groups.contains(&left);
            let rows = self.rows_of(start, end, collapsed);
            groups.push(
                GroupView { group: left, collapsed, newest: end - 1, count: end - start, rows },
            );
        }
        let mut ticks: Vec<TickView> = Vec::new();
        let mut next: usize = 0;
        while next < self.revisions.len()
            invariant
                next <= self.revisions@.len(),
                ticks@ == self.revisions@.take(next as int).map_values(
                    |revision: RevisionInfo| tick_of(revision, self.selected),
                ),
            decreases self.revisions@.len() - next,
        {
            ticks.push(self.tick(&self.revisions[next]));
            next = next + 1;
            assert(ticks@ =~= self.revisions@.take(next as int).map_values(
                |revision: RevisionInfo| tick_of(revision, self.selected),
            ));
        }
        assert(self.revisions@.take(next as int) =~= self.revisions@);
        let captioned = if self.loading_preview {
            None
        } else {
            match self.selected {
                Some(id) => self.find(id),
                None => None,
            }
        };
        let legend = match &self.diff {
            Some(diff) if self.diff_enabled => {
                let mut summary = String::from_str("−");
                push_decimal(&mut summary, diff.removed_chars as u128);
                summary.append(" · +");
                push_decimal(&mut summary, diff.inserted_chars as u128);
                summary.append(" since");
                Some((author_legend(diff), summary))
            },
            _ => None,
        };
        HistoryView {
            error: match &self.error {
                Some(error) => Some(error.clone()),
                None => None,
            },
            groups,
            ticks,
            empty: self.revisions.len() == 0,
            restore_disabled: self.busy || self.selected.is_none(),
            fork_disabled: self.busy || self.selected.is_none(),
            pin_disabled: self.busy,
            pinning: self.pinning,
            captioned,
            legend,
        }
    }
}

proof fn lemma_groups_within(revisions: Seq<RevisionInfo>, k: int)
    requires
        0 <= k <= revisions.len(),
    ensures
        forall|g: int|
            0 <= g < groups_of(revisions, k).len() ==> 0 <= (#[trigger] groups_of(
                revisions,
                k,
            )[g]).0 < groups_of(revisions, k)[g].1 <= k,
    decreases k,
{
    if k > 0 {
        lemma_groups_within(revisions, k - 1);
        let before = groups_of(revisions, k - 1);
        let all = groups_of(revisions, k);
        assert forall|g: int| 0 <= g < all.len() implies 0 <= (#[trigger] all[g]).0 < all[g].1
            <= k by {
            if g < before.len() {
                assert(0 <= before[g].0 < before[g].1 <= k - 1);
            }
        }
    }
}

/// A group's heading: its day and how many moments it holds.
pub open spec fn group_heading(collapsed: bool, day: Seq<char>, count: int) -> Seq<char> {
    (if collapsed {
        "▸"@
    } else {
        "▾"@
    }) + " "@ + day + " · "@ + decimal(count as nat) + " "@ + (if count == 1 {
        "checkpoint"@
    } else {
        "checkpoints"@
    })
}

/// A group's heading for a day that is written out.
pub fn group_header(collapsed: bool, day: &str, count: usize) -> (text: String)
    ensures
        text@ == group_heading(collapsed, day@, count as int),
{
    let mut text = String::from_str(if collapsed { "▸" } else { "▾" });
    text.append(" ");
    text.append(day);
    text.append(" · ");
    push_decimal(&mut text, count as u128);
    text.append(" ");
    text.append(if count == 1 { "checkpoint" } else { "checkpoints" });
    text
}

/// A moment by its title and its time.
pub open spec fn moment_text(title: Seq<char>, time: Seq<char>) -> Seq<char> {
    title + " · "@ + time
}

/// What a tick says when it is pointed at.
pub fn tick_tooltip(title: &str, time: &str) -> (text: String)
    ensures
        text@ == moment_text(title@, time@),
{
    let mut text = String::from_str(title);
    text.append(" · ");
    text.append(time);
    text
}

/// The caption over the preview.
pub fn preview_caption(loading: bool, moment: Option<(&str, &str)>) -> (text: String)
    ensures
        text@ == (if loading {
            "Checking out…"@
        } else {
            match moment {
                Some((title, time)) => "Read-only view · "@ + moment_text(title@, time@),
                None => "Read-only view · now"@,
            }
        }),
{
    if loading {
        return String::from_str("Checking out…");
    }
    match moment {
        Some((title, time)) => {
            let mut text = String::from_str("Read-only view · ");
            let named = tick_tooltip(title, time);
            text.append(named.as_str());
            text
        },
        None => String::from_str("Read-only view · now"),
    }
}

} // verus!
