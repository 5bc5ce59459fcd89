//! What history mode promises: the moment that is chosen is the one that is
//! shown, restored and named, and the ledger hides nothing that is named.

use crate::history::{
    author_legend, entry_texts, groups_cut_the_ledger_at_its_gaps, groups_of, ledger_rows,
    legend_has, legend_of, paint_diff, revision_index, spans, AuthorColor, CheckoutOutcome,
    DiffMark, DiffRequest, FrontierDiff, HistoryTakeover, HistoryView, RemovedSpan, RevisionInfo,
    RevisionKind,
};
use crate::text::trimmed;
use vstd::prelude::*;

verus! {

/// The first record of an id has these bytes.
pub open spec fn recorded_as(revisions: Seq<RevisionInfo>, id: u128, frontier: Seq<u8>) -> bool {
    exists|ix: int|
        0 <= ix < revisions.len() && (#[trigger] revisions[ix]).revision_id == id
            && revisions[ix].frontier@ == frontier && forall|j: int|
            0 <= j < ix ==> (#[trigger] revisions[j]).revision_id != id
}

/// No record has an id.
pub open spec fn unrecorded(revisions: Seq<RevisionInfo>, id: u128) -> bool {
    forall|ix: int| 0 <= ix < revisions.len() ==> (#[trigger] revisions[ix]).revision_id != id
}

proof fn lemma_revision_index(revisions: Seq<RevisionInfo>, id: u128, from: int)
    requires
        0 <= from <= revisions.len(),
    ensures
        match revision_index(revisions, id, from) {
            Some(ix) => from <= ix < revisions.len() && revisions[ix].revision_id == id && forall|
                j: int,
            |
                from <= j < ix ==> (#[trigger] revisions[j]).revision_id != id,
            None => forall|j: int|
                from <= j < revisions.len() ==> (#[trigger] revisions[j]).revision_id != id,
        },
    decreases revisions.len() - from,
{
    if from < revisions.len() && revisions[from].revision_id != id {
        lemma_revision_index(revisions, id, from + 1);
    }
}

/// The moment that is checked out is the one that was selected last: its own
/// record's bytes come back for its number, and nothing for the number of an
/// earlier selection.
pub proof fn the_selected_moment_is_checked_out(
    takeover: &mut HistoryTakeover,
    id: u128,
    checkout: Option<u64>,
    generation: u64,
    frontier: Option<Vec<u8>>,
)
    requires
        call_ensures(HistoryTakeover::select, (takeover, id), checkout),
        call_ensures(HistoryTakeover::checkout_due, (&*final(takeover), generation), frontier),
    ensures
        final(takeover).selected == Some(id),
        final(takeover).revisions == old(takeover).revisions,
        checkout is Some <==> old(takeover).selected != Some(id),
        checkout matches Some(number) ==> {
            &&& number != old(takeover).checkout_generation
            &&& final(takeover).checkout_generation == number
            &&& final(takeover).loading_preview
            &&& generation != number ==> frontier is None
            &&& generation == number ==> (match frontier {
                Some(frontier) => recorded_as(final(takeover).revisions@, id, frontier@),
                None => unrecorded(final(takeover).revisions@, id),
            })
        },
{
    lemma_revision_index(final(takeover).revisions@, id, 0);
    let g = old(takeover).checkout_generation;
    assert(g.wrapping_add(1) != g);
}

/// What a checkout brought is shown only while its selection is the last; then
/// the preview shows its bytes, or says what went wrong.
pub proof fn only_the_last_checkout_is_shown(
    takeover: &mut HistoryTakeover,
    generation: u64,
    frontier: Vec<u8>,
    outcome: CheckoutOutcome,
    shown: bool,
)
    requires
        call_ensures(
            HistoryTakeover::finish_checkout,
            (takeover, generation, frontier, outcome),
            shown,
        ),
    ensures
        generation != old(takeover).checkout_generation ==> !shown && *final(takeover) == *old(takeover),
        generation == old(takeover).checkout_generation ==> {
            &&& !final(takeover).loading_preview
            &&& shown <==> outcome is Document
            &&& shown ==> final(takeover).shown_frontier == Some(frontier)
                && final(takeover).error is None
            &&& !shown ==> final(takeover).shown_frontier == old(takeover).shown_frontier
                && final(takeover).error is Some
        },
        final(takeover).selected == old(takeover).selected,
{
}

/// Restoring restores the selected moment, once at a time: its own record's
/// bytes, and nothing where none is selected or a restore is under way.
pub proof fn the_selected_moment_is_restored(
    takeover: &mut HistoryTakeover,
    frontier: Option<Vec<u8>>,
)
    requires
        call_ensures(HistoryTakeover::restore_selected, (takeover,), frontier),
    ensures
        match old(takeover).selected {
            None => frontier is None,
            Some(id) => if old(takeover).busy {
                frontier is None
            } else {
                match frontier {
                    Some(frontier) => recorded_as(old(takeover).revisions@, id, frontier@)
                        && final(takeover).busy,
                    None => unrecorded(old(takeover).revisions@, id),
                }
            },
        },
        frontier is None ==> *final(takeover) == *old(takeover),
        final(takeover).revisions == old(takeover).revisions,
        final(takeover).selected == old(takeover).selected,
{
    if let Some(id) = old(takeover).selected {
        lemma_revision_index(old(takeover).revisions@, id, 0);
    }
}

/// A restore that was taken leaves history mode; one that failed stays in it
/// and says so. Either way another may begin.
pub proof fn a_failed_restore_stays_in_history(
    takeover: &mut HistoryTakeover,
    result: Result<(), String>,
    exit: bool,
)
    requires
        call_ensures(HistoryTakeover::finish_restore, (takeover, result), exit),
    ensures
        exit <==> result is Ok,
        !final(takeover).busy,
        result is Err ==> final(takeover).error is Some,
        final(takeover).selected == old(takeover).selected,
{
}

/// The moment that is named is the one that was begun with, under the name
/// without the space around it; an empty name names nothing.
pub proof fn a_moment_is_named_as_typed(
    begun: &mut HistoryTakeover,
    id: u128,
    title: Option<String>,
    named: &mut HistoryTakeover,
    input: &str,
    rename: Option<(u128, String)>,
)
    requires
        call_ensures(HistoryTakeover::begin_rename, (begun, id), title),
        *old(named) == *final(begun),
        call_ensures(HistoryTakeover::commit_rename, (named, input), rename),
    ensures
        rename is Some <==> trimmed(input@).len() > 0,
        rename matches Some(rename) ==> rename.0 == id && rename.1@ == trimmed(input@)
            && final(named).renaming is None,
        rename is None ==> final(named).renaming == Some(id),
        title matches Some(title) ==> exists|ix: int|
            0 <= ix < old(begun).revisions@.len() && (#[trigger] old(begun).revisions@[ix]).revision_id == id && old(begun).revisions@[ix].title@ == title@,
        title is None ==> unrecorded(old(begun).revisions@, id),
{
    lemma_revision_index(old(begun).revisions@, id, 0);
}

/// A checkpoint that was taken is the selected moment; an empty name takes
/// none.
pub proof fn a_checkpoint_is_selected(
    typed: &mut HistoryTakeover,
    input: &str,
    title: Option<String>,
    pinned: &mut HistoryTakeover,
    result: Result<u128, String>,
)
    requires
        call_ensures(HistoryTakeover::commit_pin, (typed, input), title),
        call_ensures(HistoryTakeover::finish_pin, (pinned, result), ()),
    ensures
        title is Some <==> trimmed(input@).len() > 0,
        title matches Some(title) ==> title@ == trimmed(input@) && !final(typed).pinning,
        result matches Ok(id) ==> final(pinned).selected == Some(id),
        result is Err ==> final(pinned).selected == old(pinned).selected && final(pinned).error is Some,
{
}

/// The ledger keeps what was loaded, oldest first, and on the first load only
/// the newest group stays open.
pub proof fn a_reload_turns_the_records_round(
    takeover: &mut HistoryTakeover,
    newest_first: Vec<RevisionInfo>,
    collapse_old_groups: bool,
)
    requires
        call_ensures(
            HistoryTakeover::finish_reload,
            (takeover, Ok(newest_first), collapse_old_groups),
            (),
        ),
    ensures
        final(takeover).revisions@.len() == newest_first@.len(),
        forall|i: int|
            0 <= i < newest_first@.len() ==> #[trigger] final(takeover).revisions@[i]
                == newest_first@[newest_first@.len() - 1 - i],
        final(takeover).error is None,
        !collapse_old_groups ==> final(takeover).collapsed_groups == old(takeover).collapsed_groups,
        collapse_old_groups ==> forall|g: usize|
            #![trigger final(takeover).collapsed_groups@.contains(g)]
            final(takeover).collapsed_groups@.contains(g) <==> g + 1 < groups_of(
                final(takeover).revisions@,
                final(takeover).revisions@.len() as int,
            ).len(),
        final(takeover).selected == old(takeover).selected,
{
}

/// A group has records, and begins where the one before it ends.
pub open spec fn follows_on(groups: Seq<(usize, usize)>, g: int) -> bool {
    &&& groups[g].0 < groups[g].1
    &&& g > 0 ==> groups[g - 1].1 == groups[g].0
}

/// More than half an hour went by before a record.
pub open spec fn after_a_pause(revisions: Seq<RevisionInfo>, ix: int) -> bool {
    revisions[ix].created_at_unix_secs - revisions[ix - 1].created_at_unix_secs > 30 * 60
}

/// A record stands in a group behind its first.
pub open spec fn within(groups: Seq<(usize, usize)>, g: int, ix: int) -> bool {
    groups[g].0 < ix < groups[g].1
}

/// The ledger is cut exactly where half an hour went by without a record: the
/// groups follow on one another from the first record to the last, and a
/// record heads a group where the one before it is that long ago.
pub proof fn groups_are_sittings(takeover: HistoryTakeover, groups: Vec<(usize, usize)>)
    requires
        call_ensures(HistoryTakeover::session_groups, (&takeover,), groups),
        takeover.revisions@.len() > 0,
    ensures
        groups@.len() > 0,
        groups@[0].0 == 0,
        groups@.last().1 == takeover.revisions@.len(),
        forall|g: int| 0 <= g < groups@.len() ==> #[trigger] follows_on(groups@, g),
        forall|g: int|
            0 < g < groups@.len() ==> #[trigger] after_a_pause(
                takeover.revisions@,
                groups@[g].0 as int,
            ),
        forall|g: int, ix: int|
            0 <= g < groups@.len() && #[trigger] within(groups@, g, ix) ==> !after_a_pause(
                takeover.revisions@,
                ix,
            ),
{
    let revisions = takeover.revisions@;
    let k = revisions.len() as int;
    let all = groups_of(revisions, k);
    groups_cut_the_ledger_at_its_gaps(revisions, k);
    let cuts = spans(groups@);
    assert(cuts.len() == groups@.len());
    assert forall|g: int| 0 <= g < groups@.len() implies #[trigger] follows_on(groups@, g) by {
        assert(cuts[g] == all[g]);
        if g > 0 {
            assert(cuts[g - 1] == all[g - 1]);
        }
    }
    assert forall|g: int| 0 < g < groups@.len() implies #[trigger] after_a_pause(
        revisions,
        groups@[g].0 as int,
    ) by {
        assert(cuts[g] == all[g]);
        assert(!crate::history::continues(revisions, all[g].0));
    }
    assert forall|g: int, ix: int|
        0 <= g < groups@.len() && #[trigger] within(groups@, g, ix) implies !after_a_pause(
        revisions,
        ix,
    ) by {
        assert(cuts[g] == all[g]);
        assert(crate::history::continues(revisions, ix));
    }
    assert(cuts[0] == all[0]);
    assert(cuts[cuts.len() - 1] == all[all.len() - 1]);
}

proof fn lemma_ledger_rows(revisions: Seq<RevisionInfo>, start: int, end: int, collapsed: bool)
    requires
        start <= end,
    ensures
        ({
            let rows = ledger_rows(revisions, start, end, collapsed);
            &&& forall|i: int| 0 <= i < rows.len() ==> start <= #[trigger] rows[i] < end
            &&& forall|i: int, j: int|
                0 <= i < j < rows.len() ==> #[trigger] rows[i] > #[trigger] rows[j]
            &&& forall|ix: int|
                start <= ix < end ==> (#[trigger] rows.contains(ix) <==> !collapsed
                    || revisions[ix].kind == RevisionKind::Named)
        }),
    decreases end - start,
{
    if start < end {
        lemma_ledger_rows(revisions, start, end - 1, collapsed);
        let rest = ledger_rows(revisions, start, end - 1, collapsed);
        let rows = ledger_rows(revisions, start, end, collapsed);
        let shows = !collapsed || revisions[end - 1].kind == RevisionKind::Named;
        if shows {
            assert(rows =~= seq![end - 1] + rest);
            assert forall|i: int| 0 <= i < rows.len() implies start <= #[trigger] rows[i] < end by {
                if i > 0 {
                    assert(rows[i] == rest[i - 1]);
                }
            }
            assert forall|i: int, j: int| 0 <= i < j < rows.len() implies #[trigger] rows[i]
                > #[trigger] rows[j] by {
                assert(rows[j] == rest[j - 1]);
                if i > 0 {
                    assert(rows[i] == rest[i - 1]);
                }
            }
        }
        assert forall|ix: int| start <= ix < end implies (#[trigger] rows.contains(ix)
            <==> !collapsed || revisions[ix].kind == RevisionKind::Named) by {
            if ix == end - 1 {
                if shows {
                    assert(rows[0] == ix);
                } else if rows.contains(ix) {
                    let i = choose|i: int| 0 <= i < rows.len() && rows[i] == ix;
                    assert(rest[i] < end - 1);
                }
            } else {
                assert(rest.contains(ix) <==> !collapsed || revisions[ix].kind
                    == RevisionKind::Named);
                if shows {
                    if rest.contains(ix) {
                        let i = choose|i: int| 0 <= i < rest.len() && rest[i] == ix;
                        assert(rows[i + 1] == ix);
                    }
                    if rows.contains(ix) {
                        let i = choose|i: int| 0 <= i < rows.len() && rows[i] == ix;
                        assert(rest[i - 1] == ix);
                    }
                }
            }
        }
    }
}

/// Of a group the ledger shows every moment, newest first, and of a collapsed
/// one the named ones alone; the newest group stands first.
pub proof fn the_ledger_shows_what_is_named(takeover: HistoryTakeover, view: HistoryView, i: int)
    requires
        call_ensures(HistoryTakeover::render, (&takeover,), view),
        0 <= i < view.groups@.len(),
    ensures
        ({
            let all = groups_of(takeover.revisions@, takeover.revisions@.len() as int);
            let span = all[all.len() - 1 - i];
            let group = view.groups@[i];
            &&& group.group == all.len() - 1 - i
            &&& group.collapsed <==> takeover.collapsed_groups@.contains(group.group)
            &&& group.count == span.1 - span.0
            &&& group.newest == span.1 - 1
            &&& forall|r: int|
                0 <= r < group.rows@.len() ==> span.0 <= #[trigger] group.rows@[r] < span.1
            &&& forall|r: int, s: int|
                0 <= r < s < group.rows@.len() ==> #[trigger] group.rows@[r]
                    > #[trigger] group.rows@[s]
            &&& forall|ix: usize|
                span.0 <= ix < span.1 ==> (#[trigger] group.rows@.contains(ix)
                    <==> !group.collapsed || takeover.revisions@[ix as int].kind
                    == RevisionKind::Named)
        }),
        view.restore_disabled <==> takeover.busy || takeover.selected is None,
        view.ticks@.len() == takeover.revisions@.len(),
{
    let revisions = takeover.revisions@;
    let all = groups_of(revisions, revisions.len() as int);
    groups_cut_the_ledger_at_its_gaps(revisions, revisions.len() as int);
    let g = all.len() - 1 - i;
    let span = all[g];
    let group = view.groups@[i];
    assert(crate::history::group_shown(group, takeover, g));
    lemma_ledger_rows(revisions, span.0, span.1, group.collapsed);
    let rows = ledger_rows(revisions, span.0, span.1, group.collapsed);
    let shown = group.rows@.map_values(|ix: usize| ix as int);
    assert(shown == rows);
    assert forall|r: int| 0 <= r < group.rows@.len() implies span.0 <= #[trigger] group.rows@[r]
        < span.1 by {
        assert(shown[r] == rows[r]);
    }
    assert forall|r: int, s: int| 0 <= r < s < group.rows@.len() implies #[trigger] group.rows@[r]
        > #[trigger] group.rows@[s] by {
        assert(shown[r] > shown[s]);
    }
    assert forall|ix: usize| span.0 <= ix < span.1 implies (#[trigger] group.rows@.contains(ix)
        <==> !group.collapsed || revisions[ix as int].kind == RevisionKind::Named) by {
        assert(rows.contains(ix as int) <==> !group.collapsed || revisions[ix as int].kind
            == RevisionKind::Named);
        if group.rows@.contains(ix) {
            let r = choose|r: int| 0 <= r < group.rows@.len() && group.rows@[r] == ix;
            assert(shown[r] == ix as int);
        }
        if rows.contains(ix as int) {
            let r = choose|r: int| 0 <= r < rows.len() && rows[r] == ix as int;
            assert(shown[r] == group.rows@[r] as int);
        }
    }
}

/// Everything that is gone since the shown moment is marked where it stood, in
/// its author's colour, or in grey where the author is not known.
pub proof fn what_is_gone_is_marked(diff: FrontierDiff, marks: Vec<DiffMark>, i: int)
    requires
        call_ensures(paint_diff, (&diff,), marks),
        0 <= i < diff.removed_since@.len(),
    ensures
        marks@.len() == diff.removed_since@.len(),
        marks@[i].range == diff.removed_since@[i].range,
        match diff.removed_since@[i].author_user_id {
            Some(user) => marks@[i].color == AuthorColor::User(user),
            None => marks@[i].color == AuthorColor::Rgb(0x8a8a8a),
        },
{
}

/// A legend names an author.
pub open spec fn names(legend: Seq<(Option<u128>, Seq<char>)>, author: Option<u128>) -> bool {
    exists|i: int| 0 <= i < legend.len() && (#[trigger] legend[i]).0 == author
}

/// One of the first `k` spans is an author's, under a name where it has one.
pub open spec fn wrote_of(
    removed: Seq<RemovedSpan>,
    k: int,
    author: Option<u128>,
    name: Seq<char>,
) -> bool {
    exists|s: int|
        0 <= s < k && (#[trigger] removed[s]).author_user_id == author && (
        removed[s].author_display_name matches Some(own) ==> own@ == name)
}

proof fn lemma_legend(removed: Seq<RemovedSpan>, k: int)
    requires
        0 <= k <= removed.len(),
    ensures
        ({
            let legend = legend_of(removed, k);
            &&& forall|i: int, j: int|
                0 <= i < j < legend.len() ==> (#[trigger] legend[i]).0 != (#[trigger] legend[j]).0
            &&& forall|s: int|
                0 <= s < k ==> names(legend, (#[trigger] removed[s]).author_user_id)
            &&& forall|i: int|
                0 <= i < legend.len() ==> wrote_of(
                    removed,
                    k,
                    (#[trigger] legend[i]).0,
                    legend[i].1,
                )
        }),
    decreases k,
{
    if k > 0 {
        lemma_legend(removed, k - 1);
        let before = legend_of(removed, k - 1);
        let legend = legend_of(removed, k);
        let author = removed[k - 1].author_user_id;
        assert(legend_has(before, author) == names(before, author));
        if !names(before, author) {
            assert(legend[before.len() as int].0 == author);
        }
        assert forall|i: int, j: int| 0 <= i < j < legend.len() implies (#[trigger] legend[i]).0
            != (#[trigger] legend[j]).0 by {
            assert(legend[i] == before[i]);
            if j < before.len() {
                assert(legend[j] == before[j]);
            }
        }
        assert forall|s: int| 0 <= s < k implies names(
            legend,
            (#[trigger] removed[s]).author_user_id,
        ) by {
            let own = removed[s].author_user_id;
            if names(before, own) {
                let i = choose|i: int| 0 <= i < before.len() && (#[trigger] before[i]).0 == own;
                assert(legend[i].0 == own);
            }
        }
        assert forall|i: int| 0 <= i < legend.len() implies wrote_of(
            removed,
            k,
            (#[trigger] legend[i]).0,
            legend[i].1,
        ) by {
            if i < before.len() {
                assert(legend[i] == before[i]);
                assert(wrote_of(removed, k - 1, before[i].0, before[i].1));
                let s = choose|s: int|
                    0 <= s < k - 1 && (#[trigger] removed[s]).author_user_id == before[i].0 && (
                    removed[s].author_display_name matches Some(own) ==> own@ == before[i].1);
                assert(removed[s].author_user_id == legend[i].0);
            } else {
                assert(removed[k - 1].author_user_id == legend[i].0);
            }
        }
    }
}

/// The legend names each author of what is gone, once, and nobody else.
pub proof fn the_legend_names_each_author_once(
    diff: FrontierDiff,
    legend: Vec<(Option<u128>, String)>,
)
    requires
        call_ensures(author_legend, (&diff,), legend),
    ensures
        ({
            let texts = entry_texts(legend@);
            let removed = diff.removed_since@;
            &&& forall|i: int, j: int|
                0 <= i < j < texts.len() ==> (#[trigger] texts[i]).0 != (#[trigger] texts[j]).0
            &&& forall|s: int|
                0 <= s < removed.len() ==> names(texts, (#[trigger] removed[s]).author_user_id)
            &&& forall|i: int|
                0 <= i < texts.len() ==> wrote_of(
                    removed,
                    removed.len() as int,
                    (#[trigger] texts[i]).0,
                    texts[i].1,
                )
        }),
{
    lemma_legend(diff.removed_since@, diff.removed_since@.len() as int);
}

/// The diff is one of the shown moment: switched on it is fetched for the
/// bytes in the preview, switched off its marks go, and one that comes for
/// another moment, or while it is off, is not taken.
pub proof fn the_diff_is_of_the_shown_moment(
    takeover: &mut HistoryTakeover,
    request: DiffRequest,
    later: &mut HistoryTakeover,
    generation: u64,
    diff: FrontierDiff,
    marks: Option<Vec<DiffMark>>,
)
    requires
        call_ensures(HistoryTakeover::toggle_diff, (takeover,), request),
        call_ensures(HistoryTakeover::finish_diff, (later, generation, Ok(diff)), marks),
    ensures
        final(takeover).diff_enabled == !old(takeover).diff_enabled,
        !final(takeover).diff_enabled ==> final(takeover).diff is None && request
            == DiffRequest::ClearMarks,
        final(takeover).diff_enabled && old(takeover).shown_frontier is Some ==> (
        request matches DiffRequest::Fetch(frontier) && frontier@ == (
        old(takeover).shown_frontier->0)@),
        generation != old(later).checkout_generation || !old(later).diff_enabled ==> marks is None
            && *final(later) == *old(later),
        generation == old(later).checkout_generation && old(later).diff_enabled ==> marks is Some
            && final(later).diff == Some(diff),
{
}

/// A group that is switched twice is as it was, and no other group changes.
pub proof fn a_group_switches_alone(takeover: &mut HistoryTakeover, group: usize, other: usize)
    requires
        call_ensures(HistoryTakeover::toggle_group, (takeover, group), ()),
    ensures
        final(takeover).collapsed_groups@.contains(group) == !old(takeover).collapsed_groups@.contains(group),
        other != group ==> final(takeover).collapsed_groups@.contains(other) == old(takeover).collapsed_groups@.contains(other),
{
}

} // verus!
