//! What is asked before something closes, and how history mode and its rows
//! read.

use crate::closing::{
    collaboration_leave_detail, collaboration_phase_blocks_close,
    collaboration_save_prompt_for_panel, confirm_leave_collaboration_on_panel, leave_prompt,
    save_answer, save_prompt_words, unsaved_message, CloseStage, Closing, CollaborationSavePrompt,
    SaveAnswer, SessionPhase,
};
use crate::history::{
    group_header, kind_color, preview_caption, tick_tooltip, HistoryTakeover, LedgerRowView,
    RevisionInfo, RevisionKind, TickColor,
};
use crate::pane::PanelId;
use vstd::prelude::*;

verus! {

/// A text stands in another at a place.
pub open spec fn holds_at(text: Seq<char>, part: Seq<char>, at: int) -> bool {
    0 <= at && at + part.len() <= text.len() && text.subrange(at, at + part.len()) == part
}

/// A panel must leave its session before it closes exactly while the session
/// lives, and is asked about leaving it exactly then.
pub proof fn a_live_session_is_left_first(
    phase: Option<SessionPhase>,
    blocks: bool,
    detail: String,
    asked: Option<String>,
)
    requires
        call_ensures(collaboration_phase_blocks_close, (phase,), blocks),
        call_ensures(collaboration_leave_detail, (phase,), detail),
        call_ensures(confirm_leave_collaboration_on_panel, (phase,), asked),
    ensures
        phase is None ==> !blocks,
        phase == Some(SessionPhase::Detached) ==> !blocks,
        phase == Some(SessionPhase::Creating) ==> blocks,
        phase == Some(SessionPhase::Joining) ==> blocks,
        phase == Some(SessionPhase::Reconnecting) ==> blocks,
        phase matches Some(SessionPhase::Attached { peers_present: _ }) ==> blocks,
        asked is Some <==> blocks,
        asked matches Some(text) ==> detail@.is_prefix_of(text@),
{
    if let Some(text) = asked {
        assert(text@.subrange(0, detail@.len() as int) =~= detail@);
        assert(detail@.is_prefix_of(text@));
    }
}

/// A shared panel is asked about unless it has a file and nothing unsaved; one
/// without a file is offered to be saved as a new one.
pub proof fn a_shared_panel_is_asked_about_what_would_be_lost(
    has_path: bool,
    dirty: bool,
    prompt: CollaborationSavePrompt,
    words: Option<(&'static str, &'static str)>,
)
    requires
        call_ensures(collaboration_save_prompt_for_panel, (has_path, dirty), prompt),
        call_ensures(save_prompt_words, (prompt,), words),
    ensures
        prompt == CollaborationSavePrompt::Clean <==> has_path && !dirty,
        prompt == CollaborationSavePrompt::Pathless <==> !has_path,
        prompt == CollaborationSavePrompt::Dirty <==> has_path && dirty,
        words is None <==> has_path && !dirty,
        words matches Some((_, label)) ==> (label@ == "Save As..."@ <==> !has_path),
        words matches Some((_, label)) ==> (label@ == "Save"@ <==> has_path),
{
    reveal_strlit("Save As...");
    reveal_strlit("Save");
    assert("Save As..."@.len() == 10);
    assert("Save"@.len() == 4);
}

/// The first button saves, the second gives the changes up, and anything else,
/// closing the question too, stays open.
pub proof fn an_answer_is_its_button(button: Option<usize>, answer: SaveAnswer)
    requires
        call_ensures(save_answer, (button,), answer),
    ensures
        answer == SaveAnswer::Save <==> button == Some(0usize),
        answer == SaveAnswer::DontSave <==> button == Some(1usize),
        answer == SaveAnswer::Cancel <==> button is None || button->0 > 1,
{
}

/// One unsaved document is spoken of as one, and more as more.
pub proof fn one_document_is_spoken_of_as_one(one: &'static str, many: &'static str, count: usize)
    requires
        count != 1,
        call_ensures(unsaved_message, (1usize,), one),
        call_ensures(unsaved_message, (count,), many),
    ensures
        one@ == "This document has unsaved changes."@,
        many@ == "One or more documents have unsaved changes."@,
{
}

/// Leaving one session is asked about with what leaving it means, and leaving
/// several with how many they are.
pub proof fn leaving_is_asked_about_once(
    count: usize,
    phase: Option<SessionPhase>,
    detail: String,
    prompt: (&'static str, String),
)
    requires
        call_ensures(collaboration_leave_detail, (phase,), detail),
        call_ensures(leave_prompt, (count, phase), prompt),
    ensures
        count == 1 ==> prompt.1@ == detail@,
        count != 1 ==> holds_at(
            prompt.1@,
            crate::text::decimal(count as nat),
            "You're in "@.len() as int,
        ),
{
    if count != 1 {
        let start = "You're in "@;
        let number = crate::text::decimal(count as nat);
        assert(prompt.1@.subrange(start.len() as int, (start.len() + number.len()) as int)
            =~= number);
    }
}

/// A close begins with its sessions where there are any, then with what is
/// unsaved, and is over at once where there is neither. Nothing is given up
/// yet.
pub proof fn a_close_begins_with_what_is_to_be_asked(
    shared: Vec<(PanelId, CollaborationSavePrompt)>,
    dirty: Vec<PanelId>,
    close: Closing,
)
    requires
        call_ensures(Closing::new, (shared, dirty), close),
    ensures
        close@.shared == shared@,
        close@.dirty == dirty@,
        close@.discards.len() == 0,
        close@.stage == CloseStage::AskLeave <==> shared@.len() > 0,
        close@.stage == CloseStage::AskDirty <==> shared@.len() == 0 && dirty@.len() > 0,
        close@.stage == CloseStage::Finished <==> shared@.len() == 0 && dirty@.len() == 0,
{
}

/// One refresh of the history is pending at a time; the next is scheduled once
/// it was due.
pub proof fn one_history_refresh_is_pending(
    first: &mut HistoryTakeover,
    second: &mut HistoryTakeover,
    due: &mut HistoryTakeover,
    third: &mut HistoryTakeover,
    scheduled: (bool, bool, bool),
)
    requires
        call_ensures(HistoryTakeover::schedule_refresh, (first,), scheduled.0),
        *old(second) == *final(first),
        call_ensures(HistoryTakeover::schedule_refresh, (second,), scheduled.1),
        *old(due) == *final(second),
        call_ensures(HistoryTakeover::refresh_due, (due,), ()),
        *old(third) == *final(due),
        call_ensures(HistoryTakeover::schedule_refresh, (third,), scheduled.2),
    ensures
        scheduled.0 <==> !old(first).refresh_pending,
        !scheduled.1,
        scheduled.2,
        final(first).revisions@ == old(first).revisions@,
        final(first).selected == old(first).selected,
        final(due).revisions@ == old(due).revisions@,
        final(due).selected == old(due).selected,
{
}

/// What is forked is the selected moment of the panel's own document, and what
/// is compared with now is the moment that shows, while the diff is on.
pub proof fn the_selected_moment_is_forked(
    takeover: HistoryTakeover,
    fork: Option<(PanelId, u128)>,
    frontier: Option<Vec<u8>>,
    count: usize,
)
    requires
        call_ensures(HistoryTakeover::fork_selected, (&takeover,), fork),
        call_ensures(HistoryTakeover::refresh_diff, (&takeover,), frontier),
        call_ensures(HistoryTakeover::revision_count, (&takeover,), count),
    ensures
        fork is Some <==> takeover.selected is Some,
        fork matches Some((panel, moment)) ==> panel == takeover.panel_id && takeover.selected
            == Some(moment),
        frontier is Some <==> takeover.diff_enabled && takeover.shown_frontier is Some,
        frontier matches Some(bytes) ==> bytes@ == (takeover.shown_frontier->0)@,
        count == takeover.revisions@.len(),
{
}

/// A naming that failed is said with its reason and renames nothing; one that
/// was taken says nothing. The field for a checkpoint opens alone.
pub proof fn a_failed_naming_says_why(
    named: &mut HistoryTakeover,
    pinned: &mut HistoryTakeover,
    result: Result<(), String>,
)
    requires
        call_ensures(HistoryTakeover::finish_rename, (named, result), ()),
        call_ensures(HistoryTakeover::begin_pin, (pinned,), ()),
    ensures
        result is Ok ==> *final(named) == *old(named),
        result matches Err(reason) ==> (final(named).error matches Some(text) && text@.len()
            >= reason@.len() && text@.subrange(
            text@.len() - reason@.len(),
            text@.len() as int,
        ) == reason@),
        final(named).revisions@ == old(named).revisions@,
        final(named).selected == old(named).selected,
        final(pinned).pinning,
        final(pinned).revisions@ == old(pinned).revisions@,
        final(pinned).selected == old(pinned).selected,
        final(pinned).renaming == old(pinned).renaming,
        final(pinned).error == old(pinned).error,
{
    if let Err(reason) = result {
        let text = final(named).error->0;
        assert(text@.subrange(text@.len() - reason@.len(), text@.len() as int) =~= reason@);
    }
}

/// Escape leaves history mode, and no other key does.
pub proof fn escape_leaves_the_history(takeover: HistoryTakeover, key: &str, exits: bool)
    requires
        call_ensures(HistoryTakeover::on_key_down, (&takeover, key), exits),
    ensures
        exits <==> key@ == "escape"@,
{
}

/// History mode begins over its panel with the present, nothing selected and
/// the diff on.
pub proof fn history_begins_with_the_present(panel: PanelId, takeover: HistoryTakeover)
    requires
        call_ensures(HistoryTakeover::new, (panel,), takeover),
    ensures
        takeover.panel_id == panel,
        takeover.revisions@.len() == 0,
        takeover.selected is None,
        takeover.shown_frontier is None,
        takeover.diff_enabled,
        takeover.diff is None,
        !takeover.busy,
        takeover.renaming is None,
        !takeover.pinning,
        forall|group: usize| !#[trigger] takeover.collapsed_groups@.contains(group),
{
}

/// A row of the ledger is its own record: its title, who made it, and whether
/// it is the selected one, which alone can be named. Each kind has a colour of
/// its own, and what was named stands out.
pub proof fn a_row_is_its_own_record(
    takeover: HistoryTakeover,
    revision: RevisionInfo,
    row: LedgerRowView,
    color: TickColor,
)
    requires
        call_ensures(HistoryTakeover::render_ledger_row, (&takeover, &revision), row),
        call_ensures(kind_color, (revision.kind,), color),
    ensures
        row.title@ == revision.title@,
        row.color == color,
        color == TickColor::Warning <==> revision.kind == RevisionKind::Named,
        color == TickColor::Link <==> revision.kind == RevisionKind::Session,
        color == TickColor::Muted <==> revision.kind == RevisionKind::Auto,
        row.bold <==> revision.kind == RevisionKind::Named,
        row.author is Some <==> revision.author_display_name is Some,
        row.author matches Some(name) ==> name@ == (revision.author_display_name->0)@,
        row.selected <==> takeover.selected == Some(revision.revision_id),
        row.renaming <==> takeover.renaming == Some(revision.revision_id),
        row.offers_rename <==> row.selected && !row.renaming,
{
}

/// A moment reads as its title and its time, under the pointer and over the
/// preview; a group reads as its day and how much it holds.
pub proof fn a_moment_reads_as_title_and_time(
    title: &str,
    time: &str,
    tooltip: String,
    caption: String,
    waiting: String,
    present: String,
    folded: bool,
    count: usize,
    header: String,
)
    requires
        call_ensures(tick_tooltip, (title, time), tooltip),
        call_ensures(preview_caption, (false, Some((title, time))), caption),
        call_ensures(preview_caption, (true, Some((title, time))), waiting),
        call_ensures(preview_caption, (false, None::<(&str, &str)>), present),
        call_ensures(group_header, (folded, title, count), header),
    ensures
        title@.is_prefix_of(tooltip@),
        time@.is_suffix_of(tooltip@),
        tooltip@.len() == title@.len() + 3 + time@.len(),
        tooltip@.is_suffix_of(caption@),
        waiting@ == "Checking out…"@,
        present@ == "Read-only view · now"@,
        holds_at(header@, title@, 2),
        folded ==> header@[0] == '▸',
        !folded ==> header@[0] == '▾',
{
    reveal_strlit(" · ");
    reveal_strlit("▸");
    reveal_strlit("▾");
    reveal_strlit(" ");
    assert(" · "@.len() == 3);
    assert("▸"@.len() == 1);
    assert("▾"@.len() == 1);
    assert(" "@.len() == 1);
    assert(tooltip@.subrange(0, title@.len() as int) =~= title@);
    assert(tooltip@.subrange(tooltip@.len() - time@.len(), tooltip@.len() as int) =~= time@);
    assert(caption@.subrange(caption@.len() - tooltip@.len(), caption@.len() as int)
        =~= tooltip@);
    assert(header@.subrange(2, (2 + title@.len()) as int) =~= title@);
}

} // verus!
