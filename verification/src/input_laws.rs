//! What a choice runs, where the keyboard goes, and which previews are loaded.

use crate::collaboration::open_collaboration_dialog_with_mode;
use crate::comment_dialog::CommentDialog;
use crate::commands::{tab_index, CommandId, DispatchContext, LeftNavMode};
use crate::equation::EquationComposer;
use crate::extension_grants::{can_cancel, can_grant, can_invoke};
use crate::extension_host::HostError;
use crate::palette::{CommandPalette, PaletteAction};
use crate::pane::PanelId;
use crate::panels::OpenPanels;
use crate::paths::has_extension;
use crate::recent::{missing_previews, RecentDocument, RecentDocuments};
use crate::text::texts;
use vstd::prelude::*;

verus! {

/// The palette runs the line that is selected, or the one that was clicked,
/// which is selected then: each line its own command, and none where there is
/// no line.
pub proof fn the_palette_runs_the_chosen_line(
    palette: CommandPalette,
    clicked: &mut CommandPalette,
    line: usize,
    ran: Option<PaletteAction>,
    ran_clicked: Option<PaletteAction>,
)
    requires
        palette.indices_valid(),
        old(clicked).indices_valid(),
        call_ensures(CommandPalette::run_selected, (&palette,), ran),
        call_ensures(CommandPalette::run_index, (clicked, line), ran_clicked),
    ensures
        ran is Some <==> palette.selected < palette.filtered@.len(),
        ran matches Some(action) ==> action
            == palette.entries@[palette.filtered@[palette.selected as int] as int].action,
        ran_clicked is Some <==> line < old(clicked).filtered@.len(),
        ran_clicked matches Some(action) ==> action
            == old(clicked).entries@[old(clicked).filtered@[line as int] as int].action,
        final(clicked).selected == line,
        final(clicked).filtered@ == old(clicked).filtered@,
        final(clicked).entries@ == old(clicked).entries@,
{
}

/// The commands for the first ten tabs count them from the first, in order.
pub proof fn numbered_commands_count_the_tabs(
    tabs: (
        Option<usize>,
        Option<usize>,
        Option<usize>,
        Option<usize>,
        Option<usize>,
        Option<usize>,
        Option<usize>,
        Option<usize>,
        Option<usize>,
        Option<usize>,
    ),
)
    requires
        call_ensures(tab_index, (&CommandId::SwitchToTab1,), tabs.0),
        call_ensures(tab_index, (&CommandId::SwitchToTab2,), tabs.1),
        call_ensures(tab_index, (&CommandId::SwitchToTab3,), tabs.2),
        call_ensures(tab_index, (&CommandId::SwitchToTab4,), tabs.3),
        call_ensures(tab_index, (&CommandId::SwitchToTab5,), tabs.4),
        call_ensures(tab_index, (&CommandId::SwitchToTab6,), tabs.5),
        call_ensures(tab_index, (&CommandId::SwitchToTab7,), tabs.6),
        call_ensures(tab_index, (&CommandId::SwitchToTab8,), tabs.7),
        call_ensures(tab_index, (&CommandId::SwitchToTab9,), tabs.8),
        call_ensures(tab_index, (&CommandId::SwitchToTab10,), tabs.9),
    ensures
        tabs.0 == Some(0usize),
        tabs.1 == Some(1usize),
        tabs.2 == Some(2usize),
        tabs.3 == Some(3usize),
        tabs.4 == Some(4usize),
        tabs.5 == Some(5usize),
        tabs.6 == Some(6usize),
        tabs.7 == Some(7usize),
        tabs.8 == Some(8usize),
        tabs.9 == Some(9usize),
{
}

/// The left panel has two sides, and swapping twice shows the same one.
pub proof fn the_left_panel_has_two_sides(
    mode: LeftNavMode,
    other: LeftNavMode,
    back: LeftNavMode,
)
    requires
        call_ensures(LeftNavMode::swapped, (mode,), other),
        call_ensures(LeftNavMode::swapped, (other,), back),
    ensures
        other != mode,
        back == mode,
{
}

/// A surface over the documents takes the keyboard while it is open, and an
/// input of the window while it has the focus; one that is closed has none.
pub proof fn the_keyboard_goes_to_what_is_open(
    context: DispatchContext,
    covered: bool,
    focused: bool,
)
    requires
        call_ensures(
            DispatchContext::non_document_keybinding_surface_is_open,
            (&context,),
            covered,
        ),
        call_ensures(
            DispatchContext::focused_workspace_input_is_focused,
            (&context,),
            focused,
        ),
    ensures
        context.settings_overlay_open ==> covered,
        context.file_search_open ==> covered,
        context.collaboration_dialog_open ==> covered,
        covered ==> context.settings_overlay_open || context.file_search_open
            || context.collaboration_dialog_open,
        context.toolkit_search_focused ==> focused,
        context.tub_file_search_focused ==> focused,
        context.search_bar_focused ==> focused,
        context.file_search_open && context.file_search_focused ==> focused,
        context.collaboration_dialog_open && context.collaboration_dialog_focused ==> focused,
        !context.toolkit_search_focused && !context.tub_file_search_focused
            && !context.search_bar_focused && !context.file_search_open
            && !context.collaboration_dialog_open ==> !focused,
{
}

/// The sharing dialog is about the panel on top.
pub proof fn sharing_is_about_the_panel_on_top(panels: OpenPanels, panel: Option<PanelId>)
    requires
        call_ensures(open_collaboration_dialog_with_mode, (&panels,), panel),
    ensures
        panel is Some <==> panels@.active is Some,
        panel matches Some(id) ==> id == (panels@.active->0).0,
{
}

/// One change of the comments is under way at a time; a reply and an edit each
/// begin alone, and an edit that is given up leaves the rest.
pub proof fn one_change_of_comments_runs(
    first: &mut CommentDialog,
    second: &mut CommentDialog,
    reply: &mut CommentDialog,
    edit: &mut CommentDialog,
    cancel: &mut CommentDialog,
    comment: u128,
    message: u128,
    started: (bool, bool),
)
    requires
        call_ensures(CommentDialog::begin_change, (first,), started.0),
        *old(second) == *final(first),
        call_ensures(CommentDialog::begin_change, (second,), started.1),
        call_ensures(CommentDialog::begin_reply, (reply, comment), ()),
        call_ensures(CommentDialog::begin_edit, (edit, comment, message), ()),
        *old(cancel) == *final(edit),
        call_ensures(CommentDialog::cancel_edit, (cancel,), ()),
    ensures
        started.0 <==> !old(first).busy,
        !started.1,
        final(reply).replying_to == Some(comment),
        final(reply).editing_message == old(reply).editing_message,
        final(reply).comments@ == old(reply).comments@,
        final(edit).editing_message == Some((comment, message)),
        final(edit).replying_to == old(edit).replying_to,
        final(edit).comments@ == old(edit).comments@,
        final(cancel).editing_message is None,
        final(cancel).replying_to == old(edit).replying_to,
        final(cancel).comments@ == old(edit).comments@,
{
}

/// An equation is composed from its own source for its own place, and escape
/// leaves it.
pub proof fn an_equation_is_composed_from_its_source(
    equation: Option<u128>,
    source: &str,
    composer: EquationComposer,
    target: Option<u128>,
    key: &str,
    dismisses: bool,
)
    requires
        call_ensures(EquationComposer::new, (equation, source), composer),
        call_ensures(EquationComposer::target_equation, (&composer,), target),
        call_ensures(EquationComposer::on_key_down, (&composer, key), dismisses),
    ensures
        composer.source@ == source@,
        target == equation,
        dismisses <==> key@ == "escape"@,
{
}

/// Only an extension that is installed starts, only one that runs is stopped,
/// and a directory is granted to an installed one under its own digest.
pub proof fn only_what_is_there_is_run(
    flag: bool,
    results: (Result<(), String>, Result<(), String>),
    digest: Result<String, String>,
    hash: Result<String, HostError>,
)
    requires
        call_ensures(can_invoke, (flag,), results.0),
        call_ensures(can_cancel, (flag,), results.1),
        call_ensures(can_grant, (flag, digest), hash),
    ensures
        results.0 is Ok <==> flag,
        results.1 is Ok <==> flag,
        hash is Ok <==> flag && digest is Ok,
        hash matches Ok(given) ==> given@ == (digest->Ok_0)@,
        flag && digest is Err ==> (hash->Err_0).message@ == (digest->Err_0)@,
        hash matches Err(error) ==> error.code@ == "directory-grant"@,
{
}

proof fn lemma_missing(list: Seq<RecentDocument>, previewed: Set<Seq<char>>, k: int, path: Seq<char>)
    requires
        0 <= k <= list.len(),
    ensures
        missing_previews(list, previewed, k).contains(path) <==> exists|i: int|
            0 <= i < k && (#[trigger] list[i]).path@ == path && !previewed.contains(path)
                && !has_extension(list[i].file_name@, "fl0"@),
    decreases k,
{
    if k > 0 {
        lemma_missing(list, previewed, k - 1, path);
        let front = missing_previews(list, previewed, k - 1);
        let all = missing_previews(list, previewed, k);
        if front.contains(path) {
            let i = choose|i: int| 0 <= i < front.len() && front[i] == path;
            assert(all[i] == path);
        }
        if all.contains(path) && !front.contains(path) {
            let i = choose|i: int| 0 <= i < all.len() && all[i] == path;
            if i < front.len() {
                assert(front[i] == path);
            }
            assert(list[k - 1].path@ == path);
        }
        if exists|i: int|
            0 <= i < k && (#[trigger] list[i]).path@ == path && !previewed.contains(path)
                && !has_extension(list[i].file_name@, "fl0"@) {
            let i = choose|i: int|
                0 <= i < k && (#[trigger] list[i]).path@ == path && !previewed.contains(path)
                    && !has_extension(list[i].file_name@, "fl0"@);
            if i == k - 1 {
                assert(all[front.len() as int] == path);
            }
        }
    }
}

/// The previews that are loaded are those of remembered documents that have
/// none yet and are no flows; a look that finds none missing outdates nothing,
/// and a later look outdates what an earlier one brings.
pub proof fn missing_previews_are_loaded(
    recents: &mut RecentDocuments,
    missing: Vec<String>,
    path: Seq<char>,
)
    requires
        call_ensures(RecentDocuments::refresh_recent_document_previews, (recents,), missing),
    ensures
        texts(missing@).contains(path) <==> exists|i: int|
            0 <= i < old(recents).list@.len() && (#[trigger] old(recents).list@[i]).path@ == path
                && !final(recents).previewed@.contains(path) && !has_extension(
                old(recents).list@[i].file_name@,
                "fl0"@,
            ),
        final(recents).list@ == old(recents).list@,
        missing@.len() == 0 <==> final(recents).generation == old(recents).generation,
{
    lemma_missing(
        old(recents).list@,
        final(recents).previewed@,
        old(recents).list@.len() as int,
        path,
    );
    assert(old(recents).generation.wrapping_add(1) != old(recents).generation);
}

/// A preview that was loaded is kept for a document that is remembered, unless
/// a later look has begun.
pub proof fn a_loaded_preview_is_kept(
    recents: &mut RecentDocuments,
    generation: u64,
    path: &str,
    loaded: bool,
    kept: bool,
    other: Seq<char>,
)
    requires
        call_ensures(RecentDocuments::finish_preview, (recents, generation, path, loaded), kept),
    ensures
        kept <==> loaded && generation == old(recents).generation && exists|i: int|
            0 <= i < old(recents).list@.len() && (#[trigger] old(recents).list@[i]).path@
                == path@,
        kept ==> final(recents).previewed@.contains(path@),
        !kept || other != path@ ==> (final(recents).previewed@.contains(other)
            <==> old(recents).previewed@.contains(other)),
        final(recents).list@ == old(recents).list@,
        final(recents).generation == old(recents).generation,
{
}

} // verus!
