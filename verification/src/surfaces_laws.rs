//! What shows over and round the documents moves alone, and what opens brings
//! its own with it.

use crate::collaboration::JoinFailure;
use crate::commands::{LeftNavMode, ToolkitTool};
use crate::comments::CommentReadState;
use crate::pane::PanelId;
use crate::panels::PanelKind;
use crate::session::TemporaryWorkspaceSession;
use crate::text_set::TextSet;
use crate::workspace::{
    lemma_files, CollabDialogMode, RestoredSession, RestoredTab, RevisionFork, Surfaces, Workspace,
    WorkspaceView,
};
use crate::workspace_laws::{others_keep_their_files, shows_file};
use vstd::prelude::*;

verus! {

/// Two windows have the same panels, files and services.
pub open spec fn same_documents(before: WorkspaceView, after: WorkspaceView) -> bool {
    &&& after.panels == before.panels
    &&& after.files == before.files
    &&& after.document_runtimes == before.document_runtimes
    &&& after.flow_document_runtimes == before.flow_document_runtimes
    &&& after.session_owner == before.session_owner
}

/// Two windows have the same dialogs over their documents.
pub open spec fn same_dialogs(before: Surfaces, after: Surfaces) -> bool {
    &&& after.collaboration_dialog == before.collaboration_dialog
    &&& after.revision_dialog == before.revision_dialog
    &&& after.comment_dialog == before.comment_dialog
    &&& after.history_takeover == before.history_takeover
}

/// The palette shows from when it opens to when it closes, and nothing else
/// moves. One that shows already is not a new one.
pub proof fn the_palette_opens_and_closes_alone(
    opened: &mut Workspace,
    closed: &mut Workspace,
    fresh: bool,
)
    requires
        call_ensures(Workspace::open_command_palette, (opened,), fresh),
        call_ensures(Workspace::close_command_palette, (closed,), ()),
    ensures
        fresh <==> !old(opened).surfaces.command_palette,
        final(opened).surfaces.command_palette,
        !final(closed).surfaces.command_palette,
        same_documents(old(opened)@, final(opened)@),
        same_documents(old(closed)@, final(closed)@),
        same_dialogs(old(opened).surfaces, final(opened).surfaces),
        same_dialogs(old(closed).surfaces, final(closed).surfaces),
        final(opened).surfaces.file_search_overlay == old(opened).surfaces.file_search_overlay,
        final(closed).surfaces.file_search_overlay == old(closed).surfaces.file_search_overlay,
        final(opened).surfaces.settings_overlay == old(opened).surfaces.settings_overlay,
        final(closed).surfaces.settings_overlay == old(closed).surfaces.settings_overlay,
        final(opened).layout == old(opened).layout,
        final(closed).layout == old(closed).layout,
{
    assert(final(opened)@.surfaces == final(opened).surfaces);
    assert(final(closed)@.surfaces == final(closed).surfaces);
    assert(final(opened)@.layout == final(opened).layout);
    assert(final(closed)@.layout == final(closed).layout);
}

/// The file search shows from when it opens to when it closes, and nothing
/// else moves. One that shows already is not a new one.
pub proof fn the_file_search_opens_and_closes_alone(
    opened: &mut Workspace,
    closed: &mut Workspace,
    fresh: bool,
)
    requires
        call_ensures(Workspace::open_file_search_overlay, (opened,), fresh),
        call_ensures(Workspace::close_file_search_overlay, (closed,), ()),
    ensures
        fresh <==> !old(opened).surfaces.file_search_overlay,
        final(opened).surfaces.file_search_overlay,
        !final(closed).surfaces.file_search_overlay,
        same_documents(old(opened)@, final(opened)@),
        same_documents(old(closed)@, final(closed)@),
        same_dialogs(old(opened).surfaces, final(opened).surfaces),
        same_dialogs(old(closed).surfaces, final(closed).surfaces),
        final(opened).surfaces.command_palette == old(opened).surfaces.command_palette,
        final(closed).surfaces.command_palette == old(closed).surfaces.command_palette,
        final(opened).surfaces.settings_overlay == old(opened).surfaces.settings_overlay,
        final(closed).surfaces.settings_overlay == old(closed).surfaces.settings_overlay,
        final(opened).layout == old(opened).layout,
        final(closed).layout == old(closed).layout,
{
    assert(final(opened)@.surfaces == final(opened).surfaces);
    assert(final(closed)@.surfaces == final(closed).surfaces);
    assert(final(opened)@.layout == final(opened).layout);
    assert(final(closed)@.layout == final(closed).layout);
}

/// All that shows over two windows but for the sharing dialog is the same.
pub open spec fn same_but_sharing(before: WorkspaceView, after: WorkspaceView) -> bool {
    &&& same_documents(before, after)
    &&& after.layout == before.layout
    &&& after.surfaces.settings_overlay == before.surfaces.settings_overlay
    &&& after.surfaces.file_search_overlay == before.surfaces.file_search_overlay
    &&& after.surfaces.command_palette == before.surfaces.command_palette
    &&& after.surfaces.revision_dialog == before.surfaces.revision_dialog
    &&& after.surfaces.comment_dialog == before.surfaces.comment_dialog
    &&& after.surfaces.history_takeover == before.surfaces.history_takeover
}

/// A sharing dialog is about the panel on top.
pub open spec fn is_about_the_top(
    dialog: Option<(CollabDialogMode, Option<PanelId>)>,
    mode: CollabDialogMode,
    top: Option<(PanelId, PanelKind)>,
) -> bool {
    dialog matches Some((shown, panel)) && shown == mode && match (top, panel) {
        (Some((id, _)), Some(panel)) => panel == id,
        (None, None) => true,
        _ => false,
    }
}

/// The sharing dialog shares, and the joining dialog joins, what is on top;
/// either takes the place of the one that showed, and each closes alone. The
/// dialog closes too once a joined panel is attached, and stays, with the
/// reason, where it could not be.
pub proof fn a_sharing_dialog_is_about_the_panel_on_top(
    share: &mut Workspace,
    join: &mut Workspace,
    close: &mut Workspace,
    attach: &mut Workspace,
    replaces: (bool, bool),
    attached: Result<(), String>,
    end: Result<bool, JoinFailure>,
)
    requires
        call_ensures(Workspace::open_collaboration_dialog, (share,), replaces.0),
        call_ensures(Workspace::open_join_collaboration_dialog, (join,), replaces.1),
        call_ensures(Workspace::close_collaboration_dialog, (close,), ()),
        call_ensures(Workspace::joined_session_attached, (attach, attached), end),
    ensures
        replaces.0 <==> old(share).surfaces.collaboration_dialog is Some,
        replaces.1 <==> old(join).surfaces.collaboration_dialog is Some,
        is_about_the_top(
            final(share)@.surfaces.collaboration_dialog,
            CollabDialogMode::Share,
            old(share)@.panels.active,
        ),
        is_about_the_top(
            final(join)@.surfaces.collaboration_dialog,
            CollabDialogMode::Join,
            old(join)@.panels.active,
        ),
        final(close)@.surfaces.collaboration_dialog is None,
        same_but_sharing(old(share)@, final(share)@),
        same_but_sharing(old(join)@, final(join)@),
        same_but_sharing(old(close)@, final(close)@),
        same_but_sharing(old(attach)@, final(attach)@),
        match attached {
            Ok(_) => final(attach)@.surfaces.collaboration_dialog is None && end == Ok::<
                bool,
                JoinFailure,
            >(old(attach)@.surfaces.collaboration_dialog is Some),
            Err(error) => final(attach)@.surfaces.collaboration_dialog
                == old(attach)@.surfaces.collaboration_dialog && end == Err::<bool, JoinFailure>(
                JoinFailure::Attachment(error),
            ),
        },
{
}

/// All that shows over two windows but for what stands for one document is
/// the same.
pub open spec fn same_but_documents_dialogs(before: WorkspaceView, after: WorkspaceView) -> bool {
    &&& same_documents(before, after)
    &&& after.layout == before.layout
    &&& after.surfaces.settings_overlay == before.surfaces.settings_overlay
    &&& after.surfaces.file_search_overlay == before.surfaces.file_search_overlay
    &&& after.surfaces.command_palette == before.surfaces.command_palette
    &&& after.surfaces.collaboration_dialog == before.surfaces.collaboration_dialog
}

/// The dialog with the revisions is about the panel on top, whose revisions
/// are asked for where its services run; nothing shows where nothing is open.
/// It closes alone.
pub proof fn revisions_are_those_of_the_panel_on_top(
    open: &mut Workspace,
    close: &mut Workspace,
    opened: Option<(PanelId, bool, bool)>,
    asked: Workspace,
    panel: PanelId,
    may_ask: bool,
    may_open: bool,
)
    requires
        call_ensures(Workspace::open_revision_dialog, (open,), opened),
        call_ensures(Workspace::close_revision_dialog, (close,), ()),
        call_ensures(Workspace::request_document_revisions, (&asked, panel), may_ask),
        call_ensures(Workspace::open_document_revision, (&asked, panel), may_open),
    ensures
        opened is Some <==> old(open)@.panels.active is Some,
        opened matches Some((shown, asks, replaces)) ==> {
            &&& shown == (old(open)@.panels.active->0).0
            &&& asks <==> old(open)@.document_runtimes.contains(shown)
            &&& replaces <==> old(open)@.surfaces.revision_dialog is Some
            &&& final(open)@.surfaces.revision_dialog == Some(shown)
        },
        opened is None ==> final(open)@.surfaces.revision_dialog
            == old(open)@.surfaces.revision_dialog,
        same_but_documents_dialogs(old(open)@, final(open)@),
        final(open)@.surfaces.comment_dialog == old(open)@.surfaces.comment_dialog,
        final(open)@.surfaces.history_takeover == old(open)@.surfaces.history_takeover,
        final(close)@.surfaces.revision_dialog is None,
        same_but_documents_dialogs(old(close)@, final(close)@),
        final(close)@.surfaces.comment_dialog == old(close)@.surfaces.comment_dialog,
        final(close)@.surfaces.history_takeover == old(close)@.surfaces.history_takeover,
        may_ask <==> asked@.document_runtimes.contains(panel),
        may_open <==> asked@.document_runtimes.contains(panel),
{
}

/// The dialog with the comments is about the document on top, and shows only
/// where its services run. It closes alone.
pub proof fn comments_are_those_of_the_document_on_top(
    open: &mut Workspace,
    close: &mut Workspace,
    opened: Option<(PanelId, bool)>,
)
    requires
        call_ensures(Workspace::open_comment_dialog, (open,), opened),
        call_ensures(Workspace::close_comment_dialog, (close,), ()),
    ensures
        opened is Some <==> (old(open)@.panels.active matches Some((top, kind)) && kind
            == PanelKind::Document && old(open)@.document_runtimes.contains(top)),
        opened matches Some((shown, replaces)) ==> {
            &&& shown == (old(open)@.panels.active->0).0
            &&& replaces <==> old(open)@.surfaces.comment_dialog is Some
            &&& final(open)@.surfaces.comment_dialog == Some(shown)
        },
        opened is None ==> final(open)@.surfaces.comment_dialog
            == old(open)@.surfaces.comment_dialog,
        same_but_documents_dialogs(old(open)@, final(open)@),
        final(open)@.surfaces.revision_dialog == old(open)@.surfaces.revision_dialog,
        final(open)@.surfaces.history_takeover == old(open)@.surfaces.history_takeover,
        final(close)@.surfaces.comment_dialog is None,
        same_but_documents_dialogs(old(close)@, final(close)@),
        final(close)@.surfaces.revision_dialog == old(close)@.surfaces.revision_dialog,
        final(close)@.surfaces.history_takeover == old(close)@.surfaces.history_takeover,
{
}

/// The command for the history leaves one that shows, and opens that of the
/// document on top where none shows and its services run. Given twice it
/// leaves none.
pub proof fn the_history_command_leaves_an_open_history(
    first: &mut Workspace,
    second: &mut Workspace,
    opened: Option<PanelId>,
    again: Option<PanelId>,
)
    requires
        call_ensures(Workspace::open_history_takeover, (first,), opened),
        call_ensures(Workspace::open_history_takeover, (second,), again),
        old(second)@ == final(first)@,
    ensures
        old(first)@.surfaces.history_takeover is Some ==> opened is None,
        opened is Some <==> old(first)@.surfaces.history_takeover is None && (
        old(first)@.panels.active matches Some((top, kind)) && kind == PanelKind::Document
            && old(first)@.document_runtimes.contains(top)),
        opened matches Some(panel) ==> old(first)@.panels.active == Some(
            (panel, PanelKind::Document),
        ),
        final(first)@.surfaces.history_takeover == opened,
        opened is Some ==> again is None && final(second)@.surfaces.history_takeover is None,
        same_but_documents_dialogs(old(first)@, final(first)@),
        final(first)@.surfaces.revision_dialog == old(first)@.surfaces.revision_dialog,
        final(first)@.surfaces.comment_dialog == old(first)@.surfaces.comment_dialog,
{
}

/// All of a window but for what shows round its documents is the same.
pub open spec fn same_but_layout(before: WorkspaceView, after: WorkspaceView) -> bool {
    same_documents(before, after) && after.surfaces == before.surfaces
}

/// The ribbon folds and unfolds in turn, and the left panel goes from outline
/// to tub and back; nothing else moves.
pub proof fn what_folds_unfolds(
    ribbon: &mut Workspace,
    ribbon_again: &mut Workspace,
    nav: &mut Workspace,
    nav_again: &mut Workspace,
)
    requires
        call_ensures(Workspace::toggle_ribbon, (ribbon,), ()),
        call_ensures(Workspace::toggle_ribbon, (ribbon_again,), ()),
        call_ensures(Workspace::swap_left_nav, (nav,), ()),
        call_ensures(Workspace::swap_left_nav, (nav_again,), ()),
        old(ribbon_again)@ == final(ribbon)@,
        old(nav_again)@ == final(nav)@,
    ensures
        same_but_layout(old(ribbon)@, final(ribbon)@),
        final(ribbon)@.layout.ribbon_collapsed <==> !old(ribbon)@.layout.ribbon_collapsed,
        final(ribbon)@.layout.outline_collapsed == old(ribbon)@.layout.outline_collapsed,
        final(ribbon)@.layout.left_nav_mode == old(ribbon)@.layout.left_nav_mode,
        final(ribbon)@.layout.active_toolkit_tool == old(ribbon)@.layout.active_toolkit_tool,
        final(ribbon_again)@ == old(ribbon)@,
        same_but_layout(old(nav)@, final(nav)@),
        final(nav)@.layout.left_nav_mode != old(nav)@.layout.left_nav_mode,
        final(nav)@.layout.ribbon_collapsed == old(nav)@.layout.ribbon_collapsed,
        final(nav)@.layout.outline_collapsed == old(nav)@.layout.outline_collapsed,
        final(nav)@.layout.active_toolkit_tool == old(nav)@.layout.active_toolkit_tool,
        final(nav_again)@ == old(nav)@,
{
}

/// A tool of the rail opens in place of any other, and closes where it is the
/// one that shows; the comments can always be shown. Nothing else moves.
pub proof fn one_tool_shows_in_the_rail(
    toggled: &mut Workspace,
    again: &mut Workspace,
    comments: &mut Workspace,
    tool: ToolkitTool,
)
    requires
        call_ensures(Workspace::toggle_toolkit_tool, (toggled, tool), ()),
        call_ensures(Workspace::toggle_toolkit_tool, (again, tool), ()),
        call_ensures(Workspace::open_comments_panel, (comments,), ()),
        old(again)@ == final(toggled)@,
    ensures
        old(toggled)@.layout.active_toolkit_tool == Some(tool)
            ==> final(toggled)@.layout.active_toolkit_tool is None
            && final(again)@.layout.active_toolkit_tool == Some(tool),
        old(toggled)@.layout.active_toolkit_tool != Some(tool)
            ==> final(toggled)@.layout.active_toolkit_tool == Some(tool)
            && final(again)@.layout.active_toolkit_tool is None,
        same_but_layout(old(toggled)@, final(toggled)@),
        final(toggled)@.layout.left_nav_mode == old(toggled)@.layout.left_nav_mode,
        final(toggled)@.layout.ribbon_collapsed == old(toggled)@.layout.ribbon_collapsed,
        final(toggled)@.layout.outline_collapsed == old(toggled)@.layout.outline_collapsed,
        final(comments)@.layout.active_toolkit_tool == Some(ToolkitTool::Comments),
        same_but_layout(old(comments)@, final(comments)@),
        final(comments)@.layout.left_nav_mode == old(comments)@.layout.left_nav_mode,
        final(comments)@.layout.ribbon_collapsed == old(comments)@.layout.ribbon_collapsed,
        final(comments)@.layout.outline_collapsed == old(comments)@.layout.outline_collapsed,
{
}

/// A document opened last and on top; what was there before stays.
pub open spec fn has_new_document(
    before: WorkspaceView,
    after: WorkspaceView,
    id: PanelId,
    runs: bool,
) -> bool {
    &&& after.panels.documents.len() == before.panels.documents.len() + 1
    &&& after.panels.documents.last() == id
    &&& forall|i: int|
        0 <= i < before.panels.documents.len() ==> #[trigger] after.panels.documents[i]
            == before.panels.documents[i]
    &&& after.panels.flows == before.panels.flows
    &&& after.panels.active == Some((id, PanelKind::Document))
    &&& after.panels.pinned == before.panels.pinned
    &&& after.panels.speech == before.panels.speech
    &&& after.panels.pending_authority == before.panels.pending_authority
    &&& forall|other: u128|
        after.document_runtimes.contains(other) <==> (#[trigger] before.document_runtimes.contains(
            other,
        ) || runs && other == id)
    &&& after.flow_document_runtimes == before.flow_document_runtimes
    &&& after.surfaces == before.surfaces
    &&& after.layout == before.layout
    &&& after.session_owner == before.session_owner
}

/// A flow opened last and on top; what was there before stays.
pub open spec fn has_new_flow(
    before: WorkspaceView,
    after: WorkspaceView,
    id: PanelId,
    runs: bool,
) -> bool {
    &&& after.panels.flows.len() == before.panels.flows.len() + 1
    &&& after.panels.flows.last() == id
    &&& forall|i: int|
        0 <= i < before.panels.flows.len() ==> #[trigger] after.panels.flows[i]
            == before.panels.flows[i]
    &&& after.panels.documents == before.panels.documents
    &&& after.panels.active == Some((id, PanelKind::Flow))
    &&& after.panels.pinned == before.panels.pinned
    &&& after.panels.speech == before.panels.speech
    &&& after.panels.pending_authority == before.panels.pending_authority
    &&& forall|other: u128|
        after.flow_document_runtimes.contains(other) <==> (
        #[trigger] before.flow_document_runtimes.contains(other) || runs && other == id)
    &&& after.document_runtimes == before.document_runtimes
    &&& after.surfaces == before.surfaces
    &&& after.layout == before.layout
    &&& after.session_owner == before.session_owner
}

/// A blank document or flow opens last of its kind and on top, with its
/// services and without a file.
pub proof fn a_blank_panel_runs_without_a_file(
    documents: &mut Workspace,
    flows: &mut Workspace,
    id: PanelId,
)
    requires
        call_ensures(Workspace::new_document, (documents, id), ()),
        call_ensures(Workspace::new_flow, (flows, id), ()),
    ensures
        has_new_document(old(documents)@, final(documents)@, id, true),
        final(documents)@.files == old(documents)@.files,
        has_new_flow(old(flows)@, final(flows)@, id, true),
        final(flows)@.files == old(flows)@.files,
{
}

/// A joined document opens on top with its services and without a file once
/// they have started, and nothing changes where they have not; a joined flow
/// opens on top in the same way.
pub proof fn what_is_joined_opens_without_a_file(
    documents: &mut Workspace,
    flows: &mut Workspace,
    id: PanelId,
    started: Result<(), String>,
    result: Result<(), JoinFailure>,
)
    requires
        call_ensures(
            Workspace::add_joined_collaboration_panel,
            (documents, id, started),
            result,
        ),
        call_ensures(Workspace::add_joined_collaboration_flow_panel, (flows, id), ()),
    ensures
        result is Ok <==> started is Ok,
        started matches Err(error) ==> result == Err::<(), JoinFailure>(
            JoinFailure::RuntimeStart(error),
        ) && final(documents)@ == old(documents)@,
        started is Ok ==> has_new_document(old(documents)@, final(documents)@, id, true),
        final(documents)@.files == old(documents)@.files,
        has_new_flow(old(flows)@, final(flows)@, id, true),
        final(flows)@.files == old(flows)@.files,
{
}

/// A revision that was forked opens on top with its services and without a
/// file, so that no save overwrites what it was forked from; nothing changes
/// where none was.
pub proof fn a_forked_revision_was_never_saved(
    window: &mut Workspace,
    fork: RevisionFork,
    revision: u128,
    id: PanelId,
    title: Option<String>,
)
    requires
        call_ensures(Workspace::revision_forked, (window, fork, revision, id), title),
    ensures
        title is Some <==> fork == RevisionFork::Started,
        title is Some ==> has_new_document(old(window)@, final(window)@, id, true),
        title is None ==> final(window)@ == old(window)@,
        final(window)@.files == old(window)@.files,
        title matches Some(text) ==> "Revision "@.is_prefix_of(text@),
{
    if let Some(text) = title {
        assert(text@.subrange(0, "Revision "@.len() as int) =~= "Revision "@);
        assert("Revision "@.is_prefix_of(text@));
    }
}

/// A panel that comes from another window opens on top with its file, where
/// it has one, and with its services, where they ran; the files of the other
/// panels stay.
pub proof fn what_is_adopted_brings_its_own(
    documents: &mut Workspace,
    flows: &mut Workspace,
    id: PanelId,
    path: Option<String>,
    runs: bool,
)
    requires
        call_ensures(Workspace::adopt_document_panel, (documents, id, path, runs), ()),
        call_ensures(Workspace::adopt_flow_panel, (flows, id, path, runs), ()),
    ensures
        has_new_document(old(documents)@, final(documents)@, id, runs),
        has_new_flow(old(flows)@, final(flows)@, id, runs),
        path matches Some(path) ==> {
            &&& shows_file(final(documents)@, id, path@)
            &&& shows_file(final(flows)@, id, path@)
            &&& forall|other: Seq<char>| #[trigger]
                shows_file(final(documents)@, id, other) ==> other == path@
            &&& forall|other: Seq<char>| #[trigger]
                shows_file(final(flows)@, id, other) ==> other == path@
        },
        others_keep_their_files(old(documents)@, final(documents)@, id),
        others_keep_their_files(old(flows)@, final(flows)@, id),
        path is None ==> final(documents)@.files == old(documents)@.files && final(flows)@.files
            == old(flows)@.files,
{
    if let Some(path) = path {
        lemma_files(old(documents)@.files, id, path@);
        lemma_files(old(flows)@.files, id, path@);
    }
}

/// What stood round the documents comes back with a session: what was folded,
/// which panel showed on the left and how wide, and the tub where it was open.
/// What stands over the documents, and who keeps the session, stay.
pub proof fn what_stood_round_the_documents_comes_back(
    window: &mut Workspace,
    session: TemporaryWorkspaceSession,
    opened: Vec<Option<RestoredTab>>,
    dirs: &mut TextSet,
    read: &mut CommentReadState,
    restored: RestoredSession,
)
    requires
        call_ensures(
            Workspace::restore_temporary_workspace_session,
            (window, session, &opened, dirs, read),
            restored,
        ),
        opened@.len() == session.entries@.len(),
    ensures
        final(window)@.layout.ribbon_collapsed == session.ribbon_collapsed,
        final(window)@.layout.outline_collapsed == session.outline_collapsed,
        final(window)@.layout.left_nav_mode == LeftNavMode::Tub <==> session.left_nav_tub,
        session.tub_tool_open ==> final(window)@.layout.active_toolkit_tool == Some(
            ToolkitTool::Tub,
        ),
        !session.tub_tool_open ==> final(window)@.layout.active_toolkit_tool
            == old(window)@.layout.active_toolkit_tool,
        final(window)@.layout.restored_nav_width_bits == session.nav_width_bits,
        restored.toolkit_filter == session.toolkit_filter,
        final(window)@.surfaces == old(window)@.surfaces,
        final(window)@.session_owner == old(window)@.session_owner,
        forall|i: int|
            0 <= i < session.tub_expanded_dirs@.len() ==> final(dirs)@.contains(
                (#[trigger] session.tub_expanded_dirs@[i])@,
            ),
        forall|dir: Seq<char>|
            #![trigger final(dirs)@.contains(dir)]
            final(dirs)@.contains(dir) <==> (old(dirs)@.contains(dir) || is_listed(
                session.tub_expanded_dirs@,
                dir,
            )),
{
    lemma_texts_added(
        old(dirs)@,
        session.tub_expanded_dirs@,
        session.tub_expanded_dirs@.len() as int,
    );
    lemma_tabs_keep_surfaces(old(window)@, session, opened@, opened@.len() as int);
    assert forall|i: int| 0 <= i < session.tub_expanded_dirs@.len() implies final(dirs)@.contains(
        (#[trigger] session.tub_expanded_dirs@[i])@,
    ) by {
        assert(is_listed(session.tub_expanded_dirs@, session.tub_expanded_dirs@[i]@));
    }
}

/// A text is one of a list.
pub open spec fn is_listed(texts: Seq<String>, text: Seq<char>) -> bool {
    exists|i: int| 0 <= i < texts.len() && (#[trigger] texts[i])@ == text
}

proof fn lemma_texts_added(set: Set<Seq<char>>, texts: Seq<String>, k: int)
    requires
        0 <= k <= texts.len(),
    ensures
        forall|text: Seq<char>| #[trigger]
            crate::workspace::texts_added(set, texts, k).contains(text) <==> (set.contains(text)
                || exists|i: int| 0 <= i < k && (#[trigger] texts[i])@ == text),
    decreases k,
{
    if k > 0 {
        lemma_texts_added(set, texts, k - 1);
        assert forall|text: Seq<char>| #[trigger]
            crate::workspace::texts_added(set, texts, k).contains(text) implies (set.contains(text)
            || exists|i: int| 0 <= i < k && (#[trigger] texts[i])@ == text) by {
            if texts[k - 1]@ != text {
                assert(crate::workspace::texts_added(set, texts, k - 1).contains(text));
            }
        }
        assert forall|text: Seq<char>|
            (set.contains(text) || exists|i: int|
                0 <= i < k && (#[trigger] texts[i])@ == text) implies #[trigger] crate::workspace::texts_added(
            set,
            texts,
            k,
        ).contains(text) by {
            assert(crate::workspace::texts_added(set, texts, k - 1).contains(text)
                || texts[k - 1]@ == text);
        }
    }
}

proof fn lemma_tabs_keep_surfaces(
    view: WorkspaceView,
    session: TemporaryWorkspaceSession,
    opened: Seq<Option<RestoredTab>>,
    k: int,
)
    requires
        0 <= k <= opened.len(),
    ensures
        ({
            let after = crate::workspace::tabs_restored(view, session.entries@, opened, k);
            after.surfaces == view.surfaces && after.session_owner == view.session_owner
        }),
    decreases k,
{
    if k > 0 {
        lemma_tabs_keep_surfaces(view, session, opened, k - 1);
    }
}

} // verus!
