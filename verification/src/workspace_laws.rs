//! What a window keeps of its files while panels open, close and move.

use crate::opening::{LoadOutcome, OpenEnd, Opening};
use crate::pane::PanelId;
use crate::panels::PanelKind;
use crate::windows::{WindowStart, Windows};
use crate::workspace::{
    file_of, lemma_files, lemma_panel_of_file, panel_of_file, OpenStart, OutlineFollowUp,
    RemovedPanel, Workspace, WorkspaceView,
};
use vstd::prelude::*;

verus! {

/// A panel of a window shows a file.
pub open spec fn shows_file(view: WorkspaceView, panel: PanelId, path: Seq<char>) -> bool {
    view.files.contains((panel, path))
}

/// Some panel of a window shows a file.
pub open spec fn is_shown(view: WorkspaceView, path: Seq<char>) -> bool {
    exists|panel: PanelId| shows_file(view, panel, path)
}

pub(crate) proof fn lemma_shown(files: Seq<(PanelId, Seq<char>)>, path: Seq<char>, k: int)
    requires
        0 <= k <= files.len(),
    ensures
        match panel_of_file(files, path, k) {
            Some(panel) => files.contains((panel, path)),
            None => forall|i: int| k <= i < files.len() ==> (#[trigger] files[i]).1 != path,
        },
    decreases files.len() - k,
{
    if k < files.len() {
        if files[k].1 == path {
            assert(files[k] == (files[k].0, path));
        } else {
            lemma_shown(files, path, k + 1);
        }
    }
}

/// The file that a panel is said to have is the panel's, and one that has a
/// file is said to have one.
pub(crate) proof fn lemma_own_file(files: Seq<(PanelId, Seq<char>)>, id: PanelId, k: int)
    requires
        0 <= k <= files.len(),
    ensures
        match file_of(files, id, k) {
            Some(path) => files.contains((id, path)),
            None => forall|i: int| k <= i < files.len() ==> (#[trigger] files[i]).0 != id,
        },
    decreases files.len() - k,
{
    if k < files.len() {
        if files[k].0 == id {
            assert(files[k] == (id, files[k].1));
        } else {
            lemma_own_file(files, id, k + 1);
        }
    }
}

/// Opening a file that the window shows puts the panel that shows it on top, at
/// the paragraph that was asked for, and opens nothing; opening another begins
/// to load that file and changes nothing yet.
pub proof fn opening_finds_the_panel_that_shows_the_file(
    window: &mut Workspace,
    path: String,
    target: Option<usize>,
    start: OpenStart,
)
    requires
        call_ensures(
            Workspace::open_document_path_with_target,
            (window, path, target),
            start,
        ),
    ensures
        final(window)@.panels.documents == old(window)@.panels.documents,
        final(window)@.panels.flows == old(window)@.panels.flows,
        final(window)@.panels.pinned == old(window)@.panels.pinned,
        final(window)@.files == old(window)@.files,
        start is Shown <==> is_shown(old(window)@, path@),
        start matches OpenStart::Shown { panel, scroll_to } ==> {
            &&& shows_file(old(window)@, panel, path@)
            &&& scroll_to == target
            &&& old(window)@.panels.documents.contains(panel) ==> final(window)@.panels.active
                == Some((panel, PanelKind::Document))
            &&& old(window)@.panels.flows.contains(panel) && !old(window)@.panels.documents.contains(panel) ==> final(window)@.panels.active == Some(
                (panel, PanelKind::Flow),
            )
        },
        start matches OpenStart::Begun(opening) ==> {
            &&& opening.path@ == path@
            &&& opening.target == target
            &&& opening.pending is None
            &&& final(window)@.panels.active == old(window)@.panels.active
        },
{
    let files = old(window)@.files;
    lemma_shown(files, path@, 0);
    if is_shown(old(window)@, path@) {
        let panel = choose|panel: PanelId| shows_file(old(window)@, panel, path@);
        let i = choose|i: int| 0 <= i < files.len() && files[i] == (panel, path@);
        lemma_panel_of_file(files, path@, 0, i);
    }
    if let Some(panel) = panel_of_file(files, path@, 0) {
        assert(shows_file(old(window)@, panel, path@));
    }
}

/// Every file but those of a panel is shown as it was.
pub open spec fn others_keep_their_files(
    before: WorkspaceView,
    after: WorkspaceView,
    panel: PanelId,
) -> bool {
    forall|other: PanelId, path: Seq<char>|
        other != panel ==> (#[trigger] shows_file(after, other, path) <==> shows_file(
            before,
            other,
            path,
        ))
}

/// A file that has loaded is saved where it was loaded from, unless it was
/// imported: then its panel has no file, so that no save overwrites the
/// source. Its services run, and the files of other panels are as they were.
pub proof fn a_loaded_document_saves_to_its_own_file(
    window: &mut Workspace,
    opening: Opening,
    outcome: LoadOutcome,
    keeps_path: bool,
    id: PanelId,
    end: (OpenEnd, Option<usize>),
    path: Seq<char>,
)
    requires
        call_ensures(
            Workspace::finish_opening,
            (window, &opening, outcome, keeps_path, id),
            end,
        ),
    ensures
        outcome is Document ==> end.1 == opening.target,
        end.0 matches OpenEnd::NewDocument(panel) ==> {
            &&& panel == id
            &&& final(window)@.panels.documents == old(window)@.panels.documents.push(id)
            &&& final(window)@.panels.active == Some((id, PanelKind::Document))
            &&& shows_file(final(window)@, id, path) <==> keeps_path && path == opening.path@
            &&& final(window)@.document_runtimes.contains(id)
            &&& others_keep_their_files(old(window)@, final(window)@, id)
        },
        end.0 matches OpenEnd::Attached(panel) ==> {
            &&& opening.pending == Some(panel)
            &&& old(window)@.panels.documents.contains(panel)
            &&& final(window)@.panels.documents == old(window)@.panels.documents
            &&& final(window)@.panels.active == old(window)@.panels.active
            &&& !final(window)@.panels.pending_authority.contains(panel)
            &&& shows_file(final(window)@, panel, path) <==> keeps_path && path == opening.path@
            &&& final(window)@.document_runtimes.contains(panel)
            &&& others_keep_their_files(old(window)@, final(window)@, panel)
        },
        end.0 matches OpenEnd::NewFlow(panel) ==> {
            &&& panel == id
            &&& final(window)@.panels.flows == old(window)@.panels.flows.push(id)
            &&& final(window)@.panels.active == Some((id, PanelKind::Flow))
            &&& shows_file(final(window)@, id, path) <==> path == opening.path@
            &&& final(window)@.flow_document_runtimes.contains(id)
            &&& others_keep_their_files(old(window)@, final(window)@, id)
        },
        !(end.0 is NewDocument || end.0 is Attached || end.0 is NewFlow) ==> {
            &&& final(window)@.files == old(window)@.files
            &&& final(window)@.panels.documents == old(window)@.panels.documents
            &&& final(window)@.panels.flows == old(window)@.panels.flows
            &&& final(window)@.panels.active == old(window)@.panels.active
            &&& final(window)@.document_runtimes == old(window)@.document_runtimes
        },
{
    let files = old(window)@.files;
    match end.0 {
        OpenEnd::NewDocument(panel) | OpenEnd::Attached(panel) | OpenEnd::NewFlow(panel) => {
            lemma_files(files, panel, opening.path@);
        },
        _ => {},
    }
}

/// A load ends in one of its ways: a document goes into the panel that shows
/// its picture where that is open and waits, else into a new one, and a
/// document whose services did not start is not shown as one that can be
/// edited; a failure opens nothing.
pub proof fn a_load_ends_where_its_picture_is(
    window: &mut Workspace,
    opening: Opening,
    outcome: LoadOutcome,
    keeps_path: bool,
    id: PanelId,
    end: (OpenEnd, Option<usize>),
)
    requires
        call_ensures(
            Workspace::finish_opening,
            (window, &opening, outcome, keeps_path, id),
            end,
        ),
    ensures
        outcome matches LoadOutcome::Document { started } ==> {
            let waits = opening.pending is Some && old(window)@.panels.documents.contains(
                opening.pending->0,
            ) && old(window)@.panels.pending_authority.contains(opening.pending->0);
            &&& end.0 is Attached <==> waits && started is Ok
            &&& end.0 is StaysReadOnly <==> waits && started is Err
            &&& end.0 is NewDocument <==> !waits && started is Ok
            &&& end.0 is NotStarted <==> !waits && started is Err
        },
        outcome is Flow <==> end.0 is NewFlow,
        outcome is Failed <==> end.0 is Failed,
{
}

/// A quick picture shows the file it is of in a panel of its own, which waits
/// for the document.
pub proof fn a_quick_picture_waits_for_its_document(
    window: &mut Workspace,
    opening: &mut Opening,
    has_picture: bool,
    id: PanelId,
    scroll_to: Option<usize>,
    path: Seq<char>,
)
    requires
        call_ensures(
            Workspace::show_quick_picture,
            (window, opening, has_picture, id),
            scroll_to,
        ),
    ensures
        final(opening).path@ == old(opening).path@,
        final(opening).target == old(opening).target,
        !has_picture ==> final(window)@ == old(window)@ && scroll_to is None
            && final(opening).pending == old(opening).pending,
        has_picture ==> {
            &&& final(opening).pending == Some(id)
            &&& scroll_to == old(opening).target
            &&& final(window)@.panels.documents == old(window)@.panels.documents.push(id)
            &&& final(window)@.panels.active == Some((id, PanelKind::Document))
            &&& final(window)@.panels.pending_authority.contains(id)
            &&& shows_file(final(window)@, id, path) <==> path == old(opening).path@
            &&& others_keep_their_files(old(window)@, final(window)@, id)
            &&& final(window)@.document_runtimes == old(window)@.document_runtimes
        },
{
    lemma_files(old(window)@.files, id, old(opening).path@);
}

/// A panel that is removed takes its file, its services and every mark with
/// it, and leaves those of every other panel.
pub proof fn a_removed_panel_takes_its_own(
    window: &mut Workspace,
    id: PanelId,
    follow_up: RemovedPanel,
    path: Seq<char>,
)
    requires
        call_ensures(Workspace::remove_document_panel, (window, id), follow_up),
    ensures
        !shows_file(final(window)@, id, path),
        others_keep_their_files(old(window)@, final(window)@, id),
        !final(window)@.document_runtimes.contains(id),
        !final(window)@.flow_document_runtimes.contains(id),
        forall|other: u128|
            other != id ==> (#[trigger] final(window)@.document_runtimes.contains(other) <==> old(window)@.document_runtimes.contains(other)),
        forall|other: u128|
            other != id ==> (#[trigger] final(window)@.flow_document_runtimes.contains(other)
                <==> old(window)@.flow_document_runtimes.contains(other)),
        final(window).surfaces == old(window).surfaces,
        final(window).layout == old(window).layout,
        follow_up.flush_caches <==> old(window)@.document_runtimes.contains(id),
        follow_up.outline == OutlineFollowUp::Clear <==> final(window)@.panels.active is None,
        follow_up.outline == OutlineFollowUp::Refresh <==> final(window)@.panels.active is Some
            && old(window)@.panels.active is Some && (old(window)@.panels.active->0).0 == id,
{
    lemma_files(old(window)@.files, id, path);
}

/// A file of a panel is looked up as the one that it shows.
pub proof fn a_panels_file_is_the_one_it_shows(window: Workspace, id: PanelId, path: Option<String>)
    requires
        call_ensures(Workspace::file_of_panel, (&window, id), path),
    ensures
        path is Some ==> shows_file(window@, id, (path->0)@),
        path is None ==> forall|file: Seq<char>| !#[trigger] shows_file(window@, id, file),
{
    lemma_own_file(window@.files, id, 0);
    if path is None {
        assert forall|file: Seq<char>| !#[trigger] shows_file(window@, id, file) by {
            if shows_file(window@, id, file) {
                let i = choose|i: int|
                    0 <= i < window@.files.len() && window@.files[i] == (id, file);
                assert(window@.files[i].0 == id);
            }
        }
    }
}

/// Some window shows a file.
pub open spec fn shown_somewhere(windows: Seq<WorkspaceView>, path: Seq<char>) -> bool {
    exists|w: int| 0 <= w < windows.len() && is_shown(#[trigger] windows[w], path)
}

proof fn lemma_window_of_file(windows: Seq<WorkspaceView>, path: Seq<char>, k: int)
    requires
        0 <= k <= windows.len(),
    ensures
        match crate::windows::window_of_file(windows, path, k) {
            Some((window, panel)) => k <= window < windows.len() && shows_file(
                windows[window],
                panel,
                path,
            ),
            None => forall|w: int|
                k <= w < windows.len() ==> !is_shown(#[trigger] windows[w], path),
        },
    decreases windows.len() - k,
{
    if k < windows.len() {
        let files = windows[k].files;
        lemma_shown(files, path, 0);
        if panel_of_file(files, path, 0) is None {
            if is_shown(windows[k], path) {
                let panel = choose|panel: PanelId| shows_file(windows[k], panel, path);
                let i = choose|i: int| 0 <= i < files.len() && files[i] == (panel, path);
                assert(files[i].1 == path);
            }
            lemma_window_of_file(windows, path, k + 1);
        }
    }
}

/// A file that some window shows opens in no second one: that window has its
/// panel on top, and every other window stays as it was.
pub proof fn a_file_is_open_in_one_window(
    windows: &mut Windows,
    path: String,
    target: Option<usize>,
    start: WindowStart,
)
    requires
        call_ensures(Windows::open_document_path, (windows, path, target), start),
    ensures
        start is ShownIn <==> shown_somewhere(old(windows)@, path@),
        start matches WindowStart::ShownIn { window, panel, scroll_to } ==> {
            &&& window < old(windows)@.len()
            &&& shows_file(old(windows)@[window as int], panel, path@)
            &&& scroll_to == target
            &&& final(windows)@.len() == old(windows)@.len()
            &&& forall|w: int|
                0 <= w < old(windows)@.len() && w != window ==> #[trigger] final(windows)@[w]
                    == old(windows)@[w]
            &&& final(windows)@[window as int].files == old(windows)@[window as int].files
            &&& final(windows)@[window as int].panels.documents == old(windows)@[window as int].panels.documents
            &&& old(windows)@[window as int].panels.documents.contains(panel)
                ==> final(windows)@[window as int].panels.active == Some(
                (panel, PanelKind::Document),
            )
        },
        start matches WindowStart::Begun(opening) ==> opening.path == path && opening.target
            == target && final(windows)@ == old(windows)@,
{
    lemma_window_of_file(old(windows)@, path@, 0);
}

/// The first window that opens keeps the session, and no later one; a window
/// opens with nothing in it and changes no other.
pub proof fn a_window_opens_empty(windows: &mut Windows, window: usize)
    requires
        call_ensures(Windows::open_workspace_window, (windows,), window),
    ensures
        window == old(windows)@.len(),
        final(windows)@.len() == old(windows)@.len() + 1,
        forall|w: int|
            0 <= w < old(windows)@.len() ==> #[trigger] final(windows)@[w] == old(windows)@[w],
        ({
            let opened = final(windows)@[window as int];
            &&& opened.session_owner <==> window == 0
            &&& opened.panels.documents.len() == 0
            &&& opened.panels.flows.len() == 0
            &&& opened.panels.active is None
            &&& opened.files.len() == 0
            &&& !opened.surfaces.command_palette
            &&& opened.surfaces.settings_overlay is None
        }),
{
}

/// A tab that moves is gone from the window it was in and on top of the one it
/// goes to, as what it was, with its file and its services; no other window
/// changes, and no other file of either. One that cannot move changes nothing.
pub proof fn a_moved_tab_takes_its_own(
    windows: &mut Windows,
    panel: PanelId,
    from: usize,
    to: usize,
    moved: bool,
    path: Seq<char>,
)
    requires
        from < old(windows)@.len(),
        to < old(windows)@.len(),
        from != to,
        old(windows)@[from as int].sound(),
        !old(windows)@[to as int].panels.is_open(panel),
        old(windows)@[to as int].sound(),
        call_ensures(
            Windows::move_document_tab_to_window,
            (windows, panel, from, to),
            moved,
        ),
    ensures
        old(windows)@[from as int].panels.documents.contains(panel) ==> moved,
        !old(windows)@[from as int].panels.documents.contains(panel) ==> (moved <==> old(windows)@[from as int].panels.flows.contains(panel) && exists|file: Seq<char>| #[trigger]
            shows_file(old(windows)@[from as int], panel, file)),
        !moved ==> final(windows)@ == old(windows)@,
        forall|w: int|
            0 <= w < old(windows)@.len() && w != from && w != to ==> #[trigger] final(windows)@[w] == old(windows)@[w],
        moved ==> {
            let before = old(windows)@[from as int];
            let left = final(windows)@[from as int];
            let target = old(windows)@[to as int];
            let taken = final(windows)@[to as int];
            &&& !left.panels.documents.contains(panel)
            &&& !left.panels.flows.contains(panel)
            &&& !shows_file(left, panel, path)
            &&& others_keep_their_files(before, left, panel)
            &&& others_keep_their_files(target, taken, panel)
            &&& before.panels.documents.contains(panel) ==> taken.panels.documents
                == target.panels.documents.push(panel) && taken.panels.active == Some(
                (panel, PanelKind::Document),
            )
            &&& before.panels.flows.contains(panel) ==> taken.panels.flows
                == target.panels.flows.push(panel) && taken.panels.active == Some(
                (panel, PanelKind::Flow),
            )
            &&& (exists|file: Seq<char>| #[trigger] shows_file(before, panel, file)) ==> exists|
                file: Seq<char>,
            |
                #[trigger] shows_file(before, panel, file) && shows_file(taken, panel, file)
            &&& taken.document_runtimes.contains(panel) <==> before.document_runtimes.contains(
                panel,
            )
        },
{
    let before = old(windows)@[from as int];
    let target = old(windows)@[to as int];
    lemma_own_file(before.files, panel, 0);
    if exists|file: Seq<char>| #[trigger] shows_file(before, panel, file) {
        let file = choose|file: Seq<char>| #[trigger] shows_file(before, panel, file);
        let i = choose|i: int| 0 <= i < before.files.len() && before.files[i] == (panel, file);
        assert(before.files[i].0 == panel);
        let own = file_of(before.files, panel, 0)->0;
        assert(shows_file(before, panel, own));
        lemma_files(target.files, panel, own);
    } else if file_of(before.files, panel, 0) is Some {
        assert(shows_file(before, panel, file_of(before.files, panel, 0)->0));
    }
    lemma_files(before.files, panel, path);
    crate::panels::a_removed_panel_is_gone(before.panels.documents, panel, panel);
    crate::panels::a_removed_panel_is_gone(before.panels.flows, panel, panel);
    if before.panels.flows.contains(panel) && before.panels.documents.contains(panel) {
        let d = choose|d: int|
            0 <= d < before.panels.documents.len() && before.panels.documents[d] == panel;
        assert(!before.panels.flows.contains(before.panels.documents[d]));
    }
    if moved {
        assert(!target.document_runtimes.contains(panel));
    }
}

} // verus!
