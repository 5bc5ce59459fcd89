//! The windows: which of them keeps the session, which shows a file, and how
//! a tab goes from one to another.

use crate::opening::Opening;
use crate::pane::PanelId;
use crate::panels::PanelKind;
use crate::workspace::{
    file_of, lemma_files, new_window, panel_of_file, Workspace, WorkspaceView,
};
use vstd::prelude::*;

verus! {

/// The open windows, in the order in which they opened.
#[derive(Debug)]
pub struct Windows {
    pub list: Vec<Workspace>,
}

impl View for Windows {
    type V = Seq<WorkspaceView>;

    open spec fn view(&self) -> Seq<WorkspaceView> {
        Seq::new(self.list@.len(), |i: int| self.list@[i]@)
    }
}

/// How opening a file begins.
#[derive(Debug)]
pub enum WindowStart {
    /// A window shows the file: it comes to the front with its panel on top.
    ShownIn { window: usize, panel: PanelId, scroll_to: Option<usize> },
    /// The file is to be loaded.
    Begun(Opening),
}

/// The first window from `k` on that shows a file, and its panel.
pub open spec fn window_of_file(
    windows: Seq<WorkspaceView>,
    path: Seq<char>,
    k: int,
) -> Option<(int, PanelId)>
    decreases windows.len() - k,
{
    if k < 0 || k >= windows.len() {
        None
    } else {
        match panel_of_file(windows[k].files, path, 0) {
            Some(panel) => Some((k, panel)),
            None => window_of_file(windows, path, k + 1),
        }
    }
}

/// The first window keeps the session, and no other.
pub open spec fn one_owner(windows: Seq<WorkspaceView>) -> bool {
    forall|i: int|
        0 <= i < windows.len() ==> (#[trigger] windows[i]).session_owner == (i == 0)
}

impl Windows {
    /// No window.
    pub fn new() -> (windows: Self)
        ensures
            windows@ == Seq::<WorkspaceView>::empty(),
    {
        let windows = Windows { list: Vec::new() };
        assert(windows@ =~= Seq::<WorkspaceView>::empty());
        windows
    }

    /// Opens a window with nothing in it; the first keeps the session.
    pub fn open_workspace_window(&mut self) -> (window: usize)
        ensures
            window == old(self)@.len(),
            final(self)@ == old(self)@.push(new_window(old(self)@.len() == 0)),
            final(self)@.last().sound(),
            one_owner(old(self)@) ==> one_owner(final(self)@),
    {
        let window: usize = self.list.len();
        let workspace = Workspace::new(window == 0);
        self.list.push(workspace);
        assert(self@ =~= old(self)@.push(new_window(window == 0)));
        proof {
            assert forall|i: int| one_owner(old(self)@) && 0 <= i < self@.len() implies (
            #[trigger] self@[i]).session_owner == (i == 0) by {
                if i < old(self)@.len() {
                    assert(self@[i] == old(self)@[i]);
                }
            }
        }
        window
    }

    /// Begins to open a file. One that some window shows gets no second
    /// panel: that window shows it.
    pub fn open_document_path(&mut self, path: String, target: Option<usize>) -> (start:
        WindowStart)
        ensures
            match window_of_file(old(self)@, path@, 0) {
                Some((window, panel)) => {
                    &&& start matches WindowStart::ShownIn {
                        window: shown,
                        panel: id,
                        scroll_to,
                    } && shown == window && id == panel && scroll_to == target
                    &&& final(self)@ == old(self)@.update(
                        window,
                        WorkspaceView {
                            panels: old(self)@[window].panels.activated(panel),
                            ..old(self)@[window]
                        },
                    )
                },
                None => {
                    &&& start == WindowStart::Begun(Opening { path, target, pending: None })
                    &&& final(self)@ == old(self)@
                },
            },
    {
        let mut next: usize = 0;
        while next < self.list.len()
            invariant
                *self == *old(self),
                next <= self.list@.len(),
                window_of_file(self@, path@, 0) == window_of_file(self@, path@, next as int),
            decreases self.list@.len() - next,
        {
            assert(self@[next as int] == self.list@[next as int]@);
            if let Some(panel) = self.list[next].panel_for_file(path.as_str()) {
                let workspace = &mut self.list[next];
                workspace.panels.activate_document_id(panel);
                assert(self@ =~= old(self)@.update(
                    next as int,
                    WorkspaceView {
                        panels: old(self)@[next as int].panels.activated(panel),
                        ..old(self)@[next as int]
                    },
                ));
                return WindowStart::ShownIn { window: next, panel, scroll_to: target };
            }
            next = next + 1;
        }
        WindowStart::Begun(Opening::new(path, target))
    }

    /// Moves a tab from one window to another, where it comes on top with its
    /// file and its services. Says whether it moved: a panel that is not open
    /// in the window and a flow that was never saved stay where they are.
    pub fn move_document_tab_to_window(&mut self, panel: PanelId, from: usize, to: usize) -> (moved:
        bool)
        requires
            from < old(self)@.len(),
            to < old(self)@.len(),
            from != to,
        ensures
            moved == can_move(old(self)@[from as int], panel),
            final(self)@ == (if moved {
                tab_moved(old(self)@, panel, from as int, to as int)
            } else {
                old(self)@
            }),
    {
        assert(self@[from as int] == self.list@[from as int]@);
        assert(self@[to as int] == self.list@[to as int]@);
        let path = self.list[from].file_of_panel(panel);
        match self.list[from].panels.kind_of(panel) {
            None => false,
            Some(PanelKind::Document) => {
                let runs = self.list[from].request_document_revisions(panel);
                let source = &mut self.list[from];
                source.remove_document_panel(panel);
                let target = &mut self.list[to];
                target.adopt_document_panel(panel, path, runs);
                assert(self@ =~= tab_moved(old(self)@, panel, from as int, to as int));
                true
            },
            Some(PanelKind::Flow) => {
                if path.is_none() {
                    return false;
                }
                let runs = self.list[from].flow_services_run(panel);
                let source = &mut self.list[from];
                source.remove_document_panel(panel);
                let target = &mut self.list[to];
                target.adopt_flow_panel(panel, path, runs);
                assert(self@ =~= tab_moved(old(self)@, panel, from as int, to as int));
                true
            },
        }
    }

    /// Moves a tab into a window of its own, which opens for it. Says which,
    /// where it moved; no window opens where it stays.
    pub fn tear_off_document_tab(&mut self, panel: PanelId, from: usize) -> (window: Option<usize>)
        requires
            from < old(self)@.len(),
        ensures
            match window {
                Some(window) => {
                    &&& can_move(old(self)@[from as int], panel)
                    &&& window == old(self)@.len()
                    &&& final(self)@ == tab_moved(
                        old(self)@.push(new_window(false)),
                        panel,
                        from as int,
                        window as int,
                    )
                },
                None => {
                    &&& !can_move(old(self)@[from as int], panel)
                    &&& final(self)@ == old(self)@
                },
            },
    {
        assert(self@[from as int] == self.list@[from as int]@);
        let moves = match self.list[from].panels.kind_of(panel) {
            None => false,
            Some(PanelKind::Document) => true,
            Some(PanelKind::Flow) => self.list[from].file_of_panel(panel).is_some(),
        };
        if !moves {
            return None;
        }
        let window = self.open_workspace_window();
        self.move_document_tab_to_window(panel, from, window);
        Some(window)
    }
}

/// A tab can go to another window: a document always, a flow once it has a
/// file.
pub open spec fn can_move(window: WorkspaceView, panel: PanelId) -> bool {
    match window.panels.kind(panel) {
        Some(PanelKind::Document) => true,
        Some(PanelKind::Flow) => file_of(window.files, panel, 0) is Some,
        None => false,
    }
}

/// The windows with a tab moved from one to another.
pub open spec fn tab_moved(windows: Seq<WorkspaceView>, panel: PanelId, from: int, to: int) -> Seq<
    WorkspaceView,
> {
    let path = file_of(windows[from].files, panel, 0);
    windows.update(from, windows[from].panel_removed(panel)).update(
        to,
        if windows[from].panels.kind(panel) == Some(PanelKind::Flow) {
            windows[to].flow_adopted(
                panel,
                path,
                windows[from].flow_document_runtimes.contains(panel),
            )
        } else {
            windows[to].document_adopted(
                panel,
                path,
                windows[from].document_runtimes.contains(panel),
            )
        },
    )
}

/// A window that opens and a tab that moves change nothing of who keeps the
/// session.
pub proof fn the_first_window_keeps_the_session(
    windows: Seq<WorkspaceView>,
    panel: PanelId,
    from: int,
    to: int,
)
    requires
        0 <= from < windows.len(),
        0 <= to < windows.len(),
        from != to,
        one_owner(windows),
    ensures
        one_owner(windows.push(new_window(false))),
        one_owner(tab_moved(windows, panel, from, to)),
{
    let opened = windows.push(new_window(false));
    assert forall|i: int| 0 <= i < opened.len() implies (#[trigger] opened[i]).session_owner == (i
        == 0) by {
        if i < windows.len() {
            assert(windows[i].session_owner == (i == 0));
        }
    }
    let after = tab_moved(windows, panel, from, to);
    assert forall|i: int| 0 <= i < after.len() implies (#[trigger] after[i]).session_owner == (i
        == 0) by {
        assert(windows[i].session_owner == (i == 0));
    }
}

/// A tab that moves leaves nothing behind and loses nothing: it is open where
/// it went to, on top, with its file and its services, and gone from where it
/// was; both windows stay sound.
pub proof fn a_tab_moves_whole(windows: Seq<WorkspaceView>, panel: PanelId, from: int, to: int)
    requires
        0 <= from < windows.len(),
        0 <= to < windows.len(),
        from != to,
        windows[from].sound(),
        windows[to].sound(),
        can_move(windows[from], panel),
        !windows[to].panels.is_open(panel),
    ensures
        ({
            let after = tab_moved(windows, panel, from, to);
            &&& !after[from].panels.is_open(panel)
            &&& after[to].panels.kind(panel) == windows[from].panels.kind(panel)
            &&& after[to].active_id() == Some(panel)
            &&& after[to].document_runtimes.contains(panel)
                == windows[from].document_runtimes.contains(panel)
            &&& after[to].flow_document_runtimes.contains(panel)
                == windows[from].flow_document_runtimes.contains(panel)
            &&& file_of(windows[from].files, panel, 0) is Some ==> after[to].files.contains(
                (panel, file_of(windows[from].files, panel, 0)->0),
            )
            &&& after[from].sound()
            &&& after[to].sound()
        }),
{
    let source = windows[from];
    let target = windows[to];
    let path = file_of(source.files, panel, 0);
    let after = tab_moved(windows, panel, from, to)[to];
    crate::workspace::panels_take_their_files_with_them(source, panel);
    crate::workspace::panels_take_their_files_with_them(target, panel);
    assert forall|x: PanelId| #[trigger]
        after.panels.is_open(x) == (x == panel || target.panels.is_open(x)) by {
        crate::panels::lemma_pushed(target.panels.documents, panel, x);
        crate::panels::lemma_pushed(target.panels.flows, panel, x);
    }
    if path is Some {
        lemma_files(target.files, panel, path->0);
    }
    assert forall|i: int| 0 <= i < after.files.len() implies after.panels.is_open(
        (#[trigger] after.files[i]).0,
    ) by {
        let file = after.files[i];
        assert(after.files.contains(file));
        if file.0 != panel {
            assert(target.files.contains(file));
            let j = choose|j: int| 0 <= j < target.files.len() && target.files[j] == file;
            assert(target.panels.is_open(target.files[j].0));
        }
    }
    crate::panels::opening_keeps_the_window_sound(target.panels, panel);
    assert forall|x: PanelId| #[trigger] target.panels.documents.contains(
        x,
    ) implies target.panels.documents.push(panel).contains(x) by {
        crate::panels::lemma_pushed(target.panels.documents, panel, x);
    }
    assert forall|x: PanelId| #[trigger] target.panels.flows.contains(
        x,
    ) implies target.panels.flows.push(panel).contains(x) by {
        crate::panels::lemma_pushed(target.panels.flows, panel, x);
    }
}

} // verus!
