//! A window: its panels and their files, what stands over them, and how its
//! session comes back.

use crate::collaboration::{open_collaboration_dialog_with_mode, start_collaboration_on_document};
use crate::collaboration::JoinFailure;
use crate::commands::{ActiveSurface, CommandId, Dispatch, DispatchContext, LeftNavMode, ToolkitTool};
use crate::comments::CommentReadState;
use crate::fx::{empty_set, set_contains, set_insert, set_remove};
use crate::opening::{LoadOutcome, OpenEnd, Opening};
use crate::pane::PanelId;
use crate::panels::{OpenPanels, PanelKind, PanelsView};
use crate::session::{
    copy_places, entry_of, kept_ids, kept_places, lemma_kept, lemma_last_place, lemma_place,
    opened_at, pins_survive_a_restart, restore_read_state, restored_pins, stamps_after,
    writes_down, SessionTab, TemporaryWorkspaceSession, TemporaryWorkspaceSessionEntry,
};
use crate::settings::WorkspaceSettingsOverlay;
use crate::text::same_text;
use crate::text_set::TextSet;
use rustc_hash::FxHashSet;
use vstd::prelude::*;

verus! {

/// What the sharing dialog is for.
#[derive(Clone, Copy, Debug, PartialEq, Eq, Structural)]
pub enum CollabDialogMode {
    Share,
    Join,
}

/// What stands over the documents.
#[derive(Clone, Copy, Debug, PartialEq, Eq)]
pub struct Surfaces {
    pub settings_overlay: Option<WorkspaceSettingsOverlay>,
    pub file_search_overlay: bool,
    pub command_palette: bool,
    /// What the sharing dialog is for, and the panel that it is about.
    pub collaboration_dialog: Option<(CollabDialogMode, Option<PanelId>)>,
    pub revision_dialog: Option<PanelId>,
    pub comment_dialog: Option<PanelId>,
    /// The document whose history stands in its place.
    pub history_takeover: Option<PanelId>,
}

/// What shows round the documents.
#[derive(Clone, Copy, Debug, PartialEq, Eq)]
pub struct Layout {
    pub ribbon_collapsed: bool,
    pub outline_collapsed: bool,
    pub left_nav_mode: LeftNavMode,
    pub active_toolkit_tool: Option<ToolkitTool>,
    /// The width that the left panel comes back with, by the bits of its
    /// number.
    pub restored_nav_width_bits: Option<u32>,
}

/// A window.
#[derive(Debug)]
pub struct Workspace {
    pub panels: OpenPanels,
    /// The files of the panels that have one.
    pub files: Vec<(PanelId, String)>,
    /// The documents whose services run.
    pub document_runtimes: FxHashSet<u128>,
    /// The flows whose services run.
    pub flow_document_runtimes: FxHashSet<u128>,
    pub surfaces: Surfaces,
    pub layout: Layout,
    /// The window keeps the session.
    pub session_owner: bool,
}

/// A window by its values.
#[verifier::ext_equal]
pub struct WorkspaceView {
    pub panels: PanelsView,
    pub files: Seq<(PanelId, Seq<char>)>,
    pub document_runtimes: Set<u128>,
    pub flow_document_runtimes: Set<u128>,
    pub surfaces: Surfaces,
    pub layout: Layout,
    pub session_owner: bool,
}

/// Files by their texts.
pub open spec fn listed_files(files: Seq<(PanelId, String)>) -> Seq<(PanelId, Seq<char>)> {
    Seq::new(files.len(), |i: int| (files[i].0, files[i].1@))
}

impl View for Workspace {
    type V = WorkspaceView;

    open spec fn view(&self) -> WorkspaceView {
        WorkspaceView {
            panels: self.panels@,
            files: listed_files(self.files@),
            document_runtimes: self.document_runtimes@,
            flow_document_runtimes: self.flow_document_runtimes@,
            surfaces: self.surfaces,
            layout: self.layout,
            session_owner: self.session_owner,
        }
    }
}

/// The first panel from `k` on that shows a file.
pub open spec fn panel_of_file(
    files: Seq<(PanelId, Seq<char>)>,
    path: Seq<char>,
    k: int,
) -> Option<PanelId>
    decreases files.len() - k,
{
    if k < 0 || k >= files.len() {
        None
    } else if files[k].1 == path {
        Some(files[k].0)
    } else {
        panel_of_file(files, path, k + 1)
    }
}

/// The first file from `k` on that is a panel's.
pub open spec fn file_of(
    files: Seq<(PanelId, Seq<char>)>,
    id: PanelId,
    k: int,
) -> Option<Seq<char>>
    decreases files.len() - k,
{
    if k < 0 || k >= files.len() {
        None
    } else if files[k].0 == id {
        Some(files[k].1)
    } else {
        file_of(files, id, k + 1)
    }
}

/// The first `k` files without those of a panel.
pub open spec fn other_files(
    files: Seq<(PanelId, Seq<char>)>,
    id: PanelId,
    k: int,
) -> Seq<(PanelId, Seq<char>)>
    decreases k,
{
    if k <= 0 {
        Seq::empty()
    } else if files[k - 1].0 != id {
        other_files(files, id, k - 1).push(files[k - 1])
    } else {
        other_files(files, id, k - 1)
    }
}

/// The files without those of a panel.
pub open spec fn files_without(
    files: Seq<(PanelId, Seq<char>)>,
    id: PanelId,
) -> Seq<(PanelId, Seq<char>)> {
    other_files(files, id, files.len() as int)
}

/// The files with that of a panel, in place of one it had.
pub open spec fn files_with(
    files: Seq<(PanelId, Seq<char>)>,
    id: PanelId,
    path: Seq<char>,
) -> Seq<(PanelId, Seq<char>)> {
    files_without(files, id).push((id, path))
}

fn drop_file(files: &mut Vec<(PanelId, String)>, id: PanelId)
    ensures
        listed_files(final(files)@) == files_without(listed_files(old(files)@), id),
{
    let mut kept: Vec<(PanelId, String)> = Vec::new();
    let mut next: usize = 0;
    assert(listed_files(kept@) =~= Seq::empty());
    while next < files.len()
        invariant
            *files == *old(files),
            next <= files@.len(),
            listed_files(kept@) == other_files(listed_files(files@), id, next as int),
        decreases files@.len() - next,
    {
        if files[next].0 != id {
            let ghost before = kept@;
            let path = files[next].1.clone();
            kept.push((files[next].0, path));
            assert(listed_files(kept@) =~= listed_files(before).push(
                listed_files(files@)[next as int],
            ));
        }
        next = next + 1;
    }
    *files = kept;
}

fn put_file(files: &mut Vec<(PanelId, String)>, id: PanelId, path: &String)
    ensures
        listed_files(final(files)@) == files_with(listed_files(old(files)@), id, path@),
{
    drop_file(files, id);
    let ghost before = files@;
    files.push((id, path.clone()));
    assert(listed_files(files@) =~= listed_files(before).push((id, path@)));
}

/// How opening a file begins.
#[derive(Debug)]
pub enum OpenStart {
    /// The file has a panel, which is on top now; the paragraph that was
    /// asked for shows.
    Shown { panel: PanelId, scroll_to: Option<usize> },
    /// The file is to be loaded.
    Begun(Opening),
}

/// What follows when a panel is removed.
#[derive(Clone, Copy, Debug, PartialEq, Eq, Structural)]
pub struct RemovedPanel {
    /// The panel's document keeps its caches for the next time.
    pub flush_caches: bool,
    pub outline: OutlineFollowUp,
}

/// What becomes of the outline when a panel is removed.
#[derive(Clone, Copy, Debug, PartialEq, Eq, Structural)]
pub enum OutlineFollowUp {
    Keep,
    /// Another panel is on top: its outline shows.
    Refresh,
    /// Nothing is open: it is empty.
    Clear,
}

/// Which inputs have the keyboard, and what the panel on top makes of a
/// command.
#[derive(Clone, Copy, Debug, PartialEq, Eq)]
pub struct KeyboardState {
    pub toolkit_search_focused: bool,
    pub tub_file_search_focused: bool,
    pub file_search_focused: bool,
    pub collaboration_dialog_focused: bool,
    pub search_bar_focused: bool,
    /// The flow's cell is empty.
    pub cell_empty: bool,
    /// The text editor knows the command.
    pub editor_knows: bool,
}

impl WorkspaceView {
    /// Where commands find the window.
    pub open spec fn context(self, keyboard: KeyboardState) -> DispatchContext {
        DispatchContext {
            settings_overlay_open: self.surfaces.settings_overlay is Some,
            file_search_open: self.surfaces.file_search_overlay,
            collaboration_dialog_open: self.surfaces.collaboration_dialog is Some,
            toolkit_search_focused: keyboard.toolkit_search_focused,
            tub_file_search_focused: keyboard.tub_file_search_focused,
            file_search_focused: keyboard.file_search_focused,
            collaboration_dialog_focused: keyboard.collaboration_dialog_focused,
            search_bar_focused: keyboard.search_bar_focused,
            surface: match self.panels.active {
                None => ActiveSurface::Nothing,
                Some((_, PanelKind::Document)) => ActiveSurface::Document,
                Some((_, PanelKind::Flow)) => ActiveSurface::Flow {
                    cell_empty: keyboard.cell_empty,
                },
            },
            active_panel: self.active_id(),
            active_tool: self.layout.active_toolkit_tool,
            editor_knows: keyboard.editor_knows,
        }
    }

    pub open spec fn active_id(self) -> Option<PanelId> {
        match self.panels.active {
            Some((id, _)) => Some(id),
            None => None,
        }
    }

    /// With a document opened whose services run.
    pub open spec fn document_added(self, id: PanelId) -> WorkspaceView {
        WorkspaceView {
            panels: self.panels.document_opened(id),
            document_runtimes: self.document_runtimes.insert(id),
            ..self
        }
    }

    /// With a flow opened whose services run.
    pub open spec fn flow_added(self, id: PanelId) -> WorkspaceView {
        WorkspaceView {
            panels: self.panels.flow_opened(id),
            flow_document_runtimes: self.flow_document_runtimes.insert(id),
            ..self
        }
    }

    /// With a document taken in from another window.
    pub open spec fn document_adopted(
        self,
        id: PanelId,
        path: Option<Seq<char>>,
        runs: bool,
    ) -> WorkspaceView {
        WorkspaceView {
            panels: self.panels.document_opened(id),
            files: match path {
                Some(path) => files_with(self.files, id, path),
                None => self.files,
            },
            document_runtimes: if runs {
                self.document_runtimes.insert(id)
            } else {
                self.document_runtimes
            },
            ..self
        }
    }

    /// With a flow taken in from another window.
    pub open spec fn flow_adopted(
        self,
        id: PanelId,
        path: Option<Seq<char>>,
        runs: bool,
    ) -> WorkspaceView {
        WorkspaceView {
            panels: self.panels.flow_opened(id),
            files: match path {
                Some(path) => files_with(self.files, id, path),
                None => self.files,
            },
            flow_document_runtimes: if runs {
                self.flow_document_runtimes.insert(id)
            } else {
                self.flow_document_runtimes
            },
            ..self
        }
    }

    /// With a panel removed.
    pub open spec fn panel_removed(self, id: PanelId) -> WorkspaceView {
        WorkspaceView {
            panels: self.panels.removed(id),
            files: files_without(self.files, id),
            document_runtimes: self.document_runtimes.remove(id),
            flow_document_runtimes: self.flow_document_runtimes.remove(id),
            ..self
        }
    }

    /// The panels are sound, and no file or service is that of a panel that
    /// is not open.
    pub open spec fn sound(self) -> bool {
        &&& self.panels.sound()
        &&& forall|i: int|
            0 <= i < self.files.len() ==> self.panels.is_open((#[trigger] self.files[i]).0)
        &&& forall|id: u128| #[trigger]
            self.document_runtimes.contains(id) ==> self.panels.documents.contains(id)
        &&& forall|id: u128| #[trigger]
            self.flow_document_runtimes.contains(id) ==> self.panels.flows.contains(id)
    }
}

/// A window with nothing open.
pub open spec fn new_window(session_owner: bool) -> WorkspaceView {
    WorkspaceView {
        panels: PanelsView {
            documents: Seq::empty(),
            flows: Seq::empty(),
            active: None,
            pinned: Seq::empty(),
            speech: None,
            pending_authority: Set::empty(),
        },
        files: Seq::empty(),
        document_runtimes: Set::empty(),
        flow_document_runtimes: Set::empty(),
        surfaces: Surfaces {
            settings_overlay: None,
            file_search_overlay: false,
            command_palette: false,
            collaboration_dialog: None,
            revision_dialog: None,
            comment_dialog: None,
            history_takeover: None,
        },
        layout: Layout {
            ribbon_collapsed: false,
            outline_collapsed: false,
            left_nav_mode: LeftNavMode::Outline,
            active_toolkit_tool: None,
            restored_nav_width_bits: None,
        },
        session_owner,
    }
}

impl Workspace {
    /// A window with nothing open.
    pub fn new(session_owner: bool) -> (workspace: Self)
        ensures
            workspace@ == new_window(session_owner),
            workspace@.sound(),
    {
        let workspace = Workspace {
            panels: OpenPanels::new(),
            files: Vec::new(),
            document_runtimes: empty_set(),
            flow_document_runtimes: empty_set(),
            surfaces: Surfaces {
                settings_overlay: None,
                file_search_overlay: false,
                command_palette: false,
                collaboration_dialog: None,
                revision_dialog: None,
                comment_dialog: None,
                history_takeover: None,
            },
            layout: Layout {
                ribbon_collapsed: false,
                outline_collapsed: false,
                left_nav_mode: LeftNavMode::Outline,
                active_toolkit_tool: None,
                restored_nav_width_bits: None,
            },
            session_owner,
        };
        assert(listed_files(workspace.files@) =~= Seq::empty());
        workspace
    }

    /// Opens a blank document on top.
    pub fn new_document(&mut self, id: PanelId)
        ensures
            final(self)@ == old(self)@.document_added(id),
    {
        self.panels.create_document_panel(id);
        set_insert(&mut self.document_runtimes, id);
    }

    /// Opens a blank flow on top.
    pub fn new_flow(&mut self, id: PanelId)
        ensures
            final(self)@ == old(self)@.flow_added(id),
    {
        self.panels.create_flow_panel(id);
        set_insert(&mut self.flow_document_runtimes, id);
    }

    /// The panel that shows a file.
    pub fn panel_for_file(&self, path: &str) -> (panel: Option<PanelId>)
        ensures
            panel == panel_of_file(self@.files, path@, 0),
    {
        let mut next: usize = 0;
        while next < self.files.len()
            invariant
                next <= self.files@.len(),
                panel_of_file(self@.files, path@, 0) == panel_of_file(
                    self@.files,
                    path@,
                    next as int,
                ),
            decreases self.files@.len() - next,
        {
            assert(self@.files[next as int].1 == self.files@[next as int].1@);
            if same_text(self.files[next].1.as_str(), path) {
                return Some(self.files[next].0);
            }
            next = next + 1;
        }
        None
    }

    /// Begins to open a file. One that has a panel here gets no second one:
    /// its panel comes on top.
    pub fn open_document_path_with_target(&mut self, path: String, target: Option<usize>) -> (start:
        OpenStart)
        ensures
            begins_as(old(self)@, final(self)@, path@, target, start),
    {
        match self.panel_for_file(path.as_str()) {
            Some(panel) => {
                self.panels.activate_document_id(panel);
                OpenStart::Shown { panel, scroll_to: target }
            },
            None => OpenStart::Begun(Opening::new(path, target)),
        }
    }

    /// Begins to open a file.
    pub fn open_document_path(&mut self, path: String) -> (start: OpenStart)
        ensures
            begins_as(old(self)@, final(self)@, path@, None, start),
    {
        self.open_document_path_with_target(path, None)
    }

    /// Begins to open a file at a paragraph.
    pub fn open_document_path_at_paragraph(&mut self, path: String, paragraph_ix: usize) -> (start:
        OpenStart)
        ensures
            begins_as(old(self)@, final(self)@, path@, Some(paragraph_ix), start),
    {
        self.open_document_path_with_target(path, Some(paragraph_ix))
    }

    /// Begins to open the demonstration document.
    pub fn open_demo_document(&mut self) -> (start: OpenStart)
        ensures
            begins_as(old(self)@, final(self)@, "data/demo.db8"@, None, start),
    {
        self.open_document_path(String::from_str("data/demo.db8"))
    }

    /// The files that were picked: the first opens, and none where nothing
    /// was picked.
    pub fn prompt_open_document(&mut self, picked: Option<&Vec<String>>) -> (start: Option<
        OpenStart,
    >)
        ensures
            match (picked, start) {
                (Some(paths), Some(start)) => paths@.len() > 0 && begins_as(
                    old(self)@,
                    final(self)@,
                    paths@[0]@,
                    None,
                    start,
                ),
                (Some(paths), None) => paths@.len() == 0 && *final(self) == *old(self),
                (None, None) => *final(self) == *old(self),
                (None, Some(_)) => false,
            },
    {
        match picked {
            None => None,
            Some(paths) => {
                if paths.len() == 0 {
                    return None;
                }
                let path = paths[0].clone();
                let start = self.open_document_path(path);
                Some(start)
            },
        }
    }

    /// A quick picture of a file that is being opened is there, or is not: a
    /// panel shows it before the document can be edited.
    pub fn show_quick_picture(
        &mut self,
        opening: &mut Opening,
        has_picture: bool,
        id: PanelId,
    ) -> (scroll_to: Option<usize>)
        ensures
            if has_picture {
                &&& final(self)@ == (WorkspaceView {
                    panels: PanelsView {
                        pending_authority: old(self)@.panels.pending_authority.insert(id),
                        ..old(self)@.panels.document_opened(id)
                    },
                    files: files_with(old(self)@.files, id, old(opening).path@),
                    ..old(self)@
                })
                &&& *final(opening) == (Opening { pending: Some(id), ..*old(opening) })
                &&& scroll_to == old(opening).target
            } else {
                &&& *final(self) == *old(self)
                &&& *final(opening) == *old(opening)
                &&& scroll_to is None
            },
    {
        let scroll_to = opening.quick_picture(&mut self.panels, has_picture, id);
        if has_picture {
            put_file(&mut self.files, id, &opening.path);
        }
        scroll_to
    }

    /// A file has loaded. The panel it goes into is its own, except where the
    /// file was imported: that is never where its document is saved.
    pub fn finish_opening(
        &mut self,
        opening: &Opening,
        outcome: LoadOutcome,
        keeps_path: bool,
        id: PanelId,
    ) -> (end: (OpenEnd, Option<usize>))
        ensures
            crate::opening::ends_as(
                *opening,
                old(self)@.panels,
                final(self)@.panels,
                outcome,
                id,
                end.0,
            ),
            end.1 == (if outcome is Document {
                opening.target
            } else {
                None
            }),
            final(self)@ == opened_view(
                old(self)@,
                final(self)@.panels,
                opening.path@,
                keeps_path,
                end.0,
            ),
    {
        let end = opening.finish(&mut self.panels, outcome, id);
        match &end.0 {
            OpenEnd::Attached(panel) | OpenEnd::NewDocument(panel) => {
                if keeps_path {
                    put_file(&mut self.files, *panel, &opening.path);
                } else {
                    drop_file(&mut self.files, *panel);
                }
                set_insert(&mut self.document_runtimes, *panel);
            },
            OpenEnd::NewFlow(panel) => {
                put_file(&mut self.files, *panel, &opening.path);
                set_insert(&mut self.flow_document_runtimes, *panel);
            },
            _ => {},
        }
        end
    }

    /// Removes a panel, its file and its services.
    pub fn remove_document_panel(&mut self, id: PanelId) -> (follow_up: RemovedPanel)
        ensures
            final(self)@ == old(self)@.panel_removed(id),
            follow_up == (RemovedPanel {
                flush_caches: old(self)@.document_runtimes.contains(id),
                outline: if final(self)@.panels.active is None {
                    OutlineFollowUp::Clear
                } else if old(self)@.active_id() == Some(id) {
                    OutlineFollowUp::Refresh
                } else {
                    OutlineFollowUp::Keep
                },
            }),
    {
        let flush_caches = set_contains(&self.document_runtimes, id);
        set_remove(&mut self.document_runtimes, id);
        set_remove(&mut self.flow_document_runtimes, id);
        drop_file(&mut self.files, id);
        let was_active = self.panels.remove_document_panel(id);
        let outline = if self.panels.active.is_none() {
            OutlineFollowUp::Clear
        } else if was_active {
            OutlineFollowUp::Refresh
        } else {
            OutlineFollowUp::Keep
        };
        RemovedPanel { flush_caches, outline }
    }

    /// The file of a panel.
    pub fn file_of_panel(&self, id: PanelId) -> (path: Option<String>)
        ensures
            match path {
                Some(path) => file_of(self@.files, id, 0) == Some(path@),
                None => file_of(self@.files, id, 0) is None,
            },
    {
        let mut next: usize = 0;
        while next < self.files.len()
            invariant
                next <= self.files@.len(),
                file_of(self@.files, id, 0) == file_of(self@.files, id, next as int),
            decreases self.files@.len() - next,
        {
            if self.files[next].0 == id {
                let path = self.files[next].1.clone();
                return Some(path);
            }
            next = next + 1;
        }
        None
    }

    /// Takes in a document from another window, on top, with its file and
    /// its services.
    pub fn adopt_document_panel(&mut self, id: PanelId, path: Option<String>, runs: bool)
        ensures
            final(self)@ == old(self)@.document_adopted(
                id,
                match path {
                    Some(path) => Some(path@),
                    None => None,
                },
                runs,
            ),
    {
        self.panels.create_document_panel(id);
        if let Some(path) = path {
            put_file(&mut self.files, id, &path);
        }
        if runs {
            set_insert(&mut self.document_runtimes, id);
        }
    }

    /// Takes in a flow from another window, on top, with its file and its
    /// services.
    pub fn adopt_flow_panel(&mut self, id: PanelId, path: Option<String>, runs: bool)
        ensures
            final(self)@ == old(self)@.flow_adopted(
                id,
                match path {
                    Some(path) => Some(path@),
                    None => None,
                },
                runs,
            ),
    {
        self.panels.create_flow_panel(id);
        if let Some(path) = path {
            put_file(&mut self.files, id, &path);
        }
        if runs {
            set_insert(&mut self.flow_document_runtimes, id);
        }
    }

    /// Whether a flow's services run.
    pub fn flow_services_run(&self, panel: PanelId) -> (b: bool)
        ensures
            b == self@.flow_document_runtimes.contains(panel),
    {
        set_contains(&self.flow_document_runtimes, panel)
    }

    /// Where a command goes in this window.
    pub fn handle_window_keybinding(&self, command: CommandId, keyboard: KeyboardState) -> (target:
        Dispatch)
        ensures
            target == crate::commands::dispatch(command, self@.context(keyboard)),
    {
        let context = DispatchContext {
            settings_overlay_open: self.surfaces.settings_overlay.is_some(),
            file_search_open: self.surfaces.file_search_overlay,
            collaboration_dialog_open: self.surfaces.collaboration_dialog.is_some(),
            toolkit_search_focused: keyboard.toolkit_search_focused,
            tub_file_search_focused: keyboard.tub_file_search_focused,
            file_search_focused: keyboard.file_search_focused,
            collaboration_dialog_focused: keyboard.collaboration_dialog_focused,
            search_bar_focused: keyboard.search_bar_focused,
            surface: match self.panels.active {
                None => ActiveSurface::Nothing,
                Some((_, PanelKind::Document)) => ActiveSurface::Document,
                Some((_, PanelKind::Flow)) => ActiveSurface::Flow {
                    cell_empty: keyboard.cell_empty,
                },
            },
            active_panel: self.panels.close_active_document(),
            active_tool: self.layout.active_toolkit_tool,
            editor_knows: keyboard.editor_knows,
        };
        context.handle_window_keybinding(command)
    }
}

impl Workspace {
    /// Shows the palette, and says whether it is a new one: one that shows
    /// already only gets the keyboard.
    pub fn open_command_palette(&mut self) -> (fresh: bool)
        ensures
            fresh == !old(self).surfaces.command_palette,
            final(self)@ == (WorkspaceView {
                surfaces: Surfaces { command_palette: true, ..old(self).surfaces },
                ..old(self)@
            }),
    {
        let fresh = !self.surfaces.command_palette;
        self.surfaces.command_palette = true;
        fresh
    }

    pub fn close_command_palette(&mut self)
        ensures
            final(self)@ == (WorkspaceView {
                surfaces: Surfaces { command_palette: false, ..old(self).surfaces },
                ..old(self)@
            }),
    {
        self.surfaces.command_palette = false;
    }

    /// Shows the file search, and says whether it is a new one: one that
    /// shows already only gets the keyboard.
    pub fn open_file_search_overlay(&mut self) -> (fresh: bool)
        ensures
            fresh == !old(self).surfaces.file_search_overlay,
            final(self)@ == (WorkspaceView {
                surfaces: Surfaces { file_search_overlay: true, ..old(self).surfaces },
                ..old(self)@
            }),
    {
        let fresh = !self.surfaces.file_search_overlay;
        self.surfaces.file_search_overlay = true;
        fresh
    }

    pub fn close_file_search_overlay(&mut self)
        ensures
            final(self)@ == (WorkspaceView {
                surfaces: Surfaces { file_search_overlay: false, ..old(self).surfaces },
                ..old(self)@
            }),
    {
        self.surfaces.file_search_overlay = false;
    }

    /// Shows the sharing dialog for the panel on top, and says whether it
    /// stands in place of one that showed.
    pub fn open_collaboration_dialog(&mut self) -> (replaces: bool)
        ensures
            replaces == old(self).surfaces.collaboration_dialog is Some,
            final(self)@ == old(self)@.dialog_opened(CollabDialogMode::Share),
    {
        self.show_collaboration_dialog(CollabDialogMode::Share)
    }

    /// Shows the joining dialog for the panel on top, and says whether it
    /// stands in place of one that showed.
    pub fn open_join_collaboration_dialog(&mut self) -> (replaces: bool)
        ensures
            replaces == old(self).surfaces.collaboration_dialog is Some,
            final(self)@ == old(self)@.dialog_opened(CollabDialogMode::Join),
    {
        self.show_collaboration_dialog(CollabDialogMode::Join)
    }

    fn show_collaboration_dialog(&mut self, mode: CollabDialogMode) -> (replaces: bool)
        ensures
            replaces == old(self).surfaces.collaboration_dialog is Some,
            final(self)@ == old(self)@.dialog_opened(mode),
    {
        let replaces = self.surfaces.collaboration_dialog.is_some();
        let panel = open_collaboration_dialog_with_mode(&self.panels);
        self.surfaces.collaboration_dialog = Some((mode, panel));
        replaces
    }

    pub fn close_collaboration_dialog(&mut self)
        ensures
            final(self)@ == (WorkspaceView {
                surfaces: Surfaces { collaboration_dialog: None, ..old(self).surfaces },
                ..old(self)@
            }),
    {
        self.surfaces.collaboration_dialog = None;
    }

    /// Whether a document's revisions can be asked for: its services run.
    pub fn request_document_revisions(&self, panel: PanelId) -> (b: bool)
        ensures
            b == self@.document_runtimes.contains(panel),
    {
        set_contains(&self.document_runtimes, panel)
    }

    /// Shows the revisions of the panel on top: which it is, whether they
    /// were asked for, and whether the dialog stands in place of one that
    /// showed. Nothing shows where nothing is open.
    pub fn open_revision_dialog(&mut self) -> (opened: Option<(PanelId, bool, bool)>)
        ensures
            match old(self)@.active_id() {
                Some(panel) => opened == Some(
                    (
                        panel,
                        old(self)@.document_runtimes.contains(panel),
                        old(self).surfaces.revision_dialog is Some,
                    ),
                ) && final(self)@ == (WorkspaceView {
                    surfaces: Surfaces { revision_dialog: Some(panel), ..old(self).surfaces },
                    ..old(self)@
                }),
                None => opened is None && *final(self) == *old(self),
            },
    {
        match self.panels.active {
            None => None,
            Some((panel, _)) => {
                let requested = self.request_document_revisions(panel);
                let replaces = self.surfaces.revision_dialog.is_some();
                self.surfaces.revision_dialog = Some(panel);
                Some((panel, requested, replaces))
            },
        }
    }

    /// The dialog with the revisions was closed.
    pub fn close_revision_dialog(&mut self)
        ensures
            final(self)@ == (WorkspaceView {
                surfaces: Surfaces { revision_dialog: None, ..old(self).surfaces },
                ..old(self)@
            }),
    {
        self.surfaces.revision_dialog = None;
    }

    /// Shows the comments of the document on top: which it is, and whether
    /// the dialog stands in place of one that showed. Nothing shows where no
    /// document is on top or its services do not run.
    pub fn open_comment_dialog(&mut self) -> (opened: Option<(PanelId, bool)>)
        ensures
            match old(self)@.panels.active {
                Some((panel, PanelKind::Document)) if old(self)@.document_runtimes.contains(
                    panel,
                ) => opened == Some((panel, old(self).surfaces.comment_dialog is Some)) && final(self)@ == (WorkspaceView {
                    surfaces: Surfaces { comment_dialog: Some(panel), ..old(self).surfaces },
                    ..old(self)@
                }),
                _ => opened is None && *final(self) == *old(self),
            },
    {
        match self.panels.active {
            Some((panel, PanelKind::Document)) => {
                if !set_contains(&self.document_runtimes, panel) {
                    return None;
                }
                let replaces = self.surfaces.comment_dialog.is_some();
                self.surfaces.comment_dialog = Some(panel);
                Some((panel, replaces))
            },
            _ => None,
        }
    }

    /// The dialog with the comments was closed.
    pub fn close_comment_dialog(&mut self)
        ensures
            final(self)@ == (WorkspaceView {
                surfaces: Surfaces { comment_dialog: None, ..old(self).surfaces },
                ..old(self)@
            }),
    {
        self.surfaces.comment_dialog = None;
    }

    /// Opens the history of the document on top, where its services run; the
    /// same command leaves a history that shows.
    pub fn open_history_takeover(&mut self) -> (opened: Option<PanelId>)
        ensures
            opened == old(self)@.history_after_command(),
            final(self)@ == (WorkspaceView {
                surfaces: Surfaces { history_takeover: opened, ..old(self).surfaces },
                ..old(self)@
            }),
    {
        let opened = if self.surfaces.history_takeover.is_some() {
            None
        } else {
            match self.panels.active {
                Some((panel, PanelKind::Document)) => if set_contains(
                    &self.document_runtimes,
                    panel,
                ) {
                    Some(panel)
                } else {
                    None
                },
                _ => None,
            }
        };
        self.surfaces.history_takeover = opened;
        opened
    }

    /// Whether a document's revision can be opened on its own: its services
    /// run.
    pub fn open_document_revision(&self, panel: PanelId) -> (b: bool)
        ensures
            b == self@.document_runtimes.contains(panel),
    {
        set_contains(&self.document_runtimes, panel)
    }

    /// A revision was forked, or was not: it opens on top under its title, as
    /// a branch that was never saved.
    pub fn revision_forked(&mut self, fork: RevisionFork, revision_id: u128, id: PanelId) -> (title:
        Option<String>)
        ensures
            match title {
                Some(title) => fork == RevisionFork::Started && title@ == "Revision "@
                    + crate::text::hexadecimal(revision_id as nat) && final(self)@ == old(self)@.document_added(id),
                None => fork != RevisionFork::Started && *final(self) == *old(self),
            },
    {
        match fork {
            RevisionFork::Started => {
                self.new_document(id);
                Some(crate::panels::revision_title(revision_id))
            },
            _ => None,
        }
    }

    /// Which kind of session the panel on top starts.
    pub fn start_collaboration_on_active_document(&self) -> (kind: Option<(PanelId, PanelKind)>)
        ensures
            kind == self@.session_kind(),
    {
        match self.panels.active {
            None => None,
            Some((id, _)) => {
                let kind = start_collaboration_on_document(
                    &self.panels,
                    id,
                    set_contains(&self.document_runtimes, id),
                    set_contains(&self.flow_document_runtimes, id),
                );
                match kind {
                    Some(kind) => Some((id, kind)),
                    None => None,
                }
            },
        }
    }

    /// A joined document opens on top, without a file, once its services have
    /// started.
    pub fn add_joined_collaboration_panel(&mut self, id: PanelId, started: Result<(), String>) -> (
        result: Result<(), JoinFailure>)
        ensures
            match started {
                Ok(_) => result is Ok && final(self)@ == old(self)@.document_added(id),
                Err(error) => result == Err::<(), JoinFailure>(JoinFailure::RuntimeStart(error))
                    && *final(self) == *old(self),
            },
    {
        match started {
            Ok(_) => {
                self.new_document(id);
                Ok(())
            },
            Err(error) => Err(JoinFailure::RuntimeStart(error)),
        }
    }

    /// A joined flow opens on top, without a file.
    pub fn add_joined_collaboration_flow_panel(&mut self, id: PanelId)
        ensures
            final(self)@ == old(self)@.flow_added(id),
    {
        self.new_flow(id);
    }

    /// The panel of a joined session was attached to it, or was not. Says
    /// whether the dialog closes with it; the panel stays either way.
    pub fn joined_session_attached(&mut self, result: Result<(), String>) -> (end: Result<
        bool,
        JoinFailure,
    >)
        ensures
            match result {
                Ok(_) => end == Ok::<bool, JoinFailure>(
                    old(self).surfaces.collaboration_dialog is Some,
                ) && final(self)@ == (WorkspaceView {
                    surfaces: Surfaces { collaboration_dialog: None, ..old(self).surfaces },
                    ..old(self)@
                }),
                Err(error) => end == Err::<bool, JoinFailure>(JoinFailure::Attachment(error))
                    && *final(self) == *old(self),
            },
    {
        match result {
            Ok(_) => {
                let closes = self.surfaces.collaboration_dialog.is_some();
                self.close_collaboration_dialog();
                Ok(closes)
            },
            Err(error) => Err(JoinFailure::Attachment(error)),
        }
    }
}

/// What came of forking a revision.
#[derive(Clone, Copy, Debug, PartialEq, Eq, Structural)]
pub enum RevisionFork {
    Started,
    /// The service answered without one.
    Missing,
    /// It could not be made, or its services did not start.
    Failed,
}

impl WorkspaceView {
    /// With the sharing dialog open over the panel on top.
    pub open spec fn dialog_opened(self, mode: CollabDialogMode) -> WorkspaceView {
        WorkspaceView {
            surfaces: Surfaces {
                collaboration_dialog: Some((mode, self.active_id())),
                ..self.surfaces
            },
            ..self
        }
    }
}

/// An entry of the session that came back.
#[derive(Clone, Copy, Debug, PartialEq, Eq)]
pub struct RestoredTab {
    pub id: PanelId,
    pub kind: PanelKind,
    /// The file is where the panel saves.
    pub keeps_path: bool,
}

/// What a document that came back shows.
#[derive(Debug)]
pub struct RestoredDocument {
    pub id: PanelId,
    /// The headings that are folded; none were written down where none are.
    pub collapsed_outline_items: Option<Vec<usize>>,
    pub outline_scrolled_paragraph: Option<usize>,
    /// The paragraph to show.
    pub scroll_to: Option<usize>,
}

/// What the window's parts take from a session.
#[derive(Debug)]
pub struct RestoredSession {
    pub documents: Vec<RestoredDocument>,
    pub toolkit_filter: Option<String>,
}

/// The window with the first `k` entries opened that came back.
pub open spec fn tabs_restored(
    view: WorkspaceView,
    entries: Seq<TemporaryWorkspaceSessionEntry>,
    opened: Seq<Option<RestoredTab>>,
    k: int,
) -> WorkspaceView
    decreases k,
{
    if k <= 0 {
        view
    } else {
        let before = tabs_restored(view, entries, opened, k - 1);
        match opened[k - 1] {
            None => before,
            Some(tab) => {
                let added = match tab.kind {
                    PanelKind::Document => before.document_added(tab.id),
                    PanelKind::Flow => before.flow_added(tab.id),
                };
                if tab.keeps_path {
                    WorkspaceView {
                        files: files_with(before.files, tab.id, entries[k - 1].path@),
                        ..added
                    }
                } else {
                    added
                }
            },
        }
    }
}

/// The panels that the entries came back as.
pub open spec fn opened_ids(opened: Seq<Option<RestoredTab>>) -> Seq<Option<PanelId>> {
    Seq::new(
        opened.len(),
        |i: int|
            match opened[i] {
                Some(tab) => Some(tab.id),
                None => None,
            },
    )
}

/// The places of the documents among the first `k` entries that came back.
pub open spec fn restored_documents(opened: Seq<Option<RestoredTab>>, k: int) -> Seq<int>
    decreases k,
{
    if k <= 0 {
        Seq::empty()
    } else if opened[k - 1] is Some && (opened[k - 1]->0).kind == PanelKind::Document {
        restored_documents(opened, k - 1).push(k - 1)
    } else {
        restored_documents(opened, k - 1)
    }
}

/// A document shows what its entry says.
pub open spec fn restored_as(
    document: RestoredDocument,
    entry: TemporaryWorkspaceSessionEntry,
    tab: Option<RestoredTab>,
) -> bool {
    &&& tab is Some && document.id == (tab->0).id
    &&& match document.collapsed_outline_items {
        Some(items) => items@.len() > 0 && items@ == entry.collapsed_outline_items@,
        None => entry.collapsed_outline_items@.len() == 0,
    }
    &&& document.outline_scrolled_paragraph == entry.outline_scrolled_paragraph
    &&& document.scroll_to == entry.viewport_paragraph
}

/// The set with the first `k` texts of a list.
pub open spec fn texts_added(set: Set<Seq<char>>, texts: Seq<String>, k: int) -> Set<Seq<char>>
    decreases k,
{
    if k <= 0 {
        set
    } else {
        texts_added(set, texts, k - 1).insert(texts[k - 1]@)
    }
}

/// The window once its session has come back.
pub open spec fn session_restored(
    view: WorkspaceView,
    session: TemporaryWorkspaceSession,
    opened: Seq<Option<RestoredTab>>,
) -> WorkspaceView {
    let tabs = tabs_restored(view, session.entries@, opened, opened.len() as int);
    let ids = opened_ids(opened);
    let shown = match opened_at(ids, session.active_index) {
        Some(id) => tabs.panels.activated(id),
        None => tabs.panels,
    };
    WorkspaceView {
        panels: PanelsView {
            pinned: restored_pins(ids, session.pinned_entry_indices@, ids.len() as int),
            speech: opened_at(ids, session.speech_entry_index),
            ..shown
        },
        layout: Layout {
            ribbon_collapsed: session.ribbon_collapsed,
            outline_collapsed: session.outline_collapsed,
            left_nav_mode: if session.left_nav_tub {
                LeftNavMode::Tub
            } else {
                LeftNavMode::Outline
            },
            active_toolkit_tool: if session.tub_tool_open {
                Some(ToolkitTool::Tub)
            } else {
                view.layout.active_toolkit_tool
            },
            restored_nav_width_bits: session.nav_width_bits,
        },
        ..tabs
    }
}

impl Workspace {
    /// Brings a session back: its entries in order, as far as they loaded,
    /// then what was on top, pinned, spoken from, folded and open round the
    /// documents.
    pub fn restore_temporary_workspace_session(
        &mut self,
        session: TemporaryWorkspaceSession,
        opened: &Vec<Option<RestoredTab>>,
        expanded_dirs: &mut TextSet,
        read_state: &mut CommentReadState,
    ) -> (restored: RestoredSession)
        requires
            opened@.len() == session.entries@.len(),
        ensures
            final(self)@ == session_restored(old(self)@, session, opened@),
            final(expanded_dirs)@ == texts_added(
                old(expanded_dirs)@,
                session.tub_expanded_dirs@,
                session.tub_expanded_dirs@.len() as int,
            ),
            final(read_state).last_seen@ == stamps_after(
                old(read_state).last_seen@,
                session.comment_last_seen@,
                session.comment_last_seen@.len() as int,
            ),
            restored.toolkit_filter == session.toolkit_filter,
            restored.documents@.len() == restored_documents(opened@, opened@.len() as int).len(),
            forall|i: int|
                0 <= i < restored.documents@.len() ==> {
                    let place = restored_documents(opened@, opened@.len() as int)[i];
                    restored_as(
                        #[trigger] restored.documents@[i],
                        session.entries@[place],
                        opened@[place],
                    )
                },
    {
        let ghost given = self@;
        let mut ids: Vec<Option<PanelId>> = Vec::new();
        let mut documents: Vec<RestoredDocument> = Vec::new();
        let mut next: usize = 0;
        while next < opened.len()
            invariant
                opened@.len() == session.entries@.len(),
                next <= opened@.len(),
                given == old(self)@,
                self@ == tabs_restored(given, session.entries@, opened@, next as int),
                self@.layout == given.layout,
                ids@ == opened_ids(opened@).take(next as int),
                documents@.len() == restored_documents(opened@, next as int).len(),
                forall|i: int|
                    0 <= i < documents@.len() ==> {
                        let place = restored_documents(opened@, next as int)[i];
                        restored_as(
                            #[trigger] documents@[i],
                            session.entries@[place],
                            opened@[place],
                        )
                    },
            decreases opened@.len() - next,
        {
            let entry = &session.entries[next];
            match opened[next] {
                None => {
                    ids.push(None);
                },
                Some(tab) => {
                    ids.push(Some(tab.id));
                    if tab.keeps_path {
                        put_file(&mut self.files, tab.id, &entry.path);
                    }
                    match tab.kind {
                        PanelKind::Document => {
                            self.new_document(tab.id);
                            documents.push(restored_document(tab, entry));
                        },
                        PanelKind::Flow => {
                            self.new_flow(tab.id);
                        },
                    }
                },
            }
            next = next + 1;
            assert(ids@ =~= opened_ids(opened@).take(next as int));
            assert(self@ =~= tabs_restored(given, session.entries@, opened@, next as int));
        }
        assert(ids@ =~= opened_ids(opened@));
        let marks = session.restored_marks(&ids);
        if let Some(active) = marks.active {
            self.panels.activate_document_id(active);
        }
        self.panels.pinned = marks.pinned;
        self.panels.speech = marks.speech;
        self.layout.ribbon_collapsed = session.ribbon_collapsed;
        self.layout.outline_collapsed = session.outline_collapsed;
        self.layout.left_nav_mode =
        if session.left_nav_tub {
            LeftNavMode::Tub
        } else {
            LeftNavMode::Outline
        };
        self.layout.restored_nav_width_bits = session.nav_width_bits;
        if session.tub_tool_open {
            self.layout.active_toolkit_tool = Some(ToolkitTool::Tub);
        }
        assert(self@ =~= session_restored(given, session, opened@));
        let mut at: usize = 0;
        while at < session.tub_expanded_dirs.len()
            invariant
                at <= session.tub_expanded_dirs@.len(),
                expanded_dirs@ == texts_added(
                    old(expanded_dirs)@,
                    session.tub_expanded_dirs@,
                    at as int,
                ),
            decreases session.tub_expanded_dirs@.len() - at,
        {
            expanded_dirs.insert(session.tub_expanded_dirs[at].as_str());
            at = at + 1;
        }
        restore_read_state(read_state, &session.comment_last_seen);
        RestoredSession { documents, toolkit_filter: session.toolkit_filter }
    }

    /// Folds the ribbon, or unfolds it.
    pub fn toggle_ribbon(&mut self)
        ensures
            final(self)@ == (WorkspaceView {
                layout: Layout {
                    ribbon_collapsed: !old(self).layout.ribbon_collapsed,
                    ..old(self).layout
                },
                ..old(self)@
            }),
    {
        self.layout.ribbon_collapsed = !self.layout.ribbon_collapsed;
    }

    /// Opens a tool of the rail, or closes it where it is the one that shows.
    pub fn toggle_toolkit_tool(&mut self, tool: ToolkitTool)
        ensures
            final(self)@ == old(self)@.tool_toggled(tool),
    {
        let shows = match self.layout.active_toolkit_tool {
            Some(other) => other == tool,
            None => false,
        };
        self.layout.active_toolkit_tool =
        if shows {
            None
        } else {
            Some(tool)
        };
    }

    /// Shows the comments in the rail, also before the document's services
    /// run.
    pub fn open_comments_panel(&mut self)
        ensures
            final(self)@ == (WorkspaceView {
                layout: Layout {
                    active_toolkit_tool: Some(ToolkitTool::Comments),
                    ..old(self).layout
                },
                ..old(self)@
            }),
    {
        self.layout.active_toolkit_tool = Some(ToolkitTool::Comments);
    }

    /// Swaps the outline and the tub in the left panel.
    pub fn swap_left_nav(&mut self)
        ensures
            final(self)@ == (WorkspaceView {
                layout: Layout {
                    left_nav_mode: match old(self).layout.left_nav_mode {
                        LeftNavMode::Outline => LeftNavMode::Tub,
                        LeftNavMode::Tub => LeftNavMode::Outline,
                    },
                    ..old(self).layout
                },
                ..old(self)@
            }),
    {
        self.layout.left_nav_mode = self.layout.left_nav_mode.swapped();
    }
}

fn restored_document(tab: RestoredTab, entry: &TemporaryWorkspaceSessionEntry) -> (document:
    RestoredDocument)
    ensures
        restored_as(document, *entry, Some(tab)),
{
    let collapsed_outline_items = if entry.collapsed_outline_items.len() > 0 {
        Some(copy_places(&entry.collapsed_outline_items))
    } else {
        None
    };
    RestoredDocument {
        id: tab.id,
        collapsed_outline_items,
        outline_scrolled_paragraph: entry.outline_scrolled_paragraph,
        scroll_to: entry.viewport_paragraph,
    }
}

/// How opening a file begins: where it has a panel, that is on top now and
/// nothing else changes.
pub open spec fn begins_as(
    before: WorkspaceView,
    after: WorkspaceView,
    path: Seq<char>,
    target: Option<usize>,
    start: OpenStart,
) -> bool {
    match panel_of_file(before.files, path, 0) {
        Some(panel) => {
            &&& start == (OpenStart::Shown { panel, scroll_to: target })
            &&& after == (WorkspaceView { panels: before.panels.activated(panel), ..before })
        },
        None => {
            &&& start matches OpenStart::Begun(opening) && opening.path@ == path && opening.target
                == target && opening.pending is None
            &&& after == before
        },
    }
}

/// A window once a file has opened, given its panels.
pub open spec fn opened_view(
    before: WorkspaceView,
    panels: PanelsView,
    path: Seq<char>,
    keeps_path: bool,
    end: OpenEnd,
) -> WorkspaceView {
    match end {
        OpenEnd::Attached(panel) | OpenEnd::NewDocument(panel) => WorkspaceView {
            panels,
            files: if keeps_path {
                files_with(before.files, panel, path)
            } else {
                files_without(before.files, panel)
            },
            document_runtimes: before.document_runtimes.insert(panel),
            ..before
        },
        OpenEnd::NewFlow(panel) => WorkspaceView {
            panels,
            files: files_with(before.files, panel, path),
            flow_document_runtimes: before.flow_document_runtimes.insert(panel),
            ..before
        },
        _ => WorkspaceView { panels, ..before },
    }
}

/// A file that is open gets no second panel: opening it again puts its panel
/// on top and opens none.
pub proof fn an_open_file_gets_no_second_panel(
    before: WorkspaceView,
    after: WorkspaceView,
    path: Seq<char>,
    target: Option<usize>,
    start: OpenStart,
    i: int,
)
    requires
        before.sound(),
        begins_as(before, after, path, target, start),
        0 <= i < before.files.len(),
        before.files[i].1 == path,
    ensures
        start is Shown,
        after.panels.documents == before.panels.documents,
        after.panels.flows == before.panels.flows,
        after.active_id() == panel_of_file(before.files, path, 0),
        after.sound(),
{
    lemma_panel_of_file(before.files, path, 0, i);
    let panel = panel_of_file(before.files, path, 0)->0;
    crate::panels::marking_keeps_the_window_sound(before.panels, panel);
}

pub(crate) proof fn lemma_panel_of_file(files: Seq<(PanelId, Seq<char>)>, path: Seq<char>, k: int, i: int)
    requires
        0 <= k <= i < files.len(),
        files[i].1 == path,
    ensures
        panel_of_file(files, path, k) is Some,
        exists|j: int|
            0 <= j < files.len() && (#[trigger] files[j]).0 == panel_of_file(files, path, k)->0
                && files[j].1 == path,
    decreases i - k,
{
    if files[k].1 != path {
        lemma_panel_of_file(files, path, k + 1, i);
    } else {
        assert(files[k].0 == panel_of_file(files, path, k)->0);
    }
}

proof fn lemma_other_files(files: Seq<(PanelId, Seq<char>)>, id: PanelId, k: int)
    requires
        0 <= k <= files.len(),
    ensures
        forall|file: (PanelId, Seq<char>)| #[trigger]
            other_files(files, id, k).contains(file) <==> (file.0 != id && exists|i: int|
                0 <= i < k && files[i] == file),
    decreases k,
{
    if k > 0 {
        lemma_other_files(files, id, k - 1);
        let before = other_files(files, id, k - 1);
        let all = other_files(files, id, k);
        assert forall|file: (PanelId, Seq<char>)| #[trigger]
            all.contains(file) <==> (file.0 != id && exists|i: int|
            0 <= i < k && files[i] == file) by {
            if all.contains(file) {
                let at = choose|at: int| 0 <= at < all.len() && all[at] == file;
                if at < before.len() {
                    assert(before[at] == file);
                    assert(before.contains(file));
                    let i = choose|i: int| 0 <= i < k - 1 && files[i] == file;
                    assert(files[i] == file);
                } else {
                    assert(files[k - 1] == file);
                }
            }
            if file.0 != id && exists|i: int| 0 <= i < k && files[i] == file {
                let i = choose|i: int| 0 <= i < k && files[i] == file;
                if i < k - 1 {
                    assert(before.contains(file));
                    let at = choose|at: int| 0 <= at < before.len() && before[at] == file;
                    assert(all[at] == file);
                } else {
                    assert(all[all.len() - 1] == file);
                }
            }
        }
    }
}

pub(crate) proof fn lemma_files(files: Seq<(PanelId, Seq<char>)>, id: PanelId, path: Seq<char>)
    ensures
        forall|file: (PanelId, Seq<char>)| #[trigger]
            files_without(files, id).contains(file) <==> (file.0 != id && files.contains(file)),
        forall|file: (PanelId, Seq<char>)| #[trigger]
            files_with(files, id, path).contains(file) <==> (file == (id, path) || file.0 != id
                && files.contains(file)),
{
    lemma_other_files(files, id, files.len() as int);
    let rest = files_without(files, id);
    let all = files_with(files, id, path);
    assert forall|file: (PanelId, Seq<char>)| #[trigger]
        rest.contains(file) <==> (file.0 != id && files.contains(file)) by {
        if files.contains(file) {
            let i = choose|i: int| 0 <= i < files.len() && files[i] == file;
            assert(files[i] == file);
        }
    }
    assert forall|file: (PanelId, Seq<char>)| #[trigger]
        all.contains(file) <==> (file == (id, path) || file.0 != id && files.contains(file)) by {
        if all.contains(file) {
            let at = choose|at: int| 0 <= at < all.len() && all[at] == file;
            if at < rest.len() {
                assert(rest[at] == file);
                assert(rest.contains(file));
            }
        }
        if rest.contains(file) {
            let at = choose|at: int| 0 <= at < rest.len() && rest[at] == file;
            assert(all[at] == file);
        }
        assert(all[rest.len() as int] == (id, path));
    }
}

/// Opening a panel under a fresh id, and removing one, keep the window sound:
/// no file and no service outlives its panel.
pub proof fn panels_take_their_files_with_them(view: WorkspaceView, id: PanelId)
    requires
        view.sound(),
    ensures
        view.panel_removed(id).sound(),
        !view.panel_removed(id).panels.is_open(id),
        !view.panels.is_open(id) ==> view.document_added(id).sound() && view.flow_added(id).sound(),
{
    crate::panels::removing_keeps_the_window_sound(view.panels, id);
    let after = view.panel_removed(id);
    lemma_files(view.files, id, Seq::empty());
    assert forall|i: int| 0 <= i < after.files.len() implies after.panels.is_open(
        (#[trigger] after.files[i]).0,
    ) by {
        let file = after.files[i];
        assert(after.files.contains(file));
        let j = choose|j: int| 0 <= j < view.files.len() && view.files[j] == file;
        assert(view.panels.is_open(view.files[j].0));
        crate::panels::a_removed_panel_is_gone(view.panels.documents, id, file.0);
        crate::panels::a_removed_panel_is_gone(view.panels.flows, id, file.0);
    }
    assert forall|x: u128| #[trigger] after.document_runtimes.contains(
        x,
    ) implies after.panels.documents.contains(x) by {
        assert(view.document_runtimes.contains(x));
        crate::panels::a_removed_panel_is_gone(view.panels.documents, id, x);
    }
    assert forall|x: u128| #[trigger] after.flow_document_runtimes.contains(
        x,
    ) implies after.panels.flows.contains(x) by {
        assert(view.flow_document_runtimes.contains(x));
        crate::panels::a_removed_panel_is_gone(view.panels.flows, id, x);
    }
    if !view.panels.is_open(id) {
        crate::panels::opening_keeps_the_window_sound(view.panels, id);
        let document = view.document_added(id);
        let flow = view.flow_added(id);
        assert forall|x: PanelId| #[trigger]
            document.panels.documents.contains(x) == (x == id || view.panels.documents.contains(
            x,
        )) by {
            crate::panels::lemma_pushed(view.panels.documents, id, x);
        }
        assert forall|x: PanelId| #[trigger]
            flow.panels.flows.contains(x) == (x == id || view.panels.flows.contains(x)) by {
            crate::panels::lemma_pushed(view.panels.flows, id, x);
        }
        assert forall|i: int| 0 <= i < document.files.len() implies document.panels.is_open(
            (#[trigger] document.files[i]).0,
        ) by {
            assert(view.panels.is_open(view.files[i].0));
        }
        assert forall|i: int| 0 <= i < flow.files.len() implies flow.panels.is_open(
            (#[trigger] flow.files[i]).0,
        ) by {
            assert(view.panels.is_open(view.files[i].0));
        }
    }
}

/// An entry among the first `k` came back as a panel of a kind.
pub open spec fn came_back(
    opened: Seq<Option<RestoredTab>>,
    k: int,
    kind: PanelKind,
    id: PanelId,
) -> bool {
    exists|j: int|
        0 <= j < k && (#[trigger] opened[j]) is Some && (opened[j]->0).id == id && (opened[j]->0).kind
            == kind
}

/// No two entries came back as one panel, and none as one that was open.
pub open spec fn fresh_tabs(view: WorkspaceView, opened: Seq<Option<RestoredTab>>) -> bool {
    &&& forall|i: int, j: int|
        0 <= i < j < opened.len() && opened[i] is Some && opened[j] is Some ==> (
        #[trigger] opened[i]->0).id != (#[trigger] opened[j]->0).id
    &&& forall|i: int|
        0 <= i < opened.len() && (#[trigger] opened[i]) is Some ==> !view.panels.is_open(
            (opened[i]->0).id,
        )
}

proof fn lemma_tabs_restored(
    view: WorkspaceView,
    entries: Seq<TemporaryWorkspaceSessionEntry>,
    opened: Seq<Option<RestoredTab>>,
    k: int,
)
    requires
        0 <= k <= opened.len(),
        fresh_tabs(view, opened),
    ensures
        ({
            let after = tabs_restored(view, entries, opened, k);
            &&& forall|x: PanelId| #[trigger]
                after.panels.documents.contains(x) == (view.panels.documents.contains(x)
                    || came_back(opened, k, PanelKind::Document, x))
            &&& forall|x: PanelId| #[trigger]
                after.panels.flows.contains(x) == (view.panels.flows.contains(x) || came_back(
                    opened,
                    k,
                    PanelKind::Flow,
                    x,
                ))
            &&& forall|j: int|
                0 <= j < k && (#[trigger] opened[j]) is Some && (opened[j]->0).keeps_path
                    ==> after.files.contains(((opened[j]->0).id, entries[j].path@))
        }),
    decreases k,
{
    if k > 0 {
        lemma_tabs_restored(view, entries, opened, k - 1);
        let before = tabs_restored(view, entries, opened, k - 1);
        let after = tabs_restored(view, entries, opened, k);
        assert forall|kind: PanelKind, x: PanelId| #[trigger]
            came_back(opened, k, kind, x) == (came_back(opened, k - 1, kind, x) || opened[k
            - 1] is Some && (opened[k - 1]->0).id == x && (opened[k - 1]->0).kind == kind) by {
            if came_back(opened, k - 1, kind, x) {
                let j = choose|j: int|
                    0 <= j < k - 1 && (#[trigger] opened[j]) is Some && (opened[j]->0).id == x && (
                    opened[j]->0).kind == kind;
                assert(opened[j] is Some);
            }
        }
        if opened[k - 1] is Some {
            let tab = opened[k - 1]->0;
            lemma_files(before.files, tab.id, entries[k - 1].path@);
            assert forall|x: PanelId| #[trigger]
                before.panels.documents.push(tab.id).contains(x) == (x == tab.id
                || before.panels.documents.contains(x)) by {
                crate::panels::lemma_pushed(before.panels.documents, tab.id, x);
            }
            assert forall|x: PanelId| #[trigger]
                before.panels.flows.push(tab.id).contains(x) == (x == tab.id
                || before.panels.flows.contains(x)) by {
                crate::panels::lemma_pushed(before.panels.flows, tab.id, x);
            }
            assert forall|j: int|
                0 <= j < k && (#[trigger] opened[j]) is Some && (
                opened[j]->0).keeps_path implies after.files.contains(
                ((opened[j]->0).id, entries[j].path@),
            ) by {
                if j < k - 1 {
                    assert((opened[j]->0).id != (opened[k - 1]->0).id);
                    assert(before.files.contains(((opened[j]->0).id, entries[j].path@)));
                }
            }
        }
    }
}

/// A session comes back as it was written down: the tab of an entry that
/// loads again is open as what it was, shows its file, and is on top, pinned
/// and spoken from if it was.
pub proof fn a_session_comes_back(
    tabs: Seq<SessionTab>,
    active: Option<PanelId>,
    pinned: Seq<PanelId>,
    speech: Option<PanelId>,
    session: TemporaryWorkspaceSession,
    view: WorkspaceView,
    opened: Seq<Option<RestoredTab>>,
    i: int,
)
    requires
        writes_down(tabs, active, pinned, speech, session),
        forall|j: int, k: int|
            0 <= j < k < tabs.len() ==> (#[trigger] tabs[j]).id != (#[trigger] tabs[k]).id,
        session.entries@.len() == opened.len() <= usize::MAX,
        fresh_tabs(view, opened),
        0 <= i < opened.len(),
        opened[i] is Some,
    ensures
        ({
            let after = session_restored(view, session, opened);
            let came = opened[i]->0;
            let tab = tabs[kept_places(tabs, tabs.len() as int)[i]];
            &&& after.panels.kind(came.id) == Some(came.kind)
            &&& came.keeps_path ==> after.files.contains((came.id, (tab.path->0)@))
            &&& active == Some(tab.id) ==> after.panels.active == Some((came.id, came.kind))
            &&& (after.panels.speech == Some(came.id)) == (speech == Some(tab.id))
            &&& after.panels.pinned.contains(came.id) == pinned.contains(tab.id)
        }),
{
    let after = session_restored(view, session, opened);
    let came = opened[i]->0;
    let kept = kept_places(tabs, tabs.len() as int);
    let ids = kept_ids(tabs, tabs.len() as int);
    let tab = tabs[kept[i]];
    let back = opened_ids(opened);
    lemma_kept(tabs, tabs.len() as int);
    lemma_tabs_restored(view, session.entries@, opened, opened.len() as int);
    assert(entry_of(session.entries@[i], tabs[kept[i]]));
    assert(ids.no_duplicates()) by {
        assert forall|j: int, k: int| 0 <= j < k < ids.len() implies ids[j] != ids[k] by {
            assert(kept[j] < kept[k]);
            assert(tabs[kept[j]].id != tabs[kept[k]].id);
        }
    }
    assert forall|j: int| 0 <= j < back.len() && j != i implies back[j] != back[i] by {
        if opened[j] is Some {
            if j < i {
                assert((opened[j]->0).id != (opened[i]->0).id);
            } else {
                assert((opened[i]->0).id != (opened[j]->0).id);
            }
        }
    }
    assert(came_back(opened, opened.len() as int, came.kind, came.id));
    if came.kind == PanelKind::Flow {
        if came_back(opened, opened.len() as int, PanelKind::Document, came.id) {
            let j = choose|j: int|
                0 <= j < opened.len() && (#[trigger] opened[j]) is Some && (opened[j]->0).id
                    == came.id && (opened[j]->0).kind == PanelKind::Document;
            assert(back[j] == back[i]);
        }
    }
    assert(ids[i] == tab.id);
    lemma_last_place(ids, tab.id, i, ids.len() as int);
    if speech is Some {
        lemma_place(ids, speech->0, ids.len() as int);
    }
    pins_survive_a_restart(ids, pinned, back, i);
}

} // verus!
