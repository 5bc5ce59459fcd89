//! The left panel over a tub: the tree of its files, and finding one by name.

use crate::chrome::{render_sidebar_tree_row, TreeRowView};
use crate::ordering::places;
use crate::outline::OutlineRowGuides;
use crate::text::{same_text, trim, trimmed};
use crate::text_set::TextSet;
use crate::toolkit::TUB_FILE_SEARCH_LIMIT;
use crate::tub::{
    build_tub_tree_items, deepest, dir_shown, everything, expanded_tub_search_dirs,
    filter_tub_files_by_name, found_places, list_rows, on_the_way, row_values,
    tub_tree_entries_for_files, TubFile, TubTreeItem, TubTreeNode,
};
use vstd::prelude::*;

verus! {

/// The panel's state. Directories are named by their paths.
#[derive(Debug)]
pub struct TubNav {
    pub files: Vec<TubFile>,
    pub expanded: TextSet,
    /// The tree of all files, as it was last built.
    pub items: Vec<TubTreeItem>,
    pub entries: Vec<TubTreeNode>,
    pub file_search_generation: u64,
    /// The file that was last opened from the tree.
    pub active_path: Option<String>,
}

/// What the tree shows from now on.
#[derive(Debug)]
pub enum TreeUpdate {
    Nothing,
    /// The tree of all files.
    AllFiles,
    /// The tree of what was found.
    Found(Vec<TubTreeItem>),
}

/// The rows are those of a tree of the files at some places.
pub open spec fn rows_of_files(
    rows: Seq<TubTreeNode>,
    root: Seq<char>,
    files: Seq<TubFile>,
    members: Seq<int>,
    expanded: Set<Seq<char>>,
) -> bool {
    exists|items: Seq<TubTreeItem>|
        row_values(rows) == list_rows(items, 0) && #[trigger] items_of_files(
            items,
            root,
            files,
            members,
            expanded,
        )
}

/// The items are the tree of the files at some places.
pub open spec fn items_of_files(
    items: Seq<TubTreeItem>,
    root: Seq<char>,
    files: Seq<TubFile>,
    members: Seq<int>,
    expanded: Set<Seq<char>>,
) -> bool {
    dir_shown(
        items,
        root,
        files,
        members,
        Seq::empty(),
        deepest(files, members, members.len() as int),
        expanded,
    )
}

/// No file lies so deep that its row's depth would not fit.
pub open spec fn depths_fit(files: Seq<TubFile>) -> bool {
    forall|i: int| 0 <= i < files.len() ==> (#[trigger] files[i]).parent@.len() < usize::MAX
}

proof fn lemma_deepest_fits(files: Seq<TubFile>, members: Seq<int>, k: int)
    requires
        depths_fit(files),
        0 <= k <= members.len(),
        forall|i: int| 0 <= i < members.len() ==> 0 <= #[trigger] members[i] < files.len(),
    ensures
        deepest(files, members, k) < usize::MAX,
    decreases k,
{
    if k > 0 {
        lemma_deepest_fits(files, members, k - 1);
        assert(0 <= members[k - 1] < files.len());
    }
}

fn all_places(count: usize) -> (all: Vec<usize>)
    ensures
        all@.len() == count,
        places(all@) == everything(count as nat),
        forall|i: int| 0 <= i < all@.len() ==> #[trigger] all@[i] == i,
{
    let mut all: Vec<usize> = Vec::new();
    let mut next: usize = 0;
    while next < count
        invariant
            next <= count,
            all@.len() == next,
            forall|i: int| 0 <= i < next ==> #[trigger] all@[i] == i,
        decreases count - next,
    {
        all.push(next);
        next = next + 1;
    }
    assert(places(all@) =~= everything(count as nat));
    all
}

impl TubNav {
    pub fn new() -> (nav: Self)
        ensures
            nav.files@.len() == 0,
            nav.expanded@ == Set::<Seq<char>>::empty(),
            nav.items@.len() == 0,
            nav.entries@.len() == 0,
            nav.file_search_generation == 0,
            nav.active_path is None,
    {
        TubNav {
            files: Vec::new(),
            expanded: TextSet::new(),
            items: Vec::new(),
            entries: Vec::new(),
            file_search_generation: 0,
            active_path: None,
        }
    }

    /// The files of a folder that was left, or could not be read, are gone.
    pub fn clear_files(&mut self)
        ensures
            final(self).files@.len() == 0,
            final(self).items@.len() == 0,
            final(self).entries@.len() == 0,
            *final(self) == (TubNav {
                files: final(self).files,
                items: final(self).items,
                entries: final(self).entries,
                file_search_generation: old(self).file_search_generation.wrapping_add(1),
                ..*old(self)
            }),
    {
        self.files = Vec::new();
        self.items = Vec::new();
        self.entries = Vec::new();
        self.file_search_generation = self.file_search_generation.wrapping_add(1);
    }

    /// The folder of the last session is opened: it is expanded.
    pub fn load_tub_root(&mut self, root: &str)
        ensures
            final(self).files@.len() == 0,
            final(self).items@.len() == 0,
            final(self).entries@.len() == 0,
            final(self).expanded@ == old(self).expanded@.insert(root@),
            final(self).file_search_generation == old(self).file_search_generation.wrapping_add(1),
            final(self).active_path == old(self).active_path,
    {
        self.clear_files();
        self.expanded.insert(root);
    }

    /// Another folder is picked: it alone is expanded.
    pub fn set_tub_root(&mut self, root: &str)
        ensures
            final(self).files@.len() == 0,
            final(self).items@.len() == 0,
            final(self).entries@.len() == 0,
            final(self).expanded@ == Set::<Seq<char>>::empty().insert(root@),
            final(self).file_search_generation == old(self).file_search_generation.wrapping_add(1),
            final(self).active_path == old(self).active_path,
    {
        self.expanded = TextSet::new();
        self.load_tub_root(root);
    }

    /// Expands a directory, or folds it. The tree that shows is not built
    /// anew.
    pub fn remember_tub_dir_toggle(&mut self, dir: &str)
        ensures
            final(self).expanded@ == (if old(self).expanded@.contains(dir@) {
                old(self).expanded@.remove(dir@)
            } else {
                old(self).expanded@.insert(dir@)
            }),
            *final(self) == (TubNav { expanded: final(self).expanded, ..*old(self) }),
    {
        self.expanded.toggle(dir);
    }

    /// A file is opened from the tree.
    pub fn open_tub_tree_file(&mut self, path: &str)
        ensures
            final(self).active_path is Some,
            (final(self).active_path->0)@ == path@,
            *final(self) == (TubNav { active_path: final(self).active_path, ..*old(self) }),
    {
        self.active_path = Some(String::from_str(path));
    }

    /// A row's label is clicked: a directory folds or unfolds, a file opens.
    /// Hands back the file to open.
    pub fn row_clicked(&mut self, path: &str, is_folder: bool) -> (open: Option<String>)
        ensures
            if is_folder {
                &&& open is None
                &&& final(self).expanded@ == (if old(self).expanded@.contains(path@) {
                    old(self).expanded@.remove(path@)
                } else {
                    old(self).expanded@.insert(path@)
                })
                &&& *final(self) == (TubNav { expanded: final(self).expanded, ..*old(self) })
            } else {
                &&& open is Some && (open->0)@ == path@
                &&& final(self).active_path is Some && (final(self).active_path->0)@ == path@
                &&& *final(self) == (TubNav { active_path: final(self).active_path, ..*old(self) })
            },
    {
        if is_folder {
            self.remember_tub_dir_toggle(path);
            None
        } else {
            self.open_tub_tree_file(path);
            Some(String::from_str(path))
        }
    }

    /// Builds the tree of all files anew, or drops it without a folder.
    pub fn rebuild_tub_tree_cache(&mut self, root: Option<&str>)
        requires
            depths_fit(old(self).files@),
        ensures
            *final(self) == (TubNav {
                items: final(self).items,
                entries: final(self).entries,
                ..*old(self)
            }),
            match root {
                Some(root) => {
                    let all = everything(old(self).files@.len());
                    &&& items_of_files(
                        final(self).items@,
                        root@,
                        old(self).files@,
                        all,
                        old(self).expanded@,
                    )
                    &&& rows_of_files(
                        final(self).entries@,
                        root@,
                        old(self).files@,
                        all,
                        old(self).expanded@,
                    )
                },
                None => final(self).items@.len() == 0 && final(self).entries@.len() == 0,
            },
    {
        let root = match root {
            Some(root) => root,
            None => {
                self.items = Vec::new();
                self.entries = Vec::new();
                return;
            },
        };
        let all = all_places(self.files.len());
        proof {
            lemma_deepest_fits(self.files@, places(all@), all@.len() as int);
        }
        self.items = build_tub_tree_items(root, &self.files, &all, &self.expanded);
        self.refresh_entries(root, &all);
    }

    fn refresh_entries(&mut self, root: &str, all: &Vec<usize>)
        requires
            depths_fit(old(self).files@),
            places(all@) == everything(old(self).files@.len()),
            forall|i: int| 0 <= i < all@.len() ==> #[trigger] all@[i] < old(self).files@.len(),
        ensures
            *final(self) == (TubNav { entries: final(self).entries, ..*old(self) }),
            rows_of_files(
                final(self).entries@,
                root@,
                old(self).files@,
                everything(old(self).files@.len()),
                old(self).expanded@,
            ),
    {
        proof {
            lemma_deepest_fits(self.files@, places(all@), all@.len() as int);
        }
        let entries = tub_tree_entries_for_files(root, &self.files, all, &self.expanded);
        proof {
            let members = places(all@);
            let items = choose|items: Seq<TubTreeItem>|
                row_values(entries@) == list_rows(items, 0) && #[trigger] dir_shown(
                    items,
                    root@,
                    self.files@,
                    members,
                    Seq::empty(),
                    deepest(self.files@, members, all@.len() as int),
                    self.expanded@,
                );
            assert(items_of_files(items, root@, self.files@, members, self.expanded@));
        }
        self.entries = entries;
    }

    /// A scan's files are the tub's now: their tree is built.
    pub fn take_files(&mut self, root: &str, files: Vec<TubFile>, query: &str) -> (update: TreeUpdate)
        requires
            depths_fit(files@),
        ensures
            final(self).files == files,
            final(self).expanded == old(self).expanded,
            final(self).active_path == old(self).active_path,
            items_of_files(
                final(self).items@,
                root@,
                files@,
                everything(files@.len()),
                old(self).expanded@,
            ),
            search_shown(*final(self), update, Some(root@), query@),
            final(self).file_search_generation == (if trimmed(query@).len() == 0 {
                old(self).file_search_generation
            } else {
                old(self).file_search_generation.wrapping_add(1)
            }),
    {
        self.files = files;
        self.rebuild_tub_tree_cache(Some(root));
        self.refresh_tub_file_search(Some(root), query)
    }

    /// Shows the files whose names answer a query: all of them for an empty
    /// one, with the directories that are expanded; else those found, with
    /// the directories on the way to them. Without a folder nothing shows.
    pub fn refresh_tub_file_search(&mut self, root: Option<&str>, query: &str) -> (update: TreeUpdate)
        requires
            depths_fit(old(self).files@),
        ensures
            search_shown(
                *final(self),
                update,
                match root {
                    Some(root) => Some(root@),
                    None => None,
                },
                query@,
            ),
            final(self).files == old(self).files,
            final(self).expanded == old(self).expanded,
            final(self).active_path == old(self).active_path,
            final(self).file_search_generation == (if root is Some && trimmed(query@).len() > 0 {
                old(self).file_search_generation.wrapping_add(1)
            } else {
                old(self).file_search_generation
            }),
            if root is Some && trimmed(query@).len() == 0 && old(self).items@.len() == 0 && old(
                self,
            ).files@.len() > 0 {
                items_of_files(
                    final(self).items@,
                    (root->0)@,
                    old(self).files@,
                    everything(old(self).files@.len()),
                    old(self).expanded@,
                )
            } else {
                final(self).items == old(self).items
            },
    {
        let root = match root {
            Some(root) => root,
            None => {
                self.entries = Vec::new();
                return TreeUpdate::Nothing;
            },
        };
        let inner = trim(query);
        if inner.as_str().is_empty() {
            if self.items.len() == 0 && self.files.len() > 0 {
                self.rebuild_tub_tree_cache(Some(root));
            }
            let all = all_places(self.files.len());
            self.refresh_entries(root, &all);
            return TreeUpdate::AllFiles;
        }
        self.file_search_generation = self.file_search_generation.wrapping_add(1);
        let found = filter_tub_files_by_name(&self.files, query, TUB_FILE_SEARCH_LIMIT);
        let dirs = expanded_tub_search_dirs(root, &self.files, &found);
        proof {
            lemma_deepest_fits(self.files@, places(found@), found@.len() as int);
        }
        let items = build_tub_tree_items(root, &self.files, &found, &dirs);
        let entries = tub_tree_entries_for_files(root, &self.files, &found, &dirs);
        proof {
            let members = places(found@);
            let shown = choose|shown: Seq<TubTreeItem>|
                row_values(entries@) == list_rows(shown, 0) && #[trigger] dir_shown(
                    shown,
                    root@,
                    self.files@,
                    members,
                    Seq::empty(),
                    deepest(self.files@, members, found@.len() as int),
                    dirs@,
                );
            assert(items_of_files(shown, root@, self.files@, members, dirs@));
            assert(rows_of_files(entries@, root@, self.files@, members, dirs@));
            assert(items_of_files(items@, root@, self.files@, members, dirs@));
            assert(opens_the_way(dirs@, root@, self.files@, members));
            assert(members == found_places(
                self.files@,
                query@,
                TUB_FILE_SEARCH_LIMIT as int,
            ));
        }
        self.entries = entries;
        assert(found_shown(
            self.entries@,
            items@,
            root@,
            self.files@,
            found_places(self.files@, query@, TUB_FILE_SEARCH_LIMIT as int),
        ));
        TreeUpdate::Found(items)
    }
}

/// The directories are those on the way to the files at some places.
pub open spec fn opens_the_way(
    dirs: Set<Seq<char>>,
    root: Seq<char>,
    files: Seq<TubFile>,
    members: Seq<int>,
) -> bool {
    forall|dir: Seq<char>| #[trigger]
        dirs.contains(dir) <==> on_the_way(root, files, members, dir)
}

/// What the panel shows for a query.
pub open spec fn search_shown(
    nav: TubNav,
    update: TreeUpdate,
    root: Option<Seq<char>>,
    query: Seq<char>,
) -> bool {
    let files = nav.files@;
    match root {
        None => update is Nothing && nav.entries@.len() == 0,
        Some(root) => if trimmed(query).len() == 0 {
            update is AllFiles && rows_of_files(
                nav.entries@,
                root,
                files,
                everything(files.len()),
                nav.expanded@,
            )
        } else {
            let found = found_places(files, query, TUB_FILE_SEARCH_LIMIT as int);
            update matches TreeUpdate::Found(items) && found_shown(
                nav.entries@,
                items@,
                root,
                files,
                found,
            )
        },
    }
}

/// The tree and the rows show the files at some places, with the directories
/// on the way to them expanded.
pub open spec fn found_shown(
    rows: Seq<TubTreeNode>,
    items: Seq<TubTreeItem>,
    root: Seq<char>,
    files: Seq<TubFile>,
    found: Seq<int>,
) -> bool {
    exists|dirs: Set<Seq<char>>| #[trigger]
        opens_the_way(dirs, root, files, found) && items_of_files(items, root, files, found, dirs)
            && rows_of_files(rows, root, files, found, dirs)
}

/// What the panel shows in place of a tree.
#[derive(Clone, Copy, Debug, PartialEq, Eq, Structural)]
pub enum TubNavBody {
    /// A button that picks a folder.
    PickFolder,
    NoMatch,
    NoFiles,
    Tree,
}

impl TubNavBody {
    /// What it says, where it is no tree.
    pub fn text(self) -> (text: Option<&'static str>)
        ensures
            match self {
                TubNavBody::PickFolder => text is Some && (text->0)@ == "Select a tub folder"@,
                TubNavBody::NoMatch => text is Some && (text->0)@ == "No matching tub files"@,
                TubNavBody::NoFiles => text is Some && (text->0)@ == "No tub files"@,
                TubNavBody::Tree => text is None,
            },
    {
        match self {
            TubNavBody::PickFolder => Some("Select a tub folder"),
            TubNavBody::NoMatch => Some("No matching tub files"),
            TubNavBody::NoFiles => Some("No tub files"),
            TubNavBody::Tree => None,
        }
    }
}

impl TubNav {
    /// What the panel shows under its header; its folder and the search field
    /// show once a folder is picked.
    pub fn render_tub_nav(&self, has_root: bool, query: &str) -> (view: (bool, TubNavBody))
        ensures
            view.0 == has_root,
            view.1 == (if !has_root {
                TubNavBody::PickFolder
            } else if self.entries@.len() > 0 {
                TubNavBody::Tree
            } else if trimmed(query@).len() > 0 {
                TubNavBody::NoMatch
            } else {
                TubNavBody::NoFiles
            }),
    {
        let inner = trim(query);
        let body = if !has_root {
            TubNavBody::PickFolder
        } else if self.entries.len() > 0 {
            TubNavBody::Tree
        } else if inner.as_str().is_empty() {
            TubNavBody::NoFiles
        } else {
            TubNavBody::NoMatch
        };
        (has_root, body)
    }

    /// The file that was last opened shows as active.
    pub fn is_active_row(&self, path: &str, is_folder: bool) -> (b: bool)
        ensures
            b == (!is_folder && self.active_path is Some && (self.active_path->0)@ == path@),
    {
        if is_folder {
            return false;
        }
        match &self.active_path {
            Some(active) => same_text(active.as_str(), path),
            None => false,
        }
    }
}

/// A row's icon.
#[derive(Clone, Copy, Debug, PartialEq, Eq, Structural)]
pub enum TubIcon {
    FolderOpen,
    FolderClosed,
    File,
}

/// A row's icon.
pub fn tub_icon(is_folder: bool, is_expanded: bool) -> (icon: TubIcon)
    ensures
        icon == (if is_folder && is_expanded {
            TubIcon::FolderOpen
        } else if is_folder {
            TubIcon::FolderClosed
        } else {
            TubIcon::File
        }),
{
    if is_folder && is_expanded {
        TubIcon::FolderOpen
    } else if is_folder {
        TubIcon::FolderClosed
    } else {
        TubIcon::File
    }
}

/// A row as it is drawn: a guide runs through every depth before its own, and
/// an open directory begins one.
pub fn render_tub_tree_row(depth: usize, is_folder: bool, is_expanded: bool, is_active: bool) -> (view:
    TreeRowView)
    ensures
        view.caret is None,
        view.icon_action == (if is_folder {
            crate::chrome::RowAction::Toggle
        } else {
            crate::chrome::RowAction::Open
        }),
        view.guides@ == Seq::new(depth as nat, |d: int| true),
        view.own_guide == (if is_folder && is_expanded {
            Some(18u16)
        } else {
            None
        }),
        view.color == crate::chrome::hierarchy_color(depth as int),
        view.accent == (if is_active {
            Some(100u8)
        } else {
            None
        }),
        !view.search_highlight,
        view.hovers == !is_active,
{
    let depths = all_places(depth);
    let ghost listed = depths@;
    let guide = OutlineRowGuides {
        ancestor_depths: depths,
        extends_from_toggle: is_folder && is_expanded,
    };
    let view = render_sidebar_tree_row(
        depth,
        is_folder,
        is_expanded,
        true,
        is_active,
        false,
        &guide,
    );
    assert forall|d: int| 0 <= d < depth implies #[trigger] view.guides@[d] by {
        assert(listed[d] == d as usize);
    }
    assert(view.guides@ =~= Seq::new(depth as nat, |d: int| true));
    view
}

} // verus!
