//! The window round the documents: side panels, tabs and tree rows.

use crate::commands::LeftNavMode;
use crate::outline::OutlineRowGuides;
use crate::pane::PanelId;
use crate::text::{decimal, join_texts, joined_with, lemma_texts_push, push_decimal, texts};
use vstd::prelude::*;
use vstd::string::StringExecFns;

verus! {

/// An icon of the window.
#[derive(Clone, Copy, Debug, PartialEq, Eq, Structural)]
pub enum AppIcon {
    Close,
    NewFile,
    SaveFile,
    MultiPanel,
}

/// An icon of the widget set.
#[derive(Clone, Copy, Debug, PartialEq, Eq, Structural)]
pub enum WidgetIcon {
    WindowClose,
    Plus,
    File,
    PanelRight,
}

/// Where an icon comes from.
#[derive(Clone, Copy, Debug)]
pub enum IconSource {
    /// A picture of the application's own.
    Asset(&'static str),
    /// A symbol of the system, by name.
    Symbol(&'static str),
    Widget(WidgetIcon),
}

/// The name of the system's symbol for an icon.
pub open spec fn symbol_name(icon: AppIcon) -> Seq<char> {
    match icon {
        AppIcon::Close => "xmark"@,
        AppIcon::NewFile => "doc.badge.plus"@,
        AppIcon::SaveFile => "square.and.arrow.down"@,
        AppIcon::MultiPanel => "rectangle.split.2x1"@,
    }
}

/// The widget set's icon.
pub open spec fn widget_icon(icon: AppIcon) -> WidgetIcon {
    match icon {
        AppIcon::Close => WidgetIcon::WindowClose,
        AppIcon::NewFile => WidgetIcon::Plus,
        AppIcon::SaveFile => WidgetIcon::File,
        AppIcon::MultiPanel => WidgetIcon::PanelRight,
    }
}

/// Where the platform's icon comes from: the system, where it has symbols,
/// else the widget set.
pub fn platform_icon_button(icon: AppIcon, system_symbols: bool) -> (source: IconSource)
    ensures
        match source {
            IconSource::Symbol(name) => system_symbols && name@ == symbol_name(icon),
            IconSource::Widget(own) => !system_symbols && own == widget_icon(icon),
            IconSource::Asset(_) => false,
        },
{
    if system_symbols {
        IconSource::Symbol(
            match icon {
                AppIcon::Close => "xmark",
                AppIcon::NewFile => "doc.badge.plus",
                AppIcon::SaveFile => "square.and.arrow.down",
                AppIcon::MultiPanel => "rectangle.split.2x1",
            },
        )
    } else {
        IconSource::Widget(
            match icon {
                AppIcon::Close => WidgetIcon::WindowClose,
                AppIcon::NewFile => WidgetIcon::Plus,
                AppIcon::SaveFile => WidgetIcon::File,
                AppIcon::MultiPanel => WidgetIcon::PanelRight,
            },
        )
    }
}

/// Where a button's icon comes from: saving has a picture of its own, the
/// others are the platform's.
pub fn icon_button(icon: AppIcon, system_symbols: bool) -> (source: IconSource)
    ensures
        match source {
            IconSource::Asset(path) => icon == AppIcon::SaveFile && path@ == "icons/save.svg"@,
            IconSource::Symbol(name) => icon != AppIcon::SaveFile && system_symbols && name@
                == symbol_name(icon),
            IconSource::Widget(own) => icon != AppIcon::SaveFile && !system_symbols && own
                == widget_icon(icon),
        },
{
    match icon {
        AppIcon::SaveFile => IconSource::Asset("icons/save.svg"),
        _ => platform_icon_button(icon, system_symbols),
    }
}

/// How the window is laid out.
#[derive(Clone, Copy, Debug, PartialEq, Eq, Structural)]
pub enum WorkspaceLayout {
    /// Nothing is open: the empty state alone.
    Empty,
    /// A bar in place of the ribbon.
    CollapsedRibbon,
    Ribbon,
}

/// How the window is laid out.
pub fn workspace_layout(documents: usize, flows: usize, ribbon_collapsed: bool) -> (layout:
    WorkspaceLayout)
    ensures
        layout == (if documents == 0 && flows == 0 {
            WorkspaceLayout::Empty
        } else if ribbon_collapsed {
            WorkspaceLayout::CollapsedRibbon
        } else {
            WorkspaceLayout::Ribbon
        }),
{
    if documents == 0 && flows == 0 {
        WorkspaceLayout::Empty
    } else if ribbon_collapsed {
        WorkspaceLayout::CollapsedRibbon
    } else {
        WorkspaceLayout::Ribbon
    }
}

/// How wide the left panel is at least and at most.
pub fn outline_widths(collapsed: bool) -> (widths: (u16, u16))
    ensures
        widths == (if collapsed {
            (30u16, 30u16)
        } else {
            (240u16, 420u16)
        }),
{
    if collapsed {
        (30, 30)
    } else {
        (240, 420)
    }
}

/// What the collapsed left panel reopens, by name.
pub fn reopen_label(mode: LeftNavMode, flow_active: bool) -> (text: &'static str)
    ensures
        text@ == (if mode == LeftNavMode::Tub {
            "Show tub"@
        } else if flow_active {
            "Show flow outline"@
        } else {
            "Show outline"@
        }),
{
    match mode {
        LeftNavMode::Tub => "Show tub",
        LeftNavMode::Outline => if flow_active {
            "Show flow outline"
        } else {
            "Show outline"
        },
    }
}

/// What the left panel shows.
#[derive(Clone, Copy, Debug, PartialEq, Eq, Structural)]
pub enum LeftNav {
    Tub,
    Flow,
    Outline,
}

/// What the left panel shows.
pub fn render_left_nav(mode: LeftNavMode, flow_active: bool) -> (nav: LeftNav)
    ensures
        nav == (if mode == LeftNavMode::Tub {
            LeftNav::Tub
        } else if flow_active {
            LeftNav::Flow
        } else {
            LeftNav::Outline
        }),
{
    match mode {
        LeftNavMode::Tub => LeftNav::Tub,
        LeftNavMode::Outline => if flow_active {
            LeftNav::Flow
        } else {
            LeftNav::Outline
        },
    }
}

/// What the middle of the window shows.
#[derive(Clone, Copy, Debug, PartialEq, Eq, Structural)]
pub struct DocumentPaneView {
    pub tab_bar: bool,
    /// The search bar of the document on top.
    pub search_bar: bool,
    /// The history of the document on top.
    pub history: bool,
    pub document: bool,
    pub flow: bool,
    pub empty_state: bool,
}

/// What the middle of the window shows: history takes the place of its own
/// document alone.
pub open spec fn document_pane_of(
    panels: int,
    active: Option<PanelId>,
    search_bar_open: bool,
    has_document: bool,
    has_flow: bool,
    history_of: Option<PanelId>,
) -> DocumentPaneView {
    let history = history_of is Some && history_of == active;
    DocumentPaneView {
        tab_bar: panels > 0,
        search_bar: active is Some && search_bar_open,
        history,
        document: has_document && !history,
        flow: has_flow,
        empty_state: !has_document && !has_flow,
    }
}

/// What the middle of the window shows.
pub fn render_document_pane(
    panels: usize,
    active: Option<PanelId>,
    search_bar_open: bool,
    has_document: bool,
    has_flow: bool,
    history_of: Option<PanelId>,
) -> (view: DocumentPaneView)
    ensures
        view == document_pane_of(
            panels as int,
            active,
            search_bar_open,
            has_document,
            has_flow,
            history_of,
        ),
{
    let history = match (history_of, active) {
        (Some(history), Some(active)) => history == active,
        _ => false,
    };
    DocumentPaneView {
        tab_bar: panels > 0,
        search_bar: active.is_some() && search_bar_open,
        history,
        document: has_document && !history,
        flow: has_flow,
        empty_state: !has_document && !has_flow,
    }
}

/// One thing shows at a time: the document on top or its history, or the flow
/// on top, or the empty state.
pub proof fn one_thing_shows(
    panels: int,
    active: Option<PanelId>,
    search_bar_open: bool,
    has_document: bool,
    has_flow: bool,
    history_of: Option<PanelId>,
)
    requires
        !(has_document && has_flow),
        history_of is Some && history_of == active ==> has_document,
    ensures
        ({
            let view = document_pane_of(
                panels,
                active,
                search_bar_open,
                has_document,
                has_flow,
                history_of,
            );
            let shown = seq![view.history, view.document, view.flow, view.empty_state];
            exists|i: int|
                0 <= i < 4 && #[trigger] shown[i] && forall|j: int|
                    0 <= j < 4 && #[trigger] shown[j] ==> i == j
        }),
{
    let view = document_pane_of(
        panels,
        active,
        search_bar_open,
        has_document,
        has_flow,
        history_of,
    );
    let shown = seq![view.history, view.document, view.flow, view.empty_state];
    let only: int = if view.history {
        0
    } else if view.document {
        1
    } else if view.flow {
        2
    } else {
        3
    };
    assert(shown[only]);
}

/// A mark on a tab.
#[derive(Clone, Copy, Debug, PartialEq, Eq, Structural)]
pub enum TabMark {
    Dirty,
    Speech,
    Collaboration,
}

impl TabMark {
    pub open spec fn name_text(self) -> Seq<char> {
        match self {
            TabMark::Dirty => "Unsaved changes"@,
            TabMark::Speech => "Speech document"@,
            TabMark::Collaboration => "Collaboration"@,
        }
    }

    pub fn name(self) -> (text: &'static str)
        ensures
            text@ == self.name_text(),
    {
        match self {
            TabMark::Dirty => "Unsaved changes",
            TabMark::Speech => "Speech document",
            TabMark::Collaboration => "Collaboration",
        }
    }
}

/// How many marks a tab shows.
pub const VISIBLE_TAB_MARKS: usize = 2;

/// All marks of a tab, in order.
pub open spec fn tab_marks(dirty: bool, speech: bool, collaboration: bool) -> Seq<TabMark> {
    let first = if dirty {
        seq![TabMark::Dirty]
    } else {
        Seq::empty()
    };
    let second = if speech {
        first.push(TabMark::Speech)
    } else {
        first
    };
    if collaboration {
        second.push(TabMark::Collaboration)
    } else {
        second
    }
}

/// The names of marks.
pub open spec fn mark_names(marks: Seq<TabMark>) -> Seq<Seq<char>> {
    marks.map_values(|mark: TabMark| mark.name_text())
}

/// A tab's marks as they are drawn.
#[derive(Debug)]
pub struct TabMarksView {
    pub visible: Vec<TabMark>,
    /// How many more there are, and their names.
    pub overflow: Option<(String, String)>,
}

/// A tab's marks: the first two show, the rest fold into a count whose
/// tooltip names them.
pub fn tab_marks_view(dirty: bool, speech: bool, collaboration: bool) -> (view: TabMarksView)
    ensures
        ({
            let all = tab_marks(dirty, speech, collaboration);
            let rest = all.skip(VISIBLE_TAB_MARKS as int);
            if all.len() <= VISIBLE_TAB_MARKS {
                view.visible@ == all && view.overflow is None
            } else {
                &&& view.visible@ == all.take(VISIBLE_TAB_MARKS as int)
                &&& view.overflow matches Some((count, names)) && count@ == "+"@ + decimal(
                    rest.len(),
                ) && names@ == joined_with(mark_names(rest), " · "@)
            }
        }),
{
    let mut all: Vec<TabMark> = Vec::new();
    if dirty {
        all.push(TabMark::Dirty);
    }
    if speech {
        all.push(TabMark::Speech);
    }
    if collaboration {
        all.push(TabMark::Collaboration);
    }
    assert(all@ =~= tab_marks(dirty, speech, collaboration));
    if all.len() <= VISIBLE_TAB_MARKS {
        return TabMarksView { visible: all, overflow: None };
    }
    let ghost marks = all@;
    let ghost rest = marks.skip(VISIBLE_TAB_MARKS as int);
    let mut names: Vec<String> = Vec::new();
    let mut next: usize = VISIBLE_TAB_MARKS;
    assert(texts(names@) =~= mark_names(rest).take(0));
    while next < all.len()
        invariant
            VISIBLE_TAB_MARKS <= next <= all@.len(),
            marks == all@,
            rest == marks.skip(VISIBLE_TAB_MARKS as int),
            texts(names@) == mark_names(rest).take(next - VISIBLE_TAB_MARKS),
        decreases all@.len() - next,
    {
        let name = String::from_str(all[next].name());
        proof {
            lemma_texts_push(names@, name);
            assert(rest[next - VISIBLE_TAB_MARKS] == marks[next as int]);
        }
        names.push(name);
        next = next + 1;
        assert(texts(names@) =~= mark_names(rest).take(next - VISIBLE_TAB_MARKS));
    }
    assert(mark_names(rest).take(rest.len() as int) =~= mark_names(rest));
    let mut count = String::from_str("+");
    push_decimal(&mut count, (all.len() - VISIBLE_TAB_MARKS) as u128);
    let tooltip = join_texts(&names, " · ");
    let mut visible: Vec<TabMark> = Vec::new();
    let mut at: usize = 0;
    while at < VISIBLE_TAB_MARKS
        invariant
            at <= VISIBLE_TAB_MARKS < all@.len(),
            visible@ == all@.take(at as int),
        decreases VISIBLE_TAB_MARKS - at,
    {
        visible.push(all[at]);
        at = at + 1;
        assert(visible@ =~= all@.take(at as int));
    }
    TabMarksView { visible, overflow: Some((count, tooltip)) }
}

/// What a pinned tab's badge says when it is pointed at.
pub fn pin_hint(pin_label: &str) -> (text: String)
    ensures
        text@ == "Pinned — Alt+"@ + pin_label@
            + " switches here (with pins, Alt+N counts pinned tabs first)"@,
{
    let mut text = String::from_str("Pinned — Alt+");
    text.append(pin_label);
    text.append(" switches here (with pins, Alt+N counts pinned tabs first)");
    text
}

/// The menu's item that pins a tab or unpins it.
pub fn pin_item_label(pinned: bool) -> (text: &'static str)
    ensures
        text@ == (if pinned {
            "Unpin tab"@
        } else {
            "Pin tab"@
        }),
{
    if pinned {
        "Unpin tab"
    } else {
        "Pin tab"
    }
}

/// What a click on a tree row does.
#[derive(Clone, Copy, Debug, PartialEq, Eq, Structural)]
pub enum RowAction {
    Nothing,
    Toggle,
    Open,
}

/// A tree row as it is drawn.
#[derive(Debug)]
pub struct TreeRowView {
    /// The arrow that folds a row without an icon.
    pub caret: Option<&'static str>,
    /// What a click on the icon does.
    pub icon_action: RowAction,
    /// For each depth before the row's own, whether a guide runs through it.
    pub guides: Vec<bool>,
    /// How far down the row's own guide begins.
    pub own_guide: Option<u16>,
    /// Which of the hierarchy's colours the row has.
    pub color: usize,
    /// How strong the accent behind an active row is, of a hundred.
    pub accent: Option<u8>,
    pub search_highlight: bool,
    /// The row changes when it is pointed at.
    pub hovers: bool,
}

/// Which of the hierarchy's colours a depth has.
pub open spec fn hierarchy_color(depth: int) -> int {
    depth % 5
}

fn holds_depth(depths: &Vec<usize>, depth: usize) -> (b: bool)
    ensures
        b == depths@.contains(depth),
{
    let mut next: usize = 0;
    while next < depths.len()
        invariant
            next <= depths@.len(),
            forall|i: int| 0 <= i < next ==> depths@[i] != depth,
        decreases depths@.len() - next,
    {
        if depths[next] == depth {
            assert(depths@[next as int] == depth);
            return true;
        }
        next = next + 1;
    }
    false
}

/// A tree row as it is drawn.
pub fn render_sidebar_tree_row(
    depth: usize,
    is_folder: bool,
    is_expanded: bool,
    has_icon: bool,
    is_active: bool,
    has_search_match: bool,
    guide: &OutlineRowGuides,
) -> (view: TreeRowView)
    ensures
        match view.caret {
            Some(path) => !has_icon && is_folder && path@ == (if is_expanded {
                "icons/caret-down.svg"@
            } else {
                "icons/caret-right.svg"@
            }),
            None => has_icon || !is_folder,
        },
        view.icon_action == (if !has_icon {
            RowAction::Nothing
        } else if is_folder {
            RowAction::Toggle
        } else {
            RowAction::Open
        }),
        view.guides@.len() == depth,
        forall|d: int|
            0 <= d < depth ==> #[trigger] view.guides@[d] == guide.ancestor_depths@.contains(
                d as usize,
            ),
        view.own_guide == (if !guide.extends_from_toggle {
            None
        } else if is_folder {
            Some(18u16)
        } else {
            Some(0u16)
        }),
        view.color == hierarchy_color(depth as int),
        view.accent == (if !is_active {
            None
        } else if has_search_match {
            Some(55u8)
        } else {
            Some(100u8)
        }),
        view.search_highlight == has_search_match,
        view.hovers == (!is_active && !has_search_match),
{
    let mut guides: Vec<bool> = Vec::new();
    let mut next: usize = 0;
    while next < depth
        invariant
            next <= depth,
            guides@.len() == next,
            forall|d: int|
                0 <= d < next ==> #[trigger] guides@[d] == guide.ancestor_depths@.contains(
                    d as usize,
                ),
        decreases depth - next,
    {
        guides.push(holds_depth(&guide.ancestor_depths, next));
        next = next + 1;
    }
    TreeRowView {
        caret: if has_icon || !is_folder {
            None
        } else if is_expanded {
            Some("icons/caret-down.svg")
        } else {
            Some("icons/caret-right.svg")
        },
        icon_action: if !has_icon {
            RowAction::Nothing
        } else if is_folder {
            RowAction::Toggle
        } else {
            RowAction::Open
        },
        guides,
        own_guide: if !guide.extends_from_toggle {
            None
        } else if is_folder {
            Some(18)
        } else {
            Some(0)
        },
        color: depth % 5,
        accent: if !is_active {
            None
        } else if has_search_match {
            Some(55)
        } else {
            Some(100)
        },
        search_highlight: has_search_match,
        hovers: !is_active && !has_search_match,
    }
}

} // verus!
