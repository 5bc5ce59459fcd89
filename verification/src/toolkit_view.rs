//! What the toolkit shows.

use crate::commands::ToolkitTool;
use crate::toolkit::{
    can_expand, hit_key, insert_paragraphs, paragraph_values, preview_paragraphs, CardHeight,
    InputParagraph, SearchHit, ToolkitSearchFilter, TubState,
};
use vstd::prelude::*;

verus! {

/// A hit's card.
#[derive(Debug)]
pub struct ToolkitHitView {
    pub title: String,
    /// The preview has more to show than it shows folded.
    pub can_expand: bool,
    pub expanded: bool,
    pub expand_tooltip: &'static str,
    pub preview: Vec<InputParagraph>,
    /// What a drag of the card carries, besides the title.
    pub drag_text: String,
    pub drag_paragraphs: Vec<InputParagraph>,
    pub height: CardHeight,
}

/// How high a hit's card may be.
pub open spec fn card_height(hit: SearchHit, expanded: bool) -> CardHeight {
    if !expanded && can_expand(hit) {
        CardHeight::Fixed(258)
    } else if expanded {
        CardHeight::Within(258, 720)
    } else {
        CardHeight::Within(36, 258)
    }
}

/// A hit's card, as the state has it.
pub open spec fn hit_shown(view: ToolkitHitView, state: TubState, hit: SearchHit) -> bool {
    let expanded = can_expand(hit) && state.expanded_hits@.contains(hit_key(hit));
    &&& view.title@ == (if hit.title@.len() == 0 {
        hit.file_name@
    } else {
        hit.title@
    })
    &&& view.can_expand == can_expand(hit)
    &&& view.expanded == expanded
    &&& view.expand_tooltip@ == (if expanded {
        "Collapse preview"@
    } else {
        "Expand preview"@
    })
    &&& paragraph_values(view.preview@) == preview_paragraphs(hit, expanded)
    &&& view.drag_text@ == hit.insert_text@
    &&& paragraph_values(view.drag_paragraphs@) == insert_paragraphs(hit)
    &&& view.height == card_height(hit, expanded)
}

/// What stands under the toolkit's search field.
#[derive(Debug)]
pub enum ToolkitResults {
    /// A button that picks a folder.
    PickFolder(&'static str),
    /// The status, without a hit.
    Status(String),
    Hits(Vec<ToolkitHitView>),
}

/// A line of the filter's menu.
#[derive(Clone, Copy, Debug)]
pub struct FilterLine {
    pub filter: ToolkitSearchFilter,
    pub label: &'static str,
    pub checked: bool,
}

/// The open toolkit.
#[derive(Debug)]
pub struct ToolkitView {
    /// A folder is picked: it can be switched, and searched.
    pub has_folder: bool,
    pub filter_label: &'static str,
    pub filters: Vec<FilterLine>,
    pub results: ToolkitResults,
}

/// The filters, in order.
pub open spec fn filter_order() -> Seq<ToolkitSearchFilter> {
    seq![
        ToolkitSearchFilter::All,
        ToolkitSearchFilter::Blocks,
        ToolkitSearchFilter::Tags,
        ToolkitSearchFilter::Analytics,
    ]
}

/// The filter's menu.
pub open spec fn filters_shown(lines: Seq<FilterLine>, selected: ToolkitSearchFilter) -> bool {
    &&& lines.len() == filter_order().len()
    &&& forall|i: int|
        0 <= i < lines.len() ==> {
            let line = #[trigger] lines[i];
            &&& line.filter == filter_order()[i]
            &&& line.label@ == filter_order()[i].label_text()
            &&& line.checked == (filter_order()[i] == selected)
        }
}

/// A line of the filter's menu.
fn filter_line(filter: ToolkitSearchFilter, selected: ToolkitSearchFilter) -> (line: FilterLine)
    ensures
        line.filter == filter,
        line.label@ == filter.label_text(),
        line.checked == (filter == selected),
{
    FilterLine { filter, label: filter.label(), checked: filter == selected }
}

/// The filter's menu: the one in use is checked.
pub fn render_toolkit_filter_menu(selected: ToolkitSearchFilter) -> (lines: Vec<FilterLine>)
    ensures
        filters_shown(lines@, selected),
{
    let mut lines: Vec<FilterLine> = Vec::new();
    lines.push(filter_line(ToolkitSearchFilter::All, selected));
    lines.push(filter_line(ToolkitSearchFilter::Blocks, selected));
    lines.push(filter_line(ToolkitSearchFilter::Tags, selected));
    lines.push(filter_line(ToolkitSearchFilter::Analytics, selected));
    lines
}

impl TubState {
    /// A hit's card.
    pub fn render_toolkit_hit(&self, hit: &SearchHit) -> (view: ToolkitHitView)
        ensures
            hit_shown(view, *self, *hit),
    {
        let expanded = self.is_hit_expanded(hit);
        ToolkitHitView {
            title: hit.shown_title(),
            can_expand: hit.toolkit_hit_preview_can_expand(),
            expanded,
            expand_tooltip: if expanded {
                "Collapse preview"
            } else {
                "Expand preview"
            },
            preview: hit.toolkit_preview_document(expanded),
            drag_text: hit.insert_text.clone(),
            drag_paragraphs: hit.toolkit_hit_insert_paragraphs(),
            height: hit.toolkit_hit_card_height(expanded),
        }
    }

    /// The open toolkit: without a folder a button that picks one, without a
    /// hit the status, else a card for each hit.
    pub fn render_toolkit_expanded(&self) -> (view: ToolkitView)
        ensures
            view.has_folder == self.root is Some,
            view.filter_label@ == self.filter.label_text(),
            filters_shown(view.filters@, self.filter),
            match view.results {
                ToolkitResults::PickFolder(label) => self.root is None && label@
                    == "Select a tub to search evidence"@,
                ToolkitResults::Status(text) => self.root is Some && self.hits@.len() == 0 && text@
                    == self.toolkit_status@,
                ToolkitResults::Hits(cards) => {
                    &&& self.root is Some
                    &&& self.hits@.len() > 0
                    &&& cards@.len() == self.hits@.len()
                    &&& forall|i: int|
                        0 <= i < cards@.len() ==> hit_shown(
                            #[trigger] cards@[i],
                            *self,
                            self.hits@[i],
                        )
                },
            },
    {
        let results = if self.root.is_none() {
            ToolkitResults::PickFolder("Select a tub to search evidence")
        } else if self.hits.len() == 0 {
            ToolkitResults::Status(self.toolkit_status.clone())
        } else {
            let mut cards: Vec<ToolkitHitView> = Vec::new();
            let mut next: usize = 0;
            while next < self.hits.len()
                invariant
                    next <= self.hits@.len(),
                    cards@.len() == next,
                    forall|i: int|
                        0 <= i < next ==> hit_shown(#[trigger] cards@[i], *self, self.hits@[i]),
                decreases self.hits@.len() - next,
            {
                cards.push(self.render_toolkit_hit(&self.hits[next]));
                next = next + 1;
            }
            ToolkitResults::Hits(cards)
        };
        ToolkitView {
            has_folder: self.root.is_some(),
            filter_label: self.filter.label(),
            filters: render_toolkit_filter_menu(self.filter),
            results,
        }
    }
}

/// What stands at the window's right edge.
#[derive(Clone, Copy, Debug, PartialEq, Eq, Structural)]
pub enum RightEdge {
    /// A button that shows the toolkit.
    Collapsed,
    /// The tools' icons; none is open.
    IconBar,
    /// The tub's tool is open.
    Tub,
    /// The comments are open.
    Comments,
}

/// What stands at the window's right edge.
pub open spec fn right_edge_of(collapsed: bool, tool: Option<ToolkitTool>) -> RightEdge {
    if collapsed {
        RightEdge::Collapsed
    } else {
        match tool {
            Some(ToolkitTool::Tub) => RightEdge::Tub,
            Some(ToolkitTool::Comments) => RightEdge::Comments,
            None => RightEdge::IconBar,
        }
    }
}

/// What stands at the window's right edge, how wide it is and how wide it may
/// be drawn.
pub fn render_content_area(collapsed: bool, tool: Option<ToolkitTool>) -> (area: (
    RightEdge,
    (u16, u16),
))
    ensures
        area.0 == right_edge_of(collapsed, tool),
        area.1 == (if collapsed {
            (30u16, 30u16)
        } else if tool is Some {
            (380u16, 620u16)
        } else {
            (40u16, 40u16)
        }),
{
    let edge = if collapsed {
        RightEdge::Collapsed
    } else {
        match tool {
            Some(ToolkitTool::Tub) => RightEdge::Tub,
            Some(ToolkitTool::Comments) => RightEdge::Comments,
            None => RightEdge::IconBar,
        }
    };
    let widths: (u16, u16) = if collapsed {
        (30, 30)
    } else if tool.is_some() {
        (380, 620)
    } else {
        (40, 40)
    };
    (edge, widths)
}

} // verus!
