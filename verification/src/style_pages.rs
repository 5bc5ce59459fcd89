//! The pages of a document's styles and of the settings, and the values that
//! the style pages edit.

use crate::settings::{DocumentStyleSection, WorkspaceSettingsSection};
use vstd::prelude::*;
use vstd::string::StringExecFns;

verus! {

/// A style that has rows of its own.
#[derive(Clone, Copy, Debug, PartialEq, Eq, Structural)]
pub enum ListedStyle {
    Pocket,
    Hat,
    Block,
    Tag,
    Cite,
    Shrink,
    UltraShrink,
    Emphasis,
    Underline,
    Analytic,
    Undertag,
}

/// Where a style's box is kept.
#[derive(Clone, Copy, Debug, PartialEq, Eq, Structural)]
pub enum StyleSlot {
    Paragraph(u8),
    Semantic(u8),
}

/// The styles, in the order of their rows.
pub open spec fn style_order() -> Seq<ListedStyle> {
    seq![
        ListedStyle::Pocket,
        ListedStyle::Hat,
        ListedStyle::Block,
        ListedStyle::Tag,
        ListedStyle::Cite,
        ListedStyle::Shrink,
        ListedStyle::UltraShrink,
        ListedStyle::Emphasis,
        ListedStyle::Underline,
        ListedStyle::Analytic,
        ListedStyle::Undertag,
    ]
}

/// The styles, in the order of their rows.
pub fn listed_styles() -> (styles: Vec<ListedStyle>)
    ensures
        styles@ == style_order(),
{
    vec![
        ListedStyle::Pocket,
        ListedStyle::Hat,
        ListedStyle::Block,
        ListedStyle::Tag,
        ListedStyle::Cite,
        ListedStyle::Shrink,
        ListedStyle::UltraShrink,
        ListedStyle::Emphasis,
        ListedStyle::Underline,
        ListedStyle::Analytic,
        ListedStyle::Undertag,
    ]
}

impl ListedStyle {
    pub open spec fn name_text(self) -> Seq<char> {
        match self {
            ListedStyle::Pocket => "Pocket"@,
            ListedStyle::Hat => "Hat"@,
            ListedStyle::Block => "Block"@,
            ListedStyle::Tag => "Tag"@,
            ListedStyle::Cite => "Cite"@,
            ListedStyle::Shrink => "Shrink"@,
            ListedStyle::UltraShrink => "Ultra Shrink"@,
            ListedStyle::Emphasis => "Emphasis"@,
            ListedStyle::Underline => "Underline"@,
            ListedStyle::Analytic => "Analytic"@,
            ListedStyle::Undertag => "Undertag"@,
        }
    }

    pub fn name(self) -> (text: &'static str)
        ensures
            text@ == self.name_text(),
    {
        match self {
            ListedStyle::Pocket => "Pocket",
            ListedStyle::Hat => "Hat",
            ListedStyle::Block => "Block",
            ListedStyle::Tag => "Tag",
            ListedStyle::Cite => "Cite",
            ListedStyle::Shrink => "Shrink",
            ListedStyle::UltraShrink => "Ultra Shrink",
            ListedStyle::Emphasis => "Emphasis",
            ListedStyle::Underline => "Underline",
            ListedStyle::Analytic => "Analytic",
            ListedStyle::Undertag => "Undertag",
        }
    }

    /// Where the style's box is kept.
    pub open spec fn slot_of(self) -> StyleSlot {
        match self {
            ListedStyle::Pocket => StyleSlot::Paragraph(0),
            ListedStyle::Hat => StyleSlot::Paragraph(1),
            ListedStyle::Block => StyleSlot::Paragraph(2),
            ListedStyle::Tag => StyleSlot::Paragraph(3),
            ListedStyle::Analytic => StyleSlot::Paragraph(4),
            ListedStyle::Undertag => StyleSlot::Paragraph(6),
            ListedStyle::Cite => StyleSlot::Semantic(1),
            ListedStyle::Emphasis => StyleSlot::Semantic(2),
            ListedStyle::Underline => StyleSlot::Semantic(3),
            ListedStyle::Shrink => StyleSlot::Semantic(4),
            ListedStyle::UltraShrink => StyleSlot::Semantic(5),
        }
    }

    pub fn slot(self) -> (slot: StyleSlot)
        ensures
            slot == self.slot_of(),
    {
        match self {
            ListedStyle::Pocket => StyleSlot::Paragraph(0),
            ListedStyle::Hat => StyleSlot::Paragraph(1),
            ListedStyle::Block => StyleSlot::Paragraph(2),
            ListedStyle::Tag => StyleSlot::Paragraph(3),
            ListedStyle::Analytic => StyleSlot::Paragraph(4),
            ListedStyle::Undertag => StyleSlot::Paragraph(6),
            ListedStyle::Cite => StyleSlot::Semantic(1),
            ListedStyle::Emphasis => StyleSlot::Semantic(2),
            ListedStyle::Underline => StyleSlot::Semantic(3),
            ListedStyle::Shrink => StyleSlot::Semantic(4),
            ListedStyle::UltraShrink => StyleSlot::Semantic(5),
        }
    }
}

/// Two styles never share a box.
pub proof fn every_style_has_its_own_box(one: ListedStyle, other: ListedStyle)
    requires
        one != other,
    ensures
        one.slot_of() != other.slot_of(),
{
}

/// A size that a document keeps.
#[derive(Clone, Copy, Debug, PartialEq, Eq, Structural)]
pub enum SizeField {
    Normal,
    Pocket,
    Hat,
    Block,
    Tag,
    Cite,
    Shrink,
    UltraShrink,
    Undertag,
}

/// The size that a style's row edits. Emphasis has the size of a cite,
/// underlined text that of normal text, and an analytic that of a tag.
pub open spec fn size_field_of(style: ListedStyle) -> SizeField {
    match style {
        ListedStyle::Pocket => SizeField::Pocket,
        ListedStyle::Hat => SizeField::Hat,
        ListedStyle::Block => SizeField::Block,
        ListedStyle::Tag | ListedStyle::Analytic => SizeField::Tag,
        ListedStyle::Cite | ListedStyle::Emphasis => SizeField::Cite,
        ListedStyle::Shrink => SizeField::Shrink,
        ListedStyle::UltraShrink => SizeField::UltraShrink,
        ListedStyle::Underline => SizeField::Normal,
        ListedStyle::Undertag => SizeField::Undertag,
    }
}

pub fn size_field(style: ListedStyle) -> (field: SizeField)
    ensures
        field == size_field_of(style),
{
    match style {
        ListedStyle::Pocket => SizeField::Pocket,
        ListedStyle::Hat => SizeField::Hat,
        ListedStyle::Block => SizeField::Block,
        ListedStyle::Tag => SizeField::Tag,
        ListedStyle::Analytic => SizeField::Tag,
        ListedStyle::Cite => SizeField::Cite,
        ListedStyle::Emphasis => SizeField::Cite,
        ListedStyle::Shrink => SizeField::Shrink,
        ListedStyle::UltraShrink => SizeField::UltraShrink,
        ListedStyle::Underline => SizeField::Normal,
        ListedStyle::Undertag => SizeField::Undertag,
    }
}

/// One value for each style.
#[derive(Debug)]
pub struct PerStyle<T> {
    pub pocket: T,
    pub hat: T,
    pub block: T,
    pub tag: T,
    pub cite: T,
    pub shrink: T,
    pub ultra_shrink: T,
    pub emphasis: T,
    pub underline: T,
    pub analytic: T,
    pub undertag: T,
}

impl<T> PerStyle<T> {
    pub open spec fn at(self, style: ListedStyle) -> T {
        match style {
            ListedStyle::Pocket => self.pocket,
            ListedStyle::Hat => self.hat,
            ListedStyle::Block => self.block,
            ListedStyle::Tag => self.tag,
            ListedStyle::Cite => self.cite,
            ListedStyle::Shrink => self.shrink,
            ListedStyle::UltraShrink => self.ultra_shrink,
            ListedStyle::Emphasis => self.emphasis,
            ListedStyle::Underline => self.underline,
            ListedStyle::Analytic => self.analytic,
            ListedStyle::Undertag => self.undertag,
        }
    }

    pub fn get(&self, style: ListedStyle) -> (value: &T)
        ensures
            *value == self.at(style),
    {
        match style {
            ListedStyle::Pocket => &self.pocket,
            ListedStyle::Hat => &self.hat,
            ListedStyle::Block => &self.block,
            ListedStyle::Tag => &self.tag,
            ListedStyle::Cite => &self.cite,
            ListedStyle::Shrink => &self.shrink,
            ListedStyle::UltraShrink => &self.ultra_shrink,
            ListedStyle::Emphasis => &self.emphasis,
            ListedStyle::Underline => &self.underline,
            ListedStyle::Analytic => &self.analytic,
            ListedStyle::Undertag => &self.undertag,
        }
    }

    /// Gives one style a value; the others keep theirs.
    pub fn set(&mut self, style: ListedStyle, value: T)
        ensures
            final(self).pocket == (if style == ListedStyle::Pocket {
                value
            } else {
                old(self).pocket
            }),
            final(self).hat == (if style == ListedStyle::Hat {
                value
            } else {
                old(self).hat
            }),
            final(self).block == (if style == ListedStyle::Block {
                value
            } else {
                old(self).block
            }),
            final(self).tag == (if style == ListedStyle::Tag {
                value
            } else {
                old(self).tag
            }),
            final(self).cite == (if style == ListedStyle::Cite {
                value
            } else {
                old(self).cite
            }),
            final(self).shrink == (if style == ListedStyle::Shrink {
                value
            } else {
                old(self).shrink
            }),
            final(self).ultra_shrink == (if style == ListedStyle::UltraShrink {
                value
            } else {
                old(self).ultra_shrink
            }),
            final(self).emphasis == (if style == ListedStyle::Emphasis {
                value
            } else {
                old(self).emphasis
            }),
            final(self).underline == (if style == ListedStyle::Underline {
                value
            } else {
                old(self).underline
            }),
            final(self).analytic == (if style == ListedStyle::Analytic {
                value
            } else {
                old(self).analytic
            }),
            final(self).undertag == (if style == ListedStyle::Undertag {
                value
            } else {
                old(self).undertag
            }),
            forall|other: ListedStyle| #[trigger]
                final(self).at(other) == (if other == style {
                    value
                } else {
                    old(self).at(other)
                }),
    {
        match style {
            ListedStyle::Pocket => {
                self.pocket = value;
            },
            ListedStyle::Hat => {
                self.hat = value;
            },
            ListedStyle::Block => {
                self.block = value;
            },
            ListedStyle::Tag => {
                self.tag = value;
            },
            ListedStyle::Cite => {
                self.cite = value;
            },
            ListedStyle::Shrink => {
                self.shrink = value;
            },
            ListedStyle::UltraShrink => {
                self.ultra_shrink = value;
            },
            ListedStyle::Emphasis => {
                self.emphasis = value;
            },
            ListedStyle::Underline => {
                self.underline = value;
            },
            ListedStyle::Analytic => {
                self.analytic = value;
            },
            ListedStyle::Undertag => {
                self.undertag = value;
            },
        }
    }
}

/// The sizes of a document, by the bits of their numbers.
#[derive(Clone, Copy, Debug, PartialEq, Eq, Structural)]
pub struct StyleSizes {
    pub normal: u32,
    pub pocket: u32,
    pub hat: u32,
    pub block: u32,
    pub tag: u32,
    pub cite: u32,
    pub shrink: u32,
    pub ultra_shrink: u32,
    pub undertag: u32,
}

impl StyleSizes {
    pub open spec fn at(self, field: SizeField) -> u32 {
        match field {
            SizeField::Normal => self.normal,
            SizeField::Pocket => self.pocket,
            SizeField::Hat => self.hat,
            SizeField::Block => self.block,
            SizeField::Tag => self.tag,
            SizeField::Cite => self.cite,
            SizeField::Shrink => self.shrink,
            SizeField::UltraShrink => self.ultra_shrink,
            SizeField::Undertag => self.undertag,
        }
    }

    /// The size that a style's row shows.
    pub fn style_size(&self, style: ListedStyle) -> (size: u32)
        ensures
            size == self.at(size_field_of(style)),
    {
        self.get(size_field(style))
    }

    /// A size that a document keeps.
    pub fn get(&self, field: SizeField) -> (size: u32)
        ensures
            size == self.at(field),
    {
        match field {
            SizeField::Normal => self.normal,
            SizeField::Pocket => self.pocket,
            SizeField::Hat => self.hat,
            SizeField::Block => self.block,
            SizeField::Tag => self.tag,
            SizeField::Cite => self.cite,
            SizeField::Shrink => self.shrink,
            SizeField::UltraShrink => self.ultra_shrink,
            SizeField::Undertag => self.undertag,
        }
    }

    /// Changes a size that a document keeps; the others stay.
    pub fn set(&mut self, field: SizeField, size: u32)
        ensures
            final(self).normal == (if field == SizeField::Normal {
                size
            } else {
                old(self).normal
            }),
            final(self).pocket == (if field == SizeField::Pocket {
                size
            } else {
                old(self).pocket
            }),
            final(self).hat == (if field == SizeField::Hat {
                size
            } else {
                old(self).hat
            }),
            final(self).block == (if field == SizeField::Block {
                size
            } else {
                old(self).block
            }),
            final(self).tag == (if field == SizeField::Tag {
                size
            } else {
                old(self).tag
            }),
            final(self).cite == (if field == SizeField::Cite {
                size
            } else {
                old(self).cite
            }),
            final(self).shrink == (if field == SizeField::Shrink {
                size
            } else {
                old(self).shrink
            }),
            final(self).ultra_shrink == (if field == SizeField::UltraShrink {
                size
            } else {
                old(self).ultra_shrink
            }),
            final(self).undertag == (if field == SizeField::Undertag {
                size
            } else {
                old(self).undertag
            }),
            forall|other: SizeField| #[trigger]
                final(self).at(other) == (if other == field {
                    size
                } else {
                    old(self).at(other)
                }),
    {
        match field {
            SizeField::Normal => {
                self.normal = size;
            },
            SizeField::Pocket => {
                self.pocket = size;
            },
            SizeField::Hat => {
                self.hat = size;
            },
            SizeField::Block => {
                self.block = size;
            },
            SizeField::Tag => {
                self.tag = size;
            },
            SizeField::Cite => {
                self.cite = size;
            },
            SizeField::Shrink => {
                self.shrink = size;
            },
            SizeField::UltraShrink => {
                self.ultra_shrink = size;
            },
            SizeField::Undertag => {
                self.undertag = size;
            },
        }
    }

    /// Changes the size of a style's row: it shows what was set, and so does
    /// each row of the same size.
    pub fn set_style_size(&mut self, style: ListedStyle, size: u32)
        ensures
            final(self).normal == (if size_field_of(style) == SizeField::Normal {
                size
            } else {
                old(self).normal
            }),
            final(self).pocket == (if size_field_of(style) == SizeField::Pocket {
                size
            } else {
                old(self).pocket
            }),
            final(self).hat == (if size_field_of(style) == SizeField::Hat {
                size
            } else {
                old(self).hat
            }),
            final(self).block == (if size_field_of(style) == SizeField::Block {
                size
            } else {
                old(self).block
            }),
            final(self).tag == (if size_field_of(style) == SizeField::Tag {
                size
            } else {
                old(self).tag
            }),
            final(self).cite == (if size_field_of(style) == SizeField::Cite {
                size
            } else {
                old(self).cite
            }),
            final(self).shrink == (if size_field_of(style) == SizeField::Shrink {
                size
            } else {
                old(self).shrink
            }),
            final(self).ultra_shrink == (if size_field_of(style) == SizeField::UltraShrink {
                size
            } else {
                old(self).ultra_shrink
            }),
            final(self).undertag == (if size_field_of(style) == SizeField::Undertag {
                size
            } else {
                old(self).undertag
            }),
            forall|other: SizeField| #[trigger]
                final(self).at(other) == (if other == size_field_of(style) {
                    size
                } else {
                    old(self).at(other)
                }),
    {
        self.set(size_field(style), size);
    }
}

/// A highlight's row.
#[derive(Clone, Copy, Debug, PartialEq, Eq, Structural)]
pub enum HighlightRow {
    Spoken,
    Insert,
    Alternative,
    Marked,
}

/// A row that edits a colour.
#[derive(Clone, Copy, Debug, PartialEq, Eq, Structural)]
pub enum ColorRow {
    Text,
    Style(ListedStyle),
    Highlight(HighlightRow),
    Background,
}

/// A row that edits a size.
#[derive(Clone, Copy, Debug, PartialEq, Eq, Structural)]
pub enum SizeRow {
    /// The row of the text page.
    NormalText,
    Normal,
    Style(ListedStyle),
}

/// A row of the style pages.
#[derive(Clone, Copy, Debug, PartialEq, Eq, Structural)]
pub enum StyleItem {
    /// A text in the styles as they stand.
    Specimen,
    FontFamily,
    /// Whether normal text is bold or italic.
    NormalFace,
    /// A style's face and box.
    Face(ListedStyle),
    Size(SizeRow),
    Color(ColorRow),
}

/// The size that a row edits.
pub open spec fn row_field(row: SizeRow) -> SizeField {
    match row {
        SizeRow::NormalText | SizeRow::Normal => SizeField::Normal,
        SizeRow::Style(style) => size_field_of(style),
    }
}

pub fn size_row_field(row: SizeRow) -> (field: SizeField)
    ensures
        field == row_field(row),
{
    match row {
        SizeRow::NormalText => SizeField::Normal,
        SizeRow::Normal => SizeField::Normal,
        SizeRow::Style(style) => size_field(style),
    }
}

impl StyleItem {
    /// The row's label; none where the row is a picture of its own.
    pub open spec fn label_text(self) -> Option<Seq<char>> {
        match self {
            StyleItem::Specimen | StyleItem::FontFamily => None,
            StyleItem::NormalFace => Some("Normal"@),
            StyleItem::Face(style) => Some(style.name_text()),
            StyleItem::Size(SizeRow::NormalText) => Some("Normal size (pt)"@),
            StyleItem::Size(SizeRow::Normal) => Some("Normal (pt)"@),
            StyleItem::Size(SizeRow::Style(style)) => Some(style.name_text() + " (pt)"@),
            StyleItem::Color(ColorRow::Text) => Some("Text"@),
            StyleItem::Color(ColorRow::Style(style)) => Some(style.name_text()),
            StyleItem::Color(ColorRow::Highlight(HighlightRow::Spoken)) => Some(
                "Spoken highlight"@,
            ),
            StyleItem::Color(ColorRow::Highlight(HighlightRow::Insert)) => Some(
                "Insert highlight"@,
            ),
            StyleItem::Color(ColorRow::Highlight(HighlightRow::Alternative)) => Some(
                "Alt highlight"@,
            ),
            StyleItem::Color(ColorRow::Highlight(HighlightRow::Marked)) => Some(
                "Marked highlight"@,
            ),
            StyleItem::Color(ColorRow::Background) => Some("Document background"@),
        }
    }

    pub fn label(self) -> (label: Option<String>)
        ensures
            match (label, self.label_text()) {
                (Some(label), Some(text)) => label@ == text,
                (None, None) => true,
                _ => false,
            },
    {
        match self {
            StyleItem::Specimen => None,
            StyleItem::FontFamily => None,
            StyleItem::NormalFace => Some(String::from_str("Normal")),
            StyleItem::Face(style) => Some(String::from_str(style.name())),
            StyleItem::Size(SizeRow::NormalText) => Some(String::from_str("Normal size (pt)")),
            StyleItem::Size(SizeRow::Normal) => Some(String::from_str("Normal (pt)")),
            StyleItem::Size(SizeRow::Style(style)) => {
                let mut label = String::from_str(style.name());
                label.append(" (pt)");
                Some(label)
            },
            StyleItem::Color(ColorRow::Text) => Some(String::from_str("Text")),
            StyleItem::Color(ColorRow::Style(style)) => Some(String::from_str(style.name())),
            StyleItem::Color(ColorRow::Highlight(HighlightRow::Spoken)) => Some(
                String::from_str("Spoken highlight"),
            ),
            StyleItem::Color(ColorRow::Highlight(HighlightRow::Insert)) => Some(
                String::from_str("Insert highlight"),
            ),
            StyleItem::Color(ColorRow::Highlight(HighlightRow::Alternative)) => Some(
                String::from_str("Alt highlight"),
            ),
            StyleItem::Color(ColorRow::Highlight(HighlightRow::Marked)) => Some(
                String::from_str("Marked highlight"),
            ),
            StyleItem::Color(ColorRow::Background) => Some(
                String::from_str("Document background"),
            ),
        }
    }
}

/// A group of rows under a title.
#[derive(Debug)]
pub struct StyleGroup {
    pub title: &'static str,
    pub items: Vec<StyleItem>,
}

/// A page of the styles.
#[derive(Debug)]
pub struct StylePage {
    /// What the page is called, and what its reset resets.
    pub section: DocumentStyleSection,
    pub description: Option<&'static str>,
    pub open: bool,
    pub groups: Vec<StyleGroup>,
}

/// The rows of a page, group by group.
pub open spec fn style_page_rows(section: DocumentStyleSection) -> Seq<(Seq<char>, Seq<StyleItem>)> {
    match section {
        DocumentStyleSection::Text => seq![
            ("Specimen"@, seq![StyleItem::Specimen]),
            (
                "Text"@,
                seq![
                    StyleItem::FontFamily,
                    StyleItem::Size(SizeRow::NormalText),
                    StyleItem::NormalFace,
                ],
            ),
        ],
        DocumentStyleSection::Style => seq![
            ("Style"@, style_order().map_values(|style: ListedStyle| StyleItem::Face(style))),
        ],
        DocumentStyleSection::Colors => seq![
            (
                "Style Colors"@,
                seq![StyleItem::Color(ColorRow::Text)] + style_order().map_values(
                    |style: ListedStyle| StyleItem::Color(ColorRow::Style(style)),
                ),
            ),
            (
                "Highlights"@,
                seq![
                    StyleItem::Color(ColorRow::Highlight(HighlightRow::Spoken)),
                    StyleItem::Color(ColorRow::Highlight(HighlightRow::Insert)),
                    StyleItem::Color(ColorRow::Highlight(HighlightRow::Alternative)),
                    StyleItem::Color(ColorRow::Highlight(HighlightRow::Marked)),
                ],
            ),
        ],
        DocumentStyleSection::Size => seq![
            (
                "Size"@,
                seq![StyleItem::Size(SizeRow::Normal)] + style_order().map_values(
                    |style: ListedStyle| StyleItem::Size(SizeRow::Style(style)),
                ),
            ),
        ],
        DocumentStyleSection::Background => seq![
            ("Background"@, seq![StyleItem::Color(ColorRow::Background)]),
        ],
    }
}

/// A page shows the rows of its section.
pub open spec fn style_page_shown(page: StylePage, section: DocumentStyleSection) -> bool {
    &&& page.section == section
    &&& match page.description {
        Some(text) => section == DocumentStyleSection::Text && text@
            == "Stored inside this document — collaborators see these styles."@,
        None => section != DocumentStyleSection::Text,
    }
    &&& page.open == (section == DocumentStyleSection::Text)
    &&& page.groups@.map_values(|group: StyleGroup| (group.title@, group.items@))
        == style_page_rows(section)
}

fn faces() -> (items: Vec<StyleItem>)
    ensures
        items@ == style_order().map_values(|style: ListedStyle| StyleItem::Face(style)),
{
    let styles = listed_styles();
    let mut items: Vec<StyleItem> = Vec::new();
    let mut next: usize = 0;
    while next < styles.len()
        invariant
            next <= styles@.len(),
            styles@ == style_order(),
            items@.len() == next,
            forall|i: int| 0 <= i < next ==> #[trigger] items@[i] == StyleItem::Face(styles@[i]),
        decreases styles@.len() - next,
    {
        items.push(StyleItem::Face(styles[next]));
        next = next + 1;
    }
    assert(items@ =~= style_order().map_values(|style: ListedStyle| StyleItem::Face(style)));
    items
}

fn colors() -> (items: Vec<StyleItem>)
    ensures
        items@ == seq![StyleItem::Color(ColorRow::Text)] + style_order().map_values(
            |style: ListedStyle| StyleItem::Color(ColorRow::Style(style)),
        ),
{
    let styles = listed_styles();
    let mut items: Vec<StyleItem> = Vec::new();
    items.push(StyleItem::Color(ColorRow::Text));
    let mut next: usize = 0;
    while next < styles.len()
        invariant
            next <= styles@.len(),
            styles@ == style_order(),
            items@.len() == next + 1,
            items@[0] == StyleItem::Color(ColorRow::Text),
            forall|i: int|
                1 <= i <= next ==> #[trigger] items@[i] == StyleItem::Color(
                    ColorRow::Style(styles@[i - 1]),
                ),
        decreases styles@.len() - next,
    {
        items.push(StyleItem::Color(ColorRow::Style(styles[next])));
        next = next + 1;
    }
    assert(items@ =~= seq![StyleItem::Color(ColorRow::Text)] + style_order().map_values(
        |style: ListedStyle| StyleItem::Color(ColorRow::Style(style)),
    ));
    items
}

fn sizes() -> (items: Vec<StyleItem>)
    ensures
        items@ == seq![StyleItem::Size(SizeRow::Normal)] + style_order().map_values(
            |style: ListedStyle| StyleItem::Size(SizeRow::Style(style)),
        ),
{
    let styles = listed_styles();
    let mut items: Vec<StyleItem> = Vec::new();
    items.push(StyleItem::Size(SizeRow::Normal));
    let mut next: usize = 0;
    while next < styles.len()
        invariant
            next <= styles@.len(),
            styles@ == style_order(),
            items@.len() == next + 1,
            items@[0] == StyleItem::Size(SizeRow::Normal),
            forall|i: int|
                1 <= i <= next ==> #[trigger] items@[i] == StyleItem::Size(
                    SizeRow::Style(styles@[i - 1]),
                ),
        decreases styles@.len() - next,
    {
        items.push(StyleItem::Size(SizeRow::Style(styles[next])));
        next = next + 1;
    }
    assert(items@ =~= seq![StyleItem::Size(SizeRow::Normal)] + style_order().map_values(
        |style: ListedStyle| StyleItem::Size(SizeRow::Style(style)),
    ));
    items
}

/// A page of the styles.
pub fn document_style_page(section: DocumentStyleSection) -> (page: StylePage)
    ensures
        style_page_shown(page, section),
{
    let mut groups: Vec<StyleGroup> = Vec::new();
    let mut description: Option<&'static str> = None;
    let mut open = false;
    match section {
        DocumentStyleSection::Text => {
            description = Some("Stored inside this document — collaborators see these styles.");
            open = true;
            groups.push(StyleGroup { title: "Specimen", items: vec![StyleItem::Specimen] });
            groups.push(
                StyleGroup {
                    title: "Text",
                    items: vec![
                        StyleItem::FontFamily,
                        StyleItem::Size(SizeRow::NormalText),
                        StyleItem::NormalFace,
                    ],
                },
            );
            assert(groups@[0].items@ =~= seq![StyleItem::Specimen]);
            assert(groups@[1].items@ =~= seq![
                StyleItem::FontFamily,
                StyleItem::Size(SizeRow::NormalText),
                StyleItem::NormalFace,
            ]);
        },
        DocumentStyleSection::Style => {
            groups.push(StyleGroup { title: "Style", items: faces() });
        },
        DocumentStyleSection::Colors => {
            groups.push(StyleGroup { title: "Style Colors", items: colors() });
            groups.push(
                StyleGroup {
                    title: "Highlights",
                    items: vec![
                        StyleItem::Color(ColorRow::Highlight(HighlightRow::Spoken)),
                        StyleItem::Color(ColorRow::Highlight(HighlightRow::Insert)),
                        StyleItem::Color(ColorRow::Highlight(HighlightRow::Alternative)),
                        StyleItem::Color(ColorRow::Highlight(HighlightRow::Marked)),
                    ],
                },
            );
            assert(groups@[1].items@ =~= seq![
                StyleItem::Color(ColorRow::Highlight(HighlightRow::Spoken)),
                StyleItem::Color(ColorRow::Highlight(HighlightRow::Insert)),
                StyleItem::Color(ColorRow::Highlight(HighlightRow::Alternative)),
                StyleItem::Color(ColorRow::Highlight(HighlightRow::Marked)),
            ]);
        },
        DocumentStyleSection::Size => {
            groups.push(StyleGroup { title: "Size", items: sizes() });
        },
        DocumentStyleSection::Background => {
            groups.push(
                StyleGroup {
                    title: "Background",
                    items: vec![StyleItem::Color(ColorRow::Background)],
                },
            );
            assert(groups@[0].items@ =~= seq![StyleItem::Color(ColorRow::Background)]);
        },
    }
    assert(groups@.map_values(|group: StyleGroup| (group.title@, group.items@))
        =~= style_page_rows(section));
    StylePage { section, description, open, groups }
}

/// The sections of the styles, in order.
pub open spec fn style_sections() -> Seq<DocumentStyleSection> {
    seq![
        DocumentStyleSection::Text,
        DocumentStyleSection::Style,
        DocumentStyleSection::Colors,
        DocumentStyleSection::Size,
        DocumentStyleSection::Background,
    ]
}

/// The pages of the styles, each where its section says.
pub fn document_style_pages() -> (pages: Vec<StylePage>)
    ensures
        pages@.len() == style_sections().len(),
        forall|i: int|
            0 <= i < pages@.len() ==> style_page_shown(#[trigger] pages@[i], style_sections()[i]),
        forall|i: int| 0 <= i < style_sections().len() ==> (#[trigger] style_sections()[i]).place() == i,
{
    let mut pages: Vec<StylePage> = Vec::new();
    pages.push(document_style_page(DocumentStyleSection::Text));
    pages.push(document_style_page(DocumentStyleSection::Style));
    pages.push(document_style_page(DocumentStyleSection::Colors));
    pages.push(document_style_page(DocumentStyleSection::Size));
    pages.push(document_style_page(DocumentStyleSection::Background));
    pages
}

/// Every style has a row for its face, its colour and its size.
pub proof fn every_style_has_its_rows(style: ListedStyle)
    ensures
        style_page_rows(DocumentStyleSection::Style)[0].1.contains(StyleItem::Face(style)),
        style_page_rows(DocumentStyleSection::Colors)[0].1.contains(
            StyleItem::Color(ColorRow::Style(style)),
        ),
        style_page_rows(DocumentStyleSection::Size)[0].1.contains(
            StyleItem::Size(SizeRow::Style(style)),
        ),
{
    let place: int = match style {
        ListedStyle::Pocket => 0,
        ListedStyle::Hat => 1,
        ListedStyle::Block => 2,
        ListedStyle::Tag => 3,
        ListedStyle::Cite => 4,
        ListedStyle::Shrink => 5,
        ListedStyle::UltraShrink => 6,
        ListedStyle::Emphasis => 7,
        ListedStyle::Underline => 8,
        ListedStyle::Analytic => 9,
        ListedStyle::Undertag => 10,
    };
    assert(style_order()[place] == style);
    assert(style_page_rows(DocumentStyleSection::Style)[0].1[place] == StyleItem::Face(style));
    assert(style_page_rows(DocumentStyleSection::Colors)[0].1[place + 1] == StyleItem::Color(
        ColorRow::Style(style),
    ));
    assert(style_page_rows(DocumentStyleSection::Size)[0].1[place + 1] == StyleItem::Size(
        SizeRow::Style(style),
    ));
}

/// A row of the settings.
#[derive(Clone, Copy, Debug, PartialEq, Eq, Structural)]
pub enum SettingsItem {
    SmartWordSelection,
    Autosave,
    SendToDocumentDirectory,
    SendCustomDirectory,
    TubRoot,
    ThemePicker,
    DropboxConnection,
    DropboxDocumentBinding,
    KeymapExchange,
    KeymapEditor,
}

/// A group of the settings.
#[derive(Debug)]
pub struct SettingsGroup {
    pub title: &'static str,
    pub description: Option<&'static str>,
    pub items: Vec<SettingsItem>,
}

/// A page of the settings.
#[derive(Debug)]
pub struct SettingsPage {
    pub section: WorkspaceSettingsSection,
    pub description: &'static str,
    pub open: bool,
    /// The page has a reset of its own.
    pub resets: bool,
    pub groups: Vec<SettingsGroup>,
}

/// The groups of a page: title, description and rows.
pub open spec fn settings_page_rows(section: WorkspaceSettingsSection) -> Seq<
    (Seq<char>, Option<Seq<char>>, Seq<SettingsItem>),
> {
    match section {
        WorkspaceSettingsSection::General => seq![
            (
                "Editing"@,
                None,
                seq![
                    SettingsItem::SmartWordSelection,
                    SettingsItem::Autosave,
                    SettingsItem::SendToDocumentDirectory,
                    SettingsItem::SendCustomDirectory,
                ],
            ),
            ("Workspace"@, None, seq![SettingsItem::TubRoot]),
        ],
        WorkspaceSettingsSection::Appearance => seq![
            ("Theme"@, Some("Applies immediately."@), seq![SettingsItem::ThemePicker]),
        ],
        WorkspaceSettingsSection::Collaboration => seq![
            (
                "People and discovery"@,
                Some(
                    "Moved to the Collab Hub — open it from the Collaborate menu or the status bar."@,
                ),
                Seq::empty(),
            ),
            (
                "Dropbox"@,
                None,
                seq![SettingsItem::DropboxConnection, SettingsItem::DropboxDocumentBinding],
            ),
        ],
        WorkspaceSettingsSection::Keymap => seq![
            ("Exchange"@, None, seq![SettingsItem::KeymapExchange]),
            ("Keyboard shortcuts"@, None, seq![SettingsItem::KeymapEditor]),
        ],
    }
}

/// A group by its values.
pub open spec fn settings_group_value(group: SettingsGroup) -> (
    Seq<char>,
    Option<Seq<char>>,
    Seq<SettingsItem>,
) {
    (
        group.title@,
        match group.description {
            Some(text) => Some(text@),
            None => None,
        },
        group.items@,
    )
}

/// A page's description.
pub open spec fn settings_page_description(section: WorkspaceSettingsSection) -> Seq<char> {
    match section {
        WorkspaceSettingsSection::General
        | WorkspaceSettingsSection::Keymap => "Applies to this machine — every document."@,
        WorkspaceSettingsSection::Appearance => "Applies to this machine — every document. Document styles live under Document ▸ Styles."@,
        WorkspaceSettingsSection::Collaboration => "Applies to this machine — identity, trust, and transports."@,
    }
}

/// A page shows the groups of its section.
pub open spec fn settings_page_shown(page: SettingsPage, section: WorkspaceSettingsSection) -> bool {
    &&& page.section == section
    &&& page.description@ == settings_page_description(section)
    &&& page.open == (section == WorkspaceSettingsSection::General)
    &&& page.resets == (section != WorkspaceSettingsSection::Appearance)
    &&& page.groups@.map_values(|group: SettingsGroup| settings_group_value(group))
        == settings_page_rows(section)
}

/// A page of the settings.
pub fn workspace_settings_page(section: WorkspaceSettingsSection) -> (page: SettingsPage)
    ensures
        settings_page_shown(page, section),
{
    let mut groups: Vec<SettingsGroup> = Vec::new();
    let mut description = "Applies to this machine — every document.";
    let mut open = false;
    let mut resets = true;
    match section {
        WorkspaceSettingsSection::General => {
            open = true;
            groups.push(
                SettingsGroup {
                    title: "Editing",
                    description: None,
                    items: vec![
                        SettingsItem::SmartWordSelection,
                        SettingsItem::Autosave,
                        SettingsItem::SendToDocumentDirectory,
                        SettingsItem::SendCustomDirectory,
                    ],
                },
            );
            groups.push(
                SettingsGroup {
                    title: "Workspace",
                    description: None,
                    items: vec![SettingsItem::TubRoot],
                },
            );
            assert(groups@[0].items@ =~= seq![
                SettingsItem::SmartWordSelection,
                SettingsItem::Autosave,
                SettingsItem::SendToDocumentDirectory,
                SettingsItem::SendCustomDirectory,
            ]);
            assert(groups@[1].items@ =~= seq![SettingsItem::TubRoot]);
        },
        WorkspaceSettingsSection::Appearance => {
            description =
            "Applies to this machine — every document. Document styles live under Document ▸ Styles.";
            resets = false;
            groups.push(
                SettingsGroup {
                    title: "Theme",
                    description: Some("Applies immediately."),
                    items: vec![SettingsItem::ThemePicker],
                },
            );
            assert(groups@[0].items@ =~= seq![SettingsItem::ThemePicker]);
        },
        WorkspaceSettingsSection::Collaboration => {
            description = "Applies to this machine — identity, trust, and transports.";
            groups.push(
                SettingsGroup {
                    title: "People and discovery",
                    description: Some(
                        "Moved to the Collab Hub — open it from the Collaborate menu or the status bar.",
                    ),
                    items: Vec::new(),
                },
            );
            groups.push(
                SettingsGroup {
                    title: "Dropbox",
                    description: None,
                    items: vec![
                        SettingsItem::DropboxConnection,
                        SettingsItem::DropboxDocumentBinding,
                    ],
                },
            );
            assert(groups@[0].items@ =~= Seq::empty());
            assert(groups@[1].items@ =~= seq![
                SettingsItem::DropboxConnection,
                SettingsItem::DropboxDocumentBinding,
            ]);
        },
        WorkspaceSettingsSection::Keymap => {
            groups.push(
                SettingsGroup {
                    title: "Exchange",
                    description: None,
                    items: vec![SettingsItem::KeymapExchange],
                },
            );
            groups.push(
                SettingsGroup {
                    title: "Keyboard shortcuts",
                    description: None,
                    items: vec![SettingsItem::KeymapEditor],
                },
            );
            assert(groups@[0].items@ =~= seq![SettingsItem::KeymapExchange]);
            assert(groups@[1].items@ =~= seq![SettingsItem::KeymapEditor]);
        },
    }
    assert(groups@.map_values(|group: SettingsGroup| settings_group_value(group))
        =~= settings_page_rows(section));
    SettingsPage { section, description, open, resets, groups }
}

/// The sections of the settings, in order.
pub open spec fn settings_sections() -> Seq<WorkspaceSettingsSection> {
    seq![
        WorkspaceSettingsSection::General,
        WorkspaceSettingsSection::Appearance,
        WorkspaceSettingsSection::Collaboration,
        WorkspaceSettingsSection::Keymap,
    ]
}

/// The pages of the settings, each where its section says.
pub fn workspace_settings_pages() -> (pages: Vec<SettingsPage>)
    ensures
        pages@.len() == settings_sections().len(),
        forall|i: int|
            0 <= i < pages@.len() ==> settings_page_shown(
                #[trigger] pages@[i],
                settings_sections()[i],
            ),
        forall|i: int|
            0 <= i < settings_sections().len() ==> (#[trigger] settings_sections()[i]).place() == i,
{
    let mut pages: Vec<SettingsPage> = Vec::new();
    pages.push(workspace_settings_page(WorkspaceSettingsSection::General));
    pages.push(workspace_settings_page(WorkspaceSettingsSection::Appearance));
    pages.push(workspace_settings_page(WorkspaceSettingsSection::Collaboration));
    pages.push(workspace_settings_page(WorkspaceSettingsSection::Keymap));
    pages
}

} // verus!
