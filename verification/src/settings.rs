//! The settings overlay: its sections, and what resetting one does.

use crate::keymap::RecordingKey;
use crate::text::same_text;
use vstd::prelude::*;

verus! {

#[derive(Clone, Copy, Debug, PartialEq, Eq, Structural)]
pub enum WorkspaceSettingsOverlay {
    Styles,
    Settings,
}

#[derive(Clone, Copy, Debug, PartialEq, Eq, Structural)]
pub enum WorkspaceSettingsSection {
    General,
    Appearance,
    Collaboration,
    Keymap,
}

#[derive(Clone, Copy, Debug, PartialEq, Eq, Structural)]
pub enum DocumentStyleSection {
    Text,
    Style,
    Colors,
    Size,
    Background,
}

/// The pages of the settings, in order.
pub open spec fn settings_pages() -> Seq<Seq<char>> {
    seq!["General"@, "Appearance"@, "Collaboration"@, "Keymap"@]
}

/// The pages of a document's styles, in order.
pub open spec fn style_pages() -> Seq<Seq<char>> {
    seq!["Text"@, "Style"@, "Colors"@, "Size"@, "Background"@]
}

impl WorkspaceSettingsSection {
    pub open spec fn place(self) -> int {
        match self {
            WorkspaceSettingsSection::General => 0,
            WorkspaceSettingsSection::Appearance => 1,
            WorkspaceSettingsSection::Collaboration => 2,
            WorkspaceSettingsSection::Keymap => 3,
        }
    }

    /// The section's page.
    pub fn title(self) -> (text: &'static str)
        ensures
            text@ == settings_pages()[self.place()],
    {
        match self {
            WorkspaceSettingsSection::General => "General",
            WorkspaceSettingsSection::Appearance => "Appearance",
            WorkspaceSettingsSection::Collaboration => "Collaboration",
            WorkspaceSettingsSection::Keymap => "Keymap",
        }
    }

    /// Where the section's page stands.
    pub fn index(self) -> (index: usize)
        ensures
            index == self.place(),
    {
        match self {
            WorkspaceSettingsSection::General => 0,
            WorkspaceSettingsSection::Appearance => 1,
            WorkspaceSettingsSection::Collaboration => 2,
            WorkspaceSettingsSection::Keymap => 3,
        }
    }
}

impl DocumentStyleSection {
    pub open spec fn place(self) -> int {
        match self {
            DocumentStyleSection::Text => 0,
            DocumentStyleSection::Style => 1,
            DocumentStyleSection::Colors => 2,
            DocumentStyleSection::Size => 3,
            DocumentStyleSection::Background => 4,
        }
    }

    /// The section's page.
    pub fn title(self) -> (text: &'static str)
        ensures
            text@ == style_pages()[self.place()],
    {
        match self {
            DocumentStyleSection::Text => "Text",
            DocumentStyleSection::Style => "Style",
            DocumentStyleSection::Colors => "Colors",
            DocumentStyleSection::Size => "Size",
            DocumentStyleSection::Background => "Background",
        }
    }

    /// Where the section's page stands.
    pub fn index(self) -> (index: usize)
        ensures
            index == self.place(),
    {
        match self {
            DocumentStyleSection::Text => 0,
            DocumentStyleSection::Style => 1,
            DocumentStyleSection::Colors => 2,
            DocumentStyleSection::Size => 3,
            DocumentStyleSection::Background => 4,
        }
    }
}

/// What the overlay shows: its title, by what its state is remembered, and
/// the page that is open.
pub struct SettingsView {
    pub title: &'static str,
    pub settings_id: &'static str,
    pub selected_page: usize,
}

/// By what the overlay's state is remembered.
pub open spec fn settings_id_of(
    overlay: WorkspaceSettingsOverlay,
    style: DocumentStyleSection,
    section: WorkspaceSettingsSection,
) -> Seq<char> {
    match overlay {
        WorkspaceSettingsOverlay::Styles => match style {
            DocumentStyleSection::Text => "document-popup-settings-text"@,
            DocumentStyleSection::Style => "document-popup-settings-style"@,
            DocumentStyleSection::Colors => "document-popup-settings-colors"@,
            DocumentStyleSection::Size => "document-popup-settings-size"@,
            DocumentStyleSection::Background => "document-popup-settings-background"@,
        },
        WorkspaceSettingsOverlay::Settings => match section {
            WorkspaceSettingsSection::General => "app-popup-settings-general"@,
            WorkspaceSettingsSection::Appearance => "app-popup-settings-appearance"@,
            WorkspaceSettingsSection::Collaboration => "app-popup-settings-collaboration"@,
            WorkspaceSettingsSection::Keymap => "app-popup-settings-keymap"@,
        },
    }
}

/// The overlay as it stands.
pub fn render_settings_overlay(
    overlay: WorkspaceSettingsOverlay,
    style: DocumentStyleSection,
    section: WorkspaceSettingsSection,
) -> (view: SettingsView)
    ensures
        view.title@ == (match overlay {
            WorkspaceSettingsOverlay::Styles => "Document"@,
            WorkspaceSettingsOverlay::Settings => "Settings"@,
        }),
        view.settings_id@ == settings_id_of(overlay, style, section),
        view.selected_page == (match overlay {
            WorkspaceSettingsOverlay::Styles => style.place(),
            WorkspaceSettingsOverlay::Settings => section.place(),
        }),
{
    match overlay {
        WorkspaceSettingsOverlay::Styles => SettingsView {
            title: "Document",
            settings_id: match style {
                DocumentStyleSection::Text => "document-popup-settings-text",
                DocumentStyleSection::Style => "document-popup-settings-style",
                DocumentStyleSection::Colors => "document-popup-settings-colors",
                DocumentStyleSection::Size => "document-popup-settings-size",
                DocumentStyleSection::Background => "document-popup-settings-background",
            },
            selected_page: style.index(),
        },
        WorkspaceSettingsOverlay::Settings => SettingsView {
            title: "Settings",
            settings_id: match section {
                WorkspaceSettingsSection::General => "app-popup-settings-general",
                WorkspaceSettingsSection::Appearance => "app-popup-settings-appearance",
                WorkspaceSettingsSection::Collaboration => "app-popup-settings-collaboration",
                WorkspaceSettingsSection::Keymap => "app-popup-settings-keymap",
            },
            selected_page: section.index(),
        },
    }
}

/// What a key does in the overlay.
#[derive(Clone, Copy, Debug, PartialEq, Eq, Structural)]
pub enum OverlayKey {
    /// A row that records took it.
    Recorded,
    Close,
    Pass,
}

/// What a key does in the overlay: a recording row comes first, then Escape
/// closes.
pub fn overlay_key(recording: RecordingKey, key: &str) -> (outcome: OverlayKey)
    ensures
        outcome == (if recording != RecordingKey::NotRecording {
            OverlayKey::Recorded
        } else if key@ == "escape"@ {
            OverlayKey::Close
        } else {
            OverlayKey::Pass
        }),
{
    match recording {
        RecordingKey::NotRecording => if same_text(key, "escape") {
            OverlayKey::Close
        } else {
            OverlayKey::Pass
        },
        _ => OverlayKey::Recorded,
    }
}

/// A document's styles: the parts that a section resets. Sizes are the bits
/// of their numbers.
#[derive(Debug)]
pub struct DocumentTheme<P, S, H, C> {
    pub default_font_family: String,
    pub body_font_size_bits: u32,
    pub normal_bold: bool,
    pub normal_italic: bool,
    pub normal_underline: u8,
    pub custom_paragraph_styles: P,
    pub custom_semantic_styles: S,
    pub custom_highlight_styles: H,
    pub default_text_color: C,
    pub document_background_color: C,
}

/// The styles with one section as it is by default.
pub open spec fn section_reset<P, S, H, C>(
    theme: DocumentTheme<P, S, H, C>,
    defaults: DocumentTheme<P, S, H, C>,
    section: DocumentStyleSection,
) -> DocumentTheme<P, S, H, C> {
    match section {
        DocumentStyleSection::Text => DocumentTheme {
            default_font_family: defaults.default_font_family,
            body_font_size_bits: defaults.body_font_size_bits,
            normal_bold: defaults.normal_bold,
            normal_italic: defaults.normal_italic,
            normal_underline: defaults.normal_underline,
            ..theme
        },
        DocumentStyleSection::Style => DocumentTheme {
            custom_paragraph_styles: defaults.custom_paragraph_styles,
            custom_semantic_styles: defaults.custom_semantic_styles,
            ..theme
        },
        DocumentStyleSection::Colors => DocumentTheme {
            default_text_color: defaults.default_text_color,
            custom_paragraph_styles: defaults.custom_paragraph_styles,
            custom_semantic_styles: defaults.custom_semantic_styles,
            custom_highlight_styles: defaults.custom_highlight_styles,
            ..theme
        },
        DocumentStyleSection::Size => DocumentTheme {
            body_font_size_bits: defaults.body_font_size_bits,
            custom_paragraph_styles: defaults.custom_paragraph_styles,
            custom_semantic_styles: defaults.custom_semantic_styles,
            ..theme
        },
        DocumentStyleSection::Background => DocumentTheme {
            document_background_color: defaults.document_background_color,
            ..theme
        },
    }
}

/// Puts one section of a document's styles back as it is by default. The
/// colour pickers are drawn anew where colours changed.
pub fn reset_document_style_section<P, S, H, C>(
    theme: DocumentTheme<P, S, H, C>,
    defaults: DocumentTheme<P, S, H, C>,
    section: DocumentStyleSection,
    picker_revision: u64,
) -> (reset: (DocumentTheme<P, S, H, C>, u64))
    ensures
        reset.0 == section_reset(theme, defaults, section),
        reset.1 == (if section == DocumentStyleSection::Colors || section
            == DocumentStyleSection::Background {
            picker_revision.wrapping_add(1)
        } else {
            picker_revision
        }),
{
    let mut theme = theme;
    match section {
        DocumentStyleSection::Text => {
            theme.default_font_family = defaults.default_font_family;
            theme.body_font_size_bits = defaults.body_font_size_bits;
            theme.normal_bold = defaults.normal_bold;
            theme.normal_italic = defaults.normal_italic;
            theme.normal_underline = defaults.normal_underline;
            (theme, picker_revision)
        },
        DocumentStyleSection::Style => {
            theme.custom_paragraph_styles = defaults.custom_paragraph_styles;
            theme.custom_semantic_styles = defaults.custom_semantic_styles;
            (theme, picker_revision)
        },
        DocumentStyleSection::Colors => {
            theme.default_text_color = defaults.default_text_color;
            theme.custom_paragraph_styles = defaults.custom_paragraph_styles;
            theme.custom_semantic_styles = defaults.custom_semantic_styles;
            theme.custom_highlight_styles = defaults.custom_highlight_styles;
            (theme, picker_revision.wrapping_add(1))
        },
        DocumentStyleSection::Size => {
            theme.body_font_size_bits = defaults.body_font_size_bits;
            theme.custom_paragraph_styles = defaults.custom_paragraph_styles;
            theme.custom_semantic_styles = defaults.custom_semantic_styles;
            (theme, picker_revision)
        },
        DocumentStyleSection::Background => {
            theme.document_background_color = defaults.document_background_color;
            (theme, picker_revision.wrapping_add(1))
        },
    }
}

/// Resetting a section twice is resetting it once.
pub proof fn a_reset_section_stays_reset<P, S, H, C>(
    theme: DocumentTheme<P, S, H, C>,
    defaults: DocumentTheme<P, S, H, C>,
    section: DocumentStyleSection,
)
    ensures
        section_reset(section_reset(theme, defaults, section), defaults, section) == section_reset(
            theme,
            defaults,
            section,
        ),
{
}

/// With every section reset, a document's styles are the default ones.
pub proof fn resetting_every_section_gives_the_defaults<P, S, H, C>(
    theme: DocumentTheme<P, S, H, C>,
    defaults: DocumentTheme<P, S, H, C>,
)
    ensures
        ({
            let text = section_reset(theme, defaults, DocumentStyleSection::Text);
            let style = section_reset(text, defaults, DocumentStyleSection::Style);
            let colors = section_reset(style, defaults, DocumentStyleSection::Colors);
            let size = section_reset(colors, defaults, DocumentStyleSection::Size);
            section_reset(size, defaults, DocumentStyleSection::Background) == defaults
        }),
{
}

/// A box round a paragraph, its numbers by their bits.
#[derive(Clone, Copy, Debug, PartialEq, Eq, Structural)]
pub struct ParagraphBorder {
    pub width_bits: u32,
    pub space_x_bits: u32,
    pub space_y_bits: u32,
}

/// The bits of a width of one.
pub const ONE_BITS: u32 = 0x3f80_0000;

/// The bits of the space beside a new box.
pub const BOX_SPACE_X_BITS: u32 = 0x40c0_0000;

/// The bits of the space above and below a new box.
pub const BOX_SPACE_Y_BITS: u32 = 0x4000_0000;

/// Whether a paragraph is boxed, and how wide its box is or would be.
pub fn paragraph_boxing(border: Option<ParagraphBorder>) -> (boxing: (bool, u32))
    ensures
        boxing == (match border {
            Some(border) => (true, border.width_bits),
            None => (false, ONE_BITS),
        }),
{
    match border {
        Some(border) => (true, border.width_bits),
        None => (false, ONE_BITS),
    }
}

/// Boxes a paragraph at a width, or takes its box off. A box keeps its
/// spaces, and a new one has the usual ones.
pub fn set_paragraph_boxing(border: Option<ParagraphBorder>, enabled: bool, width_bits: u32) -> (after:
    Option<ParagraphBorder>)
    ensures
        after == (if !enabled {
            None
        } else {
            match border {
                Some(border) => Some(ParagraphBorder { width_bits, ..border }),
                None => Some(
                    ParagraphBorder {
                        width_bits,
                        space_x_bits: BOX_SPACE_X_BITS,
                        space_y_bits: BOX_SPACE_Y_BITS,
                    },
                ),
            }
        }),
{
    if !enabled {
        return None;
    }
    match border {
        Some(border) => Some(
            ParagraphBorder {
                width_bits,
                space_x_bits: border.space_x_bits,
                space_y_bits: border.space_y_bits,
            },
        ),
        None => Some(
            ParagraphBorder {
                width_bits,
                space_x_bits: BOX_SPACE_X_BITS,
                space_y_bits: BOX_SPACE_Y_BITS,
            },
        ),
    }
}

/// Whether text is boxed, and how wide its box is or would be.
pub fn semantic_boxing(border_width: Option<u32>) -> (boxing: (bool, u32))
    ensures
        boxing == (match border_width {
            Some(width_bits) => (true, width_bits),
            None => (false, ONE_BITS),
        }),
{
    match border_width {
        Some(width_bits) => (true, width_bits),
        None => (false, ONE_BITS),
    }
}

/// Boxes text at a width, or takes its box off.
pub fn set_semantic_boxing(enabled: bool, width_bits: u32) -> (border_width: Option<u32>)
    ensures
        border_width == (if enabled {
            Some(width_bits)
        } else {
            None
        }),
{
    if enabled {
        Some(width_bits)
    } else {
        None
    }
}

/// What resetting a section of the settings does.
#[derive(Clone, Copy, Debug, PartialEq, Eq, Structural)]
pub enum SettingsReset {
    /// Autosave goes off, words are selected smartly again, and sent text
    /// goes beside its document.
    General {
        autosave: bool,
        smart_word_selection: bool,
        send_to_document_directory: bool,
    },
    /// The default light theme.
    DefaultTheme,
    /// Discovery runs, over the network alone.
    Discovery { paused: bool, bluetooth: bool },
    DefaultKeymap,
}

/// What resetting a section of the settings does.
pub fn reset_workspace_settings_section(section: WorkspaceSettingsSection) -> (reset: SettingsReset)
    ensures
        reset == (match section {
            WorkspaceSettingsSection::General => SettingsReset::General {
                autosave: false,
                smart_word_selection: true,
                send_to_document_directory: true,
            },
            WorkspaceSettingsSection::Appearance => SettingsReset::DefaultTheme,
            WorkspaceSettingsSection::Collaboration => SettingsReset::Discovery {
                paused: false,
                bluetooth: false,
            },
            WorkspaceSettingsSection::Keymap => SettingsReset::DefaultKeymap,
        }),
{
    match section {
        WorkspaceSettingsSection::General => SettingsReset::General {
            autosave: false,
            smart_word_selection: true,
            send_to_document_directory: true,
        },
        WorkspaceSettingsSection::Appearance => SettingsReset::DefaultTheme,
        WorkspaceSettingsSection::Collaboration => SettingsReset::Discovery {
            paused: false,
            bluetooth: false,
        },
        WorkspaceSettingsSection::Keymap => SettingsReset::DefaultKeymap,
    }
}

/// Where the tub is, as the settings say it.
pub fn tub_root_label(root: Option<&str>) -> (text: String)
    ensures
        text@ == (match root {
            Some(root) => root@,
            None => "No tub selected"@,
        }),
{
    match root {
        Some(root) => String::from_str(root),
        None => String::from_str("No tub selected"),
    }
}

} // verus!
