//! What resetting and switching settings changes, and what a join opens.

use crate::collaboration::{
    collaboration_discovery_context, copy_active_collaboration_ticket, copy_ticket_after_start,
    join_collaboration_from_clipboard, joined_kind, leave_all_collaboration_sessions,
    start_collaboration_on_document, Clipboard, JoinFailure, Notice, ShareStep,
};
use crate::keymap::RecordingKey;
use crate::pane::PanelId;
use crate::panels::{OpenPanels, PanelKind};
use crate::settings::{
    overlay_key, paragraph_boxing, render_settings_overlay, reset_document_style_section,
    reset_workspace_settings_section, semantic_boxing, set_paragraph_boxing, set_semantic_boxing,
    DocumentStyleSection, DocumentTheme, OverlayKey, ParagraphBorder, SettingsReset, SettingsView,
    WorkspaceSettingsOverlay, WorkspaceSettingsSection,
};
use vstd::prelude::*;

verus! {

/// Resetting a section puts back what that section shows and nothing else: the
/// text its font, size and marks; the styles the document's own styles; the
/// colours the text's and those of its styles and highlights; the sizes the
/// text's and those of its styles; the background its colour.
pub proof fn a_section_resets_its_own<P, S, H, C>(
    theme: DocumentTheme<P, S, H, C>,
    defaults: DocumentTheme<P, S, H, C>,
    section: DocumentStyleSection,
    revision: u64,
    reset: (DocumentTheme<P, S, H, C>, u64),
)
    requires
        call_ensures(
            reset_document_style_section::<P, S, H, C>,
            (theme, defaults, section, revision),
            reset,
        ),
    ensures
        reset.0.default_font_family == (if section == DocumentStyleSection::Text {
            defaults.default_font_family
        } else {
            theme.default_font_family
        }),
        reset.0.normal_bold == (if section == DocumentStyleSection::Text {
            defaults.normal_bold
        } else {
            theme.normal_bold
        }),
        reset.0.normal_italic == (if section == DocumentStyleSection::Text {
            defaults.normal_italic
        } else {
            theme.normal_italic
        }),
        reset.0.normal_underline == (if section == DocumentStyleSection::Text {
            defaults.normal_underline
        } else {
            theme.normal_underline
        }),
        reset.0.body_font_size_bits == (if section == DocumentStyleSection::Text || section
            == DocumentStyleSection::Size {
            defaults.body_font_size_bits
        } else {
            theme.body_font_size_bits
        }),
        section == DocumentStyleSection::Style || section == DocumentStyleSection::Colors || section
            == DocumentStyleSection::Size ==> reset.0.custom_paragraph_styles
            == defaults.custom_paragraph_styles && reset.0.custom_semantic_styles
            == defaults.custom_semantic_styles,
        section == DocumentStyleSection::Text || section == DocumentStyleSection::Background
            ==> reset.0.custom_paragraph_styles == theme.custom_paragraph_styles
            && reset.0.custom_semantic_styles == theme.custom_semantic_styles,
        reset.0.custom_highlight_styles == (if section == DocumentStyleSection::Colors {
            defaults.custom_highlight_styles
        } else {
            theme.custom_highlight_styles
        }),
        reset.0.default_text_color == (if section == DocumentStyleSection::Colors {
            defaults.default_text_color
        } else {
            theme.default_text_color
        }),
        reset.0.document_background_color == (if section == DocumentStyleSection::Background {
            defaults.document_background_color
        } else {
            theme.document_background_color
        }),
        reset.1 == revision <==> !(section == DocumentStyleSection::Colors || section
            == DocumentStyleSection::Background),
{
}

/// A section of the settings is reset to how a window comes: autosave off and
/// words selected smartly, the default theme, discovery running without
/// bluetooth, and the default keys.
pub proof fn settings_reset_to_how_a_window_comes(
    section: WorkspaceSettingsSection,
    reset: SettingsReset,
)
    requires
        call_ensures(reset_workspace_settings_section, (section,), reset),
    ensures
        section == WorkspaceSettingsSection::General <==> reset is General,
        section == WorkspaceSettingsSection::Appearance <==> reset == SettingsReset::DefaultTheme,
        section == WorkspaceSettingsSection::Collaboration <==> reset is Discovery,
        section == WorkspaceSettingsSection::Keymap <==> reset == SettingsReset::DefaultKeymap,
        reset matches SettingsReset::General {
            autosave,
            smart_word_selection,
            send_to_document_directory,
        } ==> !autosave && smart_word_selection && send_to_document_directory,
        reset matches SettingsReset::Discovery { paused, bluetooth } ==> !paused && !bluetooth,
{
}

/// The page that is open is the one of the section, under its own title.
pub proof fn the_open_page_is_the_sections(
    overlay: WorkspaceSettingsOverlay,
    style: DocumentStyleSection,
    section: WorkspaceSettingsSection,
    view: SettingsView,
    title: &'static str,
    style_title: &'static str,
)
    requires
        call_ensures(render_settings_overlay, (overlay, style, section), view),
        call_ensures(WorkspaceSettingsSection::title, (section,), title),
        call_ensures(DocumentStyleSection::title, (style,), style_title),
    ensures
        overlay == WorkspaceSettingsOverlay::Settings ==> view.title@ == "Settings"@,
        overlay == WorkspaceSettingsOverlay::Styles ==> view.title@ == "Document"@,
        overlay == WorkspaceSettingsOverlay::Settings && view.selected_page == 0 ==> title@
            == "General"@ && section == WorkspaceSettingsSection::General,
        overlay == WorkspaceSettingsOverlay::Settings && view.selected_page == 1 ==> title@
            == "Appearance"@ && section == WorkspaceSettingsSection::Appearance,
        overlay == WorkspaceSettingsOverlay::Settings && view.selected_page == 2 ==> title@
            == "Collaboration"@ && section == WorkspaceSettingsSection::Collaboration,
        overlay == WorkspaceSettingsOverlay::Settings && view.selected_page == 3 ==> title@
            == "Keymap"@ && section == WorkspaceSettingsSection::Keymap,
        overlay == WorkspaceSettingsOverlay::Styles && view.selected_page == 0 ==> style_title@
            == "Text"@ && style == DocumentStyleSection::Text,
        overlay == WorkspaceSettingsOverlay::Styles && view.selected_page == 1 ==> style_title@
            == "Style"@ && style == DocumentStyleSection::Style,
        overlay == WorkspaceSettingsOverlay::Styles && view.selected_page == 2 ==> style_title@
            == "Colors"@ && style == DocumentStyleSection::Colors,
        overlay == WorkspaceSettingsOverlay::Styles && view.selected_page == 3 ==> style_title@
            == "Size"@ && style == DocumentStyleSection::Size,
        overlay == WorkspaceSettingsOverlay::Styles && view.selected_page == 4 ==> style_title@
            == "Background"@ && style == DocumentStyleSection::Background,
        view.selected_page < 5,
{
}

/// A row that records takes the key before the overlay does; else escape
/// closes the overlay and no other key does.
pub proof fn a_recording_row_comes_before_the_overlay(
    recording: RecordingKey,
    key: &str,
    outcome: OverlayKey,
)
    requires
        call_ensures(overlay_key, (recording, key), outcome),
    ensures
        outcome == OverlayKey::Recorded <==> recording != RecordingKey::NotRecording,
        outcome == OverlayKey::Close <==> recording == RecordingKey::NotRecording && key@
            == "escape"@,
{
}

/// A box that is put on shows at its width and comes off again; one that was
/// there keeps its spaces.
pub proof fn a_box_shows_at_its_width(
    border: Option<ParagraphBorder>,
    width_bits: u32,
    on: Option<ParagraphBorder>,
    off: Option<ParagraphBorder>,
    shown: (bool, u32),
    gone: (bool, u32),
    text_on: Option<u32>,
    text_off: Option<u32>,
    text_shown: (bool, u32),
    text_gone: (bool, u32),
)
    requires
        call_ensures(set_paragraph_boxing, (border, true, width_bits), on),
        call_ensures(set_paragraph_boxing, (on, false, width_bits), off),
        call_ensures(paragraph_boxing, (on,), shown),
        call_ensures(paragraph_boxing, (off,), gone),
        call_ensures(set_semantic_boxing, (true, width_bits), text_on),
        call_ensures(set_semantic_boxing, (false, width_bits), text_off),
        call_ensures(semantic_boxing, (text_on,), text_shown),
        call_ensures(semantic_boxing, (text_off,), text_gone),
    ensures
        shown == (true, width_bits),
        !gone.0,
        off is None,
        border is Some ==> on is Some && (on->0).space_x_bits == (border->0).space_x_bits && (
        on->0).space_y_bits == (border->0).space_y_bits,
        text_shown == (true, width_bits),
        !text_gone.0,
{
}

/// A session that was joined opens as its document's kind, and only where its
/// writing and its service are of that kind too.
pub proof fn a_joined_session_is_of_one_kind(
    payload: PanelKind,
    services: Option<(PanelKind, PanelKind)>,
    kind: Result<PanelKind, JoinFailure>,
)
    requires
        call_ensures(joined_kind, (payload, services), kind),
    ensures
        kind is Ok <==> services is Some && (services->0).0 == payload && (services->0).1 == payload,
        kind is Ok ==> kind->Ok_0 == payload,
        services is None ==> kind->Err_0 is ServicesMissing,
        services is Some && kind is Err ==> kind->Err_0 is KindMismatch,
{
}

/// A session starts for what is open and has its service: a flow as a flow and
/// a document as a document.
pub proof fn a_session_starts_for_what_is_open(
    panels: OpenPanels,
    panel: PanelId,
    document_service: bool,
    flow_service: bool,
    kind: Option<PanelKind>,
    left: Vec<PanelId>,
)
    requires
        call_ensures(
            start_collaboration_on_document,
            (&panels, panel, document_service, flow_service),
            kind,
        ),
        call_ensures(leave_all_collaboration_sessions, (&panels,), left),
    ensures
        kind == Some(PanelKind::Flow) <==> panels.flows@.contains(panel) && flow_service,
        kind == Some(PanelKind::Document) <==> !panels.flows@.contains(panel)
            && panels.documents@.contains(panel) && document_service,
        left@ == panels.documents@,
{
}

/// An invite is copied of what is open: at once where it is shared, and after
/// sharing it where it is not; where either fails the author is told.
pub proof fn an_invite_is_of_what_is_shared(
    active: Option<PanelId>,
    requested: bool,
    step: ShareStep,
    started: bool,
    ready: bool,
    after: ShareStep,
)
    requires
        call_ensures(copy_active_collaboration_ticket, (active, requested), step),
        call_ensures(copy_ticket_after_start, (started, ready), after),
    ensures
        step is NothingOpen <==> active is None,
        step is AwaitTicket <==> active is Some && requested,
        step is StartSession <==> active is Some && !requested,
        after is AwaitTicket <==> started && ready,
        after is Stop <==> !(started && ready),
        after matches ShareStep::Stop(notice) ==> notice.critical,
{
}

/// What is joined from the clipboard is its text, as it is.
pub proof fn the_clipboards_text_is_joined(clipboard: Clipboard, text: Result<String, Notice>)
    requires
        call_ensures(join_collaboration_from_clipboard, (clipboard,), text),
    ensures
        text is Ok <==> clipboard is Text,
        clipboard matches Clipboard::Text(held) ==> text == Ok::<String, Notice>(held),
        text is Err ==> (text->Err_0).critical,
{
}

/// A panel's session is found by its own document and file: a document's where
/// it is one, else a flow's, and only where it has a file.
pub proof fn a_session_is_found_by_its_own_file(
    document: Option<(u128, Option<String>)>,
    flow: Option<(Option<u128>, Option<String>)>,
    context: Option<(u128, String)>,
)
    requires
        call_ensures(collaboration_discovery_context, (document, flow), context),
    ensures
        document is Some ==> (context is Some <==> (document->0).1 is Some),
        document is Some && context is Some ==> (context->0).0 == (document->0).0 && Some(
            (context->0).1,
        ) == (document->0).1,
        document is None ==> (context is Some <==> flow is Some && (flow->0).0 is Some && (
        flow->0).1 is Some),
        document is None && context is Some ==> Some((context->0).0) == (flow->0).0 && Some(
            (context->0).1,
        ) == (flow->0).1,
{
}

} // verus!
