//! What a new window does, how files begin to open, and what is said when they
//! do not.

use crate::load::{IoError, IoErrorKind};
use crate::opening::{
    add_document_panel_failed, comment_history_failed, create_failure, load_document_for_open,
    load_document_preview, pdf_package, registers_author_identity, startup, zoom_target,
    DocumentRuntimeSource, LoadPlan, LoadedAs, Opening, PreviewPlan, RuntimeFailure, StartupStep,
};
use crate::outline::{
    outline_item_id, outline_level, outline_level_name, outline_paragraph_ix,
    row_ids_read_back,
};
use crate::pane::PanelId;
use crate::panels::PanelKind;
use crate::styles::ParagraphStyle;
use crate::windows::Windows;
use crate::workspace::{lemma_files, OpenStart, Workspace};
use crate::workspace_laws::{others_keep_their_files, shows_file};
use vstd::prelude::*;

verus! {

/// A window starts with the pictures of the recent documents, then says what
/// went wrong with the settings, then loads the tub. Last it opens the file it
/// was started with; only without one does it bring the last session back, and
/// only where it keeps the session.
pub proof fn a_window_starts_with_its_file_or_its_session(
    warning: Option<String>,
    tub: Option<String>,
    path: Option<String>,
    has_session: bool,
    owner: bool,
    steps: Vec<StartupStep>,
)
    requires
        call_ensures(startup, (warning, tub, path, has_session, owner), steps),
    ensures
        steps@.len() > 0,
        steps@[0] is RefreshPreviews,
        warning matches Some(text) ==> steps@.len() > 1 && steps@[1] == StartupStep::ReportWarning(
            text,
        ),
        warning is None ==> forall|i: int| 0 <= i < steps@.len() ==> !(#[trigger] steps@[i] is ReportWarning),
        tub matches Some(root) ==> ({
            let at: int = if warning is Some {
                2
            } else {
                1
            };
            steps@.len() > at && steps@[at] == StartupStep::LoadTub(root)
        }),
        tub is None ==> forall|i: int| 0 <= i < steps@.len() ==> !(#[trigger] steps@[i] is LoadTub),
        path matches Some(file) ==> steps@.last() == StartupStep::OpenPath(file),
        path is None ==> forall|i: int| 0 <= i < steps@.len() ==> !(#[trigger] steps@[i] is OpenPath),
        (exists|i: int| 0 <= i < steps@.len() && #[trigger] steps@[i] is RestoreSession) <==> path is None && has_session && owner,
        path is None && has_session && owner ==> steps@.last() is RestoreSession,
{
    if path is None && has_session && owner {
        assert(steps@[steps@.len() - 1] is RestoreSession);
    }
}

/// The zoom slider zooms the document where one is on top, else the flow.
pub proof fn the_zoom_follows_what_is_on_top(
    document: bool,
    flow: bool,
    target: Option<PanelKind>,
)
    requires
        call_ensures(zoom_target, (document, flow), target),
    ensures
        target == Some(PanelKind::Document) <==> document,
        target == Some(PanelKind::Flow) <==> flow && !document,
        target is None <==> !document && !flow,
{
}

/// The package that a PDF holds is taken as it is; one that holds none is
/// refused as data of another make.
pub proof fn a_pdf_gives_the_package_it_holds(
    bytes: Option<Vec<u8>>,
    package: Result<Vec<u8>, IoError>,
)
    requires
        call_ensures(pdf_package, (bytes,), package),
    ensures
        package is Ok <==> bytes is Some,
        package matches Ok(taken) ==> taken@ == (bytes->0)@,
        package matches Err(error) ==> error.kind == IoErrorKind::InvalidData,
{
}

/// A file's picture comes from where its document would: a word processor's
/// file is converted, a PDF is opened for its package, and anything else is a
/// package.
pub proof fn a_picture_comes_from_where_its_document_would(
    name: Option<&str>,
    loaded: LoadedAs,
    plan: PreviewPlan,
)
    requires
        call_ensures(load_document_for_open, (name,), loaded),
        call_ensures(load_document_preview, (name,), plan),
    ensures
        plan == PreviewPlan::ConvertAndKeep <==> loaded.plan is Import,
        plan == PreviewPlan::Extract <==> loaded.plan is Extract,
        plan == PreviewPlan::Package <==> loaded.plan is Package || loaded.plan is Flow,
        loaded.keeps_path <==> plan == PreviewPlan::Package,
        loaded.title is Some <==> !loaded.keeps_path,
        loaded.plan matches LoadPlan::Import { import_title } ==> (loaded.title matches Some(title)
            && title@ == import_title@),
{
}

/// A new opening asks for its file at its paragraph and has no panel yet.
pub proof fn an_opening_begins_without_a_panel(
    path: String,
    target: Option<usize>,
    opening: Opening,
)
    requires
        call_ensures(Opening::new, (path, target), opening),
    ensures
        opening.path@ == path@,
        opening.target == target,
        opening.pending is None,
{
}

/// The author is told to every runtime but one that is live already.
pub proof fn a_live_runtime_knows_its_author(source: DocumentRuntimeSource, tells: bool)
    requires
        call_ensures(registers_author_identity, (source,), tells),
    ensures
        source == DocumentRuntimeSource::Attachment ==> !tells,
        source == DocumentRuntimeSource::FromProjection ==> tells,
        source == DocumentRuntimeSource::Runtime ==> tells,
{
}

/// What could not be done is said with its reason at the end, and different
/// steps are told apart by how they begin.
pub proof fn failures_end_with_their_reason(
    reason: String,
    texts: (String, String, String, String),
    panel: String,
    history: String,
    early: String,
    told: &str,
)
    requires
        call_ensures(create_failure, (RuntimeFailure::Import(reason),), texts.0),
        call_ensures(create_failure, (RuntimeFailure::Runtime(reason),), texts.1),
        call_ensures(create_failure, (RuntimeFailure::Services(reason),), texts.2),
        call_ensures(create_failure, (RuntimeFailure::Projection(reason),), texts.3),
        call_ensures(add_document_panel_failed, (told,), panel),
        call_ensures(comment_history_failed, (Some(told),), history),
        call_ensures(comment_history_failed, (None::<&str>,), early),
    ensures
        texts.0@ == "creating canonical Loro document failed: "@ + reason@,
        texts.1@ == "creating canonical Loro runtime failed: "@ + reason@,
        texts.2@ == "starting Loro-first document services failed: "@ + reason@,
        texts.3@ == "reading canonical startup projection failed: "@ + reason@,
        panel@ == "The canonical Loro runtime could not be started: "@ + told@,
        history@ == "Opening the comment's original context failed: "@ + told@,
        early@ == "Opening the comment's original context failed: "@
            + "the document is still opening"@,
{
}

/// A file opens at the top of its document where no paragraph was asked for,
/// and at its paragraph where one was; of the files that were picked the first
/// opens, and where none was picked nothing happens.
pub proof fn a_file_opens_where_it_was_asked_for(
    plain: &mut Workspace,
    at: &mut Workspace,
    picking: &mut Workspace,
    reference: &mut Workspace,
    path: String,
    paragraph: usize,
    starts: (OpenStart, OpenStart, OpenStart),
    picked: Option<&Vec<String>>,
    chosen: Option<OpenStart>,
)
    requires
        call_ensures(Workspace::open_document_path, (plain, path), starts.0),
        call_ensures(
            Workspace::open_document_path_at_paragraph,
            (at, path, paragraph),
            starts.1,
        ),
        call_ensures(Workspace::prompt_open_document, (picking, picked), chosen),
        call_ensures(
            Workspace::open_document_path_with_target,
            (reference, path, None::<usize>),
            starts.2,
        ),
        old(plain)@ == old(reference)@,
        old(at)@ == old(reference)@,
        old(picking)@ == old(reference)@,
    ensures
        final(plain)@ == final(reference)@,
        final(at)@ == final(reference)@,
        starts.0 is Shown <==> starts.2 is Shown,
        starts.1 is Shown <==> starts.2 is Shown,
        starts.0 matches OpenStart::Shown { panel, scroll_to } ==> scroll_to is None && (starts.2 matches OpenStart::Shown { panel: other, .. } && other == panel),
        starts.1 matches OpenStart::Shown { panel, scroll_to } ==> scroll_to == Some(paragraph)
            && (starts.2 matches OpenStart::Shown { panel: other, .. } && other == panel),
        starts.0 matches OpenStart::Begun(opening) ==> opening.path@ == path@ && opening.target is None,
        starts.1 matches OpenStart::Begun(opening) ==> opening.path@ == path@ && opening.target
            == Some(paragraph),
        chosen is Some <==> picked is Some && (picked->0)@.len() > 0,
        chosen is None ==> final(picking)@ == old(picking)@,
        chosen is Some && (picked->0)@[0]@ == path@ ==> final(picking)@ == final(reference)@,
        chosen matches Some(OpenStart::Begun(opening)) ==> opening.path@ == (picked->0)@[0]@
            && opening.target is None,
{
}

/// The panel that is said to show a file shows it, and one is found wherever
/// some panel shows it.
pub proof fn the_panel_of_a_file_shows_it(window: Workspace, path: &str, panel: Option<PanelId>)
    requires
        call_ensures(Workspace::panel_for_file, (&window, path), panel),
    ensures
        panel matches Some(panel) ==> shows_file(window@, panel, path@),
        panel is None ==> forall|other: PanelId| !#[trigger] shows_file(window@, other, path@),
{
    crate::workspace_laws::lemma_shown(window@.files, path@, 0);
}

/// A tab that is torn off goes into a window of its own, behind the others,
/// with nothing else in it: it is on top there as what it was, with its file
/// and its services, and gone from the window it was in. A tab that cannot go
/// opens no window.
pub proof fn a_torn_off_tab_has_a_window_of_its_own(
    windows: &mut Windows,
    panel: PanelId,
    from: usize,
    window: Option<usize>,
    path: Seq<char>,
)
    requires
        from < old(windows)@.len(),
        old(windows)@[from as int].sound(),
        call_ensures(Windows::tear_off_document_tab, (windows, panel, from), window),
    ensures
        old(windows)@[from as int].panels.documents.contains(panel) ==> window is Some,
        !old(windows)@[from as int].panels.is_open(panel) ==> window is None,
        window is None ==> final(windows)@ == old(windows)@,
        window matches Some(at) ==> {
            let before = old(windows)@[from as int];
            let left = final(windows)@[from as int];
            let own = final(windows)@[at as int];
            &&& at == old(windows)@.len()
            &&& final(windows)@.len() == old(windows)@.len() + 1
            &&& forall|w: int|
                0 <= w < old(windows)@.len() && w != from ==> #[trigger] final(windows)@[w]
                    == old(windows)@[w]
            &&& !left.panels.documents.contains(panel)
            &&& !left.panels.flows.contains(panel)
            &&& !shows_file(left, panel, path)
            &&& others_keep_their_files(before, left, panel)
            &&& !own.session_owner
            &&& before.panels.documents.contains(panel) ==> own.panels.documents == seq![panel]
                && own.panels.flows.len() == 0 && own.panels.active == Some(
                (panel, PanelKind::Document),
            ) && (own.document_runtimes.contains(panel) <==> before.document_runtimes.contains(
                panel,
            ))
            &&& !before.panels.documents.contains(panel) ==> own.panels.flows == seq![panel]
                && own.panels.documents.len() == 0 && own.panels.active == Some(
                (panel, PanelKind::Flow),
            )
            &&& forall|other: PanelId, file: Seq<char>| #[trigger]
                shows_file(own, other, file) ==> other == panel && shows_file(before, panel, file)
            &&& shows_file(before, panel, path) ==> exists|file: Seq<char>| #[trigger]
                shows_file(own, panel, file)
        },
{
    let before = old(windows)@[from as int];
    crate::workspace_laws::lemma_own_file(before.files, panel, 0);
    lemma_files(before.files, panel, path);
    crate::panels::a_removed_panel_is_gone(before.panels.documents, panel, panel);
    crate::panels::a_removed_panel_is_gone(before.panels.flows, panel, panel);
    let empty = Seq::<(PanelId, Seq<char>)>::empty();
    if let Some(file) = crate::workspace::file_of(before.files, panel, 0) {
        assert(shows_file(before, panel, file));
        lemma_files(empty, panel, file);
        if let Some(at) = window {
            assert(shows_file(final(windows)@[at as int], panel, file));
        }
    }
    if shows_file(before, panel, path) {
        let i = choose|i: int| 0 <= i < before.files.len() && before.files[i] == (panel, path);
        assert(before.files[i].0 == panel);
    }
    if let Some(at) = window {
        let own = final(windows)@[at as int];
        if before.panels.documents.contains(panel) {
            assert(own.panels.documents =~= seq![panel]);
        } else {
            assert(own.panels.flows =~= seq![panel]);
        }
    }
}

/// A pocket stands above a hat, a hat above a block, and a block above a tag
/// and an analytic, which stand alike; no other style is a heading. Each depth
/// has the name of its style.
pub proof fn each_depth_is_named_after_its_style(
    style: ParagraphStyle,
    level: Option<usize>,
    name: &'static str,
)
    requires
        call_ensures(outline_level, (style,), level),
        level is Some ==> call_ensures(outline_level_name, (level->0,), name),
    ensures
        style == ParagraphStyle::Pocket <==> level == Some(0usize),
        style == ParagraphStyle::Hat <==> level == Some(1usize),
        style == ParagraphStyle::Block <==> level == Some(2usize),
        style == ParagraphStyle::Tag || style == ParagraphStyle::Analytic <==> level == Some(
            3usize,
        ),
        level is None || level->0 <= 3,
        style == ParagraphStyle::Pocket ==> name@ == "Pocket"@,
        style == ParagraphStyle::Hat ==> name@ == "Hat"@,
        style == ParagraphStyle::Block ==> name@ == "Block"@,
        style == ParagraphStyle::Tag || style == ParagraphStyle::Analytic ==> name@
            == "Tag / Analytic"@,
{
}

/// A row's id leads back to the paragraph that it was made for.
pub proof fn a_rows_id_leads_to_its_paragraph(
    paragraph: usize,
    id: String,
    text: &str,
    found: Option<usize>,
)
    requires
        call_ensures(outline_item_id, (paragraph,), id),
        text@ == id@,
        call_ensures(outline_paragraph_ix, (text,), found),
    ensures
        found == Some(paragraph),
{
    row_ids_read_back(paragraph);
}

} // verus!
