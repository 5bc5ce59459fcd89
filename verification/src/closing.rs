//! Closing a panel or a window: which questions are asked, and what the
//! answers do.

use crate::pane::PanelId;
use crate::text::{decimal, push_decimal};
use vstd::prelude::*;
use vstd::string::StringExecFns;

verus! {

/// What became of a save.
#[derive(Debug)]
pub enum PanelSaveOutcome {
    Saved,
    Cancelled,
    Failed(String),
}

/// The state of a panel's collaboration session.
#[derive(Clone, Copy, Debug, PartialEq, Eq, Structural)]
pub enum SessionPhase {
    Creating,
    Joining,
    Attached { peers_present: usize },
    Reconnecting,
    Detached,
}

/// A panel in a live session is left before it closes.
pub open spec fn blocks_close(phase: Option<SessionPhase>) -> bool {
    phase is Some && phase->0 != SessionPhase::Detached
}

/// Whether a panel must leave its session before it closes.
pub fn collaboration_phase_blocks_close(phase: Option<SessionPhase>) -> (b: bool)
    ensures
        b == blocks_close(phase),
{
    match phase {
        Some(SessionPhase::Detached) => false,
        Some(_) => true,
        None => false,
    }
}

/// What leaving a session means.
pub open spec fn leave_detail(phase: Option<SessionPhase>) -> Seq<char> {
    match phase {
        Some(SessionPhase::Attached { peers_present }) => if peers_present == 0 {
            "This tab is live, but no other people are present right now."@
        } else {
            "This tab is live with "@ + decimal(peers_present as nat) + " other "@ + (if
            peers_present == 1 {
                "person"@
            } else {
                "people"@
            }) + "."@
        },
        Some(SessionPhase::Creating) => "This tab is starting a collaboration session."@,
        Some(SessionPhase::Joining) => "This tab is joining a collaboration session."@,
        _ => "This tab is connected to a collaboration session."@,
    }
}

/// What leaving a session means, in words.
pub fn collaboration_leave_detail(phase: Option<SessionPhase>) -> (text: String)
    ensures
        text@ == leave_detail(phase),
{
    match phase {
        Some(SessionPhase::Attached { peers_present }) => {
            if peers_present == 0 {
                return String::from_str(
                    "This tab is live, but no other people are present right now.",
                );
            }
            let mut text = String::from_str("This tab is live with ");
            push_decimal(&mut text, peers_present as u128);
            text.append(" other ");
            text.append(if peers_present == 1 { "person" } else { "people" });
            text.append(".");
            text
        },
        Some(SessionPhase::Creating) => String::from_str(
            "This tab is starting a collaboration session.",
        ),
        Some(SessionPhase::Joining) => String::from_str(
            "This tab is joining a collaboration session.",
        ),
        _ => String::from_str("This tab is connected to a collaboration session."),
    }
}

/// What leaving a session without closing the panel means; nothing to ask
/// where there is no live session.
pub fn confirm_leave_collaboration_on_panel(phase: Option<SessionPhase>) -> (detail: Option<String>)
    ensures
        detail is Some == blocks_close(phase),
        detail is Some ==> (detail->0)@ == leave_detail(phase)
            + " Your copy of the document stays open."@,
{
    if !collaboration_phase_blocks_close(phase) {
        return None;
    }
    let mut text = collaboration_leave_detail(phase);
    text.append(" Your copy of the document stays open.");
    Some(text)
}

/// What a shared panel must be asked before it closes.
#[derive(Clone, Copy, Debug, PartialEq, Eq, Structural)]
pub enum CollaborationSavePrompt {
    Clean,
    Dirty,
    Pathless,
}

/// What a shared panel must be asked: one without a file always, else one
/// with unsaved changes.
pub open spec fn save_prompt_of(has_path: bool, dirty: bool) -> CollaborationSavePrompt {
    if !has_path {
        CollaborationSavePrompt::Pathless
    } else if dirty {
        CollaborationSavePrompt::Dirty
    } else {
        CollaborationSavePrompt::Clean
    }
}

/// What a shared panel must be asked.
pub fn collaboration_save_prompt_for_panel(has_path: bool, dirty: bool) -> (prompt:
    CollaborationSavePrompt)
    ensures
        prompt == save_prompt_of(has_path, dirty),
{
    if !has_path {
        CollaborationSavePrompt::Pathless
    } else if dirty {
        CollaborationSavePrompt::Dirty
    } else {
        CollaborationSavePrompt::Clean
    }
}

/// The words of a shared panel's question: its detail and the label of the
/// button that saves. None for a panel that need not be asked.
pub fn save_prompt_words(prompt: CollaborationSavePrompt) -> (words: Option<
    (&'static str, &'static str),
>)
    ensures
        match (words, prompt) {
            (None, CollaborationSavePrompt::Clean) => true,
            (Some((detail, label)), CollaborationSavePrompt::Pathless) => detail@
                == "This shared tab has no saved file."@ && label@ == "Save As..."@,
            (Some((detail, label)), CollaborationSavePrompt::Dirty) => detail@
                == "This document has unsaved changes."@ && label@ == "Save"@,
            _ => false,
        },
{
    match prompt {
        CollaborationSavePrompt::Clean => None,
        CollaborationSavePrompt::Pathless => Some(
            ("This shared tab has no saved file.", "Save As..."),
        ),
        CollaborationSavePrompt::Dirty => Some(("This document has unsaved changes.", "Save")),
    }
}

/// What is said of unsaved panels.
pub fn unsaved_message(count: usize) -> (text: &'static str)
    ensures
        text@ == (if count == 1 {
            "This document has unsaved changes."@
        } else {
            "One or more documents have unsaved changes."@
        }),
{
    if count == 1 {
        "This document has unsaved changes."
    } else {
        "One or more documents have unsaved changes."
    }
}

/// What an answer to a save question does.
#[derive(Clone, Copy, Debug, PartialEq, Eq, Structural)]
pub enum SaveAnswer {
    Save,
    DontSave,
    Cancel,
}

/// An answer by the button that was pressed; a question that was closed is
/// cancelled.
pub open spec fn answer_of(button: Option<usize>) -> SaveAnswer {
    match button {
        Some(0) => SaveAnswer::Save,
        Some(1) => SaveAnswer::DontSave,
        _ => SaveAnswer::Cancel,
    }
}

/// An answer by the button that was pressed.
pub fn save_answer(button: Option<usize>) -> (answer: SaveAnswer)
    ensures
        answer == answer_of(button),
{
    match button {
        Some(0) => SaveAnswer::Save,
        Some(1) => SaveAnswer::DontSave,
        _ => SaveAnswer::Cancel,
    }
}

/// What is still to do to close a window or a panel.
#[derive(Clone, Copy, Debug, PartialEq, Eq, Structural)]
pub enum CloseStage {
    /// Ask whether to leave the sessions.
    AskLeave,
    /// Ask about the shared panel of this place.
    AskShared(usize),
    /// Save the shared panel of this place.
    SaveShared(usize),
    /// Ask about the other unsaved panels.
    AskDirty,
    /// Save the unsaved panel of this place.
    SaveDirty(usize),
    /// Close.
    Finished,
    /// Stay open.
    Cancelled,
}

/// A window or a panel that is asked to close.
#[derive(Debug)]
pub struct Closing {
    pub shared: Vec<(PanelId, CollaborationSavePrompt)>,
    pub dirty: Vec<PanelId>,
    /// Panels whose changes are given up once it closes.
    pub discards: Vec<PanelId>,
    pub stage: CloseStage,
}

/// A window or a panel that is asked to close, by its values.
#[verifier::ext_equal]
pub struct CloseView {
    pub shared: Seq<(PanelId, CollaborationSavePrompt)>,
    pub dirty: Seq<PanelId>,
    pub discards: Seq<PanelId>,
    pub stage: CloseStage,
}

impl View for Closing {
    type V = CloseView;

    open spec fn view(&self) -> CloseView {
        CloseView {
            shared: self.shared@,
            dirty: self.dirty@,
            discards: self.discards@,
            stage: self.stage,
        }
    }
}

/// The stage after the shared panels before `from` are settled: the next one
/// that must be asked about, else the unsaved panels, else the end.
pub open spec fn stage_from(
    shared: Seq<(PanelId, CollaborationSavePrompt)>,
    dirty: Seq<PanelId>,
    from: int,
) -> CloseStage
    decreases shared.len() - from,
{
    if from < 0 || from >= shared.len() {
        if dirty.len() == 0 {
            CloseStage::Finished
        } else {
            CloseStage::AskDirty
        }
    } else if shared[from].1 == CollaborationSavePrompt::Clean {
        stage_from(shared, dirty, from + 1)
    } else {
        CloseStage::AskShared(from as usize)
    }
}

/// A close over its shared panels and the other unsaved ones, before anything
/// was asked.
pub open spec fn begun(
    shared: Seq<(PanelId, CollaborationSavePrompt)>,
    dirty: Seq<PanelId>,
) -> CloseView {
    CloseView {
        shared,
        dirty,
        discards: Seq::empty(),
        stage: if shared.len() > 0 {
            CloseStage::AskLeave
        } else if dirty.len() > 0 {
            CloseStage::AskDirty
        } else {
            CloseStage::Finished
        },
    }
}

impl CloseView {
    pub open spec fn at(self, stage: CloseStage) -> CloseView {
        CloseView { stage, ..self }
    }

    /// The stage points at a panel that is there.
    pub open spec fn sound(self) -> bool {
        match self.stage {
            CloseStage::AskShared(i) => i < self.shared.len(),
            CloseStage::SaveShared(i) => i < self.shared.len(),
            CloseStage::SaveDirty(i) => i < self.dirty.len(),
            _ => true,
        }
    }

    /// After an answer.
    pub open spec fn answered(self, button: Option<usize>) -> CloseView {
        match self.stage {
            CloseStage::AskLeave => if button == Some(0usize) {
                self.at(stage_from(self.shared, self.dirty, 0))
            } else {
                self.at(CloseStage::Cancelled)
            },
            CloseStage::AskShared(i) => match answer_of(button) {
                SaveAnswer::Save => self.at(CloseStage::SaveShared(i)),
                SaveAnswer::DontSave => CloseView {
                    discards: self.discards.push(self.shared[i as int].0),
                    stage: stage_from(self.shared, self.dirty, i + 1),
                    ..self
                },
                SaveAnswer::Cancel => self.at(CloseStage::Cancelled),
            },
            CloseStage::AskDirty => match answer_of(button) {
                SaveAnswer::Save => self.at(
                    if self.dirty.len() == 0 {
                        CloseStage::Finished
                    } else {
                        CloseStage::SaveDirty(0)
                    },
                ),
                SaveAnswer::DontSave => CloseView {
                    discards: self.dirty + self.discards,
                    stage: CloseStage::Finished,
                    ..self
                },
                SaveAnswer::Cancel => self.at(CloseStage::Cancelled),
            },
            _ => self,
        }
    }

    /// After a save ended.
    pub open spec fn saved(self, outcome: PanelSaveOutcome) -> CloseView {
        match self.stage {
            CloseStage::SaveShared(i) => if outcome is Saved {
                self.at(stage_from(self.shared, self.dirty, i + 1))
            } else {
                self.at(CloseStage::Cancelled)
            },
            CloseStage::SaveDirty(i) => if outcome is Saved {
                self.at(
                    if i + 1 < self.dirty.len() {
                        CloseStage::SaveDirty((i + 1) as usize)
                    } else {
                        CloseStage::Finished
                    },
                )
            } else {
                self.at(CloseStage::Cancelled)
            },
            _ => self,
        }
    }

    /// How much is left to ask and save at most.
    pub open spec fn left(self) -> int {
        let rest = 2int + self.dirty.len();
        match self.stage {
            CloseStage::AskLeave => rest + 2 * self.shared.len() + 2,
            CloseStage::AskShared(i) => rest + 2 * (self.shared.len() - i),
            CloseStage::SaveShared(i) => rest + 2 * (self.shared.len() - i) - 1,
            CloseStage::AskDirty => rest,
            CloseStage::SaveDirty(i) => 1 + self.dirty.len() - i,
            CloseStage::Finished => 0,
            CloseStage::Cancelled => 0,
        }
    }
}

proof fn lemma_stage_from(
    shared: Seq<(PanelId, CollaborationSavePrompt)>,
    dirty: Seq<PanelId>,
    from: int,
)
    requires
        0 <= from <= shared.len() <= usize::MAX,
    ensures
        match stage_from(shared, dirty, from) {
            CloseStage::AskShared(i) => from <= i < shared.len() && shared[i as int].1
                != CollaborationSavePrompt::Clean,
            CloseStage::AskDirty => dirty.len() > 0,
            CloseStage::Finished => dirty.len() == 0,
            _ => false,
        },
    decreases shared.len() - from,
{
    if from < shared.len() && shared[from].1 == CollaborationSavePrompt::Clean {
        lemma_stage_from(shared, dirty, from + 1);
    }
}

/// Every answer and every save brings a close nearer its end, so it ends.
pub proof fn every_answer_brings_the_end_nearer(
    state: CloseView,
    button: Option<usize>,
    outcome: PanelSaveOutcome,
)
    requires
        state.sound(),
        state.shared.len() <= usize::MAX,
        state.dirty.len() <= usize::MAX,
    ensures
        match state.stage {
            CloseStage::AskLeave | CloseStage::AskShared(_) | CloseStage::AskDirty => {
                &&& state.answered(button).sound()
                &&& 0 <= state.answered(button).left() < state.left()
            },
            CloseStage::SaveShared(_) | CloseStage::SaveDirty(_) => {
                &&& state.saved(outcome).sound()
                &&& 0 <= state.saved(outcome).left() < state.left()
            },
            _ => state.left() == 0,
        },
{
    match state.stage {
        CloseStage::AskLeave => {
            lemma_stage_from(state.shared, state.dirty, 0);
        },
        CloseStage::AskShared(i) => {
            lemma_stage_from(state.shared, state.dirty, i + 1);
        },
        CloseStage::SaveShared(i) => {
            lemma_stage_from(state.shared, state.dirty, i + 1);
        },
        _ => {},
    }
}

/// A close that was cancelled stays cancelled, and one that is done stays
/// done.
pub proof fn a_settled_close_stays_settled(
    state: CloseView,
    button: Option<usize>,
    outcome: PanelSaveOutcome,
)
    requires
        state.stage == CloseStage::Cancelled || state.stage == CloseStage::Finished,
    ensures
        state.answered(button) == state,
        state.saved(outcome) == state,
{
}

/// Changes are given up only on the answer that says so: any other answer and
/// every save leaves the list of them as it is.
pub proof fn only_dont_save_gives_up_changes(
    state: CloseView,
    button: Option<usize>,
    outcome: PanelSaveOutcome,
)
    ensures
        button != Some(1usize) ==> state.answered(button).discards == state.discards,
        state.saved(outcome).discards == state.discards,
{
}

impl Closing {
    /// Begins to close over the shared panels and the other unsaved ones.
    pub fn new(shared: Vec<(PanelId, CollaborationSavePrompt)>, dirty: Vec<PanelId>) -> (close: Self)
        ensures
            close@ == begun(shared@, dirty@),
            close@.sound(),
    {
        let stage = if shared.len() > 0 {
            CloseStage::AskLeave
        } else if dirty.len() > 0 {
            CloseStage::AskDirty
        } else {
            CloseStage::Finished
        };
        Closing { shared, dirty, discards: Vec::new(), stage }
    }

    fn next_stage(&self, from: usize) -> (stage: CloseStage)
        requires
            from <= self.shared@.len(),
        ensures
            stage == stage_from(self.shared@, self.dirty@, from as int),
    {
        let mut next: usize = from;
        while next < self.shared.len()
            invariant
                from <= next <= self.shared@.len(),
                stage_from(self.shared@, self.dirty@, from as int) == stage_from(
                    self.shared@,
                    self.dirty@,
                    next as int,
                ),
            decreases self.shared@.len() - next,
        {
            if self.shared[next].1 != CollaborationSavePrompt::Clean {
                return CloseStage::AskShared(next);
            }
            next = next + 1;
        }
        if self.dirty.len() == 0 {
            CloseStage::Finished
        } else {
            CloseStage::AskDirty
        }
    }

    /// Takes an answer, by the button that was pressed.
    pub fn answer(&mut self, button: Option<usize>)
        requires
            old(self)@.sound(),
        ensures
            final(self)@ == old(self)@.answered(button),
            final(self)@.sound(),
    {
        let shared_count: usize = self.shared.len();
        proof {
            assert(shared_count <= usize::MAX);
            if self.stage is AskLeave {
                lemma_stage_from(self.shared@, self.dirty@, 0);
            }
            if let CloseStage::AskShared(i) = self.stage {
                lemma_stage_from(self.shared@, self.dirty@, i + 1);
            }
        }
        match self.stage {
            CloseStage::AskLeave => {
                self.stage =
                match button {
                    Some(0) => self.next_stage(0),
                    _ => CloseStage::Cancelled,
                };
            },
            CloseStage::AskShared(i) => match save_answer(button) {
                SaveAnswer::Save => {
                    self.stage = CloseStage::SaveShared(i);
                },
                SaveAnswer::DontSave => {
                    self.discards.push(self.shared[i].0);
                    self.stage = self.next_stage(i + 1);
                },
                SaveAnswer::Cancel => {
                    self.stage = CloseStage::Cancelled;
                },
            },
            CloseStage::AskDirty => match save_answer(button) {
                SaveAnswer::Save => {
                    self.stage =
                    if self.dirty.len() == 0 {
                        CloseStage::Finished
                    } else {
                        CloseStage::SaveDirty(0)
                    };
                },
                SaveAnswer::DontSave => {
                    let ghost given = self.discards@;
                    let mut all: Vec<PanelId> = Vec::new();
                    let mut next: usize = 0;
                    while next < self.dirty.len()
                        invariant
                            next <= self.dirty@.len(),
                            *self == *old(self),
                            all@ == self.dirty@.take(next as int),
                        decreases self.dirty@.len() - next,
                    {
                        all.push(self.dirty[next]);
                        next = next + 1;
                        assert(all@ =~= self.dirty@.take(next as int));
                    }
                    assert(self.dirty@.take(next as int) =~= self.dirty@);
                    all.append(&mut self.discards);
                    self.discards = all;
                    self.stage = CloseStage::Finished;
                },
                SaveAnswer::Cancel => {
                    self.stage = CloseStage::Cancelled;
                },
            },
            _ => {},
        }
    }

    /// Takes what became of a save; a failed one hands back what to tell.
    pub fn save_ended(&mut self, outcome: PanelSaveOutcome) -> (failure: Option<String>)
        requires
            old(self)@.sound(),
        ensures
            final(self)@ == old(self)@.saved(outcome),
            final(self)@.sound(),
            failure == (match outcome {
                PanelSaveOutcome::Failed(error) => Some(error),
                _ => None,
            }),
    {
        let shared_count: usize = self.shared.len();
        let dirty_count: usize = self.dirty.len();
        proof {
            assert(shared_count <= usize::MAX);
            if let CloseStage::SaveShared(i) = self.stage {
                lemma_stage_from(self.shared@, self.dirty@, i + 1);
            }
        }
        let saved = match &outcome {
            PanelSaveOutcome::Saved => true,
            _ => false,
        };
        match self.stage {
            CloseStage::SaveShared(i) => {
                self.stage =
                if saved {
                    self.next_stage(i + 1)
                } else {
                    CloseStage::Cancelled
                };
            },
            CloseStage::SaveDirty(i) => {
                self.stage =
                if !saved {
                    CloseStage::Cancelled
                } else if i + 1 < dirty_count {
                    CloseStage::SaveDirty(i + 1)
                } else {
                    CloseStage::Finished
                };
            },
            _ => {},
        }
        match outcome {
            PanelSaveOutcome::Failed(error) => Some(error),
            _ => None,
        }
    }
}

/// A panel that is open when its window is asked to close.
#[derive(Clone, Copy, Debug, PartialEq, Eq, Structural)]
pub struct OpenPanel {
    pub id: PanelId,
    pub is_document: bool,
    pub phase: Option<SessionPhase>,
    pub has_path: bool,
    pub dirty: bool,
}

/// A document that must leave its session first.
pub open spec fn is_shared(panel: OpenPanel) -> bool {
    panel.is_document && blocks_close(panel.phase)
}

/// The shared panels among the first `k`, each with its question.
pub open spec fn shared_panels(panels: Seq<OpenPanel>, k: int) -> Seq<
    (PanelId, CollaborationSavePrompt),
>
    decreases k,
{
    if k <= 0 {
        Seq::empty()
    } else if is_shared(panels[k - 1]) {
        let panel = panels[k - 1];
        shared_panels(panels, k - 1).push((panel.id, save_prompt_of(panel.has_path, panel.dirty)))
    } else {
        shared_panels(panels, k - 1)
    }
}

/// The other unsaved panels among the first `k`.
pub open spec fn unshared_dirty(panels: Seq<OpenPanel>, k: int) -> Seq<PanelId>
    decreases k,
{
    if k <= 0 {
        Seq::empty()
    } else if panels[k - 1].dirty && !is_shared(panels[k - 1]) {
        unshared_dirty(panels, k - 1).push(panels[k - 1].id)
    } else {
        unshared_dirty(panels, k - 1)
    }
}

/// Begins to close a window: shared documents are asked about one by one, the
/// other unsaved panels together.
pub fn request_close_window(panels: &Vec<OpenPanel>) -> (close: Closing)
    ensures
        close@ == begun(
            shared_panels(panels@, panels@.len() as int),
            unshared_dirty(panels@, panels@.len() as int),
        ),
        close@.sound(),
{
    let mut shared: Vec<(PanelId, CollaborationSavePrompt)> = Vec::new();
    let mut dirty: Vec<PanelId> = Vec::new();
    let mut next: usize = 0;
    while next < panels.len()
        invariant
            next <= panels@.len(),
            shared@ == shared_panels(panels@, next as int),
            dirty@ == unshared_dirty(panels@, next as int),
        decreases panels@.len() - next,
    {
        let panel = panels[next];
        if panel.is_document && collaboration_phase_blocks_close(panel.phase) {
            shared.push(
                (panel.id, collaboration_save_prompt_for_panel(panel.has_path, panel.dirty)),
            );
        } else if panel.dirty {
            dirty.push(panel.id);
        }
        next = next + 1;
    }
    Closing::new(shared, dirty)
}

/// How one panel begins to close.
pub open spec fn panel_close(panel: OpenPanel) -> CloseView {
    if blocks_close(panel.phase) {
        begun(seq![(panel.id, save_prompt_of(panel.has_path, panel.dirty))], Seq::empty())
    } else if panel.dirty {
        begun(Seq::empty(), seq![panel.id])
    } else {
        begun(Seq::empty(), Seq::empty())
    }
}

/// Begins to close one panel, where it is open: a live session is left first,
/// be it a document's or a flow's, else unsaved changes are asked about. Once
/// finished, the panel is removed.
pub fn close_document_panel(panel: Option<OpenPanel>) -> (close: Option<Closing>)
    ensures
        match (panel, close) {
            (None, None) => true,
            (Some(panel), Some(close)) => {
                &&& close@ == (if blocks_close(panel.phase) {
                    begun(seq![(panel.id, save_prompt_of(panel.has_path, panel.dirty))], seq![])
                } else if panel.dirty {
                    begun(seq![], seq![panel.id])
                } else {
                    begun(seq![], seq![])
                })
                &&& close@ == panel_close(panel)
                &&& close@.sound()
            },
            _ => false,
        },
{
    match panel {
        None => None,
        Some(panel) => {
            let mut shared: Vec<(PanelId, CollaborationSavePrompt)> = Vec::new();
            let mut dirty: Vec<PanelId> = Vec::new();
            if collaboration_phase_blocks_close(panel.phase) {
                shared.push(
                    (panel.id, collaboration_save_prompt_for_panel(panel.has_path, panel.dirty)),
                );
            } else if panel.dirty {
                dirty.push(panel.id);
            }
            Some(Closing::new(shared, dirty))
        },
    }
}

/// The question whether to leave before a window closes: its title and
/// detail.
pub fn leave_prompt(shared_count: usize, first_phase: Option<SessionPhase>) -> (prompt: (
    &'static str,
    String,
))
    ensures
        if shared_count == 1 {
            prompt.0@ == "Leave the collaboration session and quit?"@ && prompt.1@ == leave_detail(
                first_phase,
            )
        } else {
            prompt.0@ == "Leave collaboration sessions?"@ && prompt.1@ == "You're in "@ + decimal(
                shared_count as nat,
            ) + " collaboration sessions. Leave all and quit?"@
        },
{
    if shared_count == 1 {
        return (
            "Leave the collaboration session and quit?",
            collaboration_leave_detail(first_phase),
        );
    }
    let mut detail = String::from_str("You're in ");
    push_decimal(&mut detail, shared_count as u128);
    detail.append(" collaboration sessions. Leave all and quit?");
    ("Leave collaboration sessions?", detail)
}

} // verus!
