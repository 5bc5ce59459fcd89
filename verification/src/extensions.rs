//! The extensions panel: what is installed, what runs, and what it said.

use crate::text::{lemma_texts_push, same_text, texts, join_texts, joined_with};
use crate::text_set::TextSet;
use vstd::prelude::*;
use vstd::string::StringExecFns;

verus! {

#[derive(Debug)]
pub struct ExtensionActionView {
    pub id: String,
    pub label: String,
    pub requires_document: bool,
}

#[derive(Debug)]
pub struct ExtensionView {
    pub id: String,
    pub name: String,
    pub version: String,
    pub component_hash: String,
    pub actions: Vec<ExtensionActionView>,
}

/// What an extension is doing.
#[derive(Debug)]
pub enum ExtensionRunState {
    Idle,
    Running { action_id: String },
    Failed(String),
    Cancelled,
}

/// What an extension is doing, by its values.
pub enum RunValue {
    Idle,
    Running(Seq<char>),
    Failed(Seq<char>),
    Cancelled,
}

impl View for ExtensionRunState {
    type V = RunValue;

    open spec fn view(&self) -> RunValue {
        match *self {
            ExtensionRunState::Idle => RunValue::Idle,
            ExtensionRunState::Running { action_id } => RunValue::Running(action_id@),
            ExtensionRunState::Failed(message) => RunValue::Failed(message@),
            ExtensionRunState::Cancelled => RunValue::Cancelled,
        }
    }
}

impl ExtensionRunState {
    fn copy(&self) -> (copy: Self)
        ensures
            copy@ == self@,
    {
        match self {
            ExtensionRunState::Idle => ExtensionRunState::Idle,
            ExtensionRunState::Running { action_id } => ExtensionRunState::Running {
                action_id: action_id.clone(),
            },
            ExtensionRunState::Failed(message) => ExtensionRunState::Failed(message.clone()),
            ExtensionRunState::Cancelled => ExtensionRunState::Cancelled,
        }
    }
}

/// News of an extension.
#[derive(Debug)]
pub enum ExtensionPanelEvent {
    Started { extension_id: String, action_id: String },
    ActionLabel { extension_id: String, action_id: String, label: String },
    Output { extension_id: String, output: String },
    Failed { extension_id: String, message: String },
    Finished { extension_id: String },
    Cancelled { extension_id: String },
}

/// The host that runs extensions, as the panel sees it.
pub trait ExtensionPanelAdapter {
    fn installed(&self) -> Result<Vec<ExtensionView>, String>;

    fn is_trusted(&self, extension_id: &str, component_hash: &str) -> bool;

    fn trust(&self, extension_id: &str, component_hash: &str) -> Result<(), String>;

    fn invoke(&self, extension_id: &str, action_id: &str) -> Result<(), String>;

    fn cancel(&self, extension_id: &str) -> Result<(), String>;
}

/// No host: nothing is installed, nothing is trusted and nothing runs.
#[derive(Debug)]
pub struct DisconnectedExtensionAdapter;

impl ExtensionPanelAdapter for DisconnectedExtensionAdapter {
    fn installed(&self) -> (result: Result<Vec<ExtensionView>, String>)
        ensures
            result is Ok && (result->Ok_0)@.len() == 0,
    {
        Ok(Vec::new())
    }

    fn is_trusted(&self, extension_id: &str, component_hash: &str) -> (b: bool)
        ensures
            !b,
    {
        false
    }

    fn trust(&self, extension_id: &str, component_hash: &str) -> (result: Result<(), String>)
        ensures
            result is Err && (result->Err_0)@ == "Extension runtime is not connected"@,
    {
        Err(String::from_str("Extension runtime is not connected"))
    }

    fn invoke(&self, extension_id: &str, action_id: &str) -> (result: Result<(), String>)
        ensures
            result is Err && (result->Err_0)@ == "Extension runtime is not connected"@,
    {
        Err(String::from_str("Extension runtime is not connected"))
    }

    fn cancel(&self, extension_id: &str) -> (result: Result<(), String>)
        ensures
            result is Err && (result->Err_0)@ == "Extension runtime is not connected"@,
    {
        Err(String::from_str("Extension runtime is not connected"))
    }
}

/// A table with two texts for its key.
#[derive(Debug)]
pub struct PairTable<V> {
    pub rows: Vec<(String, String, V)>,
}

/// The first row of a key.
pub open spec fn row_of<V>(
    rows: Seq<(String, String, V)>,
    first: Seq<char>,
    second: Seq<char>,
    from: int,
) -> Option<int>
    decreases rows.len() - from,
{
    if from < 0 || from >= rows.len() {
        None
    } else if rows[from].0@ == first && rows[from].1@ == second {
        Some(from)
    } else {
        row_of(rows, first, second, from + 1)
    }
}

/// What stands under a key.
pub open spec fn value_in<V>(
    rows: Seq<(String, String, V)>,
    first: Seq<char>,
    second: Seq<char>,
) -> Option<V> {
    match row_of(rows, first, second, 0) {
        Some(at) => Some(rows[at].2),
        None => None,
    }
}

proof fn lemma_row_of<V>(
    rows: Seq<(String, String, V)>,
    first: Seq<char>,
    second: Seq<char>,
    from: int,
)
    requires
        0 <= from <= rows.len(),
    ensures
        match row_of(rows, first, second, from) {
            Some(at) => from <= at < rows.len() && rows[at].0@ == first && rows[at].1@ == second
                && forall|i: int|
                #![trigger rows[i]]
                from <= i < at ==> !(rows[i].0@ == first && rows[i].1@ == second),
            None => forall|i: int|
                #![trigger rows[i]]
                from <= i < rows.len() ==> !(rows[i].0@ == first && rows[i].1@ == second),
        },
    decreases rows.len() - from,
{
    if from < rows.len() && !(rows[from].0@ == first && rows[from].1@ == second) {
        lemma_row_of(rows, first, second, from + 1);
    }
}

/// The first row of a key is where no earlier one has it.
proof fn lemma_row_is<V>(
    rows: Seq<(String, String, V)>,
    first: Seq<char>,
    second: Seq<char>,
    from: int,
    at: int,
)
    requires
        0 <= from <= at < rows.len(),
        rows[at].0@ == first && rows[at].1@ == second,
        forall|i: int|
            #![trigger rows[i]]
            from <= i < at ==> !(rows[i].0@ == first && rows[i].1@ == second),
    ensures
        row_of(rows, first, second, from) == Some(at),
    decreases at - from,
{
    if from < at {
        assert(!(rows[from].0@ == first && rows[from].1@ == second));
        lemma_row_is(rows, first, second, from + 1, at);
    }
}

impl<V> PairTable<V> {
    pub open spec fn value(self, first: Seq<char>, second: Seq<char>) -> Option<V> {
        value_in(self.rows@, first, second)
    }

    pub fn new() -> (table: Self)
        ensures
            forall|first: Seq<char>, second: Seq<char>| #[trigger]
                table.value(first, second) is None,
    {
        PairTable { rows: Vec::new() }
    }

    fn find(&self, first: &str, second: &str) -> (found: Option<usize>)
        ensures
            match found {
                Some(at) => row_of(self.rows@, first@, second@, 0) == Some(at as int) && at
                    < self.rows@.len(),
                None => row_of(self.rows@, first@, second@, 0) is None,
            },
    {
        let mut next: usize = 0;
        while next < self.rows.len()
            invariant
                next <= self.rows@.len(),
                row_of(self.rows@, first@, second@, 0) == row_of(
                    self.rows@,
                    first@,
                    second@,
                    next as int,
                ),
            decreases self.rows@.len() - next,
        {
            if same_text(self.rows[next].0.as_str(), first) && same_text(
                self.rows[next].1.as_str(),
                second,
            ) {
                return Some(next);
            }
            next = next + 1;
        }
        None
    }

    pub fn get(&self, first: &str, second: &str) -> (value: Option<&V>)
        ensures
            match value {
                Some(value) => self.value(first@, second@) == Some(*value),
                None => self.value(first@, second@) is None,
            },
    {
        match self.find(first, second) {
            Some(at) => Some(&self.rows[at].2),
            None => None,
        }
    }

    /// Puts a value under a key, in place of what stands there.
    pub fn insert(&mut self, first: String, second: String, value: V)
        ensures
            forall|a: Seq<char>, b: Seq<char>| #[trigger]
                final(self).value(a, b) == (if a == first@ && b == second@ {
                    Some(value)
                } else {
                    old(self).value(a, b)
                }),
            final(self).value(first@, second@) == Some(value),
    {
        let ghost before = self.rows@;
        let found = self.find(first.as_str(), second.as_str());
        let ghost (x, y) = (first@, second@);
        match found {
            Some(at) => {
                proof {
                    lemma_row_of(before, x, y, 0);
                }
                self.rows.set(at, (first, second, value));
                proof {
                    let after = self.rows@;
                    assert forall|a: Seq<char>, b: Seq<char>| #[trigger]
                        value_in(after, a, b) == (if a == x && b == y {
                            Some(value)
                        } else {
                            value_in(before, a, b)
                        }) by {
                        lemma_row_of(before, a, b, 0);
                        lemma_same_rows(before, after, a, b, 0);
                    }
                }
            },
            None => {
                proof {
                    lemma_row_of(before, x, y, 0);
                }
                self.rows.push((first, second, value));
                proof {
                    let after = self.rows@;
                    assert forall|a: Seq<char>, b: Seq<char>| #[trigger]
                        value_in(after, a, b) == (if a == x && b == y {
                            Some(value)
                        } else {
                            value_in(before, a, b)
                        }) by {
                        lemma_row_of(before, a, b, 0);
                        lemma_row_of(after, a, b, 0);
                        if a == x && b == y {
                            assert(after[before.len() as int].0@ == x);
                            lemma_row_is(after, a, b, 0, before.len() as int);
                        } else {
                            match row_of(before, a, b, 0) {
                                Some(at) => {
                                    assert(after[at] == before[at]);
                                    lemma_row_is(after, a, b, 0, at);
                                },
                                None => {
                                    if let Some(at) = row_of(after, a, b, 0) {
                                        if at < before.len() {
                                            assert(after[at] == before[at]);
                                        }
                                    }
                                },
                            }
                        }
                    }
                }
            },
        }
    }
}

proof fn lemma_same_rows<V>(
    before: Seq<(String, String, V)>,
    after: Seq<(String, String, V)>,
    first: Seq<char>,
    second: Seq<char>,
    from: int,
)
    requires
        before.len() == after.len(),
        0 <= from <= before.len(),
        forall|i: int|
            0 <= i < before.len() ==> (#[trigger] before[i]).0@ == after[i].0@ && before[i].1@
                == after[i].1@,
    ensures
        row_of(before, first, second, from) == row_of(after, first, second, from),
    decreases before.len() - from,
{
    if from < before.len() {
        assert(before[from].0@ == after[from].0@);
        lemma_same_rows(before, after, first, second, from + 1);
    }
}

/// The first extension of an id.
pub open spec fn extension_index(extensions: Seq<ExtensionView>, id: Seq<char>, from: int) -> Option<
    int,
>
    decreases extensions.len() - from,
{
    if from < 0 || from >= extensions.len() {
        None
    } else if extensions[from].id@ == id {
        Some(from)
    } else {
        extension_index(extensions, id, from + 1)
    }
}

fn find_extension(extensions: &Vec<ExtensionView>, id: &str) -> (found: Option<usize>)
    ensures
        match found {
            Some(at) => extension_index(extensions@, id@, 0) == Some(at as int) && at
                < extensions@.len(),
            None => extension_index(extensions@, id@, 0) is None,
        },
{
    let mut next: usize = 0;
    while next < extensions.len()
        invariant
            next <= extensions@.len(),
            extension_index(extensions@, id@, 0) == extension_index(
                extensions@,
                id@,
                next as int,
            ),
        decreases extensions@.len() - next,
    {
        if same_text(extensions[next].id.as_str(), id) {
            return Some(next);
        }
        next = next + 1;
    }
    None
}

/// What an extension is doing after news.
pub open spec fn run_after(event: ExtensionPanelEvent, id: Seq<char>, before: RunValue) -> RunValue {
    match event {
        ExtensionPanelEvent::Started { extension_id, action_id } => if id == extension_id@ {
            RunValue::Running(action_id@)
        } else {
            before
        },
        ExtensionPanelEvent::Failed { extension_id, message } => if id == extension_id@ {
            RunValue::Failed(message@)
        } else {
            before
        },
        ExtensionPanelEvent::Finished { extension_id } => if id == extension_id@ {
            RunValue::Idle
        } else {
            before
        },
        ExtensionPanelEvent::Cancelled { extension_id } => if id == extension_id@ {
            RunValue::Cancelled
        } else {
            before
        },
        _ => before,
    }
}

/// What an extension said last, after news.
pub open spec fn output_after(
    event: ExtensionPanelEvent,
    id: Seq<char>,
    before: Option<Seq<char>>,
) -> Option<Seq<char>> {
    match event {
        ExtensionPanelEvent::Output { extension_id, output } => if id == extension_id@ {
            Some(output@)
        } else {
            before
        },
        _ => before,
    }
}

/// The label that an extension gave an action, after news.
pub open spec fn label_after(
    event: ExtensionPanelEvent,
    id: Seq<char>,
    action: Seq<char>,
    before: Option<Seq<char>>,
) -> Option<Seq<char>> {
    match event {
        ExtensionPanelEvent::ActionLabel { extension_id, action_id, label } => if id
            == extension_id@ && action == action_id@ {
            Some(label@)
        } else {
            before
        },
        _ => before,
    }
}

/// What an extension is doing after the first `k` news.
pub open spec fn run_after_all(
    events: Seq<ExtensionPanelEvent>,
    id: Seq<char>,
    before: RunValue,
    k: int,
) -> RunValue
    decreases k,
{
    if k <= 0 {
        before
    } else {
        run_after(events[k - 1], id, run_after_all(events, id, before, k - 1))
    }
}

/// What an extension said last, after the first `k` news.
pub open spec fn output_after_all(
    events: Seq<ExtensionPanelEvent>,
    id: Seq<char>,
    before: Option<Seq<char>>,
    k: int,
) -> Option<Seq<char>>
    decreases k,
{
    if k <= 0 {
        before
    } else {
        output_after(events[k - 1], id, output_after_all(events, id, before, k - 1))
    }
}

/// The label that an extension gave an action, after the first `k` news.
pub open spec fn label_after_all(
    events: Seq<ExtensionPanelEvent>,
    id: Seq<char>,
    action: Seq<char>,
    before: Option<Seq<char>>,
    k: int,
) -> Option<Seq<char>>
    decreases k,
{
    if k <= 0 {
        before
    } else {
        label_after(events[k - 1], id, action, label_after_all(events, id, action, before, k - 1))
    }
}

/// The panel's state.
#[derive(Debug)]
pub struct ExtensionPanel {
    pub extensions: Vec<ExtensionView>,
    pub states: PairTable<ExtensionRunState>,
    pub labels: PairTable<String>,
    /// What each extension said last; none since it was started again.
    pub outputs: PairTable<Option<String>>,
    pub error: Option<String>,
}

impl ExtensionPanel {
    /// What an extension is doing; idle where nothing is known.
    pub open spec fn run_value(self, id: Seq<char>) -> RunValue {
        match self.states.value(id, Seq::empty()) {
            Some(state) => state@,
            None => RunValue::Idle,
        }
    }

    /// What an extension said last.
    pub open spec fn output_text(self, id: Seq<char>) -> Option<Seq<char>> {
        match self.outputs.value(id, Seq::empty()) {
            Some(Some(text)) => Some(text@),
            _ => None,
        }
    }

    /// The label that an extension gave an action.
    pub open spec fn given_label(self, id: Seq<char>, action: Seq<char>) -> Option<Seq<char>> {
        match self.labels.value(id, action) {
            Some(text) => Some(text@),
            None => None,
        }
    }

    /// Nothing is installed or wrong, nothing runs, and no extension has said
    /// anything or given a label.
    pub open spec fn blank(self) -> bool {
        &&& self.extensions@.len() == 0
        &&& self.error is None
        &&& forall|id: Seq<char>| #[trigger] self.run_value(id) == RunValue::Idle
        &&& forall|id: Seq<char>| #[trigger] self.output_text(id) is None
        &&& forall|id: Seq<char>, action: Seq<char>| #[trigger]
            self.given_label(id, action) is None
    }

    pub fn new() -> (panel: Self)
        ensures
            panel.blank(),
    {
        let panel = ExtensionPanel {
            extensions: Vec::new(),
            states: PairTable::new(),
            labels: PairTable::new(),
            outputs: PairTable::new(),
            error: None,
        };
        assert forall|id: Seq<char>| #[trigger] panel.run_value(id) == RunValue::Idle by {
            assert(panel.states.value(id, Seq::empty()) is None);
        }
        assert forall|id: Seq<char>| #[trigger] panel.output_text(id) is None by {
            assert(panel.outputs.value(id, Seq::empty()) is None);
        }
        assert forall|id: Seq<char>, action: Seq<char>| #[trigger]
            panel.given_label(id, action) is None by {
            assert(panel.labels.value(id, action) is None);
        }
        panel
    }

    /// Takes what is installed; a failed look keeps what was known.
    pub fn take_installed(&mut self, result: Result<Vec<ExtensionView>, String>)
        ensures
            match result {
                Ok(extensions) => *final(self) == (ExtensionPanel {
                    extensions,
                    error: None,
                    ..*old(self)
                }),
                Err(error) => *final(self) == (ExtensionPanel { error: Some(error), ..*old(self) }),
            },
    {
        match result {
            Ok(extensions) => {
                self.extensions = extensions;
                self.error = None;
            },
            Err(error) => {
                self.error = Some(error);
            },
        }
    }

    /// What an extension is doing.
    pub fn state(&self, extension_id: &str) -> (state: ExtensionRunState)
        ensures
            state@ == self.run_value(extension_id@),
    {
        proof {
            reveal_strlit("");
            assert(""@ =~= Seq::<char>::empty());
        }
        match self.states.get(extension_id, "") {
            Some(state) => state.copy(),
            None => ExtensionRunState::Idle,
        }
    }

    /// An action's label: the one that its extension gave it while running,
    /// else its own.
    pub fn label(&self, extension_id: &str, action: &ExtensionActionView) -> (label: String)
        ensures
            label@ == (match self.given_label(extension_id@, action.id@) {
                Some(text) => text,
                None => action.label@,
            }),
    {
        match self.labels.get(extension_id, action.id.as_str()) {
            Some(label) => label.clone(),
            None => action.label.clone(),
        }
    }

    /// What an extension said last.
    pub fn output(&self, extension_id: &str) -> (output: Option<String>)
        ensures
            match output {
                Some(text) => self.output_text(extension_id@) == Some(text@),
                None => self.output_text(extension_id@) is None,
            },
    {
        proof {
            reveal_strlit("");
            assert(""@ =~= Seq::<char>::empty());
        }
        match self.outputs.get(extension_id, "") {
            Some(Some(text)) => Some(text.clone()),
            _ => None,
        }
    }

    fn set_state(&mut self, extension_id: String, state: ExtensionRunState)
        ensures
            forall|id: Seq<char>| #[trigger]
                final(self).run_value(id) == (if id == extension_id@ {
                    state@
                } else {
                    old(self).run_value(id)
                }),
            *final(self) == (ExtensionPanel { states: final(self).states, ..*old(self) }),
    {
        proof {
            reveal_strlit("");
            assert(""@ =~= Seq::<char>::empty());
        }
        let ghost id = extension_id@;
        self.states.insert(extension_id, String::from_str(""), state);
        assert forall|other: Seq<char>| #[trigger]
            self.run_value(other) == (if other == id {
                state@
            } else {
                old(self).run_value(other)
            }) by {
            assert(self.states.value(other, Seq::empty()) == (if other == id {
                Some(state)
            } else {
                old(self).states.value(other, Seq::empty())
            }));
        }
    }

    fn set_output(&mut self, extension_id: String, output: Option<String>)
        ensures
            forall|id: Seq<char>| #[trigger]
                final(self).output_text(id) == (if id == extension_id@ {
                    match output {
                        Some(text) => Some(text@),
                        None => None,
                    }
                } else {
                    old(self).output_text(id)
                }),
            *final(self) == (ExtensionPanel { outputs: final(self).outputs, ..*old(self) }),
    {
        proof {
            reveal_strlit("");
            assert(""@ =~= Seq::<char>::empty());
        }
        let ghost id = extension_id@;
        self.outputs.insert(extension_id, String::from_str(""), output);
        assert forall|other: Seq<char>| #[trigger]
            self.output_text(other) == (if other == id {
                match output {
                    Some(text) => Some(text@),
                    None => None,
                }
            } else {
                old(self).output_text(other)
            }) by {
            assert(self.outputs.value(other, Seq::empty()) == (if other == id {
                Some(output)
            } else {
                old(self).outputs.value(other, Seq::empty())
            }));
        }
    }

    /// The hash to ask trust for; none for an extension that is not
    /// installed.
    pub fn trust_subject(&self, extension_id: &str) -> (hash: Option<String>)
        ensures
            match (hash, extension_index(self.extensions@, extension_id@, 0)) {
                (Some(hash), Some(at)) => hash@ == self.extensions@[at].component_hash@,
                (None, None) => true,
                _ => false,
            },
    {
        match find_extension(&self.extensions, extension_id) {
            Some(at) => Some(self.extensions[at].component_hash.clone()),
            None => None,
        }
    }

    /// An action was started, or could not be: what the extension said before
    /// is gone.
    pub fn take_invoked(
        &mut self,
        extension_id: &str,
        action_id: &str,
        result: Result<(), String>,
    )
        ensures
            forall|id: Seq<char>| #[trigger]
                final(self).run_value(id) == (if id == extension_id@ {
                    match result {
                        Ok(_) => RunValue::Running(action_id@),
                        Err(error) => RunValue::Failed(error@),
                    }
                } else {
                    old(self).run_value(id)
                }),
            forall|id: Seq<char>| #[trigger]
                final(self).output_text(id) == (if id == extension_id@ {
                    None
                } else {
                    old(self).output_text(id)
                }),
            *final(self) == (ExtensionPanel {
                states: final(self).states,
                outputs: final(self).outputs,
                ..*old(self)
            }),
    {
        let state = match result {
            Ok(_) => ExtensionRunState::Running { action_id: String::from_str(action_id) },
            Err(error) => ExtensionRunState::Failed(error),
        };
        self.set_state(String::from_str(extension_id), state);
        let ghost middle = *self;
        self.set_output(String::from_str(extension_id), None);
        assert forall|id: Seq<char>| #[trigger] self.run_value(id) == middle.run_value(id) by {}
        assert forall|id: Seq<char>| #[trigger] middle.output_text(id) == old(self).output_text(
            id,
        ) by {}
    }

    /// A cancel was asked for: one that failed is the extension's failure.
    pub fn take_cancelled(&mut self, extension_id: &str, result: Result<(), String>)
        ensures
            forall|id: Seq<char>| #[trigger]
                final(self).run_value(id) == (match result {
                    Err(error) => if id == extension_id@ {
                        RunValue::Failed(error@)
                    } else {
                        old(self).run_value(id)
                    },
                    Ok(_) => old(self).run_value(id),
                }),
            *final(self) == (ExtensionPanel { states: final(self).states, ..*old(self) }),
    {
        if let Err(error) = result {
            self.set_state(String::from_str(extension_id), ExtensionRunState::Failed(error));
        }
    }

    /// Takes news of an extension.
    pub fn apply(&mut self, event: ExtensionPanelEvent)
        ensures
            forall|id: Seq<char>| #[trigger]
                final(self).run_value(id) == run_after(event, id, old(self).run_value(id)),
            forall|id: Seq<char>| #[trigger]
                final(self).output_text(id) == output_after(event, id, old(self).output_text(id)),
            forall|id: Seq<char>, action: Seq<char>| #[trigger]
                final(self).given_label(id, action) == label_after(
                    event,
                    id,
                    action,
                    old(self).given_label(id, action),
                ),
            *final(self) == (ExtensionPanel {
                states: final(self).states,
                outputs: final(self).outputs,
                labels: final(self).labels,
                ..*old(self)
            }),
    {
        match event {
            ExtensionPanelEvent::Started { extension_id, action_id } => self.set_state(
                extension_id,
                ExtensionRunState::Running { action_id },
            ),
            ExtensionPanelEvent::ActionLabel { extension_id, action_id, label } => {
                let ghost (x, y) = (extension_id@, action_id@);
                self.labels.insert(extension_id, action_id, label);
                assert forall|id: Seq<char>, action: Seq<char>| #[trigger]
                    self.given_label(id, action) == (if id == x && action == y {
                        Some(label@)
                    } else {
                        old(self).given_label(id, action)
                    }) by {
                    assert(self.labels.value(id, action) == (if id == x && action == y {
                        Some(label)
                    } else {
                        old(self).labels.value(id, action)
                    }));
                }
            },
            ExtensionPanelEvent::Output { extension_id, output } => self.set_output(
                extension_id,
                Some(output),
            ),
            ExtensionPanelEvent::Failed { extension_id, message } => self.set_state(
                extension_id,
                ExtensionRunState::Failed(message),
            ),
            ExtensionPanelEvent::Finished { extension_id } => self.set_state(
                extension_id,
                ExtensionRunState::Idle,
            ),
            ExtensionPanelEvent::Cancelled { extension_id } => self.set_state(
                extension_id,
                ExtensionRunState::Cancelled,
            ),
        }
    }

    /// Takes several news, the first first.
    pub fn apply_all(&mut self, events: Vec<ExtensionPanelEvent>)
        ensures
            forall|id: Seq<char>| #[trigger]
                final(self).run_value(id) == run_after_all(
                    events@,
                    id,
                    old(self).run_value(id),
                    events@.len() as int,
                ),
            forall|id: Seq<char>| #[trigger]
                final(self).output_text(id) == output_after_all(
                    events@,
                    id,
                    old(self).output_text(id),
                    events@.len() as int,
                ),
            forall|id: Seq<char>, action: Seq<char>| #[trigger]
                final(self).given_label(id, action) == label_after_all(
                    events@,
                    id,
                    action,
                    old(self).given_label(id, action),
                    events@.len() as int,
                ),
            *final(self) == (ExtensionPanel {
                states: final(self).states,
                outputs: final(self).outputs,
                labels: final(self).labels,
                ..*old(self)
            }),
    {
        let ghost all = events@;
        let ghost before = *self;
        let mut events = events;
        while events.len() > 0
            invariant
                events@.len() <= all.len(),
                events@ == all.skip(all.len() - events@.len()),
                forall|id: Seq<char>| #[trigger]
                    self.run_value(id) == run_after_all(
                        all,
                        id,
                        before.run_value(id),
                        all.len() - events@.len(),
                    ),
                forall|id: Seq<char>| #[trigger]
                    self.output_text(id) == output_after_all(
                        all,
                        id,
                        before.output_text(id),
                        all.len() - events@.len(),
                    ),
                forall|id: Seq<char>, action: Seq<char>| #[trigger]
                    self.given_label(id, action) == label_after_all(
                        all,
                        id,
                        action,
                        before.given_label(id, action),
                        all.len() - events@.len(),
                    ),
                *self == (ExtensionPanel {
                    states: self.states,
                    outputs: self.outputs,
                    labels: self.labels,
                    ..before
                }),
            decreases events@.len(),
        {
            let ghost done = all.len() - events@.len();
            let ghost middle = *self;
            let event = events.remove(0);
            assert(event == all[done]);
            assert(events@ =~= all.skip(done + 1));
            self.apply(event);
            assert forall|id: Seq<char>| #[trigger]
                self.run_value(id) == run_after_all(all, id, before.run_value(id), done + 1) by {
                assert(middle.run_value(id) == run_after_all(all, id, before.run_value(id), done));
            }
            assert forall|id: Seq<char>| #[trigger]
                self.output_text(id) == output_after_all(
                    all,
                    id,
                    before.output_text(id),
                    done + 1,
                ) by {
                assert(middle.output_text(id) == output_after_all(
                    all,
                    id,
                    before.output_text(id),
                    done,
                ));
            }
            assert forall|id: Seq<char>, action: Seq<char>| #[trigger]
                self.given_label(id, action) == label_after_all(
                    all,
                    id,
                    action,
                    before.given_label(id, action),
                    done + 1,
                ) by {
                assert(middle.given_label(id, action) == label_after_all(
                    all,
                    id,
                    action,
                    before.given_label(id, action),
                    done,
                ));
            }
        }
    }

    /// A round of the host's loop ends: takes what the run reported, and says
    /// whether the extension still runs, so that its requests must be served.
    pub fn end_round(&mut self, extension_id: &str, events: Vec<ExtensionPanelEvent>) -> (goes_on:
        bool)
        ensures
            goes_on == (run_after_all(
                events@,
                extension_id@,
                old(self).run_value(extension_id@),
                events@.len() as int,
            ) is Running),
            forall|id: Seq<char>| #[trigger]
                final(self).run_value(id) == run_after_all(
                    events@,
                    id,
                    old(self).run_value(id),
                    events@.len() as int,
                ),
            forall|id: Seq<char>| #[trigger]
                final(self).output_text(id) == output_after_all(
                    events@,
                    id,
                    old(self).output_text(id),
                    events@.len() as int,
                ),
            forall|id: Seq<char>, action: Seq<char>| #[trigger]
                final(self).given_label(id, action) == label_after_all(
                    events@,
                    id,
                    action,
                    old(self).given_label(id, action),
                    events@.len() as int,
                ),
            final(self).extensions == old(self).extensions,
            final(self).error == old(self).error,
    {
        self.apply_all(events);
        self.is_running(extension_id)
    }

    /// Whether an extension still runs, so that its requests must be served.
    pub fn is_running(&self, extension_id: &str) -> (b: bool)
        ensures
            b == (self.run_value(extension_id@) is Running),
    {
        match self.state(extension_id) {
            ExtensionRunState::Running { .. } => true,
            _ => false,
        }
    }
}

/// The panel over a host.
#[derive(Debug)]
pub struct ExtensionPanelController<A> {
    pub adapter: A,
    pub panel: ExtensionPanel,
}

impl<A: ExtensionPanelAdapter> ExtensionPanelController<A> {
    pub fn new(adapter: A) -> (controller: Self)
        ensures
            controller.adapter == adapter,
            controller.panel.blank(),
    {
        ExtensionPanelController { adapter, panel: ExtensionPanel::new() }
    }

    /// Looks at what is installed again.
    pub fn reload(&mut self)
        ensures
            final(self).adapter == old(self).adapter,
            exists|result: Result<Vec<ExtensionView>, String>|
                #![trigger call_ensures(A::installed, (&old(self).adapter,), result)]
                call_ensures(A::installed, (&old(self).adapter,), result) && match result {
                    Ok(extensions) => final(self).panel == (ExtensionPanel {
                        extensions,
                        error: None,
                        ..old(self).panel
                    }),
                    Err(error) => final(self).panel == (ExtensionPanel {
                        error: Some(error),
                        ..old(self).panel
                    }),
                },
    {
        let result = self.adapter.installed();
        self.panel.take_installed(result);
    }

    /// Whether an extension must be trusted before it runs: one that is
    /// installed and not trusted.
    pub fn requires_trust(&self, extension_id: &str) -> (b: bool)
        ensures
            b ==> extension_index(self.panel.extensions@, extension_id@, 0) is Some,
            extension_index(self.panel.extensions@, extension_id@, 0) matches Some(at) ==> exists|
                trusted: bool,
                hash: &str,
            |
                #![trigger call_ensures(A::is_trusted, (&self.adapter, extension_id, hash), trusted)]
                call_ensures(A::is_trusted, (&self.adapter, extension_id, hash), trusted) && hash@
                    == self.panel.extensions@[at].component_hash@ && b == !trusted,
    {
        match self.panel.trust_subject(extension_id) {
            Some(hash) => {
                let text = hash.as_str();
                !self.adapter.is_trusted(extension_id, text)
            },
            None => false,
        }
    }

    /// Trusts an extension as it is installed now.
    pub fn trust(&mut self, extension_id: &str) -> (result: Result<(), String>)
        ensures
            *final(self) == *old(self),
            match extension_index(old(self).panel.extensions@, extension_id@, 0) {
                None => result is Err && (result->Err_0)@ == "Extension is no longer installed"@,
                Some(at) => exists|hash: &str|
                    #![trigger call_ensures(A::trust, (&old(self).adapter, extension_id, hash), result)]
                    call_ensures(A::trust, (&old(self).adapter, extension_id, hash), result) && hash@
                        == old(self).panel.extensions@[at].component_hash@,
            },
    {
        match self.panel.trust_subject(extension_id) {
            Some(hash) => {
                let text = hash.as_str();
                self.adapter.trust(extension_id, text)
            },
            None => Err(String::from_str("Extension is no longer installed")),
        }
    }

    /// Starts an action.
    pub fn invoke(&mut self, extension_id: &str, action_id: &str)
        ensures
            final(self).adapter == old(self).adapter,
            exists|result: Result<(), String>|
                #![trigger call_ensures(A::invoke, (&old(self).adapter, extension_id, action_id), result)]
                call_ensures(A::invoke, (&old(self).adapter, extension_id, action_id), result)
                    && final(self).panel.run_value(extension_id@) == (match result {
                    Ok(_) => RunValue::Running(action_id@),
                    Err(error) => RunValue::Failed(error@),
                }),
            final(self).panel.output_text(extension_id@) is None,
            forall|id: Seq<char>|
                id != extension_id@ ==> #[trigger] final(self).panel.run_value(id) == old(self).panel.run_value(id),
            forall|id: Seq<char>|
                id != extension_id@ ==> #[trigger] final(self).panel.output_text(id) == old(self).panel.output_text(id),
            final(self).panel == (ExtensionPanel {
                states: final(self).panel.states,
                outputs: final(self).panel.outputs,
                ..old(self).panel
            }),
    {
        let result = self.adapter.invoke(extension_id, action_id);
        self.panel.take_invoked(extension_id, action_id, result);
    }

    /// Asks an extension to stop.
    pub fn cancel(&mut self, extension_id: &str)
        ensures
            final(self).adapter == old(self).adapter,
            exists|result: Result<(), String>|
                #![trigger call_ensures(A::cancel, (&old(self).adapter, extension_id), result)]
                call_ensures(A::cancel, (&old(self).adapter, extension_id), result) && final(self).panel.run_value(extension_id@) == (match result {
                    Ok(_) => old(self).panel.run_value(extension_id@),
                    Err(error) => RunValue::Failed(error@),
                }),
            forall|id: Seq<char>|
                id != extension_id@ ==> #[trigger] final(self).panel.run_value(id) == old(self).panel.run_value(id),
            forall|id: Seq<char>| #[trigger]
                final(self).panel.output_text(id) == old(self).panel.output_text(id),
            final(self).panel == (ExtensionPanel {
                states: final(self).panel.states,
                ..old(self).panel
            }),
    {
        let result = self.adapter.cancel(extension_id);
        self.panel.take_cancelled(extension_id, result);
    }
}

/// A panel without a host.
pub fn disconnected_controller() -> (controller: ExtensionPanelController<
    DisconnectedExtensionAdapter,
>)
    ensures
        controller.panel.blank(),
{
    ExtensionPanelController::new(DisconnectedExtensionAdapter)
}

/// What running an action begins with.
#[derive(Clone, Copy, Debug, PartialEq, Eq, Structural)]
pub enum ActionStep {
    Run,
    AskTrust,
}

/// An action runs at once where its extension is trusted, else the user is
/// asked.
pub fn request_extension_action(requires_trust: bool) -> (step: ActionStep)
    ensures
        step == (if requires_trust {
            ActionStep::AskTrust
        } else {
            ActionStep::Run
        }),
{
    if requires_trust {
        ActionStep::AskTrust
    } else {
        ActionStep::Run
    }
}

/// Of the unfolded groups those are left whose extension is installed.
pub open spec fn only_installed(
    before: Set<Seq<char>>,
    extensions: Seq<ExtensionView>,
    after: Set<Seq<char>>,
) -> bool {
    forall|id: Seq<char>| #[trigger]
        after.contains(id) <==> (before.contains(id) && extension_index(extensions, id, 0) is Some)
}

/// Unfolded groups of extensions that are installed no more fold away.
pub fn retain_expanded(expanded: &mut TextSet, extensions: &Vec<ExtensionView>)
    ensures
        forall|id: Seq<char>| #[trigger]
            final(expanded)@.contains(id) <==> (old(expanded)@.contains(id) && extension_index(
                extensions@,
                id,
                0,
            ) is Some),
        only_installed(old(expanded)@, extensions@, final(expanded)@),
{
    let ghost given = expanded.items@;
    let mut kept = TextSet::new();
    let mut next: usize = 0;
    while next < expanded.items.len()
        invariant
            *expanded == *old(expanded),
            given == expanded.items@,
            next <= given.len(),
            forall|id: Seq<char>| #[trigger]
                kept@.contains(id) <==> (extension_index(extensions@, id, 0) is Some && exists|
                    i: int,
                |
                    0 <= i < next && (#[trigger] given[i])@ == id),
        decreases given.len() - next,
    {
        let text = expanded.items[next].as_str();
        let ghost before = kept@;
        if find_extension(extensions, text).is_some() {
            kept.insert(text);
        }
        assert forall|id: Seq<char>| #[trigger]
            kept@.contains(id) <==> (extension_index(extensions@, id, 0) is Some && exists|i: int|
                0 <= i < next + 1 && (#[trigger] given[i])@ == id) by {
            if before.contains(id) {
                let i = choose|i: int| 0 <= i < next && (#[trigger] given[i])@ == id;
                assert(given[i]@ == id);
            }
            if id == text@ {
                assert(given[next as int]@ == id);
            }
            if extension_index(extensions@, id, 0) is Some && exists|i: int|
                0 <= i < next + 1 && (#[trigger] given[i])@ == id {
                let i = choose|i: int| 0 <= i < next + 1 && (#[trigger] given[i])@ == id;
                if i < next {
                    assert(before.contains(id));
                }
            }
        }
        next = next + 1;
    }
    *expanded = kept;
}

/// A fault of a folder that should hold an extension.
#[derive(Debug)]
pub struct DiscoveryIssue {
    pub path: String,
    pub message: String,
}

/// An issue as a line.
pub open spec fn issue_line(issue: DiscoveryIssue) -> Seq<char> {
    issue.path@ + ": "@ + issue.message@
}

/// Looking for extensions fails where none was found and there were faults:
/// they are listed, one to a line.
pub fn discovery_failure(found: usize, issues: &Vec<DiscoveryIssue>) -> (failure: Option<String>)
    ensures
        failure is Some == (found == 0 && issues@.len() > 0),
        failure is Some ==> (failure->0)@ == joined_with(
            issues@.map_values(|issue: DiscoveryIssue| issue_line(issue)),
            "\n"@,
        ),
{
    if found > 0 || issues.len() == 0 {
        return None;
    }
    let mut lines: Vec<String> = Vec::new();
    let mut next: usize = 0;
    let ghost all = issues@.map_values(|issue: DiscoveryIssue| issue_line(issue));
    while next < issues.len()
        invariant
            next <= issues@.len(),
            all == issues@.map_values(|issue: DiscoveryIssue| issue_line(issue)),
            texts(lines@) == all.take(next as int),
        decreases issues@.len() - next,
    {
        let mut line = issues[next].path.clone();
        line.append(": ");
        line.append(issues[next].message.as_str());
        proof {
            lemma_texts_push(lines@, line);
        }
        lines.push(line);
        next = next + 1;
        assert(texts(lines@) =~= all.take(next as int));
    }
    assert(all.take(next as int) =~= all);
    Some(join_texts(&lines, "\n"))
}

} // verus!
