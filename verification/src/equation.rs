//! The equation composer.

use crate::text::{same_text, trim, trimmed};
use vstd::prelude::*;

verus! {

/// The popover's state: the equation that it edits, none for a new one.
#[derive(Debug)]
pub struct EquationComposer {
    pub equation: Option<u128>,
    pub source: String,
}

/// What committing does.
#[derive(Debug)]
pub enum EquationCommit {
    Nothing,
    Insert(String),
    Replace(u128, String),
}

/// What the popover shows above its field.
#[derive(Debug)]
pub enum EquationPreview {
    /// A hint that nothing is typed yet.
    Hint(String),
    /// Render this source.
    Render(String),
}

impl EquationComposer {
    pub fn new(equation: Option<u128>, source: &str) -> (composer: Self)
        ensures
            composer.equation == equation,
            composer.source@ == source@,
    {
        EquationComposer { equation, source: String::from_str(source) }
    }

    pub fn set_source(&mut self, source: &str)
        ensures
            final(self).source@ == source@,
            final(self).equation == old(self).equation,
    {
        self.source = String::from_str(source);
    }

    pub fn target_equation(&self) -> (equation: Option<u128>)
        ensures
            equation == self.equation,
    {
        self.equation
    }

    /// What committing does: an empty source changes nothing, and the popover
    /// closes either way.
    pub fn commit(&self) -> (commit: EquationCommit)
        ensures
            match commit {
                EquationCommit::Nothing => trimmed(self.source@).len() == 0,
                EquationCommit::Insert(source) => trimmed(self.source@).len() > 0 && self.equation
                    is None && source@ == trimmed(self.source@),
                EquationCommit::Replace(id, source) => trimmed(self.source@).len() > 0
                    && self.equation == Some(id) && source@ == trimmed(self.source@),
            },
    {
        let source = trim(self.source.as_str());
        if source.as_str().is_empty() {
            return EquationCommit::Nothing;
        }
        match self.equation {
            Some(id) => EquationCommit::Replace(id, source),
            None => EquationCommit::Insert(source),
        }
    }

    /// What shows above the field.
    pub fn preview(&self) -> (preview: EquationPreview)
        ensures
            match preview {
                EquationPreview::Hint(text) => trimmed(self.source@).len() == 0 && text@
                    == "Type LaTeX to preview"@,
                EquationPreview::Render(source) => trimmed(self.source@).len() > 0 && source@
                    == trimmed(self.source@),
            },
    {
        let source = trim(self.source.as_str());
        if source.as_str().is_empty() {
            EquationPreview::Hint(String::from_str("Type LaTeX to preview"))
        } else {
            EquationPreview::Render(source)
        }
    }

    /// What shows under the field.
    pub fn hint(&self) -> (text: &'static str)
        ensures
            text@ == (if self.equation is Some {
                "Enter updates the equation · Esc cancels"@
            } else {
                "Enter inserts the equation · Esc cancels"@
            }),
    {
        if self.equation.is_some() {
            "Enter updates the equation · Esc cancels"
        } else {
            "Enter inserts the equation · Esc cancels"
        }
    }

    /// Escape closes the popover.
    pub fn on_key_down(&self, key: &str) -> (dismisses: bool)
        ensures
            dismisses == (key@ == "escape"@),
    {
        same_text(key, "escape")
    }
}

} // verus!
