//! Sets of texts.

use crate::text::same_text;
use vstd::prelude::*;

verus! {

/// A set of texts.
#[derive(Debug)]
pub struct TextSet {
    pub items: Vec<String>,
}

impl View for TextSet {
    type V = Set<Seq<char>>;

    open spec fn view(&self) -> Set<Seq<char>> {
        Set::new(|text: Seq<char>| exists|i: int| 0 <= i < self.items@.len() && (
            #[trigger] self.items@[i])@ == text)
    }
}

impl TextSet {
    /// No text.
    pub fn new() -> (set: Self)
        ensures
            set@ == Set::<Seq<char>>::empty(),
    {
        let set = TextSet { items: Vec::new() };
        assert(set@ =~= Set::<Seq<char>>::empty());
        set
    }

    pub fn contains(&self, text: &str) -> (b: bool)
        ensures
            b == self@.contains(text@),
    {
        let mut next: usize = 0;
        while next < self.items.len()
            invariant
                next <= self.items@.len(),
                forall|i: int| 0 <= i < next ==> (#[trigger] self.items@[i])@ != text@,
            decreases self.items@.len() - next,
        {
            if same_text(self.items[next].as_str(), text) {
                return true;
            }
            next = next + 1;
        }
        false
    }

    /// Adds a text, and says whether it is new.
    pub fn insert(&mut self, text: &str) -> (new: bool)
        ensures
            new == !old(self)@.contains(text@),
            final(self)@ == old(self)@.insert(text@),
    {
        if self.contains(text) {
            assert(self@ =~= self@.insert(text@));
            return false;
        }
        let ghost before = self.items@;
        self.items.push(String::from_str(text));
        proof {
            assert forall|t: Seq<char>| self@.contains(t) == #[trigger] old(self)@.insert(
                text@,
            ).contains(t) by {
                if old(self)@.contains(t) {
                    let i = choose|i: int| 0 <= i < before.len() && (#[trigger] before[i])@ == t;
                    assert(self.items@[i]@ == t);
                }
                if t == text@ {
                    assert(self.items@[before.len() as int]@ == t);
                }
                if self@.contains(t) {
                    let i = choose|i: int|
                        0 <= i < self.items@.len() && (#[trigger] self.items@[i])@ == t;
                    if i < before.len() {
                        assert(before[i]@ == t);
                    }
                }
            }
            assert(self@ =~= old(self)@.insert(text@));
        }
        true
    }

    /// Takes a text out.
    pub fn remove(&mut self, text: &str)
        ensures
            final(self)@ == old(self)@.remove(text@),
    {
        let mut kept: Vec<String> = Vec::new();
        let mut next: usize = 0;
        while next < self.items.len()
            invariant
                *self == *old(self),
                next <= self.items@.len(),
                forall|i: int|
                    0 <= i < next && (#[trigger] self.items@[i])@ != text@ ==> exists|k: int|
                        0 <= k < kept@.len() && (#[trigger] kept@[k])@ == self.items@[i]@,
                forall|k: int|
                    0 <= k < kept@.len() ==> (#[trigger] kept@[k])@ != text@ && old(
                        self,
                    )@.contains(kept@[k]@),
            decreases self.items@.len() - next,
        {
            let ghost before = kept@;
            if !same_text(self.items[next].as_str(), text) {
                let copy = self.items[next].clone();
                kept.push(copy);
                assert(kept@[before.len() as int]@ == self.items@[next as int]@);
                assert(old(self)@.contains(self.items@[next as int]@));
            }
            assert forall|i: int|
                0 <= i <= next && (#[trigger] self.items@[i])@ != text@ implies exists|k: int|
                0 <= k < kept@.len() && (#[trigger] kept@[k])@ == self.items@[i]@ by {
                if i < next {
                    let k = choose|k: int|
                        0 <= k < before.len() && (#[trigger] before[k])@ == self.items@[i]@;
                    assert(kept@[k]@ == self.items@[i]@);
                }
            }
            next = next + 1;
        }
        self.items = kept;
        proof {
            assert forall|t: Seq<char>| self@.contains(t) == #[trigger] old(self)@.remove(
                text@,
            ).contains(t) by {
                if old(self)@.contains(t) && t != text@ {
                    let i = choose|i: int|
                        0 <= i < old(self).items@.len() && (#[trigger] old(self).items@[i])@ == t;
                    assert(old(self).items@[i]@ == t);
                }
            }
            assert(self@ =~= old(self)@.remove(text@));
        }
    }

    /// Adds a text that is not there, takes out one that is.
    pub fn toggle(&mut self, text: &str)
        ensures
            final(self)@ == (if old(self)@.contains(text@) {
                old(self)@.remove(text@)
            } else {
                old(self)@.insert(text@)
            }),
    {
        if !self.insert(text) {
            self.remove(text);
            assert(old(self)@.insert(text@).remove(text@) =~= old(self)@.remove(text@));
        }
    }
}

/// Switching a text twice leaves the set as it was.
pub proof fn toggling_twice_changes_nothing(set: Set<Seq<char>>, text: Seq<char>)
    ensures
        ({
            let once = if set.contains(text) {
                set.remove(text)
            } else {
                set.insert(text)
            };
            let twice = if once.contains(text) {
                once.remove(text)
            } else {
                once.insert(text)
            };
            twice == set
        }),
{
    assert(set.insert(text).remove(text) =~= set.remove(text));
    if set.contains(text) {
        assert(set.remove(text).insert(text) =~= set);
    } else {
        assert(set.insert(text).remove(text) =~= set);
    }
}

} // verus!
