//! A window's accessibility tree, and the questions that are asked of it.

use crate::text::{contains_text, holds_text, lemma_texts_push, same_text, texts};
use crate::tub::{sort_texts, sorted_texts};
use vstd::prelude::*;
use vstd::string::StringExecFns;

verus! {

/// A node, under a key that holds for one capture only.
#[derive(Debug)]
pub struct AccessNode {
    pub key: String,
    pub role: Option<String>,
    pub label: Option<String>,
    pub value: Option<String>,
    /// The names of what can be done with it.
    pub actions: Vec<String>,
    /// The keys of the nodes below it.
    pub children: Vec<String>,
    /// Its lasting id.
    pub accesskit_id: Option<String>,
}

/// A captured tree: its nodes, flat, and the key of the focused one.
#[derive(Debug)]
pub struct A11yTree {
    pub nodes: Vec<AccessNode>,
    pub focus: Option<String>,
}

/// A text by its value.
pub open spec fn text_value(text: Option<String>) -> Option<Seq<char>> {
    match text {
        Some(text) => Some(text@),
        None => None,
    }
}

/// The name that a node is announced by: its label, else its value.
pub open spec fn name_of(node: AccessNode) -> Option<Seq<char>> {
    match node.label {
        Some(label) => Some(label@),
        None => text_value(node.value),
    }
}

/// The places of the first `k` nodes that a test picks.
pub open spec fn picked(nodes: Seq<AccessNode>, test: spec_fn(AccessNode) -> bool, k: int) -> Seq<
    usize,
>
    decreases k,
{
    if k <= 0 {
        Seq::empty()
    } else if test(nodes[k - 1]) {
        picked(nodes, test, k - 1).push((k - 1) as usize)
    } else {
        picked(nodes, test, k - 1)
    }
}

/// The place of the first node from `from` on that a test picks.
pub open spec fn first_picked(
    nodes: Seq<AccessNode>,
    test: spec_fn(AccessNode) -> bool,
    from: int,
) -> Option<int>
    decreases nodes.len() - from,
{
    if from < 0 || from >= nodes.len() {
        None
    } else if test(nodes[from]) {
        Some(from)
    } else {
        first_picked(nodes, test, from + 1)
    }
}

/// What nodes say, in order, of the first `k`: those that say nothing are
/// passed over.
pub open spec fn said(
    nodes: Seq<AccessNode>,
    what: spec_fn(AccessNode) -> Option<Seq<char>>,
    k: int,
) -> Seq<Seq<char>>
    decreases k,
{
    if k <= 0 {
        Seq::empty()
    } else {
        match what(nodes[k - 1]) {
            Some(text) => said(nodes, what, k - 1).push(text),
            None => said(nodes, what, k - 1),
        }
    }
}

/// A list with runs of the same text cut to one, of the first `k`.
pub open spec fn without_repeats(list: Seq<Seq<char>>, k: int) -> Seq<Seq<char>>
    decreases k,
{
    if k <= 0 {
        Seq::empty()
    } else if k >= 2 && list[k - 1] == list[k - 2] {
        without_repeats(list, k - 1)
    } else {
        without_repeats(list, k - 1).push(list[k - 1])
    }
}

fn is_text(text: &Option<String>, other: &str) -> (b: bool)
    ensures
        b == (text_value(*text) == Some(other@)),
{
    match text {
        Some(text) => same_text(text.as_str(), other),
        None => false,
    }
}

impl AccessNode {
    /// The name that the node is announced by.
    pub fn name(&self) -> (name: Option<String>)
        ensures
            text_value(name) == name_of(*self),
    {
        match &self.label {
            Some(label) => Some(label.clone()),
            None => match &self.value {
                Some(value) => Some(value.clone()),
                None => None,
            },
        }
    }

    /// Whether the node can be clicked.
    pub fn clicks(&self) -> (b: bool)
        ensures
            b == can_click(*self),
    {
        lists_text(&self.actions, "Click")
    }
}

fn lists_text(list: &Vec<String>, text: &str) -> (b: bool)
    ensures
        b == lists(list@, text@),
{
    let mut next: usize = 0;
    while next < list.len()
        invariant
            next <= list@.len(),
            forall|i: int| 0 <= i < next ==> (#[trigger] list@[i])@ != text@,
        decreases list@.len() - next,
    {
        if same_text(list[next].as_str(), text) {
            return true;
        }
        next = next + 1;
    }
    false
}

/// A list holds a text.
pub open spec fn lists(list: Seq<String>, text: Seq<char>) -> bool {
    exists|i: int| 0 <= i < list.len() && (#[trigger] list[i])@ == text
}

/// A node can be clicked.
pub open spec fn can_click(node: AccessNode) -> bool {
    lists(node.actions@, "Click"@)
}

/// A run of text that holds a text.
pub open spec fn run_holds(node: AccessNode, text: Seq<char>) -> bool {
    &&& text_value(node.role) == Some("TextRun"@)
    &&& node.value is Some
    &&& holds_text((node.value->0)@, text)
}

/// A node that can be clicked and has no name.
pub open spec fn is_anonymous(node: AccessNode) -> bool {
    can_click(node) && name_of(node) is None
}

/// How an anonymous node is told.
pub open spec fn anonymous_text(node: AccessNode) -> Seq<char> {
    node.key@ + " ("@ + (match node.role {
        Some(role) => role@,
        None => "?"@,
    }) + ")"@
}

impl A11yTree {
    pub fn len(&self) -> (count: usize)
        ensures
            count == self.nodes@.len(),
    {
        self.nodes.len()
    }

    /// The places of the nodes of a role.
    pub fn by_role(&self, role: &str) -> (places: Vec<usize>)
        ensures
            places@ == picked(
                self.nodes@,
                |node: AccessNode| text_value(node.role) == Some(role@),
                self.nodes@.len() as int,
            ),
    {
        let ghost test = |node: AccessNode| text_value(node.role) == Some(role@);
        let mut places: Vec<usize> = Vec::new();
        let mut next: usize = 0;
        while next < self.nodes.len()
            invariant
                next <= self.nodes@.len(),
                test == (|node: AccessNode| text_value(node.role) == Some(role@)),
                places@ == picked(self.nodes@, test, next as int),
            decreases self.nodes@.len() - next,
        {
            if is_text(&self.nodes[next].role, role) {
                places.push(next);
            }
            next = next + 1;
        }
        places
    }

    /// The roles that occur, in order, each once.
    pub fn roles(&self) -> (roles: Vec<String>)
        ensures
            ({
                let all = sorted_texts(
                    said(
                        self.nodes@,
                        |node: AccessNode| text_value(node.role),
                        self.nodes@.len() as int,
                    ),
                );
                texts(roles@) == without_repeats(all, all.len() as int)
            }),
    {
        let ghost what = |node: AccessNode| text_value(node.role);
        let mut all: Vec<String> = Vec::new();
        let mut next: usize = 0;
        assert(texts(all@) =~= Seq::empty());
        while next < self.nodes.len()
            invariant
                next <= self.nodes@.len(),
                what == (|node: AccessNode| text_value(node.role)),
                texts(all@) == said(self.nodes@, what, next as int),
            decreases self.nodes@.len() - next,
        {
            if let Some(role) = &self.nodes[next].role {
                let role = role.clone();
                proof {
                    lemma_texts_push(all@, role);
                }
                all.push(role);
            }
            next = next + 1;
        }
        let sorted = sort_texts(all);
        let ghost order = texts(sorted@);
        let mut roles: Vec<String> = Vec::new();
        let mut at: usize = 0;
        assert(texts(roles@) =~= Seq::empty());
        while at < sorted.len()
            invariant
                at <= sorted@.len(),
                order == texts(sorted@),
                texts(roles@) == without_repeats(order, at as int),
            decreases sorted@.len() - at,
        {
            assert(order[at as int] == sorted@[at as int]@);
            if at > 0 {
                assert(order[at - 1] == sorted@[at - 1]@);
            }
            if at == 0 || !same_text(sorted[at].as_str(), sorted[at - 1].as_str()) {
                let role = sorted[at].clone();
                proof {
                    lemma_texts_push(roles@, role);
                }
                roles.push(role);
            }
            at = at + 1;
        }
        assert(order.len() == sorted@.len());
        roles
    }

    /// The place of the first node of a name.
    pub fn by_name(&self, name: &str) -> (place: Option<usize>)
        ensures
            match (place, first_picked(
                self.nodes@,
                |node: AccessNode| name_of(node) == Some(name@),
                0,
            )) {
                (Some(own), Some(found)) => own == found,
                (None, None) => true,
                _ => false,
            },
    {
        let ghost test = |node: AccessNode| name_of(node) == Some(name@);
        let mut next: usize = 0;
        while next < self.nodes.len()
            invariant
                next <= self.nodes@.len(),
                test == (|node: AccessNode| name_of(node) == Some(name@)),
                first_picked(self.nodes@, test, 0) == first_picked(
                    self.nodes@,
                    test,
                    next as int,
                ),
            decreases self.nodes@.len() - next,
        {
            let own = self.nodes[next].name();
            if is_text(&own, name) {
                return Some(next);
            }
            next = next + 1;
        }
        None
    }

    /// The names that occur, in order.
    pub fn names(&self) -> (names: Vec<String>)
        ensures
            texts(names@) == said(
                self.nodes@,
                |node: AccessNode| name_of(node),
                self.nodes@.len() as int,
            ),
    {
        let ghost what = |node: AccessNode| name_of(node);
        let mut names: Vec<String> = Vec::new();
        let mut next: usize = 0;
        assert(texts(names@) =~= Seq::empty());
        while next < self.nodes.len()
            invariant
                next <= self.nodes@.len(),
                what == (|node: AccessNode| name_of(node)),
                texts(names@) == said(self.nodes@, what, next as int),
            decreases self.nodes@.len() - next,
        {
            if let Some(name) = self.nodes[next].name() {
                proof {
                    lemma_texts_push(names@, name);
                }
                names.push(name);
            }
            next = next + 1;
        }
        names
    }

    /// The nodes that can be clicked and have no name, as they are told.
    pub fn actionable_without_name(&self) -> (told: Vec<String>)
        ensures
            texts(told@) == said(
                self.nodes@,
                |node: AccessNode|
                    if is_anonymous(node) {
                        Some(anonymous_text(node))
                    } else {
                        None
                    },
                self.nodes@.len() as int,
            ),
    {
        let ghost what = |node: AccessNode|
            if is_anonymous(node) {
                Some(anonymous_text(node))
            } else {
                None
            };
        let mut told: Vec<String> = Vec::new();
        let mut next: usize = 0;
        assert(texts(told@) =~= Seq::empty());
        while next < self.nodes.len()
            invariant
                next <= self.nodes@.len(),
                what == (|node: AccessNode|
                    if is_anonymous(node) {
                        Some(anonymous_text(node))
                    } else {
                        None
                    }),
                texts(told@) == said(self.nodes@, what, next as int),
            decreases self.nodes@.len() - next,
        {
            let node = &self.nodes[next];
            if node.clicks() && node.name().is_none() {
                let mut text = node.key.clone();
                text.append(" (");
                match &node.role {
                    Some(role) => text.append(role.as_str()),
                    None => text.append("?"),
                }
                text.append(")");
                proof {
                    lemma_texts_push(told@, text);
                    assert(text@ =~= anonymous_text(*node));
                }
                told.push(text);
            }
            next = next + 1;
        }
        told
    }

    fn node_at(&self, key: &str) -> (place: Option<usize>)
        ensures
            match (place, first_picked(self.nodes@, has_key(key@), 0)) {
                (Some(own), Some(found)) => own == found,
                (None, None) => true,
                _ => false,
            },
    {
        let mut next: usize = 0;
        while next < self.nodes.len()
            invariant
                next <= self.nodes@.len(),
                first_picked(self.nodes@, has_key(key@), 0) == first_picked(
                    self.nodes@,
                    has_key(key@),
                    next as int,
                ),
            decreases self.nodes@.len() - next,
        {
            if same_text(self.nodes[next].key.as_str(), key) {
                return Some(next);
            }
            next = next + 1;
        }
        None
    }

    /// The place of the focused node: none where the capture names none, or
    /// one that it does not hold.
    pub fn focused_node(&self) -> (place: Option<usize>)
        ensures
            match (place, self.focus) {
                (Some(own), Some(key)) => first_picked(self.nodes@, has_key(key@), 0) == Some(
                    own as int,
                ),
                (None, Some(key)) => first_picked(self.nodes@, has_key(key@), 0) is None,
                (None, None) => true,
                (Some(_), None) => false,
            },
    {
        match &self.focus {
            None => None,
            Some(key) => self.node_at(key.as_str()),
        }
    }

    fn paragraph_over(&self, key: &str) -> (place: Option<usize>)
        ensures
            match (place, first_picked(self.nodes@, is_paragraph_over(key@), 0)) {
                (Some(own), Some(found)) => own == found && own < self.nodes@.len(),
                (None, None) => true,
                _ => false,
            },
    {
        let mut next: usize = 0;
        while next < self.nodes.len()
            invariant
                next <= self.nodes@.len(),
                first_picked(self.nodes@, is_paragraph_over(key@), 0) == first_picked(
                    self.nodes@,
                    is_paragraph_over(key@),
                    next as int,
                ),
            decreases self.nodes@.len() - next,
        {
            if lists_text(&self.nodes[next].children, key) && self.nodes[next].accesskit_id.is_some() {
                return Some(next);
            }
            next = next + 1;
        }
        None
    }

    fn run_with(&self, text: &str) -> (place: Option<usize>)
        ensures
            match (place, first_picked(self.nodes@, holds_run(text@), 0)) {
                (Some(own), Some(found)) => own == found && own < self.nodes@.len(),
                (None, None) => true,
                _ => false,
            },
    {
        let ghost test = holds_run(text@);
        let mut next: usize = 0;
        while next < self.nodes.len()
            invariant
                next <= self.nodes@.len(),
                test == holds_run(text@),
                first_picked(self.nodes@, test, 0) == first_picked(
                    self.nodes@,
                    test,
                    next as int,
                ),
            decreases self.nodes@.len() - next,
        {
            let node = &self.nodes[next];
            if is_text(&node.role, "TextRun") {
                if let Some(value) = &node.value {
                    if contains_text(value.as_str(), text) {
                        return Some(next);
                    }
                }
            }
            next = next + 1;
        }
        None
    }

    /// The lasting id of the paragraph whose runs hold a text: that of the
    /// first node with an id that lists the first such run.
    pub fn accesskit_id_of_text(&self, text: &str) -> (id: Option<String>)
        ensures
            text_value(id) == paragraph_id(self.nodes@, text@),
    {
        match self.run_with(text) {
            None => None,
            Some(run) => match self.paragraph_over(self.nodes[run].key.as_str()) {
                None => None,
                Some(at) => match &self.nodes[at].accesskit_id {
                    Some(id) => Some(id.clone()),
                    None => None,
                },
            },
        }
    }
}

/// Picks the node of a key.
pub open spec fn has_key(key: Seq<char>) -> spec_fn(AccessNode) -> bool {
    |node: AccessNode| node.key@ == key
}

/// Picks runs that hold a text.
pub open spec fn holds_run(text: Seq<char>) -> spec_fn(AccessNode) -> bool {
    |node: AccessNode| run_holds(node, text)
}

/// Picks nodes with a lasting id that list a key.
pub open spec fn is_paragraph_over(key: Seq<char>) -> spec_fn(AccessNode) -> bool {
    |node: AccessNode| lists(node.children@, key) && node.accesskit_id is Some
}

/// The lasting id of the paragraph whose runs hold a text.
pub open spec fn paragraph_id(nodes: Seq<AccessNode>, text: Seq<char>) -> Option<Seq<char>> {
    match first_picked(nodes, holds_run(text), 0) {
        None => None,
        Some(run) => match first_picked(nodes, is_paragraph_over(nodes[run].key@), 0) {
            None => None,
            Some(at) => text_value(nodes[at].accesskit_id),
        },
    }
}

} // verus!
