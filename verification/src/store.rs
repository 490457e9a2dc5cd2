//! The tree store: it owns every node and hands out identifiers.

use vstd::prelude::*;
use indextree::Arena;
use indextree::NodeId;
use crate::node::AnswerAndFollowUp;
use crate::arena::arena_nodes;
use crate::arena::arena_new;
use crate::arena::arena_new_node;
use crate::arena::arena_append_value;
use crate::arena::arena_get_data;
use crate::arena::arena_get_data_mut;
use crate::arena::arena_children;
use crate::tree::Nodes;
use crate::tree::leaf;
use crate::tree::is_forest;
use crate::tree::lemma_empty_is_forest;
use crate::tree::lemma_new_node_keeps_forest;
use crate::tree::lemma_append_keeps_forest;
use crate::tree::lemma_retext_keeps_forest;
use crate::text::text_of;

verus! {

/// An arena of dialogue nodes. Nodes are only ever added.
#[derive(Debug)]
pub struct TreeStore {
    arena: Arena<AnswerAndFollowUp>,
}

impl View for TreeStore {
    type V = Nodes;

    closed spec fn view(&self) -> Nodes {
        arena_nodes(self.arena)
    }
}

impl TreeStore {
    /// The store's nodes form a forest.
    pub open spec fn well_formed(&self) -> bool {
        is_forest(self@)
    }

    /// `id` addresses a node of this store.
    pub open spec fn holds(&self, id: NodeId) -> bool {
        self@.dom().contains(id)
    }

    /// An empty store.
    pub fn new() -> (store: Self)
        ensures
            store@ =~= Map::empty(),
            store.well_formed(),
    {
        let store = TreeStore { arena: arena_new() };
        proof {
            lemma_empty_is_forest(store@);
        }
        store
    }

    /// Whether `id` addresses a node of this store.
    #[verifier::when_used_as_spec(holds)]
    pub fn contains(&self, id: NodeId) -> (found: bool)
        ensures
            found == self.holds(id),
    {
        arena_get_data(&self.arena, id).is_some()
    }

    /// Allocates a node with neither label nor prompt and no children.
    pub fn create_node(&mut self) -> (id: NodeId)
        requires
            old(self).well_formed(),
        ensures
            !old(self).holds(id),
            final(self)@ == old(self)@.insert(id, leaf(None, None)),
            final(self).well_formed(),
    {
        let id = arena_new_node(&mut self.arena, AnswerAndFollowUp::unlabelled());
        proof {
            lemma_new_node_keeps_forest(old(self)@, id, leaf(None, None));
        }
        id
    }

    /// Allocates a node labelled `label`, without prompt or children, and
    /// makes it the last child of `parent`.
    pub fn append_child(&mut self, parent: NodeId, label: &str) -> (id: NodeId)
        requires
            old(self).well_formed(),
            old(self).holds(parent),
        ensures
            !old(self).holds(id),
            final(self)@ == old(self)@.insert(id, leaf(Some(label@), None)).insert(
                parent,
                old(self)@[parent].with_child(id),
            ),
            final(self).well_formed(),
    {
        let id = arena_append_value(&mut self.arena, parent, AnswerAndFollowUp::new(label));
        proof {
            lemma_append_keeps_forest(old(self)@, parent, id, leaf(Some(label@), None));
        }
        id
    }

    /// Sets the prompt of `node`, replacing any earlier one.
    pub fn set_prompt(&mut self, node: NodeId, prompt: &str)
        requires
            old(self).well_formed(),
            old(self).holds(node),
        ensures
            final(self)@ == old(self)@.insert(node, old(self)@[node].with_prompt(prompt@)),
            final(self).well_formed(),
    {
        match arena_get_data_mut(&mut self.arena, node) {
            Some(item) => item.question = Some(prompt.to_owned()),
            None => {},
        }
        proof {
            lemma_retext_keeps_forest(old(self)@, node, old(self)@[node].with_prompt(prompt@));
        }
    }

    /// The prompt of `node`, if it has one.
    pub fn prompt_of(&self, node: NodeId) -> (prompt: Option<String>)
        requires
            self.holds(node),
        ensures
            text_of(prompt) == self@[node].prompt,
    {
        match arena_get_data(&self.arena, node) {
            Some(item) => copy_text(&item.question),
            None => None,
        }
    }

    /// The label of `node`, if it has one.
    pub fn label_of(&self, node: NodeId) -> (label: Option<String>)
        requires
            self.holds(node),
        ensures
            text_of(label) == self@[node].label,
    {
        match arena_get_data(&self.arena, node) {
            Some(item) => copy_text(&item.answer),
            None => None,
        }
    }

    /// The children of `node`, in the order in which they were appended.
    pub fn children_of(&self, node: NodeId) -> (children: Vec<NodeId>)
        requires
            self.holds(node),
        ensures
            children@ == self@[node].children,
    {
        arena_children(&self.arena, node)
    }
}

/// A copy of an optional text.
fn copy_text(text: &Option<String>) -> (copy: Option<String>)
    ensures
        text_of(copy) == text_of(*text),
{
    match text {
        Some(s) => Some(s.clone()),
        None => None,
    }
}

} // verus!
