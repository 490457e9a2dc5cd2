//! The mathematical model of a store of dialogue nodes: a map from node
//! identifiers to what each node holds, and what it means for that map to be
//! a forest.

use vstd::prelude::*;
use indextree::NodeId;

verus! {

/// What the model records of one node.
pub ghost struct NodeView {
    /// The text of the choice that leads to this node.
    pub label: Option<Seq<char>>,
    /// The text shown when this node becomes current.
    pub prompt: Option<Seq<char>>,
    /// The children, in the order in which they were appended.
    pub children: Seq<NodeId>,
}

/// The model of a whole store.
pub type Nodes = Map<NodeId, NodeView>;

/// A node with the given texts and no children.
pub open spec fn leaf(label: Option<Seq<char>>, prompt: Option<Seq<char>>) -> NodeView {
    NodeView { label, prompt, children: Seq::empty() }
}

impl NodeView {
    /// The same node with `child` appended after its children.
    pub open spec fn with_child(self, child: NodeId) -> NodeView {
        NodeView { children: self.children.push(child), ..self }
    }

    /// The same node with its prompt replaced.
    pub open spec fn with_prompt(self, prompt: Seq<char>) -> NodeView {
        NodeView { prompt: Some(prompt), ..self }
    }

    /// The same node with both of its texts replaced.
    pub open spec fn with_texts(
        self,
        label: Option<Seq<char>>,
        prompt: Option<Seq<char>>,
    ) -> NodeView {
        NodeView { label, prompt, ..self }
    }
}

/// `k` is a position in the child list of a node that `nodes` holds.
pub open spec fn is_edge(nodes: Nodes, parent: NodeId, k: int) -> bool {
    nodes.dom().contains(parent) && 0 <= k < nodes[parent].children.len()
}

/// Every child is itself held by the store and carries a label.
pub open spec fn children_held(nodes: Nodes) -> bool {
    forall|parent: NodeId, k: int| #[trigger]
        is_edge(nodes, parent, k) ==> {
            &&& nodes.dom().contains(nodes[parent].children[k])
            &&& nodes[nodes[parent].children[k]].label.is_some()
        }
}

/// No node is listed twice: not under two parents, nor twice under one.
#[verifier::opaque]
pub open spec fn single_parent(nodes: Nodes) -> bool {
    forall|p: NodeId, j: int, q: NodeId, k: int|
        #[trigger] is_edge(nodes, p, j) && #[trigger] is_edge(nodes, q, k)
            && nodes[p].children[j] == nodes[q].children[k] ==> p == q && j == k
}

/// `node` stands in the child list of some node.
pub open spec fn is_child(nodes: Nodes, node: NodeId) -> bool {
    exists|parent: NodeId, k: int| #[trigger]
        is_edge(nodes, parent, k) && nodes[parent].children[k] == node
}

/// The nodes without a label are the roots: those that are no node's child.
#[verifier::opaque]
pub open spec fn roots_unlabelled(nodes: Nodes) -> bool {
    forall|node: NodeId| #[trigger]
        nodes.dom().contains(node) ==> (nodes[node].label.is_none() <==> !is_child(nodes, node))
}

/// `rank` falls strictly along every edge, which rules out cycles.
pub open spec fn falls_along_edges(nodes: Nodes, rank: spec_fn(NodeId) -> nat) -> bool {
    forall|parent: NodeId, k: int| #[trigger]
        is_edge(nodes, parent, k) ==> rank(nodes[parent].children[k]) < rank(parent)
}

/// Some rank falls along every edge.
pub open spec fn acyclic(nodes: Nodes) -> bool {
    exists|rank: spec_fn(NodeId) -> nat| falls_along_edges(nodes, rank)
}

/// The store is a forest: children are held and labelled, roots are not,
/// each child has one parent, and there is no cycle.
pub open spec fn is_forest(nodes: Nodes) -> bool {
    &&& children_held(nodes)
    &&& roots_unlabelled(nodes)
    &&& single_parent(nodes)
    &&& acyclic(nodes)
}

/// A rank that falls along every edge of a forest.
pub open spec fn some_rank(nodes: Nodes) -> spec_fn(NodeId) -> nat {
    choose|rank: spec_fn(NodeId) -> nat| falls_along_edges(nodes, rank)
}

/// The length of the longest descent from `node` whose first step goes to a
/// child at position `from` or later; 0 where there is no such child.
pub open spec fn descent_from(nodes: Nodes, node: NodeId, from: nat) -> nat
    decreases some_rank(nodes)(node), nodes[node].children.len() - from,
    when is_forest(nodes) && nodes.dom().contains(node)
{
    if from >= nodes[node].children.len() {
        0
    } else {
        proof {
            assert(is_edge(nodes, node, from as int));
        }
        let through = 1 + descent_from(nodes, nodes[node].children[from as int], 0);
        let later = descent_from(nodes, node, from + 1);
        if through >= later {
            through
        } else {
            later
        }
    }
}

/// The depth of the tree below `node`: the number of steps of the longest
/// descent from `node` to a node without children.
pub open spec fn height(nodes: Nodes, node: NodeId) -> nat {
    descent_from(nodes, node, 0)
}

/// A descent through the child at position `k` is among those that start
/// at position `from` or later, for every `from` up to `k`.
pub proof fn lemma_descent_covers(nodes: Nodes, node: NodeId, from: nat, k: int)
    requires
        is_forest(nodes),
        is_edge(nodes, node, k),
        from <= k,
    ensures
        height(nodes, nodes[node].children[k]) < descent_from(nodes, node, from),
    decreases k - from,
{
    if from < k {
        lemma_descent_covers(nodes, node, from + 1, k);
    }
}

/// Every child stands lower than its parent.
pub proof fn lemma_child_is_lower(nodes: Nodes, node: NodeId, k: int)
    requires
        is_forest(nodes),
        is_edge(nodes, node, k),
    ensures
        height(nodes, nodes[node].children[k]) < height(nodes, node),
{
    lemma_descent_covers(nodes, node, 0, k);
}

/// A node without children has height 0, and only such a node.
pub proof fn lemma_height_of_leaf(nodes: Nodes, node: NodeId)
    requires
        is_forest(nodes),
        nodes.dom().contains(node),
    ensures
        height(nodes, node) == 0 <==> nodes[node].children.len() == 0,
{
    if nodes[node].children.len() > 0 {
        lemma_child_is_lower(nodes, node, 0);
    }
}

/// A store without nodes is a forest.
pub proof fn lemma_empty_is_forest(nodes: Nodes)
    requires
        forall|id: NodeId| !nodes.dom().contains(id),
    ensures
        is_forest(nodes),
{
    reveal(single_parent);
    reveal(roots_unlabelled);
    assert(falls_along_edges(nodes, |id: NodeId| 0nat));
}

/// Two stores with the same edges have the same children.
proof fn lemma_same_edges_same_children(before: Nodes, after: Nodes, node: NodeId)
    requires
        forall|parent: NodeId, k: int| #[trigger]
            is_edge(after, parent, k) <==> is_edge(before, parent, k),
        forall|parent: NodeId, k: int| #[trigger]
            is_edge(before, parent, k) ==> after[parent].children[k] == before[parent].children[k],
    ensures
        is_child(after, node) <==> is_child(before, node),
{
    if is_child(before, node) {
        let (parent, k) = choose|parent: NodeId, k: int| #[trigger]
            is_edge(before, parent, k) && before[parent].children[k] == node;
        assert(is_edge(after, parent, k) && after[parent].children[k] == node);
    }
}

/// Adding an unlabelled, childless node under a new identifier keeps a
/// forest a forest.
pub proof fn lemma_new_node_keeps_forest(nodes: Nodes, id: NodeId, node: NodeView)
    requires
        is_forest(nodes),
        !nodes.dom().contains(id),
        node.children.len() == 0,
        node.label.is_none(),
    ensures
        is_forest(nodes.insert(id, node)),
{
    reveal(single_parent);
    reveal(roots_unlabelled);
    let after = nodes.insert(id, node);
    assert forall|parent: NodeId, k: int| #[trigger] is_edge(after, parent, k) implies is_edge(
        nodes,
        parent,
        k,
    ) && after[parent] == nodes[parent] && nodes[parent].children[k] != id by {}
    assert forall|other: NodeId| #[trigger] after.dom().contains(other) implies (
    after[other].label.is_none() <==> !is_child(after, other)) by {
        lemma_same_edges_same_children(nodes, after, other);
    }
    let rank = choose|rank: spec_fn(NodeId) -> nat| falls_along_edges(nodes, rank);
    assert(falls_along_edges(after, rank));
}

/// Appending a new, labelled, childless node under `parent` keeps a forest
/// a forest.
pub proof fn lemma_append_keeps_forest(nodes: Nodes, parent: NodeId, id: NodeId, node: NodeView)
    requires
        is_forest(nodes),
        nodes.dom().contains(parent),
        !nodes.dom().contains(id),
        node.children.len() == 0,
        node.label.is_some(),
    ensures
        is_forest(nodes.insert(id, node).insert(parent, nodes[parent].with_child(id))),
{
    reveal(single_parent);
    reveal(roots_unlabelled);
    let after = nodes.insert(id, node).insert(parent, nodes[parent].with_child(id));
    let old_len = nodes[parent].children.len() as int;
    assert(is_edge(after, parent, old_len) && after[parent].children[old_len] == id);
    assert forall|p: NodeId, k: int| #[trigger] is_edge(after, p, k) implies {
        ||| (p == parent && k == old_len && after[p].children[k] == id)
        ||| (is_edge(nodes, p, k) && after[p].children[k] == nodes[p].children[k]
            && nodes[p].children[k] != id)
    } by {}
    assert forall|p: NodeId, k: int| #[trigger] is_edge(nodes, p, k) implies is_edge(after, p, k)
        && after[p].children[k] == nodes[p].children[k] by {}
    let rank = choose|rank: spec_fn(NodeId) -> nat| falls_along_edges(nodes, rank);
    let lifted = |n: NodeId|
        if n == id {
            0nat
        } else {
            rank(n) + 1
        };
    assert(falls_along_edges(after, lifted));
}

/// Replacing the texts of a node, but neither its children nor whether it
/// has a label, keeps a forest a forest.
pub proof fn lemma_retext_keeps_forest(nodes: Nodes, id: NodeId, node: NodeView)
    requires
        is_forest(nodes),
        nodes.dom().contains(id),
        node.children == nodes[id].children,
        node.label.is_some() == nodes[id].label.is_some(),
    ensures
        is_forest(nodes.insert(id, node)),
{
    reveal(single_parent);
    reveal(roots_unlabelled);
    let after = nodes.insert(id, node);
    assert forall|parent: NodeId, k: int| #[trigger] is_edge(after, parent, k) implies is_edge(
        nodes,
        parent,
        k,
    ) && after[parent].children == nodes[parent].children by {}
    assert forall|other: NodeId| #[trigger] after.dom().contains(other) implies (
    after[other].label.is_none() <==> !is_child(after, other)) by {
        lemma_same_edges_same_children(nodes, after, other);
    }
    let rank = choose|rank: spec_fn(NodeId) -> nat| falls_along_edges(nodes, rank);
    assert(falls_along_edges(after, rank));
}

} // verus!
