//! The boundary with `indextree`. The arena and its node identifiers are
//! opaque here; `arena_nodes` names what an arena holds, and each function
//! below makes one call into the crate and says what that call does to it.
//! None of these contracts is proved: they say what the crate's source shows
//! of an arena whose links are consistent, as they are in every arena that
//! is changed through the crate's own methods. The store keeps its arena to
//! itself and changes it through these functions alone.

use vstd::prelude::*;
use indextree::Arena;
use indextree::NodeId;
use crate::node::AnswerAndFollowUp;
use crate::tree::NodeView;
use crate::tree::leaf;

verus! {

/// `indextree::Arena`, of which nothing is known but what the functions
/// below say.
#[verifier::external_type_specification]
#[verifier::external_body]
#[verifier::reject_recursive_types(T)]
pub struct ExArena<T>(Arena<T>);

/// `indextree::NodeId`: a plain value that is copied and compared, and never
/// looked into.
#[verifier::external_type_specification]
#[verifier::external_body]
pub struct ExNodeId(NodeId);

/// What the arena holds: for each identifier that addresses a live node, the
/// node's texts and its children in sibling order.
pub uninterp spec fn arena_nodes(arena: Arena<AnswerAndFollowUp>) -> Map<NodeId, NodeView>;

/// `Arena::new`: an arena without nodes.
#[verifier::external_body]
pub(crate) fn arena_new() -> (arena: Arena<AnswerAndFollowUp>)
    ensures
        arena_nodes(arena) =~= Map::empty(),
{
    Arena::new()
}

/// `Arena::new_node`: stores `item` in a node of its own, detached and
/// childless, under an identifier that addressed no live node before. The
/// other nodes are left as they were. The call panics only in an arena of
/// `usize::MAX` nodes, which no memory holds.
#[verifier::external_body]
pub(crate) fn arena_new_node(arena: &mut Arena<AnswerAndFollowUp>, item: AnswerAndFollowUp) -> (id:
    NodeId)
    ensures
        !arena_nodes(*old(arena)).dom().contains(id),
        arena_nodes(*final(arena)) == arena_nodes(*old(arena)).insert(
            id,
            leaf(item.label(), item.prompt()),
        ),
{
    arena.new_node(item)
}

/// `NodeId::append_value`: stores `item` in a new childless node and links
/// it as the last child of `parent`. The identifier is new; the nodes other
/// than `parent` are left as they were. The call panics on a parent that was
/// removed, which the precondition excludes, and in an arena of `usize::MAX`
/// nodes, which no memory holds.
#[verifier::external_body]
pub(crate) fn arena_append_value(
    arena: &mut Arena<AnswerAndFollowUp>,
    parent: NodeId,
    item: AnswerAndFollowUp,
) -> (id: NodeId)
    requires
        arena_nodes(*old(arena)).dom().contains(parent),
    ensures
        !arena_nodes(*old(arena)).dom().contains(id),
        arena_nodes(*final(arena)) == arena_nodes(*old(arena)).insert(
            id,
            leaf(item.label(), item.prompt()),
        ).insert(parent, arena_nodes(*old(arena))[parent].with_child(id)),
{
    parent.append_value(item, arena)
}

/// `Arena::get_data`: the payload of the node that `id` addresses, or
/// `None` where it addresses no live node of this arena.
#[verifier::external_body]
pub(crate) fn arena_get_data(arena: &Arena<AnswerAndFollowUp>, id: NodeId) -> (item: Option<
    &AnswerAndFollowUp,
>)
    ensures
        item.is_some() == arena_nodes(*arena).dom().contains(id),
        item matches Some(found) ==> found.label() == arena_nodes(*arena)[id].label,
        item matches Some(found) ==> found.prompt() == arena_nodes(*arena)[id].prompt,
{
    arena.get_data(id)
}

/// `Arena::get_data_mut`: the payload of the node that `id` addresses, for
/// writing, or `None` where it addresses no live node of this arena.
/// Whatever is written becomes the node's texts; its children and the other
/// nodes are left as they were.
#[verifier::external_body]
pub(crate) fn arena_get_data_mut(arena: &mut Arena<AnswerAndFollowUp>, id: NodeId) -> (item:
    Option<&mut AnswerAndFollowUp>)
    ensures
        item.is_some() == arena_nodes(*old(arena)).dom().contains(id),
        item.is_none() ==> *final(arena) == *old(arena),
        item matches Some(found) ==> found.label() == arena_nodes(*old(arena))[id].label,
        item matches Some(found) ==> found.prompt() == arena_nodes(*old(arena))[id].prompt,
        item matches Some(found) ==> arena_nodes(*final(arena)) == arena_nodes(
            *old(arena),
        ).insert(
            id,
            arena_nodes(*old(arena))[id].with_texts(final(found).label(), final(found).prompt()),
        ),
{
    arena.get_data_mut(id)
}

/// `NodeId::children`, collected: the children of the node that `id`
/// addresses, first to last. The call panics on an identifier out of the
/// arena's range, which the precondition excludes.
#[verifier::external_body]
pub(crate) fn arena_children(arena: &Arena<AnswerAndFollowUp>, id: NodeId) -> (children: Vec<
    NodeId,
>)
    requires
        arena_nodes(*arena).dom().contains(id),
    ensures
        children@ == arena_nodes(*arena)[id].children,
{
    id.children(arena).collect()
}

} // verus!
