//! What holds of every dialogue that the builder makes and of every session
//! over it, stated over the models that the contracts use.

use vstd::prelude::*;
use indextree::NodeId;
use crate::alphabet::ALPHABET_LEN;
use crate::alphabet::letter;
use crate::alphabet::lemma_letter_of_position;
use crate::alphabet::lemma_position_of_letter;
use crate::alphabet::position;
use crate::builder::asked;
use crate::builder::is_dialogue;
use crate::store::TreeStore;
use crate::text::texts;
use crate::text::trimmed;
use crate::traversal::Session;
use crate::traversal::TraversalError;
use crate::traversal::choice_line;
use crate::traversal::choice_lines;
use crate::traversal::chosen;
use crate::traversal::fits_alphabet;
use crate::traversal::is_terminal;
use crate::traversal::play;
use crate::traversal::shown;
use crate::tree::Nodes;
use crate::tree::height;
use crate::tree::is_edge;
use crate::tree::is_forest;
use crate::tree::lemma_child_is_lower;
use crate::tree::lemma_height_of_leaf;

verus! {

/// A prompt has as many choices as it was given labels. Asking a question
/// at a node adds one child per label; at a node that had none, the node
/// then has exactly one child per label, and each of them is a leaf without
/// a prompt.
pub proof fn lemma_child_count_matches_labels(
    before: Nodes,
    after: Nodes,
    node: NodeId,
    question: Seq<char>,
    labels: Seq<Seq<char>>,
    ids: Seq<NodeId>,
)
    requires
        asked(before, after, node, question, labels, ids),
    ensures
        after[node].children.len() == before[node].children.len() + labels.len(),
        before[node].children.len() == 0 ==> after[node].children == ids,
        forall|k: int|
            0 <= k < ids.len() ==> (#[trigger] after[ids[k]]).children.len() == 0
                && after[ids[k]].prompt.is_none(),
{
}

/// A store without nodes is a dialogue.
pub proof fn lemma_empty_is_dialogue(nodes: Nodes)
    requires
        forall|id: NodeId| !nodes.dom().contains(id),
    ensures
        is_dialogue(nodes),
{
}

/// Asking a question keeps a dialogue a dialogue: as long as the choices
/// fit the alphabet, every node without a prompt still has no children.
pub proof fn lemma_question_keeps_dialogue(
    before: Nodes,
    after: Nodes,
    node: NodeId,
    question: Seq<char>,
    labels: Seq<Seq<char>>,
    ids: Seq<NodeId>,
)
    requires
        is_dialogue(before),
        before.dom().contains(node),
        asked(before, after, node, question, labels, ids),
        before[node].children.len() + labels.len() <= ALPHABET_LEN,
    ensures
        is_dialogue(after),
{
}

/// Ending the dialogue at a node keeps a dialogue a dialogue.
pub proof fn lemma_ending_keeps_dialogue(nodes: Nodes, node: NodeId, message: Seq<char>)
    requires
        is_dialogue(nodes),
        nodes.dom().contains(node),
    ensures
        is_dialogue(nodes.insert(node, nodes[node].with_prompt(message))),
{
}

/// Choices are offered in the order of their labels, and the letter of a
/// choice depends on its position alone. After a question with `labels` is
/// asked at a node without children, the node shows the question and then,
/// for each position `k`, the letter of `k` with `labels[k]`; and the letter
/// of `k` picks the child that was made for `labels[k]`.
pub proof fn lemma_choices_follow_labels(
    before: Nodes,
    after: Nodes,
    node: NodeId,
    question: Seq<char>,
    labels: Seq<Seq<char>>,
    ids: Seq<NodeId>,
)
    requires
        asked(before, after, node, question, labels, ids),
        before[node].children.len() == 0,
        labels.len() <= ALPHABET_LEN,
    ensures
        shown(after, node) == seq![question] + Seq::new(
            labels.len(),
            |k: int| choice_line(k, labels[k]),
        ),
        forall|k: int|
            0 <= k < labels.len() ==> #[trigger] chosen(after, node, seq![letter(k)]) == Ok::<
                NodeId,
                TraversalError,
            >(ids[k]),
{
    assert(choice_lines(after, node) =~= Seq::new(
        labels.len(),
        |k: int| choice_line(k, labels[k]),
    ));
    assert forall|k: int| 0 <= k < labels.len() implies #[trigger] chosen(
        after,
        node,
        seq![letter(k)],
    ) == Ok::<NodeId, TraversalError>(ids[k]) by {
        lemma_position_of_letter(k);
    }
}

/// A session is determined by the tree, the starting node and the lines
/// read: two runs that meet the contract of `recurse_game` on the same
/// store, node and lines show the same output, read the same number of
/// lines and end alike.
pub proof fn lemma_runs_agree(
    store: TreeStore,
    node: NodeId,
    inputs: Seq<String>,
    first: Session,
    second: Session,
)
    requires
        first@ == play(store@, node, texts(inputs)),
        second@ == play(store@, node, texts(inputs)),
    ensures
        texts(first.output@) == texts(second.output@),
        first.consumed == second.consumed,
        first.end == second.end,
{
}

/// A session is bounded by the depth of the tree. It reads at most as many
/// lines as the tree below its start is deep; where it ends at a node, that
/// node is terminal; and it finds the input closed only where fewer lines
/// were given than the tree is deep. So on valid choices, with a line for
/// every level, it reaches a terminal node within as many steps as the tree
/// has levels.
pub proof fn lemma_session_within_height(nodes: Nodes, node: NodeId, inputs: Seq<Seq<char>>)
    requires
        is_forest(nodes),
        nodes.dom().contains(node),
    ensures
        play(nodes, node, inputs).consumed <= height(nodes, node),
        play(nodes, node, inputs).consumed <= inputs.len(),
        play(nodes, node, inputs).end matches Ok(last) ==> nodes.dom().contains(last)
            && is_terminal(nodes, last),
        play(nodes, node, inputs).end == Err::<NodeId, TraversalError>(
            TraversalError::InputClosed,
        ) ==> inputs.len() < height(nodes, node),
    decreases inputs.len(),
{
    lemma_height_of_leaf(nodes, node);
    if fits_alphabet(nodes, node) && !is_terminal(nodes, node) && inputs.len() > 0 {
        match chosen(nodes, node, trimmed(inputs[0])) {
            Err(e) => {},
            Ok(next) => {
                let k = position(trimmed(inputs[0])[0]).unwrap();
                lemma_letter_of_position(trimmed(inputs[0])[0]);
                assert(is_edge(nodes, node, k));
                lemma_child_is_lower(nodes, node, k);
                lemma_session_within_height(nodes, next, inputs.drop_first());
            },
        }
    }
}

/// Every descent on valid choices reaches a terminal node within as many
/// steps as the tree is deep. In a dialogue, a session that is given a line
/// for every level of the tree below its start, and in which no line is an
/// invalid choice, ends at a node that has no prompt or no children, after
/// reading at most as many lines as the tree has levels.
pub proof fn lemma_valid_session_ends_at_terminal(
    nodes: Nodes,
    node: NodeId,
    inputs: Seq<Seq<char>>,
)
    requires
        is_forest(nodes),
        is_dialogue(nodes),
        nodes.dom().contains(node),
        inputs.len() >= height(nodes, node),
        play(nodes, node, inputs).end != Err::<NodeId, TraversalError>(
            TraversalError::InvalidChoice,
        ),
    ensures
        play(nodes, node, inputs).end matches Ok(last) && nodes.dom().contains(last)
            && is_terminal(nodes, last),
        play(nodes, node, inputs).consumed <= height(nodes, node),
{
    lemma_session_within_height(nodes, node, inputs);
    lemma_dialogue_always_fits(nodes, node, inputs);
    match play(nodes, node, inputs).end {
        Ok(last) => {},
        Err(TraversalError::InvalidChoice) => {},
        Err(TraversalError::InputClosed) => {},
        Err(TraversalError::TooManyChoices) => {},
    }
}

/// In a dialogue no session stops for want of letters.
pub proof fn lemma_dialogue_always_fits(nodes: Nodes, node: NodeId, inputs: Seq<Seq<char>>)
    requires
        is_forest(nodes),
        is_dialogue(nodes),
        nodes.dom().contains(node),
    ensures
        play(nodes, node, inputs).end != Err::<NodeId, TraversalError>(
            TraversalError::TooManyChoices,
        ),
    decreases inputs.len(),
{
    if !is_terminal(nodes, node) && inputs.len() > 0 {
        match chosen(nodes, node, trimmed(inputs[0])) {
            Err(e) => {},
            Ok(next) => {
                let k = position(trimmed(inputs[0])[0]).unwrap();
                assert(is_edge(nodes, node, k));
                lemma_dialogue_always_fits(nodes, next, inputs.drop_first());
            },
        }
    }
}

} // verus!
