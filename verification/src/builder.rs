//! Building a dialogue: a cursor over the choices of one prompt, which
//! takes them in order and lets each be followed up or ended.
//!
//! A cursor borrows the store for as long as it lives. In the contracts,
//! `cursor.store()@` is what the store holds now, and `*final(cursor.arena)`
//! is the store as the lender finds it once the cursor is gone.

use vstd::prelude::*;
use indextree::NodeId;
use crate::alphabet::ALPHABET_LEN;
use crate::laws::lemma_question_keeps_dialogue;
use crate::store::TreeStore;
use crate::text::strs;
use crate::text::texts;
use crate::traversal::Session;
use crate::traversal::play;
use crate::traversal::recurse_game;
use crate::tree::Nodes;
use crate::tree::NodeView;
use crate::tree::height;
use crate::tree::leaf;

verus! {

/// Why a step of construction was refused.
#[derive(Debug, Clone, Copy, PartialEq, Eq)]
pub enum BuilderError {
    /// Every choice of the prompt was already taken.
    Overrun,
    /// The prompt would offer more choices than the alphabet has letters.
    TooManyLabels,
}

/// A cursor over the choices of one prompt.
#[derive(Debug)]
pub struct QuestionBuilder<'a> {
    /// The store in which the cursor builds.
    pub arena: &'a mut TreeStore,
    /// The nodes of the choices, in label order.
    pub nodes: Vec<NodeId>,
    /// How many of the choices were taken.
    pub idx: usize,
    /// The node that carries the prompt.
    pub node: NodeId,
}

/// The model of a cursor's position.
pub ghost struct CursorView {
    /// The node that carries the prompt.
    pub node: NodeId,
    /// The nodes of its choices, in label order.
    pub choices: Seq<NodeId>,
    /// How many of them were taken.
    pub taken: nat,
}

impl CursorView {
    /// The choice that is taken next, if one is left.
    pub open spec fn pending(self) -> Option<NodeId> {
        if self.taken < self.choices.len() {
            Some(self.choices[self.taken as int])
        } else {
            None
        }
    }

    /// The position after one more choice was taken.
    pub open spec fn advanced(self) -> CursorView {
        CursorView { taken: self.taken + 1, ..self }
    }
}

impl View for QuestionBuilder<'_> {
    type V = CursorView;

    open spec fn view(&self) -> CursorView {
        CursorView { node: self.node, choices: self.nodes@, taken: self.idx as nat }
    }
}

/// The handle on one choice, through which it is followed up.
#[derive(Debug)]
pub struct Reply<'a> {
    /// The store in which the choice lives.
    pub arena: &'a mut TreeStore,
    /// The node of the choice.
    pub answer_node: NodeId,
}

/// `after` is `before` with the prompt `question` set on `node` and one new
/// child of `node` per label, in label order: the child for `labels[k]` is
/// `ids[k]`. Nothing else differs.
pub open spec fn asked(
    before: Nodes,
    after: Nodes,
    node: NodeId,
    question: Seq<char>,
    labels: Seq<Seq<char>>,
    ids: Seq<NodeId>,
) -> bool {
    &&& ids.len() == labels.len()
    &&& ids.no_duplicates()
    &&& forall|id: NodeId|
        #![trigger after.dom().contains(id)]
        after.dom().contains(id) <==> before.dom().contains(id) || ids.contains(id)
    &&& forall|k: int| 0 <= k < ids.len() ==> !before.dom().contains(#[trigger] ids[k])
    &&& forall|k: int|
        0 <= k < ids.len() ==> after[#[trigger] ids[k]] == leaf(Some(labels[k]), None)
    &&& after[node] == (NodeView {
        label: before[node].label,
        prompt: Some(question),
        children: before[node].children + ids,
    })
    &&& forall|other: NodeId|
        before.dom().contains(other) && other != node ==> after[other] == before[other]
}

/// Nodes without a prompt have no children, and no node has more children
/// than the alphabet has letters.
pub open spec fn is_dialogue(nodes: Nodes) -> bool {
    forall|node: NodeId| #[trigger]
        nodes.dom().contains(node) ==> {
            &&& nodes[node].prompt.is_none() ==> nodes[node].children.len() == 0
            &&& nodes[node].children.len() <= ALPHABET_LEN
        }
}

/// Appending one more child under `node` extends the question by one label.
proof fn lemma_asked_one_more(
    before: Nodes,
    mid: Nodes,
    node: NodeId,
    question: Seq<char>,
    labels: Seq<Seq<char>>,
    ids: Seq<NodeId>,
    label: Seq<char>,
    id: NodeId,
)
    requires
        before.dom().contains(node),
        asked(before, mid, node, question, labels, ids),
        !mid.dom().contains(id),
    ensures
        asked(
            before,
            mid.insert(id, leaf(Some(label), None)).insert(node, mid[node].with_child(id)),
            node,
            question,
            labels.push(label),
            ids.push(id),
        ),
{
    let after = mid.insert(id, leaf(Some(label), None)).insert(node, mid[node].with_child(id));
    let more = ids.push(id);
    assert forall|other: NodeId|
        #![trigger after.dom().contains(other)]
        after.dom().contains(other) <==> before.dom().contains(other) || more.contains(
            other,
        ) by {
        if ids.contains(other) {
            let k = choose|k: int| 0 <= k < ids.len() && ids[k] == other;
            assert(more[k] == other);
        }
        if other == id {
            assert(more[ids.len() as int] == other);
        }
    }
}

/// Sets the prompt `question` on `node` and appends one child per label, in
/// order; the cursor returned stands before the first of them. Refuses, and
/// changes nothing, where `node` would then have more children than the
/// alphabet has letters.
pub fn create_question<'a>(
    node: NodeId,
    arena: &'a mut TreeStore,
    question: &str,
    answers: Vec<&str>,
) -> (made: Result<QuestionBuilder<'a>, BuilderError>)
    requires
        old(arena).well_formed(),
        old(arena).holds(node),
    ensures
        made.is_ok() == (old(arena)@[node].children.len() + answers.len() <= ALPHABET_LEN),
        made matches Err(e) ==> e == BuilderError::TooManyLabels && *final(arena) == *old(arena),
        made matches Ok(cursor) ==> cursor.well_formed() && cursor@.node == node && cursor@.taken
            == 0 && asked(
            old(arena)@,
            cursor.store()@,
            node,
            question@,
            strs(answers@),
            cursor@.choices,
        ),
        made matches Ok(cursor) ==> (is_dialogue(old(arena)@) ==> is_dialogue(cursor.store()@)),
        made matches Ok(cursor) ==> *final(cursor.arena) == *final(arena),
{
    let existing = arena.children_of(node).len();
    if existing > ALPHABET_LEN || answers.len() > ALPHABET_LEN - existing {
        return Err(BuilderError::TooManyLabels);
    }
    let ghost before = arena@;
    let ghost labels = strs(answers@);
    arena.set_prompt(node, question);
    let mut nodes: Vec<NodeId> = Vec::new();
    let mut k: usize = 0;
    while k < answers.len()
        invariant
            arena.well_formed(),
            before.dom().contains(node),
            labels == strs(answers@),
            k <= answers.len(),
            asked(before, arena@, node, question@, labels.take(k as int), nodes@),
        decreases answers.len() - k,
    {
        let ghost mid = arena@;
        let id = arena.append_child(node, answers[k]);
        proof {
            lemma_asked_one_more(
                before,
                mid,
                node,
                question@,
                labels.take(k as int),
                nodes@,
                labels[k as int],
                id,
            );
        }
        nodes.push(id);
        k = k + 1;
    }
    proof {
        if is_dialogue(before) {
            lemma_question_keeps_dialogue(before, arena@, node, question@, labels, nodes@);
        }
    }
    Ok(QuestionBuilder { arena, nodes, idx: 0, node })
}

impl<'a> QuestionBuilder<'a> {
    /// The store as it is now.
    pub open spec fn store(&self) -> TreeStore {
        *self.arena
    }

    /// The store is well formed and holds every node that the cursor speaks
    /// of.
    pub open spec fn well_formed(&self) -> bool {
        &&& self.store().well_formed()
        &&& self.store().holds(self@.node)
        &&& forall|k: int|
            0 <= k < self@.choices.len() ==> self.store().holds(#[trigger] self@.choices[k])
    }

    /// Starts a dialogue: a new root with the prompt `question` and one
    /// choice per label; the cursor returned stands before the first of
    /// them. Refuses, and changes nothing, where there are more labels than
    /// the alphabet has letters.
    pub fn new(question: &str, answers: Vec<&str>, arena: &'a mut TreeStore) -> (made: Result<
        QuestionBuilder<'a>,
        BuilderError,
    >)
        requires
            old(arena).well_formed(),
        ensures
            made.is_ok() == (answers.len() <= ALPHABET_LEN),
            made matches Err(e) ==> e == BuilderError::TooManyLabels && *final(arena) == *old(
                arena,
            ),
            made matches Ok(cursor) ==> cursor.well_formed() && !old(arena).holds(cursor@.node)
                && cursor@.taken == 0 && asked(
                old(arena)@.insert(cursor@.node, leaf(None, None)),
                cursor.store()@,
                cursor@.node,
                question@,
                strs(answers@),
                cursor@.choices,
            ) && cursor.store()@[cursor@.node].children == cursor@.choices,
            made matches Ok(cursor) ==> (is_dialogue(old(arena)@) ==> is_dialogue(
                cursor.store()@,
            )),
            made matches Ok(cursor) ==> *final(cursor.arena) == *final(arena),
    {
        if answers.len() > ALPHABET_LEN {
            return Err(BuilderError::TooManyLabels);
        }
        let node = arena.create_node();
        create_question(node, arena, question, answers)
    }

    /// The node that carries the cursor's prompt.
    pub fn node(&self) -> (node: NodeId)
        ensures
            node == self@.node,
    {
        self.node
    }

    /// The choice that is taken next, if one is left.
    pub fn pending(&self) -> (choice: Option<NodeId>)
        ensures
            choice == self@.pending(),
    {
        if self.idx < self.nodes.len() {
            Some(self.nodes[self.idx])
        } else {
            None
        }
    }

    /// Takes the next choice and hands it to `handler`, which can follow it
    /// up. The handler is called once, and the store is left as that call
    /// leaves it. Refuses, without calling the handler, where no choice is
    /// left.
    pub fn reply<F: FnOnce(Reply)>(&mut self, handler: F) -> (taken: Result<
        &mut Self,
        BuilderError,
    >)
        requires
            forall|given: Reply|
                old(self)@.pending() == Some(given.answer_node) && *given.arena == old(
                    self,
                ).store() ==> #[trigger] handler.requires((given,)),
        ensures
            taken.is_ok() == old(self)@.pending().is_some(),
            taken matches Err(e) ==> e == BuilderError::Overrun && *final(self) == *old(self),
            taken matches Ok(cursor) ==> cursor@ == old(self)@.advanced() && exists|given: Reply|
                old(self)@.pending() == Some(given.answer_node) && *given.arena == old(
                    self,
                ).store() && *final(given.arena) == cursor.store()
                    && #[trigger] handler.ensures((given,), ()),
            taken matches Ok(cursor) ==> *final(cursor.arena) == *final(old(self).arena)
                && *final(self) == *final(cursor),
    {
        if self.idx >= self.nodes.len() {
            return Err(BuilderError::Overrun);
        }
        let choice = self.nodes[self.idx];
        handler(Reply { arena: self.arena, answer_node: choice });
        self.idx = self.idx + 1;
        Ok(self)
    }

    /// Takes the next choice and ends the dialogue there: the choice gets
    /// `message` as its prompt and no choices of its own. Refuses, and
    /// changes nothing, where no choice is left.
    pub fn end(&mut self, message: &str) -> (taken: Result<&mut Self, BuilderError>)
        requires
            old(self).well_formed(),
        ensures
            taken.is_ok() == old(self)@.pending().is_some(),
            taken matches Err(e) ==> e == BuilderError::Overrun && *final(self) == *old(self),
            taken matches Ok(cursor) ==> cursor.well_formed() && cursor@ == old(self)@.advanced()
                && cursor.store()@ == old(self).store()@.insert(
                old(self)@.pending().unwrap(),
                old(self).store()@[old(self)@.pending().unwrap()].with_prompt(message@),
            ),
            taken matches Ok(cursor) ==> (is_dialogue(old(self).store()@) ==> is_dialogue(
                cursor.store()@,
            )),
            taken matches Ok(cursor) ==> *final(cursor.arena) == *final(old(self).arena)
                && *final(self) == *final(cursor),
    {
        if self.idx >= self.nodes.len() {
            return Err(BuilderError::Overrun);
        }
        self.arena.set_prompt(self.nodes[self.idx], message);
        self.idx = self.idx + 1;
        Ok(self)
    }

    /// Runs a session from the cursor's node over the given lines of input.
    /// The session reads no more lines than the tree below that node is
    /// deep.
    pub fn play(&self, inputs: &Vec<String>) -> (session: Session)
        requires
            self.well_formed(),
        ensures
            session@ == play(self.store()@, self@.node, texts(inputs@)),
            session.consumed <= height(self.store()@, self@.node),
    {
        recurse_game(self.arena, self.node, inputs)
    }
}

impl<'a> Reply<'a> {
    /// Gives the choice a prompt of its own, with one further choice per
    /// label, and returns a cursor over those. Refuses, and changes nothing,
    /// where the choice would then have more children than the alphabet has
    /// letters.
    pub fn followup(&mut self, question: &str, answers: Vec<&str>) -> (made: Result<
        QuestionBuilder<'_>,
        BuilderError,
    >)
        requires
            old(self).arena.well_formed(),
            old(self).arena.holds(old(self).answer_node),
        ensures
            final(self).answer_node == old(self).answer_node,
            *final(final(self).arena) == *final(old(self).arena),
            made.is_ok() == (old(self).arena@[old(self).answer_node].children.len()
                + answers.len() <= ALPHABET_LEN),
            made matches Err(e) ==> e == BuilderError::TooManyLabels && *final(self).arena
                == *old(self).arena,
            made matches Ok(cursor) ==> cursor.well_formed() && cursor@.node == old(
                self,
            ).answer_node && cursor@.taken == 0 && asked(
                old(self).arena@,
                cursor.store()@,
                old(self).answer_node,
                question@,
                strs(answers@),
                cursor@.choices,
            ),
            made matches Ok(cursor) ==> (is_dialogue(old(self).arena@) ==> is_dialogue(
                cursor.store()@,
            )),
            made matches Ok(cursor) ==> *final(cursor.arena) == *final(self).arena,
    {
        create_question(self.answer_node, self.arena, question, answers)
    }
}

} // verus!
