//! Walking a dialogue: what is shown at a node, which child a line of input
//! picks, and a whole session over a given list of lines.

use vstd::prelude::*;
use indextree::NodeId;
use crate::alphabet::ALPHABET_LEN;
use crate::alphabet::letter;
use crate::alphabet::position;
use crate::alphabet::letter_text;
use crate::alphabet::choice_index;
use crate::laws::lemma_session_within_height;
use crate::store::TreeStore;
use crate::text::texts;
use crate::text::trimmed;
use crate::text::trim;
use crate::tree::Nodes;
use crate::tree::height;
use crate::tree::is_edge;

verus! {

/// Why a session stopped short of a leaf.
#[derive(Debug, Clone, Copy, PartialEq, Eq)]
pub enum TraversalError {
    /// The line was empty, its first character is no letter of the
    /// alphabet, or its letter is past the last choice.
    InvalidChoice,
    /// A choice was awaited and no line was left.
    InputClosed,
    /// The node offers more choices than the alphabet has letters.
    TooManyChoices,
}

/// What is shown when a node becomes current.
#[derive(Debug)]
pub struct Frame {
    /// The prompt, then one line per choice.
    pub lines: Vec<String>,
    /// Whether a choice is awaited after the lines.
    pub awaits_input: bool,
}

/// How a session over a list of lines went.
#[derive(Debug)]
pub struct Session {
    /// Every line shown, in order.
    pub output: Vec<String>,
    /// How many lines of input were read.
    pub consumed: usize,
    /// The node at which the dialogue ended, or why it stopped short.
    pub end: Result<NodeId, TraversalError>,
}

/// The model of a session.
#[verifier::ext_equal]
pub ghost struct SessionView {
    pub output: Seq<Seq<char>>,
    pub consumed: nat,
    pub end: Result<NodeId, TraversalError>,
}

impl View for Session {
    type V = SessionView;

    open spec fn view(&self) -> SessionView {
        SessionView {
            output: texts(self.output@),
            consumed: self.consumed as nat,
            end: self.end,
        }
    }
}

impl SessionView {
    /// The session that shows `lines` and reads `read` lines before it goes
    /// on as `self`.
    pub open spec fn after(self, lines: Seq<Seq<char>>, read: nat) -> SessionView {
        SessionView {
            output: lines + self.output,
            consumed: read + self.consumed,
            end: self.end,
        }
    }
}

/// The line that offers the choice at position `k`.
pub open spec fn choice_line(k: int, label: Seq<char>) -> Seq<char> {
    seq![letter(k), ':', ' '] + label
}

/// The lines that offer the choices of `node`, in child order.
pub open spec fn choice_lines(nodes: Nodes, node: NodeId) -> Seq<Seq<char>> {
    Seq::new(
        nodes[node].children.len(),
        |k: int| choice_line(k, nodes[nodes[node].children[k]].label.unwrap()),
    )
}

/// The lines shown when `node` becomes current: nothing for a node without
/// a prompt, else the prompt and the choices.
pub open spec fn shown(nodes: Nodes, node: NodeId) -> Seq<Seq<char>> {
    match nodes[node].prompt {
        None => Seq::empty(),
        Some(prompt) => seq![prompt] + choice_lines(nodes, node),
    }
}

/// The dialogue ends at `node`: it has no prompt, or nothing to choose.
pub open spec fn is_terminal(nodes: Nodes, node: NodeId) -> bool {
    nodes[node].prompt.is_none() || nodes[node].children.len() == 0
}

/// Every choice of `node` has a letter, or `node` shows nothing at all.
pub open spec fn fits_alphabet(nodes: Nodes, node: NodeId) -> bool {
    nodes[node].prompt.is_none() || nodes[node].children.len() <= ALPHABET_LEN
}

/// The child that the text `choice` picks at `node`.
pub open spec fn chosen(nodes: Nodes, node: NodeId, choice: Seq<char>) -> Result<
    NodeId,
    TraversalError,
> {
    if choice.len() == 0 {
        Err(TraversalError::InvalidChoice)
    } else {
        match position(choice[0]) {
            Some(k) if k < nodes[node].children.len() => Ok(nodes[node].children[k]),
            _ => Err(TraversalError::InvalidChoice),
        }
    }
}

/// The session that starts at `node` and reads its choices from `inputs`.
/// At each node it shows the node, stops if the node is terminal, and else
/// reads one line and moves to the child that the trimmed line picks.
pub open spec fn play(nodes: Nodes, node: NodeId, inputs: Seq<Seq<char>>) -> SessionView
    decreases inputs.len(),
{
    if !fits_alphabet(nodes, node) {
        SessionView {
            output: Seq::empty(),
            consumed: 0,
            end: Err(TraversalError::TooManyChoices),
        }
    } else if is_terminal(nodes, node) {
        SessionView { output: shown(nodes, node), consumed: 0, end: Ok(node) }
    } else if inputs.len() == 0 {
        SessionView {
            output: shown(nodes, node),
            consumed: 0,
            end: Err(TraversalError::InputClosed),
        }
    } else {
        match chosen(nodes, node, trimmed(inputs[0])) {
            Err(e) => SessionView { output: shown(nodes, node), consumed: 1, end: Err(e) },
            Ok(next) => play(nodes, next, inputs.drop_first()).after(shown(nodes, node), 1),
        }
    }
}

/// Produces what is shown when `node` becomes current, and says whether a
/// choice is awaited. Refuses where `node` has a prompt and more choices
/// than the alphabet has letters.
pub fn present(store: &TreeStore, node: NodeId) -> (frame: Result<Frame, TraversalError>)
    requires
        store.well_formed(),
        store.holds(node),
    ensures
        frame.is_ok() == fits_alphabet(store@, node),
        frame matches Ok(shows) ==> texts(shows.lines@) == shown(store@, node)
            && shows.awaits_input == !is_terminal(store@, node),
        frame matches Err(e) ==> e == TraversalError::TooManyChoices,
{
    let mut lines: Vec<String> = Vec::new();
    let prompt = match store.prompt_of(node) {
        Some(prompt) => prompt,
        None => return Ok(Frame { lines, awaits_input: false }),
    };
    let children = store.children_of(node);
    if children.len() > ALPHABET_LEN {
        return Err(TraversalError::TooManyChoices);
    }
    let ghost offered = choice_lines(store@, node);
    lines.push(prompt);
    let mut k: usize = 0;
    while k < children.len()
        invariant
            store.well_formed(),
            store.holds(node),
            children@ == store@[node].children,
            children.len() <= ALPHABET_LEN,
            k <= children.len(),
            store@[node].prompt.is_some(),
            offered == choice_lines(store@, node),
            texts(lines@) == seq![store@[node].prompt.unwrap()] + offered.take(k as int),
        decreases children.len() - k,
    {
        assert(is_edge(store@, node, k as int));
        let mut line = letter_text(k).to_owned();
        proof {
            reveal_strlit(": ");
        }
        line.append(": ");
        // Every child of a well-formed store carries a label.
        if let Some(label) = store.label_of(children[k]) {
            line.append(label.as_str());
        }
        proof {
            assert(line@ =~= offered[k as int]);
            assert((seq![store@[node].prompt.unwrap()] + offered.take(k as int)).push(line@)
                =~= seq![store@[node].prompt.unwrap()] + offered.take(k + 1));
        }
        lines.push(line);
        k = k + 1;
    }
    Ok(Frame { lines, awaits_input: children.len() > 0 })
}

/// The child of `node` that the text `choice` picks: the one at the
/// position of the first character of `choice` in the alphabet.
pub fn select(store: &TreeStore, node: NodeId, choice: &str) -> (next: Result<
    NodeId,
    TraversalError,
>)
    requires
        store.well_formed(),
        store.holds(node),
    ensures
        next == chosen(store@, node, choice@),
        next matches Ok(child) ==> store.holds(child),
{
    if choice.unicode_len() == 0 {
        return Err(TraversalError::InvalidChoice);
    }
    match choice_index(choice.get_char(0)) {
        Some(k) => {
            let children = store.children_of(node);
            if k < children.len() {
                assert(is_edge(store@, node, k as int));
                Ok(children[k])
            } else {
                Err(TraversalError::InvalidChoice)
            }
        },
        None => Err(TraversalError::InvalidChoice),
    }
}

/// The child of `node` that a line of input picks: the line is trimmed,
/// then read as `select` reads it.
pub fn advance(store: &TreeStore, node: NodeId, line: &str) -> (next: Result<
    NodeId,
    TraversalError,
>)
    requires
        store.well_formed(),
        store.holds(node),
    ensures
        next == chosen(store@, node, trimmed(line@)),
        next matches Ok(child) ==> store.holds(child),
{
    select(store, node, trim(line))
}

/// Runs a whole session from `node`, taking the lines of input from
/// `inputs` in order. The session reads no more lines than the tree below
/// `node` is deep, and where it ends at a node, that node is terminal.
pub fn recurse_game(store: &TreeStore, node: NodeId, inputs: &Vec<String>) -> (session: Session)
    requires
        store.well_formed(),
        store.holds(node),
    ensures
        session@ == play(store@, node, texts(inputs@)),
        session.consumed <= height(store@, node),
        session.end matches Ok(last) ==> store.holds(last) && is_terminal(store@, last),
{
    let ghost lines = texts(inputs@);
    let mut output: Vec<String> = Vec::new();
    let mut current = node;
    let mut read: usize = 0;
    proof {
        lemma_session_within_height(store@, node, lines);
        assert(lines.skip(0) =~= lines);
    }
    loop
        invariant
            store.well_formed(),
            store.holds(current),
            read <= inputs.len(),
            lines == texts(inputs@),
            play(store@, node, lines).consumed <= height(store@, node),
            play(store@, node, lines).end matches Ok(last) ==> store.holds(last) && is_terminal(
                store@,
                last,
            ),
            play(store@, node, lines) == play(store@, current, lines.skip(read as int)).after(
                texts(output@),
                read as nat,
            ),
        decreases inputs.len() - read,
    {
        let ghost rest = lines.skip(read as int);
        let ghost so_far = texts(output@);
        let mut frame = match present(store, current) {
            Ok(frame) => frame,
            Err(e) => return Session { output, consumed: read, end: Err(e) },
        };
        let ghost here = texts(frame.lines@);
        output.append(&mut frame.lines);
        if !frame.awaits_input {
            return Session { output, consumed: read, end: Ok(current) };
        }
        if read >= inputs.len() {
            return Session { output, consumed: read, end: Err(TraversalError::InputClosed) };
        }
        assert(rest.drop_first() =~= lines.skip(read + 1));
        match advance(store, current, inputs[read].as_str()) {
            Ok(next) => {
                let ghost onward = play(store@, next, rest.drop_first());
                assert(onward.after(here, 1).after(so_far, read as nat) =~= onward.after(
                    so_far + here,
                    (read + 1) as nat,
                ));
                current = next;
                read = read + 1;
            },
            Err(e) => return Session { output, consumed: read + 1, end: Err(e) },
        }
    }
}

} // verus!
