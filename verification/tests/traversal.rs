use dialogue_tree::alphabet::choice_index;
use dialogue_tree::alphabet::letter_text;
use dialogue_tree::alphabet::ALPHABET_LEN;
use dialogue_tree::builder::QuestionBuilder;
use dialogue_tree::store::TreeStore;
use dialogue_tree::traversal::advance;
use dialogue_tree::traversal::present;
use dialogue_tree::traversal::recurse_game;
use dialogue_tree::traversal::select;
use dialogue_tree::traversal::TraversalError;

fn lines(texts: &[&str]) -> Vec<String> {
    texts.iter().map(|text| text.to_string()).collect()
}

fn two_choices(store: &mut TreeStore) -> QuestionBuilder<'_> {
    QuestionBuilder::new("Which?", vec!["left", "right"], store).unwrap()
}

#[test]
fn the_alphabet_has_seven_letters() {
    assert_eq!(ALPHABET_LEN, 7);
    let letters: Vec<&str> = (0..ALPHABET_LEN).map(letter_text).collect();
    assert_eq!(letters, vec!["a", "b", "c", "d", "e", "f", "g"]);
}

#[test]
fn a_letter_picks_its_own_position() {
    assert_eq!(choice_index('a'), Some(0));
    assert_eq!(choice_index('b'), Some(1));
    assert_eq!(choice_index('d'), Some(3));
    assert_eq!(choice_index('g'), Some(6));
}

#[test]
fn other_characters_pick_nothing() {
    assert_eq!(choice_index('h'), None);
    assert_eq!(choice_index('z'), None);
    assert_eq!(choice_index('A'), None);
    assert_eq!(choice_index('1'), None);
    assert_eq!(choice_index(' '), None);
    assert_eq!(choice_index('`'), None);
}

#[test]
fn present_shows_prompt_then_lettered_choices() {
    let mut store = TreeStore::new();
    let root = QuestionBuilder::new("Pick", vec!["x", "", "z z"], &mut store).unwrap().node();
    let frame = present(&store, root).unwrap();
    assert_eq!(frame.lines, lines(&["Pick", "a: x", "b: ", "c: z z"]));
    assert!(frame.awaits_input);
}

#[test]
fn present_uses_every_letter_in_order() {
    let mut store = TreeStore::new();
    let labels = vec!["1", "2", "3", "4", "5", "6", "7"];
    let root = QuestionBuilder::new("Seven", labels, &mut store).unwrap().node();
    let frame = present(&store, root).unwrap();
    let expected = lines(&["Seven", "a: 1", "b: 2", "c: 3", "d: 4", "e: 5", "f: 6", "g: 7"]);
    assert_eq!(frame.lines, expected);
    assert!(frame.awaits_input);
}

#[test]
fn present_shows_nothing_at_a_node_without_prompt() {
    let mut store = TreeStore::new();
    let root = two_choices(&mut store).node();
    let left = store.children_of(root)[0];
    let frame = present(&store, left).unwrap();
    assert!(frame.lines.is_empty());
    assert!(!frame.awaits_input);
}

#[test]
fn present_shows_only_the_prompt_where_nothing_can_be_chosen() {
    let mut store = TreeStore::new();
    let mut cursor = two_choices(&mut store);
    cursor.end("Over").unwrap();
    let root = cursor.node();
    let left = store.children_of(root)[0];
    let frame = present(&store, left).unwrap();
    assert_eq!(frame.lines, lines(&["Over"]));
    assert!(!frame.awaits_input);
}

#[test]
fn present_refuses_more_choices_than_letters() {
    let mut store = TreeStore::new();
    let root = store.create_node();
    store.set_prompt(root, "Crowded");
    for label in ["1", "2", "3", "4", "5", "6", "7", "8"] {
        store.append_child(root, label);
    }
    assert_eq!(present(&store, root).unwrap_err(), TraversalError::TooManyChoices);
}

#[test]
fn present_ignores_the_children_of_a_node_without_prompt() {
    let mut store = TreeStore::new();
    let root = store.create_node();
    for label in ["1", "2", "3", "4", "5", "6", "7", "8"] {
        store.append_child(root, label);
    }
    let frame = present(&store, root).unwrap();
    assert!(frame.lines.is_empty());
    assert!(!frame.awaits_input);
}

#[test]
fn select_reads_the_first_character() {
    let mut store = TreeStore::new();
    let root = two_choices(&mut store).node();
    let children = store.children_of(root);
    assert_eq!(select(&store, root, "a"), Ok(children[0]));
    assert_eq!(select(&store, root, "b"), Ok(children[1]));
    assert_eq!(select(&store, root, "bz"), Ok(children[1]));
    assert_eq!(select(&store, root, "a b"), Ok(children[0]));
}

#[test]
fn select_refuses_what_picks_no_child() {
    let mut store = TreeStore::new();
    let root = two_choices(&mut store).node();
    assert_eq!(select(&store, root, ""), Err(TraversalError::InvalidChoice));
    assert_eq!(select(&store, root, "c"), Err(TraversalError::InvalidChoice));
    assert_eq!(select(&store, root, "g"), Err(TraversalError::InvalidChoice));
    assert_eq!(select(&store, root, "z"), Err(TraversalError::InvalidChoice));
    assert_eq!(select(&store, root, "A"), Err(TraversalError::InvalidChoice));
    assert_eq!(select(&store, root, " a"), Err(TraversalError::InvalidChoice));
    assert_eq!(select(&store, root, "1"), Err(TraversalError::InvalidChoice));
}

#[test]
fn advance_trims_the_line_first() {
    let mut store = TreeStore::new();
    let root = two_choices(&mut store).node();
    let children = store.children_of(root);
    assert_eq!(advance(&store, root, "a\n"), Ok(children[0]));
    assert_eq!(advance(&store, root, "  b \r\n"), Ok(children[1]));
    assert_eq!(advance(&store, root, "\tb"), Ok(children[1]));
    assert_eq!(advance(&store, root, "b"), Ok(children[1]));
}

#[test]
fn advance_refuses_a_blank_line() {
    let mut store = TreeStore::new();
    let root = two_choices(&mut store).node();
    assert_eq!(advance(&store, root, ""), Err(TraversalError::InvalidChoice));
    assert_eq!(advance(&store, root, "\n"), Err(TraversalError::InvalidChoice));
    assert_eq!(advance(&store, root, "   "), Err(TraversalError::InvalidChoice));
    assert_eq!(advance(&store, root, " c\n"), Err(TraversalError::InvalidChoice));
}

#[test]
fn session_stops_when_the_input_is_closed() {
    let mut store = TreeStore::new();
    let root = two_choices(&mut store).node();
    let session = recurse_game(&store, root, &lines(&[]));
    assert_eq!(session.output, lines(&["Which?", "a: left", "b: right"]));
    assert_eq!(session.consumed, 0);
    assert_eq!(session.end, Err(TraversalError::InputClosed));
}

#[test]
fn session_stops_at_a_choice_out_of_range() {
    let mut store = TreeStore::new();
    let root = two_choices(&mut store).node();
    let session = recurse_game(&store, root, &lines(&["c", "a"]));
    assert_eq!(session.output, lines(&["Which?", "a: left", "b: right"]));
    assert_eq!(session.consumed, 1);
    assert_eq!(session.end, Err(TraversalError::InvalidChoice));
}

#[test]
fn session_stops_before_a_crowded_node() {
    let mut store = TreeStore::new();
    let root = two_choices(&mut store).node();
    let left = store.children_of(root)[0];
    store.set_prompt(left, "Crowded");
    for label in ["1", "2", "3", "4", "5", "6", "7", "8"] {
        store.append_child(left, label);
    }
    let session = recurse_game(&store, root, &lines(&["a", "a"]));
    assert_eq!(session.output, lines(&["Which?", "a: left", "b: right"]));
    assert_eq!(session.consumed, 1);
    assert_eq!(session.end, Err(TraversalError::TooManyChoices));
}

#[test]
fn session_at_a_node_without_prompt_shows_nothing() {
    let mut store = TreeStore::new();
    let root = two_choices(&mut store).node();
    let right = store.children_of(root)[1];
    let session = recurse_game(&store, right, &lines(&["a"]));
    assert!(session.output.is_empty());
    assert_eq!(session.consumed, 0);
    assert_eq!(session.end, Ok(right));
}

#[test]
fn play_starts_at_the_cursor_node() {
    let mut store = TreeStore::new();
    let mut cursor = two_choices(&mut store);
    cursor.end("L").unwrap().end("R").unwrap();
    let children = cursor.arena.children_of(cursor.node());
    let session = cursor.play(&lines(&[" b "]));
    assert_eq!(session.output, lines(&["Which?", "a: left", "b: right", "R"]));
    assert_eq!(session.consumed, 1);
    assert_eq!(session.end, Ok(children[1]));
}

#[test]
fn two_runs_on_the_same_input_agree() {
    let mut store = TreeStore::new();
    let mut cursor = QuestionBuilder::new("top", vec!["a", "b"], &mut store).unwrap();
    cursor
        .reply(|mut reply| {
            reply.followup("mid", vec!["c", "d"]).unwrap().end("C").unwrap().end("D").unwrap();
        })
        .unwrap()
        .end("B")
        .unwrap();
    let root = cursor.node();
    let inputs = lines(&["a", "b", "a"]);
    let first = recurse_game(&store, root, &inputs);
    let second = recurse_game(&store, root, &inputs);
    assert_eq!(first.output, second.output);
    assert_eq!(first.consumed, second.consumed);
    assert_eq!(first.end, second.end);
    assert_eq!(first.output, lines(&["top", "a: a", "b: b", "mid", "a: c", "b: d", "D"]));
    assert_eq!(first.consumed, 2);
}

#[test]
fn a_session_reads_no_more_lines_than_the_tree_is_deep() {
    let mut store = TreeStore::new();
    let mut cursor = QuestionBuilder::new("top", vec!["a", "b"], &mut store).unwrap();
    cursor
        .reply(|mut reply| {
            reply
                .followup("mid", vec!["c", "d"])
                .unwrap()
                .reply(|mut reply| {
                    reply.followup("low", vec!["e"]).unwrap();
                })
                .unwrap();
        })
        .unwrap();
    let root = cursor.node();
    let depth = 3;
    let paths: [&[&str]; 5] = [
        &["a", "a", "a", "a", "a"],
        &["a", "b", "a", "a"],
        &["b", "a", "a", "a"],
        &["a", "a", "a"],
        &["a", "a", "b", "a"],
    ];
    let reads = [3, 2, 1, 3, 3];
    for (path, read) in paths.iter().zip(reads) {
        let session = recurse_game(&store, root, &lines(path));
        assert!(session.consumed <= depth);
        assert_eq!(session.consumed, read);
        if let Ok(last) = session.end {
            assert!(store.prompt_of(last).is_none() || store.children_of(last).is_empty());
        }
    }
    let deepest = recurse_game(&store, root, &lines(&["a", "a", "a"]));
    assert!(deepest.end.is_ok());
    let short = recurse_game(&store, root, &lines(&["a", "a"]));
    assert_eq!(short.end, Err(TraversalError::InputClosed));
}
