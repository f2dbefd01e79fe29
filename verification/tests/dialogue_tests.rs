use coin_cards::dialogue::{DialogueInteractionParams, DialogueNode, DialogueState};

fn node(id: u32, source: u32, text: &str) -> DialogueNode {
    DialogueNode { id, source, text: text.to_string() }
}

#[test]
fn dialogue_walks_through_nodes_then_ends() {
    let params = DialogueInteractionParams {
        nodes: vec![node(0, 1, "first"), node(1, 2, "second")],
    };
    let mut state = DialogueState::new();
    state.start(&params);
    assert_eq!(state.current_node().map(|n| n.text.as_str()), Some("first"));
    state.push_dialogue();
    assert_eq!(state.current_node().map(|n| n.text.as_str()), Some("second"));
    state.push_dialogue();
    assert!(state.current_node().is_none());
    assert!(state.active.is_none());
}
