use coin_cards::card::CardKind;
use coin_cards::interaction::{
    find_interaction_action, ActiveInteraction, InteractionAction, InteractionCardParams,
    Interactive,
};
use coin_cards::json::JsonValue;
use coin_cards::progress::GameProgress;

#[test]
fn registry_can_find_hello_world_interaction_action() {
    let registration = find_interaction_action("log_hello_world");
    assert!(registration.is_some());
    assert_eq!(registration, Some(InteractionAction::HelloWorld));
}

#[test]
fn registry_can_find_dialogue_interaction_action() {
    let registration = find_interaction_action("dialogue");
    assert!(registration.is_some());
    assert!(registration.unwrap().installs_systems());
}

#[test]
fn unknown_interaction_actions_are_not_found() {
    assert_eq!(find_interaction_action("teleport"), None);
    let params = InteractionCardParams {
        type_id: "teleport".to_string(),
        params: JsonValue::Null,
        state_key: None,
    };
    assert_eq!(params.action(), None);
    assert_eq!(params.kind(), CardKind::Interaction);
}

#[test]
fn interacting_unlocks_the_state_key_once() {
    let params = InteractionCardParams {
        type_id: "dialogue".to_string(),
        params: JsonValue::Object(vec![]),
        state_key: Some("met_guide".to_string()),
    };
    let interactive = params.interactive();
    let mut progress = GameProgress::new();
    assert!(interactive.unlock_progress(&mut progress));
    assert!(progress.is_unlocked("met_guide"));
    assert!(!interactive.unlock_progress(&mut progress));

    let silent = Interactive { state_key: None };
    assert!(!silent.unlock_progress(&mut progress));
}

#[test]
fn editor_records_the_state_key_as_runtime_params() {
    let interactive = Interactive { state_key: Some("k1".to_string()) };
    let param = interactive.editor_runtime_param().expect("a keyed card has runtime params");
    assert_eq!(param.type_id, "interactive");
    match param.params {
        JsonValue::Object(members) => {
            assert_eq!(members.len(), 1);
            assert_eq!(members[0].0, "state_key");
            assert!(matches!(&members[0].1, JsonValue::Str(s) if s == "k1"));
        }
        _ => panic!("object expected"),
    }
    assert!(Interactive { state_key: None }.editor_runtime_param().is_none());
}

#[test]
fn active_interaction_sends_enter_and_exit_events() {
    let mut active = ActiveInteraction::new();
    active.update(true, true, true, Some(7));
    let events = active.events();
    assert_eq!(events.entered, Some(7));
    assert_eq!(events.exited, None);

    active.update(true, true, true, Some(9));
    let events = active.events();
    assert_eq!(events.exited, Some(7));
    assert_eq!(events.entered, Some(9));

    active.update(true, true, true, Some(9));
    let events = active.events();
    assert_eq!(events.exited, None);
    assert_eq!(events.entered, None);

    // A moving player whose state did not change keeps everything.
    active.update(false, false, true, None);
    assert_eq!(active.current, Some(9));

    active.clear_disabled(true);
    assert_eq!(active.current, None);
    assert_eq!(active.previous, Some(9));
    assert_eq!(active.events().exited, Some(9));

    active.update(true, true, false, Some(3));
    assert_eq!(active.current, None);
}
