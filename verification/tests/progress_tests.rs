use coin_cards::card::{Card, CardInstanceType};
use coin_cards::input::{player_input_allowed, GameplayInputBlocker};
use coin_cards::key_set::KeySet;
use coin_cards::progress::{card_should_disable, GameProgress};

fn card(enable_if: Option<&str>, disable_if: Option<&str>) -> Card {
    Card {
        title: "t".to_string(),
        instance_type: CardInstanceType::Prefab(1),
        enable_if: enable_if.map(str::to_string),
        disable_if: disable_if.map(str::to_string),
    }
}

#[test]
fn unlock_reports_new_keys_once() {
    let mut progress = GameProgress::new();
    assert!(!progress.is_unlocked("door"));
    assert!(progress.unlock("door"));
    assert!(progress.is_unlocked("door"));
    assert!(!progress.unlock("door"));
    assert!(!progress.is_unlocked("other"));
    assert!(!progress.is_clue_revealed("door"));
}

#[test]
fn reveal_clue_reports_new_instances_once() {
    let mut progress = GameProgress::default();
    assert!(progress.reveal_clue("clue-1"));
    assert!(!progress.reveal_clue("clue-1"));
    assert!(progress.is_clue_revealed("clue-1"));
    assert!(!progress.is_unlocked("clue-1"));
}

#[test]
fn cards_follow_their_conditions() {
    let mut progress = GameProgress::new();
    assert!(!card_should_disable(&card(None, None), &progress));
    assert!(card_should_disable(&card(Some("k"), None), &progress));
    assert!(!card_should_disable(&card(None, Some("k")), &progress));
    progress.unlock("k");
    assert!(!card_should_disable(&card(Some("k"), None), &progress));
    assert!(card_should_disable(&card(None, Some("k")), &progress));
    assert!(card_should_disable(&card(Some("k"), Some("k")), &progress));
}

#[test]
fn key_set_insert_remove() {
    let mut set = KeySet::new();
    assert!(set.is_empty());
    assert!(set.insert("a"));
    assert!(set.insert("b"));
    assert!(!set.insert("a"));
    assert_eq!(set.to_vec(), vec!["a".to_string(), "b".to_string()]);
    assert!(set.remove("a"));
    assert!(!set.remove("a"));
    assert!(!set.contains("a"));
    assert!(set.contains("b"));
    assert!(!set.is_empty());
}

#[test]
fn input_blocked_until_every_source_releases() {
    let mut blocker = GameplayInputBlocker::new();
    assert!(!blocker.is_blocked());
    assert!(player_input_allowed(&blocker));
    blocker.block("camera_focus");
    blocker.block("dialogue");
    assert!(blocker.is_blocked());
    blocker.unblock("camera_focus");
    assert!(blocker.is_blocked());
    blocker.unblock("dialogue");
    assert!(!blocker.is_blocked());
    assert!(player_input_allowed(&blocker));
}

#[test]
fn the_last_call_for_each_source_decides() {
    let mut blocker = GameplayInputBlocker::default();
    blocker.block("dialogue");
    blocker.block("dialogue");
    blocker.unblock("dialogue");
    assert!(!blocker.is_blocked());
    blocker.unblock("camera_focus");
    assert!(!blocker.is_blocked());
    blocker.block("camera_focus");
    blocker.unblock("dialogue");
    assert!(blocker.is_blocked());
}
