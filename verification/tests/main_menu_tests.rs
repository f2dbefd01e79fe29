use coin_cards::main_menu::{main_menu_cards, open_main_menu, AppStatus, MainMenuAction, MainMenuPhase, MainMenuSelection};

fn idle_menu() -> MainMenuSelection {
    let mut menu = MainMenuSelection::new();
    assert!(menu.advance(true).restart_timer);
    assert!(menu.advance(true).restart_timer);
    assert_eq!(menu.phase, MainMenuPhase::Idle);
    menu
}

#[test]
fn menu_opens_on_the_banner_and_deals_the_cards() {
    let mut menu = MainMenuSelection::new();
    assert_eq!(menu.phase, MainMenuPhase::Banner);
    assert_eq!(menu.pending_action, None);
    let step = menu.advance(false);
    assert!(!step.restart_timer);
    assert_eq!(step.action, None);
    assert_eq!(menu.phase, MainMenuPhase::Banner);
    assert!(menu.advance(true).restart_timer);
    assert_eq!(menu.phase, MainMenuPhase::Dealing);
    assert!(menu.advance(true).restart_timer);
    assert_eq!(menu.phase, MainMenuPhase::Idle);
    let step = menu.advance(true);
    assert!(!step.restart_timer);
    assert_eq!(menu.phase, MainMenuPhase::Idle);
}

#[test]
fn choice_is_performed_once_after_collecting() {
    let mut menu = idle_menu();
    assert!(menu.select(MainMenuAction::Editor));
    assert_eq!(menu.phase, MainMenuPhase::Collecting);
    assert!(!menu.select(MainMenuAction::Exit));
    assert_eq!(menu.pending_action, Some(MainMenuAction::Editor));
    assert_eq!(menu.advance(false).action, None);
    let step = menu.advance(true);
    assert!(step.restart_timer);
    assert_eq!(step.action, Some(MainMenuAction::Editor));
    assert_eq!(menu.pending_action, None);
    assert_eq!(menu.advance(true).action, None);
}

#[test]
fn choice_is_refused_before_the_cards_are_dealt() {
    let mut menu = MainMenuSelection::new();
    assert!(!menu.select(MainMenuAction::NewGame));
    assert_eq!(menu.phase, MainMenuPhase::Banner);
    assert_eq!(menu.pending_action, None);
}

#[test]
fn action_targets() {
    assert_eq!(MainMenuAction::NewGame.target(), Some(AppStatus::Game));
    assert_eq!(MainMenuAction::ContinueGame.target(), Some(AppStatus::Game));
    assert_eq!(MainMenuAction::Editor.target(), Some(AppStatus::Editor));
    assert_eq!(MainMenuAction::Exit.target(), None);
    assert!(MainMenuAction::NewGame.resets_progress());
    assert!(!MainMenuAction::ContinueGame.resets_progress());
}

#[test]
fn banner_plays_on_the_first_opening_only() {
    let mut shown = false;
    let first = open_main_menu(&mut shown);
    assert_eq!(first.phase, MainMenuPhase::Banner);
    assert!(shown);
    let again = open_main_menu(&mut shown);
    assert_eq!(again.phase, MainMenuPhase::Dealing);
    assert_eq!(again.pending_action, None);
}

#[test]
fn continue_needs_a_save() {
    let cards = main_menu_cards(false);
    let labels: Vec<&str> = cards.iter().map(|c| c.label.as_str()).collect();
    assert_eq!(labels, vec!["开始游戏", "继续游戏", "编辑器", "退出"]);
    assert_eq!(cards[1].action, MainMenuAction::ContinueGame);
    assert!(!cards[1].enabled);
    assert!(cards[0].enabled && cards[2].enabled && cards[3].enabled);
    assert!(main_menu_cards(true)[1].enabled);
}
