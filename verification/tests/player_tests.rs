use coin_cards::player::{PlayerCoinBehaviorStatus, PlayerCoinEvent, PlayerCoinState};

fn idle_coin() -> PlayerCoinState {
    let mut coin = PlayerCoinState::new();
    coin.set_state(PlayerCoinBehaviorStatus::Idle);
    coin
}

#[test]
fn new_coin_is_initialized() {
    let coin = PlayerCoinState::new();
    assert_eq!(coin.state(), PlayerCoinBehaviorStatus::Initialized);
    assert_eq!(coin.last, None);
}

#[test]
fn hover_press_and_launch() {
    let mut coin = idle_coin();
    assert!(coin.apply(PlayerCoinEvent::PointerOver));
    assert_eq!(coin.state(), PlayerCoinBehaviorStatus::Aiming);
    assert!(coin.apply(PlayerCoinEvent::PrimaryPress));
    assert_eq!(coin.state(), PlayerCoinBehaviorStatus::Charging);
    assert!(coin.apply(PlayerCoinEvent::PrimaryRelease { launch: true }));
    assert_eq!(coin.state(), PlayerCoinBehaviorStatus::Upspring { contact_count: 0 });
    assert_eq!(coin.last, Some(PlayerCoinBehaviorStatus::Charging));
}

#[test]
fn short_release_goes_back_to_aiming() {
    let mut coin = idle_coin();
    assert!(coin.apply(PlayerCoinEvent::PrimaryPress));
    assert!(coin.apply(PlayerCoinEvent::PrimaryRelease { launch: false }));
    assert_eq!(coin.state(), PlayerCoinBehaviorStatus::Aiming);
    assert!(coin.apply(PlayerCoinEvent::PointerOut));
    assert_eq!(coin.state(), PlayerCoinBehaviorStatus::Idle);
}

#[test]
fn events_that_do_not_apply_change_nothing() {
    let mut coin = idle_coin();
    assert!(!coin.apply(PlayerCoinEvent::PointerOut));
    assert!(!coin.apply(PlayerCoinEvent::PrimaryRelease { launch: true }));
    assert!(!coin.apply(PlayerCoinEvent::Respawned));
    assert!(!coin.apply(PlayerCoinEvent::Stopped));
    assert_eq!(coin.state(), PlayerCoinBehaviorStatus::Idle);
    assert_eq!(coin.last, Some(PlayerCoinBehaviorStatus::Initialized));
}

#[test]
fn airborne_coin_does_not_fall_into_traps() {
    let mut coin = idle_coin();
    coin.set_state(PlayerCoinBehaviorStatus::new_upspring());
    assert!(!coin.apply(PlayerCoinEvent::FellIntoTrap));
    coin.set_state(PlayerCoinBehaviorStatus::Slide);
    assert!(coin.apply(PlayerCoinEvent::FellIntoTrap));
    assert_eq!(coin.state(), PlayerCoinBehaviorStatus::Death);
    assert!(!coin.apply(PlayerCoinEvent::FellIntoTrap));
    assert!(!coin.apply(PlayerCoinEvent::PointerOver));
    assert!(coin.apply(PlayerCoinEvent::Respawned));
    assert_eq!(coin.state(), PlayerCoinBehaviorStatus::Idle);
}

#[test]
fn stopping_after_moving_finishes_the_eject() {
    let mut coin = idle_coin();
    coin.set_state(PlayerCoinBehaviorStatus::Contact { contact_count: 2 });
    let changed = coin.apply(PlayerCoinEvent::Stopped);
    assert!(changed);
    assert!(coin.just_eject_finished(changed));
    assert!(!coin.just_initialized(changed));
    assert!(coin.just_eject_finished_or_initialized(changed));
    assert!(!coin.just_eject_finished(false));
}

#[test]
fn first_idle_after_placing_is_initialized() {
    let mut coin = PlayerCoinState::new();
    coin.set_state(PlayerCoinBehaviorStatus::Idle);
    assert!(coin.just_initialized(true));
    assert!(!coin.just_eject_finished(true));
    assert!(coin.just_eject_finished_or_initialized(true));
    coin.reset();
    assert_eq!(coin.state(), PlayerCoinBehaviorStatus::Initialized);
    assert_eq!(coin.last, Some(PlayerCoinBehaviorStatus::Idle));
}

#[test]
fn status_predicates() {
    let up = PlayerCoinBehaviorStatus::new_upspring();
    assert!(up.is_airborne() && up.is_moving() && !up.is_on_ground());
    let slide = PlayerCoinBehaviorStatus::Slide;
    assert!(slide.is_moving() && slide.is_on_ground() && !slide.is_airborne());
    assert!(PlayerCoinBehaviorStatus::Death.is_death());
    assert!(PlayerCoinBehaviorStatus::Charging.is_charging());
    assert!(!PlayerCoinBehaviorStatus::Idle.is_moving());
}

#[test]
fn contact_count_of_moving_states() {
    let mut s = PlayerCoinBehaviorStatus::Contact { contact_count: 1 };
    assert_eq!(s.contact_count(), 1);
    assert!(s.set_contact_count(3));
    assert_eq!(s, PlayerCoinBehaviorStatus::Contact { contact_count: 3 });
    let mut idle = PlayerCoinBehaviorStatus::Idle;
    assert_eq!(idle.contact_count(), 0);
    assert!(!idle.set_contact_count(3));
    assert_eq!(idle, PlayerCoinBehaviorStatus::Idle);
}
