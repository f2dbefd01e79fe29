//! The main menu: its phases (banner, dealing the cards, idle, collecting
//! the cards) and the action chosen with a card.
use vstd::prelude::*;

verus! {

/// Phase of the main menu animation.
#[derive(Clone, Copy, Debug, PartialEq, Eq, Structural)]
pub enum MainMenuPhase {
    Banner,
    Dealing,
    Idle,
    Collecting,
}

/// Actions of the main menu cards.
#[derive(Clone, Copy, Debug, PartialEq, Eq, Structural)]
pub enum MainMenuAction {
    NewGame,
    ContinueGame,
    Editor,
    Exit,
}

/// Top-level views of the application.
#[derive(Clone, Copy, Debug, PartialEq, Eq, Structural)]
pub enum AppStatus {
    MainMenu,
    Game,
    Editor,
}

/// Where the menu is, and the action waiting for the cards to be collected.
pub struct MainMenuSelection {
    pub phase: MainMenuPhase,
    pub pending_action: Option<MainMenuAction>,
}

/// The result of one frame of the menu: whether the phase timer restarts,
/// and the action to perform now.
pub struct MainMenuStep {
    pub restart_timer: bool,
    pub action: Option<MainMenuAction>,
}

/// One frame of the menu when the current phase's animation is
/// (`phase_done`) or is not finished: the phase after it, the pending
/// action after it, whether the timer restarts, and the action performed.
pub open spec fn menu_step(
    phase: MainMenuPhase,
    pending: Option<MainMenuAction>,
    phase_done: bool,
) -> (MainMenuPhase, Option<MainMenuAction>, bool, Option<MainMenuAction>) {
    match phase {
        MainMenuPhase::Banner => if phase_done {
            (MainMenuPhase::Dealing, pending, true, None)
        } else {
            (phase, pending, false, None)
        },
        MainMenuPhase::Dealing => if phase_done {
            (MainMenuPhase::Idle, pending, true, None)
        } else {
            (phase, pending, false, None)
        },
        MainMenuPhase::Idle => (phase, pending, false, None),
        MainMenuPhase::Collecting => if phase_done && pending is Some {
            (phase, None, true, pending)
        } else {
            (phase, pending, false, None)
        },
    }
}

impl MainMenuSelection {
    /// The menu as it opens: the banner, nothing chosen.
    pub fn new() -> (s: Self)
        ensures
            s.phase == MainMenuPhase::Banner,
            s.pending_action is None,
    {
        MainMenuSelection { phase: MainMenuPhase::Banner, pending_action: None }
    }

    /// A click on the enabled card of `action`: accepted only while the
    /// menu is idle with nothing chosen; then the cards are collected.
    /// Returns whether it was accepted (the timer then restarts).
    pub fn select(&mut self, action: MainMenuAction) -> (accepted: bool)
        ensures
            accepted == (old(self).phase == MainMenuPhase::Idle && old(self).pending_action is None),
            accepted ==> final(self).phase == MainMenuPhase::Collecting,
            accepted ==> final(self).pending_action == Some(action),
            !accepted ==> final(self).phase == old(self).phase,
            !accepted ==> final(self).pending_action == old(self).pending_action,
    {
        if self.phase != MainMenuPhase::Idle || self.pending_action.is_some() {
            return false;
        }
        self.pending_action = Some(action);
        self.phase = MainMenuPhase::Collecting;
        true
    }

    /// Advances the menu by one frame.
    pub fn advance(&mut self, phase_done: bool) -> (step: MainMenuStep)
        ensures
            ({
                let (phase, pending, restart, action) = menu_step(
                    old(self).phase,
                    old(self).pending_action,
                    phase_done,
                );
                &&& final(self).phase == phase
                &&& final(self).pending_action == pending
                &&& step.restart_timer == restart
                &&& step.action == action
            }),
    {
        match self.phase {
            MainMenuPhase::Banner => {
                if phase_done {
                    self.phase = MainMenuPhase::Dealing;
                    return MainMenuStep { restart_timer: true, action: None };
                }
                MainMenuStep { restart_timer: false, action: None }
            },
            MainMenuPhase::Dealing => {
                if phase_done {
                    self.phase = MainMenuPhase::Idle;
                    return MainMenuStep { restart_timer: true, action: None };
                }
                MainMenuStep { restart_timer: false, action: None }
            },
            MainMenuPhase::Idle => MainMenuStep { restart_timer: false, action: None },
            MainMenuPhase::Collecting => {
                if !phase_done {
                    return MainMenuStep { restart_timer: false, action: None };
                }
                match self.pending_action {
                    None => MainMenuStep { restart_timer: false, action: None },
                    Some(action) => {
                        self.pending_action = None;
                        MainMenuStep { restart_timer: true, action: Some(action) }
                    },
                }
            },
        }
    }
}

impl MainMenuAction {
    /// The view the action opens (`None` for leaving the application).
    pub fn target(&self) -> (view: Option<AppStatus>)
        ensures
            view == match *self {
                MainMenuAction::NewGame => Some(AppStatus::Game),
                MainMenuAction::ContinueGame => Some(AppStatus::Game),
                MainMenuAction::Editor => Some(AppStatus::Editor),
                MainMenuAction::Exit => None,
            },
    {
        match self {
            MainMenuAction::NewGame => Some(AppStatus::Game),
            MainMenuAction::ContinueGame => Some(AppStatus::Game),
            MainMenuAction::Editor => Some(AppStatus::Editor),
            MainMenuAction::Exit => None,
        }
    }

    /// Whether the action starts over: the progress is reset and its save
    /// deleted.
    pub fn resets_progress(&self) -> (r: bool)
        ensures
            r == (*self == MainMenuAction::NewGame),
    {
        match self {
            MainMenuAction::NewGame => true,
            _ => false,
        }
    }
}

/// Law: an action is performed only once the cards are collected after it
/// was chosen, and then exactly once.
pub proof fn law_menu_action_once(
    phase: MainMenuPhase,
    pending: Option<MainMenuAction>,
    done: bool,
    later: bool,
)
    ensures
        menu_step(phase, pending, done).3 is Some ==> phase == MainMenuPhase::Collecting && done
            && menu_step(phase, pending, done).3 == pending,
        ({
            let (p1, a1, _, _) = menu_step(phase, pending, done);
            menu_step(phase, pending, done).3 is Some ==> menu_step(p1, a1, later).3 is None
        }),
{
}

/// The menu as it opens: the banner plays on the first opening only
/// (`banner_shown` records that it did); later openings start dealing the
/// cards. Nothing is chosen.
pub fn open_main_menu(banner_shown: &mut bool) -> (s: MainMenuSelection)
    ensures
        s.phase == (if *old(banner_shown) {
            MainMenuPhase::Dealing
        } else {
            MainMenuPhase::Banner
        }),
        s.pending_action is None,
        *final(banner_shown),
{
    let mut s = MainMenuSelection::new();
    if *banner_shown {
        s.phase = MainMenuPhase::Dealing;
    } else {
        *banner_shown = true;
    }
    s
}

/// A card of the main menu.
pub struct MainMenuCard {
    pub label: String,
    pub action: MainMenuAction,
    /// Whether a click on it is taken.
    pub enabled: bool,
}

/// The label, action and enabled state of each main menu card, in the
/// order they are dealt: "continue" is enabled only when a save exists
/// (`has_save`), the others always.
pub open spec fn menu_cards_view(has_save: bool) -> Seq<(Seq<char>, MainMenuAction, bool)> {
    seq![
        ("开始游戏"@, MainMenuAction::NewGame, true),
        ("继续游戏"@, MainMenuAction::ContinueGame, has_save),
        ("编辑器"@, MainMenuAction::Editor, true),
        ("退出"@, MainMenuAction::Exit, true),
    ]
}

/// The main menu cards (see `menu_cards_view`).
pub fn main_menu_cards(has_save: bool) -> (cards: Vec<MainMenuCard>)
    ensures
        cards@.len() == menu_cards_view(has_save).len(),
        forall|i: int|
            0 <= i < cards@.len() ==> ((#[trigger] cards@[i]).label@, cards@[i].action,
            cards@[i].enabled) == menu_cards_view(has_save)[i],
{
    let mut cards: Vec<MainMenuCard> = Vec::new();
    cards.push(
        MainMenuCard { label: "开始游戏".to_owned(), action: MainMenuAction::NewGame, enabled: true },
    );
    cards.push(
        MainMenuCard {
            label: "继续游戏".to_owned(),
            action: MainMenuAction::ContinueGame,
            enabled: has_save,
        },
    );
    cards.push(
        MainMenuCard { label: "编辑器".to_owned(), action: MainMenuAction::Editor, enabled: true },
    );
    cards.push(
        MainMenuCard { label: "退出".to_owned(), action: MainMenuAction::Exit, enabled: true },
    );
    cards
}

/// Law: a phase whose animation is not finished does not change (nor the
/// pending action, nor the timer, and nothing is performed); a finished
/// banner moves on to dealing, finished dealing to the idle menu, and the
/// idle menu waits for a choice.
pub proof fn law_menu_waits_for_animations(phase: MainMenuPhase, pending: Option<MainMenuAction>)
    ensures
        menu_step(phase, pending, false) == (phase, pending, false, None::<MainMenuAction>),
        menu_step(MainMenuPhase::Banner, pending, true).0 == MainMenuPhase::Dealing,
        menu_step(MainMenuPhase::Dealing, pending, true).0 == MainMenuPhase::Idle,
        menu_step(MainMenuPhase::Idle, pending, true) == (
            MainMenuPhase::Idle,
            pending,
            false,
            None::<MainMenuAction>,
        ),
{
}

} // verus!
