//! The player coin's behaviour states and the pointer-driven transitions
//! between them. The continuous quantities that go with some states (the
//! eject vector while charging, the simulated height while airborne, the
//! saved velocity at a contact) are kept by the caller beside the state.
use vstd::prelude::*;

verus! {

/// Behaviour state of the player coin.
#[derive(Clone, Copy, Debug, PartialEq, Eq, Structural)]
pub enum PlayerCoinBehaviorStatus {
    Initialized,
    Idle,
    Aiming,
    Charging,
    Upspring { contact_count: u8 },
    Contact { contact_count: u8 },
    Slide,
    Death,
}

/// Moving states: airborne, bouncing or sliding.
pub open spec fn moving(s: PlayerCoinBehaviorStatus) -> bool {
    s is Upspring || s is Contact || s is Slide
}

impl PlayerCoinBehaviorStatus {
    /// Launched and not yet bounced.
    pub fn new_upspring() -> (s: Self)
        ensures
            s == (PlayerCoinBehaviorStatus::Upspring { contact_count: 0 }),
    {
        PlayerCoinBehaviorStatus::Upspring { contact_count: 0 }
    }

    pub fn is_initialized(&self) -> (r: bool)
        ensures
            r == (*self is Initialized),
    {
        matches!(self, PlayerCoinBehaviorStatus::Initialized)
    }

    pub fn is_idle(&self) -> (r: bool)
        ensures
            r == (*self is Idle),
    {
        matches!(self, PlayerCoinBehaviorStatus::Idle)
    }

    /// Airborne, bouncing or sliding.
    pub fn is_moving(&self) -> (r: bool)
        ensures
            r == moving(*self),
    {
        matches!(
            self,
            PlayerCoinBehaviorStatus::Upspring { .. } | PlayerCoinBehaviorStatus::Contact { .. }
                | PlayerCoinBehaviorStatus::Slide
        )
    }

    /// At rest and alive.
    pub fn is_stop(&self) -> (r: bool)
        ensures
            r == (!moving(*self) && !(*self is Death)),
    {
        !self.is_moving() && !matches!(self, PlayerCoinBehaviorStatus::Death)
    }

    pub fn is_aiming(&self) -> (r: bool)
        ensures
            r == (*self is Aiming),
    {
        matches!(self, PlayerCoinBehaviorStatus::Aiming)
    }

    pub fn is_charging(&self) -> (r: bool)
        ensures
            r == (*self is Charging),
    {
        matches!(self, PlayerCoinBehaviorStatus::Charging)
    }

    /// In the air after a launch.
    pub fn is_airborne(&self) -> (r: bool)
        ensures
            r == (*self is Upspring),
    {
        matches!(self, PlayerCoinBehaviorStatus::Upspring { .. })
    }

    /// Touching the ground and alive.
    pub fn is_on_ground(&self) -> (r: bool)
        ensures
            r == (!(*self is Upspring) && !(*self is Death)),
    {
        !self.is_airborne() && !self.is_death()
    }

    pub fn is_death(&self) -> (r: bool)
        ensures
            r == (*self is Death),
    {
        matches!(self, PlayerCoinBehaviorStatus::Death)
    }

    /// Ground contacts since the launch (0 outside the air and contact states).
    pub fn contact_count(&self) -> (n: u8)
        ensures
            n == match *self {
                PlayerCoinBehaviorStatus::Upspring { contact_count } => contact_count,
                PlayerCoinBehaviorStatus::Contact { contact_count } => contact_count,
                _ => 0u8,
            },
    {
        match self {
            PlayerCoinBehaviorStatus::Upspring { contact_count } => *contact_count,
            PlayerCoinBehaviorStatus::Contact { contact_count } => *contact_count,
            _ => 0,
        }
    }

    /// Sets the ground contacts in the air and contact states; returns
    /// whether the state has them.
    pub fn set_contact_count(&mut self, count: u8) -> (set: bool)
        ensures
            set == (*old(self) is Upspring || *old(self) is Contact),
            match *old(self) {
                PlayerCoinBehaviorStatus::Upspring { .. } => *final(self)
                    == (PlayerCoinBehaviorStatus::Upspring { contact_count: count }),
                PlayerCoinBehaviorStatus::Contact { .. } => *final(self)
                    == (PlayerCoinBehaviorStatus::Contact { contact_count: count }),
                _ => *final(self) == *old(self),
            },
    {
        match self {
            PlayerCoinBehaviorStatus::Upspring { contact_count } => {
                *contact_count = count;
                true
            },
            PlayerCoinBehaviorStatus::Contact { contact_count } => {
                *contact_count = count;
                true
            },
            _ => false,
        }
    }
}

/// The player coin's state and the state before the last change.
pub struct PlayerCoinState {
    pub state: PlayerCoinBehaviorStatus,
    pub last: Option<PlayerCoinBehaviorStatus>,
}

/// Pointer and game events that drive the player coin.
#[derive(Clone, Copy, Debug, PartialEq, Eq, Structural)]
pub enum PlayerCoinEvent {
    /// The pointer entered the coin.
    PointerOver,
    /// The pointer left the coin.
    PointerOut,
    /// The primary button was pressed on the coin.
    PrimaryPress,
    /// The primary button was released; `launch` says whether the charge
    /// exceeded the minimum launch distance.
    PrimaryRelease { launch: bool },
    /// The coin fell into an uncovered trap.
    FellIntoTrap,
    /// The dead coin was put back at its last stop position.
    Respawned,
    /// The coin came to rest after moving.
    Stopped,
}

/// The state an event leads to, or `None` when the event does not apply.
pub open spec fn transition(s: PlayerCoinBehaviorStatus, e: PlayerCoinEvent) -> Option<
    PlayerCoinBehaviorStatus,
> {
    match e {
        PlayerCoinEvent::PointerOver => if s is Idle {
            Some(PlayerCoinBehaviorStatus::Aiming)
        } else {
            None
        },
        PlayerCoinEvent::PointerOut => if s is Aiming {
            Some(PlayerCoinBehaviorStatus::Idle)
        } else {
            None
        },
        PlayerCoinEvent::PrimaryPress => if s is Idle || s is Aiming {
            Some(PlayerCoinBehaviorStatus::Charging)
        } else {
            None
        },
        PlayerCoinEvent::PrimaryRelease { launch } => if s is Charging {
            if launch {
                Some(PlayerCoinBehaviorStatus::Upspring { contact_count: 0 })
            } else {
                Some(PlayerCoinBehaviorStatus::Aiming)
            }
        } else {
            None
        },
        PlayerCoinEvent::FellIntoTrap => if !(s is Upspring) && !(s is Death) {
            Some(PlayerCoinBehaviorStatus::Death)
        } else {
            None
        },
        PlayerCoinEvent::Respawned => if s is Death {
            Some(PlayerCoinBehaviorStatus::Idle)
        } else {
            None
        },
        PlayerCoinEvent::Stopped => if moving(s) {
            Some(PlayerCoinBehaviorStatus::Idle)
        } else {
            None
        },
    }
}

impl PlayerCoinState {
    /// A coin that has just been placed.
    pub fn new() -> (s: Self)
        ensures
            s.state == PlayerCoinBehaviorStatus::Initialized,
            s.last is None,
    {
        PlayerCoinState { state: PlayerCoinBehaviorStatus::Initialized, last: None }
    }

    /// The current state.
    pub fn state(&self) -> (s: PlayerCoinBehaviorStatus)
        ensures
            s == self.state,
    {
        self.state
    }

    /// Changes the state, remembering the previous one.
    pub fn set_state(&mut self, state: PlayerCoinBehaviorStatus)
        ensures
            final(self).state == state,
            final(self).last == Some(old(self).state),
    {
        self.last = Some(self.state);
        self.state = state;
    }

    /// Back to the placed state.
    pub fn reset(&mut self)
        ensures
            final(self).state == PlayerCoinBehaviorStatus::Initialized,
            final(self).last == Some(old(self).state),
    {
        self.set_state(PlayerCoinBehaviorStatus::Initialized);
    }

    /// Applies an event; returns whether the state changed.
    pub fn apply(&mut self, event: PlayerCoinEvent) -> (changed: bool)
        ensures
            changed == transition(old(self).state, event) is Some,
            match transition(old(self).state, event) {
                Some(next) => final(self).state == next && final(self).last == Some(
                    old(self).state,
                ),
                None => *final(self) == *old(self),
            },
    {
        let s = self.state;
        let next = match event {
            PlayerCoinEvent::PointerOver => if s.is_idle() {
                Some(PlayerCoinBehaviorStatus::Aiming)
            } else {
                None
            },
            PlayerCoinEvent::PointerOut => if s.is_aiming() {
                Some(PlayerCoinBehaviorStatus::Idle)
            } else {
                None
            },
            PlayerCoinEvent::PrimaryPress => if s.is_idle() || s.is_aiming() {
                Some(PlayerCoinBehaviorStatus::Charging)
            } else {
                None
            },
            PlayerCoinEvent::PrimaryRelease { launch } => if s.is_charging() {
                if launch {
                    Some(PlayerCoinBehaviorStatus::new_upspring())
                } else {
                    Some(PlayerCoinBehaviorStatus::Aiming)
                }
            } else {
                None
            },
            PlayerCoinEvent::FellIntoTrap => if s.is_on_ground() {
                Some(PlayerCoinBehaviorStatus::Death)
            } else {
                None
            },
            PlayerCoinEvent::Respawned => if s.is_death() {
                Some(PlayerCoinBehaviorStatus::Idle)
            } else {
                None
            },
            PlayerCoinEvent::Stopped => if s.is_moving() {
                Some(PlayerCoinBehaviorStatus::Idle)
            } else {
                None
            },
        };
        match next {
            Some(n) => {
                self.set_state(n);
                true
            },
            None => false,
        }
    }

    /// The coin has just come to rest after moving (`changed`: the state
    /// changed this frame).
    pub fn just_eject_finished(&self, changed: bool) -> (r: bool)
        ensures
            r == (changed && self.state is Idle && (self.last matches Some(l) && moving(l))),
    {
        changed && self.state.is_idle() && match self.last {
            Some(l) => l.is_moving(),
            None => false,
        }
    }

    /// The coin has just become idle after being placed.
    pub fn just_initialized(&self, changed: bool) -> (r: bool)
        ensures
            r == (changed && self.state is Idle && (self.last matches Some(l) && l is Initialized)),
    {
        changed && self.state.is_idle() && match self.last {
            Some(l) => l.is_initialized(),
            None => false,
        }
    }

    /// The coin has just come to rest, after moving or after being placed.
    pub fn just_eject_finished_or_initialized(&self, changed: bool) -> (r: bool)
        ensures
            r == (changed && self.state is Idle && (self.last matches Some(l) && (moving(l)
                || l is Initialized))),
    {
        self.just_eject_finished(changed) || self.just_initialized(changed)
    }
}

/// Law: a launch only starts from a charge; a dead coin only leaves death by
/// respawning; every event that applies changes the state.
pub proof fn law_player_states(s: PlayerCoinBehaviorStatus, e: PlayerCoinEvent)
    ensures
        transition(s, e) matches Some(PlayerCoinBehaviorStatus::Upspring { .. }) ==> s is Charging,
        s is Death && transition(s, e) is Some ==> e == PlayerCoinEvent::Respawned,
        transition(s, e) is Some ==> transition(s, e) != Some(s),
{
}

/// Law: falling into a trap applies exactly to a coin that is on the ground
/// and alive (placed, idle, aiming, charging, bouncing or sliding) and kills
/// it; an airborne or dead coin does not fall.
pub proof fn law_trap_kills_grounded_coins(s: PlayerCoinBehaviorStatus)
    ensures
        !(s is Upspring) && !(s is Death) ==> transition(s, PlayerCoinEvent::FellIntoTrap) == Some(
            PlayerCoinBehaviorStatus::Death,
        ),
        (s is Upspring || s is Death) ==> transition(s, PlayerCoinEvent::FellIntoTrap) is None,
        transition(PlayerCoinBehaviorStatus::Idle, PlayerCoinEvent::FellIntoTrap) == Some(
            PlayerCoinBehaviorStatus::Death,
        ),
        transition(PlayerCoinBehaviorStatus::Aiming, PlayerCoinEvent::FellIntoTrap) == Some(
            PlayerCoinBehaviorStatus::Death,
        ),
        transition(PlayerCoinBehaviorStatus::Charging, PlayerCoinEvent::FellIntoTrap) == Some(
            PlayerCoinBehaviorStatus::Death,
        ),
        transition(PlayerCoinBehaviorStatus::Initialized, PlayerCoinEvent::FellIntoTrap) == Some(
            PlayerCoinBehaviorStatus::Death,
        ),
{
}

} // verus!
