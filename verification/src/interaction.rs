//! Interactive cards: their parameters, the registry of interaction actions,
//! the progress they unlock and the enter/exit events of the active
//! interaction.
use crate::card::CardKind;
use crate::card_params::CardRuntimeSpecializedConfig;
use crate::json::{JsonTree, JsonValue};
use crate::progress::GameProgress;
use crate::text::{push_str, same_text};
use vstd::prelude::*;

verus! {

/// Identifier of a scene entity.
pub type EntityId = u64;

/// Parameters of interactive cards.
pub struct InteractionCardParams {
    /// Registered interaction action type name.
    pub type_id: String,
    /// JSON payload for the interaction action.
    pub params: JsonValue,
    /// Progress key released when the player interacts with the card.
    pub state_key: Option<String>,
}

/// Marker component of cards that take part in interaction handling.
pub struct Interactive {
    /// Progress key released when the player interacts with the card.
    pub state_key: Option<String>,
}

/// The interaction actions the game knows.
#[derive(Clone, Copy, Debug, PartialEq, Eq, Structural)]
pub enum InteractionAction {
    /// `log_hello_world`: logs a greeting.
    HelloWorld,
    /// `dialogue`: runs a dialogue.
    Dialogue,
}

/// The action registered under `type_id`, if any.
pub open spec fn registered_action(type_id: Seq<char>) -> Option<InteractionAction> {
    if type_id == "log_hello_world"@ {
        Some(InteractionAction::HelloWorld)
    } else if type_id == "dialogue"@ {
        Some(InteractionAction::Dialogue)
    } else {
        None
    }
}

/// The interaction action registered under `type_id`.
pub fn find_interaction_action(type_id: &str) -> (action: Option<InteractionAction>)
    ensures
        action == registered_action(type_id@),
{
    if same_text(type_id, "log_hello_world") {
        Some(InteractionAction::HelloWorld)
    } else if same_text(type_id, "dialogue") {
        Some(InteractionAction::Dialogue)
    } else {
        None
    }
}

impl InteractionAction {
    /// Whether the action needs systems of its own installed (the dialogue
    /// panel).
    pub fn installs_systems(&self) -> (r: bool)
        ensures
            r == (*self == InteractionAction::Dialogue),
    {
        match self {
            InteractionAction::HelloWorld => false,
            InteractionAction::Dialogue => true,
        }
    }
}

/// Parameters of the hello-world action: there are none.
#[derive(Clone, Copy, Debug, Default)]
pub struct HelloWorldInteractionParams {}

/// Interaction component of hello-world cards.
#[derive(Clone, Copy, Debug, Default)]
pub struct HelloWorldInteraction;

impl From<HelloWorldInteractionParams> for HelloWorldInteraction {
    /// The hello-world interaction.
    fn from(value: HelloWorldInteractionParams) -> (interaction: Self) {
        HelloWorldInteraction
    }
}

impl vstd::std_specs::convert::FromSpecImpl<HelloWorldInteractionParams> for HelloWorldInteraction {
    open spec fn obeys_from_spec() -> bool {
        true
    }

    open spec fn from_spec(v: HelloWorldInteractionParams) -> HelloWorldInteraction {
        HelloWorldInteraction
    }
}

fn copy_optional(text: &Option<String>) -> (copy: Option<String>)
    ensures
        copy == *text,
{
    match text {
        Some(t) => Some(t.clone()),
        None => None,
    }
}

impl InteractionCardParams {
    /// Interactive cards are interactions.
    pub fn kind(&self) -> (kind: CardKind)
        ensures
            kind == CardKind::Interaction,
    {
        CardKind::Interaction
    }

    /// The action the card runs, when its type is registered (a card with an
    /// unknown type gets no interaction at all).
    pub fn action(&self) -> (action: Option<InteractionAction>)
        ensures
            action == registered_action(self.type_id@),
    {
        find_interaction_action(self.type_id.as_str())
    }

    /// The marker component of the spawned card.
    pub fn interactive(&self) -> (marker: Interactive)
        ensures
            marker.state_key == self.state_key,
    {
        Interactive { state_key: copy_optional(&self.state_key) }
    }
}

impl Interactive {
    /// Releases the card's progress key when the player interacts with it;
    /// returns whether the key was newly unlocked.
    pub fn unlock_progress(&self, progress: &mut GameProgress) -> (unlocked: bool)
        ensures
            match self.state_key {
                Some(k) => {
                    &&& unlocked == !old(progress).unlocked_conditions@.contains(k@)
                    &&& final(progress).unlocked_conditions@
                        == old(progress).unlocked_conditions@.insert(k@)
                },
                None => !unlocked && final(progress).unlocked_conditions@
                    == old(progress).unlocked_conditions@,
            },
            final(progress).revealed_clue_instances@ == old(progress).revealed_clue_instances@,
    {
        match &self.state_key {
            Some(key) => progress.unlock(key.as_str()),
            None => false,
        }
    }

    /// The runtime specialized parameters the editor records for the card:
    /// `{"state_key": <key>}` of type `interactive`, when it has a key.
    pub fn editor_runtime_param(&self) -> (param: Option<CardRuntimeSpecializedConfig>)
        ensures
            match self.state_key {
                Some(k) => param matches Some(p) && p.type_id@ == "interactive"@ && p.params@
                    == JsonTree::Object(seq![("state_key"@, JsonTree::Str(k@))]),
                None => param is None,
            },
    {
        match &self.state_key {
            Some(key) => {
                let mut type_id = String::new();
                push_str(&mut type_id, "interactive");
                let mut name = String::new();
                push_str(&mut name, "state_key");
                let mut members: Vec<(String, JsonValue)> = Vec::new();
                members.push((name, JsonValue::Str(key.clone())));
                let params = JsonValue::Object(members);
                proof {
                    assert(type_id@ =~= "interactive"@);
                    assert(params@ =~= JsonTree::Object(seq![("state_key"@, JsonTree::Str(key@))]))
                        by {
                        crate::json::lemma_view_entries(members@);
                        assert(crate::json::view_entries(members@) =~= seq![
                            ("state_key"@, JsonTree::Str(key@)),
                        ]);
                    }
                }
                Some(CardRuntimeSpecializedConfig { type_id, params })
            },
            None => None,
        }
    }
}

//region Active interaction

/// The interaction card the player stands on, and the one before it.
pub struct ActiveInteraction {
    pub current: Option<EntityId>,
    pub previous: Option<EntityId>,
}

/// The events to send after the active interaction changed.
pub struct InteractionEvents {
    /// The card the player left.
    pub exited: Option<EntityId>,
    /// The card the player entered.
    pub entered: Option<EntityId>,
}

impl ActiveInteraction {
    /// No interaction.
    pub fn new() -> (a: Self)
        ensures
            a.current is None,
            a.previous is None,
    {
        ActiveInteraction { current: None, previous: None }
    }

    /// Updates the active interaction after the player moved: nothing while
    /// the player's state is unchanged and the player is moving; the current
    /// interaction ends when there is no player; otherwise `next` (the
    /// topmost enabled interaction card under the player) becomes current.
    pub fn update(
        &mut self,
        player_state_changed: bool,
        player_is_stop: bool,
        player_present: bool,
        next: Option<EntityId>,
    )
        ensures
            if !player_state_changed && !player_is_stop {
                *final(self) == *old(self)
            } else if !player_present {
                final(self).previous == old(self).current && final(self).current is None
            } else {
                final(self).previous == old(self).current && final(self).current == next
            },
    {
        if !player_state_changed && !player_is_stop {
            return;
        }
        if !player_present {
            self.previous = self.current;
            self.current = None;
            return;
        }
        self.previous = self.current;
        self.current = next;
    }

    /// Ends the current interaction when its card has been disabled.
    pub fn clear_disabled(&mut self, current_disabled: bool)
        ensures
            if old(self).current is Some && current_disabled {
                final(self).previous == old(self).current && final(self).current is None
            } else {
                *final(self) == *old(self)
            },
    {
        if self.current.is_none() || !current_disabled {
            return;
        }
        self.previous = self.current;
        self.current = None;
    }

    /// The exit event for the card left and the enter event for the card
    /// entered.
    pub fn events(&self) -> (events: InteractionEvents)
        ensures
            events.exited == (if self.previous is Some && self.previous != self.current {
                self.previous
            } else {
                None
            }),
            events.entered == (if self.current is Some && self.current != self.previous {
                self.current
            } else {
                None
            }),
    {
        let exited = match self.previous {
            Some(entity) => if self.current != Some(entity) {
                Some(entity)
            } else {
                None
            },
            None => None,
        };
        let entered = match self.current {
            Some(entity) => if self.previous != Some(entity) {
                Some(entity)
            } else {
                None
            },
            None => None,
        };
        InteractionEvents { exited, entered }
    }
}

/// Law: one update never both enters and exits the same card, staying on the
/// same card sends no event, and moving from one card to another exits the
/// first and enters the second.
pub proof fn law_interaction_events(previous: Option<EntityId>, current: Option<EntityId>)
    ensures
        ({
            let exited = if previous is Some && previous != current {
                previous
            } else {
                None
            };
            let entered = if current is Some && current != previous {
                current
            } else {
                None
            };
            &&& (exited is Some && entered is Some ==> exited != entered)
            &&& (previous == current ==> exited is None && entered is None)
            &&& (previous is Some && current is Some && previous != current ==> exited == previous
                && entered == current)
        }),
{
}

//endregion

} // verus!
