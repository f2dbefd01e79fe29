//! Game progress: unlocked condition keys and revealed clue cards, and the
//! enable/disable rule that progress drives.
use crate::card::Card;
use crate::key_set::KeySet;
use vstd::prelude::*;

verus! {

/// What the player has achieved so far.
pub struct GameProgress {
    /// Condition keys released by interactions.
    pub unlocked_conditions: KeySet,
    /// Instance ids of clue cards already revealed.
    pub revealed_clue_instances: KeySet,
}

/// Whether a card with these conditions is disabled: it waits for an
/// `enable_if` key that is not unlocked yet, or its `disable_if` key is
/// unlocked.
pub open spec fn disabled_by(
    unlocked: Set<Seq<char>>,
    enable_if: Option<Seq<char>>,
    disable_if: Option<Seq<char>>,
) -> bool {
    ||| (enable_if matches Some(k) && !unlocked.contains(k))
    ||| (disable_if matches Some(k) && unlocked.contains(k))
}

/// The view of an optional key.
pub open spec fn key_view(key: Option<String>) -> Option<Seq<char>> {
    match key {
        Some(k) => Some(k@),
        None => None,
    }
}

impl GameProgress {
    /// No progress.
    pub fn new() -> (p: Self)
        ensures
            p.unlocked_conditions@ == Set::<Seq<char>>::empty(),
            p.revealed_clue_instances@ == Set::<Seq<char>>::empty(),
    {
        GameProgress { unlocked_conditions: KeySet::new(), revealed_clue_instances: KeySet::new() }
    }

    /// Unlocks `key`; returns whether it was newly unlocked (only then does
    /// the progress need saving).
    pub fn unlock(&mut self, key: &str) -> (added: bool)
        ensures
            added == !old(self).unlocked_conditions@.contains(key@),
            final(self).unlocked_conditions@ == old(self).unlocked_conditions@.insert(key@),
            final(self).revealed_clue_instances@ == old(self).revealed_clue_instances@,
    {
        self.unlocked_conditions.insert(key)
    }

    /// Records the clue card `instance_id` as revealed; returns whether it was
    /// newly revealed (only then does the progress need saving).
    pub fn reveal_clue(&mut self, instance_id: &str) -> (added: bool)
        ensures
            added == !old(self).revealed_clue_instances@.contains(instance_id@),
            final(self).revealed_clue_instances@ == old(self).revealed_clue_instances@.insert(
                instance_id@,
            ),
            final(self).unlocked_conditions@ == old(self).unlocked_conditions@,
    {
        self.revealed_clue_instances.insert(instance_id)
    }

    /// Whether `key` is unlocked.
    pub fn is_unlocked(&self, key: &str) -> (r: bool)
        ensures
            r == self.unlocked_conditions@.contains(key@),
    {
        self.unlocked_conditions.contains(key)
    }

    /// Whether the clue card `instance_id` has been revealed.
    pub fn is_clue_revealed(&self, instance_id: &str) -> (r: bool)
        ensures
            r == self.revealed_clue_instances@.contains(instance_id@),
    {
        self.revealed_clue_instances.contains(instance_id)
    }
}

impl Default for GameProgress {
    fn default() -> (p: Self)
        ensures
            p.unlocked_conditions@ == Set::<Seq<char>>::empty(),
            p.revealed_clue_instances@ == Set::<Seq<char>>::empty(),
    {
        GameProgress::new()
    }
}

fn optional_key_unlocked(progress: &GameProgress, key: &Option<String>) -> (r: Option<bool>)
    ensures
        match key {
            Some(k) => r == Some(progress.unlocked_conditions@.contains(k@)),
            None => r is None,
        },
{
    match key {
        Some(k) => Some(progress.is_unlocked(k.as_str())),
        None => None,
    }
}

/// Whether `card` must be disabled (and hidden) under `progress`.
pub fn card_should_disable(card: &Card, progress: &GameProgress) -> (disable: bool)
    ensures
        disable == disabled_by(
            progress.unlocked_conditions@,
            key_view(card.enable_if),
            key_view(card.disable_if),
        ),
{
    let waiting = match optional_key_unlocked(progress, &card.enable_if) {
        Some(unlocked) => !unlocked,
        None => false,
    };
    let released = match optional_key_unlocked(progress, &card.disable_if) {
        Some(unlocked) => unlocked,
        None => false,
    };
    waiting || released
}

/// Law: unlocking a key makes it unlocked, a second unlock of the same key
/// reports nothing new and changes nothing, and other keys keep their state.
pub proof fn law_unlock(unlocked: Set<Seq<char>>, key: Seq<char>, other: Seq<char>)
    ensures
        unlocked.insert(key).contains(key),
        unlocked.insert(key).insert(key) == unlocked.insert(key),
        other != key ==> (unlocked.insert(key).contains(other) == unlocked.contains(other)),
{
    assert(unlocked.insert(key).insert(key) =~= unlocked.insert(key));
}

/// Law: a card without conditions is never disabled.
pub proof fn law_unconditional_card_enabled(unlocked: Set<Seq<char>>)
    ensures
        !disabled_by(unlocked, None, None),
{
}

/// Law: once its `enable_if` key is unlocked, a card is enabled unless its
/// `disable_if` key is unlocked; once its `disable_if` key is unlocked it
/// stays disabled whatever else is unlocked.
pub proof fn law_card_conditions(
    unlocked: Set<Seq<char>>,
    enable_if: Option<Seq<char>>,
    disable_if: Option<Seq<char>>,
    key: Seq<char>,
)
    ensures
        enable_if == Some(key) ==> (disabled_by(unlocked.insert(key), enable_if, disable_if)
            <==> (disable_if matches Some(d) && unlocked.insert(key).contains(d))),
        disable_if == Some(key) ==> disabled_by(unlocked.insert(key), enable_if, disable_if),
{
}

/// Law: a card waits for its `enable_if` key: while that key is not
/// unlocked the card is disabled, whatever its `disable_if` key; a card whose
/// `disable_if` key is unlocked is disabled; a card is enabled exactly when
/// neither holds.
pub proof fn law_card_waits_for_enable_key(
    unlocked: Set<Seq<char>>,
    enable_if: Option<Seq<char>>,
    disable_if: Option<Seq<char>>,
)
    ensures
        (enable_if matches Some(k) && !unlocked.contains(k)) ==> disabled_by(
            unlocked,
            enable_if,
            disable_if,
        ),
        (disable_if matches Some(k) && unlocked.contains(k)) ==> disabled_by(
            unlocked,
            enable_if,
            disable_if,
        ),
        !disabled_by(unlocked, enable_if, disable_if) <==> (enable_if is None || unlocked.contains(
            enable_if->0,
        )) && (disable_if is None || !unlocked.contains(disable_if->0)),
{
}

} // verus!
