//! Scene editor logic: interaction state, the undo history, selection, card
//! stacking order among intersecting cards, and scene file formats.
use crate::card::CardSpecializedRegistry;
use crate::card_params::{
    appearance_override, card_appearance_index, loaded_kind,
    CardFillColorPlan, CardParam, CardPresetsConfig,
};
use crate::interaction::EntityId;
use crate::text::{chars_of, push_str};
use vstd::prelude::*;

verus! {

//region Interaction state

/// What the editor is doing with the pointer and the keyboard. The gesture
/// states (`moving_entity`, `rotating_entity`, `camera_panning`,
/// `box_selection`, `terrain_drawing`) carry the geometry of the gesture in
/// progress, whose type the editor chooses.
pub struct EditorInteractionState<M, R, P, B, T> {
    pub selected_entity: Option<EntityId>,
    pub selected_entities: Vec<EntityId>,
    pub dragging_prefab: Option<u32>,
    pub drag_preview_entity: Option<EntityId>,
    pub moving_entity: Option<M>,
    pub rotating_entity: Option<R>,
    pub camera_panning: Option<P>,
    pub box_selection: Option<B>,
    pub terrain_draw_mode: bool,
    pub terrain_drawing: Option<T>,
    pub escape_consumed: bool,
    pub pending_exit_confirmation: bool,
    pub status_message: String,
}

/// The message asking to confirm leaving with unsaved changes.
pub open spec fn unsaved_exit_message() -> Seq<char> {
    "当前场景存在未保存修改。再次按 Esc 确认退出。"@
}

/// Whether a gesture holds the pointer.
pub open spec fn captures<M, R, P, B, T>(s: EditorInteractionState<M, R, P, B, T>) -> bool {
    s.dragging_prefab is Some || s.moving_entity is Some || s.rotating_entity is Some
        || s.camera_panning is Some || s.box_selection is Some || s.terrain_drawing is Some
}

/// The outcome of Esc for the editor state: whether to go back to the main
/// menu, the escape flag and the exit confirmation flag afterwards, and
/// whether the confirmation message is shown.
pub struct EscapeOutcome {
    pub leave: bool,
    pub escape_consumed: bool,
    pub pending_exit_confirmation: bool,
    pub asks_confirmation: bool,
}

/// The Esc rule: a gesture in progress keeps Esc; an Esc already consumed by
/// the editor is spent; otherwise a pressed Esc leaves the game view at
/// once, and leaves the editor at once when nothing is unsaved or a
/// confirmation is pending, and otherwise asks for confirmation.
pub open spec fn escape_outcome(
    captures_pointer: bool,
    escape_consumed: bool,
    pending: bool,
    esc_pressed: bool,
    in_editor: bool,
    has_unsaved_changes: bool,
) -> EscapeOutcome {
    if captures_pointer {
        EscapeOutcome {
            leave: false,
            escape_consumed,
            pending_exit_confirmation: pending,
            asks_confirmation: false,
        }
    } else if escape_consumed {
        EscapeOutcome {
            leave: false,
            escape_consumed: false,
            pending_exit_confirmation: pending,
            asks_confirmation: false,
        }
    } else if !esc_pressed {
        EscapeOutcome {
            leave: false,
            escape_consumed: false,
            pending_exit_confirmation: pending,
            asks_confirmation: false,
        }
    } else if !in_editor {
        EscapeOutcome {
            leave: true,
            escape_consumed: false,
            pending_exit_confirmation: pending,
            asks_confirmation: false,
        }
    } else if !has_unsaved_changes || pending {
        EscapeOutcome {
            leave: true,
            escape_consumed: false,
            pending_exit_confirmation: false,
            asks_confirmation: false,
        }
    } else {
        EscapeOutcome {
            leave: false,
            escape_consumed: false,
            pending_exit_confirmation: true,
            asks_confirmation: true,
        }
    }
}

impl<M, R, P, B, T> EditorInteractionState<M, R, P, B, T> {
    /// The state when the editor opens.
    pub fn new() -> (s: Self)
        ensures
            s.selected_entity is None,
            s.selected_entities@.len() == 0,
            !captures(s),
            !s.terrain_draw_mode,
            !s.escape_consumed,
            !s.pending_exit_confirmation,
            s.status_message@.len() == 0,
    {
        EditorInteractionState {
            selected_entity: None,
            selected_entities: Vec::new(),
            dragging_prefab: None,
            drag_preview_entity: None,
            moving_entity: None,
            rotating_entity: None,
            camera_panning: None,
            box_selection: None,
            terrain_draw_mode: false,
            terrain_drawing: None,
            escape_consumed: false,
            pending_exit_confirmation: false,
            status_message: String::new(),
        }
    }

    /// Whether a gesture (prefab drag, move, rotation, camera pan, box
    /// selection, terrain drawing) holds the pointer.
    pub fn captures_pointer(&self) -> (r: bool)
        ensures
            r == captures(*self),
    {
        self.dragging_prefab.is_some() || self.moving_entity.is_some()
            || self.rotating_entity.is_some() || self.camera_panning.is_some()
            || self.box_selection.is_some() || self.terrain_drawing.is_some()
    }

    /// Reads and clears the flag saying the editor already used this Esc.
    pub fn take_escape_consumed(&mut self) -> (consumed: bool)
        ensures
            consumed == old(self).escape_consumed,
            *final(self) == (EditorInteractionState { escape_consumed: false, ..*old(self) }),
    {
        let consumed = self.escape_consumed;
        self.escape_consumed = false;
        consumed
    }

    /// Selects exactly `entity`.
    pub fn select_entity(&mut self, entity: EntityId)
        ensures
            final(self).selected_entity == Some(entity),
            final(self).selected_entities@ == seq![entity],
            *final(self) == (EditorInteractionState {
                selected_entity: Some(entity),
                selected_entities: final(self).selected_entities,
                ..*old(self)
            }),
    {
        let mut entities: Vec<EntityId> = Vec::new();
        entities.push(entity);
        self.set_selection(entities);
    }

    /// Shows `message` in the status bar.
    pub fn set_status_message(&mut self, message: String)
        ensures
            *final(self) == (EditorInteractionState { status_message: message, ..*old(self) }),
    {
        self.status_message = message;
    }

    /// Asks to go back to the main menu: granted when nothing is unsaved or a
    /// confirmation is pending (which it clears); otherwise the confirmation
    /// becomes pending, the status bar asks for a second Esc, and the request
    /// is refused.
    pub fn request_exit_to_main_menu(&mut self, has_unsaved_changes: bool) -> (granted: bool)
        ensures
            granted == (!has_unsaved_changes || old(self).pending_exit_confirmation),
            final(self).pending_exit_confirmation == !granted,
            granted ==> final(self).status_message == old(self).status_message,
            !granted ==> final(self).status_message@ == unsaved_exit_message(),
            *final(self) == (EditorInteractionState {
                pending_exit_confirmation: !granted,
                status_message: final(self).status_message,
                ..*old(self)
            }),
    {
        if !has_unsaved_changes {
            self.pending_exit_confirmation = false;
            return true;
        }
        if self.pending_exit_confirmation {
            self.pending_exit_confirmation = false;
            return true;
        }
        self.pending_exit_confirmation = true;
        let mut message = String::new();
        push_str(&mut message, "当前场景存在未保存修改。再次按 Esc 确认退出。");
        self.status_message = message;
        false
    }

    /// Drops a pending exit confirmation.
    pub fn clear_exit_confirmation(&mut self)
        ensures
            *final(self) == (EditorInteractionState {
                pending_exit_confirmation: false,
                ..*old(self)
            }),
    {
        self.pending_exit_confirmation = false;
    }

    /// Selects `entities`; the first one is the primary selection.
    pub fn set_selection(&mut self, entities: Vec<EntityId>)
        ensures
            *final(self) == (EditorInteractionState {
                selected_entity: if entities@.len() > 0 {
                    Some(entities@[0])
                } else {
                    None
                },
                selected_entities: entities,
                ..*old(self)
            }),
    {
        self.selected_entity = if entities.len() > 0 {
            Some(entities[0])
        } else {
            None
        };
        self.selected_entities = entities;
    }

    /// Clears the selection.
    pub fn clear_selection(&mut self)
        ensures
            final(self).selected_entities@.len() == 0,
            *final(self) == (EditorInteractionState {
                selected_entity: None,
                selected_entities: final(self).selected_entities,
                ..*old(self)
            }),
    {
        self.selected_entity = None;
        self.selected_entities = Vec::new();
    }

    /// The entities a drag that starts on `entity` moves: `entity` first,
    /// then the rest of the selection when `entity` is selected; `entity`
    /// alone otherwise.
    pub fn selected_entities_for_move(&self, entity: EntityId) -> (moved: Vec<EntityId>)
        ensures
            moved@ == (if self.selected_entities@.contains(entity) {
                seq![entity] + self.selected_entities@.filter(|e: EntityId| e != entity)
            } else {
                seq![entity]
            }),
    {
        let mut k: usize = 0;
        while k < self.selected_entities.len() && self.selected_entities[k] != entity
            invariant
                k <= self.selected_entities@.len(),
                forall|j: int| 0 <= j < k ==> self.selected_entities@[j] != entity,
            decreases self.selected_entities@.len() - k,
        {
            k = k + 1;
        }
        let contains = k < self.selected_entities.len();
        assert(contains == self.selected_entities@.contains(entity)) by {
            if contains {
                assert(self.selected_entities@[k as int] == entity);
            }
        }
        let mut moved: Vec<EntityId> = Vec::new();
        moved.push(entity);
        if !contains {
            return moved;
        }
        let ghost keep = |e: EntityId| e != entity;
        let mut i: usize = 0;
        while i < self.selected_entities.len()
            invariant
                i <= self.selected_entities@.len(),
                keep == (|e: EntityId| e != entity),
                moved@ == seq![entity] + self.selected_entities@.take(i as int).filter(keep),
            decreases self.selected_entities@.len() - i,
        {
            let e = self.selected_entities[i];
            proof {
                let t = self.selected_entities@.take(i + 1);
                assert(t.drop_last() =~= self.selected_entities@.take(i as int));
                reveal_with_fuel(Seq::filter, 1);
                assert(t.last() == e);
            }
            if e != entity {
                moved.push(e);
            }
            proof {
                assert(moved@ =~= seq![entity] + self.selected_entities@.take(i + 1).filter(keep));
            }
            i = i + 1;
        }
        assert(self.selected_entities@.take(i as int) =~= self.selected_entities@);
        moved
    }

    /// Handles Esc for the editor (`in_editor`) or the game view: whether to
    /// go back to the main menu (see `escape_outcome`).
    pub fn handle_escape(&mut self, esc_pressed: bool, in_editor: bool, has_unsaved_changes: bool) -> (leave:
        bool)
        ensures
            ({
                let o = escape_outcome(
                    captures(*old(self)),
                    old(self).escape_consumed,
                    old(self).pending_exit_confirmation,
                    esc_pressed,
                    in_editor,
                    has_unsaved_changes,
                );
                &&& leave == o.leave
                &&& final(self).escape_consumed == o.escape_consumed
                &&& final(self).pending_exit_confirmation == o.pending_exit_confirmation
                &&& o.asks_confirmation ==> final(self).status_message@ == unsaved_exit_message()
                &&& !o.asks_confirmation ==> final(self).status_message == old(self).status_message
                &&& *final(self) == (EditorInteractionState {
                    escape_consumed: o.escape_consumed,
                    pending_exit_confirmation: o.pending_exit_confirmation,
                    status_message: final(self).status_message,
                    ..*old(self)
                })
            }),
    {
        if self.captures_pointer() {
            return false;
        }
        if self.take_escape_consumed() {
            return false;
        }
        if !esc_pressed {
            return false;
        }
        if in_editor {
            return self.request_exit_to_main_menu(has_unsaved_changes);
        }
        true
    }
}

/// Law: in the editor with unsaved changes, the first Esc asks for
/// confirmation and stays, a second Esc leaves; without unsaved changes one
/// Esc leaves.
pub proof fn law_escape_needs_confirmation(pending: bool)
    ensures
        ({
            let first = escape_outcome(false, false, false, true, true, true);
            let second = escape_outcome(
                false,
                first.escape_consumed,
                first.pending_exit_confirmation,
                true,
                true,
                true,
            );
            &&& !first.leave && first.asks_confirmation
            &&& second.leave && !second.pending_exit_confirmation
        }),
        escape_outcome(false, false, pending, true, true, false).leave,
{
}

//endregion

//region Undo history

/// The undo history in view form.
pub struct UndoView<S> {
    pub undo: Seq<S>,
    pub redo: Seq<S>,
    pub dirty: bool,
}

/// The history after recording the scene as it was before an edit.
pub open spec fn recorded<S>(h: UndoView<S>, before: S) -> UndoView<S> {
    UndoView { undo: h.undo.push(before), redo: Seq::empty(), dirty: true }
}

/// The history after an undo from the scene `current`, and the scene to
/// restore.
pub open spec fn undone<S>(h: UndoView<S>, current: S) -> (UndoView<S>, Option<S>) {
    if h.undo.len() == 0 {
        (h, None)
    } else {
        (
            UndoView { undo: h.undo.drop_last(), redo: h.redo.push(current), dirty: true },
            Some(h.undo.last()),
        )
    }
}

/// The history after a redo from the scene `current`, and the scene to
/// restore.
pub open spec fn redone<S>(h: UndoView<S>, current: S) -> (UndoView<S>, Option<S>) {
    if h.redo.len() == 0 {
        (h, None)
    } else {
        (
            UndoView { undo: h.undo.push(current), redo: h.redo.drop_last(), dirty: true },
            Some(h.redo.last()),
        )
    }
}

/// Snapshots of the scene before each edit, for undo and redo.
pub struct EditorUndoHistory<S> {
    pub undo_stack: Vec<S>,
    pub redo_stack: Vec<S>,
    /// Whether the scene changed since it was last saved or loaded.
    pub dirty: bool,
}

impl<S> EditorUndoHistory<S> {
    /// The view of the history.
    pub open spec fn view_history(&self) -> UndoView<S> {
        UndoView { undo: self.undo_stack@, redo: self.redo_stack@, dirty: self.dirty }
    }

    /// An empty, clean history.
    pub fn new() -> (h: Self)
        ensures
            h.view_history() == (UndoView::<S> {
                undo: Seq::empty(),
                redo: Seq::empty(),
                dirty: false,
            }),
    {
        EditorUndoHistory { undo_stack: Vec::new(), redo_stack: Vec::new(), dirty: false }
    }

    /// Whether the scene changed since it was last saved or loaded.
    pub fn has_unsaved_changes(&self) -> (r: bool)
        ensures
            r == self.dirty,
    {
        self.dirty
    }

    /// The scene was saved.
    pub fn mark_clean(&mut self)
        ensures
            final(self).view_history() == (UndoView {
                dirty: false,
                ..old(self).view_history()
            }),
    {
        self.dirty = false;
    }

    /// Forgets the whole history (a scene was loaded).
    pub fn clear(&mut self)
        ensures
            final(self).view_history() == (UndoView::<S> {
                undo: Seq::empty(),
                redo: Seq::empty(),
                dirty: false,
            }),
    {
        self.undo_stack.clear();
        self.redo_stack.clear();
        self.dirty = false;
    }

    /// Records the scene as it was before an edit.
    pub fn record(&mut self, before_scene: S)
        ensures
            final(self).view_history() == recorded(old(self).view_history(), before_scene),
    {
        self.undo_stack.push(before_scene);
        self.redo_stack.clear();
        self.dirty = true;
    }

    /// Undoes the last edit: returns the scene to restore, and keeps
    /// `current_scene` for redo; `None` when there is nothing to undo.
    pub fn undo(&mut self, current_scene: S) -> (restore: Option<S>)
        ensures
            (final(self).view_history(), restore) == undone(old(self).view_history(), current_scene),
    {
        match self.undo_stack.pop() {
            None => None,
            Some(previous) => {
                self.redo_stack.push(current_scene);
                self.dirty = true;
                Some(previous)
            },
        }
    }

    /// Redoes the last undone edit: returns the scene to restore, and keeps
    /// `current_scene` for undo; `None` when there is nothing to redo.
    pub fn redo(&mut self, current_scene: S) -> (restore: Option<S>)
        ensures
            (final(self).view_history(), restore) == redone(old(self).view_history(), current_scene),
    {
        match self.redo_stack.pop() {
            None => None,
            Some(next) => {
                self.undo_stack.push(current_scene);
                self.dirty = true;
                Some(next)
            },
        }
    }
}

/// Law: undo after recording gives back the recorded scene and restores the
/// undo stack; redo after undo gives back the scene the undo started from
/// and restores the undo stack as it was before.
pub proof fn law_undo_redo<S>(h: UndoView<S>, before: S, current: S, later: S)
    ensures
        undone(recorded(h, before), current).1 == Some(before),
        undone(recorded(h, before), current).0.undo == h.undo,
        undone(recorded(h, before), current).0.redo == seq![current],
        h.undo.len() > 0 ==> redone(undone(h, current).0, later).1 == Some(current),
        h.undo.len() > 0 ==> redone(undone(h, current).0, later).0.undo == h.undo.drop_last().push(
            later,
        ),
        h.undo.len() > 0 ==> redone(undone(h, current).0, later).0.redo == h.redo,
{
    assert(recorded(h, before).undo.drop_last() =~= h.undo);
    assert(Seq::<S>::empty().push(current) =~= seq![current]);
    if h.undo.len() > 0 {
        assert(h.redo.push(current).drop_last() =~= h.redo);
    }
}

/// Law: once an edit is recorded the scene is unsaved, so the first Esc in
/// the editor asks for confirmation instead of leaving; an undo keeps the
/// scene unsaved; a save (clean history) lets one Esc leave.
pub proof fn law_edit_needs_confirmation_to_leave<S>(h: UndoView<S>, before: S, current: S)
    ensures
        ({
            let edited = recorded(h, before);
            let first = escape_outcome(false, false, false, true, true, edited.dirty);
            &&& !first.leave
            &&& first.asks_confirmation
            &&& undone(edited, current).0.dirty
            &&& escape_outcome(false, false, false, true, true, false).leave
        }),
{
}

/// Law: recording an edit discards what could be redone and marks the scene
/// unsaved.
pub proof fn law_record_clears_redo<S>(h: UndoView<S>, before: S)
    ensures
        recorded(h, before).redo.len() == 0,
        recorded(h, before).dirty,
        redone(recorded(h, before), before).1 is None,
{
}

//endregion

//region Card order among intersecting cards

/// Direction of a stacking-order change.
#[derive(Clone, Copy, Debug, PartialEq, Eq, Structural)]
pub enum CardOrderDirection {
    Up,
    Down,
}

/// The test for the entity `e`.
pub open spec fn is_entity(e: EntityId) -> spec_fn(EntityId) -> bool {
    |x: EntityId| x == e
}

/// Index of the first occurrence of `e` in `s`, or -1.
pub open spec fn index_of(s: Seq<EntityId>, e: EntityId) -> int {
    crate::lookup::first_index(s, is_entity(e))
}

/// The position `target` moves to: `step_count` places up (at most to the
/// top) or down (at most to the bottom).
pub open spec fn shifted_position(
    len: int,
    current: int,
    direction: CardOrderDirection,
    step_count: int,
) -> int {
    match direction {
        CardOrderDirection::Up => if current + step_count < len - 1 {
            current + step_count
        } else {
            len - 1
        },
        CardOrderDirection::Down => if current - step_count > 0 {
            current - step_count
        } else {
            0
        },
    }
}

/// The new bottom-to-top order of a group of intersecting cards after
/// `target` moves `step_count` places in `direction`; empty when `target`
/// is not in the group or cannot move.
pub open spec fn shifted_order(
    ordered: Seq<EntityId>,
    target: EntityId,
    direction: CardOrderDirection,
    step_count: int,
) -> Seq<EntityId> {
    let i = index_of(ordered, target);
    if i < 0 {
        Seq::empty()
    } else {
        let j = shifted_position(ordered.len() as int, i, direction, step_count);
        if j == i {
            Seq::empty()
        } else {
            ordered.remove(i).insert(j, ordered[i])
        }
    }
}

/// Moves `target` within the bottom-to-top order `ordered` of its group of
/// intersecting cards; the cards then take the group's order slots in the
/// returned order. Empty when nothing moves.
pub fn shifted_card_order(
    ordered: &Vec<EntityId>,
    target: EntityId,
    direction: CardOrderDirection,
    step_count: usize,
) -> (order: Vec<EntityId>)
    ensures
        order@ == shifted_order(ordered@, target, direction, step_count as int),
{
    let ghost p = is_entity(target);
    let mut i: usize = 0;
    while i < ordered.len() && ordered[i] != target
        invariant
            i <= ordered@.len(),
            p == is_entity(target),
            forall|j: int| 0 <= j < i ==> !p(#[trigger] ordered@[j]),
        decreases ordered@.len() - i,
    {
        i = i + 1;
    }
    if i == ordered.len() {
        proof {
            crate::lookup::lemma_first_index_is(ordered@, p, -1);
        }
        return Vec::new();
    }
    proof {
        crate::lookup::lemma_first_index_is(ordered@, p, i as int);
    }
    let len = ordered.len();
    let next = match direction {
        CardOrderDirection::Up => if step_count < len - 1 - i {
            i + step_count
        } else {
            len - 1
        },
        CardOrderDirection::Down => if step_count < i {
            i - step_count
        } else {
            0
        },
    };
    if next == i {
        return Vec::new();
    }
    let mut order = ordered.clone();
    proof {
        assert(order@ =~= ordered@);
    }
    let moved = order.remove(i);
    order.insert(next, moved);
    order
}

/// Law: in a group without repeated cards, the card at position `i` moves by
/// exactly `step_count` places in `direction`, or as far as the group allows
/// (to the bottom or the top); the other cards keep their relative order.
/// When it cannot move (already at that end, or no step) the result is empty.
pub proof fn law_shift_moves_by_steps(
    ordered: Seq<EntityId>,
    i: int,
    direction: CardOrderDirection,
    step_count: int,
)
    requires
        ordered.no_duplicates(),
        0 <= i < ordered.len(),
        step_count >= 0,
    ensures
        ({
            let r = shifted_order(ordered, ordered[i], direction, step_count);
            let room = match direction {
                CardOrderDirection::Up => ordered.len() - 1 - i,
                CardOrderDirection::Down => i,
            };
            let d = if step_count < room {
                step_count
            } else {
                room
            };
            let p = match direction {
                CardOrderDirection::Up => i + d,
                CardOrderDirection::Down => i - d,
            };
            &&& d == 0 ==> r.len() == 0
            &&& d > 0 ==> r.len() == ordered.len() && r[p] == ordered[i] && r.remove(p)
                == ordered.remove(i)
        }),
{
    let target = ordered[i];
    assert forall|j: int| 0 <= j < i implies !is_entity(target)(#[trigger] ordered[j]) by {}
    crate::lookup::lemma_first_index_is(ordered, is_entity(target), i);
    let n = ordered.len() as int;
    let j = shifted_position(n, i, direction, step_count);
    if j != i {
        let removed = ordered.remove(i);
        let r = removed.insert(j, target);
        assert(r.remove(j) =~= removed);
    }
}

/// Law: a move keeps the group's cards (it is a permutation), and the
/// moved card lands at the shifted position.
pub proof fn law_shift_permutes(
    ordered: Seq<EntityId>,
    target: EntityId,
    direction: CardOrderDirection,
    step_count: int,
)
    requires
        step_count >= 0,
        shifted_order(ordered, target, direction, step_count).len() > 0,
    ensures
        ({
            let moved = shifted_order(ordered, target, direction, step_count);
            let i = index_of(ordered, target);
            let j = shifted_position(ordered.len() as int, i, direction, step_count);
            &&& moved.len() == ordered.len()
            &&& moved[j] == target
            &&& moved.to_multiset() == ordered.to_multiset()
        }),
{
    let i = index_of(ordered, target);
    crate::lookup::lemma_first_index(ordered, is_entity(target));
    let j = shifted_position(ordered.len() as int, i, direction, step_count);
    assert(i >= 0);
    assert(0 <= j < ordered.len());
    let removed = ordered.remove(i);
    assert(removed.len() == ordered.len() - 1);
    vstd::seq_lib::to_multiset_remove(ordered, i);
    vstd::seq_lib::to_multiset_insert(removed, j, ordered[i]);
    broadcast use vstd::multiset::group_multiset_axioms;
    vstd::seq_lib::to_multiset_contains(ordered, ordered[i]);
    assert(ordered.contains(ordered[i]));
    assert(ordered.to_multiset().remove(ordered[i]).insert(ordered[i]) =~= ordered.to_multiset());
}

//endregion

//region Intersecting card groups

/// Whether `adj` says that cards `a` and `b` intersect (an entry it lacks
/// says they do not).
pub open spec fn adj_at(adj: Seq<Vec<bool>>, a: int, b: int) -> bool {
    0 <= a < adj.len() && 0 <= b < adj[a]@.len() && adj[a]@[b]
}

/// Card `e` intersects card `f`: some card with id `f` intersects the first
/// card with id `e` (`adj[a][b]` says whether cards `a` and `b` intersect).
pub open spec fn intersect_edge(ids: Seq<EntityId>, adj: Seq<Vec<bool>>, e: EntityId, f: EntityId) -> bool {
    let c = index_of(ids, e);
    c >= 0 && exists|o: int| 0 <= o < ids.len() && ids[o] == f && #[trigger] adj_at(adj, c, o)
}

fn intersects_at(m: &Vec<Vec<bool>>, a: usize, b: usize) -> (r: bool)
    ensures
        r == adj_at(m@, a as int, b as int),
{
    a < m.len() && b < m[a].len() && m[a][b]
}

/// `p` is a chain of intersecting cards.
pub open spec fn is_chain(ids: Seq<EntityId>, adj: Seq<Vec<bool>>, p: Seq<EntityId>) -> bool {
    p.len() > 0 && forall|k: int|
        0 <= k < p.len() - 1 ==> #[trigger] intersect_edge(ids, adj, p[k], p[k + 1])
}

/// `x` is reached from `root` through a chain of intersecting cards.
pub open spec fn reachable(ids: Seq<EntityId>, adj: Seq<Vec<bool>>, root: EntityId, x: EntityId) -> bool {
    exists|p: Seq<EntityId>| #[trigger] is_chain(ids, adj, p) && p[0] == root && p.last() == x
}

proof fn lemma_chain_extend(ids: Seq<EntityId>, adj: Seq<Vec<bool>>, root: EntityId, x: EntityId, y: EntityId)
    requires
        reachable(ids, adj, root, x),
        intersect_edge(ids, adj, x, y),
    ensures
        reachable(ids, adj, root, y),
{
    let p = choose|p: Seq<EntityId>| #[trigger] is_chain(ids, adj, p) && p[0] == root && p.last() == x;
    let q = p.push(y);
    assert forall|k: int| 0 <= k < q.len() - 1 implies #[trigger] intersect_edge(ids, adj, q[k], q[k + 1]) by {
        if k < p.len() - 1 {
            assert(q[k] == p[k] && q[k + 1] == p[k + 1]);
            assert(intersect_edge(ids, adj, p[k], p[k + 1]));
        } else {
            assert(q[k] == x && q[k + 1] == y);
        }
    }
    assert(is_chain(ids, adj, q));
}

proof fn lemma_closed_holds_chain(ids: Seq<EntityId>, adj: Seq<Vec<bool>>, group: Seq<EntityId>, p: Seq<EntityId>, k: int)
    requires
        is_chain(ids, adj, p),
        group.contains(p[0]),
        forall|z: EntityId, y: EntityId|
            group.contains(z) && #[trigger] intersect_edge(ids, adj, z, y) ==> group.contains(y),
        0 <= k < p.len(),
    ensures
        group.contains(p[k]),
    decreases k,
{
    if k > 0 {
        lemma_closed_holds_chain(ids, adj, group, p, k - 1);
        let j = k - 1;
        assert(intersect_edge(ids, adj, p[j], p[j + 1]));
        assert(p[j + 1] == p[k]);
    }
}

proof fn lemma_group_bound(group: Seq<EntityId>, ids: Seq<EntityId>, root: EntityId)
    requires
        group.no_duplicates(),
        forall|i: int| 0 <= i < group.len() ==> #[trigger] group[i] == root || ids.contains(group[i]),
    ensures
        group.len() <= ids.len() + 1,
{
    let all = ids.push(root);
    group.unique_seq_to_set();
    all.lemma_cardinality_of_set();
    assert(group.to_set().subset_of(all.to_set())) by {
        assert forall|x: EntityId| group.to_set().contains(x) implies all.to_set().contains(x) by {
            let i = choose|i: int| 0 <= i < group.len() && group[i] == x;
            if group[i] == root {
                assert(all[ids.len() as int] == root);
            } else {
                let j = choose|j: int| 0 <= j < ids.len() && ids[j] == x;
                assert(all[j] == x);
            }
        }
    }
    vstd::set_lib::lemma_len_subset(group.to_set(), all.to_set());
}

fn contains_from(v: &Vec<EntityId>, from: usize, e: EntityId) -> (r: bool)
    requires
        from <= v@.len(),
    ensures
        r == v@.subrange(from as int, v@.len() as int).contains(e),
{
    let mut i = from;
    while i < v.len()
        invariant
            from <= i <= v@.len(),
            forall|j: int| from <= j < i ==> v@[j] != e,
        decreases v@.len() - i,
    {
        if v[i] == e {
            assert(v@.subrange(from as int, v@.len() as int)[i - from] == e);
            return true;
        }
        i = i + 1;
    }
    assert(!v@.subrange(from as int, v@.len() as int).contains(e)) by {
        if v@.subrange(from as int, v@.len() as int).contains(e) {
            let k = choose|k: int| 0 <= k < v@.len() - from && #[trigger] v@.subrange(from as int, v@.len() as int)[k] == e;
            assert(v@[from + k] == e);
        }
    }
    false
}

/// The cards connected to `root` through chains of intersecting cards
/// (`intersects[a][b]` says whether cards `a` and `b`, with ids
/// `card_ids[a]` and `card_ids[b]`, intersect), in breadth-first order
/// from `root`.
pub fn connected_intersecting_card_group(
    root: EntityId,
    card_ids: &Vec<EntityId>,
    intersects: &Vec<Vec<bool>>,
) -> (group: Vec<EntityId>)
    ensures
        group@.len() > 0,
        group@[0] == root,
        group@.no_duplicates(),
        forall|x: EntityId| group@.contains(x) <==> reachable(card_ids@, intersects@, root, x),
{
    let ghost ids = card_ids@;
    let ghost adj = intersects@;
    let mut group: Vec<EntityId> = Vec::new();
    let mut queue: Vec<EntityId> = Vec::new();
    queue.push(root);
    let mut head: usize = 0;
    proof {
        let p = seq![root];
        assert(is_chain(ids, adj, p));
        assert(reachable(ids, adj, root, root));
    }
    while head < queue.len()
        invariant
            ids == card_ids@,
            adj == intersects@,
            head <= queue@.len(),
            group@.no_duplicates(),
            (group@.len() == 0 && head == 0 && queue@ == seq![root]) || (group@.len() > 0
                && group@[0] == root),
            forall|i: int| 0 <= i < group@.len() ==> #[trigger] group@[i] == root || ids.contains(group@[i]),
            forall|i: int| 0 <= i < queue@.len() ==> #[trigger] queue@[i] == root || ids.contains(queue@[i]),
            forall|x: EntityId| #[trigger] group@.contains(x) ==> reachable(ids, adj, root, x),
            forall|i: int| head <= i < queue@.len() ==> reachable(ids, adj, root, #[trigger] queue@[i]),
            forall|i: int| 0 <= i < head ==> group@.contains(#[trigger] queue@[i]),
            forall|z: EntityId, y: EntityId|
                group@.contains(z) && #[trigger] intersect_edge(ids, adj, z, y) ==> group@.contains(y)
                    || queue@.subrange(head as int, queue@.len() as int).contains(y),
        decreases card_ids@.len() + 1 - group@.len(), queue@.len() - head,
    {
        proof {
            lemma_group_bound(group@, ids, root);
        }
        let entity = queue[head];
        head = head + 1;
        let mut in_group = false;
        let mut g: usize = 0;
        while g < group.len() && group[g] != entity
            invariant
                g <= group@.len(),
                forall|j: int| 0 <= j < g ==> group@[j] != entity,
            decreases group@.len() - g,
        {
            g = g + 1;
        }
        if g < group.len() {
            proof {
                assert(group@[g as int] == entity);
                assert forall|z: EntityId, y: EntityId|
                    group@.contains(z) && #[trigger] intersect_edge(ids, adj, z, y) implies group@.contains(y)
                        || queue@.subrange(head as int, queue@.len() as int).contains(y) by {
                    if !group@.contains(y) {
                        let k = choose|k: int| 0 <= k < queue@.len() - (head - 1) && #[trigger] queue@.subrange(head - 1, queue@.len() as int)[k] == y;
                        if k == 0 {
                            assert(y == entity);
                        } else {
                            assert(queue@.subrange(head as int, queue@.len() as int)[k - 1] == y);
                        }
                    }
                }
            }
            continue;
        }
        let ghost group_before = group@;
        group.push(entity);
        proof {
            assert(reachable(ids, adj, root, entity));
            assert(!group_before.contains(entity)) by {
                if group_before.contains(entity) {
                    let j = choose|j: int| 0 <= j < group_before.len() && group_before[j] == entity;
                }
            }
            assert(group@.no_duplicates()) by {
                assert forall|i: int, j: int| 0 <= i < group@.len() && 0 <= j < group@.len() && i != j
                    implies group@[i] != group@[j] by {
                    if i < group_before.len() && j < group_before.len() {
                        assert(group@[i] == group_before[i] && group@[j] == group_before[j]);
                    } else if i == group_before.len() {
                        assert(group@[j] == group_before[j]);
                    } else {
                        assert(group@[i] == group_before[i]);
                    }
                }
            }
            assert forall|x: EntityId| #[trigger] group@.contains(x) implies reachable(ids, adj, root, x) by {
                if x != entity {
                    let j = choose|j: int| 0 <= j < group@.len() && group@[j] == x;
                    assert(group_before[j] == x);
                    assert(group_before.contains(x));
                }
            }
            lemma_group_bound(group@, ids, root);
            assert forall|i: int| 0 <= i < head implies group@.contains(#[trigger] queue@[i]) by {
                if i < head - 1 {
                    let j = choose|j: int| 0 <= j < group_before.len() && group_before[j] == queue@[i];
                    assert(group@[j] == queue@[i]);
                } else {
                    assert(group@[group_before.len() as int] == entity);
                }
            }
        }
        let ghost pe = is_entity(entity);
        let mut c: usize = 0;
        while c < card_ids.len() && card_ids[c] != entity
            invariant
                c <= card_ids@.len(),
                pe == is_entity(entity),
                forall|j: int| 0 <= j < c ==> !pe(#[trigger] card_ids@[j]),
            decreases card_ids@.len() - c,
        {
            c = c + 1;
        }
        if c == card_ids.len() {
            proof {
                crate::lookup::lemma_first_index_is(ids, pe, -1);
                assert forall|z: EntityId, y: EntityId|
                    group@.contains(z) && #[trigger] intersect_edge(ids, adj, z, y) implies group@.contains(y)
                        || queue@.subrange(head as int, queue@.len() as int).contains(y) by {
                    if z == entity {
                        assert(index_of(ids, entity) == -1);
                    } else {
                        let j = choose|j: int| 0 <= j < group@.len() && group@[j] == z;
                        assert(group_before[j] == z);
                        assert(group_before.contains(z));
                        if !group_before.contains(y) {
                            let k = choose|k: int| 0 <= k < queue@.len() - (head - 1) && #[trigger] queue@.subrange(head - 1, queue@.len() as int)[k] == y;
                            if k == 0 {
                                assert(y == entity);
                                assert(group@[group_before.len() as int] == y);
                            } else {
                                assert(queue@.subrange(head as int, queue@.len() as int)[k - 1] == y);
                            }
                        } else {
                            let j2 = choose|j2: int| 0 <= j2 < group_before.len() && group_before[j2] == y;
                            assert(group@[j2] == y);
                        }
                    }
                }
            }
            continue;
        }
        proof {
            crate::lookup::lemma_first_index_is(ids, pe, c as int);
            assert(index_of(ids, entity) == c);
        }
        let ghost queue_start = queue@;
        let mut o: usize = 0;
        while o < card_ids.len()
            invariant
                ids == card_ids@,
                adj == intersects@,
                c < card_ids@.len(),
                index_of(ids, entity) == c,
                reachable(ids, adj, root, entity),
                o <= card_ids@.len(),
                1 <= head <= queue_start.len() <= queue@.len(),
                queue@.subrange(0, queue_start.len() as int) == queue_start,
                group@.contains(entity),
                forall|i: int| 0 <= i < queue@.len() ==> #[trigger] queue@[i] == root || ids.contains(queue@[i]),
                forall|i: int| head <= i < queue@.len() ==> reachable(ids, adj, root, #[trigger] queue@[i]),
                forall|p: int| 0 <= p < o && #[trigger] adj_at(adj, c as int, p) ==> group@.contains(card_ids@[p])
                    || queue@.subrange(head as int, queue@.len() as int).contains(card_ids@[p]),
            decreases card_ids@.len() - o,
        {
            let other = card_ids[o];
            let ghost queue_before = queue@;
            let seen = contains_from(&group, 0, other) || contains_from(&queue, head, other);
            proof {
                assert(group@.subrange(0, group@.len() as int) =~= group@);
            }
            if !seen && intersects_at(intersects, c, o) {
                queue.push(other);
                proof {
                    assert(intersect_edge(ids, adj, entity, other));
                    lemma_chain_extend(ids, adj, root, entity, other);
                    assert(ids.contains(other)) by {
                        assert(ids[o as int] == other);
                    }
                    assert(queue@.subrange(0, queue_start.len() as int) =~= queue_before.subrange(0, queue_start.len() as int));
                    assert forall|p: int| 0 <= p < o + 1 && #[trigger] adj_at(adj, c as int, p) implies group@.contains(card_ids@[p])
                        || queue@.subrange(head as int, queue@.len() as int).contains(card_ids@[p]) by {
                        if p == o {
                            assert(queue@.subrange(head as int, queue@.len() as int)[queue@.len() - 1 - head] == other);
                        } else if !group@.contains(card_ids@[p]) {
                            let k = choose|k: int| 0 <= k < queue_before.len() - head && #[trigger] queue_before.subrange(head as int, queue_before.len() as int)[k] == card_ids@[p];
                            assert(queue@.subrange(head as int, queue@.len() as int)[k] == card_ids@[p]);
                        }
                    }
                }
            }
            o = o + 1;
        }
        proof {
            assert forall|z: EntityId, y: EntityId|
                group@.contains(z) && #[trigger] intersect_edge(ids, adj, z, y) implies group@.contains(y)
                    || queue@.subrange(head as int, queue@.len() as int).contains(y) by {
                if z == entity {
                    let w = choose|w: int| 0 <= w < ids.len() && ids[w] == y && #[trigger] adj_at(adj, c as int, w);
                    assert(adj_at(adj, c as int, w));
                } else {
                    let j = choose|j: int| 0 <= j < group@.len() && group@[j] == z;
                    assert(group_before[j] == z);
                    assert(group_before.contains(z));
                    if group_before.contains(y) {
                        let j2 = choose|j2: int| 0 <= j2 < group_before.len() && group_before[j2] == y;
                        assert(group@[j2] == y);
                    } else {
                        let k = choose|k: int| 0 <= k < queue_start.len() - (head - 1) && #[trigger] queue_start.subrange(head - 1, queue_start.len() as int)[k] == y;
                        if k == 0 {
                            assert(y == entity);
                        } else {
                            assert(queue_start[head - 1 + k] == y);
                            assert(queue@[head - 1 + k] == y);
                            assert(queue@.subrange(head as int, queue@.len() as int)[k - 1] == y);
                        }
                    }
                }
            }
            assert forall|i: int| 0 <= i < head implies group@.contains(#[trigger] queue@[i]) by {
                assert(queue@[i] == queue_start[i]);
            }
        }
    }
    proof {
        assert forall|x: EntityId| reachable(ids, adj, root, x) implies group@.contains(x) by {
            let p = choose|p: Seq<EntityId>| #[trigger] is_chain(ids, adj, p) && p[0] == root && p.last() == x;
            assert(group@[0] == root);
            assert(group@.contains(root));
            assert forall|z: EntityId, y: EntityId|
                group@.contains(z) && #[trigger] intersect_edge(ids, adj, z, y) implies group@.contains(y) by {
                if !group@.contains(y) {
                    let k = choose|k: int| 0 <= k < queue@.len() - head && #[trigger] queue@.subrange(head as int, queue@.len() as int)[k] == y;
                }
            }
            lemma_closed_holds_chain(ids, adj, group@, p, p.len() - 1);
        }
    }
    group
}

//endregion

//region Axis lock

/// Axis a move is locked to while Shift is held.
#[derive(Clone, Copy, Debug, PartialEq, Eq, Structural)]
pub enum EditorAxisLock {
    Unlocked,
    Horizontal,
    Vertical,
}

/// Updates the axis lock of a move: released without Shift; kept once
/// chosen; otherwise chosen along the dominant direction of the move so far
/// (`horizontal_dominant`: the horizontal distance is at least the vertical
/// one).
pub fn update_editor_axis_lock(
    axis_lock: &mut EditorAxisLock,
    shift_pressed: bool,
    horizontal_dominant: bool,
) -> (lock: EditorAxisLock)
    ensures
        lock == *final(axis_lock),
        !shift_pressed ==> lock == EditorAxisLock::Unlocked,
        shift_pressed && *old(axis_lock) != EditorAxisLock::Unlocked ==> lock == *old(axis_lock),
        shift_pressed && *old(axis_lock) == EditorAxisLock::Unlocked ==> lock == (if horizontal_dominant {
            EditorAxisLock::Horizontal
        } else {
            EditorAxisLock::Vertical
        }),
{
    if !shift_pressed {
        *axis_lock = EditorAxisLock::Unlocked;
        return EditorAxisLock::Unlocked;
    }
    if *axis_lock != EditorAxisLock::Unlocked {
        return *axis_lock;
    }
    *axis_lock = if horizontal_dominant {
        EditorAxisLock::Horizontal
    } else {
        EditorAxisLock::Vertical
    };
    *axis_lock
}

//endregion

//region Prefab list

/// One entry of the editor's prefab list.
pub struct PrefabPreviewItem {
    pub id: u32,
    pub title: String,
    pub fill: CardFillColorPlan,
}

/// The editor's prefab list: for each prefab, in order, its id, the title
/// of its appearance and where its fill color comes from (its appearance's
/// color override first, then its kind). `decodes[i]` tells whether the
/// specialized payload of prefab `i` decodes (see `load_specialized_config`);
/// a prefab past its end counts as not decoding.
pub fn prefab_preview_items(
    card_presets_config: &CardPresetsConfig,
    card_specialized_registry: &CardSpecializedRegistry,
    decodes: &Vec<bool>,
) -> (items: Vec<PrefabPreviewItem>)
    ensures
        items@.len() == card_presets_config.prefabs@.len(),
        forall|i: int|
            0 <= i < items@.len() ==> {
                let param = CardParam {
                    prefab_id: card_presets_config.prefabs@[i].id,
                    runtime_specialized_param: None,
                };
                let ai = card_appearance_index(param, *card_presets_config);
                &&& (#[trigger] items@[i]).id == card_presets_config.prefabs@[i].id
                &&& ai >= 0 ==> items@[i].title == card_presets_config.appearances@[ai].title
                &&& ai < 0 ==> items@[i].title@ == "Placeholder"@
                &&& match items@[i].fill.appearance_override {
                    None => appearance_override(param, *card_presets_config) is None,
                    Some(o) => appearance_override(param, *card_presets_config) == Some(o@),
                }
                &&& items@[i].fill.kind == loaded_kind(
                    param,
                    *card_presets_config,
                    i < decodes@.len() && decodes@[i],
                )
            },
{
    let mut items: Vec<PrefabPreviewItem> = Vec::new();
    let mut i: usize = 0;
    while i < card_presets_config.prefabs.len()
        invariant
            i <= card_presets_config.prefabs@.len(),
            items@.len() == i,
            forall|j: int|
                0 <= j < i ==> {
                    let param = CardParam {
                        prefab_id: card_presets_config.prefabs@[j].id,
                        runtime_specialized_param: None,
                    };
                    let ai = card_appearance_index(param, *card_presets_config);
                    &&& (#[trigger] items@[j]).id == card_presets_config.prefabs@[j].id
                    &&& ai >= 0 ==> items@[j].title == card_presets_config.appearances@[ai].title
                    &&& ai < 0 ==> items@[j].title@ == "Placeholder"@
                    &&& match items@[j].fill.appearance_override {
                        None => appearance_override(param, *card_presets_config) is None,
                        Some(o) => appearance_override(param, *card_presets_config) == Some(o@),
                    }
                    &&& items@[j].fill.kind == loaded_kind(
                        param,
                        *card_presets_config,
                        j < decodes@.len() && decodes@[j],
                    )
                },
        decreases card_presets_config.prefabs@.len() - i,
    {
        let id = card_presets_config.prefabs[i].id;
        let param = CardParam { prefab_id: id, runtime_specialized_param: None };
        let appearance = param.load_appearance(card_presets_config);
        let decoded = i < decodes.len() && decodes[i];
        let fill = param.fill_color_plan(card_presets_config, card_specialized_registry, decoded);
        items.push(PrefabPreviewItem { id, title: appearance.title, fill });
        i = i + 1;
    }
    items
}

//endregion

//region Scene files

/// Formats of scene files.
#[derive(Clone, Copy, Debug, PartialEq, Eq, Structural)]
pub enum SceneFileFormat {
    Toml,
}

/// ASCII lower case of a character.
pub open spec fn ascii_lower(c: char) -> char {
    if 'A' <= c && c <= 'Z' {
        ((c as u32) + 32) as char
    } else {
        c
    }
}

/// ASCII lower case of a text.
pub open spec fn ascii_lowered(s: Seq<char>) -> Seq<char> {
    Seq::new(s.len(), |i: int| ascii_lower(s[i]))
}

/// Whether an extension names the TOML format.
pub open spec fn is_toml_extension(extension: Option<&str>) -> bool {
    match extension {
        Some(e) => ascii_lowered(e@) == "toml"@,
        None => false,
    }
}

/// The message for a scene file whose format is not supported.
pub open spec fn unsupported_format_message(path: Seq<char>) -> Seq<char> {
    "文件格式不受支持 "@ + path + "：请使用 .toml"@
}

/// The ASCII lower case of `c`, as `char::to_ascii_lowercase` gives it.
fn lower_ascii(c: char) -> (l: char)
    ensures
        l == ascii_lower(c),
{
    if 'A' <= c && c <= 'Z' {
        let code: u8 = c as u8;
        ((code + 32) as char)
    } else {
        c
    }
}

/// The format of a scene file from its extension (`path` is shown in the
/// error): `toml` in any ASCII case is supported.
pub fn scene_file_format_from_extension(extension: Option<&str>, path: &str) -> (format: Result<
    SceneFileFormat,
    String,
>)
    ensures
        match format {
            Ok(f) => f == SceneFileFormat::Toml && is_toml_extension(extension),
            Err(message) => message@ == unsupported_format_message(path@) && !is_toml_extension(
                extension,
            ),
        },
{
    let mut message = String::new();
    push_str(&mut message, "文件格式不受支持 ");
    push_str(&mut message, path);
    push_str(&mut message, "：请使用 .toml");
    assert(message@ =~= unsupported_format_message(path@));
    let ext = match extension {
        Some(e) => e,
        None => {
            return Err(message);
        },
    };
    let cs = chars_of(ext);
    let toml = chars_of("toml");
    let ghost lowered = ascii_lowered(ext@);
    if cs.len() != toml.len() {
        assert(lowered.len() == cs@.len());
        assert(lowered != "toml"@);
        return Err(message);
    }
    let mut i: usize = 0;
    while i < cs.len()
        invariant
            cs@ == ext@,
            extension == Some(ext),
            message@ == unsupported_format_message(path@),
            toml@ == "toml"@,
            cs@.len() == toml@.len(),
            lowered == ascii_lowered(ext@),
            i <= cs@.len(),
            forall|j: int| 0 <= j < i ==> lowered[j] == toml@[j],
        decreases cs@.len() - i,
    {
        if lower_ascii(cs[i]) != toml[i] {
            assert(lowered[i as int] != toml@[i as int]);
            return Err(message);
        }
        i = i + 1;
    }
    assert(lowered =~= toml@);
    Ok(SceneFileFormat::Toml)
}

//endregion

} // verus!
