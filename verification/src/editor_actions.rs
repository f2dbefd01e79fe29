//! What the editor's pointer gestures, shortcuts and toolbar buttons do to
//! its interaction state and undo history, and the status messages they
//! leave. The geometry of a gesture (cursor positions, angles, hit tests) is
//! worked out by the caller, which hands over what it found.
use crate::editor::{EditorInteractionState, EditorUndoHistory, UndoView, recorded, redone, undone};
use crate::interaction::EntityId;
use crate::text::{chars_of, decimal, has_prefix, has_prefix_exec, push_decimal, push_str};
use vstd::prelude::*;

verus! {

//region Pointer gestures on the scene

/// What a primary press on the scene starts.
#[derive(Clone, Copy, Debug, PartialEq, Eq, Structural)]
pub enum EditorPress {
    /// Rotating the selected card by its handle.
    Rotate(EntityId),
    /// Moving the pressed card, with the selection it belongs to.
    Move(EntityId),
    /// Selecting the terrain under the pointer.
    SelectTerrain(EntityId),
    /// Drawing a selection box.
    BoxSelect,
    /// Nothing: Ctrl is held over empty ground.
    Nothing,
}

/// The gesture a press starts: the rotation handle of the selected card
/// comes first, then the pressed card, then the terrain under the pointer;
/// on empty ground a selection box, unless Ctrl is held.
pub open spec fn press_gesture(
    selected: Option<EntityId>,
    on_rotation_handle: bool,
    card: Option<EntityId>,
    terrain: Option<EntityId>,
    ctrl_pressed: bool,
) -> EditorPress {
    match (selected, card, terrain) {
        (Some(s), _, _) if on_rotation_handle => EditorPress::Rotate(s),
        (_, Some(c), _) => EditorPress::Move(c),
        (_, None, Some(t)) => EditorPress::SelectTerrain(t),
        _ => if ctrl_pressed {
            EditorPress::Nothing
        } else {
            EditorPress::BoxSelect
        },
    }
}

/// The gesture that a primary release ends.
pub enum ReleasedGesture<M, R, B> {
    Move(M),
    Rotation(R),
    BoxSelection(B),
    Nothing,
}

/// "已移动 n 张卡牌" for several cards, "卡牌位置已更新" for one.
pub open spec fn moved_cards_message(count: nat) -> Seq<char> {
    if count > 1 {
        "已移动 "@ + decimal(count) + " 张卡牌"@
    } else {
        "卡牌位置已更新"@
    }
}

/// "已框选 n 张卡牌".
pub open spec fn box_selected_message(count: nat) -> Seq<char> {
    "已框选 "@ + decimal(count) + " 张卡牌"@
}

impl<M, R, P, B, T> EditorInteractionState<M, R, P, B, T> {
    /// A primary press on the scene (not on the camera reset button): drops
    /// a pending exit confirmation and says which gesture starts (see
    /// `press_gesture`). `on_rotation_handle` tells whether the pointer is
    /// on the rotation handle of the selected card.
    pub fn press(
        &mut self,
        on_rotation_handle: bool,
        card: Option<EntityId>,
        terrain: Option<EntityId>,
        ctrl_pressed: bool,
    ) -> (gesture: EditorPress)
        ensures
            gesture == press_gesture(
                old(self).selected_entity,
                on_rotation_handle,
                card,
                terrain,
                ctrl_pressed,
            ),
            *final(self) == (EditorInteractionState {
                pending_exit_confirmation: false,
                ..*old(self)
            }),
    {
        self.pending_exit_confirmation = false;
        match self.selected_entity {
            Some(s) => {
                if on_rotation_handle {
                    return EditorPress::Rotate(s);
                }
            },
            None => {},
        }
        match card {
            Some(c) => EditorPress::Move(c),
            None => match terrain {
                Some(t) => EditorPress::SelectTerrain(t),
                None => if ctrl_pressed {
                    EditorPress::Nothing
                } else {
                    EditorPress::BoxSelect
                },
            },
        }
    }

    /// Starts rotating a card.
    pub fn begin_rotation(&mut self, rotating: R)
        ensures
            final(self).status_message@ == "正在旋转卡牌"@,
            *final(self) == (EditorInteractionState {
                rotating_entity: Some(rotating),
                moving_entity: None,
                box_selection: None,
                status_message: final(self).status_message,
                ..*old(self)
            }),
    {
        self.rotating_entity = Some(rotating);
        self.moving_entity = None;
        self.box_selection = None;
        self.status_message = "正在旋转卡牌".to_owned();
    }

    /// Starts moving `entities` (the pressed card first, see
    /// `selected_entities_for_move`), which become the selection; the status
    /// names the pressed card by `card_label` (how the caller writes its
    /// entity).
    pub fn begin_move(&mut self, moving: M, entities: Vec<EntityId>, card_label: &str)
        ensures
            final(self).selected_entities@ == entities@,
            final(self).status_message@ == "已选中卡牌 #"@ + card_label@ + "，拖动中"@,
            *final(self) == (EditorInteractionState {
                moving_entity: Some(moving),
                rotating_entity: None,
                box_selection: None,
                selected_entity: if entities@.len() > 0 {
                    Some(entities@[0])
                } else {
                    None
                },
                selected_entities: final(self).selected_entities,
                status_message: final(self).status_message,
                ..*old(self)
            }),
    {
        self.set_selection(entities);
        self.rotating_entity = None;
        self.box_selection = None;
        self.moving_entity = Some(moving);
        let mut message = String::new();
        push_str(&mut message, "已选中卡牌 #");
        push_str(&mut message, card_label);
        push_str(&mut message, "，拖动中");
        self.status_message = message;
    }

    /// Selects the terrain `terrain` and ends the card gestures; the status
    /// names it by `terrain_label` (how the caller writes its entity).
    pub fn begin_terrain_selection(&mut self, terrain: EntityId, terrain_label: &str)
        ensures
            final(self).selected_entities@ == seq![terrain],
            final(self).status_message@ == "已选中地形 #"@ + terrain_label@,
            *final(self) == (EditorInteractionState {
                selected_entity: Some(terrain),
                selected_entities: final(self).selected_entities,
                moving_entity: None,
                rotating_entity: None,
                box_selection: None,
                status_message: final(self).status_message,
                ..*old(self)
            }),
    {
        self.select_entity(terrain);
        self.rotating_entity = None;
        self.moving_entity = None;
        self.box_selection = None;
        let mut message = String::new();
        push_str(&mut message, "已选中地形 #");
        push_str(&mut message, terrain_label);
        self.status_message = message;
    }

    /// Starts a selection box.
    pub fn begin_box_selection(&mut self, selection_box: B)
        ensures
            final(self).status_message@ == "正在框选卡牌"@,
            *final(self) == (EditorInteractionState {
                box_selection: Some(selection_box),
                moving_entity: None,
                rotating_entity: None,
                status_message: final(self).status_message,
                ..*old(self)
            }),
    {
        self.rotating_entity = None;
        self.moving_entity = None;
        self.box_selection = Some(selection_box);
        self.status_message = "正在框选卡牌".to_owned();
    }

    /// A primary release: unless a prefab is being dragged, takes the
    /// gesture in progress, a move before a rotation before a selection box.
    pub fn release_primary(&mut self) -> (released: ReleasedGesture<M, R, B>)
        ensures
            old(self).dragging_prefab is Some ==> released is Nothing,
            old(self).dragging_prefab is Some ==> *final(self) == *old(self),
            old(self).dragging_prefab is None ==> match (
                old(self).moving_entity,
                old(self).rotating_entity,
                old(self).box_selection,
            ) {
                (Some(m), _, _) => released == ReleasedGesture::<M, R, B>::Move(m) && *final(self)
                    == (EditorInteractionState { moving_entity: None, ..*old(self) }),
                (None, Some(r), _) => released == ReleasedGesture::<M, R, B>::Rotation(r)
                    && *final(self) == (EditorInteractionState {
                    rotating_entity: None,
                    ..*old(self)
                }),
                (None, None, Some(b)) => released == ReleasedGesture::<M, R, B>::BoxSelection(b)
                    && *final(self) == (EditorInteractionState {
                    box_selection: None,
                    ..*old(self)
                }),
                (None, None, None) => released is Nothing && *final(self) == *old(self),
            },
    {
        if self.dragging_prefab.is_some() {
            return ReleasedGesture::Nothing;
        }
        match self.moving_entity.take() {
            Some(m) => ReleasedGesture::Move(m),
            None => match self.rotating_entity.take() {
                Some(r) => ReleasedGesture::Rotation(r),
                None => match self.box_selection.take() {
                    Some(b) => ReleasedGesture::BoxSelection(b),
                    None => ReleasedGesture::Nothing,
                },
            },
        }
    }

    /// A finished move of `moved_count` cards: when it changed the scene,
    /// the scene before it goes to the undo history, a pending exit
    /// confirmation is dropped and the status tells what moved.
    pub fn conclude_move<S>(
        &mut self,
        history: &mut EditorUndoHistory<S>,
        before_scene: S,
        changed: bool,
        moved_count: usize,
    )
        ensures
            changed ==> final(history).view_history() == recorded(
                old(history).view_history(),
                before_scene,
            ),
            changed ==> *final(self) == (EditorInteractionState {
                pending_exit_confirmation: false,
                status_message: final(self).status_message,
                ..*old(self)
            }),
            changed ==> final(self).status_message@ == moved_cards_message(moved_count as nat),
            !changed ==> *final(history) == *old(history) && *final(self) == *old(self),
    {
        if changed {
            history.record(before_scene);
            self.pending_exit_confirmation = false;
            let mut message = String::new();
            if moved_count > 1 {
                push_str(&mut message, "已移动 ");
                push_decimal(&mut message, moved_count as u64);
                push_str(&mut message, " 张卡牌");
            } else {
                push_str(&mut message, "卡牌位置已更新");
            }
            self.status_message = message;
        }
    }

    /// A finished rotation: when it changed the scene, the scene before it
    /// goes to the undo history, a pending exit confirmation is dropped and
    /// the status says so.
    pub fn conclude_rotation<S>(
        &mut self,
        history: &mut EditorUndoHistory<S>,
        before_scene: S,
        changed: bool,
    )
        ensures
            changed ==> final(history).view_history() == recorded(
                old(history).view_history(),
                before_scene,
            ),
            changed ==> *final(self) == (EditorInteractionState {
                pending_exit_confirmation: false,
                status_message: final(self).status_message,
                ..*old(self)
            }),
            changed ==> final(self).status_message@ == "卡牌旋转已更新"@,
            !changed ==> *final(history) == *old(history) && *final(self) == *old(self),
    {
        if changed {
            history.record(before_scene);
            self.pending_exit_confirmation = false;
            self.status_message = "卡牌旋转已更新".to_owned();
        }
    }

    /// A finished selection box holding `entities`: they become the
    /// selection, or the selection is cleared when the box caught nothing.
    pub fn conclude_box_selection(&mut self, entities: Vec<EntityId>)
        ensures
            final(self).selected_entities@ == entities@,
            entities@.len() == 0 ==> final(self).status_message@ == "框选区域内没有卡牌"@,
            entities@.len() > 0 ==> final(self).status_message@ == box_selected_message(
                entities@.len(),
            ),
            *final(self) == (EditorInteractionState {
                selected_entity: if entities@.len() > 0 {
                    Some(entities@[0])
                } else {
                    None
                },
                selected_entities: final(self).selected_entities,
                status_message: final(self).status_message,
                ..*old(self)
            }),
    {
        let count = entities.len();
        if count == 0 {
            self.clear_selection();
            self.status_message = "框选区域内没有卡牌".to_owned();
        } else {
            self.set_selection(entities);
            let mut message = String::new();
            push_str(&mut message, "已框选 ");
            push_decimal(&mut message, count as u64);
            push_str(&mut message, " 张卡牌");
            self.status_message = message;
        }
    }
}

//endregion

//region Deleting the selection

/// `done` followed by the entities of `links` that are not in it yet, each
/// once, in order.
pub open spec fn with_fresh(done: Seq<EntityId>, links: Seq<EntityId>) -> Seq<EntityId>
    decreases links.len(),
{
    if links.len() == 0 {
        done
    } else {
        let d = with_fresh(done, links.drop_last());
        if d.contains(links.last()) {
            d
        } else {
            d.push(links.last())
        }
    }
}

/// The entities that deleting the entities of `targets` (each with the
/// entities linked to it) despawns, in order: each entity once; a deleted
/// entity already despawned as a link of an earlier one is skipped with its
/// own links.
pub open spec fn despawn_list(targets: Seq<(EntityId, Vec<EntityId>)>) -> Seq<EntityId>
    decreases targets.len(),
{
    if targets.len() == 0 {
        Seq::empty()
    } else {
        let d = despawn_list(targets.drop_last());
        let (e, links) = targets.last();
        if d.contains(e) {
            d
        } else {
            with_fresh(d.push(e), links@)
        }
    }
}

/// Whether `entities` holds `e`.
fn holds_entity(entities: &Vec<EntityId>, e: EntityId) -> (r: bool)
    ensures
        r == entities@.contains(e),
{
    let mut i: usize = 0;
    while i < entities.len()
        invariant
            i <= entities@.len(),
            forall|j: int| 0 <= j < i ==> entities@[j] != e,
        decreases entities@.len() - i,
    {
        if entities[i] == e {
            return true;
        }
        i = i + 1;
    }
    false
}

/// The entities to despawn when the entities of `targets` are deleted with
/// the entities linked to them (see `despawn_list`).
pub fn despawn_with_links(targets: &Vec<(EntityId, Vec<EntityId>)>) -> (out: Vec<EntityId>)
    ensures
        out@ == despawn_list(targets@),
{
    let mut out: Vec<EntityId> = Vec::new();
    let mut i: usize = 0;
    while i < targets.len()
        invariant
            i <= targets@.len(),
            out@ == despawn_list(targets@.take(i as int)),
        decreases targets@.len() - i,
    {
        proof {
            assert(targets@.take(i + 1).drop_last() =~= targets@.take(i as int));
            assert(targets@.take(i + 1).last() == targets@[i as int]);
        }
        let e = targets[i].0;
        if !holds_entity(&out, e) {
            out.push(e);
            let links = &targets[i].1;
            let ghost start = out@;
            let mut j: usize = 0;
            while j < links.len()
                invariant
                    j <= links@.len(),
                    out@ == with_fresh(start, links@.take(j as int)),
                decreases links@.len() - j,
            {
                proof {
                    assert(links@.take(j + 1).drop_last() =~= links@.take(j as int));
                }
                let l = links[j];
                if !holds_entity(&out, l) {
                    out.push(l);
                }
                j = j + 1;
            }
            proof {
                assert(links@.take(j as int) =~= links@);
            }
        }
        i = i + 1;
    }
    proof {
        assert(targets@.take(i as int) =~= targets@);
    }
    out
}

proof fn lemma_with_fresh(done: Seq<EntityId>, links: Seq<EntityId>)
    requires
        done.no_duplicates(),
    ensures
        with_fresh(done, links).no_duplicates(),
        forall|x: EntityId| #[trigger]
            with_fresh(done, links).contains(x) <==> done.contains(x) || links.contains(x),
    decreases links.len(),
{
    if links.len() > 0 {
        lemma_with_fresh(done, links.drop_last());
        let d = with_fresh(done, links.drop_last());
        assert forall|x: EntityId| #[trigger]
            with_fresh(done, links).contains(x) <==> done.contains(x) || links.contains(x) by {
            if links.contains(x) && !links.drop_last().contains(x) {
                let k = choose|k: int| 0 <= k < links.len() && links[k] == x;
                if k < links.len() - 1 {
                    assert(links.drop_last()[k] == x);
                }
            }
            if links.drop_last().contains(x) {
                let k = choose|k: int| 0 <= k < links.len() - 1 && links.drop_last()[k] == x;
                assert(links[k] == x);
            }
            if !d.contains(links.last()) {
                assert(d.push(links.last()).contains(x) <==> d.contains(x) || x == links.last()) by {
                    if d.push(links.last()).contains(x) && x != links.last() {
                        let k = choose|k: int|
                            0 <= k < d.len() + 1 && d.push(links.last())[k] == x;
                        assert(d[k] == x);
                    }
                    if d.contains(x) {
                        let k = choose|k: int| 0 <= k < d.len() && d[k] == x;
                        assert(d.push(links.last())[k] == x);
                    }
                    if x == links.last() {
                        assert(d.push(links.last())[d.len() as int] == x);
                    }
                }
            }
        }
    }
}

/// Law: deleting never despawns an entity twice, despawns every deleted
/// entity and every entity linked to it, and nothing else.
pub proof fn law_delete_despawns_once(targets: Seq<(EntityId, Vec<EntityId>)>)
    ensures
        despawn_list(targets).no_duplicates(),
        forall|i: int| 0 <= i < targets.len() ==> despawn_list(targets).contains(#[trigger] targets[i].0),
        forall|x: EntityId| #[trigger] despawn_list(targets).contains(x) ==> exists|i: int|
            0 <= i < targets.len() && (targets[i].0 == x || targets[i].1@.contains(x)),
    decreases targets.len(),
{
    if targets.len() > 0 {
        let prev = targets.drop_last();
        law_delete_despawns_once(prev);
        let d = despawn_list(prev);
        let (e, links) = targets.last();
        let n = targets.len() - 1;
        if !d.contains(e) {
            assert(d.push(e).no_duplicates()) by {
                assert forall|a: int, b: int| 0 <= a < b < d.len() + 1 implies d.push(e)[a] != d.push(
                    e,
                )[b] by {
                    if b == d.len() {
                        assert(d[a] == d.push(e)[a]);
                    }
                }
            }
            lemma_with_fresh(d.push(e), links@);
            assert(d.push(e).contains(e)) by {
                assert(d.push(e)[d.len() as int] == e);
            }
        }
        assert forall|i: int| 0 <= i < targets.len() implies despawn_list(targets).contains(
            #[trigger] targets[i].0,
        ) by {
            if i < n {
                assert(prev[i] == targets[i]);
                assert(d.contains(prev[i].0));
                if !d.contains(e) {
                    let k = choose|k: int| 0 <= k < d.len() && d[k] == prev[i].0;
                    assert(d.push(e)[k] == prev[i].0);
                }
            }
        }
        assert forall|x: EntityId| #[trigger] despawn_list(targets).contains(x) implies exists|i: int|
            0 <= i < targets.len() && (targets[i].0 == x || targets[i].1@.contains(x)) by {
            if d.contains(x) {
                let i = choose|i: int|
                    0 <= i < prev.len() && (prev[i].0 == x || prev[i].1@.contains(x));
                assert(targets[i] == prev[i]);
            } else {
                assert(!d.contains(e));
                if x != e {
                    assert(d.push(e).contains(x) ==> d.contains(x)) by {
                        if d.push(e).contains(x) {
                            let k = choose|k: int| 0 <= k < d.len() + 1 && d.push(e)[k] == x;
                            assert(d[k] == x);
                        }
                    }
                }
                assert(targets[n].0 == x || targets[n].1@.contains(x));
            }
        }
    }
}

/// What was despawned for the first `k` targets stays despawned after them.
proof fn lemma_despawn_grows(targets: Seq<(EntityId, Vec<EntityId>)>, k: int, x: EntityId)
    requires
        0 <= k <= targets.len(),
        despawn_list(targets.take(k)).contains(x),
    ensures
        despawn_list(targets).contains(x),
    decreases targets.len() - k,
{
    if k < targets.len() {
        let prev = targets.drop_last();
        assert(prev.take(k) =~= targets.take(k));
        lemma_despawn_grows(prev, k, x);
        let d = despawn_list(prev);
        let (e, links) = targets.last();
        if !d.contains(e) {
            law_delete_despawns_once(prev);
            assert(d.push(e).no_duplicates()) by {
                assert forall|a: int, b: int| 0 <= a < b < d.len() + 1 implies d.push(e)[a]
                    != d.push(e)[b] by {
                    if b == d.len() {
                        assert(d[a] == d.push(e)[a]);
                    }
                }
            }
            lemma_with_fresh(d.push(e), links@);
            let w = choose|w: int| 0 <= w < d.len() && d[w] == x;
            assert(d.push(e)[w] == x);
        }
    } else {
        assert(targets.take(k) =~= targets);
    }
}

/// Law: deleting a target that was not already despawned (it is no earlier
/// target and not linked to one) despawns every entity linked to it.
pub proof fn law_delete_despawns_links(targets: Seq<(EntityId, Vec<EntityId>)>, i: int, x: EntityId)
    requires
        0 <= i < targets.len(),
        targets[i].1@.contains(x),
        forall|j: int|
            0 <= j < i ==> (#[trigger] targets[j]).0 != targets[i].0 && !targets[j].1@.contains(
                targets[i].0,
            ),
    ensures
        despawn_list(targets).contains(x),
{
    let before = targets.take(i);
    let upto = targets.take(i + 1);
    assert(upto.drop_last() =~= before);
    assert(upto.last() == targets[i]);
    law_delete_despawns_once(before);
    let d = despawn_list(before);
    let (e, links) = targets[i];
    assert(!d.contains(e)) by {
        if d.contains(e) {
            let j = choose|j: int|
                0 <= j < before.len() && (before[j].0 == e || before[j].1@.contains(e));
            assert(before.len() == i);
            assert(0 <= j < i);
            assert(before[j] == targets[j]);
            assert(e == targets[i].0);
            assert(targets[j].0 != targets[i].0 && !targets[j].1@.contains(targets[i].0));
        }
    }
    assert(d.push(e).no_duplicates()) by {
        assert forall|a: int, b: int| 0 <= a < b < d.len() + 1 implies d.push(e)[a] != d.push(
            e,
        )[b] by {
            if b == d.len() {
                assert(d[a] == d.push(e)[a]);
            }
        }
    }
    lemma_with_fresh(d.push(e), links@);
    assert(despawn_list(upto).contains(x));
    lemma_despawn_grows(targets, i + 1, x);
}

impl<M, R, P, B, T> EditorInteractionState<M, R, P, B, T> {
    /// Delete with a selection: the selected entities are returned for
    /// despawning (see `despawn_with_links`), the selection is cleared, the
    /// scene before goes to the undo history, the card gestures end and a
    /// pending exit confirmation is dropped. Without a selection nothing
    /// happens.
    pub fn delete_selection<S>(
        &mut self,
        history: &mut EditorUndoHistory<S>,
        before_scene: S,
    ) -> (deleted: Vec<EntityId>)
        ensures
            deleted@ == old(self).selected_entities@,
            old(self).selected_entities@.len() == 0 ==> *final(self) == *old(self),
            old(self).selected_entities@.len() == 0 ==> *final(history) == *old(history),
            old(self).selected_entities@.len() > 0 ==> final(history).view_history() == recorded(
                old(history).view_history(),
                before_scene,
            ),
            old(self).selected_entities@.len() > 0 ==> final(self).selected_entities@.len() == 0,
            old(self).selected_entities@.len() > 0 ==> *final(self) == (EditorInteractionState {
                selected_entity: None,
                selected_entities: final(self).selected_entities,
                moving_entity: None,
                rotating_entity: None,
                box_selection: None,
                pending_exit_confirmation: false,
                status_message: final(self).status_message,
                ..*old(self)
            }),
            old(self).selected_entities@.len() > 0 ==> final(self).status_message@ == "已删除选中对象"@,
    {
        if self.selected_entities.len() == 0 {
            return Vec::new();
        }
        let mut deleted: Vec<EntityId> = Vec::new();
        std::mem::swap(&mut deleted, &mut self.selected_entities);
        self.clear_selection();
        history.record(before_scene);
        self.moving_entity = None;
        self.rotating_entity = None;
        self.box_selection = None;
        self.pending_exit_confirmation = false;
        self.status_message = "已删除选中对象".to_owned();
        deleted
    }
}

//endregion

//region Undo and redo

/// The status after an undo that did (`restored`) or did not find an edit.
pub open spec fn undo_message(restored: bool) -> Seq<char> {
    if restored {
        "已撤销上一步操作"@
    } else {
        "没有可撤销的操作"@
    }
}

/// The status after a redo that did (`restored`) or did not find an edit.
pub open spec fn redo_message(restored: bool) -> Seq<char> {
    if restored {
        "已重做上一步操作"@
    } else {
        "没有可重做的操作"@
    }
}

impl<M, R, P, B, T> EditorInteractionState<M, R, P, B, T> {
    /// Ctrl+Z from the scene `current_scene`: the history undoes (see
    /// `undone`), the status tells the outcome, the selection is cleared and
    /// a pending exit confirmation dropped. Returns the scene to restore.
    pub fn undo_scene<S>(&mut self, history: &mut EditorUndoHistory<S>, current_scene: S) -> (restore:
        Option<S>)
        ensures
            (final(history).view_history(), restore) == undone(
                old(history).view_history(),
                current_scene,
            ),
            final(self).status_message@ == undo_message(restore is Some),
            final(self).selected_entities@.len() == 0,
            *final(self) == (EditorInteractionState {
                selected_entity: None,
                selected_entities: final(self).selected_entities,
                pending_exit_confirmation: false,
                status_message: final(self).status_message,
                ..*old(self)
            }),
    {
        let restore = history.undo(current_scene);
        self.status_message = match restore {
            Some(_) => "已撤销上一步操作".to_owned(),
            None => "没有可撤销的操作".to_owned(),
        };
        self.clear_selection();
        self.pending_exit_confirmation = false;
        restore
    }

    /// Ctrl+Shift+Z from the scene `current_scene`: the history redoes (see
    /// `redone`), the status tells the outcome, the selection is cleared and
    /// a pending exit confirmation dropped. Returns the scene to restore.
    pub fn redo_scene<S>(&mut self, history: &mut EditorUndoHistory<S>, current_scene: S) -> (restore:
        Option<S>)
        ensures
            (final(history).view_history(), restore) == redone(
                old(history).view_history(),
                current_scene,
            ),
            final(self).status_message@ == redo_message(restore is Some),
            final(self).selected_entities@.len() == 0,
            *final(self) == (EditorInteractionState {
                selected_entity: None,
                selected_entities: final(self).selected_entities,
                pending_exit_confirmation: false,
                status_message: final(self).status_message,
                ..*old(self)
            }),
    {
        let restore = history.redo(current_scene);
        self.status_message = match restore {
            Some(_) => "已重做上一步操作".to_owned(),
            None => "没有可重做的操作".to_owned(),
        };
        self.clear_selection();
        self.pending_exit_confirmation = false;
        restore
    }
}

//endregion

//region Scene files

/// "已导出 c 张卡牌、t 个地形、k 个角色硬币到 path".
pub open spec fn export_done_message(cards: nat, terrains: nat, coins: nat, path: Seq<char>) -> Seq<
    char,
> {
    "已导出 "@ + decimal(cards) + " 张卡牌、"@ + decimal(terrains) + " 个地形、"@ + decimal(coins)
        + " 个角色硬币到 "@ + path
}

/// "已从 path 导入 c 张卡牌、t 个地形、k 个角色硬币".
pub open spec fn import_done_message(path: Seq<char>, cards: nat, terrains: nat, coins: nat) -> Seq<
    char,
> {
    "已从 "@ + path + " 导入 "@ + decimal(cards) + " 张卡牌、"@ + decimal(terrains) + " 个地形、"@
        + decimal(coins) + " 个角色硬币"@
}

/// The status of an export of `cards` cards, `terrains` terrains and
/// `coins` character coins to `path`.
pub fn export_done_text(cards: usize, terrains: usize, coins: usize, path: &str) -> (text: String)
    ensures
        text@ == export_done_message(cards as nat, terrains as nat, coins as nat, path@),
{
    let mut text = String::new();
    push_str(&mut text, "已导出 ");
    push_decimal(&mut text, cards as u64);
    push_str(&mut text, " 张卡牌、");
    push_decimal(&mut text, terrains as u64);
    push_str(&mut text, " 个地形、");
    push_decimal(&mut text, coins as u64);
    push_str(&mut text, " 个角色硬币到 ");
    push_str(&mut text, path);
    text
}

/// The status of an import from `path` of `cards` cards, `terrains`
/// terrains and `coins` character coins.
pub fn import_done_text(path: &str, cards: usize, terrains: usize, coins: usize) -> (text: String)
    ensures
        text@ == import_done_message(path@, cards as nat, terrains as nat, coins as nat),
{
    let mut text = String::new();
    push_str(&mut text, "已从 ");
    push_str(&mut text, path);
    push_str(&mut text, " 导入 ");
    push_decimal(&mut text, cards as u64);
    push_str(&mut text, " 张卡牌、");
    push_decimal(&mut text, terrains as u64);
    push_str(&mut text, " 个地形、");
    push_decimal(&mut text, coins as u64);
    push_str(&mut text, " 个角色硬币");
    text
}

/// The status of an export to `path` that failed with `error`.
pub fn export_failed_text(path: &str, error: &str) -> (text: String)
    ensures
        text@ == "导出失败 "@ + path@ + ": "@ + error@,
{
    let mut text = String::new();
    push_str(&mut text, "导出失败 ");
    push_str(&mut text, path);
    push_str(&mut text, ": ");
    push_str(&mut text, error);
    text
}

/// The status of an export whose directory `dir` could not be created.
pub fn export_dir_failed_text(dir: &str, error: &str) -> (text: String)
    ensures
        text@ == "导出失败：无法创建目录 "@ + dir@ + ": "@ + error@,
{
    let mut text = String::new();
    push_str(&mut text, "导出失败：无法创建目录 ");
    push_str(&mut text, dir);
    push_str(&mut text, ": ");
    push_str(&mut text, error);
    text
}

/// The status of an import from `path` that failed with `error`.
pub fn import_failed_text(path: &str, error: &str) -> (text: String)
    ensures
        text@ == "导入失败 "@ + path@ + ": "@ + error@,
{
    let mut text = String::new();
    push_str(&mut text, "导入失败 ");
    push_str(&mut text, path);
    push_str(&mut text, ": ");
    push_str(&mut text, error);
    text
}

/// Whether a status tells of a finished export.
pub open spec fn export_succeeded(message: Seq<char>) -> bool {
    has_prefix(message, "已导出"@)
}

/// Whether a status tells of a finished import.
pub open spec fn import_succeeded(message: Seq<char>) -> bool {
    has_prefix(message, "已从"@)
}

impl<M, R, P, B, T> EditorInteractionState<M, R, P, B, T> {
    /// The outcome of saving or exporting the scene, told by `message`: when
    /// the scene was written the history is marked clean and a pending exit
    /// confirmation dropped (the caller then remembers the path). Returns
    /// whether it was written.
    pub fn conclude_export<S>(&mut self, history: &mut EditorUndoHistory<S>, message: String) -> (saved:
        bool)
        ensures
            saved == export_succeeded(message@),
            saved ==> final(history).view_history() == (UndoView {
                dirty: false,
                ..old(history).view_history()
            }),
            !saved ==> *final(history) == *old(history),
            *final(self) == (EditorInteractionState {
                pending_exit_confirmation: if saved {
                    false
                } else {
                    old(self).pending_exit_confirmation
                },
                status_message: message,
                ..*old(self)
            }),
    {
        let cs = chars_of(message.as_str());
        let done = chars_of("已导出");
        let saved = has_prefix_exec(&cs, &done);
        if saved {
            history.mark_clean();
            self.pending_exit_confirmation = false;
        }
        self.status_message = message;
        saved
    }

    /// The export dialog was closed without a path.
    pub fn cancel_export(&mut self)
        ensures
            final(self).status_message@ == "已取消导出"@,
            *final(self) == (EditorInteractionState {
                status_message: final(self).status_message,
                ..*old(self)
            }),
    {
        self.status_message = "已取消导出".to_owned();
    }

    /// Ctrl+S before any scene file was chosen.
    pub fn save_without_scene_path(&mut self)
        ensures
            final(self).status_message@ == "保存失败：尚未选择编辑文件，请先导出或导入场景"@,
            *final(self) == (EditorInteractionState {
                status_message: final(self).status_message,
                ..*old(self)
            }),
    {
        self.status_message = "保存失败：尚未选择编辑文件，请先导出或导入场景".to_owned();
    }

    /// The outcome of importing a scene, told by `message`: when the scene
    /// was loaded the history is forgotten and a pending exit confirmation
    /// dropped (the caller then remembers the path); the selection is
    /// cleared either way. Returns whether it was loaded.
    pub fn conclude_import<S>(&mut self, history: &mut EditorUndoHistory<S>, message: String) -> (loaded:
        bool)
        ensures
            loaded == import_succeeded(message@),
            loaded ==> final(history).view_history() == (UndoView::<S> {
                undo: Seq::empty(),
                redo: Seq::empty(),
                dirty: false,
            }),
            !loaded ==> *final(history) == *old(history),
            final(self).selected_entities@.len() == 0,
            *final(self) == (EditorInteractionState {
                selected_entity: None,
                selected_entities: final(self).selected_entities,
                pending_exit_confirmation: if loaded {
                    false
                } else {
                    old(self).pending_exit_confirmation
                },
                status_message: message,
                ..*old(self)
            }),
    {
        let cs = chars_of(message.as_str());
        let done = chars_of("已从");
        let loaded = has_prefix_exec(&cs, &done);
        if loaded {
            history.clear();
            self.pending_exit_confirmation = false;
        }
        self.status_message = message;
        self.clear_selection();
        loaded
    }

    /// The import dialog was closed without a path.
    pub fn cancel_import(&mut self)
        ensures
            final(self).status_message@ == "已取消导入"@,
            final(self).selected_entities@.len() == 0,
            *final(self) == (EditorInteractionState {
                selected_entity: None,
                selected_entities: final(self).selected_entities,
                status_message: final(self).status_message,
                ..*old(self)
            }),
    {
        self.status_message = "已取消导入".to_owned();
        self.clear_selection();
    }
}

//endregion

//region Toolbar, camera and trap terrain drawing

/// "正在绘制陷阱地形：已放置 n 个点，Enter 完成，Esc 取消".
pub open spec fn terrain_points_message(count: nat) -> Seq<char> {
    "正在绘制陷阱地形：已放置 "@ + decimal(count) + " 个点，Enter 完成，Esc 取消"@
}

/// Whether a press closes the trap terrain being drawn: it has at least
/// three points and the press is near its first point.
pub fn terrain_drawing_should_close(point_count: usize, near_first_point: bool) -> (close: bool)
    ensures
        close == (point_count >= 3 && near_first_point),
{
    point_count >= 3 && near_first_point
}

impl<M, R, P, B, T> EditorInteractionState<M, R, P, B, T> {
    /// The trap terrain button: switches the drawing mode, drops the drawing
    /// and the card gestures, clears the selection and tells the new mode.
    pub fn toggle_terrain_draw_mode(&mut self)
        ensures
            final(self).terrain_draw_mode == !old(self).terrain_draw_mode,
            final(self).selected_entities@.len() == 0,
            final(self).status_message@ == (if final(self).terrain_draw_mode {
                "已进入陷阱地形绘制模式：左键逐点绘制，Enter 完成，Esc 取消"@
            } else {
                "已退出陷阱地形绘制模式"@
            }),
            *final(self) == (EditorInteractionState {
                terrain_draw_mode: !old(self).terrain_draw_mode,
                terrain_drawing: None,
                moving_entity: None,
                rotating_entity: None,
                box_selection: None,
                selected_entity: None,
                selected_entities: final(self).selected_entities,
                status_message: final(self).status_message,
                ..*old(self)
            }),
    {
        self.terrain_draw_mode = !self.terrain_draw_mode;
        self.terrain_drawing = None;
        self.moving_entity = None;
        self.rotating_entity = None;
        self.box_selection = None;
        self.clear_selection();
        self.status_message = if self.terrain_draw_mode {
            "已进入陷阱地形绘制模式：左键逐点绘制，Enter 完成，Esc 取消".to_owned()
        } else {
            "已退出陷阱地形绘制模式".to_owned()
        };
    }

    /// The reset view button: with the editor camera found (`camera_found`,
    /// the caller resets it) the camera pan ends; the status tells the
    /// outcome.
    pub fn reset_camera_view(&mut self, camera_found: bool)
        ensures
            final(self).status_message@ == (if camera_found {
                "已回到原先视角"@
            } else {
                "回归视角失败：编辑器相机不存在"@
            }),
            *final(self) == (EditorInteractionState {
                camera_panning: if camera_found {
                    None
                } else {
                    old(self).camera_panning
                },
                status_message: final(self).status_message,
                ..*old(self)
            }),
    {
        if !camera_found {
            self.status_message = "回归视角失败：编辑器相机不存在".to_owned();
            return;
        }
        self.camera_panning = None;
        self.status_message = "已回到原先视角".to_owned();
    }

    /// A secondary press on the scene starts panning the camera, unless a
    /// prefab drag, a move, a rotation or a selection box is in progress.
    /// Returns whether the pan started.
    pub fn begin_camera_pan(&mut self, pan: P) -> (started: bool)
        ensures
            started == (old(self).dragging_prefab is None && old(self).moving_entity is None
                && old(self).rotating_entity is None && old(self).box_selection is None),
            !started ==> *final(self) == *old(self),
            started ==> final(self).status_message@ == "正在拖动编辑器视角"@,
            started ==> *final(self) == (EditorInteractionState {
                camera_panning: Some(pan),
                pending_exit_confirmation: false,
                status_message: final(self).status_message,
                ..*old(self)
            }),
    {
        if self.dragging_prefab.is_some() || self.moving_entity.is_some()
            || self.rotating_entity.is_some() || self.box_selection.is_some() {
            return false;
        }
        self.camera_panning = Some(pan);
        self.pending_exit_confirmation = false;
        self.status_message = "正在拖动编辑器视角".to_owned();
        true
    }

    /// A secondary release: ends the camera pan, if any, and says the view
    /// changed. Returns whether a pan ended.
    pub fn end_camera_pan(&mut self) -> (ended: bool)
        ensures
            ended == old(self).camera_panning is Some,
            !ended ==> *final(self) == *old(self),
            ended ==> final(self).status_message@ == "编辑器视角已更新"@,
            ended ==> *final(self) == (EditorInteractionState {
                camera_panning: None,
                status_message: final(self).status_message,
                ..*old(self)
            }),
    {
        if self.camera_panning.take().is_some() {
            self.status_message = "编辑器视角已更新".to_owned();
            return true;
        }
        false
    }

    /// Esc while drawing a trap terrain: the drawing and the mode end, and
    /// the Esc is used up.
    pub fn cancel_terrain_drawing(&mut self)
        ensures
            final(self).status_message@ == "已取消陷阱地形绘制"@,
            *final(self) == (EditorInteractionState {
                terrain_drawing: None,
                terrain_draw_mode: false,
                escape_consumed: true,
                status_message: final(self).status_message,
                ..*old(self)
            }),
    {
        self.terrain_drawing = None;
        self.terrain_draw_mode = false;
        self.escape_consumed = true;
        self.status_message = "已取消陷阱地形绘制".to_owned();
    }

    /// A point was added to the trap terrain being drawn, which now has
    /// `point_count` points: the selection and the card gestures end.
    pub fn terrain_point_added(&mut self, point_count: usize)
        ensures
            final(self).selected_entities@.len() == 0,
            final(self).status_message@ == terrain_points_message(point_count as nat),
            *final(self) == (EditorInteractionState {
                selected_entity: None,
                selected_entities: final(self).selected_entities,
                moving_entity: None,
                rotating_entity: None,
                box_selection: None,
                status_message: final(self).status_message,
                ..*old(self)
            }),
    {
        self.clear_selection();
        self.moving_entity = None;
        self.rotating_entity = None;
        self.box_selection = None;
        let mut message = String::new();
        push_str(&mut message, "正在绘制陷阱地形：已放置 ");
        push_decimal(&mut message, point_count as u64);
        push_str(&mut message, " 个点，Enter 完成，Esc 取消");
        self.status_message = message;
    }

    /// Finishing a trap terrain of `point_count` points (taken out of
    /// `terrain_drawing` by the caller): with fewer than three points it is
    /// refused; otherwise the caller adds it, the scene before goes to the
    /// undo history, the drawing mode ends and a pending exit confirmation is
    /// dropped. Returns whether the terrain is added.
    pub fn conclude_terrain_drawing<S>(
        &mut self,
        history: &mut EditorUndoHistory<S>,
        before_scene: S,
        point_count: usize,
    ) -> (added: bool)
        ensures
            added == (point_count >= 3),
            added ==> final(history).view_history() == recorded(
                old(history).view_history(),
                before_scene,
            ),
            !added ==> *final(history) == *old(history),
            final(self).status_message@ == (if added {
                "已添加陷阱地形"@
            } else {
                "陷阱地形至少需要 3 个点"@
            }),
            *final(self) == (EditorInteractionState {
                terrain_draw_mode: if added {
                    false
                } else {
                    old(self).terrain_draw_mode
                },
                pending_exit_confirmation: if added {
                    false
                } else {
                    old(self).pending_exit_confirmation
                },
                status_message: final(self).status_message,
                ..*old(self)
            }),
    {
        if point_count < 3 {
            self.status_message = "陷阱地形至少需要 3 个点".to_owned();
            return false;
        }
        history.record(before_scene);
        self.terrain_draw_mode = false;
        self.pending_exit_confirmation = false;
        self.status_message = "已添加陷阱地形".to_owned();
        true
    }
}

//endregion

//region Dragging prefabs from the list

/// What Esc cancels in the editor's drag handling.
#[derive(Clone, Copy, Debug, PartialEq, Eq, Structural)]
pub enum EscapeCancel {
    /// The trap terrain drawing.
    TerrainDrawing,
    /// The prefab drag; the preview card to despawn, if any.
    PrefabDrag(Option<EntityId>),
    /// Nothing.
    Nothing,
}

/// What a primary release does to a prefab drag.
#[derive(Clone, Copy, Debug, PartialEq, Eq, Structural)]
pub enum PrefabDrop {
    /// No prefab is being dragged.
    NotDragging,
    /// Released outside the scene: the preview card to despawn, if any.
    Cancelled(Option<EntityId>),
    /// The preview card is gone.
    MissingPreview,
    /// Place prefab `prefab_id` as the preview card `preview`.
    Place { prefab_id: u32, preview: EntityId },
}

/// "正在拖拽预制体 #id".
pub open spec fn prefab_drag_message(prefab_id: u32) -> Seq<char> {
    "正在拖拽预制体 #"@ + decimal(prefab_id as nat)
}

impl<M, R, P, B, T> EditorInteractionState<M, R, P, B, T> {
    /// A press on the list entry of prefab `prefab_id`, whose preview card
    /// `preview` is spawned by the caller and moved with `moving`. Returns
    /// the previous preview card to despawn, if any.
    pub fn begin_prefab_drag(&mut self, prefab_id: u32, preview: EntityId, moving: M) -> (stale:
        Option<EntityId>)
        ensures
            stale == old(self).drag_preview_entity,
            final(self).status_message@ == prefab_drag_message(prefab_id),
            *final(self) == (EditorInteractionState {
                dragging_prefab: Some(prefab_id),
                drag_preview_entity: Some(preview),
                moving_entity: Some(moving),
                rotating_entity: None,
                box_selection: None,
                status_message: final(self).status_message,
                ..*old(self)
            }),
    {
        let stale = self.drag_preview_entity.take();
        self.dragging_prefab = Some(prefab_id);
        self.drag_preview_entity = Some(preview);
        self.moving_entity = Some(moving);
        self.rotating_entity = None;
        self.box_selection = None;
        let mut message = String::new();
        push_str(&mut message, "正在拖拽预制体 #");
        push_decimal(&mut message, prefab_id as u64);
        self.status_message = message;
        stale
    }

    /// Esc (`esc_pressed`) during a trap terrain drawing or a prefab drag:
    /// the drawing is cancelled first; otherwise the drag is cancelled and
    /// its preview card returned for despawning. Either way the Esc is used
    /// up.
    pub fn cancel_drag_with_escape(&mut self, esc_pressed: bool) -> (cancelled: EscapeCancel)
        ensures
            esc_pressed && old(self).terrain_draw_mode ==> cancelled == EscapeCancel::TerrainDrawing
                && final(self).status_message@ == "已取消陷阱地形绘制"@ && *final(self) == (
            EditorInteractionState {
                terrain_drawing: None,
                terrain_draw_mode: false,
                escape_consumed: true,
                status_message: final(self).status_message,
                ..*old(self)
            }),
            esc_pressed && !old(self).terrain_draw_mode && old(self).dragging_prefab is Some
                ==> cancelled == EscapeCancel::PrefabDrag(old(self).drag_preview_entity)
                && final(self).status_message@ == "已取消拖拽预制体"@ && *final(self) == (
            EditorInteractionState {
                drag_preview_entity: None,
                dragging_prefab: None,
                moving_entity: None,
                escape_consumed: true,
                status_message: final(self).status_message,
                ..*old(self)
            }),
            !esc_pressed || (!old(self).terrain_draw_mode && old(self).dragging_prefab is None)
                ==> cancelled == EscapeCancel::Nothing && *final(self) == *old(self),
    {
        if !esc_pressed {
            return EscapeCancel::Nothing;
        }
        if self.terrain_draw_mode {
            self.cancel_terrain_drawing();
            return EscapeCancel::TerrainDrawing;
        }
        if self.dragging_prefab.is_none() {
            return EscapeCancel::Nothing;
        }
        let preview = self.drag_preview_entity.take();
        self.dragging_prefab = None;
        self.moving_entity = None;
        self.escape_consumed = true;
        self.status_message = "已取消拖拽预制体".to_owned();
        EscapeCancel::PrefabDrag(preview)
    }

    /// A primary release during a prefab drag, over the scene
    /// (`over_scene`) or not: the drag ends; outside the scene the drop is
    /// cancelled, without a preview card it fails, and otherwise the caller
    /// places the preview card and calls `conclude_prefab_drop`.
    pub fn drop_prefab(&mut self, over_scene: bool) -> (drop: PrefabDrop)
        ensures
            old(self).dragging_prefab is None ==> drop == PrefabDrop::NotDragging && *final(self)
                == *old(self),
            old(self).dragging_prefab is Some && !over_scene ==> drop == PrefabDrop::Cancelled(
                old(self).drag_preview_entity,
            ) && final(self).status_message@ == "已取消放置：请在主场景区域松开鼠标"@
                && *final(self) == (EditorInteractionState {
                dragging_prefab: None,
                drag_preview_entity: None,
                moving_entity: None,
                status_message: final(self).status_message,
                ..*old(self)
            }),
            old(self).dragging_prefab is Some && over_scene && old(self).drag_preview_entity is None
                ==> drop == PrefabDrop::MissingPreview && final(self).status_message@
                == "放置卡牌失败：拖拽预览不存在"@ && *final(self) == (EditorInteractionState {
                dragging_prefab: None,
                moving_entity: None,
                status_message: final(self).status_message,
                ..*old(self)
            }),
            old(self).dragging_prefab is Some && over_scene && old(self).drag_preview_entity is Some
                ==> drop == (PrefabDrop::Place {
                prefab_id: old(self).dragging_prefab.unwrap(),
                preview: old(self).drag_preview_entity.unwrap(),
            }) && *final(self) == (EditorInteractionState {
                dragging_prefab: None,
                drag_preview_entity: None,
                ..*old(self)
            }),
    {
        let prefab_id = match self.dragging_prefab {
            Some(id) => id,
            None => {
                return PrefabDrop::NotDragging;
            },
        };
        self.dragging_prefab = None;
        let preview = self.drag_preview_entity.take();
        if !over_scene {
            self.moving_entity = None;
            self.status_message = "已取消放置：请在主场景区域松开鼠标".to_owned();
            return PrefabDrop::Cancelled(preview);
        }
        match preview {
            None => {
                self.moving_entity = None;
                self.status_message = "放置卡牌失败：拖拽预览不存在".to_owned();
                PrefabDrop::MissingPreview
            },
            Some(e) => PrefabDrop::Place { prefab_id, preview: e },
        }
    }

    /// The preview card to place could not be found.
    pub fn prefab_preview_missing(&mut self)
        ensures
            final(self).status_message@ == "放置卡牌失败：拖拽预览不存在"@,
            *final(self) == (EditorInteractionState {
                moving_entity: None,
                status_message: final(self).status_message,
                ..*old(self)
            }),
    {
        self.moving_entity = None;
        self.status_message = "放置卡牌失败：拖拽预览不存在".to_owned();
    }

    /// The preview card `placed` was placed: it becomes the selection, the
    /// scene before goes to the undo history, a pending exit confirmation is
    /// dropped and the status shows `message` (the placement, written by the
    /// caller).
    pub fn conclude_prefab_drop<S>(
        &mut self,
        history: &mut EditorUndoHistory<S>,
        before_scene: S,
        placed: EntityId,
        message: String,
    )
        ensures
            final(history).view_history() == recorded(old(history).view_history(), before_scene),
            final(self).selected_entities@ == seq![placed],
            *final(self) == (EditorInteractionState {
                moving_entity: None,
                selected_entity: Some(placed),
                selected_entities: final(self).selected_entities,
                pending_exit_confirmation: false,
                status_message: message,
                ..*old(self)
            }),
    {
        self.moving_entity = None;
        self.select_entity(placed);
        history.record(before_scene);
        self.pending_exit_confirmation = false;
        self.status_message = message;
    }
}

//endregion

//region Stacking order changes

/// What a stacking-order shortcut changed.
#[derive(Clone, Copy, Debug, PartialEq, Eq, Structural)]
pub enum OrderTarget {
    /// A card, whose order did or did not change.
    Card { changed: bool },
    /// A terrain, whose order did or did not change.
    Terrain { changed: bool },
    /// The selected entity is neither.
    Missing,
}

/// Whether a stacking-order shortcut changed an order.
pub open spec fn order_changed(target: OrderTarget) -> bool {
    match target {
        OrderTarget::Card { changed } => changed,
        OrderTarget::Terrain { changed } => changed,
        OrderTarget::Missing => false,
    }
}

impl<M, R, P, B, T> EditorInteractionState<M, R, P, B, T> {
    /// The outcome of a stacking-order shortcut on the selection: a change
    /// goes to the undo history (with the scene before), drops a pending exit
    /// confirmation and shows `updated_message` (the new order, written by
    /// the caller); no change says so; a missing target clears the
    /// selection.
    pub fn conclude_order_shortcut<S>(
        &mut self,
        history: &mut EditorUndoHistory<S>,
        before_scene: S,
        target: OrderTarget,
        updated_message: String,
    )
        ensures
            order_changed(target) ==> final(history).view_history() == recorded(
                old(history).view_history(),
                before_scene,
            ) && *final(self) == (EditorInteractionState {
                pending_exit_confirmation: false,
                status_message: updated_message,
                ..*old(self)
            }),
            target == (OrderTarget::Card { changed: false }) ==> *final(history) == *old(history)
                && final(self).status_message@ == "卡牌层级未变化"@ && *final(self) == (
            EditorInteractionState { status_message: final(self).status_message, ..*old(self) }),
            target == (OrderTarget::Terrain { changed: false }) ==> *final(history) == *old(history)
                && final(self).status_message@ == "地形层级未变化"@ && *final(self) == (
            EditorInteractionState { status_message: final(self).status_message, ..*old(self) }),
            target == OrderTarget::Missing ==> *final(history) == *old(history)
                && final(self).status_message@ == "调整层级失败：选中对象不存在"@
                && final(self).selected_entities@.len() == 0 && *final(self) == (
            EditorInteractionState {
                selected_entity: None,
                selected_entities: final(self).selected_entities,
                status_message: final(self).status_message,
                ..*old(self)
            }),
    {
        match target {
            OrderTarget::Card { changed } => {
                if !changed {
                    self.status_message = "卡牌层级未变化".to_owned();
                    return;
                }
            },
            OrderTarget::Terrain { changed } => {
                if !changed {
                    self.status_message = "地形层级未变化".to_owned();
                    return;
                }
            },
            OrderTarget::Missing => {
                self.clear_selection();
                self.status_message = "调整层级失败：选中对象不存在".to_owned();
                return;
            },
        }
        history.record(before_scene);
        self.pending_exit_confirmation = false;
        self.status_message = updated_message;
    }

    /// The wheel over a card whose intersecting group has `group_len` cards,
    /// of which the shift moves `assignment_count`: a group of one card, or
    /// a card at the edge of its group, leaves the order as it is and says
    /// so. Returns whether the order changes (the caller then applies it and
    /// calls `conclude_order_wheel`).
    pub fn order_wheel_applies(&mut self, group_len: usize, assignment_count: usize) -> (applies:
        bool)
        ensures
            applies == (group_len > 1 && assignment_count > 0),
            applies ==> *final(self) == *old(self),
            group_len <= 1 ==> final(self).status_message@ == "悬浮卡牌没有相交卡牌组，层级未变化"@,
            group_len > 1 && assignment_count == 0 ==> final(self).status_message@
                == "悬浮卡牌已在相交卡牌组边界，层级未变化"@,
            *final(self) == (EditorInteractionState {
                status_message: final(self).status_message,
                ..*old(self)
            }),
    {
        if group_len <= 1 {
            self.status_message = "悬浮卡牌没有相交卡牌组，层级未变化".to_owned();
            return false;
        }
        if assignment_count == 0 {
            self.status_message = "悬浮卡牌已在相交卡牌组边界，层级未变化".to_owned();
            return false;
        }
        true
    }

    /// The wheel changed the order of the group of the hovered card
    /// `hovered`: it becomes the selection, the scene before goes to the
    /// undo history, a pending exit confirmation is dropped and `message`
    /// (the new order, written by the caller) is shown.
    pub fn conclude_order_wheel<S>(
        &mut self,
        history: &mut EditorUndoHistory<S>,
        before_scene: S,
        hovered: EntityId,
        message: String,
    )
        ensures
            final(history).view_history() == recorded(old(history).view_history(), before_scene),
            final(self).selected_entities@ == seq![hovered],
            *final(self) == (EditorInteractionState {
                selected_entity: Some(hovered),
                selected_entities: final(self).selected_entities,
                pending_exit_confirmation: false,
                status_message: message,
                ..*old(self)
            }),
    {
        self.select_entity(hovered);
        history.record(before_scene);
        self.pending_exit_confirmation = false;
        self.status_message = message;
    }
}

//endregion

} // verus!
