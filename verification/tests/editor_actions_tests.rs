use coin_cards::editor::{EditorInteractionState, EditorUndoHistory};
use coin_cards::editor_actions::{
    despawn_with_links, export_dir_failed_text, export_done_text, export_failed_text,
    import_done_text, import_failed_text, terrain_drawing_should_close, EditorPress, EscapeCancel,
    OrderTarget, PrefabDrop, ReleasedGesture,
};

type State = EditorInteractionState<&'static str, &'static str, &'static str, &'static str, ()>;
type History = EditorUndoHistory<u32>;

#[test]
fn press_picks_rotation_then_card_then_terrain_then_box() {
    let mut state = State::new();
    state.pending_exit_confirmation = true;
    assert_eq!(state.press(true, Some(5), Some(9), false), EditorPress::Move(5));
    assert!(!state.pending_exit_confirmation);
    state.select_entity(2);
    assert_eq!(state.press(true, Some(5), Some(9), false), EditorPress::Rotate(2));
    assert_eq!(state.press(false, Some(5), Some(9), false), EditorPress::Move(5));
    assert_eq!(state.press(false, None, Some(9), true), EditorPress::SelectTerrain(9));
    assert_eq!(state.press(false, None, None, false), EditorPress::BoxSelect);
    assert_eq!(state.press(false, None, None, true), EditorPress::Nothing);
}

#[test]
fn gestures_start_and_end() {
    let mut state = State::new();
    state.begin_box_selection("box");
    assert_eq!(state.status_message, "正在框选卡牌");
    state.begin_move("move", vec![4, 1], "4v1");
    assert_eq!(state.selected_entity, Some(4));
    assert_eq!(state.status_message, "已选中卡牌 #4v1，拖动中");
    assert_eq!(state.box_selection, None);
    assert!(matches!(state.release_primary(), ReleasedGesture::Move("move")));
    assert!(matches!(state.release_primary(), ReleasedGesture::Nothing));
    state.begin_rotation("turn");
    assert_eq!(state.status_message, "正在旋转卡牌");
    state.dragging_prefab = Some(1);
    assert!(matches!(state.release_primary(), ReleasedGesture::Nothing));
    state.dragging_prefab = None;
    assert!(matches!(state.release_primary(), ReleasedGesture::Rotation("turn")));
    state.begin_terrain_selection(8, "8v0");
    assert_eq!(state.selected_entities, vec![8]);
    assert_eq!(state.status_message, "已选中地形 #8v0");
}

#[test]
fn finished_moves_are_recorded_only_when_changed() {
    let mut state = State::new();
    let mut history = History::new();
    state.conclude_move(&mut history, 10, false, 3);
    assert!(history.undo_stack.is_empty());
    assert_eq!(state.status_message, "");
    state.pending_exit_confirmation = true;
    state.conclude_move(&mut history, 10, true, 3);
    assert_eq!(history.undo_stack, vec![10]);
    assert!(history.dirty);
    assert!(!state.pending_exit_confirmation);
    assert_eq!(state.status_message, "已移动 3 张卡牌");
    state.conclude_move(&mut history, 11, true, 1);
    assert_eq!(state.status_message, "卡牌位置已更新");
    state.conclude_rotation(&mut history, 12, true);
    assert_eq!(state.status_message, "卡牌旋转已更新");
    assert_eq!(history.undo_stack, vec![10, 11, 12]);
}

#[test]
fn box_selection_selects_what_it_caught() {
    let mut state = State::new();
    state.select_entity(1);
    state.conclude_box_selection(vec![]);
    assert_eq!(state.selected_entity, None);
    assert_eq!(state.status_message, "框选区域内没有卡牌");
    state.conclude_box_selection(vec![7, 3, 12]);
    assert_eq!(state.selected_entity, Some(7));
    assert_eq!(state.status_message, "已框选 3 张卡牌");
}

#[test]
fn deleting_takes_the_selection() {
    let mut state = State::new();
    let mut history = History::new();
    assert!(state.delete_selection(&mut history, 1).is_empty());
    assert!(history.undo_stack.is_empty());
    state.conclude_box_selection(vec![3, 4]);
    state.begin_rotation("turn");
    let deleted = state.delete_selection(&mut history, 1);
    assert_eq!(deleted, vec![3, 4]);
    assert!(state.selected_entities.is_empty());
    assert_eq!(state.rotating_entity, None);
    assert_eq!(history.undo_stack, vec![1]);
    assert_eq!(state.status_message, "已删除选中对象");
}

#[test]
fn linked_entities_are_despawned_once() {
    let targets = vec![(1, vec![10, 11, 10]), (10, vec![12]), (2, vec![11, 2, 13])];
    assert_eq!(despawn_with_links(&targets), vec![1, 10, 11, 2, 13]);
    assert!(despawn_with_links(&vec![]).is_empty());
}

#[test]
fn undo_and_redo_report_their_outcome() {
    let mut state = State::new();
    let mut history = History::new();
    state.select_entity(3);
    assert_eq!(state.undo_scene(&mut history, 5), None);
    assert_eq!(state.status_message, "没有可撤销的操作");
    assert_eq!(state.selected_entity, None);
    history.record(1);
    assert_eq!(state.undo_scene(&mut history, 2), Some(1));
    assert_eq!(state.status_message, "已撤销上一步操作");
    assert_eq!(state.redo_scene(&mut history, 1), Some(2));
    assert_eq!(state.status_message, "已重做上一步操作");
    assert_eq!(state.redo_scene(&mut history, 2), None);
    assert_eq!(state.status_message, "没有可重做的操作");
}

#[test]
fn scene_file_messages() {
    assert_eq!(
        export_done_text(3, 1, 2, "scenes/a.toml"),
        "已导出 3 张卡牌、1 个地形、2 个角色硬币到 scenes/a.toml"
    );
    assert_eq!(
        import_done_text("scenes/a.toml", 0, 12, 1),
        "已从 scenes/a.toml 导入 0 张卡牌、12 个地形、1 个角色硬币"
    );
    assert_eq!(export_failed_text("a.toml", "denied"), "导出失败 a.toml: denied");
    assert_eq!(import_failed_text("a.toml", "bad"), "导入失败 a.toml: bad");
    assert_eq!(export_dir_failed_text("out", "denied"), "导出失败：无法创建目录 out: denied");
}

#[test]
fn export_and_import_outcomes() {
    let mut state = State::new();
    let mut history = History::new();
    history.record(1);
    state.pending_exit_confirmation = true;
    assert!(!state.conclude_export(&mut history, "导出失败 a.toml: denied".to_string()));
    assert!(history.dirty);
    assert!(state.pending_exit_confirmation);
    assert!(state.conclude_export(&mut history, export_done_text(1, 0, 0, "a.toml")));
    assert!(!history.dirty);
    assert_eq!(history.undo_stack, vec![1]);
    assert!(!state.pending_exit_confirmation);

    state.select_entity(4);
    assert!(state.conclude_import(&mut history, import_done_text("a.toml", 1, 0, 0)));
    assert!(history.undo_stack.is_empty());
    assert_eq!(state.selected_entity, None);
    history.record(2);
    assert!(!state.conclude_import(&mut history, "导入失败 a.toml: bad".to_string()));
    assert_eq!(history.undo_stack, vec![2]);

    state.cancel_export();
    assert_eq!(state.status_message, "已取消导出");
    state.cancel_import();
    assert_eq!(state.status_message, "已取消导入");
    state.save_without_scene_path();
    assert_eq!(state.status_message, "保存失败：尚未选择编辑文件，请先导出或导入场景");
}

#[test]
fn trap_terrain_drawing_flow() {
    let mut state = State::new();
    let mut history = History::new();
    state.select_entity(2);
    state.toggle_terrain_draw_mode();
    assert!(state.terrain_draw_mode);
    assert_eq!(state.selected_entity, None);
    assert_eq!(state.status_message, "已进入陷阱地形绘制模式：左键逐点绘制，Enter 完成，Esc 取消");
    state.terrain_point_added(2);
    assert_eq!(state.status_message, "正在绘制陷阱地形：已放置 2 个点，Enter 完成，Esc 取消");
    assert!(!terrain_drawing_should_close(2, true));
    assert!(terrain_drawing_should_close(3, true));
    assert!(!terrain_drawing_should_close(5, false));
    assert!(!state.conclude_terrain_drawing(&mut history, 7, 2));
    assert_eq!(state.status_message, "陷阱地形至少需要 3 个点");
    assert!(state.terrain_draw_mode);
    assert!(state.conclude_terrain_drawing(&mut history, 7, 4));
    assert_eq!(state.status_message, "已添加陷阱地形");
    assert!(!state.terrain_draw_mode);
    assert_eq!(history.undo_stack, vec![7]);

    state.toggle_terrain_draw_mode();
    state.toggle_terrain_draw_mode();
    assert_eq!(state.status_message, "已退出陷阱地形绘制模式");
    state.toggle_terrain_draw_mode();
    state.cancel_terrain_drawing();
    assert!(!state.terrain_draw_mode);
    assert!(state.escape_consumed);
    assert_eq!(state.status_message, "已取消陷阱地形绘制");
}

#[test]
fn camera_pan_and_reset() {
    let mut state = State::new();
    state.begin_box_selection("box");
    assert!(!state.begin_camera_pan("pan"));
    assert_eq!(state.camera_panning, None);
    state.box_selection = None;
    assert!(state.begin_camera_pan("pan"));
    assert_eq!(state.status_message, "正在拖动编辑器视角");
    assert!(state.end_camera_pan());
    assert_eq!(state.status_message, "编辑器视角已更新");
    assert!(!state.end_camera_pan());
    state.camera_panning = Some("pan");
    state.reset_camera_view(false);
    assert_eq!(state.status_message, "回归视角失败：编辑器相机不存在");
    assert_eq!(state.camera_panning, Some("pan"));
    state.reset_camera_view(true);
    assert_eq!(state.status_message, "已回到原先视角");
    assert_eq!(state.camera_panning, None);
}

#[test]
fn prefab_drag_and_drop() {
    let mut state = State::new();
    let mut history = History::new();
    assert_eq!(state.drop_prefab(true), PrefabDrop::NotDragging);
    assert_eq!(state.begin_prefab_drag(1904, 50, "drag"), None);
    assert_eq!(state.status_message, "正在拖拽预制体 #1904");
    assert_eq!(state.begin_prefab_drag(7, 51, "drag"), Some(50));
    assert_eq!(state.drop_prefab(false), PrefabDrop::Cancelled(Some(51)));
    assert_eq!(state.status_message, "已取消放置：请在主场景区域松开鼠标");
    assert_eq!(state.moving_entity, None);

    state.begin_prefab_drag(7, 52, "drag");
    assert_eq!(state.drop_prefab(true), PrefabDrop::Place { prefab_id: 7, preview: 52 });
    assert_eq!(state.dragging_prefab, None);
    state.conclude_prefab_drop(&mut history, 9, 52, "placed".to_string());
    assert_eq!(state.selected_entities, vec![52]);
    assert_eq!(history.undo_stack, vec![9]);
    assert_eq!(state.status_message, "placed");

    state.begin_prefab_drag(7, 53, "drag");
    state.drag_preview_entity = None;
    assert_eq!(state.drop_prefab(true), PrefabDrop::MissingPreview);
    assert_eq!(state.status_message, "放置卡牌失败：拖拽预览不存在");
}

#[test]
fn escape_cancels_drawing_before_dragging() {
    let mut state = State::new();
    assert_eq!(state.cancel_drag_with_escape(true), EscapeCancel::Nothing);
    state.begin_prefab_drag(3, 60, "drag");
    assert_eq!(state.cancel_drag_with_escape(false), EscapeCancel::Nothing);
    assert_eq!(state.cancel_drag_with_escape(true), EscapeCancel::PrefabDrag(Some(60)));
    assert_eq!(state.status_message, "已取消拖拽预制体");
    assert!(state.escape_consumed);
    assert_eq!(state.dragging_prefab, None);
    state.escape_consumed = false;
    state.toggle_terrain_draw_mode();
    state.begin_prefab_drag(3, 61, "drag");
    assert_eq!(state.cancel_drag_with_escape(true), EscapeCancel::TerrainDrawing);
    assert_eq!(state.dragging_prefab, Some(3));
}

#[test]
fn stacking_order_outcomes() {
    let mut state = State::new();
    let mut history = History::new();
    state.conclude_order_shortcut(&mut history, 1, OrderTarget::Card { changed: false }, "x".into());
    assert_eq!(state.status_message, "卡牌层级未变化");
    state.conclude_order_shortcut(&mut history, 1, OrderTarget::Terrain { changed: false }, "x".into());
    assert_eq!(state.status_message, "地形层级未变化");
    assert!(history.undo_stack.is_empty());
    state.conclude_order_shortcut(&mut history, 1, OrderTarget::Card { changed: true }, "卡牌层级已更新为 3".into());
    assert_eq!(state.status_message, "卡牌层级已更新为 3");
    assert_eq!(history.undo_stack, vec![1]);
    state.select_entity(4);
    state.conclude_order_shortcut(&mut history, 2, OrderTarget::Missing, "x".into());
    assert_eq!(state.selected_entity, None);
    assert_eq!(state.status_message, "调整层级失败：选中对象不存在");

    assert!(!state.order_wheel_applies(1, 3));
    assert_eq!(state.status_message, "悬浮卡牌没有相交卡牌组，层级未变化");
    assert!(!state.order_wheel_applies(3, 0));
    assert_eq!(state.status_message, "悬浮卡牌已在相交卡牌组边界，层级未变化");
    assert!(state.order_wheel_applies(3, 2));
    state.conclude_order_wheel(&mut history, 3, 6, "wheel".into());
    assert_eq!(state.selected_entities, vec![6]);
    assert_eq!(history.undo_stack, vec![1, 3]);
}
