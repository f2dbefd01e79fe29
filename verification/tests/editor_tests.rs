use coin_cards::card::CardSpecializedRegistry;
use coin_cards::card_params::{
    CardAppearanceConfig, CardImageLayoutType, CardPrefab, CardPresetsConfig, CardSpecializedConfig,
};
use coin_cards::editor::{
    connected_intersecting_card_group, prefab_preview_items, scene_file_format_from_extension,
    shifted_card_order, update_editor_axis_lock, CardOrderDirection, EditorAxisLock,
    EditorInteractionState, EditorUndoHistory, SceneFileFormat,
};
use coin_cards::json::JsonValue;

type State = EditorInteractionState<(), (), (), (), ()>;

#[test]
fn escape_with_unsaved_changes_needs_confirmation() {
    let mut state = State::new();
    assert!(!state.handle_escape(true, true, true));
    assert!(state.pending_exit_confirmation);
    assert_eq!(state.status_message, "当前场景存在未保存修改。再次按 Esc 确认退出。");
    assert!(state.handle_escape(true, true, true));
    assert!(!state.pending_exit_confirmation);

    let mut clean = State::new();
    assert!(clean.handle_escape(true, true, false));
    assert!(!clean.handle_escape(false, true, false));
}

#[test]
fn escape_is_kept_by_gestures_and_consumed_flag() {
    let mut state = State::new();
    state.dragging_prefab = Some(3);
    assert!(state.captures_pointer());
    assert!(!state.handle_escape(true, true, false));
    state.dragging_prefab = None;
    state.escape_consumed = true;
    assert!(!state.handle_escape(true, true, false));
    assert!(!state.escape_consumed);
    assert!(state.handle_escape(true, false, true));
    assert!(!state.take_escape_consumed());
}

#[test]
fn selection_and_move_sets() {
    let mut state = State::new();
    state.set_selection(vec![4, 5, 6]);
    assert_eq!(state.selected_entity, Some(4));
    assert_eq!(state.selected_entities_for_move(5), vec![5, 4, 6]);
    assert_eq!(state.selected_entities_for_move(9), vec![9]);
    state.select_entity(7);
    assert_eq!(state.selected_entities, vec![7]);
    state.clear_selection();
    assert_eq!(state.selected_entity, None);
    assert!(state.selected_entities.is_empty());
    state.set_status_message("done".to_string());
    assert_eq!(state.status_message, "done");
}

#[test]
fn undo_and_redo_restore_snapshots() {
    let mut history: EditorUndoHistory<&str> = EditorUndoHistory::new();
    assert!(!history.has_unsaved_changes());
    assert_eq!(history.undo("now"), None);
    history.record("before");
    assert!(history.has_unsaved_changes());
    assert_eq!(history.undo("after"), Some("before"));
    assert_eq!(history.redo("before-again"), Some("after"));
    assert_eq!(history.redo("x"), None);
    assert_eq!(history.undo("after-again"), Some("before-again"));
    history.record("edit");
    assert_eq!(history.redo("y"), None);
    history.mark_clean();
    assert!(!history.has_unsaved_changes());
    history.clear();
    assert_eq!(history.undo("z"), None);
}

#[test]
fn shifting_moves_the_target_within_its_group() {
    let ordered = vec![10, 20, 30, 40];
    assert_eq!(shifted_card_order(&ordered, 20, CardOrderDirection::Up, 1), vec![10, 30, 20, 40]);
    assert_eq!(shifted_card_order(&ordered, 20, CardOrderDirection::Up, 9), vec![10, 30, 40, 20]);
    assert_eq!(shifted_card_order(&ordered, 30, CardOrderDirection::Down, 5), vec![30, 10, 20, 40]);
    assert!(shifted_card_order(&ordered, 40, CardOrderDirection::Up, 1).is_empty());
    assert!(shifted_card_order(&ordered, 10, CardOrderDirection::Down, 1).is_empty());
    assert!(shifted_card_order(&ordered, 99, CardOrderDirection::Up, 1).is_empty());
}

#[test]
fn groups_follow_chains_of_intersecting_cards() {
    let ids = vec![1, 2, 3, 4];
    // 1-2 and 2-3 intersect; 4 stands apart.
    let m = vec![
        vec![true, true, false, false],
        vec![true, true, true, false],
        vec![false, true, true, false],
        vec![false, false, false, true],
    ];
    assert_eq!(connected_intersecting_card_group(1, &ids, &m), vec![1, 2, 3]);
    assert_eq!(connected_intersecting_card_group(3, &ids, &m), vec![3, 2, 1]);
    assert_eq!(connected_intersecting_card_group(4, &ids, &m), vec![4]);
    assert_eq!(connected_intersecting_card_group(8, &ids, &m), vec![8]);
}

#[test]
fn only_toml_scene_files_are_supported() {
    assert_eq!(scene_file_format_from_extension(Some("toml"), "a.toml"), Ok(SceneFileFormat::Toml));
    assert_eq!(scene_file_format_from_extension(Some("TOML"), "a.TOML"), Ok(SceneFileFormat::Toml));
    assert_eq!(scene_file_format_from_extension(Some("ToMl"), "a.ToMl"), Ok(SceneFileFormat::Toml));
    assert!(scene_file_format_from_extension(Some("tom"), "a.tom").is_err());
    assert_eq!(
        scene_file_format_from_extension(Some("json"), "a.json"),
        Err("文件格式不受支持 a.json：请使用 .toml".to_string())
    );
    assert_eq!(
        scene_file_format_from_extension(None, "scene"),
        Err("文件格式不受支持 scene：请使用 .toml".to_string())
    );
}

#[test]
fn axis_lock_follows_shift_and_first_direction() {
    let mut lock = EditorAxisLock::Unlocked;
    assert_eq!(update_editor_axis_lock(&mut lock, true, false), EditorAxisLock::Vertical);
    assert_eq!(update_editor_axis_lock(&mut lock, true, true), EditorAxisLock::Vertical);
    assert_eq!(update_editor_axis_lock(&mut lock, false, true), EditorAxisLock::Unlocked);
    assert_eq!(update_editor_axis_lock(&mut lock, true, true), EditorAxisLock::Horizontal);
}

#[test]
fn prefab_list_shows_titles_and_kinds() {
    let config = CardPresetsConfig {
        appearances: vec![CardAppearanceConfig {
            id: 1001,
            title: "景观卡".to_string(),
            background_color_appearance_override: "#4C8A68FF".to_string(),
            image_layout_type: CardImageLayoutType::Normal,
            image_res_path: String::new(),
        }],
        specialized: vec![CardSpecializedConfig {
            id: 10000001,
            type_id: "scenery".to_string(),
            params: JsonValue::Object(vec![]),
        }],
        prefabs: vec![
            CardPrefab { id: 2001, appearance_id: 1001, specialized_id: 10000001, description: None },
            CardPrefab { id: 2009, appearance_id: 1, specialized_id: 2, description: None },
        ],
    };
    let items = prefab_preview_items(&config, &CardSpecializedRegistry::new(), &vec![true, true]);
    let undecoded = prefab_preview_items(&config, &CardSpecializedRegistry::new(), &vec![]);
    assert!(undecoded[0].fill.kind.is_none());
    assert_eq!(items.len(), 2);
    assert_eq!(items[0].id, 2001);
    assert_eq!(items[0].title, "景观卡");
    assert_eq!(items[0].fill.kind, Some(coin_cards::card::CardKind::Scenery));
    assert_eq!(items[0].fill.appearance_override.as_deref(), Some("#4C8A68FF"));
    assert_eq!(items[1].title, "Placeholder");
    assert!(items[1].fill.kind.is_none());
    assert!(items[1].fill.appearance_override.is_none());
}

#[test]
fn missing_intersection_entries_mean_apart() {
    let ids = vec![1, 2, 3];
    // Row 0 lacks the entry for card 3; row 2 is missing.
    let m = vec![vec![true, true], vec![true, true, true]];
    assert_eq!(connected_intersecting_card_group(1, &ids, &m), vec![1, 2, 3]);
    assert_eq!(connected_intersecting_card_group(3, &ids, &m), vec![3]);
}
