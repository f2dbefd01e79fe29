use coin_cards::card::{normalize_asset_path, CardKind, CardSpecializedRegistry};
use coin_cards::card_params::{
    make_description, CardAppearanceConfig, CardImageLayoutType, CardParam, CardPrefab,
    CardPresetsConfig, CardRuntimeSpecializedConfig, CardSpecializedConfig,
};
use coin_cards::json::JsonValue;

fn text(s: &str) -> String {
    s.to_string()
}

fn num(n: &str) -> JsonValue {
    JsonValue::Number(n.to_string())
}

fn obj(members: Vec<(&str, JsonValue)>) -> JsonValue {
    JsonValue::Object(members.into_iter().map(|(k, v)| (k.to_string(), v)).collect())
}

/// Structural equality of documents, with object members compared by name.
fn same_json(a: &JsonValue, b: &JsonValue) -> bool {
    match (a, b) {
        (JsonValue::Null, JsonValue::Null) => true,
        (JsonValue::Bool(x), JsonValue::Bool(y)) => x == y,
        (JsonValue::Number(x), JsonValue::Number(y)) => x == y,
        (JsonValue::Str(x), JsonValue::Str(y)) => x == y,
        (JsonValue::Array(x), JsonValue::Array(y)) => {
            x.len() == y.len() && x.iter().zip(y.iter()).all(|(p, q)| same_json(p, q))
        }
        (JsonValue::Object(x), JsonValue::Object(y)) => {
            x.len() == y.len()
                && x.iter().all(|(k, v)| {
                    y.iter().any(|(k2, v2)| k == k2 && same_json(v, v2))
                })
        }
        _ => false,
    }
}

fn appearance(id: u32, title: &str, color: &str, layout: CardImageLayoutType, path: &str) -> CardAppearanceConfig {
    CardAppearanceConfig {
        id,
        title: text(title),
        background_color_appearance_override: text(color),
        image_layout_type: layout,
        image_res_path: text(path),
    }
}

fn presets() -> CardPresetsConfig {
    CardPresetsConfig {
        appearances: vec![
            appearance(1003, "交互卡", "#C6783DFF", CardImageLayoutType::Normal, ""),
            appearance(1002, "障碍卡", "#7D6148FF", CardImageLayoutType::Full, "/assets/config/pics/wall-bricks.png"),
        ],
        specialized: vec![
            CardSpecializedConfig {
                id: 10000003,
                type_id: text("interactive"),
                params: obj(vec![(
                    "interaction",
                    obj(vec![("type", JsonValue::Str(text("log_hello_world"))), ("params", obj(vec![]))]),
                )]),
            },
            CardSpecializedConfig {
                id: 10000002,
                type_id: text("obstacle"),
                params: obj(vec![(
                    "obstacle_def",
                    obj(vec![(
                        "path",
                        JsonValue::Array(vec![
                            JsonValue::Array(vec![num("-90.0"), num("-56.0")]),
                            JsonValue::Array(vec![num("74.0"), num("-68.0")]),
                        ]),
                    )]),
                )]),
            },
        ],
        prefabs: vec![
            CardPrefab { id: 2003, appearance_id: 1003, specialized_id: 10000003, description: None },
            CardPrefab { id: 2002, appearance_id: 1002, specialized_id: 10000002, description: Some(text("wall")) },
        ],
    }
}

#[test]
fn registry_can_find_and_deserialize_obstacle_specialized_param() {
    let registry = CardSpecializedRegistry::default();
    let kind = registry
        .get("obstacle")
        .expect("obstacle specialized type should be registered");
    assert_eq!(kind, CardKind::Obstacle);
}

#[test]
fn registry_knows_every_specialized_type() {
    let registry = CardSpecializedRegistry::new();
    assert_eq!(registry.get("scenery"), Some(CardKind::Scenery));
    assert_eq!(registry.get("interactive"), Some(CardKind::Interaction));
    assert_eq!(registry.get("clue"), Some(CardKind::Clue));
    assert_eq!(registry.get("trap"), Some(CardKind::Trap));
    assert_eq!(registry.get("unknown"), None);
    assert_eq!(registry.get(""), None);
}

#[test]
fn card_param_resolves_prefab_appearance_and_specialized() {
    let config = presets();
    let card_param = CardParam { prefab_id: 2003, runtime_specialized_param: None };

    let appearance = card_param.load_appearance(&config);
    assert_eq!(appearance.id, 1003);
    assert_eq!(appearance.title, "交互卡");

    let registry = CardSpecializedRegistry::default();
    let specialized = card_param
        .load_specialized_config(&config, &registry, true)
        .expect("prefab specialized config should deserialize");

    assert_eq!(specialized.kind, CardKind::Interaction);
    assert_eq!(specialized.type_id, "interactive");
}

#[test]
fn card_param_merges_runtime_specialized_params_over_prefab_params() {
    let card_param = CardParam {
        prefab_id: 1006,
        runtime_specialized_param: Some(CardRuntimeSpecializedConfig {
            type_id: text("clue"),
            params: obj(vec![
                ("interaction_prefab_id", num("1005")),
                (
                    "interaction_target_scene_param",
                    obj(vec![
                        ("position", JsonValue::Array(vec![num("105.0"), num("-20.0")])),
                        ("rotation", num("-0.12")),
                        ("order", num("0.85")),
                    ]),
                ),
            ]),
        }),
    };
    let base = CardSpecializedConfig {
        id: 10000006,
        type_id: text("clue"),
        params: obj(vec![("reveal_threshold", JsonValue::Str(text("normal")))]),
    };

    let (_, merged) = card_param
        .merged_specialized_params(base)
        .expect("matching runtime specialized params should merge");

    let expected = obj(vec![
        ("reveal_threshold", JsonValue::Str(text("normal"))),
        ("interaction_prefab_id", num("1005")),
        (
            "interaction_target_scene_param",
            obj(vec![
                ("position", JsonValue::Array(vec![num("105.0"), num("-20.0")])),
                ("rotation", num("-0.12")),
                ("order", num("0.85")),
            ]),
        ),
    ]);
    assert!(same_json(&merged, &expected));
}

#[test]
fn merged_params_refuse_a_different_runtime_type() {
    let card_param = CardParam {
        prefab_id: 1,
        runtime_specialized_param: Some(CardRuntimeSpecializedConfig {
            type_id: text("trap"),
            params: obj(vec![]),
        }),
    };
    let base = CardSpecializedConfig { id: 7, type_id: text("clue"), params: obj(vec![]) };
    assert!(card_param.merged_specialized_params(base).is_none());
}

#[test]
fn merged_params_without_runtime_keep_the_base() {
    let card_param = CardParam { prefab_id: 1, runtime_specialized_param: None };
    let base = CardSpecializedConfig {
        id: 7,
        type_id: text("clue"),
        params: obj(vec![("a", num("1"))]),
    };
    let (type_id, params) = card_param.merged_specialized_params(base).unwrap();
    assert_eq!(type_id, "clue");
    assert!(same_json(&params, &obj(vec![("a", num("1"))])));
}

#[test]
fn missing_prefab_gives_placeholder_and_no_payload() {
    let config = presets();
    let card_param = CardParam { prefab_id: 42, runtime_specialized_param: None };
    let appearance = card_param.load_appearance(&config);
    assert_eq!(appearance.id, 0);
    assert_eq!(appearance.title, "Placeholder");
    assert_eq!(appearance.image_res_path, "");
    assert!(card_param.load_prefab(&config).is_none());
    let registry = CardSpecializedRegistry::new();
    assert!(card_param.load_specialized_config(&config, &registry, true).is_none());
    assert!(card_param.specialized_payload_to_decode(&config, &registry).is_none());
}

#[test]
fn placeholder_appearance_is_blank() {
    let placeholder = CardAppearanceConfig::placeholder();
    assert_eq!(placeholder.id, 0);
    assert_eq!(placeholder.title, "Placeholder");
    assert_eq!(placeholder.background_color_appearance_override, "");
    assert_eq!(placeholder.image_layout_type, CardImageLayoutType::Normal);
}

#[test]
fn fill_color_plan_prefers_the_appearance_override() {
    let config = presets();
    let registry = CardSpecializedRegistry::new();
    let plan = CardParam { prefab_id: 2002, runtime_specialized_param: None }
        .fill_color_plan(&config, &registry, true);
    assert_eq!(plan.appearance_override.as_deref(), Some("#7D6148FF"));
    assert_eq!(plan.kind, Some(CardKind::Obstacle));

    let missing = CardParam { prefab_id: 9, runtime_specialized_param: None }
        .fill_color_plan(&config, &registry, true);
    assert!(missing.appearance_override.is_none());
    assert!(missing.kind.is_none());
}

#[test]
fn description_lists_title_path_and_prefab_description() {
    let config = presets();
    let with_desc = CardParam { prefab_id: 2002, runtime_specialized_param: None };
    assert_eq!(
        make_description(&with_desc, &config),
        "title: 障碍卡, image_path: /assets/config/pics/wall-bricks.png, desc: wall"
    );
    let without = CardParam { prefab_id: 2003, runtime_specialized_param: None };
    assert_eq!(make_description(&without, &config), "title: 交互卡, image_path: ");
}

#[test]
fn asset_paths_are_normalized() {
    assert_eq!(normalize_asset_path("  "), None);
    assert_eq!(normalize_asset_path(""), None);
    assert_eq!(
        normalize_asset_path(" /assets/config/pics/wall-bricks.png "),
        Some(text("config/pics/wall-bricks.png"))
    );
    assert_eq!(normalize_asset_path("//assets/assets/a\\b.png"), Some(text("a/b.png")));
    assert_eq!(normalize_asset_path("pic/coin.png"), Some(text("pic/coin.png")));
    assert_eq!(normalize_asset_path("/"), Some(text("")));
    assert_eq!(normalize_asset_path("assets"), Some(text("assets")));
}

#[test]
fn spawn_plan_titles_and_kinds_the_card() {
    let config = presets();
    let registry = CardSpecializedRegistry::new();
    let plan = CardParam { prefab_id: 2002, runtime_specialized_param: None }.spawn_plan(
        &config,
        &registry,
        true,
        Some(text("door_open")),
        None,
    );
    assert_eq!(plan.card.title, "障碍卡");
    assert_eq!(plan.card.instance_type.get_prefab_id(), 2002);
    assert_eq!(plan.card.enable_if.as_deref(), Some("door_open"));
    assert!(plan.card.disable_if.is_none());
    assert_eq!(plan.kind, CardKind::Obstacle);
    assert!(plan.starts_disabled);

    let missing = CardParam { prefab_id: 7, runtime_specialized_param: None }.spawn_plan(
        &config,
        &registry,
        true,
        None,
        Some(text("gone")),
    );
    assert_eq!(missing.card.title, "Placeholder");
    assert_eq!(missing.kind, CardKind::Scenery);
    assert!(!missing.starts_disabled);
    assert_eq!(missing.card.disable_if.as_deref(), Some("gone"));
}

#[test]
fn a_payload_that_does_not_decode_gives_no_kind() {
    let config = presets();
    let registry = CardSpecializedRegistry::new();
    let card = CardParam { prefab_id: 2002, runtime_specialized_param: None };
    let payload = card.specialized_payload_to_decode(&config, &registry).expect("registered type");
    assert_eq!(payload.kind, CardKind::Obstacle);
    assert!(card.load_specialized_config(&config, &registry, false).is_none());
    let plan = card.fill_color_plan(&config, &registry, false);
    assert!(plan.kind.is_none());
    assert_eq!(plan.appearance_override.as_deref(), Some("#7D6148FF"));
    let spawned = card.spawn_plan(&config, &registry, false, None, None);
    assert_eq!(spawned.kind, CardKind::Scenery);
}
