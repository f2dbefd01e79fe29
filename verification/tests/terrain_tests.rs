use coin_cards::terrain::{
    default_appearance_id, default_rejection_attempts, deterministic_rotation_step,
    terrain_path_is_closed_area, TerrainPresetConfig, TerrainPresetsConfig, TerrainType,
};
use rand::{Rng, SeedableRng};
use rand_chacha::ChaCha8Rng;

fn preset(id: u32, name: &str) -> TerrainPresetConfig {
    TerrainPresetConfig {
        id,
        name: name.to_string(),
        appearance_ids: vec![100014],
        rejection_attempts: 30,
        max_cards: None,
    }
}

#[test]
fn terrain_defaults() {
    assert_eq!(default_rejection_attempts(), 30);
    assert_eq!(default_appearance_id(), 100014);
    assert_eq!(TerrainType::default(), TerrainType::Trap);
}

#[test]
fn terrain_preset_lookup_takes_the_first_match() {
    let presets = TerrainPresetsConfig {
        terrains: vec![preset(1, "lake"), preset(2, "forest"), preset(2, "second forest")],
    };
    assert_eq!(presets.get(2).map(|t| t.name.as_str()), Some("forest"));
    assert_eq!(presets.get(1).map(|t| t.name.as_str()), Some("lake"));
    assert!(presets.get(3).is_none());
}

#[test]
fn closed_area_needs_three_points() {
    assert!(!terrain_path_is_closed_area(0));
    assert!(!terrain_path_is_closed_area(2));
    assert!(terrain_path_is_closed_area(3));
}

#[test]
fn rotation_step_matches_the_seeded_generator() {
    for (index, seed) in [(0u64, 7u64), (3, 7), (5, 1000), (1, u64::MAX)] {
        let mut rng = ChaCha8Rng::seed_from_u64(seed.wrapping_add(index));
        let expected: u32 = rng.random_range(0..12);
        let step = deterministic_rotation_step(index, seed);
        assert_eq!(step, expected);
        assert!(step < 12);
        assert_eq!(deterministic_rotation_step(index, seed), step);
    }
}

#[test]
fn rotation_step_depends_on_the_index() {
    let steps: Vec<u32> = (0..24).map(|i| deterministic_rotation_step(i, 42)).collect();
    assert!(steps.iter().any(|s| *s != steps[0]));
}
