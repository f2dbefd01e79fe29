use coin_cards::character::{CharacterConfig, CharacterDefinition};
use coin_cards::config::{AssetConfig, FontType};
use coin_cards::dialogue::dialogue_speaker_name;

fn character(id: u32, name: &str) -> CharacterDefinition {
    CharacterDefinition {
        id,
        name: name.to_string(),
        description: String::new(),
        dialogue_portrait_image_path: String::new(),
        coin_portrait_image_path: String::new(),
    }
}

#[test]
fn character_lookup_by_id() {
    let config = CharacterConfig { characters: vec![character(1, "Ann"), character(7, "Bo")] };
    assert_eq!(config.get(7).map(|c| c.name.as_str()), Some("Bo"));
    assert!(config.get(2).is_none());
    assert!(CharacterConfig::default().get(1).is_none());
}

#[test]
fn speaker_name_falls_back_to_the_id() {
    let config = CharacterConfig { characters: vec![character(1, "Ann")] };
    assert_eq!(dialogue_speaker_name(config.get(1), 1), "Ann");
    assert_eq!(dialogue_speaker_name(config.get(7), 7), "角色 7");
    assert_eq!(dialogue_speaker_name(None, 1204), "角色 1204");
}

#[test]
fn default_font_path() {
    let assets = AssetConfig { default_font: "fonts/main.ttf".to_string() };
    assert_eq!(FontType::Default.get_asset_path(&assets), "fonts/main.ttf");
}
