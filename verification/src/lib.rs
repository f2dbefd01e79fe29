pub mod card;
pub mod card_params;
pub mod character;
pub mod config;
pub mod dialogue;
pub mod editor;
pub mod editor_actions;
pub mod input;
pub mod interaction;
pub mod json;
pub mod key_set;
pub mod lookup;
pub mod main_menu;
pub mod player;
pub mod progress;
pub mod svg;
pub mod terrain;
pub mod text;
