//! Static configuration pieces: assets, fonts, scene sampling and layers.
use vstd::prelude::*;

verus! {

/// Asset settings.
pub struct AssetConfig {
    /// Path of the default font.
    pub default_font: String,
}

/// Scene settings.
#[derive(Clone, Copy, Debug)]
pub struct SceneConfig {
    /// Points sampled on each curve of a Bezier outline.
    pub bezier_steps_per_curve: usize,
}

/// The fonts of the game.
#[derive(Clone, Copy, Debug, PartialEq, Eq, Structural)]
pub enum FontType {
    Default,
}

impl FontType {
    /// The asset path of the font.
    pub fn get_asset_path(&self, assets: &AssetConfig) -> (path: String)
        ensures
            path == assets.default_font,
    {
        match self {
            FontType::Default => assets.default_font.clone(),
        }
    }
}

/// Depth layers of the scene, from back to front.
#[derive(Clone, Copy, Debug, PartialEq, Eq, Structural)]
pub enum SceneLayer {
    TerrainBackground,
    SceneObjects,
    PlayerVision,
    PlayerCoinLandingEffect,
    PlayerCoin,
    GizmoAimingMarker,
    Coin,
}

} // verus!
