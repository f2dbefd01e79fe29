//! Terrains: their types, presets, defaults, and the seeded rotation steps
//! of the scenery cards that fill them.
use crate::lookup::{first_index, lemma_first_index_is};
use rand::{Rng, SeedableRng};
use rand_chacha::ChaCha8Rng;
use vstd::prelude::*;

verus! {

/// What a terrain does to the player.
#[derive(Clone, Copy, Debug, PartialEq, Eq, Structural)]
pub enum TerrainType {
    /// The player falls into it.
    Trap,
    /// Decoration only.
    Scenery,
}

impl Default for TerrainType {
    fn default() -> (t: Self)
        ensures
            t == TerrainType::Trap,
    {
        TerrainType::Trap
    }
}

/// Marker of terrains whose boundary mesh has been built.
#[derive(Clone, Copy, Debug, Default)]
pub struct TerrainBoundaryMeshSpawned;

/// Rejection attempts of the fill sampling when a terrain leaves it unset.
pub fn default_rejection_attempts() -> (attempts: usize)
    ensures
        attempts == 30,
{
    30
}

/// Appearance of the fill cards when a terrain leaves it unset.
pub fn default_appearance_id() -> (id: u32)
    ensures
        id == 100014,
{
    100014
}

/// A terrain preset (its shape and spacing are geometry kept by the
/// caller).
pub struct TerrainPresetConfig {
    pub id: u32,
    pub name: String,
    pub appearance_ids: Vec<u32>,
    pub rejection_attempts: usize,
    pub max_cards: Option<usize>,
}

/// All terrain presets.
pub struct TerrainPresetsConfig {
    pub terrains: Vec<TerrainPresetConfig>,
}

/// Index of the first terrain preset with id `id`, or -1.
pub open spec fn terrain_index(terrains: Seq<TerrainPresetConfig>, id: u32) -> int {
    first_index(terrains, |t: TerrainPresetConfig| t.id == id)
}

impl TerrainPresetsConfig {
    /// The first terrain preset with id `id`.
    pub fn get(&self, id: u32) -> (terrain: Option<&TerrainPresetConfig>)
        ensures
            ({
                let i = terrain_index(self.terrains@, id);
                match terrain {
                    Some(t) => i >= 0 && *t == self.terrains@[i],
                    None => i == -1,
                }
            }),
    {
        let ghost p = |t: TerrainPresetConfig| t.id == id;
        let mut i: usize = 0;
        while i < self.terrains.len()
            invariant
                i <= self.terrains@.len(),
                p == (|t: TerrainPresetConfig| t.id == id),
                forall|j: int| 0 <= j < i ==> !p(#[trigger] self.terrains@[j]),
            decreases self.terrains@.len() - i,
        {
            if self.terrains[i].id == id {
                proof {
                    lemma_first_index_is(self.terrains@, p, i as int);
                }
                return Some(&self.terrains[i]);
            }
            i = i + 1;
        }
        proof {
            lemma_first_index_is(self.terrains@, p, -1);
        }
        None
    }
}

/// Whether a terrain path encloses an area: it needs at least three points.
pub fn terrain_path_is_closed_area(point_count: usize) -> (r: bool)
    ensures
        r == (point_count >= 3),
{
    point_count >= 3
}

/// Number of scene rotation steps in a full turn (steps of 30 degrees).
pub open spec fn rotation_steps_per_turn() -> u32 {
    12
}

/// The step that a ChaCha8 generator seeded with `seed` (through
/// `SeedableRng::seed_from_u64`) draws first from `0..step_count`.
pub uninterp spec fn chacha8_first_step(seed: u64, step_count: u32) -> u32;

/// `ChaCha8Rng::seed_from_u64(seed).random_range(0..step_count)`: a value
/// below `step_count` that depends on the seed and the range alone.
#[verifier::external_body]
fn seeded_random_step(seed: u64, step_count: u32) -> (step: u32)
    requires
        step_count > 0,
    ensures
        step == chacha8_first_step(seed, step_count),
        step < step_count,
{
    let mut rng = ChaCha8Rng::seed_from_u64(seed);
    rng.random_range(0..step_count)
}

/// The rotation step of the `index`-th fill card of a terrain with seed
/// `seed`: the same for the same terrain on every run.
pub fn deterministic_rotation_step(index: u64, seed: u64) -> (step: u32)
    ensures
        step == chacha8_first_step(seed.wrapping_add(index), rotation_steps_per_turn()),
        step < rotation_steps_per_turn(),
{
    seeded_random_step(seed.wrapping_add(index), 12)
}

} // verus!
