//! Character presets.
use crate::lookup::{first_index, lemma_first_index_is};
use vstd::prelude::*;

verus! {

/// A character preset.
pub struct CharacterDefinition {
    /// Character id; dialogue nodes name their speaker by it.
    pub id: u32,
    pub name: String,
    pub description: String,
    pub dialogue_portrait_image_path: String,
    pub coin_portrait_image_path: String,
}

/// All character presets.
pub struct CharacterConfig {
    pub characters: Vec<CharacterDefinition>,
}

/// Index of the first character with id `id`, or -1.
pub open spec fn character_index(characters: Seq<CharacterDefinition>, id: u32) -> int {
    first_index(characters, |c: CharacterDefinition| c.id == id)
}

impl CharacterConfig {
    /// The first character with id `id`.
    pub fn get(&self, id: u32) -> (character: Option<&CharacterDefinition>)
        ensures
            ({
                let i = character_index(self.characters@, id);
                match character {
                    Some(c) => i >= 0 && *c == self.characters@[i],
                    None => i == -1,
                }
            }),
    {
        let ghost p = |c: CharacterDefinition| c.id == id;
        let mut i: usize = 0;
        while i < self.characters.len()
            invariant
                i <= self.characters@.len(),
                p == (|c: CharacterDefinition| c.id == id),
                forall|j: int| 0 <= j < i ==> !p(#[trigger] self.characters@[j]),
            decreases self.characters@.len() - i,
        {
            if self.characters[i].id == id {
                proof {
                    lemma_first_index_is(self.characters@, p, i as int);
                }
                return Some(&self.characters[i]);
            }
            i = i + 1;
        }
        proof {
            lemma_first_index_is(self.characters@, p, -1);
        }
        None
    }
}

impl Default for CharacterConfig {
    fn default() -> (c: Self)
        ensures
            c.characters@.len() == 0,
    {
        CharacterConfig { characters: Vec::new() }
    }
}

} // verus!
