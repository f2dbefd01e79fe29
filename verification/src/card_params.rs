//! Card presets (appearances, specialized payloads, prefabs) and the
//! resolution of a scene card against them.
use crate::card::{registered_kind, Card, CardInstanceType, CardKind, CardSpecializedRegistry};
use crate::json::{merge_json_objects, merge_tree, JsonTree, JsonValue};
use crate::lookup::{first_index, lemma_first_index, lemma_first_index_is};
use crate::text::push_str;
use vstd::prelude::*;

verus! {

/// How the picture of a card is laid out.
#[derive(Clone, Copy, Debug, PartialEq, Eq, Structural)]
pub enum CardImageLayoutType {
    Normal,
    Full,
}

/// Appearance preset for a card.
pub struct CardAppearanceConfig {
    pub id: u32,
    pub title: String,
    /// Optional override of the background color, as hex text.
    pub background_color_appearance_override: String,
    pub image_layout_type: CardImageLayoutType,
    pub image_res_path: String,
}

/// A card prefab that binds one appearance preset to one specialized preset.
pub struct CardPrefab {
    pub id: u32,
    pub appearance_id: u32,
    pub specialized_id: u32,
    pub description: Option<String>,
}

/// Specialized preset: a registered type name and its JSON payload.
pub struct CardSpecializedConfig {
    pub id: u32,
    pub type_id: String,
    pub params: JsonValue,
}

/// Specialized override attached to one scene card instance.
pub struct CardRuntimeSpecializedConfig {
    /// Must match the type of the prefab's specialized preset.
    pub type_id: String,
    /// Merged over the prefab's specialized payload.
    pub params: JsonValue,
}

/// All card presets.
pub struct CardPresetsConfig {
    pub appearances: Vec<CardAppearanceConfig>,
    pub specialized: Vec<CardSpecializedConfig>,
    pub prefabs: Vec<CardPrefab>,
}

/// A scene card: its prefab and an optional runtime specialized override.
pub struct CardParam {
    pub prefab_id: u32,
    pub runtime_specialized_param: Option<CardRuntimeSpecializedConfig>,
}

/// The specialized payload a card spawns with: the registered kind, the type
/// name and the merged JSON parameters.
pub struct CardSpecializedPayload {
    pub kind: CardKind,
    pub type_id: String,
    pub params: JsonValue,
}

/// Where a card's fill color comes from: the appearance override (when it is
/// set and parses as a color), else the color of the card kind (when the card
/// has a specialized payload that decodes), else the default fill color.
pub struct CardFillColorPlan {
    pub appearance_override: Option<String>,
    pub kind: Option<CardKind>,
}

//region Lookups

/// Index of the first prefab with id `id`.
pub open spec fn prefab_index(prefabs: Seq<CardPrefab>, id: u32) -> int {
    first_index(prefabs, |p: CardPrefab| p.id == id)
}

/// Index of the first appearance with id `id`.
pub open spec fn appearance_index(appearances: Seq<CardAppearanceConfig>, id: u32) -> int {
    first_index(appearances, |a: CardAppearanceConfig| a.id == id)
}

/// Index of the first specialized preset with id `id`.
pub open spec fn specialized_index(specialized: Seq<CardSpecializedConfig>, id: u32) -> int {
    first_index(specialized, |s: CardSpecializedConfig| s.id == id)
}

/// The placeholder appearance shown for cards without one.
pub open spec fn is_placeholder(a: CardAppearanceConfig) -> bool {
    &&& a.id == 0
    &&& a.title@ == "Placeholder"@
    &&& a.background_color_appearance_override@.len() == 0
    &&& a.image_layout_type == CardImageLayoutType::Normal
    &&& a.image_res_path@.len() == 0
}

/// The specialized type name and payload of a card whose prefab's preset is
/// `base`: the base payload when the card has no override, the override
/// merged over it when the types match, nothing when they differ.
pub open spec fn merged_params_view(
    runtime: Option<CardRuntimeSpecializedConfig>,
    base: CardSpecializedConfig,
) -> Option<(Seq<char>, JsonTree)> {
    match runtime {
        None => Some((base.type_id@, base.params@)),
        Some(rt) => if rt.type_id@ != base.type_id@ {
            None
        } else {
            Some((base.type_id@, merge_tree(base.params@, rt.params@)))
        },
    }
}

/// The specialized payload of a card: its prefab, the prefab's specialized
/// preset, the merged payload and the kind registered for its type.
pub open spec fn specialized_payload(param: CardParam, config: CardPresetsConfig) -> Option<
    (CardKind, Seq<char>, JsonTree),
> {
    let pi = prefab_index(config.prefabs@, param.prefab_id);
    if pi < 0 {
        None
    } else {
        let si = specialized_index(config.specialized@, config.prefabs@[pi].specialized_id);
        if si < 0 {
            None
        } else {
            match merged_params_view(param.runtime_specialized_param, config.specialized@[si]) {
                None => None,
                Some(merged) => match registered_kind(merged.0) {
                    None => None,
                    Some(kind) => Some((kind, merged.0, merged.1)),
                },
            }
        }
    }
}

/// The index of the appearance of a card, or -1 when the card has no prefab
/// or its prefab's appearance is missing.
pub open spec fn card_appearance_index(param: CardParam, config: CardPresetsConfig) -> int {
    let pi = prefab_index(config.prefabs@, param.prefab_id);
    if pi < 0 {
        -1
    } else {
        appearance_index(config.appearances@, config.prefabs@[pi].appearance_id)
    }
}

/// The appearance color override of a card: its appearance's, when set.
pub open spec fn appearance_override(param: CardParam, config: CardPresetsConfig) -> Option<
    Seq<char>,
> {
    let ai = card_appearance_index(param, config);
    let hex = if ai >= 0 {
        config.appearances@[ai].background_color_appearance_override@
    } else {
        Seq::<char>::empty()
    };
    if hex.len() == 0 {
        None
    } else {
        Some(hex)
    }
}

//endregion

impl CardAppearanceConfig {
    /// The appearance used when none is configured.
    pub fn placeholder() -> (a: Self)
        ensures
            is_placeholder(a),
    {
        let mut title = String::new();
        push_str(&mut title, "Placeholder");
        assert(title@ =~= "Placeholder"@);
        CardAppearanceConfig {
            id: 0,
            title,
            background_color_appearance_override: String::new(),
            image_layout_type: CardImageLayoutType::Normal,
            image_res_path: String::new(),
        }
    }

    /// A copy of this appearance.
    pub fn duplicate(&self) -> (a: Self)
        ensures
            a == *self,
    {
        CardAppearanceConfig {
            id: self.id,
            title: self.title.clone(),
            background_color_appearance_override: self.background_color_appearance_override.clone(),
            image_layout_type: self.image_layout_type,
            image_res_path: self.image_res_path.clone(),
        }
    }
}

impl CardPrefab {
    /// A copy of this prefab.
    pub fn duplicate(&self) -> (p: Self)
        ensures
            p == *self,
    {
        let description = match &self.description {
            Some(d) => Some(d.clone()),
            None => None,
        };
        CardPrefab {
            id: self.id,
            appearance_id: self.appearance_id,
            specialized_id: self.specialized_id,
            description,
        }
    }
}

impl CardSpecializedConfig {
    /// A copy of this preset.
    pub fn duplicate(&self) -> (c: Self)
        ensures
            c.id == self.id,
            c.type_id == self.type_id,
            c.params@ == self.params@,
    {
        CardSpecializedConfig {
            id: self.id,
            type_id: self.type_id.clone(),
            params: self.params.duplicate(),
        }
    }
}

fn find_prefab(prefabs: &Vec<CardPrefab>, id: u32) -> (r: Option<usize>)
    ensures
        match r {
            Some(i) => i as int == prefab_index(prefabs@, id),
            None => prefab_index(prefabs@, id) == -1,
        },
{
    let ghost p = |x: CardPrefab| x.id == id;
    let mut i: usize = 0;
    while i < prefabs.len()
        invariant
            i <= prefabs@.len(),
            p == (|x: CardPrefab| x.id == id),
            forall|j: int| 0 <= j < i ==> !p(#[trigger] prefabs@[j]),
        decreases prefabs@.len() - i,
    {
        if prefabs[i].id == id {
            proof {
                lemma_first_index_is(prefabs@, p, i as int);
            }
            return Some(i);
        }
        i = i + 1;
    }
    proof {
        lemma_first_index_is(prefabs@, p, -1);
    }
    None
}

fn find_appearance(appearances: &Vec<CardAppearanceConfig>, id: u32) -> (r: Option<usize>)
    ensures
        match r {
            Some(i) => i as int == appearance_index(appearances@, id),
            None => appearance_index(appearances@, id) == -1,
        },
{
    let ghost p = |x: CardAppearanceConfig| x.id == id;
    let mut i: usize = 0;
    while i < appearances.len()
        invariant
            i <= appearances@.len(),
            p == (|x: CardAppearanceConfig| x.id == id),
            forall|j: int| 0 <= j < i ==> !p(#[trigger] appearances@[j]),
        decreases appearances@.len() - i,
    {
        if appearances[i].id == id {
            proof {
                lemma_first_index_is(appearances@, p, i as int);
            }
            return Some(i);
        }
        i = i + 1;
    }
    proof {
        lemma_first_index_is(appearances@, p, -1);
    }
    None
}

fn find_specialized(specialized: &Vec<CardSpecializedConfig>, id: u32) -> (r: Option<usize>)
    ensures
        match r {
            Some(i) => i as int == specialized_index(specialized@, id),
            None => specialized_index(specialized@, id) == -1,
        },
{
    let ghost p = |x: CardSpecializedConfig| x.id == id;
    let mut i: usize = 0;
    while i < specialized.len()
        invariant
            i <= specialized@.len(),
            p == (|x: CardSpecializedConfig| x.id == id),
            forall|j: int| 0 <= j < i ==> !p(#[trigger] specialized@[j]),
        decreases specialized@.len() - i,
    {
        if specialized[i].id == id {
            proof {
                lemma_first_index_is(specialized@, p, i as int);
            }
            return Some(i);
        }
        i = i + 1;
    }
    proof {
        lemma_first_index_is(specialized@, p, -1);
    }
    None
}

impl CardParam {
    /// The first prefab whose id is this card's prefab id.
    pub fn load_prefab(&self, config: &CardPresetsConfig) -> (prefab: Option<CardPrefab>)
        ensures
            ({
                let i = prefab_index(config.prefabs@, self.prefab_id);
                prefab == if i >= 0 {
                    Some(config.prefabs@[i])
                } else {
                    None::<CardPrefab>
                }
            }),
    {
        proof {
            lemma_first_index(config.prefabs@, |p: CardPrefab| p.id == self.prefab_id);
        }
        match find_prefab(&config.prefabs, self.prefab_id) {
            Some(i) => Some(config.prefabs[i].duplicate()),
            None => None,
        }
    }

    /// The appearance of this card's prefab, or the placeholder when the
    /// prefab or its appearance is missing.
    pub fn load_appearance(&self, config: &CardPresetsConfig) -> (appearance: CardAppearanceConfig)
        ensures
            ({
                let ai = card_appearance_index(*self, *config);
                if ai >= 0 {
                    appearance == config.appearances@[ai]
                } else {
                    is_placeholder(appearance)
                }
            }),
    {
        let prefab = match self.load_prefab(config) {
            Some(p) => p,
            None => {
                return CardAppearanceConfig::placeholder();
            },
        };
        proof {
            lemma_first_index(
                config.appearances@,
                |a: CardAppearanceConfig| a.id == prefab.appearance_id,
            );
        }
        match find_appearance(&config.appearances, prefab.appearance_id) {
            Some(i) => config.appearances[i].duplicate(),
            None => CardAppearanceConfig::placeholder(),
        }
    }

    /// The specialized type name and payload of this card when its prefab's
    /// preset is `base`: the base payload without an override, the override
    /// merged over it when the types match, `None` when they differ.
    pub fn merged_specialized_params(&self, base: CardSpecializedConfig) -> (merged: Option<
        (String, JsonValue),
    >)
        ensures
            match merged {
                None => merged_params_view(self.runtime_specialized_param, base) is None,
                Some(m) => merged_params_view(self.runtime_specialized_param, base) == Some(
                    (m.0@, m.1@),
                ),
            },
    {
        match &self.runtime_specialized_param {
            None => Some((base.type_id, base.params)),
            Some(runtime) => {
                if runtime.type_id != base.type_id {
                    return None;
                }
                let runtime_params = runtime.params.duplicate();
                let type_id = base.type_id;
                Some((type_id, merge_json_objects(base.params, runtime_params)))
            },
        }
    }

    /// The specialized payload to decode for this card: the preset of its
    /// prefab, with the card's override merged in, and the kind registered
    /// for its type. `None` when the prefab or preset is missing, the
    /// override's type differs, or the type is not registered.
    pub fn specialized_payload_to_decode(
        &self,
        config: &CardPresetsConfig,
        registry: &CardSpecializedRegistry,
    ) -> (payload: Option<CardSpecializedPayload>)
        ensures
            match payload {
                None => specialized_payload(*self, *config) is None,
                Some(p) => specialized_payload(*self, *config) == Some((p.kind, p.type_id@, p.params@)),
            },
    {
        let prefab = match self.load_prefab(config) {
            Some(p) => p,
            None => {
                return None;
            },
        };
        proof {
            lemma_first_index(
                config.specialized@,
                |s: CardSpecializedConfig| s.id == prefab.specialized_id,
            );
        }
        let base = match find_specialized(&config.specialized, prefab.specialized_id) {
            Some(i) => config.specialized[i].duplicate(),
            None => {
                return None;
            },
        };
        let ghost base_view = config.specialized@[specialized_index(
            config.specialized@,
            prefab.specialized_id,
        )];
        assert(merged_params_view(self.runtime_specialized_param, base) == merged_params_view(
            self.runtime_specialized_param,
            base_view,
        ));
        let (type_id, params) = match self.merged_specialized_params(base) {
            Some(m) => m,
            None => {
                return None;
            },
        };
        match registry.get(type_id.as_str()) {
            Some(kind) => Some(CardSpecializedPayload { kind, type_id, params }),
            None => None,
        }
    }

    /// The specialized config this card spawns with: the payload of
    /// `specialized_payload_to_decode` when it decodes into the parameters of
    /// its kind (`decodes`: the outcome of that decode, which the caller makes
    /// with serde), `None` otherwise.
    pub fn load_specialized_config(
        &self,
        config: &CardPresetsConfig,
        registry: &CardSpecializedRegistry,
        decodes: bool,
    ) -> (loaded: Option<CardSpecializedPayload>)
        ensures
            match loaded {
                None => !decodes || specialized_payload(*self, *config) is None,
                Some(p) => decodes && specialized_payload(*self, *config) == Some(
                    (p.kind, p.type_id@, p.params@),
                ),
            },
    {
        if !decodes {
            return None;
        }
        self.specialized_payload_to_decode(config, registry)
    }

    /// Where this card's fill color comes from; `decodes` tells whether its
    /// specialized payload decodes (see `load_specialized_config`).
    pub fn fill_color_plan(
        &self,
        config: &CardPresetsConfig,
        registry: &CardSpecializedRegistry,
        decodes: bool,
    ) -> (plan: CardFillColorPlan)
        ensures
            ({
                let ai = card_appearance_index(*self, *config);
                let hex = if ai >= 0 {
                    config.appearances@[ai].background_color_appearance_override@
                } else {
                    Seq::<char>::empty()
                };
                &&& match plan.appearance_override {
                    None => hex.len() == 0,
                    Some(o) => hex.len() > 0 && o@ == hex,
                }
                &&& plan.kind == loaded_kind(*self, *config, decodes)
            }),
    {
        let appearance = self.load_appearance(config);
        let appearance_override = if appearance.background_color_appearance_override.as_str().is_empty() {
            None
        } else {
            Some(appearance.background_color_appearance_override)
        };
        let kind = match self.load_specialized_config(config, registry, decodes) {
            Some(p) => Some(p.kind),
            None => None,
        };
        CardFillColorPlan { appearance_override, kind }
    }
}

/// The kind of the specialized config a card spawns with: that of its
/// specialized payload, when the payload decodes (`decodes`).
pub open spec fn loaded_kind(param: CardParam, config: CardPresetsConfig, decodes: bool) -> Option<
    CardKind,
> {
    match specialized_payload(param, config) {
        Some(p) => if decodes {
            Some(p.0)
        } else {
            None
        },
        None => None,
    }
}

/// The title a card shows: its appearance's, or the placeholder's.
pub open spec fn card_title(param: CardParam, config: CardPresetsConfig) -> Seq<char> {
    let ai = card_appearance_index(param, config);
    if ai >= 0 {
        config.appearances@[ai].title@
    } else {
        "Placeholder"@
    }
}

/// What a scene card spawns as.
pub struct CardSpawnPlan {
    /// The card: titled by its appearance, an instance of its prefab.
    pub card: Card,
    /// The kind of its specialized payload when that decodes; scenery
    /// otherwise.
    pub kind: CardKind,
    /// A card with an `enable_if` key starts disabled and hidden.
    pub starts_disabled: bool,
}

impl CardParam {
    /// What this card spawns as, with the conditions `enable_if` and
    /// `disable_if` of its place in the scene; `decodes` tells whether its
    /// specialized payload decodes (see `load_specialized_config`).
    pub fn spawn_plan(
        &self,
        config: &CardPresetsConfig,
        registry: &CardSpecializedRegistry,
        decodes: bool,
        enable_if: Option<String>,
        disable_if: Option<String>,
    ) -> (plan: CardSpawnPlan)
        ensures
            plan.card.title@ == card_title(*self, *config),
            plan.card.instance_type == CardInstanceType::Prefab(self.prefab_id),
            plan.card.enable_if == enable_if,
            plan.card.disable_if == disable_if,
            plan.kind == match loaded_kind(*self, *config, decodes) {
                Some(k) => k,
                None => CardKind::Scenery,
            },
            plan.starts_disabled == enable_if is Some,
    {
        let appearance = self.load_appearance(config);
        let kind = match self.load_specialized_config(config, registry, decodes) {
            Some(p) => p.kind,
            None => CardKind::Scenery,
        };
        let starts_disabled = enable_if.is_some();
        CardSpawnPlan {
            card: Card {
                title: appearance.title,
                instance_type: CardInstanceType::Prefab(self.prefab_id),
                enable_if,
                disable_if,
            },
            kind,
            starts_disabled,
        }
    }
}

/// The editor description of a scene card:
/// `title: <title>, image_path: <path>` followed by `, desc: <description>`
/// when the card's prefab has a description.
pub open spec fn description_text(param: CardParam, config: CardPresetsConfig) -> Seq<char> {
    let ai = card_appearance_index(param, config);
    let title = if ai >= 0 {
        config.appearances@[ai].title@
    } else {
        "Placeholder"@
    };
    let path = if ai >= 0 {
        config.appearances@[ai].image_res_path@
    } else {
        Seq::<char>::empty()
    };
    let pi = prefab_index(config.prefabs@, param.prefab_id);
    let desc = if pi >= 0 {
        match config.prefabs@[pi].description {
            Some(d) => ", desc: "@ + d@,
            None => Seq::<char>::empty(),
        }
    } else {
        Seq::<char>::empty()
    };
    "title: "@ + title + ", image_path: "@ + path + desc
}

/// Describes a scene card for the editor.
pub fn make_description(card_param: &CardParam, card_presets_config: &CardPresetsConfig) -> (text:
    String)
    ensures
        text@ == description_text(*card_param, *card_presets_config),
{
    let appearance = card_param.load_appearance(card_presets_config);
    let prefab = card_param.load_prefab(card_presets_config);
    let mut text = String::new();
    push_str(&mut text, "title: ");
    push_str(&mut text, appearance.title.as_str());
    push_str(&mut text, ", image_path: ");
    push_str(&mut text, appearance.image_res_path.as_str());
    let ghost before_desc = text@;
    match prefab {
        Some(p) => match p.description {
            Some(d) => {
                push_str(&mut text, ", desc: ");
                push_str(&mut text, d.as_str());
                assert(text@ =~= before_desc + (", desc: "@ + d@));
            },
            None => {
                assert(text@ =~= before_desc + Seq::<char>::empty());
            },
        },
        None => {
            assert(text@ =~= before_desc + Seq::<char>::empty());
        },
    }
    text
}

} // verus!
