//! Cards: their kinds, the registry of specialized card types, and asset
//! path normalization.
use crate::lookup::{first_index, lemma_first_index, lemma_first_index_is};
use crate::text::{char_is_space, is_space, push_str, same_text, trim, trimmed_chars};
use vstd::prelude::*;

verus! {

/// The behaviour a card takes on in a scene.
#[derive(Clone, Copy, Debug, PartialEq, Eq, Structural)]
pub enum CardKind {
    Scenery,
    Obstacle,
    Interaction,
    Clue,
    Trap,
}

/// How a card instance was created.
#[derive(Clone, Copy, Debug, PartialEq, Eq, Structural)]
pub enum CardInstanceType {
    Prefab(u32),
}

impl CardInstanceType {
    /// The prefab the card was created from.
    pub fn get_prefab_id(&self) -> (id: u32)
        ensures
            id == self->Prefab_0,
    {
        match self {
            CardInstanceType::Prefab(id) => *id,
        }
    }
}

/// A card placed in the scene.
pub struct Card {
    pub title: String,
    pub instance_type: CardInstanceType,
    /// Progress key that must be unlocked for the card to be enabled.
    pub enable_if: Option<String>,
    /// Progress key whose unlocking disables the card.
    pub disable_if: Option<String>,
}

//region Specialized type installers

/// Installs the scenery card type.
pub struct SceneryCardSpecializedInstaller;

/// Installs the obstacle card type.
pub struct ObstacleCardSpecializedInstaller;

/// Installs the interactive card type.
pub struct InteractiveCardSpecializedInstaller;

/// Installs the clue card type.
pub struct ClueCardSpecializedInstaller;

/// Installs the trap card type.
pub struct TrapCardSpecializedInstaller;

impl SceneryCardSpecializedInstaller {
    /// Registered type name.
    pub fn type_id() -> (id: &'static str)
        ensures
            id@ == "scenery"@,
    {
        "scenery"
    }
}

impl ObstacleCardSpecializedInstaller {
    /// Registered type name.
    pub fn type_id() -> (id: &'static str)
        ensures
            id@ == "obstacle"@,
    {
        "obstacle"
    }
}

impl InteractiveCardSpecializedInstaller {
    /// Registered type name.
    pub fn type_id() -> (id: &'static str)
        ensures
            id@ == "interactive"@,
    {
        "interactive"
    }
}

impl ClueCardSpecializedInstaller {
    /// Registered type name.
    pub fn type_id() -> (id: &'static str)
        ensures
            id@ == "clue"@,
    {
        "clue"
    }
}

impl TrapCardSpecializedInstaller {
    /// Registered type name.
    pub fn type_id() -> (id: &'static str)
        ensures
            id@ == "trap"@,
    {
        "trap"
    }
}

/// Specialized parameters of scenery cards: there are none.
#[derive(Clone, Copy, Debug, Default)]
pub struct SceneryCardParams {}

impl SceneryCardParams {
    /// Scenery cards are scenery.
    pub fn kind(&self) -> (kind: CardKind)
        ensures
            kind == CardKind::Scenery,
    {
        CardKind::Scenery
    }
}

//endregion

//region Registry

/// One registered specialized card type: its name and the kind of card its
/// parameters spawn.
pub struct CardSpecializedRegistration {
    pub type_id: String,
    pub kind: CardKind,
}

/// The specialized card types the game knows, in registration order.
pub open spec fn registered_types() -> Seq<(Seq<char>, CardKind)> {
    seq![
        ("scenery"@, CardKind::Scenery),
        ("obstacle"@, CardKind::Obstacle),
        ("interactive"@, CardKind::Interaction),
        ("clue"@, CardKind::Clue),
        ("trap"@, CardKind::Trap),
    ]
}

/// Index of the first registration named `type_id`.
pub open spec fn registration_index(type_id: Seq<char>) -> int {
    first_index(registered_types(), |r: (Seq<char>, CardKind)| r.0 == type_id)
}

/// The kind registered under `type_id`, if any.
pub open spec fn registered_kind(type_id: Seq<char>) -> Option<CardKind> {
    let i = registration_index(type_id);
    if i >= 0 {
        Some(registered_types()[i].1)
    } else {
        None
    }
}

/// Registrations as names and kinds.
pub open spec fn registration_entries(v: Seq<CardSpecializedRegistration>) -> Seq<(Seq<char>, CardKind)> {
    Seq::new(v.len(), |i: int| (v[i].type_id@, v[i].kind))
}

/// The registry of specialized card types.
pub struct CardSpecializedRegistry {
    registrations: Vec<CardSpecializedRegistration>,
}

impl CardSpecializedRegistry {
    /// The registrations, as names and kinds.
    pub closed spec fn entries(&self) -> Seq<(Seq<char>, CardKind)> {
        registration_entries(self.registrations@)
    }

    #[verifier::type_invariant]
    spec fn holds_registered_types(&self) -> bool {
        self.entries() == registered_types()
    }

    fn registration(type_id: &str, kind: CardKind) -> (r: CardSpecializedRegistration)
        ensures
            r.type_id@ == type_id@,
            r.kind == kind,
    {
        let mut name = String::new();
        push_str(&mut name, type_id);
        assert(name@ =~= type_id@);
        CardSpecializedRegistration { type_id: name, kind }
    }

    /// The registry holding every specialized card type of the game.
    pub fn new() -> (registry: Self)
        ensures
            registry.entries() == registered_types(),
    {
        let mut registrations: Vec<CardSpecializedRegistration> = Vec::new();
        registrations.push(
            Self::registration(SceneryCardSpecializedInstaller::type_id(), CardKind::Scenery),
        );
        registrations.push(
            Self::registration(ObstacleCardSpecializedInstaller::type_id(), CardKind::Obstacle),
        );
        registrations.push(
            Self::registration(
                InteractiveCardSpecializedInstaller::type_id(),
                CardKind::Interaction,
            ),
        );
        registrations.push(
            Self::registration(ClueCardSpecializedInstaller::type_id(), CardKind::Clue),
        );
        registrations.push(
            Self::registration(TrapCardSpecializedInstaller::type_id(), CardKind::Trap),
        );
        assert(registration_entries(registrations@) =~= registered_types());
        CardSpecializedRegistry { registrations }
    }

    /// The kind of card spawned by the specialized type named `type_id`.
    pub fn get(&self, type_id: &str) -> (kind: Option<CardKind>)
        ensures
            kind == registered_kind(type_id@),
    {
        proof {
            use_type_invariant(self);
        }
        let ghost p = |r: (Seq<char>, CardKind)| r.0 == type_id@;
        proof {
            lemma_first_index(registered_types(), p);
        }
        let mut i: usize = 0;
        while i < self.registrations.len()
            invariant
                i <= self.registrations@.len(),
                self.entries() == registered_types(),
                p == (|r: (Seq<char>, CardKind)| r.0 == type_id@),
                forall|j: int| 0 <= j < i ==> !p(#[trigger] self.entries()[j]),
            decreases self.registrations@.len() - i,
        {
            if same_text(self.registrations[i].type_id.as_str(), type_id) {
                proof {
                    assert(self.entries()[i as int] == (
                        self.registrations@[i as int].type_id@,
                        self.registrations@[i as int].kind,
                    ));
                    lemma_first_index_is(registered_types(), p, i as int);
                }
                return Some(self.registrations[i].kind);
            }
            proof {
                assert(self.entries()[i as int] == (
                    self.registrations@[i as int].type_id@,
                    self.registrations@[i as int].kind,
                ));
            }
            i = i + 1;
        }
        proof {
            lemma_first_index_is(registered_types(), p, -1);
        }
        None
    }
}

impl Default for CardSpecializedRegistry {
    fn default() -> (registry: Self)
        ensures
            registry.entries() == registered_types(),
    {
        CardSpecializedRegistry::new()
    }
}

//endregion

//region Asset paths

/// `s` without its leading copies of `c`.
pub open spec fn strip_leading_char(s: Seq<char>, c: char) -> Seq<char>
    decreases s.len(),
{
    if s.len() > 0 && s[0] == c {
        strip_leading_char(s.drop_first(), c)
    } else {
        s
    }
}

/// `s` without its leading copies of the non-empty word `w`.
pub open spec fn strip_leading_word(s: Seq<char>, w: Seq<char>) -> Seq<char>
    decreases s.len(),
{
    if w.len() > 0 && w.len() <= s.len() && s.take(w.len() as int) == w {
        strip_leading_word(s.skip(w.len() as int), w)
    } else {
        s
    }
}

/// The asset directory prefix that asset paths may carry.
pub open spec fn assets_dir() -> Seq<char> {
    seq!['a', 's', 's', 'e', 't', 's', '/']
}

/// `s` with every backslash turned into a slash.
pub open spec fn forward_slashes(s: Seq<char>) -> Seq<char> {
    Seq::new(s.len(), |i: int| if s[i] == '\\' { '/' } else { s[i] })
}

/// An asset path relative to the asset directory: trimmed, without leading
/// slashes or `assets/` prefixes, with forward slashes.
pub open spec fn normalized_asset_path(path: Seq<char>) -> Seq<char> {
    forward_slashes(strip_leading_word(strip_leading_char(trim(path), '/'), assets_dir()))
}

fn assets_dir_at(cs: &[char], k: usize) -> (r: bool)
    requires
        k <= cs@.len(),
    ensures
        r == (7 <= cs@.len() - k && cs@.skip(k as int).take(7) == assets_dir()),
{
    if cs.len() - k < 7 {
        return false;
    }
    let r = cs[k] == 'a' && cs[k + 1] == 's' && cs[k + 2] == 's' && cs[k + 3] == 'e' && cs[k
        + 4] == 't' && cs[k + 5] == 's' && cs[k + 6] == '/';
    if r {
        assert(cs@.skip(k as int).take(7) =~= assets_dir());
    } else {
        assert(cs@.skip(k as int).take(7) != assets_dir()) by {
            if cs@.skip(k as int).take(7) == assets_dir() {
                assert(cs@.skip(k as int).take(7)[0] == cs@[k as int]);
                assert(cs@.skip(k as int).take(7)[1] == cs@[k + 1]);
                assert(cs@.skip(k as int).take(7)[2] == cs@[k + 2]);
                assert(cs@.skip(k as int).take(7)[3] == cs@[k + 3]);
                assert(cs@.skip(k as int).take(7)[4] == cs@[k + 4]);
                assert(cs@.skip(k as int).take(7)[5] == cs@[k + 5]);
                assert(cs@.skip(k as int).take(7)[6] == cs@[k + 6]);
            }
        }
    }
    r
}

/// Normalizes a configured asset path: `None` for a blank path, otherwise
/// the trimmed path without leading slashes and `assets/` prefixes, with
/// backslashes turned into slashes.
pub fn normalize_asset_path(path: &str) -> (normalized: Option<String>)
    ensures
        match normalized {
            None => trim(path@).len() == 0,
            Some(p) => trim(path@).len() > 0 && p@ == normalized_asset_path(path@),
        },
{
    let cs = trimmed_chars(path);
    if cs.len() == 0 {
        return None;
    }
    let mut k: usize = 0;
    assert(cs@.skip(0) =~= cs@);
    while k < cs.len() && cs[k] == '/'
        invariant
            k <= cs@.len(),
            strip_leading_char(cs@, '/') == strip_leading_char(cs@.skip(k as int), '/'),
        decreases cs@.len() - k,
    {
        assert(cs@.skip(k as int).drop_first() =~= cs@.skip(k + 1));
        k = k + 1;
    }
    let ghost after_slashes = cs@.skip(k as int);
    assert(strip_leading_char(cs@, '/') == after_slashes);
    assert(after_slashes =~= cs@.skip(k as int));
    while assets_dir_at(&cs, k)
        invariant
            k <= cs@.len(),
            strip_leading_word(after_slashes, assets_dir()) == strip_leading_word(
                cs@.skip(k as int),
                assets_dir(),
            ),
        decreases cs@.len() - k,
    {
        assert(cs@.skip(k as int).skip(7) =~= cs@.skip(k + 7));
        k = k + 7;
    }
    let ghost stripped = cs@.skip(k as int);
    assert(strip_leading_word(after_slashes, assets_dir()) == stripped);
    let mut out = String::new();
    let start = k;
    while k < cs.len()
        invariant
            start <= k <= cs@.len(),
            stripped == cs@.skip(start as int),
            out@ == forward_slashes(cs@.subrange(start as int, k as int)),
        decreases cs@.len() - k,
    {
        let c = cs[k];
        if c == '\\' {
            out.push('/');
        } else {
            out.push(c);
        }
        assert(out@ =~= forward_slashes(cs@.subrange(start as int, k + 1)));
        k = k + 1;
    }
    assert(cs@.subrange(start as int, cs@.len() as int) =~= stripped);
    Some(out)
}

//endregion

} // verus!
