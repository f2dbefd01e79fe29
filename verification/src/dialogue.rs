//! Card-driven dialogues: their nodes and the progression through them.
use crate::character::CharacterDefinition;
use crate::text::{decimal, push_decimal, push_str};
use vstd::prelude::*;

verus! {

/// One node in a card-driven dialogue flow.
pub struct DialogueNode {
    pub id: u32,
    /// Id of the speaking character.
    pub source: u32,
    pub text: String,
}

/// Parameters of a dialogue interaction: the nodes, in order.
pub struct DialogueInteractionParams {
    pub nodes: Vec<DialogueNode>,
}

/// Interaction component of dialogue cards.
pub struct DialogueInteraction {
    pub param: DialogueInteractionParams,
}

impl From<DialogueInteractionParams> for DialogueInteraction {
    /// The interaction running the given dialogue.
    fn from(value: DialogueInteractionParams) -> (interaction: Self) {
        DialogueInteraction { param: value }
    }
}

impl vstd::std_specs::convert::FromSpecImpl<DialogueInteractionParams> for DialogueInteraction {
    open spec fn obeys_from_spec() -> bool {
        true
    }

    open spec fn from_spec(v: DialogueInteractionParams) -> DialogueInteraction {
        DialogueInteraction { param: v }
    }
}

/// A running dialogue: its nodes and the index of the node shown.
pub struct ActiveDialogue {
    pub nodes: Vec<DialogueNode>,
    pub current_index: usize,
}

/// The dialogue being shown, if any.
pub struct DialogueState {
    pub active: Option<ActiveDialogue>,
}

/// Mathematical form of a dialogue state: the nodes and the current index.
pub type DialogueView = Option<(Seq<DialogueNode>, int)>;

/// The view of a dialogue state.
pub open spec fn dialogue_view(state: DialogueState) -> DialogueView {
    match state.active {
        Some(a) => Some((a.nodes@, a.current_index as int)),
        None => None,
    }
}

/// The index after the current one, when it exists.
pub open spec fn next_index(v: DialogueView) -> Option<int> {
    match v {
        Some((nodes, i)) => if i + 1 < nodes.len() {
            Some(i + 1)
        } else {
            None
        },
        None => None,
    }
}

/// One step of a dialogue: the next node, or the end of the dialogue.
pub open spec fn pushed(v: DialogueView) -> DialogueView {
    match next_index(v) {
        Some(n) => Some((v->Some_0.0, n)),
        None => None,
    }
}

/// The dialogue after `k` steps.
pub open spec fn pushed_times(v: DialogueView, k: nat) -> DialogueView
    decreases k,
{
    if k == 0 {
        v
    } else {
        pushed(pushed_times(v, (k - 1) as nat))
    }
}

/// The dialogue that an interaction starts: the first node of a non-empty
/// list, or none.
pub open spec fn started(nodes: Seq<DialogueNode>) -> DialogueView {
    if nodes.len() == 0 {
        None
    } else {
        Some((nodes, 0))
    }
}

impl DialogueNode {
    /// A copy of this node.
    pub fn duplicate(&self) -> (n: Self)
        ensures
            n == *self,
    {
        DialogueNode { id: self.id, source: self.source, text: self.text.clone() }
    }
}

fn copy_nodes(nodes: &Vec<DialogueNode>) -> (copy: Vec<DialogueNode>)
    ensures
        copy@ == nodes@,
{
    let mut copy: Vec<DialogueNode> = Vec::new();
    let mut i: usize = 0;
    while i < nodes.len()
        invariant
            i <= nodes@.len(),
            copy@ == nodes@.take(i as int),
        decreases nodes@.len() - i,
    {
        copy.push(nodes[i].duplicate());
        assert(nodes@.take(i as int).push(nodes@[i as int]) =~= nodes@.take(i + 1));
        i = i + 1;
    }
    assert(nodes@.take(nodes@.len() as int) =~= nodes@);
    copy
}

impl DialogueState {
    /// No dialogue is shown.
    pub fn new() -> (s: Self)
        ensures
            dialogue_view(s) is None,
    {
        DialogueState { active: None }
    }

    /// Starts the dialogue of an interaction: its first node, or no dialogue
    /// when it has no nodes.
    pub fn start(&mut self, params: &DialogueInteractionParams)
        ensures
            dialogue_view(*final(self)) == started(params.nodes@),
    {
        if params.nodes.len() == 0 {
            self.active = None;
            return;
        }
        self.active = Some(ActiveDialogue { nodes: copy_nodes(&params.nodes), current_index: 0 });
    }

    /// The node shown, if any.
    pub fn current_node(&self) -> (node: Option<&DialogueNode>)
        ensures
            match dialogue_view(*self) {
                Some((nodes, i)) => if i < nodes.len() {
                    node == Some(&nodes[i])
                } else {
                    node is None
                },
                None => node is None,
            },
    {
        match &self.active {
            Some(active) => {
                if active.current_index < active.nodes.len() {
                    Some(&active.nodes[active.current_index])
                } else {
                    None
                }
            },
            None => None,
        }
    }

    /// The index of the node after the current one, when it exists.
    pub fn next_idx(&self) -> (next: Option<usize>)
        ensures
            match next {
                Some(n) => next_index(dialogue_view(*self)) == Some(n as int),
                None => next_index(dialogue_view(*self)) is None,
            },
    {
        match &self.active {
            Some(active) => {
                if active.nodes.len() > 0 && active.current_index < active.nodes.len() - 1 {
                    Some(active.current_index + 1)
                } else {
                    None
                }
            },
            None => None,
        }
    }

    /// Shows the next node, or ends the dialogue after its last node.
    pub fn push_dialogue(&mut self)
        ensures
            dialogue_view(*final(self)) == pushed(dialogue_view(*old(self))),
    {
        match self.next_idx() {
            None => {
                self.active = None;
            },
            Some(next) => match &mut self.active {
                None => {
                    self.active = None;
                },
                Some(active) => {
                    active.current_index = next;
                },
            },
        }
    }
}

impl Default for DialogueState {
    fn default() -> (s: Self)
        ensures
            dialogue_view(s) is None,
    {
        DialogueState::new()
    }
}

/// Law: a started dialogue of `n` nodes shows node `k` after `k` steps, for
/// every `k < n`, and has ended after `n` steps.
pub proof fn law_dialogue_walks_nodes(nodes: Seq<DialogueNode>, k: nat)
    requires
        nodes.len() > 0,
    ensures
        k < nodes.len() ==> pushed_times(started(nodes), k) == Some((nodes, k as int)),
        k == nodes.len() ==> pushed_times(started(nodes), k) is None,
    decreases k,
{
    if k > 0 {
        law_dialogue_walks_nodes(nodes, (k - 1) as nat);
    }
}

/// Law: an ended dialogue stays ended.
pub proof fn law_ended_dialogue_stays_ended(k: nat)
    ensures
        pushed_times(None, k) is None,
    decreases k,
{
    if k > 0 {
        law_ended_dialogue_stays_ended((k - 1) as nat);
    }
}

/// The name shown for the speaker of a node: the character's name, or
/// `角色 <source>` when the character is not configured.
pub open spec fn speaker_name(character: Option<CharacterDefinition>, source: u32) -> Seq<char> {
    match character {
        Some(c) => c.name@,
        None => "角色 "@ + decimal(source as nat),
    }
}

/// The name shown for the speaker of a node.
pub fn dialogue_speaker_name(character: Option<&CharacterDefinition>, source: u32) -> (name: String)
    ensures
        name@ == speaker_name(
            match character {
                Some(c) => Some(*c),
                None => None,
            },
            source,
        ),
{
    match character {
        Some(c) => c.name.clone(),
        None => {
            let mut name = String::new();
            push_str(&mut name, "角色 ");
            push_decimal(&mut name, source as u64);
            assert(name@ =~= "角色 "@ + decimal(source as nat));
            name
        },
    }
}

} // verus!
