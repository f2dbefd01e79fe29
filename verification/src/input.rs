//! Blocking of gameplay input by named sources (camera focus, dialogue).
use crate::key_set::KeySet;
use vstd::prelude::*;

verus! {

/// The sources currently blocking gameplay input.
pub struct GameplayInputBlocker {
    pub sources: KeySet,
}

impl GameplayInputBlocker {
    /// No source blocks input.
    pub fn new() -> (b: Self)
        ensures
            b.sources@ == Set::<Seq<char>>::empty(),
    {
        GameplayInputBlocker { sources: KeySet::new() }
    }

    /// `source` starts blocking input.
    pub fn block(&mut self, source: &str)
        ensures
            final(self).sources@ == old(self).sources@.insert(source@),
    {
        self.sources.insert(source);
    }

    /// `source` stops blocking input.
    pub fn unblock(&mut self, source: &str)
        ensures
            final(self).sources@ == old(self).sources@.remove(source@),
    {
        self.sources.remove(source);
    }

    /// Whether any source blocks input.
    pub fn is_blocked(&self) -> (r: bool)
        ensures
            r == (self.sources@ != Set::<Seq<char>>::empty()),
    {
        !self.sources.is_empty()
    }
}

impl Default for GameplayInputBlocker {
    fn default() -> (b: Self)
        ensures
            b.sources@ == Set::<Seq<char>>::empty(),
    {
        GameplayInputBlocker::new()
    }
}

/// Whether the player may act: no source blocks input.
pub fn player_input_allowed(blocker: &GameplayInputBlocker) -> (allowed: bool)
    ensures
        allowed == (blocker.sources@ == Set::<Seq<char>>::empty()),
{
    !blocker.is_blocked()
}

/// Law: a blocking source blocks input until it is released; releasing the
/// only blocking source allows input again.
pub proof fn law_block_unblock(sources: Set<Seq<char>>, source: Seq<char>)
    ensures
        sources.insert(source) != Set::<Seq<char>>::empty(),
        sources.subset_of(set![source]) ==> sources.insert(source).remove(source)
            == Set::<Seq<char>>::empty(),
{
    assert(sources.insert(source).contains(source));
    if sources.subset_of(set![source]) {
        assert(sources.insert(source).remove(source) =~= Set::<Seq<char>>::empty());
    }
}

/// A call on the blocker, in view form.
pub enum BlockerCall {
    Block(Seq<char>),
    Unblock(Seq<char>),
}

/// The source a call names.
pub open spec fn call_source(c: BlockerCall) -> Seq<char> {
    match c {
        BlockerCall::Block(s) => s,
        BlockerCall::Unblock(s) => s,
    }
}

/// The blocking sources after `calls` on a new blocker (`block` inserts,
/// `unblock` removes).
pub open spec fn after_calls(calls: Seq<BlockerCall>) -> Set<Seq<char>>
    decreases calls.len(),
{
    if calls.len() == 0 {
        Set::empty()
    } else {
        let prev = after_calls(calls.drop_last());
        match calls.last() {
            BlockerCall::Block(s) => prev.insert(s),
            BlockerCall::Unblock(s) => prev.remove(s),
        }
    }
}

/// The last call of `calls` that names `source` is a `block`.
pub open spec fn last_call_blocks(calls: Seq<BlockerCall>, source: Seq<char>) -> bool {
    exists|i: int|
        0 <= i < calls.len() && calls[i] == BlockerCall::Block(source) && forall|j: int|
            i < j < calls.len() ==> call_source(#[trigger] calls[j]) != source
}

proof fn lemma_after_calls_contains(calls: Seq<BlockerCall>, source: Seq<char>)
    ensures
        after_calls(calls).contains(source) <==> last_call_blocks(calls, source),
    decreases calls.len(),
{
    if calls.len() > 0 {
        let prev = calls.drop_last();
        let n = calls.len() - 1;
        lemma_after_calls_contains(prev, source);
        if call_source(calls.last()) == source {
            if calls.last() == BlockerCall::Block(source) {
                assert(last_call_blocks(calls, source)) by {
                    assert(calls[n] == BlockerCall::Block(source));
                }
            } else {
                assert(!last_call_blocks(calls, source)) by {
                    if last_call_blocks(calls, source) {
                        let i = choose|i: int|
                            0 <= i < calls.len() && calls[i] == BlockerCall::Block(source)
                                && forall|j: int|
                                i < j < calls.len() ==> call_source(#[trigger] calls[j]) != source;
                        if i < n {
                            assert(call_source(calls[n]) != source);
                        }
                    }
                }
            }
        } else {
            assert(after_calls(calls).contains(source) == after_calls(prev).contains(source));
            if last_call_blocks(prev, source) {
                let i = choose|i: int|
                    0 <= i < prev.len() && prev[i] == BlockerCall::Block(source) && forall|j: int|
                        i < j < prev.len() ==> call_source(#[trigger] prev[j]) != source;
                assert(calls[i] == prev[i]);
                assert forall|j: int| i < j < calls.len() implies call_source(
                    #[trigger] calls[j],
                ) != source by {
                    if j < n {
                        assert(calls[j] == prev[j]);
                    }
                }
            }
            if last_call_blocks(calls, source) {
                let i = choose|i: int|
                    0 <= i < calls.len() && calls[i] == BlockerCall::Block(source) && forall|j: int|
                        i < j < calls.len() ==> call_source(#[trigger] calls[j]) != source;
                assert(i != n);
                assert(prev[i] == calls[i]);
                assert forall|j: int| i < j < prev.len() implies call_source(#[trigger] prev[j])
                    != source by {
                    assert(prev[j] == calls[j]);
                }
            }
        }
    }
}

/// Law: after any sequence of `block` and `unblock` calls on a new blocker,
/// input is blocked exactly when some source's last call was a `block`;
/// blocking a source twice is blocking it once; blocking then unblocking a
/// source on a new blocker leaves input allowed.
pub proof fn law_blocked_by_last_calls(calls: Seq<BlockerCall>, source: Seq<char>)
    ensures
        after_calls(calls).contains(source) <==> last_call_blocks(calls, source),
        (after_calls(calls) != Set::<Seq<char>>::empty()) <==> exists|s: Seq<char>|
            last_call_blocks(calls, s),
        after_calls(calls.push(BlockerCall::Block(source)).push(BlockerCall::Block(source)))
            == after_calls(calls.push(BlockerCall::Block(source))),
        after_calls(seq![BlockerCall::Block(source), BlockerCall::Unblock(source)])
            == Set::<Seq<char>>::empty(),
{
    lemma_after_calls_contains(calls, source);
    if after_calls(calls) != Set::<Seq<char>>::empty() {
        let s = choose|s: Seq<char>| after_calls(calls).contains(s);
        assert(after_calls(calls).contains(s)) by {
            if !after_calls(calls).contains(s) {
                assert(after_calls(calls) =~= Set::<Seq<char>>::empty());
            }
        }
        lemma_after_calls_contains(calls, s);
    }
    if exists|s: Seq<char>| last_call_blocks(calls, s) {
        let s = choose|s: Seq<char>| last_call_blocks(calls, s);
        lemma_after_calls_contains(calls, s);
    }
    let once = calls.push(BlockerCall::Block(source));
    let twice = once.push(BlockerCall::Block(source));
    assert(twice.drop_last() =~= once);
    assert(once.drop_last() =~= calls);
    assert(after_calls(twice) =~= after_calls(once));
    let pair = seq![BlockerCall::Block(source), BlockerCall::Unblock(source)];
    assert(pair.drop_last() =~= seq![BlockerCall::Block(source)]);
    let one = seq![BlockerCall::Block(source)];
    assert(one.drop_last() =~= Seq::<BlockerCall>::empty());
    assert(after_calls(Seq::<BlockerCall>::empty()) == Set::<Seq<char>>::empty());
    assert(after_calls(one) == Set::<Seq<char>>::empty().insert(source));
    assert(pair.last() == BlockerCall::Unblock(source));
    assert(after_calls(pair) == after_calls(one).remove(source));
    assert(after_calls(pair) =~= Set::<Seq<char>>::empty());
}

} // verus!
