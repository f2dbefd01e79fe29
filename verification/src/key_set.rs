//! A set of text keys.
use crate::text::same_text;
use vstd::prelude::*;

verus! {

/// A set of text keys, kept in insertion order without repetition.
pub struct KeySet {
    keys: Vec<String>,
}

/// The keys held by a list, as a set.
pub open spec fn key_set_of(keys: Seq<String>) -> Set<Seq<char>> {
    Set::new(|k: Seq<char>| exists|i: int| 0 <= i < keys.len() && #[trigger] keys[i]@ == k)
}

impl View for KeySet {
    type V = Set<Seq<char>>;

    closed spec fn view(&self) -> Set<Seq<char>> {
        key_set_of(self.keys@)
    }
}

impl KeySet {
    #[verifier::type_invariant]
    spec fn keys_distinct(&self) -> bool {
        forall|i: int, j: int|
            0 <= i < self.keys@.len() && 0 <= j < self.keys@.len() && i != j ==> self.keys@[i]@
                != self.keys@[j]@
    }

    /// The keys, in insertion order.
    pub closed spec fn key_list(&self) -> Seq<String> {
        self.keys@
    }

    /// The empty set.
    pub fn new() -> (s: Self)
        ensures
            s@ == Set::<Seq<char>>::empty(),
    {
        let s = KeySet { keys: Vec::new() };
        assert(s@ =~= Set::<Seq<char>>::empty());
        s
    }

    fn position(&self, key: &str) -> (r: Option<usize>)
        ensures
            match r {
                Some(i) => i < self.keys@.len() && self.keys@[i as int]@ == key@,
                None => forall|j: int| 0 <= j < self.keys@.len() ==> self.keys@[j]@ != key@,
            },
    {
        let mut i: usize = 0;
        while i < self.keys.len()
            invariant
                i <= self.keys@.len(),
                forall|j: int| 0 <= j < i ==> self.keys@[j]@ != key@,
            decreases self.keys@.len() - i,
        {
            if same_text(self.keys[i].as_str(), key) {
                return Some(i);
            }
            i = i + 1;
        }
        None
    }

    /// Whether `key` is in the set.
    pub fn contains(&self, key: &str) -> (r: bool)
        ensures
            r == self@.contains(key@),
    {
        match self.position(key) {
            Some(i) => {
                assert(self@.contains(key@)) by {
                    assert(self.keys@[i as int]@ == key@);
                }
                true
            },
            None => false,
        }
    }

    /// Adds `key`; returns whether it was absent.
    pub fn insert(&mut self, key: &str) -> (added: bool)
        ensures
            added == !old(self)@.contains(key@),
            final(self)@ == old(self)@.insert(key@),
    {
        proof {
            use_type_invariant(&*self);
        }
        if self.contains(key) {
            assert(self@.insert(key@) =~= self@);
            return false;
        }
        let ghost before = self.keys@;
        let mut owned = String::new();
        owned.append(key);
        assert(owned@ =~= key@);
        let mut keys: Vec<String> = Vec::new();
        std::mem::swap(&mut keys, &mut self.keys);
        keys.push(owned);
        self.keys = keys;
        assert(self@ =~= key_set_of(before).insert(key@)) by {
            assert forall|k: Seq<char>| #[trigger] key_set_of(before).insert(key@).contains(
                k,
            ) implies self@.contains(k) by {
                if k == key@ {
                    assert(self.keys@[before.len() as int]@ == k);
                } else {
                    assert(key_set_of(before).contains(k));
                    let i = choose|i: int| 0 <= i < before.len() && #[trigger] before[i]@ == k;
                    assert(self.keys@[i] == before[i]);
                    assert(self.keys@[i]@ == k);
                }
            }
            assert forall|k: Seq<char>| #[trigger] self@.contains(k) implies key_set_of(
                before,
            ).insert(key@).contains(k) by {
                let i = choose|i: int| 0 <= i < self.keys@.len() && #[trigger] self.keys@[i]@ == k;
                if i < before.len() {
                    assert(before[i]@ == k);
                }
            }
        }
        true
    }

    /// Removes `key`; returns whether it was present.
    pub fn remove(&mut self, key: &str) -> (removed: bool)
        ensures
            removed == old(self)@.contains(key@),
            final(self)@ == old(self)@.remove(key@),
    {
        proof {
            use_type_invariant(&*self);
        }
        match self.position(key) {
            None => {
                assert(!self@.contains(key@)) by {
                    if self@.contains(key@) {
                        let i = choose|i: int|
                            0 <= i < self.keys@.len() && #[trigger] self.keys@[i]@ == key@;
                    }
                }
                assert(self@.remove(key@) =~= self@);
                false
            },
            Some(p) => {
                let ghost before = self.keys@;
                assert(key_set_of(before).contains(key@)) by {
                    assert(before[p as int]@ == key@);
                }
                let mut keys: Vec<String> = Vec::new();
                std::mem::swap(&mut keys, &mut self.keys);
                keys.remove(p);
                proof {
                    assert forall|i: int, j: int|
                        0 <= i < keys@.len() && 0 <= j < keys@.len() && i != j implies keys@[i]@
                        != keys@[j]@ by {
                        let i2 = if i < p { i } else { i + 1 };
                        let j2 = if j < p { j } else { j + 1 };
                        assert(keys@[i] == before[i2]);
                        assert(keys@[j] == before[j2]);
                    }
                }
                self.keys = keys;
                assert(self@ =~= key_set_of(before).remove(key@)) by {
                    assert forall|k: Seq<char>| #[trigger] self@.contains(k) implies key_set_of(
                        before,
                    ).remove(key@).contains(k) by {
                        let i = choose|i: int|
                            0 <= i < self.keys@.len() && #[trigger] self.keys@[i]@ == k;
                        let j = if i < p {
                            i
                        } else {
                            i + 1
                        };
                        assert(before[j]@ == k);
                        assert(j != p);
                    }
                    assert forall|k: Seq<char>| #[trigger] key_set_of(before).remove(
                        key@,
                    ).contains(k) implies self@.contains(k) by {
                        let i = choose|i: int| 0 <= i < before.len() && #[trigger] before[i]@ == k;
                        assert(i != p);
                        if i < p {
                            assert(self.keys@[i]@ == k);
                        } else {
                            assert(self.keys@[i - 1]@ == k);
                        }
                    }
                }
                true
            },
        }
    }

    /// Whether the set is empty.
    pub fn is_empty(&self) -> (r: bool)
        ensures
            r == (self@ == Set::<Seq<char>>::empty()),
    {
        if self.keys.len() == 0 {
            assert(self@ =~= Set::<Seq<char>>::empty());
            true
        } else {
            assert(self@.contains(self.keys@[0]@));
            false
        }
    }

    /// The keys, in insertion order.
    pub fn to_vec(&self) -> (keys: Vec<String>)
        ensures
            keys@ == self.key_list(),
            key_set_of(keys@) == self@,
    {
        self.keys.clone()
    }
}

} // verus!
