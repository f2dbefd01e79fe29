//! JSON payloads of specialized card presets, and the merge of a scene card's
//! runtime payload over its prefab payload.
use vstd::prelude::*;

verus! {

/// A JSON document. Numbers keep their literal text; object members keep
/// their order.
pub enum JsonValue {
    Null,
    Bool(bool),
    Number(String),
    Str(String),
    Array(Vec<JsonValue>),
    Object(Vec<(String, JsonValue)>),
}

/// Mathematical form of a JSON document.
pub enum JsonTree {
    Null,
    Bool(bool),
    Number(Seq<char>),
    Str(Seq<char>),
    Array(Seq<JsonTree>),
    Object(Seq<(Seq<char>, JsonTree)>),
}

/// The views of a sequence of documents.
pub open spec fn view_values(s: Seq<JsonValue>) -> Seq<JsonTree>
    decreases s,
{
    if s.len() == 0 {
        Seq::empty()
    } else {
        view_values(s.drop_last()).push(view_value(s.last()))
    }
}

/// The views of a sequence of object members.
pub open spec fn view_entries(s: Seq<(String, JsonValue)>) -> Seq<(Seq<char>, JsonTree)>
    decreases s,
{
    if s.len() == 0 {
        Seq::empty()
    } else {
        view_entries(s.drop_last()).push((s.last().0@, view_value(s.last().1)))
    }
}

/// The view of a document.
pub open spec fn view_value(v: JsonValue) -> JsonTree
    decreases v,
{
    match v {
        JsonValue::Null => JsonTree::Null,
        JsonValue::Bool(b) => JsonTree::Bool(b),
        JsonValue::Number(n) => JsonTree::Number(n@),
        JsonValue::Str(s) => JsonTree::Str(s@),
        JsonValue::Array(items) => JsonTree::Array(view_values(items@)),
        JsonValue::Object(members) => JsonTree::Object(view_entries(members@)),
    }
}

impl View for JsonValue {
    type V = JsonTree;

    open spec fn view(&self) -> JsonTree {
        view_value(*self)
    }
}


/// A member of an object in view form.
pub type Member = (Seq<char>, JsonTree);

/// Index of the first member named `key`, or -1 when there is none.
pub open spec fn find_member(members: Seq<Member>, key: Seq<char>) -> int
    decreases members.len(),
{
    if members.len() == 0 {
        -1
    } else if find_member(members.drop_last(), key) >= 0 {
        find_member(members.drop_last(), key)
    } else if members.last().0 == key {
        members.len() - 1
    } else {
        -1
    }
}

/// The value of the first member named `key`.
pub open spec fn member_value(members: Seq<Member>, key: Seq<char>) -> Option<JsonTree> {
    let i = find_member(members, key);
    if i >= 0 {
        Some(members[i].1)
    } else {
        None
    }
}

/// No two members share a name.
pub open spec fn distinct_keys(members: Seq<Member>) -> bool {
    forall|i: int, j: int|
        0 <= i < members.len() && 0 <= j < members.len() && i != j ==> members[i].0
            != members[j].0
}

/// `runtime` laid over `base`: objects merge member by member, recursively;
/// any other runtime value replaces the base value.
pub open spec fn merge_tree(base: JsonTree, runtime: JsonTree) -> JsonTree
    decreases runtime,
{
    match runtime {
        JsonTree::Object(r) => match base {
            JsonTree::Object(b) => JsonTree::Object(merge_members(b, r)),
            _ => runtime,
        },
        _ => runtime,
    }
}

/// The members of `acc` after the runtime members `r` are laid over them in
/// order: a member whose name is present merges with it in place, a new name
/// is appended.
pub open spec fn merge_members(acc: Seq<Member>, r: Seq<Member>) -> Seq<Member>
    decreases r,
{
    if r.len() == 0 {
        acc
    } else {
        let i = find_member(acc, r[0].0);
        let next = if i >= 0 {
            acc.update(i, (r[0].0, merge_tree(acc[i].1, r[0].1)))
        } else {
            acc.push(r[0])
        };
        merge_members(next, r.drop_first())
    }
}

/// `find_member` is the first index whose name matches.
pub proof fn lemma_find_member(members: Seq<Member>, key: Seq<char>)
    ensures
        find_member(members, key) == -1 ==> forall|i: int|
            0 <= i < members.len() ==> #[trigger] members[i].0 != key,
        find_member(members, key) != -1 ==> {
            let f = find_member(members, key);
            &&& 0 <= f < members.len()
            &&& members[f].0 == key
            &&& forall|i: int| 0 <= i < f ==> #[trigger] members[i].0 != key
        },
    decreases members.len(),
{
    if members.len() > 0 {
        let prefix = members.drop_last();
        lemma_find_member(prefix, key);
        assert forall|i: int| 0 <= i < prefix.len() implies members[i] == #[trigger] prefix[i] by {}
        let fp = find_member(prefix, key);
        if fp >= 0 {
            assert(find_member(members, key) == fp);
            assert forall|i: int| 0 <= i < fp implies #[trigger] members[i].0 != key by {
                assert(members[i] == prefix[i]);
            }
        } else if members.last().0 == key {
            assert(find_member(members, key) == members.len() - 1);
            assert forall|i: int| 0 <= i < members.len() - 1 implies #[trigger] members[i].0
                != key by {
                assert(members[i] == prefix[i]);
            }
        } else {
            assert(find_member(members, key) == -1);
            assert forall|i: int| 0 <= i < members.len() implies #[trigger] members[i].0
                != key by {
                if i < members.len() - 1 {
                    assert(members[i] == prefix[i]);
                }
            }
        }
    }
}

/// The view of a sequence of members has one view per member.
pub proof fn lemma_view_entries(s: Seq<(String, JsonValue)>)
    ensures
        view_entries(s).len() == s.len(),
        forall|i: int|
            0 <= i < s.len() ==> #[trigger] view_entries(s)[i] == (s[i].0@, view_value(s[i].1)),
    decreases s.len(),
{
    if s.len() > 0 {
        lemma_view_entries(s.drop_last());
        assert forall|i: int| 0 <= i < s.len() - 1 implies s[i] == #[trigger] s.drop_last()[i] by {}
    }
}

/// The view of a sequence of documents has one view per document.
pub proof fn lemma_view_values(s: Seq<JsonValue>)
    ensures
        view_values(s).len() == s.len(),
        forall|i: int| 0 <= i < s.len() ==> #[trigger] view_values(s)[i] == view_value(s[i]),
    decreases s.len(),
{
    if s.len() > 0 {
        lemma_view_values(s.drop_last());
        assert forall|i: int| 0 <= i < s.len() - 1 implies s[i] == #[trigger] s.drop_last()[i] by {}
    }
}

/// Position of the first member of `members` named `key`.
fn find_member_index(members: &Vec<(String, JsonValue)>, key: &String) -> (r: Option<usize>)
    ensures
        match r {
            Some(i) => i == find_member(view_entries(members@), key@),
            None => find_member(view_entries(members@), key@) == -1,
        },
{
    proof {
        lemma_view_entries(members@);
        lemma_find_member(view_entries(members@), key@);
    }
    let mut i: usize = 0;
    while i < members.len()
        invariant
            i <= members@.len(),
            view_entries(members@).len() == members@.len(),
            forall|j: int| 0 <= j < i ==> #[trigger] members@[j].0@ != key@,
            forall|j: int|
                0 <= j < members@.len() ==> #[trigger] view_entries(members@)[j] == (
                    members@[j].0@,
                    view_value(members@[j].1),
                ),
        decreases members@.len() - i,
    {
        if members[i].0 == *key {
            proof {
                let e = view_entries(members@);
                lemma_find_member(e, key@);
                let f = find_member(e, key@);
                assert(e[i as int].0 == key@);
                if f == -1 {
                    assert(e[i as int].0 != key@);
                } else if f < i {
                    assert(e[f].0 == members@[f].0@);
                    assert(members@[f].0@ != key@);
                } else if f > i {
                    assert(e[i as int].0 != key@);
                }
            }
            return Some(i);
        }
        i = i + 1;
    }
    proof {
        let e = view_entries(members@);
        lemma_find_member(e, key@);
        let f = find_member(e, key@);
        if f != -1 {
            assert(e[f].0 == members@[f].0@);
            assert(members@[f].0@ != key@);
        }
    }
    None
}

/// Lays the runtime JSON payload over the base payload: when both are
/// objects each runtime member merges into the base member of the same name
/// (recursively) or is added; otherwise the runtime payload wins.
pub fn merge_json_objects(base: JsonValue, runtime: JsonValue) -> (merged: JsonValue)
    ensures
        merged@ == merge_tree(base@, runtime@),
    decreases runtime,
{
    let ghost rt = runtime;
    let ghost bs = base;
    match runtime {
        JsonValue::Object(runtime_members) => match base {
            JsonValue::Object(base_members) => {
                let ghost r0 = runtime_members@;
                let ghost b0 = base_members@;
                let mut acc = base_members;
                let mut rest = runtime_members;
                proof {
                    lemma_view_entries(r0);
                    assert(r0.skip(0) =~= r0);
                }
                while rest.len() > 0
                    invariant
                        rt == runtime,
                        rt is Object,
                        rt->Object_0@ == r0,
                        0 <= r0.len() - rest@.len(),
                        rest@ == r0.skip(r0.len() - rest@.len()),
                        merge_members(view_entries(acc@), view_entries(rest@)) == merge_members(
                            view_entries(b0),
                            view_entries(r0),
                        ),
                    decreases rest@.len(),
                {
                    let ghost acc_before = view_entries(acc@);
                    let ghost rest_before = rest@;
                    proof {
                        lemma_view_entries(rest@);
                        lemma_view_entries(acc@);
                        assert(view_entries(rest@).drop_first() =~= view_entries(rest@.drop_first()))
                            by {
                            lemma_view_entries(rest@.drop_first());
                        }
                    }
                    let (key, value) = rest.remove(0);
                    proof {
                        let j = r0.len() - rest_before.len();
                        assert(rest_before[0] == r0[j]);
                        assert(value == r0[j].1);
                        assert(rest@ =~= r0.skip(r0.len() - rest@.len()));
                        assert(decreases_to!(rt => rt->Object_0));
                        assert(decreases_to!(rt->Object_0 => rt->Object_0@));
                        assert(decreases_to!(r0 => r0[j]));
                        assert(decreases_to!(r0[j] => r0[j].1));
                        assert(decreases_to!(rt => value));
                        lemma_view_entries(acc@);
                        lemma_find_member(view_entries(acc@), key@);
                    }
                    match find_member_index(&acc, &key) {
                        Some(i) => {
                            let (old_key, old_value) = acc.remove(i);
                            let merged_value = merge_json_objects(old_value, value);
                            acc.insert(i, (old_key, merged_value));
                            proof {
                                lemma_view_entries(acc@);
                                assert(view_entries(acc@) =~= acc_before.update(
                                    i as int,
                                    (key@, merge_tree(acc_before[i as int].1, view_value(rest_before[0].1))),
                                ));
                            }
                        },
                        None => {
                            acc.push((key, value));
                            proof {
                                lemma_view_entries(acc@);
                                assert(view_entries(acc@) =~= acc_before.push(view_entries(rest_before)[0]));
                            }
                        },
                    }
                }
                proof {
                    assert(view_entries(rest@) =~= Seq::<Member>::empty());
                }
                JsonValue::Object(acc)
            },
            _ => JsonValue::Object(runtime_members),
        },
        _ => runtime,
    }
}


/// A first matching index determines `find_member`.
proof fn lemma_find_member_is(s: Seq<Member>, key: Seq<char>, f: int)
    requires
        f == -1 ==> forall|i: int| 0 <= i < s.len() ==> #[trigger] s[i].0 != key,
        f != -1 ==> 0 <= f < s.len() && s[f].0 == key && forall|i: int|
            0 <= i < f ==> #[trigger] s[i].0 != key,
    ensures
        find_member(s, key) == f,
{
    lemma_find_member(s, key);
    let g = find_member(s, key);
    if g != f {
        if g == -1 {
            assert(s[f].0 != key);
        } else if f == -1 {
            assert(s[g].0 != key);
        } else if g < f {
            assert(s[g].0 != key);
        } else {
            assert(s[f].0 != key);
        }
    }
}

/// `find_member` reads only the names of the members.
proof fn lemma_find_member_names(a: Seq<Member>, b: Seq<Member>, key: Seq<char>)
    requires
        a.len() == b.len(),
        forall|i: int| 0 <= i < a.len() ==> #[trigger] a[i].0 == b[i].0,
    ensures
        find_member(a, key) == find_member(b, key),
{
    lemma_find_member(a, key);
    let f = find_member(a, key);
    if f != -1 {
        assert(b[f].0 == key);
        assert forall|i: int| 0 <= i < f implies #[trigger] b[i].0 != key by {
            assert(a[i].0 != key);
        }
    } else {
        assert forall|i: int| 0 <= i < b.len() implies #[trigger] b[i].0 != key by {
            assert(a[i].0 != key);
        }
    }
    lemma_find_member_is(b, key, f);
}

/// Looking up a name in the members after one runtime member is laid over
/// `acc`.
proof fn lemma_merge_step(acc: Seq<Member>, m: Member, key: Seq<char>)
    ensures
        ({
            let i = find_member(acc, m.0);
            let next = if i >= 0 {
                acc.update(i, (m.0, merge_tree(acc[i].1, m.1)))
            } else {
                acc.push(m)
            };
            &&& key != m.0 ==> member_value(next, key) == member_value(acc, key)
            &&& key == m.0 ==> member_value(next, key) == match member_value(acc, key) {
                Some(bv) => Some(merge_tree(bv, m.1)),
                None => Some(m.1),
            }
        }),
{
    let i = find_member(acc, m.0);
    lemma_find_member(acc, m.0);
    lemma_find_member(acc, key);
    if i >= 0 {
        let next = acc.update(i, (m.0, merge_tree(acc[i].1, m.1)));
        assert forall|j: int| 0 <= j < acc.len() implies #[trigger] next[j].0 == acc[j].0 by {}
        lemma_find_member_names(next, acc, key);
    } else {
        let next = acc.push(m);
        assert(next.drop_last() =~= acc);
        assert(next.last() == m);
    }
}

/// Law of the merge: for every name, the merged object holds the base value
/// when the runtime payload does not name it, the runtime value when only the
/// runtime payload names it, and the recursive merge of both otherwise.
pub proof fn lemma_merge_members_value(acc: Seq<Member>, r: Seq<Member>, key: Seq<char>)
    requires
        distinct_keys(r),
    ensures
        member_value(merge_members(acc, r), key) == match member_value(r, key) {
            None => member_value(acc, key),
            Some(rv) => match member_value(acc, key) {
                Some(bv) => Some(merge_tree(bv, rv)),
                None => Some(rv),
            },
        },
    decreases r.len(),
{
    if r.len() > 0 {
        let m = r[0];
        let i = find_member(acc, m.0);
        let next = if i >= 0 {
            acc.update(i, (m.0, merge_tree(acc[i].1, m.1)))
        } else {
            acc.push(m)
        };
        let rest = r.drop_first();
        assert(distinct_keys(rest)) by {
            assert forall|a: int, b: int|
                0 <= a < rest.len() && 0 <= b < rest.len() && a != b implies rest[a].0
                != rest[b].0 by {
                assert(rest[a] == r[a + 1]);
                assert(rest[b] == r[b + 1]);
            }
        }
        lemma_merge_members_value(next, rest, key);
        lemma_merge_step(acc, m, key);
        lemma_find_member(r, key);
        lemma_find_member(rest, key);
        if key == m.0 {
            assert forall|j: int| 0 <= j < rest.len() implies #[trigger] rest[j].0 != key by {
                assert(rest[j] == r[j + 1]);
            }
            lemma_find_member_is(r, key, 0);
            lemma_find_member_is(rest, key, -1);
        } else {
            let fr = find_member(rest, key);
            if fr == -1 {
                assert forall|j: int| 0 <= j < r.len() implies #[trigger] r[j].0 != key by {
                    if j > 0 {
                        assert(r[j] == rest[j - 1]);
                    }
                }
                lemma_find_member_is(r, key, -1);
            } else {
                assert(r[fr + 1] == rest[fr]);
                assert forall|j: int| 0 <= j < fr + 1 implies #[trigger] r[j].0 != key by {
                    if j > 0 {
                        assert(r[j] == rest[j - 1]);
                    }
                }
                lemma_find_member_is(r, key, fr + 1);
            }
        }
    } else {
        lemma_find_member(r, key);
    }
}

/// Law of the merge: laying runtime members with distinct names over base
/// members with distinct names leaves every name once.
pub proof fn lemma_merge_keeps_names_distinct(acc: Seq<Member>, r: Seq<Member>)
    requires
        distinct_keys(acc),
        distinct_keys(r),
    ensures
        distinct_keys(merge_members(acc, r)),
    decreases r.len(),
{
    if r.len() > 0 {
        let m = r[0];
        let i = find_member(acc, m.0);
        lemma_find_member(acc, m.0);
        let next = if i >= 0 {
            acc.update(i, (m.0, merge_tree(acc[i].1, m.1)))
        } else {
            acc.push(m)
        };
        assert(distinct_keys(next)) by {
            assert forall|a: int, b: int|
                0 <= a < next.len() && 0 <= b < next.len() && a != b implies next[a].0
                != next[b].0 by {
                if i < 0 {
                    if a < acc.len() && b < acc.len() {
                        assert(next[a] == acc[a] && next[b] == acc[b]);
                    } else if a < acc.len() {
                        assert(next[a] == acc[a]);
                    } else {
                        assert(next[b] == acc[b]);
                    }
                }
            }
        }
        let rest = r.drop_first();
        assert(distinct_keys(rest)) by {
            assert forall|a: int, b: int|
                0 <= a < rest.len() && 0 <= b < rest.len() && a != b implies rest[a].0
                != rest[b].0 by {
                assert(rest[a] == r[a + 1]);
                assert(rest[b] == r[b + 1]);
            }
        }
        lemma_merge_keeps_names_distinct(next, rest);
    }
}

/// Law of the merge on documents: merging two objects gives an object in
/// which each name holds the value the member-wise rule gives.
pub proof fn lemma_merge_objects(base: Seq<Member>, runtime: Seq<Member>, key: Seq<char>)
    requires
        distinct_keys(runtime),
    ensures
        merge_tree(JsonTree::Object(base), JsonTree::Object(runtime)) is Object,
        member_value(merge_tree(JsonTree::Object(base), JsonTree::Object(runtime))->Object_0, key)
            == match member_value(runtime, key) {
            None => member_value(base, key),
            Some(rv) => match member_value(base, key) {
                Some(bv) => Some(merge_tree(bv, rv)),
                None => Some(rv),
            },
        },
{
    lemma_merge_members_value(base, runtime, key);
}

/// Law of the merge: a runtime payload that is not an object replaces the
/// base payload whole.
pub proof fn lemma_merge_replaces(base: JsonTree, runtime: JsonTree)
    requires
        !(runtime is Object),
    ensures
        merge_tree(base, runtime) == runtime,
{
}

/// Law of the merge: an empty runtime object leaves a base object unchanged.
pub proof fn lemma_merge_empty_runtime(base: Seq<Member>)
    ensures
        merge_tree(JsonTree::Object(base), JsonTree::Object(Seq::empty())) == JsonTree::Object(
            base,
        ),
{
}


impl JsonValue {
    /// A copy of this document.
    pub fn duplicate(&self) -> (copy: JsonValue)
        ensures
            copy@ == self@,
        decreases self,
    {
        match self {
            JsonValue::Null => JsonValue::Null,
            JsonValue::Bool(b) => JsonValue::Bool(*b),
            JsonValue::Number(n) => JsonValue::Number(n.clone()),
            JsonValue::Str(text) => JsonValue::Str(text.clone()),
            JsonValue::Array(items) => {
                let mut out: Vec<JsonValue> = Vec::new();
                let mut i: usize = 0;
                proof {
                    lemma_view_values(items@);
                }
                while i < items.len()
                    invariant
                        i <= items@.len(),
                        self is Array,
                        self->Array_0 == *items,
                        view_values(items@).len() == items@.len(),
                        forall|j: int|
                            0 <= j < items@.len() ==> #[trigger] view_values(items@)[j]
                                == view_value(items@[j]),
                        out@.len() == i,
                        forall|j: int| 0 <= j < i ==> #[trigger] view_value(out@[j]) == view_value(items@[j]),
                    decreases items@.len() - i,
                {
                    proof {
                        assert(decreases_to!(*self => self->Array_0));
                        assert(decreases_to!(*items => items@));
                        assert(decreases_to!(items@ => items@[i as int]));
                    }
                    let copy = items[i].duplicate();
                    out.push(copy);
                    i = i + 1;
                }
                proof {
                    lemma_view_values(out@);
                    assert(view_values(out@) =~= view_values(items@));
                }
                JsonValue::Array(out)
            },
            JsonValue::Object(members) => {
                let mut out: Vec<(String, JsonValue)> = Vec::new();
                let mut i: usize = 0;
                proof {
                    lemma_view_entries(members@);
                }
                while i < members.len()
                    invariant
                        i <= members@.len(),
                        self is Object,
                        self->Object_0 == *members,
                        view_entries(members@).len() == members@.len(),
                        forall|j: int|
                            0 <= j < members@.len() ==> #[trigger] view_entries(members@)[j] == (
                                members@[j].0@,
                                view_value(members@[j].1),
                            ),
                        out@.len() == i,
                        forall|j: int|
                            0 <= j < i ==> #[trigger] out@[j].0@ == members@[j].0@ && view_value(
                                out@[j].1,
                            ) == view_value(members@[j].1),
                    decreases members@.len() - i,
                {
                    proof {
                        assert(decreases_to!(*self => self->Object_0));
                        assert(decreases_to!(*members => members@));
                        assert(decreases_to!(members@ => members@[i as int]));
                        assert(decreases_to!(members@[i as int] => members@[i as int].1));
                    }
                    let key = members[i].0.clone();
                    let value = members[i].1.duplicate();
                    out.push((key, value));
                    i = i + 1;
                }
                proof {
                    lemma_view_entries(out@);
                    assert(view_entries(out@) =~= view_entries(members@));
                }
                JsonValue::Object(out)
            },
        }
    }
}

} // verus!
