//! JSON values and objects as the formatter sees them: scalars it reads and
//! composite values it carries through unchanged, and objects whose keys are
//! distinct.

use vstd::prelude::*;

use crate::text::str_equal;

verus! {

/// A JSON value.
#[derive(Debug, PartialEq)]
pub enum JsonValue {
    /// `null`.
    Null,
    /// `true` or `false`.
    Bool(bool),
    /// A number that is a non-negative integer within `u64`.
    UInt(u64),
    /// Any other number, as its JSON text.
    Number(String),
    /// A string.
    Str(String),
    /// An array.
    Array(Vec<JsonValue>),
    /// An object, as its members in order; a later member replaces an
    /// earlier one with the same key.
    Object(Vec<(String, JsonValue)>),
}

/// The mathematical view of a JSON value.
pub enum JsonView {
    Null,
    Bool(bool),
    UInt(u64),
    Number(Seq<char>),
    Str(Seq<char>),
    Array(Seq<JsonView>),
    Object(Seq<(Seq<char>, JsonView)>),
}

impl Clone for JsonValue {
    fn clone(&self) -> (value: Self)
        ensures
            value.view_of() == self.view_of(),
    {
        self.copy()
    }
}

impl JsonValue {
    /// The value as a mathematical object.
    pub open spec fn view_of(&self) -> JsonView
        decreases self,
    {
        match self {
            JsonValue::Null => JsonView::Null,
            JsonValue::Bool(b) => JsonView::Bool(*b),
            JsonValue::UInt(n) => JsonView::UInt(*n),
            JsonValue::Number(t) => JsonView::Number(t@),
            JsonValue::Str(t) => JsonView::Str(t@),
            JsonValue::Array(items) => JsonView::Array(
                Seq::new(items@.len(), |i: int| if 0 <= i < items@.len() { items@[i].view_of() } else { JsonView::Null }),
            ),
            JsonValue::Object(members) => JsonView::Object(
                Seq::new(members@.len(), |i: int| if 0 <= i < members@.len() { (members@[i].0@, members@[i].1.view_of()) } else { (Seq::empty(), JsonView::Null) }),
            ),
        }
    }

    /// An identical value.
    pub fn copy(&self) -> (value: JsonValue)
        ensures
            value.view_of() == self.view_of(),
        decreases self,
    {
        match self {
            JsonValue::Null => JsonValue::Null,
            JsonValue::Bool(b) => JsonValue::Bool(*b),
            JsonValue::UInt(n) => JsonValue::UInt(*n),
            JsonValue::Number(t) => JsonValue::Number(t.clone()),
            JsonValue::Str(t) => JsonValue::Str(t.clone()),
            JsonValue::Array(items) => {
                let mut out: Vec<JsonValue> = Vec::new();
                let mut i: usize = 0;
                while i < items.len()
                    invariant
                        0 <= i <= items@.len(),
                        out@.len() == i,
                        *self == JsonValue::Array(*items),
                        forall|k: int| 0 <= k < i ==> (#[trigger] out@[k]).view_of() == items@[k].view_of(),
                    decreases items@.len() - i,
                {
                    proof {
                        vstd::std_specs::vec::axiom_vec_index_decreases(*items, i as int);
                        assert(decreases_to!(*self => self->Array_0));
                    }
                    let item = items[i].copy();
                    out.push(item);
                    i = i + 1;
                }
                let value = JsonValue::Array(out);
                assert(value.view_of()->Array_0 =~= self.view_of()->Array_0);
                value
            },
            JsonValue::Object(members) => {
                let mut out: Vec<(String, JsonValue)> = Vec::new();
                let mut i: usize = 0;
                while i < members.len()
                    invariant
                        0 <= i <= members@.len(),
                        out@.len() == i,
                        *self == JsonValue::Object(*members),
                        forall|k: int| 0 <= k < i ==> (#[trigger] out@[k]).0@ == members@[k].0@ && out@[k].1.view_of() == members@[k].1.view_of(),
                    decreases members@.len() - i,
                {
                    proof {
                        vstd::std_specs::vec::axiom_vec_index_decreases(*members, i as int);
                        assert(decreases_to!(*self => self->Object_0));
                        assert(decreases_to!(members@[i as int] => members@[i as int].1));
                    }
                    let value = members[i].1.copy();
                    out.push((members[i].0.clone(), value));
                    i = i + 1;
                }
                let value = JsonValue::Object(out);
                assert(value.view_of()->Object_0 =~= self.view_of()->Object_0);
                value
            },
        }
    }
}

} // verus!

verus! {

// ---------------------------------------------------------------------------
// objects
// ---------------------------------------------------------------------------

/// The views of a member list.
pub open spec fn member_views(members: Seq<(String, JsonValue)>) -> Seq<(Seq<char>, JsonView)> {
    members.map_values(|m: (String, JsonValue)| (m.0@, m.1.view_of()))
}

/// The object a member list denotes: a later member replaces an earlier one
/// with the same key.
pub open spec fn object_of(members: Seq<(Seq<char>, JsonView)>) -> Map<Seq<char>, JsonView>
    decreases members.len(),
{
    if members.len() == 0 {
        Map::empty()
    } else {
        object_of(members.drop_last()).insert(members.last().0, members.last().1)
    }
}

/// No two members share a key.
pub open spec fn keys_distinct(members: Seq<(Seq<char>, JsonView)>) -> bool {
    forall|i: int, j: int| 0 <= i < j < members.len() ==> members[i].0 != members[j].0
}

/// A key is in the object exactly when some member has it.
pub proof fn lemma_object_contains(members: Seq<(Seq<char>, JsonView)>, key: Seq<char>)
    ensures
        object_of(members).contains_key(key) <==> exists|i: int|
            0 <= i < members.len() && (#[trigger] members[i]).0 == key,
    decreases members.len(),
{
    if members.len() > 0 {
        lemma_object_contains(members.drop_last(), key);
        if object_of(members.drop_last()).contains_key(key) {
            let i = choose|i: int|
                0 <= i < members.drop_last().len() && (#[trigger] members.drop_last()[i]).0 == key;
            assert(members[i].0 == key);
        }
        if exists|i: int| 0 <= i < members.len() && (#[trigger] members[i]).0 == key {
            let i = choose|i: int| 0 <= i < members.len() && (#[trigger] members[i]).0 == key;
            if i < members.len() - 1 {
                assert(members.drop_last()[i].0 == key);
            }
        }
    }
}

/// With distinct keys, each member's value is the object's value at its key.
pub proof fn lemma_object_at(members: Seq<(Seq<char>, JsonView)>, i: int)
    requires
        keys_distinct(members),
        0 <= i < members.len(),
    ensures
        object_of(members).contains_key(members[i].0),
        object_of(members)[members[i].0] == members[i].1,
    decreases members.len(),
{
    if i < members.len() - 1 {
        lemma_object_at(members.drop_last(), i);
    }
}

/// Replacing the value of a member replaces the object's value at its key.
pub proof fn lemma_object_update(members: Seq<(Seq<char>, JsonView)>, i: int, value: JsonView)
    requires
        keys_distinct(members),
        0 <= i < members.len(),
    ensures
        keys_distinct(members.update(i, (members[i].0, value))),
        object_of(members.update(i, (members[i].0, value))) == object_of(members).insert(
            members[i].0,
            value,
        ),
    decreases members.len(),
{
    let updated = members.update(i, (members[i].0, value));
    if i == members.len() - 1 {
        assert(updated.drop_last() =~= members.drop_last());
        assert(object_of(updated) =~= object_of(members).insert(members[i].0, value));
    } else {
        lemma_object_update(members.drop_last(), i, value);
        assert(updated.drop_last() =~= members.drop_last().update(i, (members[i].0, value)));
        assert(object_of(updated) =~= object_of(members).insert(members[i].0, value));
    }
}

/// Removing a member removes its key from the object.
pub proof fn lemma_object_remove(members: Seq<(Seq<char>, JsonView)>, i: int)
    requires
        keys_distinct(members),
        0 <= i < members.len(),
    ensures
        keys_distinct(members.remove(i)),
        object_of(members.remove(i)) == object_of(members).remove(members[i].0),
    decreases members.len(),
{
    let removed = members.remove(i);
    assert(keys_distinct(removed)) by {
        assert forall|a: int, b: int| 0 <= a < b < removed.len() implies removed[a].0
            != removed[b].0 by {
            let x = if a < i { a } else { a + 1 };
            let y = if b < i { b } else { b + 1 };
            assert(removed[a] == members[x] && removed[b] == members[y]);
        }
    }
    if i == members.len() - 1 {
        assert(removed =~= members.drop_last());
        lemma_object_contains(members.drop_last(), members[i].0);
        if object_of(members.drop_last()).contains_key(members[i].0) {
            let j = choose|j: int|
                0 <= j < members.drop_last().len() && (#[trigger] members.drop_last()[j]).0
                    == members[i].0;
            assert(members[j].0 == members[i].0);
        }
        assert(object_of(removed) =~= object_of(members).remove(members[i].0));
    } else {
        lemma_object_remove(members.drop_last(), i);
        assert(removed.drop_last() =~= members.drop_last().remove(i));
        assert(removed.last() == members.last());
        assert(object_of(removed) =~= object_of(members).remove(members[i].0));
    }
}

/// A JSON object whose keys are distinct, as JSON objects are once parsed.
#[derive(Debug)]
pub struct FieldMap {
    members: Vec<(String, JsonValue)>,
}

impl View for FieldMap {
    type V = Map<Seq<char>, JsonView>;

    closed spec fn view(&self) -> Map<Seq<char>, JsonView> {
        object_of(member_views(self.members@))
    }
}

impl FieldMap {
    #[verifier::type_invariant]
    closed spec fn distinct(self) -> bool {
        keys_distinct(member_views(self.members@))
    }

    /// An empty object.
    pub fn new() -> (map: Self)
        ensures
            map@ == Map::<Seq<char>, JsonView>::empty(),
    {
        let map = FieldMap { members: Vec::new() };
        assert(member_views(map.members@) =~= Seq::empty());
        map
    }

    /// The index of the member with `key`, if any.
    fn position(&self, key: &str) -> (index: Option<usize>)
        ensures
            match index {
                Some(i) => i < self.members@.len() && self.members@[i as int].0@ == key@,
                None => forall|i: int|
                    0 <= i < self.members@.len() ==> (#[trigger] self.members@[i]).0@ != key@,
            },
    {
        let mut i: usize = 0;
        while i < self.members.len()
            invariant
                0 <= i <= self.members@.len(),
                forall|k: int| 0 <= k < i ==> (#[trigger] self.members@[k]).0@ != key@,
            decreases self.members@.len() - i,
        {
            if str_equal(self.members[i].0.as_str(), key) {
                return Some(i);
            }
            i = i + 1;
        }
        None
    }

    /// The value at `key`, if any.
    pub fn get(&self, key: &str) -> (value: Option<&JsonValue>)
        ensures
            value is Some <==> self@.contains_key(key@),
            value matches Some(v) ==> v.view_of() == self@[key@],
    {
        proof {
            use_type_invariant(self);
        }
        let ghost views = member_views(self.members@);
        match self.position(key) {
            Some(i) => {
                proof {
                    lemma_object_at(views, i as int);
                }
                Some(&self.members[i].1)
            },
            None => {
                proof {
                    lemma_object_contains(views, key@);
                    if self@.contains_key(key@) {
                        let j = choose|j: int| 0 <= j < views.len() && (#[trigger] views[j]).0 == key@;
                        assert(self.members@[j].0@ == key@);
                    }
                }
                None
            },
        }
    }

    /// Sets the value at `key`, replacing any earlier one.
    pub fn insert(&mut self, key: String, value: JsonValue)
        ensures
            final(self)@ == old(self)@.insert(key@, value.view_of()),
    {
        proof {
            use_type_invariant(&*self);
        }
        let ghost views = member_views(self.members@);
        match self.position(key.as_str()) {
            Some(i) => {
                proof {
                    lemma_object_update(views, i as int, value.view_of());
                }
                let mut members = Vec::new();
                std::mem::swap(&mut members, &mut self.members);
                members.set(i, (key, value));
                assert(member_views(members@) =~= views.update(
                    i as int,
                    (views[i as int].0, value.view_of()),
                ));
                self.members = members;
            },
            None => {
                proof {
                    lemma_object_contains(views, key@);
                }
                let ghost kv = key@;
                let ghost vv = value.view_of();
                let mut members = Vec::new();
                std::mem::swap(&mut members, &mut self.members);
                members.push((key, value));
                assert(member_views(members@) =~= views.push((kv, vv)));
                assert(member_views(members@).drop_last() =~= views);
                self.members = members;
            },
        }
    }

    /// Removes and returns the value at `key`, if any.
    pub fn remove(&mut self, key: &str) -> (value: Option<JsonValue>)
        ensures
            final(self)@ == old(self)@.remove(key@),
            value is Some <==> old(self)@.contains_key(key@),
            value matches Some(v) ==> v.view_of() == old(self)@[key@],
    {
        proof {
            use_type_invariant(&*self);
        }
        let ghost views = member_views(self.members@);
        match self.position(key) {
            Some(i) => {
                proof {
                    lemma_object_remove(views, i as int);
                    lemma_object_at(views, i as int);
                }
                let mut members = Vec::new();
                std::mem::swap(&mut members, &mut self.members);
                let (_, value) = members.remove(i);
                assert(member_views(members@) =~= views.remove(i as int));
                self.members = members;
                Some(value)
            },
            None => {
                proof {
                    lemma_object_contains(views, key@);
                    if old(self)@.contains_key(key@) {
                        let j = choose|j: int| 0 <= j < views.len() && (#[trigger] views[j]).0 == key@;
                        assert(self.members@[j].0@ == key@);
                    }
                    assert(self@ =~= old(self)@.remove(key@));
                }
                None
            },
        }
    }

    /// The object a member list denotes, a later member replacing an earlier
    /// one with the same key.
    pub fn from_members(members: Vec<(String, JsonValue)>) -> (map: Self)
        ensures
            map@ == object_of(member_views(members@)),
    {
        let ghost all = members@;
        let total = members.len();
        let mut rest = members;
        let mut map = FieldMap::new();
        let mut k: usize = 0;
        while rest.len() > 0
            invariant
                0 <= k <= all.len(),
                all.len() == total,
                rest@ == all.subrange(k as int, all.len() as int),
                map@ == object_of(member_views(all.take(k as int))),
            decreases rest@.len(),
        {
            let (key, value) = rest.remove(0);
            proof {
                assert(member_views(all.take(k + 1)).drop_last() =~= member_views(all.take(k as int)));
                assert(all[k as int] == (key, value));
            }
            map.insert(key, value);
            k = k + 1;
        }
        assert(all.take(all.len() as int) =~= all);
        map
    }

    /// The members, with distinct keys.
    pub fn members(&self) -> (members: &Vec<(String, JsonValue)>)
        ensures
            keys_distinct(member_views(members@)),
            object_of(member_views(members@)) == self@,
    {
        proof {
            use_type_invariant(self);
        }
        &self.members
    }

    /// Takes the members, with distinct keys.
    pub fn into_members(self) -> (members: Vec<(String, JsonValue)>)
        ensures
            keys_distinct(member_views(members@)),
            object_of(member_views(members@)) == self@,
    {
        proof {
            use_type_invariant(&self);
        }
        self.members
    }
}

} // verus!
