//! The value that hydration hands to the host.

use vstd::hash_map::StringHashMap;
use vstd::prelude::*;

verus! {

/// A host value, as contracts see it.
pub enum HostView {
    Null,
    Bool(bool),
    Int(int),
    /// A double, given by its IEEE 754 binary64 bit pattern.
    Float(u64),
    Str(Seq<char>),
    Array(Seq<HostView>),
    /// The members in insertion order; see [`put`].
    Object(Seq<(Seq<char>, HostView)>),
}

/// A decoded JSON value in the host's terms.
///
/// `Float` holds the IEEE 754 binary64 bit pattern of the number. `Object` holds its
/// members in the order in which their keys first appeared.
#[derive(Debug, PartialEq, Eq)]
pub enum HostValue {
    Null,
    Bool(bool),
    Int(i64),
    Float(u64),
    Str(String),
    Array(Vec<HostValue>),
    Object(Vec<(String, HostValue)>),
}

/// The view of a host value: the same shape, over sequences.
pub open spec fn view_of(v: HostValue) -> HostView
    decreases v,
{
    match v {
        HostValue::Null => HostView::Null,
        HostValue::Bool(b) => HostView::Bool(b),
        HostValue::Int(n) => HostView::Int(n as int),
        HostValue::Float(bits) => HostView::Float(bits),
        HostValue::Str(s) => HostView::Str(s@),
        HostValue::Array(items) => HostView::Array(
            Seq::new(
                items@.len(),
                |i: int|
                    if 0 <= i < items@.len() {
                        view_of(items@[i])
                    } else {
                        HostView::Null
                    },
            ),
        ),
        HostValue::Object(members) => HostView::Object(
            Seq::new(
                members@.len(),
                |i: int|
                    if 0 <= i < members@.len() {
                        (members@[i].0@, view_of(members@[i].1))
                    } else {
                        (Seq::empty(), HostView::Null)
                    },
            ),
        ),
    }
}

impl View for HostValue {
    type V = HostView;

    open spec fn view(&self) -> HostView {
        view_of(*self)
    }
}

/// The views of a vector of host values.
pub open spec fn items_view(items: Seq<HostValue>) -> Seq<HostView> {
    Seq::new(items.len(), |i: int| items[i]@)
}

/// The views of a vector of object members.
pub open spec fn members_view(members: Seq<(String, HostValue)>) -> Seq<(Seq<char>, HostView)> {
    Seq::new(members.len(), |i: int| (members[i].0@, members[i].1@))
}

/// The view of an array is the views of its elements.
pub proof fn lemma_array_view(items: Vec<HostValue>)
    ensures
        HostValue::Array(items)@ == HostView::Array(items_view(items@)),
{
    let whole = HostValue::Array(items)@;
    assert(whole is Array);
    assert(whole->Array_0 =~= items_view(items@));
}

/// The view of an object is the views of its members.
pub proof fn lemma_object_view(members: Vec<(String, HostValue)>)
    ensures
        HostValue::Object(members)@ == HostView::Object(members_view(members@)),
{
    let whole = HostValue::Object(members)@;
    assert(whole is Object);
    assert(whole->Object_0 =~= members_view(members@));
}

/// The position of the first member named `key`, or the number of members where none is.
pub open spec fn key_position(members: Seq<(Seq<char>, HostView)>, key: Seq<char>) -> int
    decreases members.len(),
{
    if members.len() == 0 || members[0].0 == key {
        0
    } else {
        1 + key_position(members.skip(1), key)
    }
}

/// The members after `key` is set to `value`: a member of that name keeps its place and
/// takes the new value; a new name goes to the end.
pub open spec fn put(members: Seq<(Seq<char>, HostView)>, key: Seq<char>, value: HostView) -> Seq<
    (Seq<char>, HostView),
> {
    let i = key_position(members, key);
    if 0 <= i < members.len() {
        members.update(i, (key, value))
    } else {
        members.push((key, value))
    }
}

/// Whether no two members share a name.
pub open spec fn distinct_keys(members: Seq<(Seq<char>, HostView)>) -> bool {
    forall|i: int, j: int|
        0 <= i < j < members.len() ==> (#[trigger] members[i]).0 != (#[trigger] members[j]).0
}

/// Whether every object in `v`, at any depth, has members of distinct names.
pub open spec fn well_formed(v: HostView) -> bool
    decreases v,
{
    match v {
        HostView::Array(items) => forall|i: int|
            0 <= i < items.len() ==> well_formed(#[trigger] items[i]),
        HostView::Object(members) => distinct_keys(members) && forall|i: int|
            0 <= i < members.len() ==> well_formed((#[trigger] members[i]).1),
        _ => true,
    }
}

/// Whether every value among `members` is well formed.
pub open spec fn well_formed_values(members: Seq<(Seq<char>, HostView)>) -> bool {
    forall|i: int| 0 <= i < members.len() ==> well_formed((#[trigger] members[i]).1)
}

/// Setting a member to a well-formed value keeps the values well formed.
pub proof fn lemma_put_well_formed(
    members: Seq<(Seq<char>, HostView)>,
    key: Seq<char>,
    value: HostView,
)
    requires
        well_formed_values(members),
        well_formed(value),
    ensures
        well_formed_values(put(members, key, value)),
{
    lemma_key_position_bounds(members, key);
    let after = put(members, key, value);
    let i = key_position(members, key);
    assert forall|k: int| 0 <= k < after.len() implies well_formed((#[trigger] after[k]).1) by {
        if k < members.len() && k != i {
            assert(after[k] == members[k]);
        }
    }
}

/// `key_position` finds `i` where no member before `i` has the name and `i` has it, or
/// is the end.
pub proof fn lemma_key_position(members: Seq<(Seq<char>, HostView)>, key: Seq<char>, i: int)
    requires
        0 <= i <= members.len(),
        forall|k: int| 0 <= k < i ==> members[k].0 != key,
        i < members.len() ==> members[i].0 == key,
    ensures
        key_position(members, key) == i,
    decreases i,
{
    if i > 0 {
        let rest = members.skip(1);
        assert forall|k: int| 0 <= k < i - 1 implies rest[k].0 != key by {
            assert(rest[k] == members[k + 1]);
        }
        lemma_key_position(rest, key, i - 1);
    }
}

/// Where `key_position` points: at the first member of that name, or at the end.
pub proof fn lemma_key_position_bounds(members: Seq<(Seq<char>, HostView)>, key: Seq<char>)
    ensures
        0 <= key_position(members, key) <= members.len(),
        forall|k: int| 0 <= k < key_position(members, key) ==> members[k].0 != key,
        key_position(members, key) < members.len() ==> members[key_position(members, key)].0
            == key,
    decreases members.len(),
{
    if members.len() == 0 || members[0].0 == key {
    } else {
        let rest = members.skip(1);
        lemma_key_position_bounds(rest, key);
        assert forall|k: int| 0 <= k < key_position(members, key) implies members[k].0 != key by {
            if k > 0 {
                assert(rest[k - 1] == members[k]);
            }
        }
    }
}

/// Setting a member keeps the names distinct, and afterwards the object holds `value`
/// under `key`.
pub proof fn lemma_put_distinct(members: Seq<(Seq<char>, HostView)>, key: Seq<char>, value: HostView)
    requires
        distinct_keys(members),
    ensures
        distinct_keys(put(members, key, value)),
        0 <= key_position(put(members, key, value), key) < put(members, key, value).len(),
        put(members, key, value)[key_position(put(members, key, value), key)] == (key, value),
{
    lemma_key_position_bounds(members, key);
    let i = key_position(members, key);
    let after = put(members, key, value);
    assert forall|a: int, b: int| 0 <= a < b < after.len() implies (#[trigger] after[a]).0 != (
    #[trigger] after[b]).0 by {
        if i < members.len() {
            assert(after[a].0 == members[a].0);
            assert(after[b].0 == members[b].0);
        } else {
            if b < members.len() {
                assert(after[a] == members[a]);
                assert(after[b] == members[b]);
            } else {
                assert(after[a] == members[a]);
            }
        }
    }
    assert forall|k: int| 0 <= k < i implies after[k].0 != key by {
        assert(after[k] == members[k]);
    }
    lemma_key_position(after, key, i);
}

/// An object under construction: its members in order, and for each name the place
/// where it stands, so that setting a member does not search the others.
pub struct ObjectBuilder {
    members: Vec<(String, HostValue)>,
    positions: StringHashMap<usize>,
}

impl View for ObjectBuilder {
    type V = Seq<(Seq<char>, HostView)>;

    closed spec fn view(&self) -> Seq<(Seq<char>, HostView)> {
        members_view(self.members@)
    }
}

impl ObjectBuilder {
    /// Every name has its place on record, and every place on record holds that name.
    #[verifier::type_invariant]
    spec fn indexed(&self) -> bool {
        let members = members_view(self.members@);
        &&& forall|name: Seq<char>| #[trigger]
            self.positions@.contains_key(name) ==> self.positions@[name] < members.len()
                && members[self.positions@[name] as int].0 == name
        &&& forall|i: int|
            0 <= i < members.len() ==> self.positions@.contains_key((#[trigger] members[i]).0)
                && self.positions@[members[i].0] == i
    }

    /// An object without members.
    pub fn new() -> (b: Self)
        ensures
            b@ == Seq::<(Seq<char>, HostView)>::empty(),
    {
        let b = ObjectBuilder { members: Vec::new(), positions: StringHashMap::new() };
        assert(members_view(b.members@) == Seq::<(Seq<char>, HostView)>::empty());
        b
    }

    /// Sets the member `key` to `value`: a member of that name keeps its place and
    /// takes the new value; a new name goes to the end.
    pub fn insert(self, key: String, value: HostValue) -> (b: Self)
        ensures
            b@ == put(self@, key@, value@),
    {
        proof {
            use_type_invariant(&self);
        }
        let ghost before = members_view(self.members@);
        let ObjectBuilder { mut members, mut positions } = self;
        let found = match positions.get(key.as_str()) {
            Some(at) => Some(*at),
            None => None,
        };
        match found {
            Some(at) => {
                proof {
                    assert forall|k: int| 0 <= k < at implies before[k].0 != key@ by {
                        assert(positions@[before[k].0] == k);
                    }
                    lemma_key_position(before, key@, at as int);
                }
                members.set(at, (key, value));
                assert(members_view(members@) == before.update(at as int, (key@, value@)));
            },
            None => {
                proof {
                    assert forall|k: int| 0 <= k < before.len() implies before[k].0 != key@ by {
                        assert(positions@.contains_key(before[k].0));
                    }
                    lemma_key_position(before, key@, before.len() as int);
                }
                positions.insert(key.clone(), members.len());
                members.push((key, value));
                assert(members_view(members@) == before.push((key@, value@)));
            },
        }
        ObjectBuilder { members, positions }
    }

    /// The members, in order. No two of them share a name.
    pub fn finish(self) -> (members: Vec<(String, HostValue)>)
        ensures
            members_view(members@) == self@,
            distinct_keys(self@),
    {
        proof {
            use_type_invariant(&self);
            let names = members_view(self.members@);
            assert forall|i: int, j: int| 0 <= i < j < names.len() implies (#[trigger] names[i]).0
                != (#[trigger] names[j]).0 by {
                assert(self.positions@[names[i].0] == i);
                assert(self.positions@[names[j].0] == j);
            }
        }
        self.members
    }
}

} // verus!
