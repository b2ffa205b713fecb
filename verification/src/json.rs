//! JSON values, as the bridge reads and writes them.

use vstd::prelude::*;

verus! {

/// A JSON number.
///
/// An integer is held exactly. Any other number is held as the bit pattern of
/// the finite binary64 value that the transport parsed; this crate carries
/// the pattern and never looks inside it.
#[derive(Clone, Copy, Debug, PartialEq, Eq, Structural)]
pub enum Number {
    /// An integer that is not negative.
    PosInt(u64),
    /// A negative integer.
    NegInt(i64),
    /// The bit pattern of a finite binary64 value.
    Float(u64),
}

/// What a [`Number`] denotes: a mathematical integer, or a binary64 pattern.
pub enum NumberModel {
    Int(int),
    Float(u64),
}

impl View for Number {
    type V = NumberModel;

    open spec fn view(&self) -> NumberModel {
        match *self {
            Number::PosInt(n) => NumberModel::Int(n as int),
            Number::NegInt(n) => NumberModel::Int(n as int),
            Number::Float(bits) => NumberModel::Float(bits),
        }
    }
}

impl Number {
    /// The canonical form: `NegInt` holds negative integers only.
    pub open spec fn wf(self) -> bool {
        self matches Number::NegInt(n) ==> n < 0
    }

    /// The number that denotes `n`.
    pub fn from_u64(n: u64) -> (r: Number)
        ensures
            r == Number::PosInt(n),
            r@ == NumberModel::Int(n as int),
            r.wf(),
    {
        Number::PosInt(n)
    }

    /// The canonical number that denotes `n`.
    pub fn from_i64(n: i64) -> (r: Number)
        ensures
            r@ == NumberModel::Int(n as int),
            r.wf(),
            n < 0 ==> r == Number::NegInt(n),
            n >= 0 ==> r == Number::PosInt(n as u64),
    {
        if n < 0 {
            Number::NegInt(n)
        } else {
            Number::PosInt(n as u64)
        }
    }

    /// The integer that the number denotes, where it fits in 64 unsigned bits.
    pub fn as_u64(&self) -> (r: Option<u64>)
        ensures
            r == (match self@ {
                NumberModel::Int(n) => if 0 <= n <= u64::MAX {
                    Some(n as u64)
                } else {
                    None
                },
                NumberModel::Float(_) => None,
            }),
    {
        match *self {
            Number::PosInt(n) => Some(n),
            Number::NegInt(n) => if n >= 0 {
                Some(n as u64)
            } else {
                None
            },
            Number::Float(_) => None,
        }
    }

    /// The integer that the number denotes, where it fits in 64 signed bits.
    pub fn as_i64(&self) -> (r: Option<i64>)
        ensures
            r == (match self@ {
                NumberModel::Int(n) => if i64::MIN <= n <= i64::MAX {
                    Some(n as i64)
                } else {
                    None
                },
                NumberModel::Float(_) => None,
            }),
    {
        match *self {
            Number::PosInt(n) => if n <= 0x7fff_ffff_ffff_ffff {
                Some(n as i64)
            } else {
                None
            },
            Number::NegInt(n) => Some(n),
            Number::Float(_) => None,
        }
    }
}

/// A JSON value. The members of an object keep the order in which they were
/// given; a key is looked up from the front, so the first member of a name is
/// the one that counts.
#[derive(Debug, PartialEq, Eq)]
pub enum JsonValue {
    Null,
    Bool(bool),
    Number(Number),
    String(String),
    Array(Vec<JsonValue>),
    Object(Vec<(String, JsonValue)>),
}

/// The mathematical value of a [`JsonValue`].
pub enum JsonModel {
    Null,
    Bool(bool),
    Number(NumberModel),
    String(Seq<char>),
    Array(Seq<JsonModel>),
    Object(Seq<(Seq<char>, JsonModel)>),
}

impl JsonValue {
    /// The mathematical value, member by member and item by item.
    pub open spec fn model(self) -> JsonModel
        decreases self,
    {
        match self {
            JsonValue::Null => JsonModel::Null,
            JsonValue::Bool(b) => JsonModel::Bool(b),
            JsonValue::Number(n) => JsonModel::Number(n@),
            JsonValue::String(s) => JsonModel::String(s@),
            JsonValue::Array(items) => JsonModel::Array(
                Seq::new(
                    items.len() as nat,
                    |i: int|
                        if 0 <= i < items.len() {
                            items[i].model()
                        } else {
                            arbitrary()
                        },
                ),
            ),
            JsonValue::Object(members) => JsonModel::Object(
                Seq::new(
                    members.len() as nat,
                    |i: int|
                        if 0 <= i < members.len() {
                            (members[i].0@, members[i].1.model())
                        } else {
                            arbitrary()
                        },
                ),
            ),
        }
    }
}

impl JsonModel {
    /// No object in the value, at any depth, has two members of one name.
    pub open spec fn well_formed(self) -> bool
        decreases self,
    {
        match self {
            JsonModel::Array(items) => forall|i: int|
                0 <= i < items.len() ==> (#[trigger] items[i]).well_formed(),
            JsonModel::Object(members) => {
                &&& forall|i: int, k: int|
                    0 <= i < k < members.len() ==> (#[trigger] members[i]).0 != (
                    #[trigger] members[k]).0
                &&& forall|i: int|
                    0 <= i < members.len() ==> (#[trigger] members[i]).1.well_formed()
            },
            _ => true,
        }
    }
}

impl View for JsonValue {
    type V = JsonModel;

    open spec fn view(&self) -> JsonModel {
        self.model()
    }
}

/// The values of a list of items.
pub open spec fn items_model(items: Seq<JsonValue>) -> Seq<JsonModel> {
    Seq::new(items.len(), |i: int| items[i]@)
}

/// The names and values of a list of members.
pub open spec fn members_model(members: Seq<(String, JsonValue)>) -> Seq<(Seq<char>, JsonModel)> {
    Seq::new(members.len(), |i: int| (members[i].0@, members[i].1@))
}

/// The model of an array is the model of its items.
pub proof fn lemma_array_model(items: Vec<JsonValue>)
    ensures
        JsonValue::Array(items)@ == JsonModel::Array(items_model(items@)),
{
    assert(JsonValue::Array(items)@->Array_0 =~= items_model(items@));
}

/// The model of an object is the model of its members.
pub proof fn lemma_object_model(members: Vec<(String, JsonValue)>)
    ensures
        JsonValue::Object(members)@ == JsonModel::Object(members_model(members@)),
{
    assert(JsonValue::Object(members)@->Object_0 =~= members_model(members@));
}

/// The value of the first member named `key` at or after position `from`.
pub open spec fn lookup_from(
    members: Seq<(Seq<char>, JsonModel)>,
    key: Seq<char>,
    from: int,
) -> Option<JsonModel>
    decreases members.len() - from,
{
    if from < 0 || from >= members.len() {
        None
    } else if members[from].0 == key {
        Some(members[from].1)
    } else {
        lookup_from(members, key, from + 1)
    }
}

/// The value of the first member named `key`, if there is one.
pub open spec fn lookup(members: Seq<(Seq<char>, JsonModel)>, key: Seq<char>) -> Option<JsonModel> {
    lookup_from(members, key, 0)
}

/// A value that is looked up is the value of a member of that name, and no
/// member before it has the name.
pub proof fn lemma_lookup_from(members: Seq<(Seq<char>, JsonModel)>, key: Seq<char>, from: int)
    requires
        0 <= from,
    ensures
        match lookup_from(members, key, from) {
            Some(x) => exists|i: int|
                from <= i < members.len() && #[trigger] members[i] == (key, x) && forall|k: int|
                    from <= k < i ==> (#[trigger] members[k]).0 != key,
            None => forall|k: int| from <= k < members.len() ==> (#[trigger] members[k]).0 != key,
        },
    decreases members.len() - from,
{
    if from < members.len() {
        if members[from].0 == key {
            assert(members[from] == (key, members[from].1));
        } else {
            lemma_lookup_from(members, key, from + 1);
            match lookup_from(members, key, from + 1) {
                Some(x) => {
                    let i = choose|i: int|
                        from + 1 <= i < members.len() && #[trigger] members[i] == (key, x)
                            && forall|k: int| from + 1 <= k < i ==> (#[trigger] members[k]).0 != key;
                    assert forall|k: int| from <= k < i implies (#[trigger] members[k]).0
                        != key by {}
                },
                None => {
                    assert forall|k: int| from <= k < members.len() implies (
                    #[trigger] members[k]).0 != key by {}
                },
            }
        }
    }
}

/// Where no name occurs before position `i`, looking a member's name up
/// gives the member's value.
pub proof fn lemma_lookup_finds(members: Seq<(Seq<char>, JsonModel)>, i: int)
    requires
        0 <= i < members.len(),
        forall|k: int| 0 <= k < i ==> (#[trigger] members[k]).0 != members[i].0,
    ensures
        lookup(members, members[i].0) == Some(members[i].1),
{
    lemma_lookup_from(members, members[i].0, 0);
}

/// The first member named `key`.
pub fn get<'a>(members: &'a Vec<(String, JsonValue)>, key: &String) -> (r: Option<&'a JsonValue>)
    ensures
        match r {
            Some(v) => lookup(members_model(members@), key@) == Some(v@),
            None => lookup(members_model(members@), key@) is None,
        },
{
    let ghost model = members_model(members@);
    let mut i: usize = 0;
    while i < members.len()
        invariant
            i <= members.len(),
            model == members_model(members@),
            lookup(model, key@) == lookup_from(model, key@, i as int),
        decreases members.len() - i,
    {
        if members[i].0 == *key {
            return Some(&members[i].1);
        }
        i += 1;
    }
    None
}

} // verus!

verus! {

/// A copy of a list of JSON values.
fn clone_items(items: &Vec<JsonValue>) -> (out: Vec<JsonValue>)
    ensures
        items_model(out@) == items_model(items@),
    decreases items,
{
    let mut out: Vec<JsonValue> = Vec::new();
    let mut i: usize = 0;
    while i < items.len()
        invariant
            i <= items.len(),
            out.len() == i,
            forall|k: int| 0 <= k < i ==> (#[trigger] out[k])@ == items[k]@,
        decreases items.len() - i,
    {
        let item = items[i].clone();
        out.push(item);
        i += 1;
    }
    assert(items_model(out@) =~= items_model(items@));
    out
}

/// A copy of a list of members.
pub fn clone_members(members: &Vec<(String, JsonValue)>) -> (out: Vec<(String, JsonValue)>)
    ensures
        members_model(out@) == members_model(members@),
    decreases members,
{
    let mut out: Vec<(String, JsonValue)> = Vec::new();
    let mut i: usize = 0;
    while i < members.len()
        invariant
            i <= members.len(),
            out.len() == i,
            forall|k: int|
                0 <= k < i ==> (#[trigger] out[k]).0@ == members[k].0@ && out[k].1@
                    == members[k].1@,
        decreases members.len() - i,
    {
        let value = members[i].1.clone();
        out.push((members[i].0.clone(), value));
        i += 1;
    }
    assert(members_model(out@) =~= members_model(members@));
    out
}

impl Clone for JsonValue {
    /// A copy that denotes the same JSON value.
    fn clone(&self) -> (r: Self)
        ensures
            r@ == self@,
        decreases self,
    {
        match self {
            JsonValue::Null => JsonValue::Null,
            JsonValue::Bool(b) => JsonValue::Bool(*b),
            JsonValue::Number(n) => JsonValue::Number(*n),
            JsonValue::String(s) => JsonValue::String(s.clone()),
            JsonValue::Array(items) => {
                let out = clone_items(items);
                proof {
                    lemma_array_model(out);
                    lemma_array_model(*items);
                }
                JsonValue::Array(out)
            },
            JsonValue::Object(members) => {
                let out = clone_members(members);
                proof {
                    lemma_object_model(out);
                    lemma_object_model(*members);
                }
                JsonValue::Object(out)
            },
        }
    }
}

} // verus!
