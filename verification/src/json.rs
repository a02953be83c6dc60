//! A model of JSON documents as the helper reads them.
//!
//! Numbers keep the three shapes that a JSON parser distinguishes: a
//! non-negative integer, a negative integer, and a floating-point value,
//! the latter held by its IEEE-754 bit pattern so that coordinates pass
//! through the library unchanged and are only turned back into floats at
//! the point where input is synthesized.

use serde_json::Value;
use serde_json::Value::{Array, Bool, Null, Object};
use vstd::prelude::*;

verus! {

/// A JSON number.
#[derive(Clone, Copy, Debug, PartialEq, Eq, Structural)]
pub enum Num {
    /// An integer `>= 0`.
    PosInt(u64),
    /// An integer `< 0`.
    NegInt(i64),
    /// A floating-point number, by its IEEE-754 bit pattern.
    Float(u64),
}

/// The bit pattern of the floating-point `0.0`.
pub const ZERO_BITS: u64 = 0u64;

/// The bit pattern of the floating-point `1.0`.
pub const ONE_BITS: u64 = 0x3FF0_0000_0000_0000u64;

impl Num {
    /// The number as an `i64`, where it is an integer in range.
    pub open spec fn spec_as_i64(self) -> Option<i64> {
        match self {
            Num::PosInt(n) => if n <= i64::MAX { Some(n as i64) } else { None },
            Num::NegInt(n) => Some(n),
            Num::Float(_) => None,
        }
    }

    /// The number as a `u64`, where it is a non-negative integer.
    pub open spec fn spec_as_u64(self) -> Option<u64> {
        match self {
            Num::PosInt(n) => Some(n),
            _ => None,
        }
    }

    pub fn as_i64(&self) -> (r: Option<i64>)
        ensures
            r == self.spec_as_i64(),
    {
        match *self {
            Num::PosInt(n) => if n <= i64::MAX as u64 { Some(n as i64) } else { None },
            Num::NegInt(n) => Some(n),
            Num::Float(_) => None,
        }
    }

    pub fn as_u64(&self) -> (r: Option<u64>)
        ensures
            r == self.spec_as_u64(),
    {
        match *self {
            Num::PosInt(n) => Some(n),
            _ => None,
        }
    }
}

/// A JSON value.
#[derive(Debug, PartialEq)]
pub enum Json {
    Null,
    Bool(bool),
    Number(Num),
    Str(String),
    Array(Vec<Json>),
    /// An object, as its members in order.
    Object(Vec<(String, Json)>),
}

/// The first member of `fields` named `key`.
pub open spec fn lookup(fields: Seq<(String, Json)>, key: Seq<char>) -> Option<Json>
    decreases fields.len(),
{
    if fields.len() == 0 {
        None
    } else if fields[0].0@ == key {
        Some(fields[0].1)
    } else {
        lookup(fields.drop_first(), key)
    }
}

impl Json {
    /// The member `key` of an object; `None` for other values.
    pub open spec fn field(self, key: Seq<char>) -> Option<Json> {
        match self {
            Json::Object(fields) => lookup(fields@, key),
            _ => None,
        }
    }

    /// The member `key` as a number.
    pub open spec fn num_at(self, key: Seq<char>) -> Option<Num> {
        match self.field(key) {
            Some(Json::Number(n)) => Some(n),
            _ => None,
        }
    }

    /// The member `key` as an `i64`.
    pub open spec fn i64_at(self, key: Seq<char>) -> Option<i64> {
        match self.num_at(key) {
            Some(n) => n.spec_as_i64(),
            None => None,
        }
    }

    /// The member `key` as a `u64`.
    pub open spec fn u64_at(self, key: Seq<char>) -> Option<u64> {
        match self.num_at(key) {
            Some(n) => n.spec_as_u64(),
            None => None,
        }
    }

    /// The member `key` as a string.
    pub open spec fn str_at(self, key: Seq<char>) -> Option<Seq<char>> {
        match self.field(key) {
            Some(Json::Str(s)) => Some(s@),
            _ => None,
        }
    }

    /// The member `key` as a boolean.
    pub open spec fn bool_at(self, key: Seq<char>) -> Option<bool> {
        match self.field(key) {
            Some(Json::Bool(b)) => Some(b),
            _ => None,
        }
    }

    /// The member `key` as an array.
    pub open spec fn array_at(self, key: Seq<char>) -> Option<Seq<Json>> {
        match self.field(key) {
            Some(Json::Array(items)) => Some(items@),
            _ => None,
        }
    }

    /// Looks up the member `key` of an object.
    pub fn get(&self, key: &str) -> (r: Option<&Json>)
        ensures
            match r {
                Some(v) => self.field(key@) == Some(*v),
                None => self.field(key@).is_none(),
            },
    {
        match self {
            Json::Object(fields) => {
                let wanted = String::from_str(key);
                let mut i: usize = 0;
                assert(fields@.skip(0) =~= fields@);
                while i < fields.len()
                    invariant
                        0 <= i <= fields.len(),
                        wanted@ == key@,
                        self.field(key@) == lookup(fields@, key@),
                        lookup(fields@, key@) == lookup(fields@.skip(i as int), key@),
                    decreases fields.len() - i,
                {
                    assert(fields@.skip(i as int).drop_first() =~= fields@.skip(i + 1));
                    assert(fields@.skip(i as int)[0] == fields@[i as int]);
                    if fields[i].0 == wanted {
                        return Some(&fields[i].1);
                    }
                    i = i + 1;
                }
                None
            },
            _ => None,
        }
    }
}

/// The index of the first member of `fields` named `key`.
pub open spec fn first_index(fields: Seq<(String, Json)>, key: Seq<char>, i: int) -> bool {
    &&& 0 <= i < fields.len()
    &&& fields[i].0@ == key
    &&& forall|j: int| 0 <= j < i ==> fields[j].0@ != key
}

/// Replacing the first member named `key` changes what `key` names and
/// nothing else.
pub proof fn lemma_lookup_update(
    fields: Seq<(String, Json)>,
    key: Seq<char>,
    i: int,
    member: (String, Json),
    k: Seq<char>,
)
    requires
        first_index(fields, key, i),
        member.0@ == key,
    ensures
        lookup(fields.update(i, member), k) == if k == key {
            Some(member.1)
        } else {
            lookup(fields, k)
        },
    decreases fields.len(),
{
    let updated = fields.update(i, member);
    if i == 0 {
        assert(updated[0] == member);
        assert(updated.drop_first() =~= fields.drop_first());
    } else {
        assert(updated[0] == fields[0]);
        assert(fields.update(i, member).drop_first() =~= fields.drop_first().update(i - 1, member));
        assert forall|j: int| 0 <= j < i - 1 implies fields.drop_first()[j].0@ != key by {
            assert(fields.drop_first()[j] == fields[j + 1]);
        }
        lemma_lookup_update(fields.drop_first(), key, i - 1, member, k);
    }
}

/// Appending a member named `key` where none is gives `key` that member and
/// changes nothing else.
pub proof fn lemma_lookup_push(fields: Seq<(String, Json)>, member: (String, Json), k: Seq<char>)
    requires
        lookup(fields, member.0@) is None,
    ensures
        lookup(fields.push(member), k) == if k == member.0@ {
            Some(member.1)
        } else {
            lookup(fields, k)
        },
    decreases fields.len(),
{
    let pushed = fields.push(member);
    if fields.len() > 0 {
        assert(pushed[0] == fields[0]);
        assert(pushed.drop_first() =~= fields.drop_first().push(member));
        assert(fields[0].0@ != member.0@);
        lemma_lookup_push(fields.drop_first(), member, k);
        if fields[0].0@ == k {
            assert(lookup(pushed, k) == Some(fields[0].1));
        } else {
            assert(lookup(pushed, k) == lookup(pushed.drop_first(), k));
        }
    } else {
        assert(pushed[0] == member);
        assert(pushed.drop_first() =~= Seq::<(String, Json)>::empty());
    }
}

/// A missing member: no member has its name.
pub proof fn lemma_lookup_none(fields: Seq<(String, Json)>, key: Seq<char>)
    ensures
        lookup(fields, key) is None <==> forall|j: int| 0 <= j < fields.len() ==> fields[j].0@ != key,
    decreases fields.len(),
{
    if fields.len() > 0 {
        lemma_lookup_none(fields.drop_first(), key);
        if lookup(fields, key) is None {
            assert forall|j: int| 0 <= j < fields.len() implies fields[j].0@ != key by {
                if j > 0 {
                    assert(fields.drop_first()[j - 1] == fields[j]);
                }
            }
        } else {
            if fields[0].0@ != key {
                let j = choose|j: int| 0 <= j < fields.drop_first().len() && !(fields.drop_first()[j].0@ != key);
                assert(fields.drop_first()[j] == fields[j + 1]);
            }
        }
    }
}

/// Sets the member `key` of an object to `value`: the first member of that
/// name is replaced, or a member is appended.
pub fn set_member(fields: &mut Vec<(String, Json)>, key: &str, value: Json)
    ensures
        forall|k: Seq<char>| #[trigger] lookup(final(fields)@, k) == if k == key@ {
            Some(value)
        } else {
            lookup(old(fields)@, k)
        },
{
    let wanted = String::from_str(key);
    let mut i: usize = 0;
    while i < fields.len()
        invariant
            0 <= i <= fields.len(),
            wanted@ == key@,
            fields@ == old(fields)@,
            forall|j: int| 0 <= j < i ==> fields@[j].0@ != key@,
        decreases fields.len() - i,
    {
        if fields[i].0 == wanted {
            let ghost before = fields@;
            let member = (wanted, value);
            fields.set(i, member);
            proof {
                assert(first_index(before, key@, i as int));
                assert forall|k: Seq<char>| #[trigger] lookup(fields@, k) == if k == key@ {
                    Some(member.1)
                } else {
                    lookup(before, k)
                } by {
                    lemma_lookup_update(before, key@, i as int, member, k);
                }
            }
            return;
        }
        i = i + 1;
    }
    let ghost before = fields@;
    proof {
        lemma_lookup_none(before, key@);
    }
    let member = (wanted, value);
    fields.push(member);
    proof {
        assert forall|k: Seq<char>| #[trigger] lookup(fields@, k) == if k == key@ {
            Some(member.1)
        } else {
            lookup(before, k)
        } by {
            lemma_lookup_push(before, member, k);
        }
    }
}

impl Json {
    /// The member `key` as a number.
    pub fn get_num(&self, key: &str) -> (r: Option<Num>)
        ensures
            r == self.num_at(key@),
    {
        match self.get(key) {
            Some(Json::Number(n)) => Some(*n),
            _ => None,
        }
    }

    /// The member `key` as an `i64`.
    pub fn get_i64(&self, key: &str) -> (r: Option<i64>)
        ensures
            r == self.i64_at(key@),
    {
        match self.get_num(key) {
            Some(n) => n.as_i64(),
            None => None,
        }
    }

    /// The member `key` as a `u64`.
    pub fn get_u64(&self, key: &str) -> (r: Option<u64>)
        ensures
            r == self.u64_at(key@),
    {
        match self.get_num(key) {
            Some(n) => n.as_u64(),
            None => None,
        }
    }

    /// The member `key` as a string.
    pub fn get_str(&self, key: &str) -> (r: Option<&String>)
        ensures
            match r {
                Some(s) => self.str_at(key@) == Some(s@),
                None => self.str_at(key@).is_none(),
            },
    {
        match self.get(key) {
            Some(Json::Str(s)) => Some(s),
            _ => None,
        }
    }

    /// The member `key` as a boolean.
    pub fn get_bool(&self, key: &str) -> (r: Option<bool>)
        ensures
            r == self.bool_at(key@),
    {
        match self.get(key) {
            Some(Json::Bool(b)) => Some(*b),
            _ => None,
        }
    }

    /// The member `key` as an array.
    pub fn get_array(&self, key: &str) -> (r: Option<&Vec<Json>>)
        ensures
            match r {
                Some(items) => self.array_at(key@) == Some(items@),
                None => self.array_at(key@).is_none(),
            },
    {
        match self.get(key) {
            Some(Json::Array(items)) => Some(items),
            _ => None,
        }
    }
}

/// serde_json's value type, carried through without being looked into.
#[verifier::external_type_specification]
#[verifier::external_body]
pub struct ExJsonValue(serde_json::Value);

/// What serde_json's parser makes of a text: a value, or the message of its
/// error.
pub uninterp spec fn parsed_json(text: Seq<char>) -> Result<Json, Seq<char>>;

/// Converts a value of serde_json into the model, variant by variant; a
/// number as serde_json reports it: a `u64`, else an `i64`, else the bits of
/// its `as_f64` (for which serde_json always has a value).
#[verifier::external_body]
fn json_from_value(v: &Value) -> Json {
    match v {
        Null => Json::Null,
        Bool(b) => Json::Bool(*b),
        Value::Number(n) => Json::Number(match (n.as_u64(), n.as_i64()) {
            (Some(u), _) => Num::PosInt(u),
            (_, Some(i)) => Num::NegInt(i),
            _ => Num::Float(n.as_f64().map_or(0, |x| x.to_bits())),
        }),
        Value::String(s) => Json::Str(s.clone()),
        Array(a) => Json::Array(a.iter().map(json_from_value).collect()),
        Object(m) => Json::Object(m.iter().map(|(k, x)| (k.clone(), json_from_value(x))).collect()),
    }
}

/// Parses a JSON text with `serde_json::from_str::<serde_json::Value>`.
/// Claimed of serde_json: the outcome depends on the text alone (it is
/// left to the name `parsed_json`); an error is given by its message.
#[verifier::external_body]
pub(crate) fn parse_json(text: &str) -> (r: Result<Json, String>)
    ensures
        match r {
            Ok(j) => parsed_json(text@) == Ok::<Json, Seq<char>>(j),
            Err(e) => parsed_json(text@) == Err::<Json, Seq<char>>(e@),
        },
{
    match serde_json::from_str::<Value>(text) {
        Ok(v) => Ok(json_from_value(&v)),
        Err(e) => Err(e.to_string()),
    }
}

} // verus!
