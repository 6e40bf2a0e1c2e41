//! JSON values as the client and the service exchange them: the messages on
//! the local socket and the answers of the master API. Reading the text is
//! left to `serde_json` around the library; this module reads the values.

use vstd::prelude::*;

use crate::text::chars_are;

verus! {

/// A JSON value. A number keeps what the logic reads of it, its value when
/// it is a non-negative integer that fits in 64 bits, and the text it is
/// written as, so that it is written back unchanged.
pub enum Json {
    Null,
    Bool(bool),
    Number(Option<u64>, String),
    Str(String),
    Array(Vec<Json>),
    Object(Vec<(String, Json)>),
}

/// The first member named `key` among `fields`.
pub open spec fn find_member(fields: Seq<(String, Json)>, key: Seq<char>) -> Option<Json>
    decreases fields.len(),
{
    if fields.len() == 0 {
        None
    } else if fields[0].0@ == key {
        Some(fields[0].1)
    } else {
        find_member(fields.drop_first(), key)
    }
}

/// The member `key` of an object; `None` for a missing member or a value
/// that is not an object (where `serde_json` indexing gives `null`).
pub open spec fn member(v: Json, key: Seq<char>) -> Option<Json> {
    match v {
        Json::Object(fields) => find_member(fields@, key),
        _ => None,
    }
}

/// `Value::as_str` of an optional member.
pub open spec fn text_of(v: Option<Json>) -> Option<String> {
    match v {
        Some(Json::Str(s)) => Some(s),
        _ => None,
    }
}

/// `Value::as_u64` of an optional member.
pub open spec fn u64_of(v: Option<Json>) -> Option<u64> {
    match v {
        Some(Json::Number(n, _)) => n,
        _ => None,
    }
}

/// `Value::as_bool` of an optional member.
pub open spec fn bool_of(v: Option<Json>) -> Option<bool> {
    match v {
        Some(Json::Bool(b)) => Some(b),
        _ => None,
    }
}

impl Json {
    /// The member `key` of an object, if there is one.
    pub fn get(&self, key: &str) -> (r: Option<&Json>)
        ensures
            match r {
                Some(x) => member(*self, key@) == Some(*x),
                None => member(*self, key@) is None,
            },
    {
        match self {
            Json::Object(fields) => {
                let mut i: usize = 0;
                proof {
                    assert(fields@.skip(0) == fields@);
                }
                while i < fields.len()
                    invariant
                        i <= fields@.len(),
                        member(*self, key@) == find_member(fields@, key@),
                        find_member(fields@, key@) == find_member(fields@.skip(i as int), key@),
                    decreases fields@.len() - i,
                {
                    proof {
                        assert(fields@.skip(i as int)[0] == fields@[i as int]);
                        assert(fields@.skip(i as int).drop_first() == fields@.skip(i + 1));
                    }
                    let key_chars = crate::text::chars_of(fields[i].0.as_str());
                    if chars_are(&key_chars, key) {
                        return Some(&fields[i].1);
                    }
                    i = i + 1;
                }
                None
            },
            _ => None,
        }
    }

    /// The text of a member that is a string.
    pub fn text(&self, key: &str) -> (r: Option<String>)
        ensures
            r == text_of(member(*self, key@)),
    {
        match self.get(key) {
            Some(Json::Str(s)) => Some(s.clone()),
            _ => None,
        }
    }

    /// The value of a member that is a non-negative 64-bit integer.
    pub fn unsigned(&self, key: &str) -> (r: Option<u64>)
        ensures
            r == u64_of(member(*self, key@)),
    {
        match self.get(key) {
            Some(Json::Number(n, _)) => *n,
            _ => None,
        }
    }

    /// The value of a member that is a boolean.
    pub fn flag(&self, key: &str) -> (r: Option<bool>)
        ensures
            r == bool_of(member(*self, key@)),
    {
        match self.get(key) {
            Some(Json::Bool(b)) => Some(*b),
            _ => None,
        }
    }
}


/// The entries of a JSON array; anything else reads as an empty list.
pub open spec fn array_items(v: Json) -> Seq<Json> {
    match v {
        Json::Array(items) => items@,
        _ => Seq::empty(),
    }
}

/// The strings among `items`, in order (`filter_map(Value::as_str)`).
pub open spec fn strings_in(items: Seq<Json>) -> Seq<Seq<char>>
    decreases items.len(),
{
    if items.len() == 0 {
        Seq::empty()
    } else {
        let rest = strings_in(items.drop_last());
        match items.last() {
            Json::Str(s) => rest.push(s@),
            _ => rest,
        }
    }
}

/// The strings of a list, in order.
pub fn strings_of(items: &Vec<Json>) -> (r: Vec<String>)
    ensures
        r@.len() == strings_in(items@).len(),
        forall|k: int| 0 <= k < r@.len() ==> #[trigger] r@[k]@ == strings_in(items@)[k],
{
    let mut r: Vec<String> = Vec::new();
    let mut i: usize = 0;
    proof {
        assert(items@.take(0) =~= Seq::<Json>::empty());
    }
    while i < items.len()
        invariant
            i <= items@.len(),
            r@.len() == strings_in(items@.take(i as int)).len(),
            forall|k: int| 0 <= k < r@.len() ==> #[trigger] r@[k]@ == strings_in(items@.take(i as int))[k],
        decreases items@.len() - i,
    {
        proof {
            assert(items@.take(i + 1).drop_last() =~= items@.take(i as int));
            assert(items@.take(i + 1).last() == items@[i as int]);
        }
        match &items[i] {
            Json::Str(s) => {
                r.push(s.clone());
            },
            _ => {},
        }
        i = i + 1;
    }
    proof {
        assert(items@.take(items@.len() as int) =~= items@);
    }
    r
}

/// A list made of strings only reads back as those strings.
pub proof fn lemma_strings_in_all(items: Seq<Json>)
    requires
        forall|k: int| 0 <= k < items.len() ==> #[trigger] items[k] is Str,
    ensures
        strings_in(items) == Seq::new(items.len(), |k: int| items[k]->Str_0@),
    decreases items.len(),
{
    if items.len() > 0 {
        lemma_strings_in_all(items.drop_last());
        assert(strings_in(items) =~= Seq::new(items.len(), |k: int| items[k]->Str_0@));
    }
}

} // verus!
