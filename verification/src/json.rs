//! A JSON value held as plain data, with the lookups the request mappers and
//! the stream converter use.
use vstd::prelude::*;

verus! {

/// A JSON value. A number keeps its JSON text; an object keeps its members in
/// order, and a lookup finds the first member with a key.
#[derive(Debug, PartialEq, Eq)]
pub enum JsonValue {
    Null,
    Bool(bool),
    Number(String),
    Str(String),
    Array(Vec<JsonValue>),
    Object(Vec<(String, JsonValue)>),
}

/// The mathematical form of a JSON value.
pub enum Json {
    Null,
    Bool(bool),
    Number(Seq<char>),
    Str(Seq<char>),
    Array(Seq<Json>),
    Object(Seq<(Seq<char>, Json)>),
}

/// The mathematical form of a JSON value.
pub open spec fn json_view(v: JsonValue) -> Json
    decreases v,
{
    match v {
        JsonValue::Null => Json::Null,
        JsonValue::Bool(b) => Json::Bool(b),
        JsonValue::Number(n) => Json::Number(n@),
        JsonValue::Str(s) => Json::Str(s@),
        JsonValue::Array(a) => Json::Array(
            Seq::new(
                a@.len(),
                |i: int|
                    if 0 <= i < a@.len() {
                        json_view(a@[i])
                    } else {
                        Json::Null
                    },
            ),
        ),
        JsonValue::Object(m) => Json::Object(
            Seq::new(
                m@.len(),
                |i: int|
                    if 0 <= i < m@.len() {
                        (m@[i].0@, json_view(m@[i].1))
                    } else {
                        (Seq::<char>::empty(), Json::Null)
                    },
            ),
        ),
    }
}

impl View for JsonValue {
    type V = Json;

    open spec fn view(&self) -> Json {
        json_view(*self)
    }
}

/// The value of the first member with key `key`, when `v` is an object.
pub open spec fn member(v: Json, key: Seq<char>) -> Option<Json> {
    match v {
        Json::Object(m) => first_member(m, key),
        _ => None,
    }
}

/// The value of the first member with key `key`.
pub open spec fn first_member(m: Seq<(Seq<char>, Json)>, key: Seq<char>) -> Option<Json>
    decreases m.len(),
{
    if m.len() == 0 {
        None
    } else if m[0].0 == key {
        Some(m[0].1)
    } else {
        first_member(m.drop_first(), key)
    }
}

/// The text of `v` when it is a JSON string.
pub open spec fn as_text(v: Option<Json>) -> Option<Seq<char>> {
    match v {
        Some(Json::Str(s)) => Some(s),
        _ => None,
    }
}

/// The elements of `v` when it is a JSON array.
pub open spec fn as_items(v: Option<Json>) -> Option<Seq<Json>> {
    match v {
        Some(Json::Array(a)) => Some(a),
        _ => None,
    }
}

impl JsonValue {
    /// The value of the first member with key `key`, when this is an object.
    pub fn get(&self, key: &str) -> (r: Option<&JsonValue>)
        ensures
            match r {
                Some(x) => member(self@, key@) == Some(x@),
                None => member(self@, key@).is_none(),
            },
    {
        match self {
            JsonValue::Object(m) => {
                let ghost mv = match self@ {
                    Json::Object(mm) => mm,
                    _ => Seq::empty(),
                };
                let mut i: usize = 0;
                assert(mv.subrange(0, mv.len() as int) =~= mv);
                while i < m.len()
                    invariant
                        self@ == Json::Object(mv),
                        *self == JsonValue::Object(*m),
                        mv.len() == m@.len(),
                        forall|j: int| 0 <= j < m@.len() ==> #[trigger] mv[j] == (m@[j].0@, m@[j].1@),
                        i <= m.len(),
                        first_member(mv, key@) == first_member(
                            mv.subrange(i as int, mv.len() as int),
                            key@,
                        ),
                    decreases m.len() - i,
                {
                    let ghost rest = mv.subrange(i as int, mv.len() as int);
                    assert(rest.drop_first() =~= mv.subrange(i + 1, mv.len() as int));
                    assert(rest[0] == mv[i as int]);
                    if crate::text::str_eq(m[i].0.as_str(), key) {
                        return Some(&m[i].1);
                    }
                    i = i + 1;
                }
                None
            },
            _ => None,
        }
    }

    /// The text of this value when it is a JSON string.
    pub fn as_str(&self) -> (r: Option<&String>)
        ensures
            match r {
                Some(s) => self@ == Json::Str(s@),
                None => !(self@ is Str),
            },
    {
        match self {
            JsonValue::Str(s) => Some(s),
            _ => None,
        }
    }

    /// The elements of this value when it is a JSON array.
    pub fn as_array(&self) -> (r: Option<&Vec<JsonValue>>)
        ensures
            match r {
                Some(a) => *self == JsonValue::Array(*a),
                None => !(self@ is Array),
            },
    {
        match self {
            JsonValue::Array(a) => Some(a),
            _ => None,
        }
    }
}

/// The text of an optional value that is a JSON string.
pub fn opt_as_str(v: Option<&JsonValue>) -> (r: Option<&String>)
    ensures
        match r {
            Some(s) => match v {
                Some(x) => x@ == Json::Str(s@),
                None => false,
            },
            None => as_text(
                match v {
                    Some(x) => Some(x@),
                    None => None,
                },
            ).is_none(),
        },
{
    match v {
        Some(x) => x.as_str(),
        None => None,
    }
}

/// A copy of a JSON value.
pub fn json_clone(v: &JsonValue) -> (c: JsonValue)
    ensures
        c@ == v@,
    decreases v,
{
    match v {
        JsonValue::Null => JsonValue::Null,
        JsonValue::Bool(b) => JsonValue::Bool(*b),
        JsonValue::Number(n) => JsonValue::Number(n.clone()),
        JsonValue::Str(s) => JsonValue::Str(s.clone()),
        JsonValue::Array(a) => {
            let mut out: Vec<JsonValue> = Vec::new();
            let mut i: usize = 0;
            while i < a.len()
                invariant
                    *v == JsonValue::Array(*a),
                    i <= a.len(),
                    out.len() == i,
                    forall|j: int| 0 <= j < i ==> (#[trigger] out@[j])@ == a@[j]@,
                decreases a.len() - i,
            {
                assert(decreases_to!(*v => v->Array_0));
                assert(decreases_to!(v->Array_0 => a@));
                assert(decreases_to!(a@ => a@[i as int]));
                out.push(json_clone(&a[i]));
                i = i + 1;
            }
            let c = JsonValue::Array(out);
            assert(c@ == v@) by {
                if let Json::Array(x) = c@ {
                    if let Json::Array(y) = v@ {
                        assert(x =~= y);
                    }
                }
            }
            c
        },
        JsonValue::Object(m) => {
            let mut out: Vec<(String, JsonValue)> = Vec::new();
            let mut i: usize = 0;
            while i < m.len()
                invariant
                    *v == JsonValue::Object(*m),
                    i <= m.len(),
                    out.len() == i,
                    forall|j: int|
                        0 <= j < i ==> (#[trigger] out@[j]).0@ == m@[j].0@ && out@[j].1@
                            == m@[j].1@,
                decreases m.len() - i,
            {
                assert(decreases_to!(*v => v->Object_0));
                assert(decreases_to!(v->Object_0 => m@));
                assert(decreases_to!(m@ => m@[i as int]));
                assert(decreases_to!(m@[i as int] => m@[i as int].1));
                let k = m[i].0.clone();
                let x = json_clone(&m[i].1);
                out.push((k, x));
                i = i + 1;
            }
            let c = JsonValue::Object(out);
            assert(c@ == v@) by {
                if let Json::Object(x) = c@ {
                    if let Json::Object(y) = v@ {
                        assert(x =~= y);
                    }
                }
            }
            c
        },
    }
}

/// A JSON string value with the given text.
pub fn json_str(s: &str) -> (v: JsonValue)
    ensures
        v@ == Json::Str(s@),
{
    JsonValue::Str(crate::text::to_owned_string(s))
}


/// The first member with a key is the one a lookup finds.
pub proof fn lemma_first_member_at(m: Seq<(Seq<char>, Json)>, key: Seq<char>, k: int)
    requires
        0 <= k < m.len(),
        m[k].0 == key,
        forall|j: int| 0 <= j < k ==> #[trigger] m[j].0 != key,
    ensures
        first_member(m, key) == Some(m[k].1),
    decreases k,
{
    if k > 0 {
        assert(m[0].0 != key);
        assert forall|j: int| 0 <= j < k - 1 implies #[trigger] m.drop_first()[j].0 != key by {
            assert(m.drop_first()[j] == m[j + 1]);
        }
        lemma_first_member_at(m.drop_first(), key, k - 1);
    }
}

/// A lookup of a key that no member has finds nothing.
pub proof fn lemma_first_member_absent(m: Seq<(Seq<char>, Json)>, key: Seq<char>)
    requires
        forall|j: int| 0 <= j < m.len() ==> #[trigger] m[j].0 != key,
    ensures
        first_member(m, key) is None,
    decreases m.len(),
{
    if m.len() > 0 {
        assert(m[0].0 != key);
        assert forall|j: int| 0 <= j < m.len() - 1 implies #[trigger] m.drop_first()[j].0 != key by {
            assert(m.drop_first()[j] == m[j + 1]);
        }
        lemma_first_member_absent(m.drop_first(), key);
    }
}

} // verus!
