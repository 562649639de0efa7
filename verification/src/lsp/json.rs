//! A JSON value as the editor reads it from language-server messages.
//!
//! Numbers keep what the parser found: a non-negative integer, a negative
//! integer, or any other number as its text.
use vstd::prelude::*;

use crate::buffer::text_eq;

verus! {

#[derive(Debug)]
pub enum JsonValue {
    Null,
    Bool(bool),
    /// A non-negative integer.
    PosInt(u64),
    /// A negative integer.
    NegInt(i64),
    /// Any other number, as written.
    Float(String),
    String(String),
    Array(Vec<JsonValue>),
    /// Members in order; keys are unique.
    Object(Vec<(String, JsonValue)>),
}

/// The mathematical value of a JSON value.
pub enum JsonView {
    Null,
    Bool(bool),
    PosInt(u64),
    NegInt(i64),
    Float(Seq<char>),
    Str(Seq<char>),
    Array(Seq<JsonView>),
    Object(Seq<(Seq<char>, JsonView)>),
}

pub open spec fn json_view(v: JsonValue) -> JsonView
    decreases v, 0nat,
{
    match v {
        JsonValue::Null => JsonView::Null,
        JsonValue::Bool(b) => JsonView::Bool(b),
        JsonValue::PosInt(n) => JsonView::PosInt(n),
        JsonValue::NegInt(n) => JsonView::NegInt(n),
        JsonValue::Float(s) => JsonView::Float(s@),
        JsonValue::String(s) => JsonView::Str(s@),
        JsonValue::Array(a) => JsonView::Array(elems_view(a@, a@.len())),
        JsonValue::Object(m) => JsonView::Object(members_view(m@, m@.len())),
    }
}

/// The views of the first `n` elements.
pub open spec fn elems_view(s: Seq<JsonValue>, n: nat) -> Seq<JsonView>
    decreases s, n,
{
    if n == 0 || n > s.len() {
        Seq::empty()
    } else {
        elems_view(s, (n - 1) as nat).push(json_view(s[n - 1]))
    }
}

/// The views of the first `n` members.
pub open spec fn members_view(s: Seq<(String, JsonValue)>, n: nat) -> Seq<(Seq<char>, JsonView)>
    decreases s, n,
{
    if n == 0 || n > s.len() {
        Seq::empty()
    } else {
        members_view(s, (n - 1) as nat).push((s[n - 1].0@, json_view(s[n - 1].1)))
    }
}

impl View for JsonValue {
    type V = JsonView;

    open spec fn view(&self) -> JsonView {
        json_view(*self)
    }
}

pub proof fn lemma_elems_view(s: Seq<JsonValue>, n: nat)
    requires
        n <= s.len(),
    ensures
        elems_view(s, n).len() == n,
        forall|i: int| 0 <= i < n ==> #[trigger] elems_view(s, n)[i] == json_view(s[i]),
    decreases n,
{
    if n > 0 {
        lemma_elems_view(s, (n - 1) as nat);
    }
}

pub proof fn lemma_members_view(s: Seq<(String, JsonValue)>, n: nat)
    requires
        n <= s.len(),
    ensures
        members_view(s, n).len() == n,
        forall|i: int|
            0 <= i < n ==> #[trigger] members_view(s, n)[i] == (s[i].0@, json_view(s[i].1)),
    decreases n,
{
    if n > 0 {
        lemma_members_view(s, (n - 1) as nat);
    }
}

/// The value of the first member named `key`, from member `i` on.
pub open spec fn member_from(m: Seq<(Seq<char>, JsonView)>, key: Seq<char>, i: int) -> Option<JsonView>
    decreases m.len() - i,
{
    if i < 0 || i >= m.len() {
        None
    } else if m[i].0 == key {
        Some(m[i].1)
    } else {
        member_from(m, key, i + 1)
    }
}

/// `v.get(key)`: the member named `key` of an object; `None` for a missing
/// member or a value that is not an object.
pub open spec fn json_get(v: JsonView, key: Seq<char>) -> Option<JsonView> {
    match v {
        JsonView::Object(m) => member_from(m, key, 0),
        _ => None,
    }
}

/// `v.get(key)` on an optional value.
pub open spec fn json_get_opt(v: Option<JsonView>, key: Seq<char>) -> Option<JsonView> {
    match v {
        Some(x) => json_get(x, key),
        None => None,
    }
}

/// `v.as_u64()`: a non-negative integer.
pub open spec fn json_as_u64(v: Option<JsonView>) -> Option<u64> {
    match v {
        Some(JsonView::PosInt(n)) => Some(n),
        _ => None,
    }
}

/// `v.as_i64()`: an integer that fits `i64`.
pub open spec fn json_as_i64(v: Option<JsonView>) -> Option<i64> {
    match v {
        Some(JsonView::PosInt(n)) => if n <= i64::MAX {
            Some(n as i64)
        } else {
            None
        },
        Some(JsonView::NegInt(n)) => Some(n),
        _ => None,
    }
}

/// `v.as_str()`: the text of a string.
pub open spec fn json_as_str(v: Option<JsonView>) -> Option<Seq<char>> {
    match v {
        Some(JsonView::Str(s)) => Some(s),
        _ => None,
    }
}

/// `v.as_array()`: the elements of an array.
pub open spec fn json_as_array(v: Option<JsonView>) -> Option<Seq<JsonView>> {
    match v {
        Some(JsonView::Array(a)) => Some(a),
        _ => None,
    }
}

impl JsonValue {
    /// The member named `key` of an object.
    pub fn get(&self, key: &str) -> (r: Option<&JsonValue>)
        ensures
            match r {
                Some(x) => json_get(self@, key@) == Some(x@),
                None => json_get(self@, key@) is None,
            },
    {
        match self {
            JsonValue::Object(m) => {
                let ghost mv = members_view(m@, m@.len());
                proof {
                    lemma_members_view(m@, m@.len());
                }
                let mut i = 0usize;
                while i < m.len()
                    invariant
                        i <= m@.len(),
                        mv == members_view(m@, m@.len()),
                        mv.len() == m@.len(),
                        self@ == JsonView::Object(mv),
                        member_from(mv, key@, 0) == member_from(mv, key@, i as int),
                        forall|k: int| 0 <= k < m@.len() ==> #[trigger] mv[k] == (m@[k].0@, json_view(m@[k].1)),
                    decreases m@.len() - i,
                {
                    if text_eq(m[i].0.as_str(), key) {
                        return Some(&m[i].1);
                    }
                    i += 1;
                }
                None
            },
            _ => None,
        }
    }

    /// The elements of an array.
    pub fn as_array(&self) -> (r: Option<&Vec<JsonValue>>)
        ensures
            match r {
                Some(a) => self@ == JsonView::Array(elems_view(a@, a@.len())),
                None => !(self@ is Array),
            },
    {
        match self {
            JsonValue::Array(a) => Some(a),
            _ => None,
        }
    }

    /// The text of a string.
    pub fn as_str(&self) -> (r: Option<&str>)
        ensures
            match r {
                Some(s) => self@ == JsonView::Str(s@),
                None => !(self@ is Str),
            },
    {
        match self {
            JsonValue::String(s) => Some(s.as_str()),
            _ => None,
        }
    }

    /// A non-negative integer.
    pub fn as_u64(&self) -> (r: Option<u64>)
        ensures
            r == json_as_u64(Some(self@)),
    {
        match self {
            JsonValue::PosInt(n) => Some(*n),
            _ => None,
        }
    }

    /// An integer that fits `i64`.
    pub fn as_i64(&self) -> (r: Option<i64>)
        ensures
            r == json_as_i64(Some(self@)),
    {
        match self {
            JsonValue::PosInt(n) => if *n <= i64::MAX as u64 {
                Some(*n as i64)
            } else {
                None
            },
            JsonValue::NegInt(n) => Some(*n),
            _ => None,
        }
    }

    pub fn is_object(&self) -> (r: bool)
        ensures
            r == (self@ is Object),
    {
        match self {
            JsonValue::Object(_) => true,
            _ => false,
        }
    }
}

impl Clone for JsonValue {
    fn clone(&self) -> (r: Self)
        ensures
            r@ == self@,
        decreases self,
    {
        match self {
            JsonValue::Null => JsonValue::Null,
            JsonValue::Bool(b) => JsonValue::Bool(*b),
            JsonValue::PosInt(n) => JsonValue::PosInt(*n),
            JsonValue::NegInt(n) => JsonValue::NegInt(*n),
            JsonValue::Float(s) => JsonValue::Float(s.clone()),
            JsonValue::String(s) => JsonValue::String(s.clone()),
            JsonValue::Array(a) => {
                let mut out: Vec<JsonValue> = Vec::new();
                let mut i = 0usize;
                proof {
                    lemma_elems_view(a@, a@.len());
                }
                while i < a.len()
                    invariant
                        i <= a@.len(),
                        out@.len() == i,
                        forall|k: int| 0 <= k < i ==> #[trigger] json_view(out@[k]) == json_view(a@[k]),
                        *self == JsonValue::Array(*a),
                    decreases a@.len() - i,
                {
                    proof {
                        assert(decreases_to!(*self => self->Array_0));
                        assert(decreases_to!(*a => a@));
                        assert(decreases_to!(a@ => a@[i as int]));
                    }
                    let x = a[i].clone();
                    out.push(x);
                    i += 1;
                }
                proof {
                    lemma_elems_view(a@, a@.len());
                    lemma_elems_view(out@, out@.len());
                    assert(elems_view(out@, out@.len()) =~= elems_view(a@, a@.len()));
                }
                JsonValue::Array(out)
            },
            JsonValue::Object(m) => {
                let mut out: Vec<(String, JsonValue)> = Vec::new();
                let mut i = 0usize;
                while i < m.len()
                    invariant
                        i <= m@.len(),
                        out@.len() == i,
                        forall|k: int|
                            0 <= k < i ==> #[trigger] out@[k].0@ == m@[k].0@ && json_view(out@[k].1)
                                == json_view(m@[k].1),
                        *self == JsonValue::Object(*m),
                    decreases m@.len() - i,
                {
                    let k = m[i].0.clone();
                    proof {
                        assert(decreases_to!(*self => self->Object_0));
                        assert(decreases_to!(*m => m@));
                        assert(decreases_to!(m@ => m@[i as int]));
                        assert(decreases_to!(m@[i as int] => m@[i as int].1));
                    }
                    let x = m[i].1.clone();
                    out.push((k, x));
                    i += 1;
                }
                proof {
                    lemma_members_view(m@, m@.len());
                    lemma_members_view(out@, out@.len());
                    assert(members_view(out@, out@.len()) =~= members_view(m@, m@.len()));
                }
                JsonValue::Object(out)
            },
        }
    }
}

} // verus!
