use vstd::prelude::*;
use serde_json::{Deserializer, Number, Value};

verus! {

/// A JSON number as the JSON library holds it: a non-negative integer, a
/// negative integer, or a floating-point number kept by its textual rendering.
#[derive(Debug, PartialEq)]
pub enum JsonNumber {
    PosInt(u64),
    NegInt(i64),
    Float(String),
}

/// A JSON document tree.  Objects keep their members in order.
#[derive(Debug, PartialEq)]
pub enum JsonValue {
    Null,
    Bool(bool),
    Number(JsonNumber),
    Str(String),
    Array(Vec<JsonValue>),
    Object(Vec<(String, JsonValue)>),
}

/// The mathematical model of a JSON number.
pub ghost enum NumberView {
    PosInt(u64),
    NegInt(i64),
    Float(Seq<char>),
}

/// The mathematical model of a JSON document tree.
pub ghost enum JsonView {
    Null,
    Bool(bool),
    Number(NumberView),
    Str(Seq<char>),
    Array(Seq<JsonView>),
    Object(Seq<(Seq<char>, JsonView)>),
}

impl JsonNumber {
    pub open spec fn view(&self) -> NumberView {
        match self {
            JsonNumber::PosInt(u) => NumberView::PosInt(*u),
            JsonNumber::NegInt(i) => NumberView::NegInt(*i),
            JsonNumber::Float(s) => NumberView::Float(s@),
        }
    }
}

impl JsonValue {
    pub open spec fn view(&self) -> JsonView
        decreases self,
    {
        match self {
            JsonValue::Null => JsonView::Null,
            JsonValue::Bool(b) => JsonView::Bool(*b),
            JsonValue::Number(n) => JsonView::Number(n.view()),
            JsonValue::Str(s) => JsonView::Str(s@),
            JsonValue::Array(items) => JsonView::Array(
                Seq::new(
                    items@.len(),
                    |i: int|
                        if 0 <= i < items@.len() {
                            items@[i].view()
                        } else {
                            JsonView::Null
                        },
                ),
            ),
            JsonValue::Object(members) => JsonView::Object(
                Seq::new(
                    members@.len(),
                    |i: int|
                        if 0 <= i < members@.len() {
                            (members@[i].0@, members@[i].1.view())
                        } else {
                            (Seq::empty(), JsonView::Null)
                        },
                ),
            ),
        }
    }
}

/// The value of the last member named `key` in a member list
/// (an object built from a list keeps the last of repeated keys).
pub open spec fn lookup(m: Seq<(Seq<char>, JsonView)>, key: Seq<char>) -> Option<JsonView>
    decreases m.len(),
{
    if m.len() == 0 {
        None
    } else if m.last().0 == key {
        Some(m.last().1)
    } else {
        lookup(m.drop_last(), key)
    }
}

impl JsonView {
    /// The member named `key` of an object; `None` for other values.
    pub open spec fn get(self, key: Seq<char>) -> Option<JsonView> {
        match self {
            JsonView::Object(m) => lookup(m, key),
            _ => None,
        }
    }

    /// The elements of an array.
    pub open spec fn array(self) -> Option<Seq<JsonView>> {
        match self {
            JsonView::Array(items) => Some(items),
            _ => None,
        }
    }

    /// The text of a string value.
    pub open spec fn str(self) -> Option<Seq<char>> {
        match self {
            JsonView::Str(s) => Some(s),
            _ => None,
        }
    }

    /// The member `key` when it is a string.
    pub open spec fn get_str(self, key: Seq<char>) -> Option<Seq<char>> {
        match self.get(key) {
            Some(JsonView::Str(s)) => Some(s),
            _ => None,
        }
    }

    /// The member `key` when it is an array.
    pub open spec fn get_array(self, key: Seq<char>) -> Option<Seq<JsonView>> {
        match self.get(key) {
            Some(JsonView::Array(items)) => Some(items),
            _ => None,
        }
    }
}

/// The members of an object as views.
pub open spec fn members_view(m: Seq<(String, JsonValue)>) -> Seq<(Seq<char>, JsonView)> {
    Seq::new(m.len(), |i: int| (m[i].0@, m[i].1@))
}

/// The elements of an array as views.
pub open spec fn items_view(v: Seq<JsonValue>) -> Seq<JsonView> {
    Seq::new(v.len(), |i: int| v[i]@)
}

impl JsonValue {
    pub proof fn lemma_object_view(&self)
        ensures
            self matches JsonValue::Object(m) ==> self@ == JsonView::Object(members_view(m@)),
            self matches JsonValue::Array(v) ==> self@ == JsonView::Array(items_view(v@)),
    {
        match self {
            JsonValue::Object(m) => {
                let s = self@->Object_0;
                assert(s =~= members_view(m@));
            },
            JsonValue::Array(v) => {
                let s = self@->Array_0;
                assert(s =~= items_view(v@));
            },
            _ => {},
        }
    }

    /// The member named `key` of an object value.
    pub fn get(&self, key: &str) -> (r: Option<&JsonValue>)
        ensures
            match r {
                Some(v) => self@.get(key@) == Some(v@),
                None => self@.get(key@) is None,
            },
    {
        proof {
            self.lemma_object_view();
        }
        match self {
            JsonValue::Object(members) => {
                let ghost mv = members_view(members@);
                let mut found: Option<&JsonValue> = None;
                let mut i: usize = 0;
                while i < members.len()
                    invariant
                        0 <= i <= members@.len(),
                        mv == members_view(members@),
                        match found {
                            Some(v) => lookup(mv.take(i as int), key@) == Some(v@),
                            None => lookup(mv.take(i as int), key@) is None,
                        },
                    decreases members@.len() - i,
                {
                    assert(mv.take(i + 1).drop_last() =~= mv.take(i as int));
                    if crate::chars::str_eq(members[i].0.as_str(), key) {
                        found = Some(&members[i].1);
                    }
                    i = i + 1;
                }
                assert(mv.take(members@.len() as int) =~= mv);
                found
            },
            _ => None,
        }
    }

    /// The text of a string value.
    pub fn as_str(&self) -> (r: Option<&String>)
        ensures
            match r {
                Some(s) => self@.str() == Some(s@),
                None => self@.str() is None,
            },
    {
        match self {
            JsonValue::Str(s) => Some(s),
            _ => None,
        }
    }

    /// The elements of an array value.
    pub fn as_array(&self) -> (r: Option<&Vec<JsonValue>>)
        ensures
            match r {
                Some(v) => self@.array() == Some(items_view(v@)),
                None => self@.array() is None,
            },
    {
        proof {
            self.lemma_object_view();
        }
        match self {
            JsonValue::Array(v) => Some(v),
            _ => None,
        }
    }

    /// The member `key` when it is a string.
    pub fn get_str(&self, key: &str) -> (r: Option<&String>)
        ensures
            match r {
                Some(s) => self@.get_str(key@) == Some(s@),
                None => self@.get_str(key@) is None,
            },
    {
        match self.get(key) {
            Some(v) => v.as_str(),
            None => None,
        }
    }

    /// The member `key` when it is an array.
    pub fn get_array(&self, key: &str) -> (r: Option<&Vec<JsonValue>>)
        ensures
            match r {
                Some(v) => self@.get_array(key@) == Some(items_view(v@)),
                None => self@.get_array(key@) is None,
            },
    {
        match self.get(key) {
            Some(v) => v.as_array(),
            None => None,
        }
    }

    /// A copy of this value.
    pub fn duplicate(&self) -> (r: JsonValue)
        ensures
            r@ == self@,
        decreases self,
    {
        proof {
            self.lemma_object_view();
        }
        match self {
            JsonValue::Null => JsonValue::Null,
            JsonValue::Bool(b) => JsonValue::Bool(*b),
            JsonValue::Number(n) => JsonValue::Number(n.duplicate()),
            JsonValue::Str(s) => JsonValue::Str(s.clone()),
            JsonValue::Array(items) => {
                let mut out: Vec<JsonValue> = Vec::new();
                let mut i: usize = 0;
                while i < items.len()
                    invariant
                        *self is Array,
                        self->Array_0 == *items,
                        0 <= i <= items@.len(),
                        out@.len() == i,
                        forall|j: int| 0 <= j < i ==> #[trigger] out@[j]@ == items@[j]@,
                    decreases items@.len() - i,
                {
                    proof {
                        assert(decreases_to!(*self => self->Array_0));
                        assert(decreases_to!(*items => items@));
                        assert(decreases_to!(items@ => items@[i as int]));
                    }
                    out.push(items[i].duplicate());
                    i = i + 1;
                }
                let r = JsonValue::Array(out);
                proof {
                    r.lemma_object_view();
                    assert(items_view(out@) =~= items_view(items@));
                }
                r
            },
            JsonValue::Object(members) => {
                let mut out: Vec<(String, JsonValue)> = Vec::new();
                let mut i: usize = 0;
                while i < members.len()
                    invariant
                        *self is Object,
                        self->Object_0 == *members,
                        0 <= i <= members@.len(),
                        out@.len() == i,
                        forall|j: int|
                            0 <= j < i ==> #[trigger] out@[j].0@ == members@[j].0@ && out@[j].1@
                                == members@[j].1@,
                    decreases members@.len() - i,
                {
                    proof {
                        let e = members@[i as int];
                        assert(decreases_to!(*self => self->Object_0));
                        assert(decreases_to!(*members => members@));
                        assert(decreases_to!(members@ => e));
                        assert(decreases_to!(e => e.1));
                    }
                    out.push((members[i].0.clone(), members[i].1.duplicate()));
                    i = i + 1;
                }
                let r = JsonValue::Object(out);
                proof {
                    r.lemma_object_view();
                    assert(members_view(out@) =~= members_view(members@));
                }
                r
            },
        }
    }

    /// A string value holding a copy of `s`.
    pub fn from_str(s: &str) -> (r: JsonValue)
        ensures
            r@ == JsonView::Str(s@),
    {
        JsonValue::Str(crate::chars::owned(s))
    }
}

impl JsonNumber {
    /// A copy of this number.
    pub fn duplicate(&self) -> (r: JsonNumber)
        ensures
            r.view() == self.view(),
    {
        match self {
            JsonNumber::PosInt(u) => JsonNumber::PosInt(*u),
            JsonNumber::NegInt(i) => JsonNumber::NegInt(*i),
            JsonNumber::Float(s) => JsonNumber::Float(s.clone()),
        }
    }
}

// ---------------------------------------------------------------------------
// Reading and writing JSON text through the JSON library
// ---------------------------------------------------------------------------

#[verifier::external_type_specification]
#[verifier::external_body]
pub struct ExLibraryJsonValue(Value);

/// Converts a value of the JSON library into the tree of this crate, one
/// node for one node: numbers that fit `u64` or `i64` stay integers, others
/// keep the library's rendering; object members keep the library's order.
#[verifier::external_body]
fn from_library_value(v: &Value) -> JsonValue {
    match v {
        Value::Null => JsonValue::Null,
        Value::Bool(b) => JsonValue::Bool(*b),
        Value::Number(n) => JsonValue::Number(match (n.as_u64(), n.as_i64()) {
            (Some(u), _) => JsonNumber::PosInt(u),
            (None, Some(i)) => JsonNumber::NegInt(i),
            (None, None) => JsonNumber::Float(n.to_string()),
        }),
        Value::String(s) => JsonValue::Str(s.clone()),
        Value::Array(a) => JsonValue::Array(a.iter().map(from_library_value).collect()),
        Value::Object(m) => JsonValue::Object(m.iter().map(|(k, x)| (k.clone(), from_library_value(x))).collect()),
    }
}

/// Converts a tree of this crate into a value of the JSON library, one node
/// for one node (a floating-point number is read back from its rendering).
#[verifier::external_body]
fn to_library_value(v: &JsonValue) -> Value {
    match v {
        JsonValue::Null => Value::Null,
        JsonValue::Bool(b) => Value::Bool(*b),
        JsonValue::Number(JsonNumber::PosInt(u)) => Value::from(*u),
        JsonValue::Number(JsonNumber::NegInt(i)) => Value::from(*i),
        JsonValue::Number(JsonNumber::Float(t)) => t.parse::<Number>().map(Value::Number).unwrap_or(Value::Null),
        JsonValue::Str(s) => Value::String(s.clone()),
        JsonValue::Array(a) => Value::Array(a.iter().map(to_library_value).collect()),
        JsonValue::Object(m) => Value::Object(m.iter().map(|(k, x)| (k.clone(), to_library_value(x))).collect()),
    }
}

// What `serde_json::from_str::<Value>` gives for a text: the document, or the error's message.
pub uninterp spec fn spec_parse_json(text: Seq<char>) -> Result<JsonView, Seq<char>>;

// What `serde_json::from_slice::<Value>` gives for a byte string.
pub uninterp spec fn spec_parse_json_bytes(bytes: Seq<u8>) -> Result<JsonView, Seq<char>>;

// What `Display for serde_json::Value` (compact JSON text) gives for a document.
pub uninterp spec fn spec_render_json(value: JsonView) -> Seq<char>;

/// Wraps `serde_json::from_str::<serde_json::Value>`: the JSON document in
/// `text`, or the parser's error message.  The result is named by
/// `spec_parse_json`, a function of the text alone.
#[verifier::external_body]
pub(crate) fn parse_json(text: &str) -> (r: Result<JsonValue, String>)
    ensures
        match r {
            Ok(v) => spec_parse_json(text@) == Ok::<JsonView, Seq<char>>(v@),
            Err(e) => spec_parse_json(text@) == Err::<JsonView, Seq<char>>(e@),
        },
{
    match serde_json::from_str::<Value>(text) {
        Ok(v) => Ok(from_library_value(&v)),
        Err(e) => Err(e.to_string()),
    }
}

/// Wraps `serde_json::from_slice::<serde_json::Value>`: the JSON document in
/// `bytes`, or the parser's error message.  The result is named by
/// `spec_parse_json_bytes`, a function of the bytes alone.
#[verifier::external_body]
pub(crate) fn parse_json_bytes(bytes: &[u8]) -> (r: Result<JsonValue, String>)
    ensures
        match r {
            Ok(v) => spec_parse_json_bytes(bytes@) == Ok::<JsonView, Seq<char>>(v@),
            Err(e) => spec_parse_json_bytes(bytes@) == Err::<JsonView, Seq<char>>(e@),
        },
{
    match serde_json::from_slice::<Value>(bytes) {
        Ok(v) => Ok(from_library_value(&v)),
        Err(e) => Err(e.to_string()),
    }
}

/// Wraps `Display for serde_json::Value`: the compact JSON text of a
/// document (object members sorted by key, as the library's map keeps
/// them).  The result is named by `spec_render_json`, a function of the
/// document alone.
#[verifier::external_body]
pub(crate) fn render_json(value: &JsonValue) -> (r: String)
    ensures
        r@ == spec_render_json(value@),
{
    to_library_value(value).to_string()
}

/// What iterating `serde_json::StreamDeserializer::<_, Value>` over a byte
/// string from its start gives: the values read, in order; after each, the
/// iterator's `byte_offset`; and how it stopped: `None` when it ran out of
/// values, or the error that stopped it, whether that error `is_eof`, and
/// its message.
pub uninterp spec fn spec_json_stream_scan(bytes: Seq<u8>) -> (Seq<JsonView>, Seq<usize>, Option<(bool, Seq<char>)>);

/// Wraps `serde_json::Deserializer::from_slice(..).into_iter::<Value>()`
/// and its `next` and `byte_offset`, driven until the iterator stops: the
/// values read, the offset after each, and the error that stopped it.  The
/// result is named by `spec_json_stream_scan`; only that there is one
/// offset per value is stated besides.
#[verifier::external_body]
pub(crate) fn json_stream_scan(bytes: &[u8]) -> (r: (Vec<JsonValue>, Vec<usize>, Option<(bool, String)>))
    ensures
        (items_view(r.0@), r.1@, match r.2 {
            Some((eof, m)) => Some((eof, m@)),
            None => None,
        }) == spec_json_stream_scan(bytes@),
        r.0@.len() == r.1@.len(),
{
    let mut it = Deserializer::from_slice(bytes).into_iter::<Value>();
    let (mut values, mut offsets) = (Vec::new(), Vec::new());
    loop {
        match it.next() {
            Some(Ok(v)) => {
                values.push(from_library_value(&v));
                offsets.push(it.byte_offset());
            },
            Some(Err(e)) => return (values, offsets, Some((e.is_eof(), e.to_string()))),
            None => return (values, offsets, None),
        }
    }
}

} // verus!
