//! JSON values as the library reads them.
//!
//! Objects keep their members in the order they are read in (for objects read
//! from JSON text: sorted by key, each key once).  A number carries the textual
//! renderings that the library's formatting rules choose between; they are
//! computed where the number is read in.
use vstd::prelude::*;
use crate::text::str_eq;

verus! {

/// A JSON number together with the ways the library prints it.
#[derive(Debug)]
pub struct JsonNumber {
    /// The number as JSON text; it reads back to the same number.
    pub raw: String,
    /// The number as a double, printed in the shortest form that reads back (`1.5`, `16`).
    pub display: String,
    /// The double cast to a 64-bit integer (towards zero, saturating), printed.
    pub trunc: String,
    /// The number printed as a 64-bit signed integer, when it is one.
    pub int_text: Option<String>,
    /// The double has no fractional part.
    pub is_whole: bool,
    /// The double is zero.
    pub is_zero: bool,
    /// The number's place in numeric order: a key whose unsigned order is the
    /// order of the doubles (the two zeros alike).
    pub order: u64,
}

impl JsonNumber {
    /// A copy of the number.
    pub fn copy(&self) -> (r: JsonNumber)
        ensures
            r == *self,
    {
        JsonNumber {
            raw: self.raw.clone(),
            display: self.display.clone(),
            trunc: self.trunc.clone(),
            int_text: match &self.int_text {
                Some(s) => Some(s.clone()),
                None => None,
            },
            is_whole: self.is_whole,
            is_zero: self.is_zero,
            order: self.order,
        }
    }
}

/// How a number reads inside a string: as a whole number when it has no
/// fractional part, else in its shortest form.
pub open spec fn number_inline(n: JsonNumber) -> Seq<char> {
    if n.is_whole { n.trunc@ } else { n.display@ }
}

/// Print a number the way it reads inside a string.
pub fn number_inline_text(n: &JsonNumber) -> (s: String)
    ensures
        s@ == number_inline(*n),
{
    if n.is_whole { n.trunc.clone() } else { n.display.clone() }
}

/// A JSON value.
#[derive(Debug)]
pub enum Json {
    Null,
    Bool(bool),
    Number(JsonNumber),
    String(String),
    Array(Vec<Json>),
    Object(Vec<(String, Json)>),
}

/// The mathematical value of a JSON value: strings as character sequences.
pub enum JsonV {
    Null,
    Bool(bool),
    Number(JsonNumber),
    String(Seq<char>),
    Array(Seq<JsonV>),
    Object(Seq<(Seq<char>, JsonV)>),
}

pub open spec fn json_view(j: Json) -> JsonV
    decreases j,
{
    match j {
        Json::Null => JsonV::Null,
        Json::Bool(b) => JsonV::Bool(b),
        Json::Number(n) => JsonV::Number(n),
        Json::String(s) => JsonV::String(s@),
        Json::Array(v) => {
            proof {
                broadcast use vstd::std_specs::vec::axiom_vec_decreases_to_view;
            }
            JsonV::Array(json_seq_view(v@))
        },
        Json::Object(v) => {
            proof {
                broadcast use vstd::std_specs::vec::axiom_vec_decreases_to_view;
            }
            JsonV::Object(json_obj_view(v@))
        },
    }
}

pub open spec fn json_seq_view(s: Seq<Json>) -> Seq<JsonV>
    decreases s,
{
    if s.len() == 0 {
        Seq::empty()
    } else {
        json_seq_view(s.subrange(0, s.len() - 1)).push(json_view(s[s.len() - 1]))
    }
}

pub open spec fn json_obj_view(s: Seq<(String, Json)>) -> Seq<(Seq<char>, JsonV)>
    decreases s,
{
    if s.len() == 0 {
        Seq::empty()
    } else {
        json_obj_view(s.subrange(0, s.len() - 1)).push((s[s.len() - 1].0@, json_view(s[s.len() - 1].1)))
    }
}

impl View for Json {
    type V = JsonV;

    open spec fn view(&self) -> JsonV {
        json_view(*self)
    }
}

pub proof fn lemma_json_seq_view_push(s: Seq<Json>, x: Json)
    ensures
        json_seq_view(s.push(x)) == json_seq_view(s).push(json_view(x)),
{
    assert(s.push(x).subrange(0, s.len() as int) =~= s);
}

pub proof fn lemma_json_obj_view_push(s: Seq<(String, Json)>, x: (String, Json))
    ensures
        json_obj_view(s.push(x)) == json_obj_view(s).push((x.0@, json_view(x.1))),
{
    assert(s.push(x).subrange(0, s.len() as int) =~= s);
}

pub proof fn lemma_json_seq_view_take(s: Seq<Json>, i: int)
    requires
        0 <= i < s.len(),
    ensures
        json_seq_view(s.take(i + 1)) == json_seq_view(s.take(i)).push(json_view(s[i])),
{
    assert(s.take(i + 1).subrange(0, i) =~= s.take(i));
}

pub proof fn lemma_json_obj_view_take(s: Seq<(String, Json)>, i: int)
    requires
        0 <= i < s.len(),
    ensures
        json_obj_view(s.take(i + 1)) == json_obj_view(s.take(i)).push((s[i].0@, json_view(s[i].1))),
{
    assert(s.take(i + 1).subrange(0, i) =~= s.take(i));
}

pub proof fn lemma_json_seq_view_len(s: Seq<Json>)
    ensures
        json_seq_view(s).len() == s.len(),
        forall|i: int| 0 <= i < s.len() ==> #[trigger] json_seq_view(s)[i] == json_view(s[i]),
    decreases s.len(),
{
    if s.len() > 0 {
        lemma_json_seq_view_len(s.subrange(0, s.len() - 1));
    }
}

pub proof fn lemma_json_obj_view_len(s: Seq<(String, Json)>)
    ensures
        json_obj_view(s).len() == s.len(),
        forall|i: int| 0 <= i < s.len() ==> #[trigger] json_obj_view(s)[i] == (s[i].0@, json_view(s[i].1)),
    decreases s.len(),
{
    if s.len() > 0 {
        lemma_json_obj_view_len(s.subrange(0, s.len() - 1));
    }
}

impl Json {
    /// A copy of the value.
    pub fn deep_clone(&self) -> (r: Json)
        ensures
            r@ == self@,
        decreases self,
    {
        match self {
            Json::Null => Json::Null,
            Json::Bool(b) => Json::Bool(*b),
            Json::Number(n) => Json::Number(n.copy()),
            Json::String(s) => Json::String(s.clone()),
            Json::Array(v) => Json::Array(clone_json_vec(v)),
            Json::Object(v) => Json::Object(clone_members(v)),
        }
    }
}

/// A copy of a sequence of JSON values.
pub fn clone_json_vec(v: &Vec<Json>) -> (w: Vec<Json>)
    ensures
        json_seq_view(w@) == json_seq_view(v@),
    decreases v,
{
    let mut w: Vec<Json> = Vec::new();
    let mut i: usize = 0;
    while i < v.len()
        invariant
            i <= v@.len(),
            json_seq_view(w@) == json_seq_view(v@.take(i as int)),
        decreases v@.len() - i,
    {
        proof {
            broadcast use vstd::std_specs::vec::axiom_vec_index_decreases;
            lemma_json_seq_view_take(v@, i as int);
            lemma_json_seq_view_push(w@, v@[i as int]);
        }
        let e = v[i].deep_clone();
        proof {
            lemma_json_seq_view_push(w@, e);
        }
        w.push(e);
        i = i + 1;
    }
    assert(v@.take(v@.len() as int) =~= v@);
    w
}

/// A copy of the members of an object.
pub fn clone_members(v: &Vec<(String, Json)>) -> (w: Vec<(String, Json)>)
    ensures
        json_obj_view(w@) == json_obj_view(v@),
    decreases v,
{
    let mut w: Vec<(String, Json)> = Vec::new();
    let mut i: usize = 0;
    while i < v.len()
        invariant
            i <= v@.len(),
            json_obj_view(w@) == json_obj_view(v@.take(i as int)),
        decreases v@.len() - i,
    {
        proof {
            broadcast use vstd::std_specs::vec::axiom_vec_index_decreases;
            lemma_json_obj_view_take(v@, i as int);
        }
        let e = v[i].1.deep_clone();
        let k = v[i].0.clone();
        proof {
            lemma_json_obj_view_push(w@, (k, e));
        }
        w.push((k, e));
        i = i + 1;
    }
    assert(v@.take(v@.len() as int) =~= v@);
    w
}

/// The value of the first member named `key`.
pub open spec fn member(m: Seq<(Seq<char>, JsonV)>, key: Seq<char>) -> Option<JsonV>
    decreases m.len(),
{
    if m.len() == 0 {
        None
    } else if m[0].0 == key {
        Some(m[0].1)
    } else {
        member(m.drop_first(), key)
    }
}

/// The position of the first member named `key`.
pub open spec fn member_pos(m: Seq<(Seq<char>, JsonV)>, key: Seq<char>) -> Option<int>
    decreases m.len(),
{
    if m.len() == 0 {
        None
    } else if m[0].0 == key {
        Some(0)
    } else {
        match member_pos(m.drop_first(), key) {
            Some(p) => Some(p + 1),
            None => None,
        }
    }
}

proof fn lemma_member_scan(m: Seq<(Seq<char>, JsonV)>, key: Seq<char>, i: int)
    requires
        0 <= i <= m.len(),
        forall|j: int| 0 <= j < i ==> (#[trigger] m[j]).0 != key,
    ensures
        member(m, key) == member(m.skip(i), key),
        member_pos(m, key) == (match member_pos(m.skip(i), key) {
            Some(p) => Some(p + i),
            None => None,
        }),
    decreases i,
{
    if i > 0 {
        assert(m[0].0 != key);
        assert(m.drop_first().skip(i - 1) =~= m.skip(i));
        assert forall|j: int| 0 <= j < i - 1 implies (#[trigger] m.drop_first()[j]).0 != key by {
            assert(m.drop_first()[j] == m[j + 1]);
        }
        lemma_member_scan(m.drop_first(), key, i - 1);
    } else {
        assert(m.skip(0) =~= m);
    }
}

/// The value of the first member of an object named `key`, if any.
pub fn get_member<'a>(members: &'a Vec<(String, Json)>, key: &str) -> (r: Option<&'a Json>)
    ensures
        match r {
            Some(j) => member(json_obj_view(members@), key@) == Some(j@),
            None => member(json_obj_view(members@), key@) is None,
        },
{
    let ghost m = json_obj_view(members@);
    proof {
        lemma_json_obj_view_len(members@);
    }
    let mut i: usize = 0;
    while i < members.len()
        invariant
            i <= members@.len(),
            m == json_obj_view(members@),
            m.len() == members@.len(),
            forall|k: int| 0 <= k < members@.len() ==> #[trigger] m[k] == (members@[k].0@, json_view(members@[k].1)),
            forall|j: int| 0 <= j < i ==> (#[trigger] m[j]).0 != key@,
        decreases members@.len() - i,
    {
        if str_eq(members[i].0.as_str(), key) {
            proof {
                lemma_member_scan(m, key@, i as int);
                assert(m.skip(i as int)[0] == m[i as int]);
            }
            return Some(&members[i].1);
        }
        i = i + 1;
    }
    proof {
        lemma_member_scan(m, key@, i as int);
    }
    None
}

/// The string inside a JSON string value.
pub open spec fn as_str_spec(j: JsonV) -> Option<Seq<char>> {
    match j {
        JsonV::String(s) => Some(s),
        _ => None,
    }
}

/// The string member `key` of an object, if it is there and is a string.
pub open spec fn str_member(m: Seq<(Seq<char>, JsonV)>, key: Seq<char>) -> Option<Seq<char>> {
    match member(m, key) {
        Some(JsonV::String(s)) => Some(s),
        _ => None,
    }
}

/// The string member `key` of an object.
pub fn get_str_member<'a>(members: &'a Vec<(String, Json)>, key: &str) -> (r: Option<&'a str>)
    ensures
        match r {
            Some(s) => str_member(json_obj_view(members@), key@) == Some(s@),
            None => str_member(json_obj_view(members@), key@) is None,
        },
{
    match get_member(members, key) {
        Some(Json::String(s)) => Some(s.as_str()),
        _ => None,
    }
}


#[verifier::external_type_specification]
#[verifier::external_body]
pub struct ExJsonValue(serde_json::Value);

/// The compact JSON text of a value, as `serde_json::to_string` writes it.
pub uninterp spec fn json_text(j: JsonV) -> Seq<char>;

/// The `serde_json::Value` for a value of the library's model: the same tree,
/// each number read back from its JSON text.  A conversion only; nothing is
/// claimed of the result.
#[verifier::external_body]
fn to_serde_value(j: &Json) -> serde_json::Value {
    match j {
        Json::Null => serde_json::Value::Null,
        Json::Bool(b) => serde_json::Value::Bool(*b),
        Json::Number(n) => match n.raw.parse::<serde_json::Number>() {
            Ok(x) => serde_json::Value::Number(x),
            Err(_) => serde_json::Value::Null,
        },
        Json::String(s) => serde_json::Value::String(s.clone()),
        Json::Array(v) => serde_json::Value::Array(v.iter().map(to_serde_value).collect()),
        Json::Object(m) => serde_json::Value::Object(m.iter().map(|(k, x)| (k.clone(), to_serde_value(x))).collect()),
    }
}

/// `serde_json::to_string` of a value (it cannot fail on a `Value`: every key
/// is a string).  The contract names the text `json_text` of the value.
#[verifier::external_body]
pub(crate) fn json_to_string(j: &Json) -> (s: String)
    ensures
        s@ == json_text(j@),
{
    serde_json::to_string(&to_serde_value(j)).unwrap_or_default()
}


/// The pretty-printed JSON text of a value, as `serde_json::to_string_pretty` writes it.
pub uninterp spec fn json_pretty_text(j: JsonV) -> Seq<char>;

/// `serde_json::to_string_pretty` of a value (it cannot fail on a `Value`).
/// The contract names the text `json_pretty_text` of the value.
#[verifier::external_body]
pub(crate) fn json_to_string_pretty(j: &Json) -> (s: String)
    ensures
        s@ == json_pretty_text(j@),
{
    serde_json::to_string_pretty(&to_serde_value(j)).unwrap_or_default()
}


/// A JSON value as pretty-printed JSON text (two-space indents), as written to the
/// site's token and theme files.
pub fn pretty_json_text(j: &Json) -> (s: String)
    ensures
        s@ == json_pretty_text(j@),
{
    json_to_string_pretty(j)
}

} // verus!
