//! JSON values as the library reads them: tool arguments, model replies and
//! saved state arrive as JSON text, are parsed by `serde_json`, and are then
//! read through this plain tree.
use vstd::prelude::*;
use crate::text::{chars_eq, chars_of};

verus! {

broadcast use vstd::string::group_string_axioms;

/// A JSON value. Object members keep the order the parser gives them (sorted
/// by key, one member per key).
pub enum Json {
    Null,
    Bool(bool),
    /// A number: its value when it is a non-negative integer that fits a
    /// `u64`, and its text.
    Number(Option<u64>, String),
    Str(String),
    Array(Vec<Json>),
    Object(Vec<(String, Json)>),
}

/// The mathematical form of a JSON value.
pub enum JsonTree {
    Null,
    Bool(bool),
    Number(Option<u64>, Seq<char>),
    Str(Seq<char>),
    Array(Seq<JsonTree>),
    Object(Seq<(Seq<char>, JsonTree)>),
}

pub open spec fn tree_of(j: Json) -> JsonTree
    decreases j, 1nat,
{
    match j {
        Json::Null => JsonTree::Null,
        Json::Bool(b) => JsonTree::Bool(b),
        Json::Number(n, t) => JsonTree::Number(n, t@),
        Json::Str(s) => JsonTree::Str(s@),
        Json::Array(v) => JsonTree::Array(trees_of(v@)),
        Json::Object(m) => JsonTree::Object(members_of(m@)),
    }
}

pub open spec fn trees_of(s: Seq<Json>) -> Seq<JsonTree>
    decreases s, 0nat,
{
    if s.len() == 0 {
        Seq::empty()
    } else {
        seq![tree_of(s[0])] + trees_of(s.subrange(1, s.len() as int))
    }
}

pub open spec fn members_of(s: Seq<(String, Json)>) -> Seq<(Seq<char>, JsonTree)>
    decreases s, 0nat,
{
    if s.len() == 0 {
        Seq::empty()
    } else {
        seq![(s[0].0@, tree_of(s[0].1))] + members_of(s.subrange(1, s.len() as int))
    }
}

impl View for Json {
    type V = JsonTree;

    open spec fn view(&self) -> JsonTree {
        tree_of(*self)
    }
}

pub proof fn lemma_trees_of(s: Seq<Json>)
    ensures
        trees_of(s).len() == s.len(),
        forall|i: int| 0 <= i < s.len() ==> #[trigger] trees_of(s)[i] == tree_of(s[i]),
    decreases s.len(),
{
    if s.len() > 0 {
        let rest = s.subrange(1, s.len() as int);
        lemma_trees_of(rest);
        assert forall|i: int| 0 <= i < s.len() implies #[trigger] trees_of(s)[i] == tree_of(s[i]) by {
            if i > 0 {
                assert(rest[i - 1] == s[i]);
            }
        }
    }
}

pub proof fn lemma_members_of(s: Seq<(String, Json)>)
    ensures
        members_of(s).len() == s.len(),
        forall|i: int| 0 <= i < s.len() ==> #[trigger] members_of(s)[i] == (s[i].0@, tree_of(s[i].1)),
    decreases s.len(),
{
    if s.len() > 0 {
        let rest = s.subrange(1, s.len() as int);
        lemma_members_of(rest);
        assert forall|i: int| 0 <= i < s.len() implies #[trigger] members_of(s)[i] == (s[i].0@, tree_of(s[i].1)) by {
            if i > 0 {
                assert(rest[i - 1] == s[i]);
            }
        }
    }
}

/// The value of the first member named `key`.
pub open spec fn member(ms: Seq<(Seq<char>, JsonTree)>, key: Seq<char>) -> Option<JsonTree>
    decreases ms.len(),
{
    if ms.len() == 0 {
        None
    } else if ms[0].0 == key {
        Some(ms[0].1)
    } else {
        member(ms.drop_first(), key)
    }
}

/// `Value::get` with a string key: a member of an object, none otherwise.
pub open spec fn get(t: JsonTree, key: Seq<char>) -> Option<JsonTree> {
    match t {
        JsonTree::Object(ms) => member(ms, key),
        _ => None,
    }
}

pub open spec fn as_str(t: JsonTree) -> Option<Seq<char>> {
    match t {
        JsonTree::Str(s) => Some(s),
        _ => None,
    }
}

pub open spec fn as_bool(t: JsonTree) -> Option<bool> {
    match t {
        JsonTree::Bool(b) => Some(b),
        _ => None,
    }
}

pub open spec fn as_u64(t: JsonTree) -> Option<u64> {
    match t {
        JsonTree::Number(n, _) => n,
        _ => None,
    }
}

pub open spec fn as_array(t: JsonTree) -> Option<Seq<JsonTree>> {
    match t {
        JsonTree::Array(a) => Some(a),
        _ => None,
    }
}

/// The string member `key`, if it is one.
pub open spec fn str_member(t: JsonTree, key: Seq<char>) -> Option<Seq<char>> {
    match get(t, key) {
        Some(v) => as_str(v),
        None => None,
    }
}

/// The boolean member `key`, if it is one.
pub open spec fn bool_member(t: JsonTree, key: Seq<char>) -> Option<bool> {
    match get(t, key) {
        Some(v) => as_bool(v),
        None => None,
    }
}

/// A member list of one `(key, value)` pair.
pub fn members1(k1: &str, v1: Json) -> (r: Vec<(String, Json)>)
    ensures
        members_of(r@) == seq![(k1@, v1@)],
{
    let r = vec![(String::from_str(k1), v1)];
    proof {
        lemma_members_of(r@);
        assert(members_of(r@) =~= seq![(k1@, v1@)]);
    }
    r
}

/// A member list of two pairs, in the order given.
pub fn members2(k1: &str, v1: Json, k2: &str, v2: Json) -> (r: Vec<(String, Json)>)
    ensures
        members_of(r@) == seq![(k1@, v1@), (k2@, v2@)],
{
    let r = vec![(String::from_str(k1), v1), (String::from_str(k2), v2)];
    proof {
        lemma_members_of(r@);
        assert(members_of(r@) =~= seq![(k1@, v1@), (k2@, v2@)]);
    }
    r
}

/// A member list of three pairs, in the order given.
pub fn members3(k1: &str, v1: Json, k2: &str, v2: Json, k3: &str, v3: Json) -> (r: Vec<(String, Json)>)
    ensures
        members_of(r@) == seq![(k1@, v1@), (k2@, v2@), (k3@, v3@)],
{
    let r = vec![(String::from_str(k1), v1), (String::from_str(k2), v2), (String::from_str(k3), v3)];
    proof {
        lemma_members_of(r@);
        assert(members_of(r@) =~= seq![(k1@, v1@), (k2@, v2@), (k3@, v3@)]);
    }
    r
}

/// A member list of four pairs, in the order given.
pub fn members4(k1: &str, v1: Json, k2: &str, v2: Json, k3: &str, v3: Json, k4: &str, v4: Json) -> (r: Vec<(String, Json)>)
    ensures
        members_of(r@) == seq![(k1@, v1@), (k2@, v2@), (k3@, v3@), (k4@, v4@)],
{
    let r = vec![
        (String::from_str(k1), v1),
        (String::from_str(k2), v2),
        (String::from_str(k3), v3),
        (String::from_str(k4), v4),
    ];
    proof {
        lemma_members_of(r@);
        assert(members_of(r@) =~= seq![(k1@, v1@), (k2@, v2@), (k3@, v3@), (k4@, v4@)]);
    }
    r
}

/// A JSON string.
pub fn json_str(s: &str) -> (r: Json)
    ensures
        r@ == JsonTree::Str(s@),
{
    Json::Str(String::from_str(s))
}

impl Json {

    /// A copy of this value.
    pub fn copy(&self) -> (r: Json)
        ensures
            r@ == self@,
        decreases self,
    {
        match self {
            Json::Null => Json::Null,
            Json::Bool(b) => Json::Bool(*b),
            Json::Number(n, t) => Json::Number(*n, t.clone()),
            Json::Str(s) => Json::Str(s.clone()),
            Json::Array(v) => {
                let mut out: Vec<Json> = Vec::new();
                let mut i: usize = 0;
                while i < v.len()
                    invariant
                        i <= v@.len(),
                        out@.len() == i,
                        forall|k: int| 0 <= k < i ==> #[trigger] out@[k]@ == v@[k]@,
                        *self is Array,
                        self->Array_0 == *v,
                    decreases v@.len() - i,
                {
                    assert(decreases_to!(*self => self->Array_0));
                    assert(decreases_to!(self->Array_0 => self->Array_0@));
                    assert(decreases_to!(v@ => v@[i as int]));
                    let c = v[i].copy();
                    out.push(c);
                    i += 1;
                }
                proof {
                    lemma_trees_of(v@);
                    lemma_trees_of(out@);
                }
                assert forall|k: int| 0 <= k < v@.len() implies #[trigger] trees_of(out@)[k] == trees_of(v@)[k] by {
                    assert(out@[k]@ == v@[k]@);
                }
                assert(trees_of(out@) =~= trees_of(v@));
                Json::Array(out)
            },
            Json::Object(m) => {
                let mut out: Vec<(String, Json)> = Vec::new();
                let mut i: usize = 0;
                while i < m.len()
                    invariant
                        i <= m@.len(),
                        out@.len() == i,
                        forall|k: int| 0 <= k < i ==> (#[trigger] out@[k]).0@ == m@[k].0@ && out@[k].1@ == m@[k].1@,
                        *self is Object,
                        self->Object_0 == *m,
                    decreases m@.len() - i,
                {
                    assert(decreases_to!(*self => self->Object_0));
                    assert(decreases_to!(self->Object_0 => self->Object_0@));
                    assert(decreases_to!(m@ => m@[i as int]));
                    assert(decreases_to!(m@[i as int] => m@[i as int].1));
                    let c = m[i].1.copy();
                    out.push((m[i].0.clone(), c));
                    i += 1;
                }
                proof {
                    lemma_members_of(m@);
                    lemma_members_of(out@);
                }
                assert forall|k: int| 0 <= k < m@.len() implies #[trigger] members_of(out@)[k] == members_of(m@)[k] by {
                    let o = out@[k];
                    assert(o.0@ == m@[k].0@);
                    assert(o.1@ == m@[k].1@);
                }
                assert(members_of(out@) =~= members_of(m@));
                Json::Object(out)
            },
        }
    }
    /// The member `key` of an object.
    pub fn get(&self, key: &str) -> (r: Option<&Json>)
        ensures
            match r {
                Some(v) => get(self@, key@) == Some(v@),
                None => get(self@, key@) is None,
            },
    {
        match self {
            Json::Object(ms) => {
                proof {
                    lemma_members_of(ms@);
                }
                let k = chars_of(key);
                let ghost tm = members_of(ms@);
                let mut i: usize = 0;
                assert(tm.skip(0) =~= tm);
                assert(self@ == JsonTree::Object(tm));
                while i < ms.len()
                    invariant
                        i <= ms@.len(),
                        tm == members_of(ms@),
                        tm.len() == ms@.len(),
                        forall|j: int| 0 <= j < ms@.len() ==> #[trigger] tm[j] == (ms@[j].0@, tree_of(ms@[j].1)),
                        k@ == key@,
                        self@ == JsonTree::Object(tm),
                        member(tm, key@) == member(tm.skip(i as int), key@),
                    decreases ms@.len() - i,
                {
                    assert(tm.skip(i as int)[0] == tm[i as int]);
                    assert(tm.skip(i as int).drop_first() =~= tm.skip(i + 1));
                    let name = chars_of(ms[i].0.as_str());
                    if chars_eq(name.as_slice(), k.as_slice()) {
                        return Some(&ms[i].1);
                    }
                    i += 1;
                }
                None
            },
            _ => None,
        }
    }

    pub fn as_str(&self) -> (r: Option<&str>)
        ensures
            match r {
                Some(s) => as_str(self@) == Some(s@),
                None => as_str(self@) is None,
            },
    {
        match self {
            Json::Str(s) => Some(s.as_str()),
            _ => None,
        }
    }

    pub fn as_bool(&self) -> (r: Option<bool>)
        ensures
            r == as_bool(self@),
    {
        match self {
            Json::Bool(b) => Some(*b),
            _ => None,
        }
    }

    pub fn as_u64(&self) -> (r: Option<u64>)
        ensures
            r == as_u64(self@),
    {
        match self {
            Json::Number(n, _) => *n,
            _ => None,
        }
    }

    pub fn as_array(&self) -> (r: Option<&Vec<Json>>)
        ensures
            match r {
                Some(v) => as_array(self@) == Some(trees_of(v@)) && trees_of(v@).len() == v@.len()
                    && forall|i: int| 0 <= i < v@.len() ==> #[trigger] trees_of(v@)[i] == v@[i]@,
                None => as_array(self@) is None,
            },
    {
        match self {
            Json::Array(v) => {
                proof {
                    lemma_trees_of(v@);
                }
                Some(v)
            },
            _ => None,
        }
    }
}

/// The string member `key` of `args`.
pub fn get_str<'a>(args: &'a Json, key: &str) -> (r: Option<&'a str>)
    ensures
        match r {
            Some(s) => str_member(args@, key@) == Some(s@),
            None => str_member(args@, key@) is None,
        },
{
    match args.get(key) {
        Some(v) => v.as_str(),
        None => None,
    }
}

/// The boolean member `key` of `args`, or `default`.
pub fn bool_arg(args: &Json, key: &str, default: bool) -> (b: bool)
    ensures
        b == match bool_member(args@, key@) {
            Some(x) => x,
            None => default,
        },
{
    match args.get(key) {
        Some(v) => match v.as_bool() {
            Some(x) => x,
            None => default,
        },
        None => default,
    }
}

// ---------------------------------------------------------------------------
// Text
// ---------------------------------------------------------------------------

/// What `serde_json::from_str::<Value>` gives for `text`, read as a tree,
/// or the text of its error when `text` is not one JSON value.
pub uninterp spec fn json_parse(text: Seq<char>) -> Result<JsonTree, Seq<char>>;

/// Parse JSON text (`serde_json::from_str::<serde_json::Value>`); the error
/// is the parser's message. The parse is a function of the text alone; the
/// contract names it rather than restating the JSON grammar.
#[verifier::external_body]
pub(crate) fn parse_json(text: &str) -> (r: Result<Json, String>)
    ensures
        match r {
            Ok(j) => json_parse(text@) == Ok::<JsonTree, Seq<char>>(j@),
            Err(e) => json_parse(text@) == Err::<JsonTree, Seq<char>>(e@),
        },
{
    match serde_json::from_str::<serde_json::Value>(text) {
        Ok(v) => Ok(json_of_value(&v)),
        Err(e) => Err(e.to_string()),
    }
}

/// The compact text `serde_json` writes for a value (`Display` of
/// `serde_json::Value`, object members in its key order).
pub uninterp spec fn json_compact(v: JsonTree) -> Seq<char>;

/// Write a value as compact JSON text (`serde_json::Value::to_string`).
#[verifier::external_body]
pub(crate) fn json_text(v: &Json) -> (s: String)
    ensures
        s@ == json_compact(v@),
{
    value_of_json(v).to_string()
}

/// The indented text `serde_json::to_string_pretty` writes for a value.
pub uninterp spec fn json_pretty(v: JsonTree) -> Seq<char>;

/// Write a value as indented JSON text (`serde_json::to_string_pretty`).
#[verifier::external_body]
pub(crate) fn json_pretty_text(v: &Json) -> (s: String)
    ensures
        s@ == json_pretty(v@),
{
    serde_json::to_string_pretty(&value_of_json(v)).unwrap_or_default()
}

/// `serde_json::Value`, carried opaquely into the conversion below.
#[verifier::external_type_specification]
#[verifier::external_body]
pub struct ExJsonValue(serde_json::Value);

/// Read a `serde_json::Value` as a [`Json`], variant for variant.
#[verifier::external_body]
fn json_of_value(v: &serde_json::Value) -> Json {
    match v {
        serde_json::Value::Null => Json::Null,
        serde_json::Value::Bool(b) => Json::Bool(*b),
        serde_json::Value::Number(n) => Json::Number(n.as_u64(), n.to_string()),
        serde_json::Value::String(s) => Json::Str(s.clone()),
        serde_json::Value::Array(a) => Json::Array(a.iter().map(json_of_value).collect()),
        serde_json::Value::Object(m) => Json::Object(m.iter().map(|(k, x)| (k.clone(), json_of_value(x))).collect()),
    }
}

} // verus!

verus! {

/// Read a [`Json`] as a `serde_json::Value`, variant for variant (a number
/// by its text).
#[verifier::external_body]
fn value_of_json(j: &Json) -> serde_json::Value {
    match j {
        Json::Null => serde_json::Value::Null,
        Json::Bool(b) => serde_json::Value::Bool(*b),
        Json::Number(_, t) => serde_json::from_str::<serde_json::Value>(t).unwrap_or(serde_json::Value::Null),
        Json::Str(s) => serde_json::Value::String(s.clone()),
        Json::Array(a) => serde_json::Value::Array(a.iter().map(value_of_json).collect()),
        Json::Object(m) => serde_json::Value::Object(m.iter().map(|(k, x)| (k.clone(), value_of_json(x))).collect()),
    }
}

} // verus!
