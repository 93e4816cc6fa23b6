//! JSON values, and their texts as `serde_json` reads and writes them.
//!
//! The library works on [`Json`], whose meaning is [`JsonV`]. Only the two
//! directions between a text and a `serde_json::Value`, and the outermost layer of
//! such a value, are left to the outside crate.

use vstd::prelude::*;
use vstd::string::*;
use crate::text::{deep, same_text, Dup};

verus! {

/// A JSON value.
#[derive(Debug, PartialEq)]
pub enum Json {
    Null,
    Bool(bool),
    /// A whole number from 0 on.
    PosInt(u64),
    /// A whole number below 0.
    NegInt(i64),
    /// Any other number, by its text.
    Float(String),
    Str(String),
    Array(Vec<Json>),
    /// Members in any order; of two with one name the later counts.
    Object(Vec<(String, Json)>),
}

/// What a JSON value stands for.
#[verifier::ext_equal]
pub enum JsonV {
    Null,
    Bool(bool),
    Int(int),
    Float(Seq<char>),
    Str(Seq<char>),
    Array(Seq<JsonV>),
    Object(Map<Seq<char>, JsonV>),
}

pub open spec fn items_view(s: Seq<Json>) -> Seq<JsonV>
    decreases s,
{
    if s.len() == 0 {
        Seq::empty()
    } else {
        items_view(s.drop_last()).push(s.last().view())
    }
}

pub open spec fn members_view(s: Seq<(String, Json)>) -> Map<Seq<char>, JsonV>
    decreases s,
{
    if s.len() == 0 {
        Map::empty()
    } else {
        members_view(s.drop_last()).insert(s.last().0@, s.last().1.view())
    }
}

impl Json {
    pub open spec fn view(&self) -> JsonV
        decreases self,
    {
        match self {
            Json::Null => JsonV::Null,
            Json::Bool(b) => JsonV::Bool(*b),
            Json::PosInt(n) => JsonV::Int(*n as int),
            Json::NegInt(n) => JsonV::Int(*n as int),
            Json::Float(t) => JsonV::Float(t@),
            Json::Str(s) => JsonV::Str(s@),
            Json::Array(a) => JsonV::Array(items_view(a@)),
            Json::Object(o) => JsonV::Object(members_view(o@)),
        }
    }
}

/// The view of a list of values, element by element.
pub proof fn lemma_items(s: Seq<Json>)
    ensures
        items_view(s).len() == s.len(),
        forall|i: int| 0 <= i < s.len() ==> #[trigger] items_view(s)[i] == s[i].view(),
    decreases s.len(),
{
    if s.len() > 0 {
        lemma_items(s.drop_last());
    }
}

pub proof fn lemma_items_push(s: Seq<Json>, x: Json)
    ensures
        items_view(s.push(x)) == items_view(s).push(x.view()),
{
    assert(s.push(x).drop_last() =~= s);
}

pub proof fn lemma_members_push(s: Seq<(String, Json)>, x: (String, Json))
    ensures
        members_view(s.push(x)) == members_view(s).insert(x.0@, x.1.view()),
{
    assert(s.push(x).drop_last() =~= s);
}

impl JsonV {
    /// The member `key` of an object.
    pub open spec fn get(self, key: Seq<char>) -> Option<JsonV> {
        match self {
            JsonV::Object(m) => if m.dom().contains(key) { Some(m[key]) } else { None },
            _ => None,
        }
    }

    /// The element `i` of an array.
    pub open spec fn at(self, i: int) -> Option<JsonV> {
        match self {
            JsonV::Array(a) => if 0 <= i < a.len() { Some(a[i]) } else { None },
            _ => None,
        }
    }

    pub open spec fn as_str(self) -> Option<Seq<char>> {
        match self {
            JsonV::Str(s) => Some(s),
            _ => None,
        }
    }

    pub open spec fn as_array(self) -> Option<Seq<JsonV>> {
        match self {
            JsonV::Array(a) => Some(a),
            _ => None,
        }
    }

    /// A number that fits a `u64`.
    pub open spec fn as_u64(self) -> Option<int> {
        match self {
            JsonV::Int(n) => if 0 <= n <= u64::MAX { Some(n) } else { None },
            _ => None,
        }
    }

    /// At most `n` arrays and objects stand one inside the other.
    pub open spec fn depth_at_most(self, n: nat) -> bool
        decreases n,
    {
        match self {
            JsonV::Array(a) => n > 0 && forall|i: int|
                0 <= i < a.len() ==> (#[trigger] a[i]).depth_at_most((n - 1) as nat),
            JsonV::Object(m) => n > 0 && forall|k: Seq<char>| #[trigger]
                m.dom().contains(k) ==> m[k].depth_at_most((n - 1) as nat),
            _ => true,
        }
    }

    /// A string without quotes, backslashes and control characters.
    pub open spec fn needs_no_escape(self) -> bool {
        self matches JsonV::Str(s) && forall|i: int|
            0 <= i < s.len() ==> #[trigger] s[i] != '"' && s[i] != '\\' && s[i] >= ' '
    }

    /// Every number that is not whole is written the way it is printed.
    pub open spec fn printable(self) -> bool
        decreases self,
    {
        match self {
            JsonV::Float(t) => reads_as(t, JsonV::Float(t)),
            JsonV::Array(a) => forall|i: int| 0 <= i < a.len() ==> (#[trigger] a[i]).printable(),
            JsonV::Object(m) => forall|k: Seq<char>| #[trigger]
                m.dom().contains(k) ==> m[k].printable(),
            _ => true,
        }
    }
}

proof fn lemma_item_smaller(j: Json, i: int)
    requires
        j is Array,
        0 <= i < j->Array_0@.len(),
    ensures
        decreases_to!(j => j->Array_0@[i]),
{
    assert(decreases_to!(j => j->Array_0));
    assert(decreases_to!(j->Array_0 => j->Array_0@));
    assert(decreases_to!(j->Array_0@ => j->Array_0@[i]));
}

proof fn lemma_member_smaller(j: Json, i: int)
    requires
        j is Object,
        0 <= i < j->Object_0@.len(),
    ensures
        decreases_to!(j => j->Object_0@[i].1),
{
    assert(decreases_to!(j => j->Object_0));
    assert(decreases_to!(j->Object_0 => j->Object_0@));
    assert(decreases_to!(j->Object_0@ => j->Object_0@[i]));
    assert(decreases_to!(j->Object_0@[i] => j->Object_0@[i].1));
}

proof fn lemma_element_smaller(j: JsonV, i: int)
    requires
        j is Array,
        0 <= i < j->Array_0.len(),
    ensures
        decreases_to!(j => j->Array_0[i]),
{
    assert(decreases_to!(j => j->Array_0));
    assert(decreases_to!(j->Array_0 => j->Array_0[i]));
}

proof fn lemma_field_smaller(j: JsonV, k: Seq<char>)
    requires
        j is Object,
        j->Object_0.dom().finite(),
        j->Object_0.dom().contains(k),
    ensures
        decreases_to!(j => j->Object_0[k]),
{
    assert(decreases_to!(j => j->Object_0));
    assert(decreases_to!(j->Object_0 => j->Object_0[k]));
}

impl Json {
    /// A copy of the value.
    pub fn dup(&self) -> (r: Json)
        ensures
            r.view() == self.view(),
        decreases self,
    {
        match self {
            Json::Null => Json::Null,
            Json::Bool(b) => Json::Bool(*b),
            Json::PosInt(n) => Json::PosInt(*n),
            Json::NegInt(n) => Json::NegInt(*n),
            Json::Float(t) => Json::Float(t.clone()),
            Json::Str(s) => Json::Str(s.clone()),
            Json::Array(a) => {
                let mut out: Vec<Json> = Vec::new();
                let mut i: usize = 0;
                while i < a.len()
                    invariant
                        i <= a@.len(),
                        self == Json::Array(*a),
                        items_view(out@) == items_view(a@.take(i as int)),
                    decreases a@.len() - i,
                {
                    proof {
                        lemma_item_smaller(*self, i as int);
                    }
                    let x = a[i].dup();
                    proof {
                        lemma_items_push(out@, x);
                        lemma_items_push(a@.take(i as int), a@[i as int]);
                        assert(a@.take(i + 1) =~= a@.take(i as int).push(a@[i as int]));
                    }
                    out.push(x);
                    i += 1;
                }
                assert(a@.take(i as int) =~= a@);
                Json::Array(out)
            },
            Json::Object(o) => {
                let mut out: Vec<(String, Json)> = Vec::new();
                let mut i: usize = 0;
                while i < o.len()
                    invariant
                        i <= o@.len(),
                        self == Json::Object(*o),
                        members_view(out@) == members_view(o@.take(i as int)),
                    decreases o@.len() - i,
                {
                    proof {
                        lemma_member_smaller(*self, i as int);
                    }
                    let x = (o[i].0.clone(), o[i].1.dup());
                    proof {
                        lemma_members_push(out@, x);
                        lemma_members_push(o@.take(i as int), o@[i as int]);
                        assert(o@.take(i + 1) =~= o@.take(i as int).push(o@[i as int]));
                    }
                    out.push(x);
                    i += 1;
                }
                assert(o@.take(i as int) =~= o@);
                Json::Object(out)
            },
        }
    }

    /// The member `key` of an object.
    pub fn get(&self, key: &str) -> (r: Option<&Json>)
        ensures
            match r {
                Some(j) => self.view().get(key@) == Some(j.view()),
                None => self.view().get(key@) is None,
            },
    {
        if let Json::Object(o) = self {
            let mut i: usize = o.len();
            assert(o@.take(i as int) =~= o@);
            while i > 0
                invariant
                    i <= o@.len(),
                    self.view() == JsonV::Object(members_view(o@)),
                    self.view().get(key@) == JsonV::Object(
                        members_view(o@.take(i as int)),
                    ).get(key@),
                decreases i,
            {
                proof {
                    assert(o@.take(i as int) =~= o@.take(i - 1).push(o@[i - 1]));
                    lemma_members_push(o@.take(i - 1), o@[i - 1]);
                }
                i -= 1;
                if same_text(o[i].0.as_str(), key) {
                    return Some(&o[i].1);
                }
            }
            assert(o@.take(0) =~= Seq::empty());
        }
        None
    }

    /// The element `i` of an array.
    pub fn at(&self, i: usize) -> (r: Option<&Json>)
        ensures
            match r {
                Some(j) => self.view().at(i as int) == Some(j.view()),
                None => self.view().at(i as int) is None,
            },
    {
        match self {
            Json::Array(a) => {
                proof {
                    lemma_items(a@);
                }
                if i < a.len() {
                    Some(&a[i])
                } else {
                    None
                }
            },
            _ => None,
        }
    }

    pub fn as_str(&self) -> (r: Option<&str>)
        ensures
            match r {
                Some(s) => self.view().as_str() == Some(s@),
                None => self.view().as_str() is None,
            },
    {
        match self {
            Json::Str(s) => Some(s.as_str()),
            _ => None,
        }
    }

    pub fn as_array(&self) -> (r: Option<&Vec<Json>>)
        ensures
            match r {
                Some(a) => self.view().as_array() == Some(items_view(a@)),
                None => self.view().as_array() is None,
            },
    {
        match self {
            Json::Array(a) => Some(a),
            _ => None,
        }
    }

    pub fn as_u64(&self) -> (r: Option<u64>)
        ensures
            match r {
                Some(n) => self.view().as_u64() == Some(n as int),
                None => self.view().as_u64() is None,
            },
    {
        match self {
            Json::PosInt(n) => Some(*n),
            Json::NegInt(n) => if *n >= 0 { Some(*n as u64) } else { None },
            _ => None,
        }
    }

    /// The member `key` of an object, where it is a string.
    pub fn get_str(&self, key: &str) -> (r: Option<&str>)
        ensures
            match r {
                Some(s) => self.view().get(key@) == Some(JsonV::Str(s@)),
                None => !(self.view().get(key@) matches Some(JsonV::Str(_))),
            },
    {
        match self.get(key) {
            Some(j) => j.as_str(),
            None => None,
        }
    }
}

/// Adds a member to those of an object.
pub fn put(members: &mut Vec<(String, Json)>, key: &str, value: Json)
    ensures
        members_view(final(members)@) == members_view(old(members)@).insert(key@, value.view()),
{
    let entry = (key.to_owned(), value);
    proof {
        lemma_members_push(members@, entry);
    }
    members.push(entry);
}

/// Dropping a member that is replaced anyway makes no difference.
proof fn lemma_members_drop(s: Seq<(String, Json)>, i: int, value: JsonV)
    requires
        0 <= i < s.len(),
    ensures
        members_view(s.remove(i)).insert(s[i].0@, value) == members_view(s).insert(s[i].0@, value),
    decreases s.len(),
{
    if i < s.len() - 1 {
        let t = s.drop_last();
        lemma_members_drop(t, i, value);
        assert(s.remove(i).drop_last() =~= t.remove(i));
        assert(s.remove(i).last() == s.last());
        let k = s[i].0@;
        let l = s.last().0@;
        let x = s.last().1.view();
        let y = if l == k { value } else { x };
        let a = members_view(t.remove(i));
        let b = members_view(t);
        assert(a.insert(k, value) == b.insert(k, value));
        assert(a.insert(l, x).insert(k, value) =~= a.insert(k, value).insert(l, y));
        assert(b.insert(l, x).insert(k, value) =~= b.insert(k, value).insert(l, y));
    } else {
        assert(s.remove(i) =~= s.drop_last());
        assert(members_view(s.remove(i)).insert(s[i].0@, value) =~= members_view(s).insert(
            s[i].0@,
            value,
        ));
    }
}

/// Gives an object's member a new value, or adds it.
pub fn set_member(members: &mut Vec<(String, Json)>, key: &str, value: Json)
    ensures
        members_view(final(members)@) == members_view(old(members)@).insert(key@, value.view()),
{
    let ghost before = members_view(members@).insert(key@, value.view());
    let mut i: usize = 0;
    while i < members.len()
        invariant
            i <= members@.len(),
            members_view(members@).insert(key@, value.view()) == before,
        decreases members@.len() - i,
    {
        if same_text(members[i].0.as_str(), key) {
            proof {
                lemma_members_drop(members@, i as int, value.view());
            }
            members.remove(i);
        } else {
            i += 1;
        }
    }
    put(members, key, value);
}

/// A JSON string.
pub fn text_json(s: &str) -> (r: Json)
    ensures
        r.view() == JsonV::Str(s@),
{
    Json::Str(s.to_owned())
}

/// An array of strings.
pub fn texts_json(v: &Vec<String>) -> (r: Json)
    ensures
        r.view() == JsonV::Array(texts_view(deep(v@))),
{
    let mut out: Vec<Json> = Vec::new();
    let mut i: usize = 0;
    assert(items_view(out@) =~= texts_view(deep(v@)).take(0));
    while i < v.len()
        invariant
            i <= v@.len(),
            items_view(out@) == texts_view(deep(v@)).take(i as int),
        decreases v@.len() - i,
    {
        let x = text_json(v[i].as_str());
        proof {
            lemma_items_push(out@, x);
            assert(deep(v@)[i as int] == v@[i as int]@);
            assert(texts_view(deep(v@)).take(i + 1) =~= texts_view(deep(v@)).take(i as int).push(
                x.view(),
            ));
        }
        out.push(x);
        i += 1;
    }
    assert(texts_view(deep(v@)).take(i as int) =~= texts_view(deep(v@)));
    Json::Array(out)
}

pub open spec fn texts_view(s: Seq<Seq<char>>) -> Seq<JsonV> {
    Seq::new(s.len(), |i: int| JsonV::Str(s[i]))
}

/// The elements of an array of strings; `None` where one is not a string.
pub open spec fn texts_of(a: Seq<JsonV>) -> Option<Seq<Seq<char>>> {
    if forall|i: int| 0 <= i < a.len() ==> (#[trigger] a[i]) is Str {
        Some(Seq::new(a.len(), |i: int| a[i]->Str_0))
    } else {
        None
    }
}

pub fn read_texts(a: &Vec<Json>) -> (r: Option<Vec<String>>)
    ensures
        match r {
            Some(v) => texts_of(items_view(a@)) == Some(deep(v@)),
            None => texts_of(items_view(a@)) is None,
        },
{
    broadcast use crate::text::lemma_deep_push;

    proof {
        lemma_items(a@);
    }
    let ghost vs = items_view(a@);
    let mut out: Vec<String> = Vec::new();
    let mut i: usize = 0;
    while i < a.len()
        invariant
            vs == items_view(a@),
            vs.len() == a@.len(),
            forall|k: int| 0 <= k < a@.len() ==> #[trigger] vs[k] == a@[k].view(),
            i <= a@.len(),
            deep(out@).len() == i,
            forall|k: int| 0 <= k < i ==> (#[trigger] vs[k]) == JsonV::Str(deep(out@)[k]),
        decreases a@.len() - i,
    {
        match a[i].as_str() {
            Some(s) => {
                assert(vs[i as int] == JsonV::Str(s@));
                out.push(s.to_owned());
            },
            None => {
                assert(!(vs[i as int] is Str));
                return None;
            },
        }
        i += 1;
    }
    assert(texts_of(vs) is Some);
    assert(texts_of(vs)->0 =~= deep(out@));
    Some(out)
}

/// A JSON value as `serde_json` holds it.
#[verifier::external_type_specification]
#[verifier::external_body]
pub struct ExValue(serde_json::Value);

/// What a `serde_json::Value` stands for.
pub uninterp spec fn value_view(v: serde_json::Value) -> JsonV;

/// What `serde_json` reads a text as: a value, or the text of its error.
pub uninterp spec fn json_parsed(text: Seq<char>) -> Result<JsonV, Seq<char>>;

/// `text` is read as the value `j`.
pub open spec fn reads_as(text: Seq<char>, j: JsonV) -> bool {
    json_parsed(text) == Ok::<JsonV, Seq<char>>(j)
}

/// `text` is not JSON; `error` says why.
pub open spec fn fails_as(text: Seq<char>, error: Seq<char>) -> bool {
    json_parsed(text) == Err::<JsonV, Seq<char>>(error)
}

/// `s` in quotes.
pub open spec fn quoted(s: Seq<char>) -> Seq<char> {
    "\""@ + s + "\""@
}

pub fn quote(s: &str) -> (r: String)
    ensures
        r@ == quoted(s@),
{
    let mut out = "\"".to_owned();
    out.append(s);
    out.append("\"");
    out
}

/// The text that `serde_json` writes for a value.
pub uninterp spec fn json_text(j: JsonV) -> Seq<char>;

/// The outermost layer of a `serde_json::Value`.
pub enum Node {
    Null,
    Bool(bool),
    PosInt(u64),
    NegInt(i64),
    Float(String),
    Str(String),
    Array(Vec<serde_json::Value>),
    Object(Vec<(String, serde_json::Value)>),
}

pub open spec fn values_view(s: Seq<serde_json::Value>) -> Seq<JsonV> {
    Seq::new(s.len(), |i: int| value_view(s[i]))
}

pub open spec fn fields_view(s: Seq<(String, serde_json::Value)>) -> Map<Seq<char>, JsonV>
    decreases s.len(),
{
    if s.len() == 0 {
        Map::empty()
    } else {
        fields_view(s.drop_last()).insert(s.last().0@, value_view(s.last().1))
    }
}

impl Node {
    pub open spec fn view(self) -> JsonV {
        match self {
            Node::Null => JsonV::Null,
            Node::Bool(b) => JsonV::Bool(b),
            Node::PosInt(n) => JsonV::Int(n as int),
            Node::NegInt(n) => JsonV::Int(n as int),
            Node::Float(t) => JsonV::Float(t@),
            Node::Str(s) => JsonV::Str(s@),
            Node::Array(a) => JsonV::Array(values_view(a@)),
            Node::Object(o) => JsonV::Object(fields_view(o@)),
        }
    }

    /// A number's text reads back as the number, and no member comes twice.
    pub open spec fn proper(self) -> bool {
        match self {
            Node::Float(t) => reads_as(t@, JsonV::Float(t@)),
            Node::Object(o) => forall|i: int, k: int|
                0 <= i < k < o@.len() ==> (#[trigger] o@[i]).0@ != (#[trigger] o@[k]).0@,
            _ => true,
        }
    }
}

/// Takes a `serde_json::Value` apart, variant by variant. `Number::as_u64` and
/// `Number::as_i64` give the whole numbers, and `Number`'s `Display` the others,
/// in the shortest form that reads back as the same number. The members of an
/// object come out once each.
#[verifier::external_body]
fn node_of(v: serde_json::Value) -> (n: Node)
    ensures
        n.view() == value_view(v),
        n.proper(),
{
    match v {
        serde_json::Value::Null => Node::Null,
        serde_json::Value::Bool(b) => Node::Bool(b),
        serde_json::Value::Number(n) => match (n.as_u64(), n.as_i64()) {
            (Some(u), _) => Node::PosInt(u),
            (None, Some(i)) => Node::NegInt(i),
            (None, None) => Node::Float(n.to_string()),
        },
        serde_json::Value::String(s) => Node::Str(s),
        serde_json::Value::Array(a) => Node::Array(a),
        serde_json::Value::Object(o) => Node::Object(o.into_iter().collect()),
    }
}

/// Puts a `serde_json::Value` together, variant by variant: `Value::from` for
/// whole numbers, and `Map`'s `FromIterator` for an object, where a later member
/// replaces an earlier one of the same name. A number that is not whole has no
/// such constructor and is read from its text instead.
#[verifier::external_body]
fn value_of(n: Node) -> (v: serde_json::Value)
    requires
        !(n is Float),
    ensures
        value_view(v) == n.view(),
{
    match n {
        Node::Null | Node::Float(_) => serde_json::Value::Null,
        Node::Bool(b) => serde_json::Value::Bool(b),
        Node::PosInt(u) => serde_json::Value::from(u),
        Node::NegInt(i) => serde_json::Value::from(i),
        Node::Str(s) => serde_json::Value::String(s),
        Node::Array(a) => serde_json::Value::Array(a),
        Node::Object(o) => serde_json::Value::Object(o.into_iter().collect()),
    }
}

/// `serde_json::from_str`: the value that a text holds, or the text of the error.
#[verifier::external_body]
fn parse_value(text: &str) -> (r: Result<serde_json::Value, String>)
    ensures
        r is Ok <==> json_parsed(text@) is Ok,
        match r {
            Ok(v) => reads_as(text@, value_view(v)),
            Err(e) => fails_as(text@, e@),
        },
{
    serde_json::from_str(text).map_err(|e| e.to_string())
}

/// `Value`'s `Display`: the compact text of a value, its members in the order of
/// their names. Read again it gives the same value, unless it nests deeper than
/// the 127 levels that `serde_json` reads. A string that needs no escapes is written
/// in quotes, as it is.
#[verifier::external_body]
fn value_text(v: &serde_json::Value) -> (r: String)
    ensures
        r@ == json_text(value_view(*v)),
        value_view(*v).depth_at_most(127) ==> reads_as(r@, value_view(*v)),
        value_view(*v).needs_no_escape() ==> r@ == quoted(value_view(*v)->Str_0),
{
    v.to_string()
}

proof fn lemma_fields_push(s: Seq<(String, serde_json::Value)>, x: (String, serde_json::Value))
    ensures
        fields_view(s.push(x)) == fields_view(s).insert(x.0@, value_view(x.1)),
{
    assert(s.push(x).drop_last() =~= s);
}

pub proof fn lemma_depth_insert(m: Map<Seq<char>, JsonV>, k: Seq<char>, x: JsonV, n: nat)
    requires
        JsonV::Object(m).depth_at_most(n),
        n > 0,
        x.depth_at_most((n - 1) as nat),
    ensures
        JsonV::Object(m.insert(k, x)).depth_at_most(n),
{
    let before = JsonV::Object(m);
    let j = JsonV::Object(m.insert(k, x));
    assert forall|i: Seq<char>| #[trigger] j->Object_0.dom().contains(i) implies j->Object_0[i].depth_at_most(
        (n - 1) as nat,
    ) by {
        if i != k {
            assert(before->Object_0.dom().contains(i));
        }
    }
}

proof fn lemma_fields_finite(s: Seq<(String, serde_json::Value)>)
    ensures
        fields_view(s).dom().finite(),
    decreases s.len(),
{
    if s.len() > 0 {
        lemma_fields_finite(s.drop_last());
    }
}

pub proof fn lemma_printable_item(j: JsonV, i: int)
    requires
        j.printable(),
        j is Array,
        0 <= i < j->Array_0.len(),
    ensures
        j->Array_0[i].printable(),
{
}

pub proof fn lemma_printable_member(j: JsonV, k: Seq<char>)
    requires
        j.printable(),
        j is Object,
        j->Object_0.dom().contains(k),
    ensures
        j->Object_0[k].printable(),
{
}

pub proof fn lemma_printable_insert(m: Map<Seq<char>, JsonV>, k: Seq<char>, x: JsonV)
    requires
        JsonV::Object(m).printable(),
        x.printable(),
    ensures
        JsonV::Object(m.insert(k, x)).printable(),
{
    let j = JsonV::Object(m.insert(k, x));
    assert forall|n: Seq<char>| #[trigger] j->Object_0.dom().contains(n) implies j->Object_0[n].printable() by {
        if n != k {
            lemma_printable_member(JsonV::Object(m), n);
        }
    }
}

/// Where no member comes twice, each is in the object.
proof fn lemma_field_of(s: Seq<(String, serde_json::Value)>, i: int)
    requires
        0 <= i < s.len(),
        forall|a: int, b: int|
            0 <= a < b < s.len() ==> (#[trigger] s[a]).0@ != (#[trigger] s[b]).0@,
    ensures
        fields_view(s).dom().contains(s[i].0@),
        fields_view(s).dom().finite(),
        fields_view(s)[s[i].0@] == value_view(s[i].1),
    decreases s.len(),
{
    lemma_fields_finite(s);
    if i < s.len() - 1 {
        lemma_field_of(s.drop_last(), i);
        assert(s.drop_last()[i] == s[i]);
    }
}

/// The value that `serde_json` holds, as a [`Json`].
fn from_value(v: serde_json::Value) -> (r: Json)
    ensures
        r.view() == value_view(v),
        r.view().printable(),
    decreases value_view(v),
{
    let ghost vv = value_view(v);
    match node_of(v) {
        Node::Null => Json::Null,
        Node::Bool(b) => Json::Bool(b),
        Node::PosInt(n) => Json::PosInt(n),
        Node::NegInt(n) => Json::NegInt(n),
        Node::Float(t) => Json::Float(t),
        Node::Str(s) => Json::Str(s),
        Node::Array(a) => {
            let ghost whole = a@;
            let mut out: Vec<Json> = Vec::new();
            for x in it: a
                invariant
                    it.seq() == whole,
                    vv == JsonV::Array(values_view(whole)),
                    vv == value_view(v),
                    items_view(out@) == values_view(whole).take(it.index()),
                    forall|k: int| 0 <= k < it.index() ==> (#[trigger] values_view(whole)[k]).printable(),
            {
                proof {
                    assert(values_view(whole)[it.index()] == value_view(x));
                    lemma_element_smaller(vv, it.index());
                }
                let j = from_value(x);
                proof {
                    lemma_items_push(out@, j);
                    assert(values_view(whole).take(it.index() + 1)
                        =~= values_view(whole).take(it.index()).push(j.view()));
                }
                out.push(j);
            }
            assert(values_view(whole).take(whole.len() as int) =~= values_view(whole));
            Json::Array(out)
        },
        Node::Object(o) => {
            let ghost whole = o@;
            let mut out: Vec<(String, Json)> = Vec::new();
            assert(whole.take(0) =~= Seq::empty());
            for x in it: o
                invariant
                    it.seq() == whole,
                    vv == JsonV::Object(fields_view(whole)),
                    vv == value_view(v),
                    forall|a: int, b: int|
                        0 <= a < b < whole.len() ==> (#[trigger] whole[a]).0@
                            != (#[trigger] whole[b]).0@,
                    members_view(out@) == fields_view(whole.take(it.index())),
                    JsonV::Object(members_view(out@)).printable(),
            {
                proof {
                    lemma_field_of(whole, it.index());
                    lemma_field_smaller(vv, x.0@);
                }
                let j = from_value(x.1);
                proof {
                    lemma_members_push(out@, (x.0, j));
                    lemma_printable_insert(members_view(out@), x.0@, j.view());
                    lemma_fields_push(whole.take(it.index()), whole[it.index()]);
                    assert(whole.take(it.index() + 1)
                        =~= whole.take(it.index()).push(whole[it.index()]));
                }
                out.push((x.0, j));
            }
            assert(whole.take(whole.len() as int) =~= whole);
            Json::Object(out)
        },
    }
}

/// A [`Json`] as `serde_json` holds it.
fn to_value(j: &Json) -> (r: serde_json::Value)
    ensures
        j.view().printable() ==> value_view(r) == j.view(),
    decreases j,
{
    match j {
        Json::Null => value_of(Node::Null),
        Json::Bool(b) => value_of(Node::Bool(*b)),
        Json::PosInt(n) => value_of(Node::PosInt(*n)),
        Json::NegInt(n) => value_of(Node::NegInt(*n)),
        Json::Float(t) => match parse_value(t.as_str()) {
            Ok(v) => v,
            Err(_) => value_of(Node::Null),
        },
        Json::Str(s) => value_of(Node::Str(s.clone())),
        Json::Array(a) => {
            proof {
                lemma_items(a@);
            }
            let mut out: Vec<serde_json::Value> = Vec::new();
            let mut i: usize = 0;
            while i < a.len()
                invariant
                    i <= a@.len(),
                    j == Json::Array(*a),
                    j.view() == JsonV::Array(items_view(a@)),
                    items_view(a@).len() == a@.len(),
                    forall|k: int| 0 <= k < a@.len() ==> #[trigger] items_view(a@)[k] == a@[k].view(),
                    out@.len() == i,
                    j.view().printable() ==> forall|k: int|
                        0 <= k < i ==> value_view(#[trigger] out@[k]) == items_view(a@)[k],
                decreases a@.len() - i,
            {
                proof {
                    lemma_item_smaller(*j, i as int);
                }
                let x = to_value(&a[i]);
                proof {
                    if j.view().printable() {
                        lemma_printable_item(j.view(), i as int);
                    }
                }
                out.push(x);
                i += 1;
            }
            assert(j.view().printable() ==> values_view(out@) =~= items_view(a@));
            value_of(Node::Array(out))
        },
        Json::Object(o) => {
            let mut out: Vec<(String, serde_json::Value)> = Vec::new();
            let mut i: usize = 0;
            assert(o@.take(0) =~= Seq::empty());
            while i < o.len()
                invariant
                    i <= o@.len(),
                    j == Json::Object(*o),
                    out@.len() == i,
                    fields_view(out@).dom() == members_view(o@.take(i as int)).dom(),
                    forall|k: Seq<char>| #[trigger]
                        members_view(o@.take(i as int)).dom().contains(k)
                            && members_view(o@.take(i as int))[k].printable()
                            ==> fields_view(out@)[k] == members_view(o@.take(i as int))[k],
                decreases o@.len() - i,
            {
                proof {
                    lemma_member_smaller(*j, i as int);
                }
                let x = (o[i].0.clone(), to_value(&o[i].1));
                proof {
                    lemma_fields_push(out@, x);
                    lemma_members_push(o@.take(i as int), o@[i as int]);
                    assert(o@.take(i + 1) =~= o@.take(i as int).push(o@[i as int]));
                }
                out.push(x);
                i += 1;
            }
            assert(o@.take(i as int) =~= o@);
            proof {
                if j.view().printable() {
                    assert forall|k: Seq<char>| #[trigger] members_view(o@).dom().contains(k)
                        implies members_view(o@)[k].printable() by {
                        lemma_printable_member(j.view(), k);
                    }
                    assert(fields_view(out@) =~= members_view(o@));
                }
            }
            value_of(Node::Object(out))
        },
    }
}

/// What an attempt to read a text came to.
pub open spec fn parsed_view(r: Result<Json, String>) -> Result<JsonV, Seq<char>> {
    match r {
        Ok(j) => Ok(j.view()),
        Err(e) => Err(e@),
    }
}

/// Reads a text as JSON.
pub fn parse_json(text: &str) -> (r: Result<Json, String>)
    ensures
        parsed_view(r) == json_parsed(text@),
        r matches Ok(j) ==> j.view().printable(),
{
    match parse_value(text) {
        Ok(v) => Ok(from_value(v)),
        Err(e) => Err(e),
    }
}

/// The compact text of a value.
pub fn write_json(j: &Json) -> (r: String)
    ensures
        j.view().printable() ==> {
            &&& r@ == json_text(j.view())
            &&& j.view().depth_at_most(127) ==> reads_as(r@, j.view())
            &&& j.view().needs_no_escape() ==> r@ == quoted(j.view()->Str_0)
        },
{
    let v = to_value(j);
    value_text(&v)
}

} // verus!
