//! The JSON forms of the data of a run, and how they are read back.

use vstd::prelude::*;
use vstd::string::*;
use crate::auto::executor::{status_label, status_label_of};
use crate::auto::types::{
    AutoStatus, Plan, PlanView, SeePrior, SeePriorKeyword, SeePriorView, WorkerFailureContext,
    WorkerFailureContextView, WorkerPoolEntry, WorkerPoolEntryView, WorkerResult, WorkerResultView,
    WorkerSpec, WorkerSpecView, WorkerStatus, WorkerStatusView,
};
use crate::json::{
    items_view, lemma_items, lemma_items_push, members_view, put, read_texts, text_json, texts_json,
    texts_of, texts_view, Json, JsonV,
};
use crate::text::{dec, dec_int, decimal, decimal_int, deep, lemma_deep_push, opt, same_text, Dup};

verus! {

broadcast use lemma_deep_push;

// ── Reading members ──

/// A field of a structure: the member `key` of an object, or the element `pos` of
/// an array that lists the fields in order.
pub open spec fn member(j: JsonV, key: Seq<char>, pos: int) -> Option<JsonV> {
    match j {
        JsonV::Object(_) => j.get(key),
        JsonV::Array(_) => j.at(pos),
        _ => None,
    }
}

/// Whether a structure of `n` fields can be read from `j` at all.
pub open spec fn shaped(j: JsonV, n: int) -> bool {
    match j {
        JsonV::Object(_) => true,
        JsonV::Array(a) => a.len() <= n,
        _ => false,
    }
}

/// A number that fits a `u32`.
pub open spec fn u32_of(j: JsonV) -> Option<u32> {
    match j {
        JsonV::Int(n) => if 0 <= n <= u32::MAX { Some(n as u32) } else { None },
        _ => None,
    }
}

pub open spec fn text_member(j: JsonV, key: Seq<char>, pos: int) -> Option<Seq<char>> {
    match member(j, key, pos) {
        Some(v) => v.as_str(),
        None => None,
    }
}

pub open spec fn u32_member(j: JsonV, key: Seq<char>, pos: int) -> Option<u32> {
    match member(j, key, pos) {
        Some(v) => u32_of(v),
        None => None,
    }
}

fn get_member<'a>(j: &'a Json, key: &str, pos: usize) -> (r: Option<&'a Json>)
    ensures
        match r {
            Some(v) => member(j.view(), key@, pos as int) == Some(v.view()),
            None => member(j.view(), key@, pos as int) is None,
        },
{
    match j {
        Json::Object(_) => j.get(key),
        Json::Array(_) => j.at(pos),
        _ => None,
    }
}

fn is_shaped(j: &Json, n: usize) -> (r: bool)
    ensures
        r == shaped(j.view(), n as int),
{
    match j {
        Json::Object(_) => true,
        Json::Array(a) => {
            proof {
                lemma_items(a@);
            }
            a.len() <= n
        },
        _ => false,
    }
}

fn get_text(j: &Json, key: &str, pos: usize) -> (r: Option<String>)
    ensures
        match r {
            Some(s) => text_member(j.view(), key@, pos as int) == Some(s@),
            None => text_member(j.view(), key@, pos as int) is None,
        },
{
    match get_member(j, key, pos) {
        Some(v) => match v.as_str() {
            Some(s) => Some(s.to_owned()),
            None => None,
        },
        None => None,
    }
}

fn read_u32(j: &Json) -> (r: Option<u32>)
    ensures
        r == u32_of(j.view()),
{
    match j.as_u64() {
        Some(n) => if n <= u32::MAX as u64 { Some(n as u32) } else { None },
        None => None,
    }
}

fn get_u32(j: &Json, key: &str, pos: usize) -> (r: Option<u32>)
    ensures
        r == u32_member(j.view(), key@, pos as int),
{
    match get_member(j, key, pos) {
        Some(v) => read_u32(v),
        None => None,
    }
}

// ── The texts of errors ──

/// The text that std's `Debug` gives a string.
pub uninterp spec fn debug_text(s: Seq<char>) -> Seq<char>;

/// std's `Debug` for `str`: the string in quotes, with escapes.
#[verifier::external_body]
fn debug_of(s: &str) -> (r: String)
    ensures
        r@ == debug_text(s@),
{
    format!("{:?}", s)
}

/// What a value is called in an error.
pub open spec fn found(j: JsonV) -> Seq<char> {
    match j {
        JsonV::Null => "null"@,
        JsonV::Bool(true) => "boolean `true`"@,
        JsonV::Bool(false) => "boolean `false`"@,
        JsonV::Int(n) => "integer `"@ + dec_int(n) + "`"@,
        JsonV::Float(t) => "floating point `"@ + t + "`"@,
        JsonV::Str(s) => "string "@ + debug_text(s),
        JsonV::Array(_) => "sequence"@,
        JsonV::Object(_) => "map"@,
    }
}

/// A value of the wrong type.
pub open spec fn mismatch(j: JsonV, expected: Seq<char>) -> Seq<char> {
    "invalid type: "@ + found(j) + ", expected "@ + expected
}

pub open spec fn missing_field(key: Seq<char>) -> Seq<char> {
    "missing field `"@ + key + "`"@
}

fn found_text(j: &Json) -> (r: String)
    ensures
        r@ == found(j.view()),
{
    match j {
        Json::Null => "null".to_owned(),
        Json::Bool(b) => if *b {
            "boolean `true`".to_owned()
        } else {
            "boolean `false`".to_owned()
        },
        Json::PosInt(n) => {
            let mut s = "integer `".to_owned();
            s.append(decimal_int(*n as i128).as_str());
            s.append("`");
            s
        },
        Json::NegInt(n) => {
            let mut s = "integer `".to_owned();
            s.append(decimal_int(*n as i128).as_str());
            s.append("`");
            s
        },
        Json::Float(t) => {
            let mut s = "floating point `".to_owned();
            s.append(t.as_str());
            s.append("`");
            s
        },
        Json::Str(t) => {
            let mut s = "string ".to_owned();
            s.append(debug_of(t.as_str()).as_str());
            s
        },
        Json::Array(_) => "sequence".to_owned(),
        Json::Object(_) => "map".to_owned(),
    }
}

fn mismatch_text(j: &Json, expected: &str) -> (r: String)
    ensures
        r@ == mismatch(j.view(), expected@),
{
    let mut s = "invalid type: ".to_owned();
    s.append(found_text(j).as_str());
    s.append(", expected ");
    s.append(expected);
    s
}

fn missing_field_text(key: &str) -> (r: String)
    ensures
        r@ == missing_field(key@),
{
    let mut s = "missing field `".to_owned();
    s.append(key);
    s.append("`");
    s
}

// ── Which earlier outputs a worker sees ──

pub open spec fn keyword_text(k: SeePriorKeyword) -> Seq<char> {
    match k {
        SeePriorKeyword::Nothing => "none"@,
        SeePriorKeyword::All => "all"@,
    }
}

pub open spec fn keyword_of(s: Seq<char>) -> Option<SeePriorKeyword> {
    if s == "none"@ {
        Some(SeePriorKeyword::Nothing)
    } else if s == "all"@ {
        Some(SeePriorKeyword::All)
    } else {
        None
    }
}

pub open spec fn see_prior_json(v: SeePriorView) -> JsonV {
    match v {
        SeePriorView::Keyword(k) => JsonV::Str(keyword_text(k)),
        SeePriorView::Specific(ids) => JsonV::Array(texts_view(ids)),
    }
}

/// The keyword that an object names: its only member, with `null` for a value.
pub open spec fn keyword_object(m: Map<Seq<char>, JsonV>, k: Seq<char>) -> bool {
    m.dom() == set![k] && m[k] == JsonV::Null
}

/// A keyword, as a string or as an object with that one member, or a list of ids.
pub open spec fn see_prior_of(j: JsonV) -> Option<SeePriorView> {
    match j {
        JsonV::Str(s) => match keyword_of(s) {
            Some(k) => Some(SeePriorView::Keyword(k)),
            None => None,
        },
        JsonV::Array(a) => match texts_of(a) {
            Some(ids) => Some(SeePriorView::Specific(ids)),
            None => None,
        },
        JsonV::Object(m) => if keyword_object(m, "none"@) {
            Some(SeePriorView::Keyword(SeePriorKeyword::Nothing))
        } else if keyword_object(m, "all"@) {
            Some(SeePriorView::Keyword(SeePriorKeyword::All))
        } else {
            None
        },
        _ => None,
    }
}

pub fn keyword_to_text(k: SeePriorKeyword) -> (r: &'static str)
    ensures
        r@ == keyword_text(k),
{
    match k {
        SeePriorKeyword::Nothing => "none",
        SeePriorKeyword::All => "all",
    }
}

pub fn see_prior_to_json(v: &SeePrior) -> (r: Json)
    ensures
        r.view() == see_prior_json(v@),
{
    match v {
        SeePrior::Keyword(k) => text_json(keyword_to_text(*k)),
        SeePrior::Specific(ids) => texts_json(ids),
    }
}

/// Every member of the object has this name.
spec fn all_named(o: Seq<(String, Json)>, key: Seq<char>) -> bool {
    forall|i: int| 0 <= i < o.len() ==> (#[trigger] o[i]).0@ == key
}

proof fn lemma_named(o: Seq<(String, Json)>, i: int)
    requires
        0 <= i < o.len(),
    ensures
        members_view(o).dom().contains(o[i].0@),
    decreases o.len(),
{
    if i < o.len() - 1 {
        lemma_named(o.drop_last(), i);
    }
}

proof fn lemma_only_named(o: Seq<(String, Json)>, key: Seq<char>)
    requires
        all_named(o, key),
        o.len() > 0,
    ensures
        members_view(o).dom() =~= set![key],
    decreases o.len(),
{
    assert(o[o.len() - 1].0@ == key);
    if o.len() > 1 {
        assert forall|i: int| 0 <= i < o.drop_last().len() implies (#[trigger] o.drop_last()[i]).0@
            == key by {
            assert(o.drop_last()[i] == o[i]);
        }
        lemma_only_named(o.drop_last(), key);
    } else {
        assert(o.drop_last() =~= Seq::empty());
        assert(members_view(o.drop_last()) =~= Map::empty());
    }
    assert(members_view(o) == members_view(o.drop_last()).insert(key, o.last().1.view()));
    assert(members_view(o).dom() =~= set![key]);
}

fn is_keyword_object(j: &Json, key: &str) -> (r: bool)
    requires
        j is Object,
    ensures
        r == keyword_object(j.view()->Object_0, key@),
{
    if let Json::Object(o) = j {
        let mut i: usize = 0;
        while i < o.len()
            invariant
                j == Json::Object(*o),
                i <= o@.len(),
                forall|k: int| 0 <= k < i ==> (#[trigger] o@[k]).0@ == key@,
            decreases o@.len() - i,
        {
            if !same_text(o[i].0.as_str(), key) {
                proof {
                    lemma_named(o@, i as int);
                    assert(j.view()->Object_0.dom().contains(o@[i as int].0@));
                    assert(!set![key@].contains(o@[i as int].0@));
                }
                return false;
            }
            i += 1;
        }
        if o.len() == 0 {
            assert(j.view()->Object_0.dom() =~= Set::empty());
            assert(set![key@].contains(key@));
            return false;
        }
        proof {
            lemma_only_named(o@, key@);
        }
        match j.get(key) {
            Some(v) => matches!(v, Json::Null),
            None => false,
        }
    } else {
        false
    }
}

pub fn see_prior_from_json(j: &Json) -> (r: Option<SeePrior>)
    ensures
        match r {
            Some(v) => see_prior_of(j.view()) == Some(v@),
            None => see_prior_of(j.view()) is None,
        },
{
    match j {
        Json::Str(s) => if same_text(s.as_str(), "none") {
            Some(SeePrior::Keyword(SeePriorKeyword::Nothing))
        } else if same_text(s.as_str(), "all") {
            Some(SeePrior::Keyword(SeePriorKeyword::All))
        } else {
            None
        },
        Json::Array(a) => match read_texts(a) {
            Some(ids) => Some(SeePrior::Specific(ids)),
            None => None,
        },
        Json::Object(_) => if is_keyword_object(j, "none") {
            Some(SeePrior::Keyword(SeePriorKeyword::Nothing))
        } else if is_keyword_object(j, "all") {
            Some(SeePrior::Keyword(SeePriorKeyword::All))
        } else {
            None
        },
        _ => None,
    }
}

/// Reading a written choice gives the choice back.
pub proof fn law_see_prior_roundtrip(v: SeePriorView)
    ensures
        see_prior_of(see_prior_json(v)) == Some(v),
{
    reveal_strlit("none");
    reveal_strlit("all");
    match v {
        SeePriorView::Keyword(k) => {
            assert("none"@.len() != "all"@.len());
        },
        SeePriorView::Specific(ids) => {
            assert(texts_of(texts_view(ids)) is Some);
            assert(texts_of(texts_view(ids))->0 =~= ids);
        },
    }
}

proof fn lemma_see_prior_writable(v: SeePriorView)
    ensures
        see_prior_json(v).printable(),
        see_prior_json(v).depth_at_most(1),
{
    let j = see_prior_json(v);
    if j is Array {
        assert forall|i: int| 0 <= i < j->Array_0.len() implies {
            &&& (#[trigger] j->Array_0[i]).printable()
            &&& j->Array_0[i].depth_at_most(0)
        } by {
            assert(j->Array_0[i] is Str);
        }
    }
}

// ── Values with a JSON form ──

/// A value with a JSON form from which it can be read back.
pub trait Coded: Sized + View {
    /// How deep the form nests at most.
    spec fn levels() -> nat;

    /// The form of a value.
    spec fn json_of(v: Self::V) -> JsonV;

    /// The value that a form stands for, if it is one.
    spec fn read(j: JsonV) -> Option<Self::V>;

    fn to_json(&self) -> (r: Json)
        ensures
            r.view() == Self::json_of(self@),
    ;

    fn from_json(j: &Json) -> (r: Option<Self>)
        ensures
            match r {
                Some(x) => Self::read(j.view()) == Some(x@),
                None => Self::read(j.view()) is None,
            },
    ;

    /// Reading what was written gives the value back.
    proof fn law_roundtrip(v: Self::V)
        ensures
            Self::read(Self::json_of(v)) == Some(v),
    ;

    /// The form can be written out as text, and the text read.
    proof fn law_writable(v: Self::V)
        ensures
            Self::json_of(v).printable(),
            Self::json_of(v).depth_at_most(Self::levels()),
    ;
}

/// The forms of a list's elements.
pub open spec fn list_json<T: Coded>(s: Seq<T::V>) -> Seq<JsonV> {
    Seq::new(s.len(), |i: int| T::json_of(s[i]))
}

/// The values of a list; `None` where an element is none.
pub open spec fn list_of<T: Coded>(a: Seq<JsonV>) -> Option<Seq<T::V>> {
    if forall|i: int| 0 <= i < a.len() ==> T::read(#[trigger] a[i]) is Some {
        Some(Seq::new(a.len(), |i: int| T::read(a[i])->0))
    } else {
        None
    }
}

/// The values of an array.
pub open spec fn array_of<T: Coded>(j: JsonV) -> Option<Seq<T::V>> {
    match j {
        JsonV::Array(a) => list_of::<T>(a),
        _ => None,
    }
}

/// The form of a value that may be missing.
pub open spec fn opt_json<T: Coded>(o: Option<T::V>) -> JsonV {
    match o {
        Some(v) => T::json_of(v),
        None => JsonV::Null,
    }
}

/// A value that may be missing; `None` where the form is neither.
pub open spec fn opt_of<T: Coded>(j: JsonV) -> Option<Option<T::V>> {
    if j is Null {
        Some(None)
    } else {
        match T::read(j) {
            Some(v) => Some(Some(v)),
            None => None,
        }
    }
}

pub fn list_to_json<T: Coded>(v: &Vec<T>) -> (r: Json)
    ensures
        r.view() == JsonV::Array(list_json::<T>(deep(v@))),
{
    let ghost forms = list_json::<T>(deep(v@));
    let mut out: Vec<Json> = Vec::new();
    let mut i: usize = 0;
    assert(items_view(out@) =~= forms.take(0));
    while i < v.len()
        invariant
            forms == list_json::<T>(deep(v@)),
            i <= v@.len(),
            items_view(out@) == forms.take(i as int),
        decreases v@.len() - i,
    {
        let x = v[i].to_json();
        proof {
            lemma_items_push(out@, x);
            assert(deep(v@)[i as int] == v@[i as int]@);
            assert(forms.take(i + 1) =~= forms.take(i as int).push(x.view()));
        }
        out.push(x);
        i += 1;
    }
    assert(forms.take(i as int) =~= forms);
    Json::Array(out)
}

pub fn list_from_json<T: Coded>(j: &Json) -> (r: Option<Vec<T>>)
    ensures
        match r {
            Some(v) => array_of::<T>(j.view()) == Some(deep(v@)),
            None => array_of::<T>(j.view()) is None,
        },
{
    let a = match j.as_array() {
        Some(a) => a,
        None => {
            return None;
        },
    };
    proof {
        lemma_items(a@);
    }
    let ghost vs = items_view(a@);
    let mut out: Vec<T> = Vec::new();
    let mut i: usize = 0;
    while i < a.len()
        invariant
            j.view() == JsonV::Array(vs),
            vs.len() == a@.len(),
            forall|k: int| 0 <= k < a@.len() ==> #[trigger] vs[k] == a@[k].view(),
            i <= a@.len(),
            deep(out@).len() == i,
            forall|k: int| 0 <= k < i ==> T::read(#[trigger] vs[k]) == Some(deep(out@)[k]),
        decreases a@.len() - i,
    {
        match T::from_json(&a[i]) {
            Some(w) => {
                assert(T::read(vs[i as int]) == Some(w@));
                out.push(w);
            },
            None => {
                assert(!(T::read(vs[i as int]) is Some));
                return None;
            },
        }
        i += 1;
    }
    assert(list_of::<T>(vs) is Some);
    assert(list_of::<T>(vs)->0 =~= deep(out@));
    Some(out)
}

pub fn opt_to_json<T: Coded>(o: &Option<T>) -> (r: Json)
    ensures
        r.view() == opt_json::<T>(opt(*o)),
{
    match o {
        Some(v) => v.to_json(),
        None => Json::Null,
    }
}

pub fn opt_from_json<T: Coded>(j: &Json) -> (r: Option<Option<T>>)
    ensures
        match r {
            Some(o) => opt_of::<T>(j.view()) == Some(opt(o)),
            None => opt_of::<T>(j.view()) is None,
        },
{
    match j {
        Json::Null => Some(None),
        _ => match T::from_json(j) {
            Some(v) => Some(Some(v)),
            None => None,
        },
    }
}

/// A form that nests no deeper than `n` levels nests no deeper than more.
pub proof fn lemma_depth_grows(j: JsonV, n: nat, m: nat)
    requires
        j.depth_at_most(n),
        n <= m,
    ensures
        j.depth_at_most(m),
    decreases n,
{
    match j {
        JsonV::Array(a) => {
            assert forall|i: int| 0 <= i < a.len() implies (#[trigger] a[i]).depth_at_most(
                (m - 1) as nat,
            ) by {
                assert(a[i].depth_at_most((n - 1) as nat));
                lemma_depth_grows(a[i], (n - 1) as nat, (m - 1) as nat);
            }
        },
        JsonV::Object(o) => {
            assert forall|k: Seq<char>| #[trigger] o.dom().contains(k) implies o[k].depth_at_most(
                (m - 1) as nat,
            ) by {
                assert(o[k].depth_at_most((n - 1) as nat));
                lemma_depth_grows(o[k], (n - 1) as nat, (m - 1) as nat);
            }
        },
        _ => {},
    }
}

/// Reading a written list gives the list back.
pub proof fn law_list_roundtrip<T: Coded>(s: Seq<T::V>)
    ensures
        array_of::<T>(JsonV::Array(list_json::<T>(s))) == Some(s),
        JsonV::Array(list_json::<T>(s)).printable(),
        JsonV::Array(list_json::<T>(s)).depth_at_most(T::levels() + 1),
{
    let forms = list_json::<T>(s);
    assert forall|i: int| 0 <= i < forms.len() implies {
        &&& T::read(#[trigger] forms[i]) == Some(s[i])
        &&& forms[i].printable()
        &&& forms[i].depth_at_most(T::levels())
    } by {
        T::law_roundtrip(s[i]);
        T::law_writable(s[i]);
    }
    let j = JsonV::Array(forms);
    assert(j->Array_0 == forms);
    assert(list_of::<T>(forms)->0 =~= s);
}

/// Reading a written optional value gives it back, for a value whose form is never
/// `null`.
pub proof fn law_opt_roundtrip<T: Coded>(o: Option<T::V>)
    requires
        o matches Some(v) ==> !(T::json_of(v) is Null),
    ensures
        opt_of::<T>(opt_json::<T>(o)) == Some(o),
        opt_json::<T>(o).printable(),
        opt_json::<T>(o).depth_at_most(T::levels()),
{
    if let Some(v) = o {
        T::law_roundtrip(v);
        T::law_writable(v);
    }
}

// ── Workers and plans ──

pub open spec fn worker_spec_json(w: WorkerSpecView) -> JsonV {
    JsonV::Object(
        map![
            "id"@ => JsonV::Str(w.id),
            "model"@ => JsonV::Str(w.model),
            "prompt"@ => JsonV::Str(w.prompt),
            "see_prior"@ => see_prior_json(w.see_prior),
        ],
    )
}

/// The error of a member that is there and is not a string.
pub open spec fn text_fault(j: JsonV, key: Seq<char>) -> Option<Seq<char>> {
    match j.get(key) {
        Some(v) => if v is Str { None } else { Some(mismatch(v, "a string"@)) },
        None => None,
    }
}

pub open spec fn no_see_prior() -> Seq<char> {
    "data did not match any variant of untagged enum SeePrior"@
}

/// A worker as an object: members that are there must have their type; then those
/// that must be there are looked for. `see_prior` may be left out.
pub open spec fn worker_of_object(j: JsonV) -> Result<WorkerSpecView, Seq<char>> {
    match (text_fault(j, "id"@), text_fault(j, "model"@), text_fault(j, "prompt"@)) {
        (Some(e), _, _) => Err(e),
        (None, Some(e), _) => Err(e),
        (None, None, Some(e)) => Err(e),
        (None, None, None) => {
            let see = match j.get("see_prior"@) {
                Some(v) => see_prior_of(v),
                None => Some(SeePriorView::Keyword(SeePriorKeyword::All)),
            };
            if see is None {
                Err(no_see_prior())
            } else if j.get("id"@) is None {
                Err(missing_field("id"@))
            } else if j.get("model"@) is None {
                Err(missing_field("model"@))
            } else if j.get("prompt"@) is None {
                Err(missing_field("prompt"@))
            } else {
                Ok(
                    WorkerSpecView {
                        id: j.get("id"@)->0->Str_0,
                        model: j.get("model"@)->0->Str_0,
                        prompt: j.get("prompt"@)->0->Str_0,
                        see_prior: see->0,
                    },
                )
            }
        },
    }
}

/// The error of an array that ends too soon, or holds something other than a
/// string at `i`.
pub open spec fn element_fault(a: Seq<JsonV>, i: int) -> Option<Seq<char>> {
    if i >= a.len() {
        Some("invalid length "@ + dec(i as nat) + ", expected struct WorkerSpec with 4 elements"@)
    } else if a[i] is Str {
        None
    } else {
        Some(mismatch(a[i], "a string"@))
    }
}

/// A worker as an array of its fields in order, the last of which may be left out.
pub open spec fn worker_of_array(a: Seq<JsonV>) -> Result<WorkerSpecView, Seq<char>> {
    match (element_fault(a, 0), element_fault(a, 1), element_fault(a, 2)) {
        (Some(e), _, _) => Err(e),
        (None, Some(e), _) => Err(e),
        (None, None, Some(e)) => Err(e),
        (None, None, None) => {
            let see = if a.len() > 3 {
                see_prior_of(a[3])
            } else {
                Some(SeePriorView::Keyword(SeePriorKeyword::All))
            };
            if see is None {
                Err(no_see_prior())
            } else if a.len() > 4 {
                Err("invalid length "@ + dec(a.len()) + ", expected fewer elements in array"@)
            } else {
                Ok(
                    WorkerSpecView {
                        id: a[0]->Str_0,
                        model: a[1]->Str_0,
                        prompt: a[2]->Str_0,
                        see_prior: see->0,
                    },
                )
            }
        },
    }
}

/// What a value says of a worker, or why it says nothing.
pub open spec fn worker_spec_of(j: JsonV) -> Result<WorkerSpecView, Seq<char>> {
    match j {
        JsonV::Object(_) => worker_of_object(j),
        JsonV::Array(a) => worker_of_array(a),
        _ => Err(mismatch(j, "struct WorkerSpec"@)),
    }
}

pub fn worker_spec_to_json(w: &WorkerSpec) -> (r: Json)
    ensures
        r.view() == worker_spec_json(w@),
{
    let mut m: Vec<(String, Json)> = Vec::new();
    put(&mut m, "id", text_json(w.id.as_str()));
    put(&mut m, "model", text_json(w.model.as_str()));
    put(&mut m, "prompt", text_json(w.prompt.as_str()));
    put(&mut m, "see_prior", see_prior_to_json(&w.see_prior));
    Json::Object(m)
}

fn text_fault_of(j: &Json, key: &str) -> (r: Option<String>)
    ensures
        match r {
            Some(e) => text_fault(j.view(), key@) == Some(e@),
            None => text_fault(j.view(), key@) is None,
        },
{
    match j.get(key) {
        Some(v) => match v {
            Json::Str(_) => None,
            _ => Some(mismatch_text(v, "a string")),
        },
        None => None,
    }
}

fn worker_from_object(j: &Json) -> (r: Result<WorkerSpec, String>)
    requires
        j is Object,
    ensures
        match r {
            Ok(w) => worker_of_object(j.view()) == Ok::<WorkerSpecView, Seq<char>>(w@),
            Err(e) => worker_of_object(j.view()) == Err::<WorkerSpecView, Seq<char>>(e@),
        },
{
    if let Some(e) = text_fault_of(j, "id") {
        return Err(e);
    }
    if let Some(e) = text_fault_of(j, "model") {
        return Err(e);
    }
    if let Some(e) = text_fault_of(j, "prompt") {
        return Err(e);
    }
    let see_prior = match j.get("see_prior") {
        Some(v) => match see_prior_from_json(v) {
            Some(s) => s,
            None => {
                return Err("data did not match any variant of untagged enum SeePrior".to_owned());
            },
        },
        None => SeePrior::default(),
    };
    let id = match j.get_str("id") {
        Some(s) => s.to_owned(),
        None => {
            return Err(missing_field_text("id"));
        },
    };
    let model = match j.get_str("model") {
        Some(s) => s.to_owned(),
        None => {
            return Err(missing_field_text("model"));
        },
    };
    let prompt = match j.get_str("prompt") {
        Some(s) => s.to_owned(),
        None => {
            return Err(missing_field_text("prompt"));
        },
    };
    Ok(WorkerSpec { id, model, prompt, see_prior })
}

fn element_text(a: &Vec<Json>, i: usize) -> (r: Result<String, String>)
    ensures
        match r {
            Ok(s) => element_fault(items_view(a@), i as int) is None && i < a@.len()
                && items_view(a@)[i as int] == JsonV::Str(s@),
            Err(e) => element_fault(items_view(a@), i as int) == Some(e@),
        },
{
    proof {
        lemma_items(a@);
    }
    if i >= a.len() {
        let mut s = "invalid length ".to_owned();
        s.append(decimal(i as u128).as_str());
        s.append(", expected struct WorkerSpec with 4 elements");
        return Err(s);
    }
    match a[i].as_str() {
        Some(s) => Ok(s.to_owned()),
        None => Err(mismatch_text(&a[i], "a string")),
    }
}

fn worker_from_array(a: &Vec<Json>) -> (r: Result<WorkerSpec, String>)
    ensures
        match r {
            Ok(w) => worker_of_array(items_view(a@)) == Ok::<WorkerSpecView, Seq<char>>(w@),
            Err(e) => worker_of_array(items_view(a@)) == Err::<WorkerSpecView, Seq<char>>(e@),
        },
{
    proof {
        lemma_items(a@);
    }
    let id = match element_text(a, 0) {
        Ok(s) => s,
        Err(e) => {
            return Err(e);
        },
    };
    let model = match element_text(a, 1) {
        Ok(s) => s,
        Err(e) => {
            return Err(e);
        },
    };
    let prompt = match element_text(a, 2) {
        Ok(s) => s,
        Err(e) => {
            return Err(e);
        },
    };
    let see_prior = if a.len() > 3 {
        match see_prior_from_json(&a[3]) {
            Some(s) => s,
            None => {
                return Err("data did not match any variant of untagged enum SeePrior".to_owned());
            },
        }
    } else {
        SeePrior::default()
    };
    if a.len() > 4 {
        let mut s = "invalid length ".to_owned();
        s.append(decimal(a.len() as u128).as_str());
        s.append(", expected fewer elements in array");
        return Err(s);
    }
    Ok(WorkerSpec { id, model, prompt, see_prior })
}

pub fn worker_spec_from_json(j: &Json) -> (r: Result<WorkerSpec, String>)
    ensures
        match r {
            Ok(w) => worker_spec_of(j.view()) == Ok::<WorkerSpecView, Seq<char>>(w@),
            Err(e) => worker_spec_of(j.view()) == Err::<WorkerSpecView, Seq<char>>(e@),
        },
{
    match j {
        Json::Object(_) => worker_from_object(j),
        Json::Array(a) => worker_from_array(a),
        _ => Err(mismatch_text(j, "struct WorkerSpec")),
    }
}

/// Reading a written worker gives the worker back.
pub proof fn law_worker_spec_roundtrip(w: WorkerSpecView)
    ensures
        worker_spec_of(worker_spec_json(w)) == Ok::<WorkerSpecView, Seq<char>>(w),
{
    reveal_strlit("id");
    reveal_strlit("model");
    reveal_strlit("prompt");
    reveal_strlit("see_prior");
    law_see_prior_roundtrip(w.see_prior);
    let j = worker_spec_json(w);
    assert("id"@.len() == 2 && "model"@.len() == 5 && "prompt"@.len() == 6
        && "see_prior"@.len() == 9);
    assert(j.get("id"@) == Some(JsonV::Str(w.id)));
    assert(j.get("model"@) == Some(JsonV::Str(w.model)));
    assert(j.get("prompt"@) == Some(JsonV::Str(w.prompt)));
    assert(j.get("see_prior"@) == Some(see_prior_json(w.see_prior)));
}

impl Coded for WorkerSpec {
    open spec fn levels() -> nat {
        2
    }

    open spec fn json_of(v: WorkerSpecView) -> JsonV {
        worker_spec_json(v)
    }

    open spec fn read(j: JsonV) -> Option<WorkerSpecView> {
        match worker_spec_of(j) {
            Ok(w) => Some(w),
            Err(_) => None,
        }
    }

    fn to_json(&self) -> (r: Json) {
        worker_spec_to_json(self)
    }

    fn from_json(j: &Json) -> (r: Option<Self>) {
        match worker_spec_from_json(j) {
            Ok(w) => Some(w),
            Err(_) => None,
        }
    }

    proof fn law_roundtrip(v: WorkerSpecView) {
        law_worker_spec_roundtrip(v);
    }

    proof fn law_writable(v: WorkerSpecView) {
        lemma_see_prior_writable(v.see_prior);
        let j = worker_spec_json(v);
        assert forall|k: Seq<char>| #[trigger] j->Object_0.dom().contains(k) implies {
            &&& j->Object_0[k].printable()
            &&& j->Object_0[k].depth_at_most(1)
        } by {}
    }
}

pub open spec fn plan_json(p: PlanView) -> JsonV {
    JsonV::Object(
        map![
            "version"@ => JsonV::Int(p.version as int),
            "reasoning"@ => JsonV::Str(p.reasoning),
            "workers"@ => JsonV::Array(list_json::<WorkerSpec>(p.workers)),
        ],
    )
}

pub open spec fn plan_of(j: JsonV) -> Option<PlanView> {
    match (
        u32_member(j, "version"@, 0),
        text_member(j, "reasoning"@, 1),
        member(j, "workers"@, 2),
    ) {
        (Some(version), Some(reasoning), Some(ws)) => match array_of::<WorkerSpec>(ws) {
            Some(workers) if shaped(j, 3) => Some(PlanView { version, reasoning, workers }),
            _ => None,
        },
        _ => None,
    }
}

impl Coded for Plan {
    open spec fn levels() -> nat {
        4
    }

    open spec fn json_of(v: PlanView) -> JsonV {
        plan_json(v)
    }

    open spec fn read(j: JsonV) -> Option<PlanView> {
        plan_of(j)
    }

    fn to_json(&self) -> (r: Json) {
        let mut m: Vec<(String, Json)> = Vec::new();
        put(&mut m, "version", Json::PosInt(self.version as u64));
        put(&mut m, "reasoning", text_json(self.reasoning.as_str()));
        put(&mut m, "workers", list_to_json(&self.workers));
        assert(members_view(m@) =~= plan_json(self@)->Object_0);
        Json::Object(m)
    }

    fn from_json(j: &Json) -> (r: Option<Self>) {
        if !is_shaped(j, 3) {
            return None;
        }
        match (get_u32(j, "version", 0), get_text(j, "reasoning", 1), get_member(j, "workers", 2)) {
            (Some(version), Some(reasoning), Some(ws)) => match list_from_json::<WorkerSpec>(ws) {
                Some(workers) => Some(Plan { version, reasoning, workers }),
                None => None,
            },
            _ => None,
        }
    }

    proof fn law_roundtrip(v: PlanView) {
        reveal_strlit("version");
        reveal_strlit("reasoning");
        reveal_strlit("workers");
        law_list_roundtrip::<WorkerSpec>(v.workers);
        let j = plan_json(v);
        assert("version"@.len() == 7 && "reasoning"@.len() == 9 && "workers"@.len() == 7);
        assert("version"@[0] != "workers"@[0]);
        assert(j.get("version"@) == Some(JsonV::Int(v.version as int)));
        assert(j.get("reasoning"@) == Some(JsonV::Str(v.reasoning)));
        assert(j.get("workers"@) == Some(JsonV::Array(list_json::<WorkerSpec>(v.workers))));
    }

    proof fn law_writable(v: PlanView) {
        law_list_roundtrip::<WorkerSpec>(v.workers);
        let j = plan_json(v);
        assert forall|k: Seq<char>| #[trigger] j->Object_0.dom().contains(k) implies {
            &&& j->Object_0[k].printable()
            &&& j->Object_0[k].depth_at_most(3)
        } by {}
    }
}

// ── Results ──

pub open spec fn worker_status_json(s: WorkerStatusView) -> JsonV {
    let tagged = Map::empty().insert("kind"@, JsonV::Str(status_label_of(s)));
    match s {
        WorkerStatusView::ToolError { message } => JsonV::Object(
            tagged.insert("message"@, JsonV::Str(message)),
        ),
        WorkerStatusView::LlmError { message } => JsonV::Object(
            tagged.insert("message"@, JsonV::Str(message)),
        ),
        _ => JsonV::Object(tagged),
    }
}

/// A status by its tag. The tag and the message may also stand in an array, which
/// then holds nothing else.
pub open spec fn worker_status_of(j: JsonV) -> Option<WorkerStatusView> {
    match text_member(j, "kind"@, 0) {
        Some(kind) => if kind == "ok"@ && fields_only(j, 1) {
            Some(WorkerStatusView::Completed)
        } else if kind == "max_iterations"@ && fields_only(j, 1) {
            Some(WorkerStatusView::MaxIterations)
        } else if kind == "cancelled"@ && fields_only(j, 1) {
            Some(WorkerStatusView::Cancelled)
        } else {
            match text_member(j, "message"@, 1) {
                Some(message) => if kind == "tool_error"@ && fields_only(j, 2) {
                    Some(WorkerStatusView::ToolError { message })
                } else if kind == "llm_error"@ && fields_only(j, 2) {
                    Some(WorkerStatusView::LlmError { message })
                } else {
                    None
                },
                None => None,
            }
        },
        None => None,
    }
}

/// An object, or an array of exactly `n` elements.
pub open spec fn fields_only(j: JsonV, n: int) -> bool {
    j matches JsonV::Array(a) ==> a.len() == n
}

fn has_fields_only(j: &Json, n: usize) -> (r: bool)
    ensures
        r == fields_only(j.view(), n as int),
{
    match j {
        Json::Array(a) => {
            proof {
                lemma_items(a@);
            }
            a.len() == n
        },
        _ => true,
    }
}

proof fn lemma_status_labels()
    ensures
        "ok"@.len() == 2,
        "max_iterations"@.len() == 14,
        "tool_error"@.len() == 10,
        "llm_error"@.len() == 9,
        "cancelled"@.len() == 9,
        "llm_error"@ != "cancelled"@,
        "kind"@ != "message"@,
{
    reveal_strlit("ok");
    reveal_strlit("max_iterations");
    reveal_strlit("tool_error");
    reveal_strlit("llm_error");
    reveal_strlit("cancelled");
    reveal_strlit("kind");
    reveal_strlit("message");
    assert("llm_error"@[0] != "cancelled"@[0]);
    assert("kind"@.len() != "message"@.len());
}

impl Coded for WorkerStatus {
    open spec fn levels() -> nat {
        1
    }

    open spec fn json_of(v: WorkerStatusView) -> JsonV {
        worker_status_json(v)
    }

    open spec fn read(j: JsonV) -> Option<WorkerStatusView> {
        worker_status_of(j)
    }

    fn to_json(&self) -> (r: Json) {
        let mut m: Vec<(String, Json)> = Vec::new();
        put(&mut m, "kind", text_json(status_label(self)));
        match self {
            WorkerStatus::ToolError { message } => {
                put(&mut m, "message", text_json(message.as_str()));
            },
            WorkerStatus::LlmError { message } => {
                put(&mut m, "message", text_json(message.as_str()));
            },
            _ => {},
        }
        assert(members_view(m@) =~= worker_status_json(self@)->Object_0);
        assert(Self::json_of(self@) == worker_status_json(self@));
        Json::Object(m)
    }

    fn from_json(j: &Json) -> (r: Option<Self>) {
        let kind = match get_text(j, "kind", 0) {
            Some(k) => k,
            None => {
                return None;
            },
        };
        if same_text(kind.as_str(), "ok") && has_fields_only(j, 1) {
            return Some(WorkerStatus::Completed);
        }
        if same_text(kind.as_str(), "max_iterations") && has_fields_only(j, 1) {
            return Some(WorkerStatus::MaxIterations);
        }
        if same_text(kind.as_str(), "cancelled") && has_fields_only(j, 1) {
            return Some(WorkerStatus::Cancelled);
        }
        match get_text(j, "message", 1) {
            Some(message) => if same_text(kind.as_str(), "tool_error") && has_fields_only(j, 2) {
                Some(WorkerStatus::ToolError { message })
            } else if same_text(kind.as_str(), "llm_error") && has_fields_only(j, 2) {
                Some(WorkerStatus::LlmError { message })
            } else {
                None
            },
            None => None,
        }
    }

    proof fn law_roundtrip(v: WorkerStatusView) {
        lemma_status_labels();
        let j = worker_status_json(v);
        assert(j.get("kind"@) == Some(JsonV::Str(status_label_of(v))));
        match v {
            WorkerStatusView::ToolError { message } => {
                assert(j.get("message"@) == Some(JsonV::Str(message)));
            },
            WorkerStatusView::LlmError { message } => {
                assert(j.get("message"@) == Some(JsonV::Str(message)));
            },
            _ => {},
        }
    }

    proof fn law_writable(v: WorkerStatusView) {
        let j = worker_status_json(v);
        assert forall|k: Seq<char>| #[trigger] j->Object_0.dom().contains(k) implies {
            &&& j->Object_0[k].printable()
            &&& j->Object_0[k].depth_at_most(0)
        } by {}
    }
}

pub open spec fn worker_result_json(w: WorkerResultView) -> JsonV {
    JsonV::Object(
        map![
            "id"@ => JsonV::Str(w.id),
            "model"@ => JsonV::Str(w.model),
            "prompt"@ => JsonV::Str(w.prompt),
            "summary"@ => JsonV::Str(w.summary),
            "tool_count"@ => JsonV::Int(w.tool_count as int),
            "cost_cents"@ => JsonV::Int(w.cost_cents as int),
            "status"@ => worker_status_json(w.status),
        ],
    )
}

pub open spec fn worker_result_of(j: JsonV) -> Option<WorkerResultView> {
    match (
        text_member(j, "id"@, 0),
        text_member(j, "model"@, 1),
        text_member(j, "prompt"@, 2),
        text_member(j, "summary"@, 3),
        u32_member(j, "tool_count"@, 4),
        u32_member(j, "cost_cents"@, 5),
        member(j, "status"@, 6),
    ) {
        (
            Some(id),
            Some(model),
            Some(prompt),
            Some(summary),
            Some(tool_count),
            Some(cost_cents),
            Some(st),
        ) => match worker_status_of(st) {
            Some(status) if shaped(j, 7) => Some(
                WorkerResultView { id, model, prompt, summary, tool_count, cost_cents, status },
            ),
            _ => None,
        },
        _ => None,
    }
}

impl Coded for WorkerResult {
    open spec fn levels() -> nat {
        2
    }

    open spec fn json_of(v: WorkerResultView) -> JsonV {
        worker_result_json(v)
    }

    open spec fn read(j: JsonV) -> Option<WorkerResultView> {
        worker_result_of(j)
    }

    fn to_json(&self) -> (r: Json) {
        let mut m: Vec<(String, Json)> = Vec::new();
        put(&mut m, "id", text_json(self.id.as_str()));
        put(&mut m, "model", text_json(self.model.as_str()));
        put(&mut m, "prompt", text_json(self.prompt.as_str()));
        put(&mut m, "summary", text_json(self.summary.as_str()));
        put(&mut m, "tool_count", Json::PosInt(self.tool_count as u64));
        put(&mut m, "cost_cents", Json::PosInt(self.cost_cents as u64));
        put(&mut m, "status", self.status.to_json());
        assert(members_view(m@) =~= worker_result_json(self@)->Object_0);
        Json::Object(m)
    }

    fn from_json(j: &Json) -> (r: Option<Self>) {
        if !is_shaped(j, 7) {
            return None;
        }
        match (
            get_text(j, "id", 0),
            get_text(j, "model", 1),
            get_text(j, "prompt", 2),
            get_text(j, "summary", 3),
            get_u32(j, "tool_count", 4),
            get_u32(j, "cost_cents", 5),
            get_member(j, "status", 6),
        ) {
            (
                Some(id),
                Some(model),
                Some(prompt),
                Some(summary),
                Some(tool_count),
                Some(cost_cents),
                Some(st),
            ) => match WorkerStatus::from_json(st) {
                Some(status) => Some(
                    WorkerResult { id, model, prompt, summary, tool_count, cost_cents, status },
                ),
                None => None,
            },
            _ => None,
        }
    }

    proof fn law_roundtrip(v: WorkerResultView) {
        reveal_strlit("id");
        reveal_strlit("model");
        reveal_strlit("prompt");
        reveal_strlit("summary");
        reveal_strlit("tool_count");
        reveal_strlit("cost_cents");
        reveal_strlit("status");
        WorkerStatus::law_roundtrip(v.status);
        let j = worker_result_json(v);
        assert("id"@.len() == 2 && "model"@.len() == 5 && "prompt"@.len() == 6 && "summary"@.len()
            == 7 && "tool_count"@.len() == 10 && "cost_cents"@.len() == 10 && "status"@.len() == 6);
        assert("prompt"@[0] != "status"@[0] && "tool_count"@[0] != "cost_cents"@[0]);
        assert(j.get("id"@) == Some(JsonV::Str(v.id)));
        assert(j.get("model"@) == Some(JsonV::Str(v.model)));
        assert(j.get("prompt"@) == Some(JsonV::Str(v.prompt)));
        assert(j.get("summary"@) == Some(JsonV::Str(v.summary)));
        assert(j.get("tool_count"@) == Some(JsonV::Int(v.tool_count as int)));
        assert(j.get("cost_cents"@) == Some(JsonV::Int(v.cost_cents as int)));
        assert(j.get("status"@) == Some(worker_status_json(v.status)));
    }

    proof fn law_writable(v: WorkerResultView) {
        WorkerStatus::law_writable(v.status);
        let j = worker_result_json(v);
        assert forall|k: Seq<char>| #[trigger] j->Object_0.dom().contains(k) implies {
            &&& j->Object_0[k].printable()
            &&& j->Object_0[k].depth_at_most(1)
        } by {}
    }
}

pub open spec fn failure_json(f: WorkerFailureContextView) -> JsonV {
    JsonV::Object(
        map![
            "worker_id"@ => JsonV::Str(f.worker_id),
            "worker_model"@ => JsonV::Str(f.worker_model),
            "worker_prompt"@ => JsonV::Str(f.worker_prompt),
            "error_message"@ => JsonV::Str(f.error_message),
        ],
    )
}

pub open spec fn failure_from(j: JsonV) -> Option<WorkerFailureContextView> {
    match (
        text_member(j, "worker_id"@, 0),
        text_member(j, "worker_model"@, 1),
        text_member(j, "worker_prompt"@, 2),
        text_member(j, "error_message"@, 3),
    ) {
        (Some(worker_id), Some(worker_model), Some(worker_prompt), Some(error_message)) => if shaped(
            j,
            4,
        ) {
            Some(WorkerFailureContextView { worker_id, worker_model, worker_prompt, error_message })
        } else {
            None
        },
        _ => None,
    }
}

impl Coded for WorkerFailureContext {
    open spec fn levels() -> nat {
        1
    }

    open spec fn json_of(v: WorkerFailureContextView) -> JsonV {
        failure_json(v)
    }

    open spec fn read(j: JsonV) -> Option<WorkerFailureContextView> {
        failure_from(j)
    }

    fn to_json(&self) -> (r: Json) {
        let mut m: Vec<(String, Json)> = Vec::new();
        put(&mut m, "worker_id", text_json(self.worker_id.as_str()));
        put(&mut m, "worker_model", text_json(self.worker_model.as_str()));
        put(&mut m, "worker_prompt", text_json(self.worker_prompt.as_str()));
        put(&mut m, "error_message", text_json(self.error_message.as_str()));
        assert(members_view(m@) =~= failure_json(self@)->Object_0);
        Json::Object(m)
    }

    fn from_json(j: &Json) -> (r: Option<Self>) {
        if !is_shaped(j, 4) {
            return None;
        }
        match (
            get_text(j, "worker_id", 0),
            get_text(j, "worker_model", 1),
            get_text(j, "worker_prompt", 2),
            get_text(j, "error_message", 3),
        ) {
            (Some(worker_id), Some(worker_model), Some(worker_prompt), Some(error_message)) => Some(
                WorkerFailureContext { worker_id, worker_model, worker_prompt, error_message },
            ),
            _ => None,
        }
    }

    proof fn law_roundtrip(v: WorkerFailureContextView) {
        reveal_strlit("worker_id");
        reveal_strlit("worker_model");
        reveal_strlit("worker_prompt");
        reveal_strlit("error_message");
        let j = failure_json(v);
        assert("worker_id"@.len() == 9 && "worker_model"@.len() == 12 && "worker_prompt"@.len() == 13
            && "error_message"@.len() == 13);
        assert("worker_prompt"@[0] != "error_message"@[0]);
        assert(j.get("worker_id"@) == Some(JsonV::Str(v.worker_id)));
        assert(j.get("worker_model"@) == Some(JsonV::Str(v.worker_model)));
        assert(j.get("worker_prompt"@) == Some(JsonV::Str(v.worker_prompt)));
        assert(j.get("error_message"@) == Some(JsonV::Str(v.error_message)));
    }

    proof fn law_writable(v: WorkerFailureContextView) {
        let j = failure_json(v);
        assert forall|k: Seq<char>| #[trigger] j->Object_0.dom().contains(k) implies {
            &&& j->Object_0[k].printable()
            &&& j->Object_0[k].depth_at_most(0)
        } by {}
    }
}

// ── The status of a run ──

pub open spec fn auto_status_text(s: AutoStatus) -> Seq<char> {
    match s {
        AutoStatus::Planning => "planning"@,
        AutoStatus::AwaitingApproval => "awaiting_approval"@,
        AutoStatus::Running => "running"@,
        AutoStatus::AwaitingFailureDecision => "awaiting_failure_decision"@,
        AutoStatus::Done => "done"@,
        AutoStatus::Failed => "failed"@,
        AutoStatus::Cancelled => "cancelled"@,
    }
}

pub open spec fn auto_status_of(s: Seq<char>) -> Option<AutoStatus> {
    if s == "planning"@ {
        Some(AutoStatus::Planning)
    } else if s == "awaiting_approval"@ {
        Some(AutoStatus::AwaitingApproval)
    } else if s == "running"@ {
        Some(AutoStatus::Running)
    } else if s == "awaiting_failure_decision"@ {
        Some(AutoStatus::AwaitingFailureDecision)
    } else if s == "done"@ {
        Some(AutoStatus::Done)
    } else if s == "failed"@ {
        Some(AutoStatus::Failed)
    } else if s == "cancelled"@ {
        Some(AutoStatus::Cancelled)
    } else {
        None
    }
}

pub fn auto_status_to_text(s: AutoStatus) -> (r: &'static str)
    ensures
        r@ == auto_status_text(s),
{
    match s {
        AutoStatus::Planning => "planning",
        AutoStatus::AwaitingApproval => "awaiting_approval",
        AutoStatus::Running => "running",
        AutoStatus::AwaitingFailureDecision => "awaiting_failure_decision",
        AutoStatus::Done => "done",
        AutoStatus::Failed => "failed",
        AutoStatus::Cancelled => "cancelled",
    }
}

pub fn auto_status_from_text(s: &str) -> (r: Option<AutoStatus>)
    ensures
        r == auto_status_of(s@),
{
    if same_text(s, "planning") {
        Some(AutoStatus::Planning)
    } else if same_text(s, "awaiting_approval") {
        Some(AutoStatus::AwaitingApproval)
    } else if same_text(s, "running") {
        Some(AutoStatus::Running)
    } else if same_text(s, "awaiting_failure_decision") {
        Some(AutoStatus::AwaitingFailureDecision)
    } else if same_text(s, "done") {
        Some(AutoStatus::Done)
    } else if same_text(s, "failed") {
        Some(AutoStatus::Failed)
    } else if same_text(s, "cancelled") {
        Some(AutoStatus::Cancelled)
    } else {
        None
    }
}

/// Reading a written status gives the status back.
pub proof fn law_auto_status_roundtrip(s: AutoStatus)
    ensures
        auto_status_of(auto_status_text(s)) == Some(s),
{
    reveal_strlit("planning");
    reveal_strlit("awaiting_approval");
    reveal_strlit("running");
    reveal_strlit("awaiting_failure_decision");
    reveal_strlit("done");
    reveal_strlit("failed");
    reveal_strlit("cancelled");
    assert("planning"@.len() == 8 && "awaiting_approval"@.len() == 17 && "running"@.len() == 7
        && "awaiting_failure_decision"@.len() == 25 && "done"@.len() == 4 && "failed"@.len() == 6
        && "cancelled"@.len() == 9);
}

// ── The pool ──

pub open spec fn pool_entry_json(e: WorkerPoolEntryView) -> JsonV {
    JsonV::Object(
        map![
            "providerId"@ => JsonV::Str(e.provider_id),
            "model"@ => JsonV::Str(e.model),
            "description"@ => JsonV::Str(e.description),
        ],
    )
}

pub open spec fn pool_entry_of(j: JsonV) -> Option<WorkerPoolEntryView> {
    match (
        text_member(j, "providerId"@, 0),
        text_member(j, "model"@, 1),
        text_member(j, "description"@, 2),
    ) {
        (Some(provider_id), Some(model), Some(description)) => if shaped(j, 3) {
            Some(WorkerPoolEntryView { provider_id, model, description })
        } else {
            None
        },
        _ => None,
    }
}

impl Coded for WorkerPoolEntry {
    open spec fn levels() -> nat {
        1
    }

    open spec fn json_of(v: WorkerPoolEntryView) -> JsonV {
        pool_entry_json(v)
    }

    open spec fn read(j: JsonV) -> Option<WorkerPoolEntryView> {
        pool_entry_of(j)
    }

    fn to_json(&self) -> (r: Json) {
        let mut m: Vec<(String, Json)> = Vec::new();
        put(&mut m, "providerId", text_json(self.provider_id.as_str()));
        put(&mut m, "model", text_json(self.model.as_str()));
        put(&mut m, "description", text_json(self.description.as_str()));
        assert(members_view(m@) =~= pool_entry_json(self@)->Object_0);
        Json::Object(m)
    }

    fn from_json(j: &Json) -> (r: Option<Self>) {
        if !is_shaped(j, 3) {
            return None;
        }
        match (get_text(j, "providerId", 0), get_text(j, "model", 1), get_text(j, "description", 2)) {
            (Some(provider_id), Some(model), Some(description)) => Some(
                WorkerPoolEntry { provider_id, model, description },
            ),
            _ => None,
        }
    }

    proof fn law_roundtrip(v: WorkerPoolEntryView) {
        reveal_strlit("providerId");
        reveal_strlit("model");
        reveal_strlit("description");
        let j = pool_entry_json(v);
        assert("providerId"@.len() == 10 && "model"@.len() == 5 && "description"@.len() == 11);
        assert(j.get("providerId"@) == Some(JsonV::Str(v.provider_id)));
        assert(j.get("model"@) == Some(JsonV::Str(v.model)));
        assert(j.get("description"@) == Some(JsonV::Str(v.description)));
    }

    proof fn law_writable(v: WorkerPoolEntryView) {
        let j = pool_entry_json(v);
        assert forall|k: Seq<char>| #[trigger] j->Object_0.dom().contains(k) implies {
            &&& j->Object_0[k].printable()
            &&& j->Object_0[k].depth_at_most(0)
        } by {}
    }
}

/// A provider and one of its models.
#[derive(Clone, Debug, PartialEq)]
pub struct ModelRef {
    pub provider_id: String,
    pub model: String,
}

/// What a [`ModelRef`] stands for.
#[verifier::ext_equal]
pub struct ModelRefView {
    pub provider_id: Seq<char>,
    pub model: Seq<char>,
}

impl View for ModelRef {
    type V = ModelRefView;

    open spec fn view(&self) -> ModelRefView {
        ModelRefView { provider_id: self.provider_id@, model: self.model@ }
    }
}

impl Dup for ModelRef {
    fn dup(&self) -> (r: Self) {
        ModelRef { provider_id: self.provider_id.clone(), model: self.model.clone() }
    }
}

pub open spec fn model_ref_json(m: ModelRefView) -> JsonV {
    JsonV::Object(
        map!["providerId"@ => JsonV::Str(m.provider_id), "model"@ => JsonV::Str(m.model)],
    )
}

pub open spec fn model_ref_of(j: JsonV) -> Option<ModelRefView> {
    match (text_member(j, "providerId"@, 0), text_member(j, "model"@, 1)) {
        (Some(provider_id), Some(model)) => if shaped(j, 2) {
            Some(ModelRefView { provider_id, model })
        } else {
            None
        },
        _ => None,
    }
}

impl Coded for ModelRef {
    open spec fn levels() -> nat {
        1
    }

    open spec fn json_of(v: ModelRefView) -> JsonV {
        model_ref_json(v)
    }

    open spec fn read(j: JsonV) -> Option<ModelRefView> {
        model_ref_of(j)
    }

    fn to_json(&self) -> (r: Json) {
        let mut m: Vec<(String, Json)> = Vec::new();
        put(&mut m, "providerId", text_json(self.provider_id.as_str()));
        put(&mut m, "model", text_json(self.model.as_str()));
        assert(members_view(m@) =~= model_ref_json(self@)->Object_0);
        Json::Object(m)
    }

    fn from_json(j: &Json) -> (r: Option<Self>) {
        if !is_shaped(j, 2) {
            return None;
        }
        match (get_text(j, "providerId", 0), get_text(j, "model", 1)) {
            (Some(provider_id), Some(model)) => Some(ModelRef { provider_id, model }),
            _ => None,
        }
    }

    proof fn law_roundtrip(v: ModelRefView) {
        reveal_strlit("providerId");
        reveal_strlit("model");
        let j = model_ref_json(v);
        assert("providerId"@.len() == 10 && "model"@.len() == 5);
        assert(j.get("providerId"@) == Some(JsonV::Str(v.provider_id)));
        assert(j.get("model"@) == Some(JsonV::Str(v.model)));
    }

    proof fn law_writable(v: ModelRefView) {
        let j = model_ref_json(v);
        assert forall|k: Seq<char>| #[trigger] j->Object_0.dom().contains(k) implies {
            &&& j->Object_0[k].printable()
            &&& j->Object_0[k].depth_at_most(0)
        } by {}
    }
}

} // verus!
