//! JSON values.

use crate::chars;
use crate::text;
use vstd::prelude::*;

verus! {

/// A JSON value. A number is kept in its own notation.
#[derive(Debug)]
pub enum Json {
    Null,
    Bool(bool),
    Number(String),
    Str(String),
    Array(Vec<Json>),
    Object(Vec<(String, Json)>),
}

/// What a JSON value holds.
pub enum JsonModel {
    Null,
    Bool(bool),
    Number(Seq<char>),
    Str(Seq<char>),
    Array(Seq<JsonModel>),
    Object(Seq<(Seq<char>, JsonModel)>),
}

pub open spec fn model(j: Json) -> JsonModel
    decreases j,
{
    match j {
        Json::Null => JsonModel::Null,
        Json::Bool(b) => JsonModel::Bool(b),
        Json::Number(n) => JsonModel::Number(n@),
        Json::Str(s) => JsonModel::Str(s@),
        Json::Array(v) => JsonModel::Array(models(v@)),
        Json::Object(v) => JsonModel::Object(fields(v@)),
    }
}

pub open spec fn models(s: Seq<Json>) -> Seq<JsonModel>
    decreases s,
{
    if s.len() == 0 {
        Seq::empty()
    } else {
        models(s.drop_last()).push(model(s.last()))
    }
}

pub open spec fn fields(s: Seq<(String, Json)>) -> Seq<(Seq<char>, JsonModel)>
    decreases s,
{
    if s.len() == 0 {
        Seq::empty()
    } else {
        fields(s.drop_last()).push((s.last().0@, model(s.last().1)))
    }
}

impl View for Json {
    type V = JsonModel;

    open spec fn view(&self) -> JsonModel {
        model(*self)
    }
}

pub fn copy(j: &Json) -> (r: Json)
    ensures
        r@ == j@,
    decreases j,
{
    match j {
        Json::Null => Json::Null,
        Json::Bool(b) => Json::Bool(*b),
        Json::Number(n) => Json::Number(n.clone()),
        Json::Str(s) => Json::Str(s.clone()),
        Json::Array(v) => {
            let mut out: Vec<Json> = Vec::new();
            let mut i: usize = 0;
            while i < v.len()
                invariant
                    i <= v@.len(),
                    *j == Json::Array(*v),
                    models(out@) == models(v@.take(i as int)),
                decreases v@.len() - i,
            {
                assert(decreases_to!(*j => j->Array_0));
                assert(decreases_to!(*v => v@));
                assert(decreases_to!(v@ => v@[i as int]));
                let ghost before = out@;
                let x = copy(&v[i]);
                out.push(x);
                i = i + 1;
                proof {
                    assert(out@.drop_last() =~= before);
                    assert(v@.take(i as int).drop_last() =~= v@.take(i - 1));
                }
            }
            assert(v@.take(i as int) =~= v@);
            Json::Array(out)
        },
        Json::Object(v) => {
            let mut out: Vec<(String, Json)> = Vec::new();
            let mut i: usize = 0;
            while i < v.len()
                invariant
                    i <= v@.len(),
                    *j == Json::Object(*v),
                    fields(out@) == fields(v@.take(i as int)),
                decreases v@.len() - i,
            {
                assert(decreases_to!(*j => j->Object_0));
                assert(decreases_to!(*v => v@));
                assert(decreases_to!(v@ => v@[i as int]));
                assert(decreases_to!(v@[i as int] => v@[i as int].1));
                let ghost before = out@;
                let x = copy(&v[i].1);
                out.push((v[i].0.clone(), x));
                i = i + 1;
                proof {
                    assert(out@.drop_last() =~= before);
                    assert(v@.take(i as int).drop_last() =~= v@.take(i - 1));
                }
            }
            assert(v@.take(i as int) =~= v@);
            Json::Object(out)
        },
    }
}

/// The value of the first field, from `i` on, with this name.
pub open spec fn field_from(
    fs: Seq<(Seq<char>, JsonModel)>,
    name: Seq<char>,
    i: int,
) -> Option<JsonModel>
    decreases fs.len() - i,
{
    if i < 0 || i >= fs.len() {
        None
    } else if fs[i].0 == name {
        Some(fs[i].1)
    } else {
        field_from(fs, name, i + 1)
    }
}

/// The field of an object; nothing else has fields.
pub open spec fn field(j: JsonModel, name: Seq<char>) -> Option<JsonModel> {
    match j {
        JsonModel::Object(fs) => field_from(fs, name, 0),
        _ => None,
    }
}

/// The field of a value that may be missing.
pub open spec fn inner(j: Option<JsonModel>, name: Seq<char>) -> Option<JsonModel> {
    match j {
        Some(v) => field(v, name),
        None => None,
    }
}

/// The characters of a string; nothing else has any.
pub open spec fn string(j: Option<JsonModel>) -> Option<Seq<char>> {
    match j {
        Some(JsonModel::Str(s)) => Some(s),
        _ => None,
    }
}

/// The items of an array; nothing else has any.
pub open spec fn items(j: Option<JsonModel>) -> Option<Seq<JsonModel>> {
    match j {
        Some(JsonModel::Array(s)) => Some(s),
        _ => None,
    }
}

/// A number without sign, fraction or exponent that fits in 64 bits.
pub open spec fn natural(j: Option<JsonModel>) -> Option<u64> {
    match j {
        Some(JsonModel::Number(n)) => if n.len() > 0 && chars::all_digits(n) && chars::value(n)
            <= u64::MAX {
            Some(chars::value(n) as u64)
        } else {
            None
        },
        _ => None,
    }
}

pub proof fn lemma_fields(s: Seq<(String, Json)>)
    ensures
        fields(s).len() == s.len(),
        forall|i: int| 0 <= i < s.len() ==> #[trigger] fields(s)[i] == (s[i].0@, model(s[i].1)),
    decreases s.len(),
{
    if s.len() > 0 {
        lemma_fields(s.drop_last());
    }
}

pub proof fn lemma_models(s: Seq<Json>)
    ensures
        models(s).len() == s.len(),
        forall|i: int| 0 <= i < s.len() ==> #[trigger] models(s)[i] == model(s[i]),
    decreases s.len(),
{
    if s.len() > 0 {
        lemma_models(s.drop_last());
    }
}

/// What a JSON value that may be missing holds.
pub open spec fn view_opt(j: Option<&Json>) -> Option<JsonModel> {
    match j {
        Some(v) => Some(v@),
        None => None,
    }
}

impl Json {
    /// The field of an object.
    pub fn get<'a>(&'a self, name: &str) -> (r: Option<&'a Json>)
        ensures
            view_opt(r) == field(self@, name@),
    {
        match self {
            Json::Object(v) => {
                let ghost fs = fields(v@);
                proof {
                    lemma_fields(v@);
                }
                let mut i: usize = 0;
                while i < v.len()
                    invariant
                        i <= v@.len(),
                        fs == fields(v@),
                        fs.len() == v@.len(),
                        forall|k: int| 0 <= k < fs.len() ==> #[trigger] fs[k] == (
                            v@[k].0@,
                            model(v@[k].1),
                        ),
                        self@ == JsonModel::Object(fs),
                        field(self@, name@) == field_from(fs, name@, i as int),
                    decreases v@.len() - i,
                {
                    assert(fs[i as int] == (v@[i as int].0@, model(v@[i as int].1)));
                    if text::same(v[i].0.as_str(), name) {
                        return Some(&v[i].1);
                    }
                    i = i + 1;
                }
                None
            },
            _ => None,
        }
    }
}

/// The field of a value that may be missing.
pub fn get_in<'a>(j: Option<&'a Json>, name: &str) -> (r: Option<&'a Json>)
    ensures
        view_opt(r) == inner(view_opt(j), name@),
{
    match j {
        Some(v) => v.get(name),
        None => None,
    }
}

/// The characters of a string.
pub fn as_str<'a>(j: Option<&'a Json>) -> (r: Option<&'a str>)
    ensures
        r.deep_view() == string(view_opt(j)),
{
    match j {
        Some(Json::Str(s)) => Some(s.as_str()),
        _ => None,
    }
}

/// The items of an array.
pub fn as_array<'a>(j: Option<&'a Json>) -> (r: Option<&'a Vec<Json>>)
    ensures
        match r {
            Some(v) => items(view_opt(j)) == Some(models(v@)),
            None => items(view_opt(j)) is None,
        },
{
    match j {
        Some(Json::Array(v)) => Some(v),
        _ => None,
    }
}

/// A number without sign, fraction or exponent that fits in 64 bits.
pub fn as_u64(j: Option<&Json>) -> (r: Option<u64>)
    ensures
        r == natural(view_opt(j)),
{
    match j {
        Some(Json::Number(n)) => {
            if text::all_digits(n.as_str()) {
                proof {
                    if n@.len() > 0 {
                        assert(chars::is_digit(n@[0]));
                    }
                }
                text::parse_dec(n.as_str(), u64::MAX)
            } else {
                None
            }
        },
        _ => None,
    }
}

/// The position of the first field, from `i` on, with this name.
pub open spec fn place_of(fs: Seq<(Seq<char>, JsonModel)>, name: Seq<char>, i: int) -> Option<int>
    decreases fs.len() - i,
{
    if i < 0 || i >= fs.len() {
        None
    } else if fs[i].0 == name {
        Some(i)
    } else {
        place_of(fs, name, i + 1)
    }
}

/// An object with a field put in, in place of the one with this name if there is one.
/// Nothing else takes fields.
pub open spec fn put(j: JsonModel, name: Seq<char>, value: JsonModel) -> JsonModel {
    match j {
        JsonModel::Object(fs) => JsonModel::Object(
            match place_of(fs, name, 0) {
                Some(i) => fs.update(i, (name, value)),
                None => fs.push((name, value)),
            },
        ),
        _ => j,
    }
}

pub fn with_field(j: Json, name: &str, value: Json) -> (r: Json)
    ensures
        r@ == put(j@, name@, value@),
{
    match j {
        Json::Object(v) => {
            let mut v = v;
            let ghost fs = fields(v@);
            let ghost whole = v@;
            proof {
                lemma_fields(v@);
            }
            let mut i: usize = 0;
            while i < v.len()
                invariant_except_break
                    place_of(fs, name@, 0) == place_of(fs, name@, i as int),
                invariant
                    i <= v@.len(),
                    v@ == whole,
                    fs == fields(v@),
                    fs.len() == v@.len(),
                    forall|k: int| 0 <= k < fs.len() ==> #[trigger] fs[k] == (
                        v@[k].0@,
                        model(v@[k].1),
                    ),
                ensures
                    i < v@.len() ==> place_of(fs, name@, 0) == Some(i as int),
                    i == v@.len() ==> place_of(fs, name@, 0) is None,
                decreases v@.len() - i,
            {
                assert(fs[i as int] == (v@[i as int].0@, model(v@[i as int].1)));
                if text::same(v[i].0.as_str(), name) {
                    break;
                }
                i = i + 1;
            }
            let ghost val = value@;
            if i < v.len() {
                v.set(i, (text::owned(name), value));
                proof {
                    lemma_fields(v@);
                    assert(fields(v@) =~= fs.update(i as int, (name@, val)));
                }
            } else {
                v.push((text::owned(name), value));
                proof {
                    assert(v@.drop_last() =~= whole);
                    assert(fields(v@) =~= fs.push((name@, val)));
                }
            }
            Json::Object(v)
        },
        other => other,
    }
}

impl Clone for Json {
    fn clone(&self) -> (r: Self)
        ensures
            r@ == self@,
    {
        copy(self)
    }
}

/// A JSON value of the crate `serde_json`.
#[verifier::external_type_specification]
#[verifier::external_body]
pub struct ExValue(serde_json::Value);

/// A `serde_json::Value` as a value of this library, variant by variant; a number in
/// the notation that `serde_json::Number` displays.
#[verifier::external_body]
fn from_value(v: serde_json::Value) -> (r: Json) {
    match v {
        serde_json::Value::Null => Json::Null,
        serde_json::Value::Bool(b) => Json::Bool(b),
        serde_json::Value::Number(n) => Json::Number(n.to_string()),
        serde_json::Value::String(s) => Json::Str(s),
        serde_json::Value::Array(a) => Json::Array(a.into_iter().map(from_value).collect()),
        serde_json::Value::Object(o) => {
            Json::Object(o.into_iter().map(|(k, x)| (k, from_value(x))).collect())
        },
    }
}

/// A value of this library as a `serde_json::Value`, variant by variant. A number in
/// a notation that is none of JSON's becomes zero.
#[verifier::external_body]
fn to_value(j: &Json) -> (r: serde_json::Value) {
    match j {
        Json::Null => serde_json::Value::Null,
        Json::Bool(b) => serde_json::Value::Bool(*b),
        Json::Number(n) => serde_json::Value::Number(n.parse().unwrap_or(0.into())),
        Json::Str(s) => serde_json::Value::String(s.clone()),
        Json::Array(a) => serde_json::Value::Array(a.iter().map(to_value).collect()),
        Json::Object(o) => {
            serde_json::Value::Object(o.iter().map(|(k, x)| (k.clone(), to_value(x))).collect())
        },
    }
}

/// The value that `serde_json::from_str` reads from a text; `None` where it fails.
pub uninterp spec fn parsed(text: Seq<char>) -> Option<JsonModel>;

/// The text that `serde_json::to_string` writes for a value.
pub uninterp spec fn rendered(j: JsonModel) -> Seq<char>;

/// `serde_json::from_str`, asked for any JSON value. What it reads is a function of
/// the text alone.
#[verifier::external_body]
pub(crate) fn parse(text: &str) -> (r: Option<Json>)
    ensures
        match r {
            Some(j) => parsed(text@) == Some(j@),
            None => parsed(text@) is None,
        },
{
    match serde_json::from_str::<serde_json::Value>(text) {
        Ok(v) => Some(from_value(v)),
        Err(_) => None,
    }
}

/// `serde_json::to_string` of a JSON value. What it writes is a function of the value
/// alone; it does not fail, as every key is a string.
#[verifier::external_body]
pub(crate) fn render(j: &Json) -> (r: String)
    ensures
        r@ == rendered(j@),
{
    serde_json::to_string(&to_value(j)).unwrap_or_default()
}

} // verus!
