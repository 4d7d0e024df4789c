//! A JSON document tree and its mathematical model.

use vstd::prelude::*;
use crate::text::str_eq;

verus! {

/// A JSON number: non-negative and negative integers exactly, any other
/// number as its decimal text.
#[derive(Debug, Clone, PartialEq, Eq)]
pub enum JsonNumber {
    PosInt(u64),
    NegInt(i64),
    Float(String),
}

/// A JSON value. An object keeps its entries in order; of two entries with
/// one key, the later one counts.
#[derive(Debug)]
pub enum Json {
    Null,
    Bool(bool),
    Number(JsonNumber),
    Str(String),
    Array(Vec<Json>),
    Object(Vec<(String, Json)>),
}

pub enum NumberModel {
    PosInt(u64),
    NegInt(i64),
    Float(Seq<char>),
}

pub enum JsonModel {
    Null,
    Bool(bool),
    Number(NumberModel),
    Str(Seq<char>),
    Array(Seq<JsonModel>),
    Object(Seq<(Seq<char>, JsonModel)>),
}

pub open spec fn number_model(n: JsonNumber) -> NumberModel {
    match n {
        JsonNumber::PosInt(u) => NumberModel::PosInt(u),
        JsonNumber::NegInt(i) => NumberModel::NegInt(i),
        JsonNumber::Float(s) => NumberModel::Float(s@),
    }
}

pub open spec fn json_model(v: Json) -> JsonModel
    decreases v,
{
    match v {
        Json::Null => JsonModel::Null,
        Json::Bool(b) => JsonModel::Bool(b),
        Json::Number(n) => JsonModel::Number(number_model(n)),
        Json::Str(s) => JsonModel::Str(s@),
        Json::Array(items) => JsonModel::Array(items_model(items@)),
        Json::Object(fs) => JsonModel::Object(fields_model(fs@)),
    }
}

pub open spec fn items_model(s: Seq<Json>) -> Seq<JsonModel>
    decreases s,
{
    if s.len() == 0 {
        Seq::empty()
    } else {
        items_model(s.subrange(0, s.len() - 1)).push(json_model(s[s.len() - 1]))
    }
}

pub open spec fn fields_model(s: Seq<(String, Json)>) -> Seq<(Seq<char>, JsonModel)>
    decreases s,
{
    if s.len() == 0 {
        Seq::empty()
    } else {
        fields_model(s.subrange(0, s.len() - 1)).push((s[s.len() - 1].0@, json_model(s[s.len() - 1].1)))
    }
}

impl View for Json {
    type V = JsonModel;

    open spec fn view(&self) -> JsonModel {
        json_model(*self)
    }
}

/// The value of the newest entry under `k`.
pub open spec fn field_of(fs: Seq<(Seq<char>, JsonModel)>, k: Seq<char>) -> Option<JsonModel>
    decreases fs.len(),
{
    if fs.len() == 0 {
        None
    } else if fs.last().0 == k {
        Some(fs.last().1)
    } else {
        field_of(fs.drop_last(), k)
    }
}

/// The entries whose key is not `k`, in their order.
pub open spec fn without_field(fs: Seq<(Seq<char>, JsonModel)>, k: Seq<char>) -> Seq<(Seq<char>, JsonModel)>
    decreases fs.len(),
{
    if fs.len() == 0 {
        fs
    } else if fs.last().0 == k {
        without_field(fs.drop_last(), k)
    } else {
        without_field(fs.drop_last(), k).push(fs.last())
    }
}

impl JsonModel {
    /// The member `k` of an object; nothing for any other value.
    pub open spec fn get(self, k: Seq<char>) -> Option<JsonModel> {
        match self {
            JsonModel::Object(fs) => field_of(fs, k),
            _ => None,
        }
    }

    /// An object with member `k` set to `v`, as its newest entry; any other
    /// value unchanged.
    pub open spec fn set(self, k: Seq<char>, v: JsonModel) -> JsonModel {
        match self {
            JsonModel::Object(fs) => JsonModel::Object(without_field(fs, k).push((k, v))),
            _ => self,
        }
    }

    /// An object without member `k`; any other value unchanged.
    pub open spec fn remove(self, k: Seq<char>) -> JsonModel {
        match self {
            JsonModel::Object(fs) => JsonModel::Object(without_field(fs, k)),
            _ => self,
        }
    }

    pub open spec fn is_object(self) -> bool {
        self is Object
    }

    /// The text of a string value.
    pub open spec fn as_str(self) -> Option<Seq<char>> {
        match self {
            JsonModel::Str(s) => Some(s),
            _ => None,
        }
    }
}

pub proof fn lemma_field_of_without(fs: Seq<(Seq<char>, JsonModel)>, k: Seq<char>, k2: Seq<char>)
    ensures
        field_of(without_field(fs, k), k2) == if k2 == k { None } else { field_of(fs, k2) },
    decreases fs.len(),
{
    if fs.len() > 0 {
        lemma_field_of_without(fs.drop_last(), k, k2);
        if fs.last().0 != k {
            assert(without_field(fs, k).drop_last() =~= without_field(fs.drop_last(), k));
        }
    }
}

/// Setting a member is seen by `get` on that key and on no other.
pub proof fn lemma_get_set(v: JsonModel, k: Seq<char>, x: JsonModel, k2: Seq<char>)
    requires
        v.is_object(),
    ensures
        v.set(k, x).get(k2) == if k2 == k { Some(x) } else { v.get(k2) },
        v.set(k, x).is_object(),
{
    if let JsonModel::Object(fs) = v {
        lemma_field_of_without(fs, k, k2);
        assert(without_field(fs, k).push((k, x)).drop_last() =~= without_field(fs, k));
    }
}

pub proof fn lemma_items_model_len(s: Seq<Json>)
    ensures
        items_model(s).len() == s.len(),
    decreases s.len(),
{
    if s.len() > 0 {
        lemma_items_model_len(s.subrange(0, s.len() - 1));
    }
}

pub proof fn lemma_items_model_index(s: Seq<Json>, i: int)
    requires
        0 <= i < s.len(),
    ensures
        items_model(s).len() == s.len(),
        items_model(s)[i] == json_model(s[i]),
    decreases s.len(),
{
    lemma_items_model_len(s);
    if i < s.len() - 1 {
        lemma_items_model_index(s.subrange(0, s.len() - 1), i);
    }
}

pub proof fn lemma_items_model_push(s: Seq<Json>, x: Json)
    ensures
        items_model(s.push(x)) == items_model(s).push(json_model(x)),
{
    assert(s.push(x).subrange(0, s.len() as int) =~= s);
}

pub proof fn lemma_fields_model_push(s: Seq<(String, Json)>, x: (String, Json))
    ensures
        fields_model(s.push(x)) == fields_model(s).push((x.0@, json_model(x.1))),
{
    assert(s.push(x).subrange(0, s.len() as int) =~= s);
}

pub proof fn lemma_fields_model_len(s: Seq<(String, Json)>)
    ensures
        fields_model(s).len() == s.len(),
    decreases s.len(),
{
    if s.len() > 0 {
        lemma_fields_model_len(s.subrange(0, s.len() - 1));
    }
}

pub proof fn lemma_fields_model_index(s: Seq<(String, Json)>, i: int)
    requires
        0 <= i < s.len(),
    ensures
        fields_model(s).len() == s.len(),
        fields_model(s)[i] == (s[i].0@, json_model(s[i].1)),
    decreases s.len(),
{
    lemma_fields_model_len(s);
    if i < s.len() - 1 {
        lemma_fields_model_index(s.subrange(0, s.len() - 1), i);
    }
}

pub proof fn lemma_field_of_suffix_free(fs: Seq<(Seq<char>, JsonModel)>, i: int, k: Seq<char>)
    requires
        0 <= i <= fs.len(),
        forall|j: int| i <= j < fs.len() ==> fs[j].0 != k,
    ensures
        field_of(fs, k) == field_of(fs.subrange(0, i), k),
    decreases fs.len(),
{
    if i < fs.len() {
        lemma_field_of_suffix_free(fs.drop_last(), i, k);
        assert(fs.drop_last().subrange(0, i) =~= fs.subrange(0, i));
    } else {
        assert(fs.subrange(0, i) =~= fs);
    }
}

impl Json {
    /// The member `key` of an object.
    pub fn get(&self, key: &str) -> (r: Option<&Json>)
        ensures
            r is Some <==> self@.get(key@) is Some,
            r is Some ==> r->0@ == self@.get(key@)->0,
    {
        match self {
            Json::Object(fs) => {
                let mut i = fs.len();
                while i > 0
                    invariant
                        i <= fs.len(),
                        *self == Json::Object(*fs),
                        forall|j: int| i <= j < fs.len() ==> fs@[j].0@ != key@,
                    decreases i,
                {
                    if str_eq(fs[i - 1].0.as_str(), key) {
                        proof {
                            lemma_fields_model_len(fs@);
                            assert forall|j: int| i <= j < fs@.len() implies fields_model(fs@)[j].0 != key@ by {
                                lemma_fields_model_index(fs@, j);
                            }
                            lemma_field_of_suffix_free(fields_model(fs@), i as int, key@);
                            let s = fs@.subrange(0, i as int);
                            assert(s.subrange(0, s.len() - 1) =~= fs@.subrange(0, i - 1));
                            assert(fields_model(fs@).subrange(0, i as int) == fields_model(s)) by {
                                lemma_fields_model_prefix(fs@, i as int);
                            }
                        }
                        return Some(&fs[i - 1].1);
                    }
                    i = i - 1;
                }
                proof {
                    lemma_fields_model_len(fs@);
                    assert forall|j: int| 0 <= j < fs@.len() implies fields_model(fs@)[j].0 != key@ by {
                        lemma_fields_model_index(fs@, j);
                    }
                    lemma_field_of_suffix_free(fields_model(fs@), 0, key@);
                }
                None
            },
            _ => None,
        }
    }

    /// The text of a string value.
    pub fn as_str(&self) -> (r: Option<&str>)
        ensures
            r is Some <==> self@.as_str() is Some,
            r is Some ==> r->0@ == self@.as_str()->0,
    {
        match self {
            Json::Str(s) => Some(s.as_str()),
            _ => None,
        }
    }

    /// A copy of this value.
    pub fn copy(&self) -> (r: Json)
        ensures
            r@ == self@,
        decreases self,
    {
        match self {
            Json::Null => Json::Null,
            Json::Bool(b) => Json::Bool(*b),
            Json::Number(JsonNumber::PosInt(u)) => Json::Number(JsonNumber::PosInt(*u)),
            Json::Number(JsonNumber::NegInt(i)) => Json::Number(JsonNumber::NegInt(*i)),
            Json::Number(JsonNumber::Float(s)) => Json::Number(JsonNumber::Float(s.clone())),
            Json::Str(s) => Json::Str(s.clone()),
            Json::Array(items) => {
                let mut out: Vec<Json> = Vec::new();
                let mut i: usize = 0;
                while i < items.len()
                    invariant
                        i <= items.len(),
                        *self == Json::Array(*items),
                        items_model(out@) == items_model(items@.subrange(0, i as int)),
                    decreases items.len() - i,
                {
                    assert(decreases_to!(*self => self->Array_0));
                    assert(decreases_to!(*items => items@));
                    assert(decreases_to!(items@ => items@[i as int]));
                    assert(decreases_to!(self => items@[i as int]));
                    let c = items[i].copy();
                    proof {
                        lemma_items_model_push(out@, c);
                        let s = items@.subrange(0, i + 1);
                        assert(s.subrange(0, s.len() - 1) =~= items@.subrange(0, i as int));
                    }
                    out.push(c);
                    i = i + 1;
                }
                assert(items@.subrange(0, items@.len() as int) =~= items@);
                Json::Array(out)
            },
            Json::Object(fs) => {
                let mut out: Vec<(String, Json)> = Vec::new();
                let mut i: usize = 0;
                while i < fs.len()
                    invariant
                        i <= fs.len(),
                        *self == Json::Object(*fs),
                        fields_model(out@) == fields_model(fs@.subrange(0, i as int)),
                    decreases fs.len() - i,
                {
                    assert(decreases_to!(*self => self->Object_0));
                    assert(decreases_to!(*fs => fs@));
                    assert(decreases_to!(fs@ => fs@[i as int]));
                    assert(decreases_to!(fs@[i as int] => fs@[i as int].1));
                    assert(decreases_to!(self => fs@[i as int].1));
                    let c = fs[i].1.copy();
                    let k = fs[i].0.clone();
                    proof {
                        lemma_fields_model_push(out@, (k, c));
                        let s = fs@.subrange(0, i + 1);
                        assert(s.subrange(0, s.len() - 1) =~= fs@.subrange(0, i as int));
                    }
                    out.push((k, c));
                    i = i + 1;
                }
                assert(fs@.subrange(0, fs@.len() as int) =~= fs@);
                Json::Object(out)
            },
        }
    }
}

pub proof fn lemma_fields_model_prefix(s: Seq<(String, Json)>, i: int)
    requires
        0 <= i <= s.len(),
    ensures
        fields_model(s).subrange(0, i) == fields_model(s.subrange(0, i)),
    decreases s.len(),
{
    lemma_fields_model_len(s);
    lemma_fields_model_len(s.subrange(0, i));
    assert forall|j: int| 0 <= j < i implies fields_model(s).subrange(0, i)[j] == fields_model(s.subrange(0, i))[j] by {
        lemma_fields_model_index(s, j);
        lemma_fields_model_index(s.subrange(0, i), j);
    }
    assert(fields_model(s).subrange(0, i) =~= fields_model(s.subrange(0, i)));
}

pub proof fn lemma_without_field_twice(fs: Seq<(Seq<char>, JsonModel)>, k: Seq<char>)
    ensures
        without_field(without_field(fs, k), k) == without_field(fs, k),
    decreases fs.len(),
{
    if fs.len() > 0 {
        lemma_without_field_twice(fs.drop_last(), k);
        if fs.last().0 != k {
            let w = without_field(fs.drop_last(), k);
            assert(w.push(fs.last()).drop_last() =~= w);
        }
    }
}

pub proof fn lemma_without_absent(fs: Seq<(Seq<char>, JsonModel)>, k: Seq<char>)
    requires
        field_of(fs, k) is None,
    ensures
        without_field(fs, k) == fs,
    decreases fs.len(),
{
    if fs.len() > 0 {
        lemma_without_absent(fs.drop_last(), k);
        assert(fs.drop_last().push(fs.last()) =~= fs);
    }
}

/// Removing an absent member changes nothing.
pub proof fn lemma_remove_absent(v: JsonModel, k: Seq<char>)
    requires
        v.get(k) is None,
    ensures
        v.remove(k) == v,
{
    if let JsonModel::Object(fs) = v {
        lemma_without_absent(fs, k);
    }
}

/// Removes every entry under `key`, handing back the value of the newest one.
pub fn fields_take(fs: &mut Vec<(String, Json)>, key: &str) -> (r: Option<Json>)
    ensures
        fields_model(final(fs)@) == without_field(fields_model(old(fs)@), key@),
        r is Some <==> field_of(fields_model(old(fs)@), key@) is Some,
        r is Some ==> r->0@ == field_of(fields_model(old(fs)@), key@)->0,
{
    let ghost orig = fs@;
    let mut src: Vec<(String, Json)> = Vec::new();
    std::mem::swap(fs, &mut src);
    let mut found: Option<Json> = None;
    let mut i: usize = 0;
    while i < src.len()
        invariant
            src.len() == orig.len(),
            i <= src.len(),
            forall|j: int| i <= j < orig.len() ==> src@[j] == orig[j],
            fields_model(fs@) == without_field(fields_model(orig.subrange(0, i as int)), key@),
            found is Some <==> field_of(fields_model(orig.subrange(0, i as int)), key@) is Some,
            found is Some ==> found->0@ == field_of(fields_model(orig.subrange(0, i as int)), key@)->0,
        decreases src.len() - i,
    {
        let mut e = (String::new(), Json::Null);
        src.set_and_swap(i, &mut e);
        let ghost pre = orig.subrange(0, i as int);
        let ghost next = orig.subrange(0, i + 1);
        assert(next.subrange(0, next.len() - 1) =~= pre);
        assert(e == orig[i as int]);
        assert(fields_model(next) == fields_model(pre).push((e.0@, json_model(e.1))));
        assert(fields_model(pre).push((e.0@, json_model(e.1))).drop_last() =~= fields_model(pre));
        if str_eq(e.0.as_str(), key) {
            found = Some(e.1);
        } else {
            proof {
                lemma_fields_model_push(fs@, e);
            }
            fs.push(e);
        }
        i = i + 1;
    }
    assert(orig.subrange(0, orig.len() as int) =~= orig);
    found
}

impl Json {
    /// Removes member `key` of an object and hands back its value; any other
    /// value is left as it is.
    pub fn take(&mut self, key: &str) -> (r: Option<Json>)
        ensures
            final(self)@ == old(self)@.remove(key@),
            r is Some <==> old(self)@.get(key@) is Some,
            r is Some ==> r->0@ == old(self)@.get(key@)->0,
    {
        match self {
            Json::Object(fs) => fields_take(fs, key),
            _ => None,
        }
    }

    /// Removes member `key` of an object.
    pub fn remove(&mut self, key: &str)
        ensures
            final(self)@ == old(self)@.remove(key@),
    {
        let _ = self.take(key);
    }

    /// Sets member `key` of an object to `v`; any other value is left as it is.
    pub fn set(&mut self, key: &str, v: Json)
        ensures
            final(self)@ == old(self)@.set(key@, v@),
    {
        match self {
            Json::Object(fs) => {
                let _ = fields_take(fs, key);
                let k = key.to_string();
                proof {
                    lemma_fields_model_push(fs@, (k, v));
                }
                fs.push((k, v));
            },
            _ => {},
        }
    }

    pub fn is_object(&self) -> (r: bool)
        ensures
            r == self@.is_object(),
    {
        match self {
            Json::Object(_) => true,
            _ => false,
        }
    }

    /// An empty object.
    pub fn empty_object() -> (r: Json)
        ensures
            r@ == JsonModel::Object(Seq::empty()),
    {
        Json::Object(Vec::new())
    }

    /// A string value.
    pub fn from_str(s: &str) -> (r: Json)
        ensures
            r@ == JsonModel::Str(s@),
    {
        Json::Str(s.to_string())
    }
}

} // verus!
