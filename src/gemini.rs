//! The request and response transformation for the Gemini-style upstream.

use vstd::prelude::*;
use crate::text::{lower_of, lowercase, str_contains, has_substring, str_eq, str_starts_with, str_ends_with, has_prefix, has_suffix};
use crate::config::{ThinkingBudgetStore, ThinkingBudgetConfig, normalize_budget, normalized_budget};
use crate::signature_cache::SignatureCache;
use crate::table::{table_view, table_get};
use crate::ids::{random_uuid, uuid_hyphenated, uuid_hyphenated_text};
use crate::json::{
    Json, JsonModel, JsonNumber, NumberModel, json_model, items_model, fields_model, field_of, without_field,
    lemma_items_model_push, lemma_items_model_len, lemma_items_model_index, lemma_fields_model_push,
    lemma_fields_model_len, lemma_get_set, lemma_without_field_twice, lemma_remove_absent,
};

verus! {

/// Which object entries a pruning pass drops, at every depth.
#[derive(Debug, Clone, Copy, PartialEq, Eq, Structural)]
pub enum Pruning {
    /// Entries whose value is the string `[undefined]`, left by some clients.
    UndefinedMarkers,
    /// Schema keywords that the upstream refuses.
    UnsupportedSchemaKeys,
}

pub open spec fn unsupported_schema_key(k: Seq<char>) -> bool {
    k == "multipleOf"@ || k == "exclusiveMinimum"@ || k == "exclusiveMaximum"@ || k == "$schema"@
        || k == "additionalProperties"@
}

pub open spec fn dropped_entry(mode: Pruning, k: Seq<char>, v: JsonModel) -> bool {
    match mode {
        Pruning::UndefinedMarkers => v == JsonModel::Str("[undefined]"@),
        Pruning::UnsupportedSchemaKeys => unsupported_schema_key(k),
    }
}

/// `v` with the entries that `mode` drops removed from every object within it.
pub open spec fn pruned(v: JsonModel, mode: Pruning) -> JsonModel
    decreases v,
{
    match v {
        JsonModel::Array(items) => JsonModel::Array(pruned_items(items, mode)),
        JsonModel::Object(fs) => JsonModel::Object(pruned_fields(fs, mode)),
        _ => v,
    }
}

pub open spec fn pruned_items(s: Seq<JsonModel>, mode: Pruning) -> Seq<JsonModel>
    decreases s,
{
    if s.len() == 0 {
        Seq::empty()
    } else {
        pruned_items(s.subrange(0, s.len() - 1), mode).push(pruned(s[s.len() - 1], mode))
    }
}

pub open spec fn pruned_fields(s: Seq<(Seq<char>, JsonModel)>, mode: Pruning) -> Seq<(Seq<char>, JsonModel)>
    decreases s,
{
    if s.len() == 0 {
        Seq::empty()
    } else {
        let rest = pruned_fields(s.subrange(0, s.len() - 1), mode);
        let (k, v) = s[s.len() - 1];
        if dropped_entry(mode, k, v) {
            rest
        } else {
            rest.push((k, pruned(v, mode)))
        }
    }
}

fn is_dropped_entry(mode: Pruning, k: &String, v: &Json) -> (r: bool)
    ensures
        r == dropped_entry(mode, k@, v@),
{
    match mode {
        Pruning::UndefinedMarkers => match v {
            Json::Str(s) => str_eq(s.as_str(), "[undefined]"),
            _ => false,
        },
        Pruning::UnsupportedSchemaKeys => {
            let k = k.as_str();
            str_eq(k, "multipleOf") || str_eq(k, "exclusiveMinimum") || str_eq(k, "exclusiveMaximum")
                || str_eq(k, "$schema") || str_eq(k, "additionalProperties")
        },
    }
}

/// Removes the entries that `mode` drops from every object within `v`.
pub fn prune(v: Json, mode: Pruning) -> (r: Json)
    ensures
        r@ == pruned(v@, mode),
    decreases v,
{
    let ghost v0 = v;
    match v {
        Json::Array(items) => {
            let ghost orig = items@;
            let mut items = items;
            let mut out: Vec<Json> = Vec::new();
            let mut i: usize = 0;
            while i < items.len()
                invariant
                    v0 is Array,
                    v0 == v,
                    v0->Array_0@ == orig,
                    items.len() == orig.len(),
                    i <= items.len(),
                    forall|j: int| i <= j < orig.len() ==> items@[j] == orig[j],
                    items_model(out@) == pruned_items(items_model(orig.subrange(0, i as int)), mode),
                decreases items.len() - i,
            {
                let mut e = Json::Null;
                items.set_and_swap(i, &mut e);
                assert(decreases_to!(v0 => v0->Array_0));
                assert(decreases_to!(v0->Array_0 => v0->Array_0@));
                assert(decreases_to!(v0->Array_0@ => orig[i as int]));
                assert(e == orig[i as int]);
                assert(decreases_to!(v0 => e));
                let c = prune(e, mode);
                proof {
                    let pre = orig.subrange(0, i as int);
                    let next = orig.subrange(0, i + 1);
                    assert(next.subrange(0, next.len() - 1) =~= pre);
                    assert(items_model(next) == items_model(pre).push(json_model(e)));
                    lemma_items_model_push(out@, c);
                    lemma_items_model_len(pre);
                    let x = items_model(pre).push(json_model(e));
                    assert(x.subrange(0, x.len() - 1) =~= items_model(pre));
                    assert(pruned_items(x, mode) == pruned_items(items_model(pre), mode).push(pruned(json_model(e), mode)));
                }
                out.push(c);
                i = i + 1;
            }
            assert(orig.subrange(0, orig.len() as int) =~= orig);
            Json::Array(out)
        },
        Json::Object(fs) => {
            let ghost orig = fs@;
            let mut fs = fs;
            let mut out: Vec<(String, Json)> = Vec::new();
            let mut i: usize = 0;
            while i < fs.len()
                invariant
                    v0 is Object,
                    v0 == v,
                    v0->Object_0@ == orig,
                    fs.len() == orig.len(),
                    i <= fs.len(),
                    forall|j: int| i <= j < orig.len() ==> fs@[j] == orig[j],
                    fields_model(out@) == pruned_fields(fields_model(orig.subrange(0, i as int)), mode),
                decreases fs.len() - i,
            {
                let mut e = (String::new(), Json::Null);
                fs.set_and_swap(i, &mut e);
                let ghost pre = orig.subrange(0, i as int);
                let ghost next = orig.subrange(0, i + 1);
                assert(next.subrange(0, next.len() - 1) =~= pre);
                proof {
                    lemma_fields_model_len(pre);
                    assert(fields_model(pre).push((e.0@, json_model(e.1))).subrange(0, i as int) =~= fields_model(pre));
                }
                if !is_dropped_entry(mode, &e.0, &e.1) {
                    let (k, x) = e;
                    assert(decreases_to!(v0 => v0->Object_0));
                    assert(decreases_to!(v0->Object_0 => v0->Object_0@));
                    assert(decreases_to!(v0->Object_0@ => orig[i as int]));
                    assert(decreases_to!(orig[i as int] => orig[i as int].1));
                    assert(x == orig[i as int].1);
                    assert(decreases_to!(v0 => x));
                    let c = prune(x, mode);
                    proof {
                        lemma_fields_model_push(out@, (k, c));
                    }
                    out.push((k, c));
                }
                i = i + 1;
            }
            assert(orig.subrange(0, orig.len() as int) =~= orig);
            Json::Object(out)
        },
        other => other,
    }
}

/// A part that calls a function and carries no continuity token gets `sig`.
pub open spec fn signed_part(p: JsonModel, sig: Seq<char>) -> JsonModel {
    if p.get("functionCall"@) is Some && p.get("thoughtSignature"@) is None {
        p.set("thoughtSignature"@, JsonModel::Str(sig))
    } else {
        p
    }
}

pub open spec fn signed_content(c: JsonModel, sig: Seq<char>) -> JsonModel {
    match c.get("parts"@) {
        Some(JsonModel::Array(ps)) => c.set("parts"@, JsonModel::Array(ps.map_values(|p| signed_part(p, sig)))),
        _ => c,
    }
}

/// Every function-call part of every message gets the cached token, if there is one.
pub open spec fn with_signature(body: JsonModel, sig: Option<Seq<char>>) -> JsonModel {
    match sig {
        None => body,
        Some(s) => match body.get("contents"@) {
            Some(JsonModel::Array(cs)) => body.set("contents"@, JsonModel::Array(cs.map_values(|c| signed_content(c, s)))),
            _ => body,
        },
    }
}

/// Setting a member to the value that `take` removed equals setting it directly.
proof fn lemma_remove_then_set(v: JsonModel, k: Seq<char>, x: JsonModel)
    ensures
        v.remove(k).set(k, x) == v.set(k, x),
{
    if let JsonModel::Object(fs) = v {
        lemma_without_field_twice(fs, k);
    }
}

/// Takes out the array under `key`, if that member is an array.
fn take_array(v: &mut Json, key: &str) -> (r: Option<Vec<Json>>)
    ensures
        match old(v)@.get(key@) {
            Some(JsonModel::Array(items)) => r is Some && items_model(r->0@) == items && final(v)@ == old(v)@.remove(key@),
            _ => r is None && final(v)@ == old(v)@,
        },
{
    let is_array = match v.get(key) {
        Some(Json::Array(_)) => true,
        _ => false,
    };
    if !is_array {
        return None;
    }
    match v.take(key) {
        Some(Json::Array(items)) => Some(items),
        _ => None,
    }
}

fn sign_part(p: &mut Json, sig: &String)
    ensures
        final(p)@ == signed_part(old(p)@, sig@),
{
    if p.get("functionCall").is_some() && p.get("thoughtSignature").is_none() {
        p.set("thoughtSignature", Json::Str(sig.clone()));
    }
}

fn sign_content(c: &mut Json, sig: &String)
    ensures
        final(c)@ == signed_content(old(c)@, sig@),
{
    let ghost c0 = c@;
    if let Some(mut parts) = take_array(c, "parts") {
        let ghost orig = parts@;
        let mut i: usize = 0;
        while i < parts.len()
            invariant
                parts.len() == orig.len(),
                i <= parts.len(),
                forall|j: int| i <= j < orig.len() ==> parts@[j] == orig[j],
                forall|j: int| 0 <= j < i ==> json_model(#[trigger] parts@[j]) == signed_part(json_model(orig[j]), sig@),
            decreases parts.len() - i,
        {
            let mut e = Json::Null;
            parts.set_and_swap(i, &mut e);
            sign_part(&mut e, sig);
            parts.set_and_swap(i, &mut e);
            i = i + 1;
        }
        proof {
            lemma_items_model_len(parts@);
            lemma_items_model_len(orig);
            assert forall|j: int| 0 <= j < orig.len() implies items_model(parts@)[j] == items_model(orig).map_values(|p| signed_part(p, sig@))[j] by {
                lemma_items_model_index(parts@, j);
                lemma_items_model_index(orig, j);
            }
            assert(items_model(parts@) =~= items_model(orig).map_values(|p| signed_part(p, sig@)));
            lemma_remove_then_set(c0, "parts"@, JsonModel::Array(items_model(parts@)));
        }
        c.set("parts", Json::Array(parts));
    }
}

fn sign_contents(body: &mut Json, sig: &Option<String>)
    ensures
        final(body)@ == with_signature(old(body)@, match sig { Some(s) => Some(s@), None => None }),
{
    let ghost b0 = body@;
    if let Some(s) = sig {
        if let Some(mut contents) = take_array(body, "contents") {
            let ghost orig = contents@;
            let mut i: usize = 0;
            while i < contents.len()
                invariant
                    contents.len() == orig.len(),
                    i <= contents.len(),
                    forall|j: int| i <= j < orig.len() ==> contents@[j] == orig[j],
                    forall|j: int| 0 <= j < i ==> json_model(#[trigger] contents@[j]) == signed_content(json_model(orig[j]), s@),
                decreases contents.len() - i,
            {
                let mut e = Json::Null;
                contents.set_and_swap(i, &mut e);
                sign_content(&mut e, s);
                contents.set_and_swap(i, &mut e);
                i = i + 1;
            }
            proof {
                lemma_items_model_len(contents@);
                lemma_items_model_len(orig);
                assert forall|j: int| 0 <= j < orig.len() implies items_model(contents@)[j] == items_model(orig).map_values(|c| signed_content(c, s@))[j] by {
                    lemma_items_model_index(contents@, j);
                    lemma_items_model_index(orig, j);
                }
                assert(items_model(contents@) =~= items_model(orig).map_values(|c| signed_content(c, s@)));
                lemma_remove_then_set(b0, "contents"@, JsonModel::Array(items_model(contents@)));
            }
            body.set("contents", Json::Array(contents));
        }
    }
}

/// For a Flash-class model, a requested thinking budget is normalized; an
/// absent budget stays absent.
pub open spec fn with_budget(body: JsonModel, flash: bool, cfg: ThinkingBudgetConfig) -> JsonModel {
    if !flash {
        body
    } else {
        match body.get("generationConfig"@) {
            Some(gc) => match gc.get("thinkingConfig"@) {
                Some(tc) => match tc.get("thinkingBudget"@) {
                    Some(JsonModel::Number(NumberModel::PosInt(b))) => {
                        let nb = normalized_budget(b, cfg);
                        if nb == b {
                            body
                        } else {
                            body.set(
                                "generationConfig"@,
                                gc.set("thinkingConfig"@, tc.set("thinkingBudget"@, JsonModel::Number(NumberModel::PosInt(nb)))),
                            )
                        }
                    },
                    _ => body,
                },
                None => body,
            },
            None => body,
        }
    }
}

fn apply_budget(body: &mut Json, flash: bool, cfg: &ThinkingBudgetConfig)
    ensures
        final(body)@ == with_budget(old(body)@, flash, *cfg),
{
    if !flash {
        return;
    }
    let budget = match body.get("generationConfig") {
        Some(gc) => match gc.get("thinkingConfig") {
            Some(tc) => match tc.get("thinkingBudget") {
                Some(Json::Number(JsonNumber::PosInt(b))) => Some(*b),
                _ => None,
            },
            None => None,
        },
        None => None,
    };
    if let Some(b) = budget {
        let nb = normalize_budget(b, cfg);
        if nb != b {
            if let Some(mut gc) = body.take("generationConfig") {
                if let Some(mut tc) = gc.take("thinkingConfig") {
                    tc.set("thinkingBudget", Json::Number(JsonNumber::PosInt(nb)));
                    proof {
                        lemma_remove_then_set(old(body)@.get("generationConfig"@)->0, "thinkingConfig"@, tc@);
                    }
                    gc.set("thinkingConfig", tc);
                }
                proof {
                    lemma_remove_then_set(old(body)@, "generationConfig"@, gc@);
                }
                body.set("generationConfig", gc);
            }
        }
    }
}

/// A declaration of a web-search function, which the upstream provides itself.
pub open spec fn is_search_decl(d: JsonModel) -> bool {
    match d.get("name"@) {
        Some(JsonModel::Str(n)) => n == "web_search"@ || n == "google_search"@,
        _ => false,
    }
}

/// A declaration with its parameter schema under the canonical name, pruned.
pub open spec fn cleaned_decl(d: JsonModel) -> JsonModel {
    match d.get("parametersJsonSchema"@) {
        Some(p) => d.remove("parametersJsonSchema"@).set("parameters"@, pruned(p, Pruning::UnsupportedSchemaKeys)),
        None => match d.get("parameters"@) {
            Some(p) => d.set("parameters"@, pruned(p, Pruning::UnsupportedSchemaKeys)),
            None => d,
        },
    }
}

/// The declarations that are not web searches, each cleaned.
pub open spec fn cleaned_decls(ds: Seq<JsonModel>) -> Seq<JsonModel>
    decreases ds.len(),
{
    if ds.len() == 0 {
        ds
    } else {
        let rest = cleaned_decls(ds.drop_last());
        if is_search_decl(ds.last()) {
            rest
        } else {
            rest.push(cleaned_decl(ds.last()))
        }
    }
}

pub open spec fn cleaned_tool(t: JsonModel) -> JsonModel {
    match t.get("functionDeclarations"@) {
        Some(JsonModel::Array(ds)) => t.set("functionDeclarations"@, JsonModel::Array(cleaned_decls(ds))),
        _ => t,
    }
}

pub open spec fn with_clean_tools(body: JsonModel) -> JsonModel {
    match body.get("tools"@) {
        Some(JsonModel::Array(ts)) => body.set("tools"@, JsonModel::Array(ts.map_values(|t| cleaned_tool(t)))),
        _ => body,
    }
}

fn is_search_declaration(d: &Json) -> (r: bool)
    ensures
        r == is_search_decl(d@),
{
    match d.get("name") {
        Some(Json::Str(n)) => str_eq(n.as_str(), "web_search") || str_eq(n.as_str(), "google_search"),
        _ => false,
    }
}

fn clean_declaration(d: &mut Json)
    ensures
        final(d)@ == cleaned_decl(old(d)@),
{
    let ghost d0 = d@;
    proof {
        if d0.get("parametersJsonSchema"@) is None {
            lemma_remove_absent(d0, "parametersJsonSchema"@);
            if d0.get("parameters"@) is None {
                lemma_remove_absent(d0, "parameters"@);
            }
        }
    }
    if let Some(p) = d.take("parametersJsonSchema") {
        d.set("parameters", prune(p, Pruning::UnsupportedSchemaKeys));
    } else if let Some(p) = d.take("parameters") {
        let c = prune(p, Pruning::UnsupportedSchemaKeys);
        proof {
            lemma_remove_then_set(d0, "parameters"@, c@);
        }
        d.set("parameters", c);
    }
}

fn clean_tool(t: &mut Json)
    ensures
        final(t)@ == cleaned_tool(old(t)@),
{
    let ghost t0 = t@;
    if let Some(decls) = take_array(t, "functionDeclarations") {
        let ghost orig = decls@;
        let mut decls = decls;
        let mut out: Vec<Json> = Vec::new();
        let mut i: usize = 0;
        while i < decls.len()
            invariant
                decls.len() == orig.len(),
                i <= decls.len(),
                forall|j: int| i <= j < orig.len() ==> decls@[j] == orig[j],
                items_model(out@) == cleaned_decls(items_model(orig.subrange(0, i as int))),
            decreases decls.len() - i,
        {
            let mut e = Json::Null;
            decls.set_and_swap(i, &mut e);
            let ghost pre = orig.subrange(0, i as int);
            let ghost next = orig.subrange(0, i + 1);
            proof {
                assert(next.subrange(0, next.len() - 1) =~= pre);
                assert(items_model(next) == items_model(pre).push(json_model(e)));
                let x = items_model(pre).push(json_model(e));
                assert(x.drop_last() =~= items_model(pre));
            }
            if !is_search_declaration(&e) {
                clean_declaration(&mut e);
                proof {
                    lemma_items_model_push(out@, e);
                }
                out.push(e);
            }
            i = i + 1;
        }
        assert(orig.subrange(0, orig.len() as int) =~= orig);
        proof {
            lemma_remove_then_set(t0, "functionDeclarations"@, JsonModel::Array(items_model(out@)));
        }
        t.set("functionDeclarations", Json::Array(out));
    }
}

fn clean_tools(body: &mut Json)
    ensures
        final(body)@ == with_clean_tools(old(body)@),
{
    let ghost b0 = body@;
    if let Some(mut tools) = take_array(body, "tools") {
        let ghost orig = tools@;
        let mut i: usize = 0;
        while i < tools.len()
            invariant
                tools.len() == orig.len(),
                i <= tools.len(),
                forall|j: int| i <= j < orig.len() ==> tools@[j] == orig[j],
                forall|j: int| 0 <= j < i ==> json_model(#[trigger] tools@[j]) == cleaned_tool(json_model(orig[j])),
            decreases tools.len() - i,
        {
            let mut e = Json::Null;
            tools.set_and_swap(i, &mut e);
            clean_tool(&mut e);
            tools.set_and_swap(i, &mut e);
            i = i + 1;
        }
        proof {
            lemma_items_model_len(tools@);
            lemma_items_model_len(orig);
            assert forall|j: int| 0 <= j < orig.len() implies items_model(tools@)[j] == items_model(orig).map_values(|t| cleaned_tool(t))[j] by {
                lemma_items_model_index(tools@, j);
                lemma_items_model_index(orig, j);
            }
            assert(items_model(tools@) =~= items_model(orig).map_values(|t| cleaned_tool(t)));
            lemma_remove_then_set(b0, "tools"@, JsonModel::Array(items_model(tools@)));
        }
        body.set("tools", Json::Array(tools));
    }
}

/// The kind of upstream request.
#[derive(Debug, Clone, Copy, PartialEq, Eq, Structural)]
pub enum RequestType {
    Agent,
    WebSearch,
    ImageGen,
}

pub open spec fn request_type_text(t: RequestType) -> Seq<char> {
    match t {
        RequestType::Agent => "agent"@,
        RequestType::WebSearch => "web_search"@,
        RequestType::ImageGen => "image_gen"@,
    }
}

impl RequestType {
    /// The tag that the upstream envelope carries.
    pub fn as_str(&self) -> (r: &'static str)
        ensures
            r@ == request_type_text(*self),
    {
        match self {
            RequestType::Agent => "agent",
            RequestType::WebSearch => "web_search",
            RequestType::ImageGen => "image_gen",
        }
    }
}

/// A tool entry that asks for web search, natively or as a declared function.
pub open spec fn tool_requests_search(t: JsonModel) -> bool {
    t.get("googleSearch"@) is Some || t.get("googleSearchRetrieval"@) is Some || match t.get("functionDeclarations"@) {
        Some(JsonModel::Array(ds)) => exists|i: int| 0 <= i < ds.len() && is_search_decl(#[trigger] ds[i]),
        _ => false,
    }
}

pub open spec fn requests_search(tools: Option<JsonModel>) -> bool {
    match tools {
        Some(JsonModel::Array(ts)) => exists|i: int| 0 <= i < ts.len() && tool_requests_search(#[trigger] ts[i]),
        _ => false,
    }
}

/// The request kind, from the model the client named, the model that will
/// serve it and the tools the request declares.
pub open spec fn request_type_of(original: Seq<char>, name: Seq<char>, tools: Option<JsonModel>) -> RequestType {
    if has_prefix(name, "gemini-3-pro-image"@) {
        RequestType::ImageGen
    } else if has_suffix(original, "-online"@) || requests_search(tools) {
        RequestType::WebSearch
    } else {
        RequestType::Agent
    }
}

/// The upstream model id: the serving model without an `-online` suffix.
pub open spec fn final_model_of(name: Seq<char>) -> Seq<char> {
    if has_suffix(name, "-online"@) && !has_prefix(name, "gemini-3-pro-image"@) {
        name.subrange(0, name.len() - 7)
    } else {
        name
    }
}

/// The image settings installed on image-generation requests.
pub open spec fn image_config_model() -> JsonModel {
    JsonModel::Object(seq![("aspectRatio"@, JsonModel::Str("1:1"@))])
}

pub open spec fn opt_model(o: Option<&Json>) -> Option<JsonModel> {
    match o {
        Some(t) => Some(json_model(*t)),
        None => None,
    }
}

/// How a request is to be sent.
pub struct RequestConfig {
    pub request_type: RequestType,
    pub inject_google_search: bool,
    pub final_model: String,
    pub image_config: Option<Json>,
}

fn declares_search(t: &Json) -> (r: bool)
    ensures
        r == tool_requests_search(t@),
{
    if t.get("googleSearch").is_some() || t.get("googleSearchRetrieval").is_some() {
        return true;
    }
    let fd = t.get("functionDeclarations");
    match fd {
        Some(Json::Array(ds)) => {
            assert(fd->0@ == JsonModel::Array(items_model(ds@)));
            assert(t@.get("functionDeclarations"@) == Some(JsonModel::Array(items_model(ds@))));
            let mut i: usize = 0;
            while i < ds.len()
                invariant
                    i <= ds.len(),
                    t@.get("functionDeclarations"@) == Some(JsonModel::Array(items_model(ds@))),
                    forall|j: int| 0 <= j < i ==> !is_search_decl(#[trigger] items_model(ds@)[j]),
                decreases ds.len() - i,
            {
                proof {
                    lemma_items_model_index(ds@, i as int);
                }
                if is_search_declaration(&ds[i]) {
                    assert(is_search_decl(items_model(ds@)[i as int]));
                    let ghost m = t@.get("functionDeclarations"@)->0->Array_0;
                    assert(0 <= i < m.len() && is_search_decl(m[i as int]));
                    return true;
                }
                i = i + 1;
            }
            proof {
                lemma_items_model_len(ds@);
            }
            false
        },
        _ => false,
    }
}

fn any_tool_requests_search(tools: Option<&Json>) -> (r: bool)
    ensures
        r == requests_search(opt_model(tools)),
{
    match tools {
        Some(Json::Array(ts)) => {
            assert(tools->0@ == JsonModel::Array(items_model(ts@)));
            let mut i: usize = 0;
            while i < ts.len()
                invariant
                    i <= ts.len(),
                    tools is Some,
                    tools->0@ == JsonModel::Array(items_model(ts@)),
                    forall|j: int| 0 <= j < i ==> !tool_requests_search(#[trigger] items_model(ts@)[j]),
                decreases ts.len() - i,
            {
                proof {
                    lemma_items_model_index(ts@, i as int);
                }
                if declares_search(&ts[i]) {
                    assert(tool_requests_search(items_model(ts@)[i as int]));
                    let ghost m = tools->0@->Array_0;
                    assert(0 <= i < m.len() && tool_requests_search(m[i as int]));
                    return true;
                }
                i = i + 1;
            }
            proof {
                lemma_items_model_len(ts@);
            }
            false
        },
        _ => false,
    }
}

fn image_config() -> (r: Json)
    ensures
        r@ == image_config_model(),
{
    let mut fs: Vec<(String, Json)> = Vec::new();
    let k = "aspectRatio".to_string();
    let v = Json::from_str("1:1");
    proof {
        lemma_fields_model_push(fs@, (k, v));
    }
    fs.push((k, v));
    assert(fields_model(fs@) =~= seq![("aspectRatio"@, JsonModel::Str("1:1"@))]);
    Json::Object(fs)
}

/// Classifies a request and picks the upstream model id.
pub fn resolve_request_config(original_model: &str, final_model_name: &str, tools: Option<&Json>) -> (r: RequestConfig)
    ensures
        r.request_type == request_type_of(original_model@, final_model_name@, opt_model(tools)),
        r.inject_google_search == (r.request_type == RequestType::WebSearch),
        r.final_model@ == final_model_of(final_model_name@),
        r.image_config is Some <==> r.request_type == RequestType::ImageGen,
        r.image_config is Some ==> r.image_config->0@ == image_config_model(),
{
    let image = str_starts_with(final_model_name, "gemini-3-pro-image");
    let online = str_ends_with(final_model_name, "-online");
    let final_model = if online && !image {
        let n = final_model_name.unicode_len();
        proof {
            reveal_strlit("-online");
        }
        final_model_name.substring_char(0, n - 7).to_string()
    } else {
        final_model_name.to_string()
    };
    if image {
        return RequestConfig {
            request_type: RequestType::ImageGen,
            inject_google_search: false,
            final_model,
            image_config: Some(image_config()),
        };
    }
    let search = str_ends_with(original_model, "-online") || any_tool_requests_search(tools);
    RequestConfig {
        request_type: if search { RequestType::WebSearch } else { RequestType::Agent },
        inject_google_search: search,
        final_model,
        image_config: None,
    }
}

/// The upstream's native search tool.
pub open spec fn search_tool() -> JsonModel {
    JsonModel::Object(seq![("googleSearch"@, JsonModel::Object(Seq::empty()))])
}

pub open spec fn has_search_tool(ts: Seq<JsonModel>) -> bool {
    exists|i: int| 0 <= i < ts.len() && (#[trigger] ts[i]).get("googleSearch"@) is Some
}

/// The native search tool is declared once: added unless already present.
pub open spec fn with_search_tool(body: JsonModel) -> JsonModel {
    match body.get("tools"@) {
        Some(JsonModel::Array(ts)) => if has_search_tool(ts) {
            body
        } else {
            body.set("tools"@, JsonModel::Array(ts.push(search_tool())))
        },
        Some(_) => body,
        None => body.set("tools"@, JsonModel::Array(seq![search_tool()])),
    }
}

fn new_search_tool() -> (r: Json)
    ensures
        r@ == search_tool(),
{
    let mut fs: Vec<(String, Json)> = Vec::new();
    let k = "googleSearch".to_string();
    let v = Json::empty_object();
    proof {
        lemma_fields_model_push(fs@, (k, v));
    }
    fs.push((k, v));
    assert(fields_model(fs@) =~= seq![("googleSearch"@, JsonModel::Object(Seq::empty()))]);
    Json::Object(fs)
}

fn inject_search_tool(body: &mut Json)
    ensures
        final(body)@ == with_search_tool(old(body)@),
{
    let ghost b0 = body@;
    let present = match body.get("tools") {
        Some(Json::Array(ts)) => {
            let mut found = false;
            let mut i: usize = 0;
            while i < ts.len()
                invariant
                    i <= ts.len(),
                    found == exists|j: int| 0 <= j < i && (#[trigger] items_model(ts@)[j]).get("googleSearch"@) is Some,
                decreases ts.len() - i,
            {
                proof {
                    lemma_items_model_index(ts@, i as int);
                }
                if ts[i].get("googleSearch").is_some() {
                    found = true;
                }
                i = i + 1;
            }
            proof {
                lemma_items_model_len(ts@);
            }
            found
        },
        Some(_) => {
            return;
        },
        None => false,
    };
    if present {
        return;
    }
    let mut tools = match take_array(body, "tools") {
        Some(ts) => ts,
        None => Vec::new(),
    };
    let ghost before = tools@;
    let t = new_search_tool();
    proof {
        lemma_items_model_push(tools@, t);
    }
    tools.push(t);
    proof {
        if b0.get("tools"@) is Some {
            lemma_remove_then_set(b0, "tools"@, JsonModel::Array(items_model(tools@)));
        } else {
            lemma_items_model_len(before);
            assert(items_model(tools@) =~= seq![search_tool()]);
        }
    }
    body.set("tools", Json::Array(tools));
}

/// Generation settings for an image request: no thinking, response type or
/// modalities, and the image settings installed.
pub open spec fn image_generation_config(gc: JsonModel, ic: JsonModel) -> JsonModel {
    gc.remove("thinkingConfig"@).remove("responseMimeType"@).remove("responseModalities"@).set("imageConfig"@, ic)
}

/// An image request carries no tools and no system instruction.
pub open spec fn for_image(body: JsonModel, ic: JsonModel) -> JsonModel {
    if !body.is_object() {
        body
    } else {
        let b = body.remove("tools"@).remove("systemInstruction"@);
        match b.get("generationConfig"@) {
            Some(gc) => if gc.is_object() {
                b.set("generationConfig"@, image_generation_config(gc, ic))
            } else {
                b
            },
            None => b.set("generationConfig"@, image_generation_config(JsonModel::Object(Seq::empty()), ic)),
        }
    }
}

fn prepare_for_image(body: &mut Json, ic: Json)
    ensures
        final(body)@ == for_image(old(body)@, ic@),
{
    if !body.is_object() {
        return;
    }
    body.remove("tools");
    body.remove("systemInstruction");
    let ghost b = body@;
    let is_obj = match body.get("generationConfig") {
        Some(gc) => gc.is_object(),
        None => true,
    };
    if !is_obj {
        return;
    }
    let mut gc = match body.take("generationConfig") {
        Some(gc) => gc,
        None => Json::empty_object(),
    };
    gc.remove("thinkingConfig");
    gc.remove("responseMimeType");
    gc.remove("responseModalities");
    gc.set("imageConfig", ic);
    proof {
        if b.get("generationConfig"@) is Some {
            lemma_remove_then_set(b, "generationConfig"@, gc@);
        } else {
            lemma_remove_absent(b, "generationConfig"@);
        }
    }
    body.set("generationConfig", gc);
}

/// The text that opens the assistant persona and marks a system instruction
/// as already carrying it.
pub const PERSONA_MARKER: &'static str = "You are Antigravity";

/// The rest of the assistant persona.
pub const PERSONA_REST: &'static str = ", a powerful agentic AI coding assistant designed by the Google Deepmind team working on Advanced Agentic Coding.\nYou are pair programming with a USER to solve their coding task. The task may require creating a new codebase, modifying or debugging an existing codebase, or simply answering a question.\n**Absolute paths only**\n**Proactiveness**";

/// The assistant persona placed first in every non-image request.
pub open spec fn persona_text() -> Seq<char> {
    PERSONA_MARKER@ + PERSONA_REST@
}

fn persona() -> (r: String)
    ensures
        r@ == persona_text(),
{
    PERSONA_MARKER.to_string().concat(PERSONA_REST)
}

pub open spec fn persona_part() -> JsonModel {
    JsonModel::Object(seq![("text"@, JsonModel::Str(persona_text()))])
}

pub open spec fn default_system_instruction() -> JsonModel {
    JsonModel::Object(seq![("role"@, JsonModel::Str("user"@)), ("parts"@, JsonModel::Array(seq![persona_part()]))])
}

/// The first part's text already carries the persona.
pub open spec fn starts_with_persona(ps: Seq<JsonModel>) -> bool {
    ps.len() > 0 && match ps[0].get("text"@) {
        Some(JsonModel::Str(t)) => has_substring(t, PERSONA_MARKER@),
        _ => false,
    }
}

/// An object system instruction gets the role `user` if it has none.
pub open spec fn with_role(si: JsonModel) -> JsonModel {
    if si.is_object() && si.get("role"@) is None {
        si.set("role"@, JsonModel::Str("user"@))
    } else {
        si
    }
}

/// A system instruction whose parts do not open with the persona gets it
/// put first.
pub open spec fn with_persona_first(si: JsonModel) -> JsonModel {
    match si.get("parts"@) {
        Some(JsonModel::Array(ps)) => if starts_with_persona(ps) {
            si
        } else {
            si.set("parts"@, JsonModel::Array(seq![persona_part()] + ps))
        },
        _ => si,
    }
}

/// The persona appears once, first, in the system instruction of an object
/// body; one is created where there is none.
pub open spec fn with_persona(body: JsonModel) -> JsonModel {
    if !body.is_object() {
        body
    } else {
        match body.get("systemInstruction"@) {
            Some(si) => body.set("systemInstruction"@, with_persona_first(with_role(si))),
            None => body.set("systemInstruction"@, default_system_instruction()),
        }
    }
}

fn text_part(text: &str) -> (r: Json)
    ensures
        r@ == JsonModel::Object(seq![("text"@, JsonModel::Str(text@))]),
{
    let mut fs: Vec<(String, Json)> = Vec::new();
    let k = "text".to_string();
    let v = Json::from_str(text);
    proof {
        lemma_fields_model_push(fs@, (k, v));
    }
    fs.push((k, v));
    assert(fields_model(fs@) =~= seq![("text"@, JsonModel::Str(text@))]);
    Json::Object(fs)
}

fn new_system_instruction() -> (r: Json)
    ensures
        r@ == default_system_instruction(),
{
    let mut parts: Vec<Json> = Vec::new();
    let text = persona();
    let p = text_part(text.as_str());
    proof {
        lemma_items_model_push(parts@, p);
    }
    parts.push(p);
    assert(items_model(parts@) =~= seq![persona_part()]);
    let mut fs: Vec<(String, Json)> = Vec::new();
    let k1 = "role".to_string();
    let v1 = Json::from_str("user");
    proof {
        lemma_fields_model_push(fs@, (k1, v1));
    }
    fs.push((k1, v1));
    let k2 = "parts".to_string();
    let v2 = Json::Array(parts);
    proof {
        lemma_fields_model_push(fs@, (k2, v2));
    }
    fs.push((k2, v2));
    assert(fields_model(fs@) =~= seq![("role"@, JsonModel::Str("user"@)), ("parts"@, JsonModel::Array(seq![persona_part()]))]);
    Json::Object(fs)
}

fn persona_first(si: &mut Json)
    ensures
        final(si)@ == with_persona_first(old(si)@),
{
    let ghost s0 = si@;
    let present = match si.get("parts") {
        Some(Json::Array(ps)) => {
            if ps.len() > 0 {
                proof {
                    lemma_items_model_index(ps@, 0);
                }
                match ps[0].get("text") {
                    Some(Json::Str(t)) => str_contains(t.as_str(), PERSONA_MARKER),
                    _ => false,
                }
            } else {
                proof {
                    lemma_items_model_len(ps@);
                }
                false
            }
        },
        _ => {
            return;
        },
    };
    if present {
        return;
    }
    if let Some(ps) = take_array(si, "parts") {
        let mut out: Vec<Json> = Vec::new();
        let text = persona();
    let p = text_part(text.as_str());
        proof {
            lemma_items_model_push(out@, p);
        }
        out.push(p);
        let ghost first = out@;
        let mut ps = ps;
        let ghost orig = ps@;
        let mut i: usize = 0;
        while i < ps.len()
            invariant
                ps.len() == orig.len(),
                i <= ps.len(),
                forall|j: int| i <= j < orig.len() ==> ps@[j] == orig[j],
                items_model(out@) == seq![persona_part()] + items_model(orig.subrange(0, i as int)),
            decreases ps.len() - i,
        {
            let mut e = Json::Null;
            ps.set_and_swap(i, &mut e);
            proof {
                let pre = orig.subrange(0, i as int);
                let next = orig.subrange(0, i + 1);
                assert(next.subrange(0, next.len() - 1) =~= pre);
                assert(items_model(next) == items_model(pre).push(json_model(e)));
                lemma_items_model_push(out@, e);
                assert(seq![persona_part()] + items_model(next) =~= (seq![persona_part()] + items_model(pre)).push(json_model(e)));
            }
            out.push(e);
            i = i + 1;
        }
        assert(orig.subrange(0, orig.len() as int) =~= orig);
        proof {
            lemma_remove_then_set(s0, "parts"@, JsonModel::Array(items_model(out@)));
        }
        si.set("parts", Json::Array(out));
    }
}

fn inject_persona(body: &mut Json)
    ensures
        final(body)@ == with_persona(old(body)@),
{
    if !body.is_object() {
        return;
    }
    let ghost b0 = body@;
    match body.take("systemInstruction") {
        Some(mut si) => {
            if si.is_object() && si.get("role").is_none() {
                si.set("role", Json::from_str("user"));
            }
            persona_first(&mut si);
            proof {
                lemma_remove_then_set(b0, "systemInstruction"@, si@);
            }
            body.set("systemInstruction", si);
        },
        None => {
            proof {
                lemma_remove_absent(b0, "systemInstruction"@);
            }
            body.set("systemInstruction", new_system_instruction());
        },
    }
}

/// The upstream envelope around a transformed request.
pub open spec fn envelope(project: Seq<char>, request_id: Seq<char>, inner: JsonModel, model: Seq<char>, request_type: RequestType) -> JsonModel {
    JsonModel::Object(seq![
        ("project"@, JsonModel::Str(project)),
        ("requestId"@, JsonModel::Str(request_id)),
        ("request"@, inner),
        ("model"@, JsonModel::Str(model)),
        ("userAgent"@, JsonModel::Str("antigravity"@)),
        ("requestType"@, JsonModel::Str(request_type_text(request_type))),
    ])
}

fn push_field(fs: &mut Vec<(String, Json)>, k: &str, v: Json)
    ensures
        fields_model(final(fs)@) == fields_model(old(fs)@).push((k@, v@)),
{
    let key = k.to_string();
    proof {
        lemma_fields_model_push(fs@, (key, v));
    }
    fs.push((key, v));
}

fn build_envelope(project: &str, request_id: &str, inner: Json, model: &str, request_type: RequestType) -> (r: Json)
    ensures
        r@ == envelope(project@, request_id@, inner@, model@, request_type),
{
    let mut fs: Vec<(String, Json)> = Vec::new();
    push_field(&mut fs, "project", Json::from_str(project));
    push_field(&mut fs, "requestId", Json::from_str(request_id));
    push_field(&mut fs, "request", inner);
    push_field(&mut fs, "model", Json::from_str(model));
    push_field(&mut fs, "userAgent", Json::from_str("antigravity"));
    push_field(&mut fs, "requestType", Json::from_str(request_type.as_str()));
    assert(fields_model(fs@) =~= seq![
        ("project"@, JsonModel::Str(project@)),
        ("requestId"@, JsonModel::Str(request_id@)),
        ("request"@, inner@),
        ("model"@, JsonModel::Str(model@)),
        ("userAgent"@, JsonModel::Str("antigravity"@)),
        ("requestType"@, JsonModel::Str(request_type_text(request_type))),
    ]);
    Json::Object(fs)
}

/// What an upstream reply unwraps to: its `response` member, or the reply itself.
pub open spec fn unwrapped(response: JsonModel) -> JsonModel {
    match response.get("response"@) {
        Some(inner) => inner,
        None => response,
    }
}

/// Takes the upstream's own reply out of its wrapper.
pub fn unwrap_response(response: &Json) -> (r: Json)
    ensures
        r@ == unwrapped(response@),
{
    match response.get("response") {
        Some(inner) => inner.copy(),
        None => response.copy(),
    }
}

/// The model the client named: the body's `model` text, else the mapped model.
pub open spec fn original_model_of(body: JsonModel, mapped: Seq<char>) -> Seq<char> {
    match body.get("model"@) {
        Some(JsonModel::Str(m)) => m,
        _ => mapped,
    }
}

/// The model that serves the request: the mapped model, unless it is empty.
pub open spec fn serving_model_of(body: JsonModel, mapped: Seq<char>) -> Seq<char> {
    if mapped.len() > 0 {
        mapped
    } else {
        original_model_of(body, mapped)
    }
}

/// The body after the rules for the client's body, before the tools are cleaned.
pub open spec fn prepared_body(body: JsonModel, sig: Option<Seq<char>>, cfg: ThinkingBudgetConfig, lowered: Seq<char>) -> JsonModel {
    with_budget(with_signature(pruned(body, Pruning::UndefinedMarkers), sig), has_substring(lowered, "flash"@), cfg)
}

pub open spec fn request_type_for(body: JsonModel, mapped: Seq<char>, sig: Option<Seq<char>>, cfg: ThinkingBudgetConfig, lowered: Seq<char>) -> RequestType {
    request_type_of(
        original_model_of(body, mapped),
        serving_model_of(body, mapped),
        prepared_body(body, sig, cfg, lowered).get("tools"@),
    )
}

/// The transformed body that the envelope carries. `sig` is the cached
/// continuity token of the session, `lowered` the lowercase serving model.
pub open spec fn upstream_request(body: JsonModel, mapped: Seq<char>, sig: Option<Seq<char>>, cfg: ThinkingBudgetConfig, lowered: Seq<char>) -> JsonModel {
    let rt = request_type_for(body, mapped, sig, cfg, lowered);
    let cleaned = with_clean_tools(prepared_body(body, sig, cfg, lowered));
    let searched = if rt == RequestType::WebSearch { with_search_tool(cleaned) } else { cleaned };
    if rt == RequestType::ImageGen {
        for_image(searched, image_config_model())
    } else {
        with_persona(searched)
    }
}

/// The upstream envelope for a client body.
pub open spec fn wrapped_request(
    body: JsonModel,
    project: Seq<char>,
    mapped: Seq<char>,
    sig: Option<Seq<char>>,
    cfg: ThinkingBudgetConfig,
    lowered: Seq<char>,
    request_id: Seq<char>,
) -> JsonModel {
    envelope(
        project,
        request_id,
        upstream_request(body, mapped, sig, cfg, lowered),
        final_model_of(serving_model_of(body, mapped)),
        request_type_for(body, mapped, sig, cfg, lowered),
    )
}

pub open spec fn opt_text(o: Option<String>) -> Option<Seq<char>> {
    match o {
        Some(s) => Some(s@),
        None => None,
    }
}

/// Builds the upstream envelope, given the session's cached token, the
/// lowercase form of the serving model and the request id.
pub fn wrap_request_with(
    body: &Json,
    project_id: &str,
    mapped_model: &str,
    signature: Option<String>,
    budget: &ThinkingBudgetConfig,
    lowered_model: &str,
    request_id: &str,
) -> (r: Json)
    ensures
        r@ == wrapped_request(body@, project_id@, mapped_model@, opt_text(signature), *budget, lowered_model@, request_id@),
{
    let original_model: &str = match body.get("model") {
        Some(Json::Str(m)) => m.as_str(),
        _ => mapped_model,
    };
    let serving: &str = if mapped_model.unicode_len() > 0 { mapped_model } else { original_model };
    let mut inner = prune(body.copy(), Pruning::UndefinedMarkers);
    sign_contents(&mut inner, &signature);
    let flash = str_contains(lowered_model, "flash");
    apply_budget(&mut inner, flash, budget);
    let config = resolve_request_config(original_model, serving, inner.get("tools"));
    clean_tools(&mut inner);
    if config.inject_google_search {
        inject_search_tool(&mut inner);
    }
    match config.image_config {
        Some(ic) => prepare_for_image(&mut inner, ic),
        None => inject_persona(&mut inner),
    }
    build_envelope(project_id, request_id, inner, config.final_model.as_str(), config.request_type)
}

/// The cached token of a session, if there is a session and a token.
pub open spec fn session_signature(cache: SignatureCache, session_id: Option<Seq<char>>) -> Option<Seq<char>> {
    match session_id {
        Some(s) => if cache@.contains_key(s) { Some(cache@[s]) } else { None },
        None => None,
    }
}

pub open spec fn opt_str(o: Option<&str>) -> Option<Seq<char>> {
    match o {
        Some(s) => Some(s@),
        None => None,
    }
}

/// Builds the upstream envelope for a client body: the session's cached
/// token, the budget setting in force and a fresh `agent-` request id.
pub fn wrap_request(
    body: &Json,
    project_id: &str,
    mapped_model: &str,
    session_id: Option<&str>,
    cache: &SignatureCache,
    budget: &ThinkingBudgetStore,
) -> (r: Json)
    ensures
        exists|v: u128|
            r@ == wrapped_request(
                body@,
                project_id@,
                mapped_model@,
                session_signature(*cache, opt_str(session_id)),
                budget.current,
                lower_of(serving_model_of(body@, mapped_model@)),
                "agent-"@ + uuid_hyphenated_text(v),
            ),
{
    let original_model: &str = match body.get("model") {
        Some(Json::Str(m)) => m.as_str(),
        _ => mapped_model,
    };
    let serving: &str = if mapped_model.unicode_len() > 0 { mapped_model } else { original_model };
    let lowered = lowercase(serving);
    let signature = match session_id {
        Some(s) => cache.get_session_signature(s),
        None => None,
    };
    let v = random_uuid();
    let request_id = "agent-".to_string().concat(uuid_hyphenated(v).as_str());
    let r = wrap_request_with(body, project_id, mapped_model, signature, &budget.current, lowered.as_str(), request_id.as_str());
    assert(opt_text(signature) == session_signature(*cache, opt_str(session_id)));
    r
}

proof fn lemma_set_twice(v: JsonModel, k: Seq<char>, x: JsonModel)
    ensures
        v.set(k, x).set(k, x) == v.set(k, x),
{
    if let JsonModel::Object(fs) = v {
        let w = without_field(fs, k);
        lemma_without_field_twice(fs, k);
        assert(w.push((k, x)).drop_last() =~= w);
    }
}

proof fn lemma_persona_part_marked()
    ensures
        starts_with_persona(seq![persona_part()]),
        has_substring(persona_text(), PERSONA_MARKER@),
{
    let t = persona_text();
    let m = PERSONA_MARKER@;
    assert(has_substring(t, m)) by {
        assert(t.subrange(0int, 0int + m.len()) =~= m);
    }
    let fs = seq![("text"@, JsonModel::Str(persona_text()))];
    assert(fs.drop_last() =~= Seq::<(Seq<char>, JsonModel)>::empty());
}

proof fn lemma_role_parts_distinct()
    ensures
        "role"@ != "parts"@,
{
    reveal_strlit("role");
    reveal_strlit("parts");
    assert("role"@.len() == 4);
    assert("parts"@.len() == 5);
}

/// A system instruction that has been through the persona rule is left as it is.
proof fn lemma_instruction_settled(si: JsonModel)
    ensures
        with_persona_first(with_role(with_persona_first(with_role(si)))) == with_persona_first(with_role(si)),
{
    lemma_role_parts_distinct();
    lemma_persona_part_marked();
    let r = with_role(si);
    if si.is_object() && si.get("role"@) is None {
        lemma_get_set(si, "role"@, JsonModel::Str("user"@), "role"@);
    }
    assert(with_role(r) == r);
    match r.get("parts"@) {
        Some(JsonModel::Array(ps)) => {
            if !starts_with_persona(ps) {
                let ps2 = seq![persona_part()] + ps;
                let x = r.set("parts"@, JsonModel::Array(ps2));
                lemma_get_set(r, "parts"@, JsonModel::Array(ps2), "role"@);
                lemma_get_set(r, "parts"@, JsonModel::Array(ps2), "parts"@);
                assert(with_role(x) == x);
                assert(ps2[0] == persona_part());
                assert(starts_with_persona(ps2));
            }
        },
        _ => {},
    }
}

/// Applying the persona rule twice gives what applying it once gives: the
/// persona is never added a second time.
pub proof fn lemma_persona_idempotent(body: JsonModel)
    ensures
        with_persona(with_persona(body)) == with_persona(body),
{
    if body.is_object() {
        let x = match body.get("systemInstruction"@) {
            Some(si) => with_persona_first(with_role(si)),
            None => default_system_instruction(),
        };
        lemma_get_set(body, "systemInstruction"@, x, "systemInstruction"@);
        match body.get("systemInstruction"@) {
            Some(si) => {
                lemma_instruction_settled(si);
            },
            None => {
                lemma_role_parts_distinct();
                lemma_persona_part_marked();
                let d = default_system_instruction();
                let fs = seq![("role"@, JsonModel::Str("user"@)), ("parts"@, JsonModel::Array(seq![persona_part()]))];
                assert(fs.drop_last() =~= seq![("role"@, JsonModel::Str("user"@))]);
                assert(fs.drop_last().drop_last() =~= Seq::<(Seq<char>, JsonModel)>::empty());
                assert(field_of(fs.drop_last(), "role"@) == Some(JsonModel::Str("user"@)));
                assert(d.get("role"@) == Some(JsonModel::Str("user"@)));
                assert(with_role(d) == d);
                assert(with_persona_first(d) == d);
            },
        }
        lemma_set_twice(body, "systemInstruction"@, x);
    }
}

/// A reply wrapped as `{"response": v}` unwraps to `v`; a reply without a
/// `response` member unwraps to itself.
pub proof fn lemma_unwrap_recovers(v: JsonModel, other: JsonModel)
    ensures
        unwrapped(JsonModel::Object(seq![("response"@, v)])) == v,
        other.get("response"@) is None ==> unwrapped(other) == other,
{
    let fs = seq![("response"@, v)];
    assert(fs.drop_last() =~= Seq::<(Seq<char>, JsonModel)>::empty());
}

/// An upstream that echoes the request it was sent, wrapped as its reply,
/// hands back the transformed body, not the client's.
pub proof fn lemma_echo_round_trip(
    body: JsonModel,
    project: Seq<char>,
    mapped: Seq<char>,
    sig: Option<Seq<char>>,
    cfg: ThinkingBudgetConfig,
    lowered: Seq<char>,
    request_id: Seq<char>,
)
    ensures
        ({
            let sent = wrapped_request(body, project, mapped, sig, cfg, lowered, request_id);
            sent.get("request"@) is Some
                && unwrapped(JsonModel::Object(seq![("response"@, sent.get("request"@)->0)]))
                    == upstream_request(body, mapped, sig, cfg, lowered)
        }),
{
    let inner = upstream_request(body, mapped, sig, cfg, lowered);
    let sent = wrapped_request(body, project, mapped, sig, cfg, lowered, request_id);
    reveal_strlit("project");
    reveal_strlit("requestId");
    reveal_strlit("request");
    reveal_strlit("model");
    reveal_strlit("userAgent");
    reveal_strlit("requestType");
    if let JsonModel::Object(fs) = sent {
        assert(fs.drop_last().drop_last().drop_last() =~= fs.subrange(0, 3));
        assert(fs.drop_last().drop_last() =~= fs.subrange(0, 4));
        assert(fs.drop_last() =~= fs.subrange(0, 5));
        assert(fs.subrange(0, 3).drop_last() =~= fs.subrange(0, 2));
        assert("request"@.len() == 7 && "model"@.len() == 5 && "userAgent"@.len() == 9 && "requestType"@.len() == 11);
        assert(field_of(fs.subrange(0, 3), "request"@) == Some(inner));
        assert(fs.subrange(0, 4).drop_last() =~= fs.subrange(0, 3));
        assert(field_of(fs.subrange(0, 4), "request"@) == Some(inner));
        assert(fs.subrange(0, 5).drop_last() =~= fs.subrange(0, 4));
        assert(field_of(fs.subrange(0, 5), "request"@) == Some(inner));
        assert(field_of(fs, "request"@) == Some(inner));
    }
    lemma_unwrap_recovers(inner, inner);
}

/// The upstream model for a requested one: its entry in the custom mapping
/// table, else the requested model itself.
pub fn resolve_model_id(requested: &str, custom_mapping: &Vec<(String, String)>) -> (r: String)
    ensures
        table_view(custom_mapping@).contains_key(requested@) ==> r@ == table_view(custom_mapping@)[requested@],
        !table_view(custom_mapping@).contains_key(requested@) ==> r@ == requested@,
{
    let key = requested.to_string();
    match table_get(custom_mapping, &key) {
        Some(m) => m.clone(),
        None => key,
    }
}

/// The continuity token of the last part that carries one.
pub open spec fn last_signature(parts: Seq<JsonModel>) -> Option<Seq<char>>
    decreases parts.len(),
{
    if parts.len() == 0 {
        None
    } else {
        match parts.last().get("thoughtSignature"@) {
            Some(JsonModel::Str(sig)) => Some(sig),
            _ => last_signature(parts.drop_last()),
        }
    }
}

/// The continuity token in an unwrapped reply: the last one among the parts
/// of the first candidate's content.
pub open spec fn observed_signature_of(reply: JsonModel) -> Option<Seq<char>> {
    match reply.get("candidates"@) {
        Some(JsonModel::Array(cs)) => if cs.len() > 0 {
            match cs[0].get("content"@) {
                Some(content) => match content.get("parts"@) {
                    Some(JsonModel::Array(ps)) => last_signature(ps),
                    _ => None,
                },
                None => None,
            }
        } else {
            None
        },
        _ => None,
    }
}

fn last_part_signature(parts: &Vec<Json>) -> (r: Option<String>)
    ensures
        opt_text(r) == last_signature(items_model(parts@)),
{
    let ghost m = items_model(parts@);
    proof {
        lemma_items_model_len(parts@);
    }
    let mut i = parts.len();
    assert(m.subrange(0, i as int) =~= m);
    while i > 0
        invariant
            i <= parts.len(),
            m == items_model(parts@),
            m.len() == parts.len(),
            last_signature(m) == last_signature(m.subrange(0, i as int)),
        decreases i,
    {
        proof {
            lemma_items_model_index(parts@, i - 1);
            assert(m.subrange(0, i as int).drop_last() =~= m.subrange(0, i - 1));
        }
        match parts[i - 1].get("thoughtSignature") {
            Some(Json::Str(sig)) => {
                return Some(sig.clone());
            },
            _ => {},
        }
        i = i - 1;
    }
    None
}

/// The continuity token that an unwrapped reply carries, to be cached for
/// the session.
pub fn observed_signature(reply: &Json) -> (r: Option<String>)
    ensures
        opt_text(r) == observed_signature_of(reply@),
{
    match reply.get("candidates") {
        Some(Json::Array(cs)) => {
            if cs.len() == 0 {
                proof {
                    lemma_items_model_len(cs@);
                }
                return None;
            }
            proof {
                lemma_items_model_index(cs@, 0);
            }
            match cs[0].get("content") {
                Some(content) => match content.get("parts") {
                    Some(Json::Array(ps)) => last_part_signature(ps),
                    _ => None,
                },
                None => None,
            }
        },
        _ => None,
    }
}

} // verus!
