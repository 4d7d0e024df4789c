use antigravity_core::config::{ThinkingBudgetConfig, ThinkingBudgetMode, ThinkingBudgetStore};
use antigravity_core::gemini::{unwrap_response, wrap_request};
use antigravity_core::json::{Json, JsonNumber};
use antigravity_core::signature_cache::SignatureCache;

fn s(text: &str) -> Json {
    Json::Str(text.to_string())
}

fn n(v: u64) -> Json {
    Json::Number(JsonNumber::PosInt(v))
}

fn obj(pairs: Vec<(&str, Json)>) -> Json {
    Json::Object(pairs.into_iter().map(|(k, v)| (k.to_string(), v)).collect())
}

fn arr(items: Vec<Json>) -> Json {
    Json::Array(items)
}

fn at(v: &Json, i: usize) -> &Json {
    match v {
        Json::Array(items) => &items[i],
        _ => panic!("not an array"),
    }
}

fn items(v: &Json) -> &Vec<Json> {
    match v {
        Json::Array(items) => items,
        _ => panic!("not an array"),
    }
}

fn wrap(body: &Json, project: &str, model: &str, session: Option<&str>, cache: &SignatureCache) -> Json {
    let store = ThinkingBudgetStore::new();
    wrap_request(body, project, model, session, cache, &store)
}

#[test]
fn test_wrap_request_with_signature() {
    let session_id = "test-session-sig";
    let signature = "test-signature-must-be-longer-than-fifty-characters-to-be-cached-by-signature-cache-12345";
    let mut cache = SignatureCache::new();
    cache.cache_session_signature(session_id, signature.to_string());

    let body = obj(vec![
        ("model", s("gemini-pro")),
        (
            "contents",
            arr(vec![obj(vec![
                ("role", s("user")),
                (
                    "parts",
                    arr(vec![obj(vec![(
                        "functionCall",
                        obj(vec![("name", s("get_weather")), ("args", obj(vec![("location", s("London"))]))]),
                    )])]),
                ),
            ])]),
        ),
    ]);

    let result = wrap(&body, "proj", "gemini-pro", Some(session_id), &cache);
    let contents = result.get("request").unwrap().get("contents").unwrap();
    let part = at(at(&contents, 0).get("parts").unwrap(), 0);
    let injected_sig = part.get("thoughtSignature").unwrap().as_str().unwrap();
    assert_eq!(injected_sig, signature);
}

#[test]
fn test_wrap_request() {
    let body = obj(vec![
        ("model", s("gemini-2.5-flash")),
        ("contents", arr(vec![obj(vec![("role", s("user")), ("parts", arr(vec![obj(vec![("text", s("Hi"))])]))])])),
    ]);

    let result = wrap(&body, "test-project", "gemini-2.5-flash", None, &SignatureCache::new());
    assert_eq!(result.get("project").unwrap().as_str(), Some("test-project"));
    assert_eq!(result.get("model").unwrap().as_str(), Some("gemini-2.5-flash"));
    assert!(result.get("requestId").unwrap().as_str().unwrap().starts_with("agent-"));
}

#[test]
fn test_unwrap_response() {
    let wrapped = obj(vec![(
        "response",
        obj(vec![("candidates", arr(vec![obj(vec![("content", obj(vec![("parts", arr(vec![obj(vec![("text", s("Hello"))])]))]))])]))]),
    )]);

    let result = unwrap_response(&wrapped);
    assert!(result.get("candidates").is_some());
    assert!(result.get("response").is_none());
}

#[test]
fn test_antigravity_identity_injection_with_role() {
    let body = obj(vec![("model", s("gemini-pro")), ("messages", arr(vec![]))]);

    let result = wrap(&body, "test-proj", "gemini-pro", None, &SignatureCache::new());

    let sys = result.get("request").unwrap().get("systemInstruction");
    assert!(sys.is_some());
}

#[test]
fn test_gemini_flash_thinking_budget_capping() {
    let body = obj(vec![
        ("model", s("gemini-2.0-flash-thinking-exp")),
        (
            "generationConfig",
            obj(vec![("thinkingConfig", obj(vec![("includeThoughts", Json::Bool(true)), ("thinkingBudget", n(32000))]))]),
        ),
    ]);

    let result = wrap(&body, "test-proj", "gemini-2.0-flash-thinking-exp", None, &SignatureCache::new());
    let req = result.get("request").unwrap();
    let gen_config = req.get("generationConfig").unwrap();
    let budget = gen_config.get("thinkingConfig").unwrap().get("thinkingBudget").unwrap();
    assert!(matches!(budget, Json::Number(JsonNumber::PosInt(24576))));

    let body_pro = obj(vec![
        ("model", s("gemini-2.0-pro-exp")),
        (
            "generationConfig",
            obj(vec![("thinkingConfig", obj(vec![("includeThoughts", Json::Bool(true)), ("thinkingBudget", n(32000))]))]),
        ),
    ]);
    let result_pro = wrap(&body_pro, "test-proj", "gemini-2.0-pro-exp", None, &SignatureCache::new());
    let budget_pro = result_pro
        .get("request")
        .unwrap()
        .get("generationConfig")
        .unwrap()
        .get("thinkingConfig")
        .unwrap()
        .get("thinkingBudget")
        .unwrap();
    assert!(matches!(budget_pro, Json::Number(JsonNumber::PosInt(32000))));
}

#[test]
fn test_user_instruction_preservation() {
    let body = obj(vec![
        ("model", s("gemini-pro")),
        ("systemInstruction", obj(vec![("role", s("user")), ("parts", arr(vec![obj(vec![("text", s("User custom prompt"))])]))])),
    ]);

    let result = wrap(&body, "test-proj", "gemini-pro", None, &SignatureCache::new());
    let sys = result.get("request").unwrap().get("systemInstruction").unwrap();
    let parts = items(sys.get("parts").unwrap());

    assert_eq!(parts.len(), 2);
    assert!(parts[0].get("text").unwrap().as_str().unwrap().contains("You are Antigravity"));
    assert_eq!(parts[1].get("text").unwrap().as_str().unwrap(), "User custom prompt");
}

#[test]
fn test_duplicate_prevention() {
    let body = obj(vec![
        ("model", s("gemini-pro")),
        ("systemInstruction", obj(vec![("parts", arr(vec![obj(vec![("text", s("You are Antigravity..."))])]))])),
    ]);

    let result = wrap(&body, "test-proj", "gemini-pro", None, &SignatureCache::new());
    let sys = result.get("request").unwrap().get("systemInstruction").unwrap();
    let parts = items(sys.get("parts").unwrap());

    assert_eq!(parts.len(), 1);
}

#[test]
fn test_image_generation_with_reference_images() {
    let mut parts = Vec::new();
    parts.push(obj(vec![("text", s("Generate a variation"))]));
    for _ in 0..14 {
        parts.push(obj(vec![("inlineData", obj(vec![("mimeType", s("image/jpeg")), ("data", s("base64data..."))]))]));
    }

    let body = obj(vec![("model", s("gemini-3-pro-image")), ("contents", arr(vec![obj(vec![("parts", arr(parts))])]))]);

    let result = wrap(&body, "test-proj", "gemini-3-pro-image", None, &SignatureCache::new());

    let request = result.get("request").unwrap();
    let contents = request.get("contents").unwrap();
    let result_parts = items(at(contents, 0).get("parts").unwrap());

    assert_eq!(result_parts.len(), 15);
}

#[test]
fn budget_capping_sees_uppercase_model_names() {
    let body = obj(vec![(
        "generationConfig",
        obj(vec![("thinkingConfig", obj(vec![("thinkingBudget", n(32000))]))]),
    )]);
    let result = wrap(&body, "p", "Gemini-2.0-FLASH", None, &SignatureCache::new());
    let budget = result.get("request").unwrap().get("generationConfig").unwrap().get("thinkingConfig").unwrap().get("thinkingBudget").unwrap();
    assert!(matches!(budget, Json::Number(JsonNumber::PosInt(24576))));
}

#[test]
fn budget_follows_custom_and_passthrough_modes() {
    let body = obj(vec![(
        "generationConfig",
        obj(vec![("thinkingConfig", obj(vec![("thinkingBudget", n(32000))]))]),
    )]);
    let mut store = ThinkingBudgetStore::new();
    antigravity_core::config::update_thinking_budget_config(
        &mut store,
        ThinkingBudgetConfig { mode: ThinkingBudgetMode::Custom, custom_value: 1000 },
    );
    let r = wrap_request(&body, "p", "gemini-2.5-flash", None, &SignatureCache::new(), &store);
    let b = r.get("request").unwrap().get("generationConfig").unwrap().get("thinkingConfig").unwrap().get("thinkingBudget").unwrap();
    assert!(matches!(b, Json::Number(JsonNumber::PosInt(1000))));

    antigravity_core::config::update_thinking_budget_config(
        &mut store,
        ThinkingBudgetConfig { mode: ThinkingBudgetMode::Passthrough, custom_value: 1000 },
    );
    let r = wrap_request(&body, "p", "gemini-2.5-flash", None, &SignatureCache::new(), &store);
    let b = r.get("request").unwrap().get("generationConfig").unwrap().get("thinkingConfig").unwrap().get("thinkingBudget").unwrap();
    assert!(matches!(b, Json::Number(JsonNumber::PosInt(32000))));
}

#[test]
fn absent_budget_is_not_synthesized() {
    let body = obj(vec![("generationConfig", obj(vec![("temperature", n(1))]))]);
    let r = wrap(&body, "p", "gemini-2.5-flash", None, &SignatureCache::new());
    let gc = r.get("request").unwrap().get("generationConfig").unwrap();
    assert!(gc.get("thinkingConfig").is_none());
}

#[test]
fn request_id_is_agent_prefixed_uuid() {
    let r = wrap(&obj(vec![]), "p", "gemini-pro", None, &SignatureCache::new());
    let id = r.get("requestId").unwrap().as_str().unwrap();
    assert_eq!(id.len(), 6 + 36);
    let uuid = &id[6..];
    let dashes: Vec<usize> = uuid.char_indices().filter(|(_, c)| *c == '-').map(|(i, _)| i).collect();
    assert_eq!(dashes, vec![8, 13, 18, 23]);
    assert!(uuid.chars().all(|c| c == '-' || c.is_ascii_digit() || ('a'..='f').contains(&c)));
    let other = wrap(&obj(vec![]), "p", "gemini-pro", None, &SignatureCache::new());
    assert_ne!(other.get("requestId").unwrap().as_str().unwrap(), id);
}

#[test]
fn envelope_carries_fixed_client_and_type() {
    let r = wrap(&obj(vec![]), "proj-1", "gemini-pro", None, &SignatureCache::new());
    assert_eq!(r.get("userAgent").unwrap().as_str(), Some("antigravity"));
    assert_eq!(r.get("requestType").unwrap().as_str(), Some("agent"));
    assert_eq!(r.get("project").unwrap().as_str(), Some("proj-1"));
}

#[test]
fn mapped_model_empty_falls_back_to_body_model() {
    let r = wrap(&obj(vec![("model", s("gemini-1.5-pro"))]), "p", "", None, &SignatureCache::new());
    assert_eq!(r.get("model").unwrap().as_str(), Some("gemini-1.5-pro"));
}

#[test]
fn undefined_markers_are_removed_at_every_depth() {
    let body = obj(vec![
        ("stop", s("[undefined]")),
        ("generationConfig", obj(vec![("topK", s("[undefined]")), ("topP", n(1))])),
        ("contents", arr(vec![obj(vec![("role", s("user")), ("name", s("[undefined]"))])])),
    ]);
    let r = wrap(&body, "p", "gemini-pro", None, &SignatureCache::new());
    let req = r.get("request").unwrap();
    assert!(req.get("stop").is_none());
    assert!(req.get("generationConfig").unwrap().get("topK").is_none());
    assert!(req.get("generationConfig").unwrap().get("topP").is_some());
    let c = at(req.get("contents").unwrap(), 0);
    assert!(c.get("name").is_none());
    assert_eq!(c.get("role").unwrap().as_str(), Some("user"));
}

#[test]
fn tool_declarations_are_cleaned() {
    let schema = obj(vec![
        ("type", s("object")),
        ("properties", obj(vec![("n", obj(vec![("type", s("number")), ("multipleOf", n(2))]))])),
        ("additionalProperties", Json::Bool(false)),
    ]);
    let body = obj(vec![(
        "tools",
        arr(vec![obj(vec![(
            "functionDeclarations",
            arr(vec![
                obj(vec![("name", s("web_search"))]),
                obj(vec![("name", s("calc")), ("parametersJsonSchema", schema)]),
            ]),
        )])]),
    )]);
    let r = wrap(&body, "p", "gemini-pro", None, &SignatureCache::new());
    let req = r.get("request").unwrap();
    let tools = items(req.get("tools").unwrap());
    let decls = items(tools[0].get("functionDeclarations").unwrap());
    assert_eq!(decls.len(), 1);
    assert_eq!(decls[0].get("name").unwrap().as_str(), Some("calc"));
    assert!(decls[0].get("parametersJsonSchema").is_none());
    let params = decls[0].get("parameters").unwrap();
    assert!(params.get("additionalProperties").is_none());
    let prop = params.get("properties").unwrap().get("n").unwrap();
    assert!(prop.get("multipleOf").is_none());
    assert_eq!(prop.get("type").unwrap().as_str(), Some("number"));
    // the search declaration asks for the upstream's own search tool, once
    assert_eq!(r.get("requestType").unwrap().as_str(), Some("web_search"));
    let with_search: Vec<&Json> = tools.iter().filter(|t| t.get("googleSearch").is_some()).collect();
    assert_eq!(with_search.len(), 1);
}

#[test]
fn search_tool_is_not_added_twice() {
    let body = obj(vec![("tools", arr(vec![obj(vec![("googleSearch", obj(vec![]))])]))]);
    let r = wrap(&body, "p", "gemini-2.5-flash", None, &SignatureCache::new());
    assert_eq!(r.get("requestType").unwrap().as_str(), Some("web_search"));
    assert_eq!(items(r.get("request").unwrap().get("tools").unwrap()).len(), 1);
}

#[test]
fn online_suffix_requests_search_and_is_stripped() {
    let r = wrap(&obj(vec![]), "p", "gemini-2.5-flash-online", None, &SignatureCache::new());
    assert_eq!(r.get("model").unwrap().as_str(), Some("gemini-2.5-flash"));
    assert_eq!(r.get("requestType").unwrap().as_str(), Some("web_search"));
    assert_eq!(items(r.get("request").unwrap().get("tools").unwrap()).len(), 1);
}

#[test]
fn image_requests_drop_tools_and_instruction() {
    let body = obj(vec![
        ("tools", arr(vec![obj(vec![("googleSearch", obj(vec![]))])])),
        ("systemInstruction", obj(vec![("parts", arr(vec![]))])),
        (
            "generationConfig",
            obj(vec![("thinkingConfig", obj(vec![])), ("responseMimeType", s("text/plain")), ("temperature", n(1))]),
        ),
    ]);
    let r = wrap(&body, "p", "gemini-3-pro-image", None, &SignatureCache::new());
    assert_eq!(r.get("requestType").unwrap().as_str(), Some("image_gen"));
    let req = r.get("request").unwrap();
    assert!(req.get("tools").is_none());
    assert!(req.get("systemInstruction").is_none());
    let gc = req.get("generationConfig").unwrap();
    assert!(gc.get("thinkingConfig").is_none());
    assert!(gc.get("responseMimeType").is_none());
    assert!(gc.get("temperature").is_some());
    assert_eq!(gc.get("imageConfig").unwrap().get("aspectRatio").unwrap().as_str(), Some("1:1"));
}

#[test]
fn persona_rule_applied_twice_adds_nothing() {
    let body = obj(vec![("systemInstruction", obj(vec![("parts", arr(vec![obj(vec![("text", s("Be brief"))])]))]))]);
    let once = wrap(&body, "p", "gemini-pro", None, &SignatureCache::new());
    let inner = once.get("request").unwrap().copy();
    let twice = wrap(&inner, "p", "gemini-pro", None, &SignatureCache::new());
    let sys1 = once.get("request").unwrap().get("systemInstruction").unwrap();
    let sys2 = twice.get("request").unwrap().get("systemInstruction").unwrap();
    assert_eq!(items(sys1.get("parts").unwrap()).len(), 2);
    assert_eq!(items(sys2.get("parts").unwrap()).len(), 2);
    assert_eq!(sys2.get("role").unwrap().as_str(), Some("user"));
    assert_eq!(format!("{:?}", sys1), format!("{:?}", sys2));
}

#[test]
fn non_object_body_passes_through() {
    let r = wrap(&s("not an object"), "p", "gemini-pro", None, &SignatureCache::new());
    assert_eq!(r.get("request").unwrap().as_str(), Some("not an object"));
}

#[test]
fn echo_reply_unwraps_to_sent_request() {
    let body = obj(vec![("contents", arr(vec![]))]);
    let sent = wrap(&body, "p", "gemini-pro", None, &SignatureCache::new());
    let echoed = obj(vec![("response", sent.get("request").unwrap().copy())]);
    let back = unwrap_response(&echoed);
    assert_eq!(format!("{:?}", back), format!("{:?}", sent.get("request").unwrap()));
    let plain = obj(vec![("candidates", arr(vec![]))]);
    assert_eq!(format!("{:?}", unwrap_response(&plain)), format!("{:?}", plain));
}

#[test]
fn short_signature_is_not_injected() {
    let mut cache = SignatureCache::new();
    cache.cache_session_signature("sess", "short".to_string());
    let body = obj(vec![("contents", arr(vec![obj(vec![("parts", arr(vec![obj(vec![("functionCall", obj(vec![]))])]))])]))]);
    let r = wrap(&body, "p", "gemini-pro", Some("sess"), &cache);
    let part = at(at(r.get("request").unwrap().get("contents").unwrap(), 0).get("parts").unwrap(), 0);
    assert!(part.get("thoughtSignature").is_none());
}
