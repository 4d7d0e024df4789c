use antigravity_core::admin::{extract_model_ids, get_oauth_redirect_uri};
use antigravity_core::gemini::{observed_signature, resolve_model_id};
use antigravity_core::json::Json;

fn s(text: &str) -> Json {
    Json::Str(text.to_string())
}

fn obj(pairs: Vec<(&str, Json)>) -> Json {
    Json::Object(pairs.into_iter().map(|(k, v)| (k.to_string(), v)).collect())
}

#[test]
fn redirect_uri_prefers_public_url() {
    assert_eq!(
        get_oauth_redirect_uri(Some("https://abv.example.com//"), 8045, Some("h"), None),
        "https://abv.example.com/auth/callback"
    );
    assert_eq!(get_oauth_redirect_uri(None, 8045, Some("h:9"), None), "http://h:9/auth/callback");
    assert_eq!(get_oauth_redirect_uri(None, 8045, Some("h:9"), Some("https")), "https://h:9/auth/callback");
    assert_eq!(get_oauth_redirect_uri(None, 8045, None, None), "http://localhost:8045/auth/callback");
    assert_eq!(get_oauth_redirect_uri(None, 7, None, None), "http://localhost:7/auth/callback");
}

#[test]
fn model_ids_are_listed_in_order() {
    let reply = obj(vec![(
        "data",
        Json::Array(vec![
            obj(vec![("id", s("glm-4.7"))]),
            obj(vec![("name", s("no id"))]),
            obj(vec![("id", s("glm-4.5-air"))]),
        ]),
    )]);
    assert_eq!(extract_model_ids(&reply), vec!["glm-4.7".to_string(), "glm-4.5-air".to_string()]);
    assert!(extract_model_ids(&obj(vec![])).is_empty());
}

#[test]
fn custom_mapping_resolves_models() {
    let mapping = vec![("sonnet-alias".to_string(), "gemini-2.5-pro".to_string())];
    assert_eq!(resolve_model_id("sonnet-alias", &mapping), "gemini-2.5-pro");
    assert_eq!(resolve_model_id("gemini-2.5-flash", &mapping), "gemini-2.5-flash");
}

#[test]
fn reply_signature_is_found() {
    let reply = obj(vec![(
        "candidates",
        Json::Array(vec![obj(vec![(
            "content",
            obj(vec![(
                "parts",
                Json::Array(vec![
                    obj(vec![("text", s("a")), ("thoughtSignature", s("first"))]),
                    obj(vec![("functionCall", obj(vec![])), ("thoughtSignature", s("second"))]),
                    obj(vec![("text", s("b"))]),
                ]),
            )]),
        )])]),
    )]);
    assert_eq!(observed_signature(&reply).as_deref(), Some("second"));
    assert_eq!(observed_signature(&obj(vec![("candidates", Json::Array(vec![]))])), None);
}
