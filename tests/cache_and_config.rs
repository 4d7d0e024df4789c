use antigravity_core::config::{
    default_block_message, default_false, default_request_timeout, default_thinking_budget_custom_value, default_true,
    default_zai_base_url, default_zai_haiku_model, default_zai_opus_model, default_zai_sonnet_model, get_thinking_budget_config,
    normalize_budget, update_thinking_budget_config, ExperimentalConfig, ProxyAuthMode, ProxyConfig, ThinkingBudgetConfig,
    ThinkingBudgetMode, ThinkingBudgetStore, ZaiConfig, ZaiDispatchMode,
};
use antigravity_core::signature_cache::SignatureCache;

const LONG: &str = "0123456789012345678901234567890123456789012345678901234567890";

#[test]
fn long_token_is_stored_and_read_back() {
    let mut c = SignatureCache::new();
    c.cache_session_signature("s", LONG.to_string());
    assert_eq!(c.get_session_signature("s").as_deref(), Some(LONG));
}

#[test]
fn token_of_fifty_characters_is_dropped() {
    let mut c = SignatureCache::new();
    c.cache_session_signature("s", LONG.to_string());
    let fifty = "x".repeat(50);
    c.cache_session_signature("s", fifty);
    assert_eq!(c.get_session_signature("s").as_deref(), Some(LONG));
    let fifty_one = "y".repeat(51);
    c.cache_session_signature("s", fifty_one.clone());
    assert_eq!(c.get_session_signature("s"), Some(fifty_one));
    c.cache_session_signature("t", "short".to_string());
    assert_eq!(c.get_session_signature("t"), None);
}

#[test]
fn full_cache_drops_least_recently_written() {
    let mut c = SignatureCache::with_capacity(2);
    c.cache_session_signature("a", format!("{}a", LONG));
    c.cache_session_signature("b", format!("{}b", LONG));
    c.cache_session_signature("a", format!("{}A", LONG));
    c.cache_session_signature("c", format!("{}c", LONG));
    assert!(c.get_session_signature("b").is_none());
    assert_eq!(c.get_session_signature("a"), Some(format!("{}A", LONG)));
    assert_eq!(c.get_session_signature("c"), Some(format!("{}c", LONG)));
}

#[test]
fn budget_modes() {
    let auto = ThinkingBudgetConfig { mode: ThinkingBudgetMode::Auto, custom_value: 7 };
    assert_eq!(normalize_budget(32000, &auto), 24576);
    assert_eq!(normalize_budget(24576, &auto), 24576);
    assert_eq!(normalize_budget(1000, &auto), 1000);
    let pass = ThinkingBudgetConfig { mode: ThinkingBudgetMode::Passthrough, custom_value: 7 };
    assert_eq!(normalize_budget(32000, &pass), 32000);
    let custom = ThinkingBudgetConfig { mode: ThinkingBudgetMode::Custom, custom_value: 7 };
    assert_eq!(normalize_budget(32000, &custom), 7);
    assert_eq!(normalize_budget(0, &custom), 7);
}

#[test]
fn budget_store_updates() {
    let mut store = ThinkingBudgetStore::new();
    assert_eq!(get_thinking_budget_config(&store), ThinkingBudgetConfig::default());
    let cfg = ThinkingBudgetConfig { mode: ThinkingBudgetMode::Custom, custom_value: 99 };
    update_thinking_budget_config(&mut store, cfg);
    assert_eq!(get_thinking_budget_config(&store), cfg);
}

#[test]
fn defaults() {
    assert_eq!(default_thinking_budget_custom_value(), 24576);
    assert!(default_true());
    assert!(!default_false());
    assert_eq!(default_block_message(), "Access denied");
    assert_eq!(default_request_timeout(), 120);
    assert_eq!(default_zai_base_url(), "https://api.z.ai/api/anthropic");
    assert_eq!(default_zai_opus_model(), "glm-4.7");
    assert_eq!(default_zai_sonnet_model(), "glm-4.7");
    assert_eq!(default_zai_haiku_model(), "glm-4.5-air");
    assert_eq!(ProxyAuthMode::default(), ProxyAuthMode::Auto);
    assert_eq!(ZaiDispatchMode::default(), ZaiDispatchMode::Off);
    let z = ZaiConfig::default();
    assert_eq!(z.dispatch_mode, ZaiDispatchMode::Off);
    assert!(z.model_mapping.is_empty());
    let e = ExperimentalConfig::default();
    assert!(e.thresholds_valid());
    assert_eq!(
        (e.context_compression_threshold_l1, e.context_compression_threshold_l2, e.context_compression_threshold_l3),
        (400, 550, 700)
    );
    let bad = ExperimentalConfig { context_compression_threshold_l2: 300, ..e };
    assert!(!bad.thresholds_valid());
}

#[test]
fn proxy_config_default_and_bind_address() {
    let mut c = ProxyConfig::default();
    assert_eq!(c.port, 8045);
    assert!(c.enable_logging);
    assert!(c.api_key.starts_with("sk-"));
    assert_eq!(c.api_key.len(), 35);
    assert!(c.api_key[3..].chars().all(|ch| ch.is_ascii_digit() || ('a'..='f').contains(&ch)));
    assert_ne!(c.api_key, ProxyConfig::default().api_key);
    assert_eq!(c.get_bind_address(), "127.0.0.1");
    c.allow_lan_access = true;
    assert_eq!(c.get_bind_address(), "0.0.0.0");
}
