use antigravity_core::config::ZaiDispatchMode;
use antigravity_core::dispatch::{choose_provider, classify_status, Dispatch, DispatchPhase, ErrorClass, Provider};
use antigravity_core::log_bridge::{
    clear_log_buffer, disable_log_bridge, enable_log_bridge, get_buffered_logs, is_log_bridge_enabled, trim_quotes, FieldVisitor,
    LogBridge, LogLevel, TauriLogBridgeLayer, MAX_BUFFER_SIZE,
};
use antigravity_core::logs::{cleanup_cutoff, is_expired, needs_size_cleanup, next_size_victim, size_target_reached, total_size, LogFileInfo};
use antigravity_core::pool::{FailureKind, PoolError};

#[test]
fn statuses_are_classified() {
    assert_eq!(classify_status(401), ErrorClass::AuthTerminal);
    assert_eq!(classify_status(403), ErrorClass::AuthTerminal);
    assert_eq!(classify_status(429), ErrorClass::QuotaTransient);
    assert_eq!(classify_status(504), ErrorClass::UpstreamTimeout);
    assert_eq!(classify_status(400), ErrorClass::Other);
}

#[test]
fn dispatch_fails_over_then_gives_up() {
    let mut d = Dispatch::new(2);
    d.on_selected(Ok("a".to_string()));
    assert_eq!(d.phase, DispatchPhase::Mapping);
    d.on_mapped();
    assert_eq!(d.on_failure(ErrorClass::AuthTerminal, "revoked".to_string()), Some(FailureKind::AuthTerminal));
    assert_eq!(d.phase, DispatchPhase::Retrying);
    assert_eq!(d.skipped, vec!["a".to_string()]);
    d.next_attempt();
    d.on_selected(Ok("b".to_string()));
    d.on_mapped();
    assert_eq!(d.on_failure(ErrorClass::QuotaTransient, "429".to_string()), Some(FailureKind::QuotaTransient));
    assert_eq!(d.phase, DispatchPhase::Failed);
    assert_eq!(d.last_error.as_deref(), Some("429"));
    assert_eq!(d.attempts, 2);
}

#[test]
fn dispatch_success_and_other_errors() {
    let mut d = Dispatch::new(3);
    d.on_selected(Ok("a".to_string()));
    d.on_mapped();
    d.on_success();
    assert_eq!(d.phase, DispatchPhase::Succeeded);
    let mut e = Dispatch::new(3);
    e.on_selected(Ok("a".to_string()));
    e.on_mapped();
    assert_eq!(e.on_failure(ErrorClass::Other, "bad request".to_string()), None);
    assert_eq!(e.phase, DispatchPhase::Failed);
    let mut f = Dispatch::new(3);
    f.on_selected(Err(PoolError::PoolExhausted));
    assert_eq!(f.phase, DispatchPhase::Failed);
    let mut g = Dispatch::new(3);
    g.on_selected(Ok("a".to_string()));
    g.on_cancelled();
    assert_eq!(g.phase, DispatchPhase::Failed);
}

#[test]
fn auxiliary_provider_modes() {
    assert_eq!(choose_provider(ZaiDispatchMode::Off, true, true, 2, 0), Some(Provider::Native));
    assert_eq!(choose_provider(ZaiDispatchMode::Off, true, false, 0, 0), None);
    assert_eq!(choose_provider(ZaiDispatchMode::Exclusive, true, true, 2, 0), Some(Provider::Auxiliary));
    assert_eq!(choose_provider(ZaiDispatchMode::Exclusive, false, true, 2, 0), Some(Provider::Native));
    assert_eq!(choose_provider(ZaiDispatchMode::Fallback, true, true, 2, 0), Some(Provider::Native));
    assert_eq!(choose_provider(ZaiDispatchMode::Fallback, true, false, 2, 0), Some(Provider::Auxiliary));
    let turns: Vec<Option<Provider>> = (0..6).map(|t| choose_provider(ZaiDispatchMode::Pooled, true, true, 2, t)).collect();
    assert_eq!(
        turns,
        vec![
            Some(Provider::Native),
            Some(Provider::Native),
            Some(Provider::Auxiliary),
            Some(Provider::Native),
            Some(Provider::Native),
            Some(Provider::Auxiliary)
        ]
    );
}

fn event(bridge: &mut LogBridge, msg: &str) -> Option<u64> {
    let mut v = FieldVisitor::new();
    v.record_str("message", msg);
    bridge.record_event(LogLevel::Info, "t", v, 7).map(|e| e.id)
}

#[test]
fn log_bridge_records_only_when_enabled() {
    let _layer = TauriLogBridgeLayer::new();
    let mut b = LogBridge::new();
    assert!(!is_log_bridge_enabled(&b));
    assert_eq!(event(&mut b, "x"), None);
    assert!(enable_log_bridge(&mut b).is_empty());
    assert_eq!(event(&mut b, "x"), Some(0));
    assert_eq!(event(&mut b, "y"), Some(1));
    assert_eq!(event(&mut b, ""), None);
    let logs = get_buffered_logs(&b);
    assert_eq!(logs.len(), 2);
    assert_eq!(logs[1].message, "y");
    assert_eq!(logs[1].level, "INFO");
    assert_eq!(enable_log_bridge(&mut b).len(), 2);
    disable_log_bridge(&mut b);
    assert_eq!(event(&mut b, "z"), None);
    clear_log_buffer(&mut b);
    assert!(get_buffered_logs(&b).is_empty());
}

#[test]
fn log_buffer_keeps_the_newest_entries() {
    let mut b = LogBridge::new();
    enable_log_bridge(&mut b);
    for k in 0..(MAX_BUFFER_SIZE + 3) {
        event(&mut b, &format!("m{}", k));
    }
    let logs = get_buffered_logs(&b);
    assert_eq!(logs.len(), MAX_BUFFER_SIZE);
    assert_eq!(logs[0].id, 3);
    assert_eq!(logs[MAX_BUFFER_SIZE - 1].message, format!("m{}", MAX_BUFFER_SIZE + 2));
}

#[test]
fn visitor_fields_and_message() {
    let mut v = FieldVisitor::new();
    v.record_debug("message", "\"quoted text\"");
    v.record_value("count", "3");
    v.record_value("count", "4");
    v.record_str("user", "bob");
    assert_eq!(v.message.as_deref(), Some("quoted text"));
    assert_eq!(v.fields.len(), 2);
    assert!(v.fields.contains(&("count".to_string(), "4".to_string())));
    let mut b = LogBridge::new();
    enable_log_bridge(&mut b);
    let mut only_fields = FieldVisitor::new();
    only_fields.record_value("k", "v");
    let e = b.record_event(LogLevel::Warn, "target", only_fields, 1).unwrap();
    assert_eq!(e.message, "");
    assert_eq!(e.level, "WARN");
    assert_eq!(e.target, "target");
}

#[test]
fn quotes_are_trimmed() {
    assert_eq!(trim_quotes("\"\"abc\""), "abc");
    assert_eq!(trim_quotes("\"\"\""), "");
    assert_eq!(trim_quotes("a\"b"), "a\"b");
}

#[test]
fn log_cleanup_decisions() {
    assert_eq!(cleanup_cutoff(1_000_000, 7), 1_000_000 - 7 * 86400);
    assert_eq!(cleanup_cutoff(100, 7), 0);
    let old = LogFileInfo { size: 10, modified_secs: 5 };
    assert!(is_expired(&old, 6));
    assert!(!is_expired(&old, 5));
    let files = vec![
        LogFileInfo { size: 600 * 1024 * 1024, modified_secs: 30 },
        LogFileInfo { size: 300 * 1024 * 1024, modified_secs: 10 },
        LogFileInfo { size: 300 * 1024 * 1024, modified_secs: 10 },
    ];
    let total = total_size(&files);
    assert_eq!(total, 1200 * 1024 * 1024);
    assert!(needs_size_cleanup(total));
    assert!(!size_target_reached(total));
    assert!(size_target_reached(512 * 1024 * 1024));
    let mut tried = vec![false, false, false];
    assert_eq!(next_size_victim(&files, &tried), Some(1));
    tried[1] = true;
    assert_eq!(next_size_victim(&files, &tried), Some(2));
    tried[2] = true;
    assert_eq!(next_size_victim(&files, &tried), Some(0));
    tried[0] = true;
    assert_eq!(next_size_victim(&files, &tried), None);
}
