use antigravity_core::admin::to_account_response;
use antigravity_core::pool::{Account, CredentialPool, FailureKind, PoolError};
use antigravity_core::sticky::StickyRouter;

fn account(id: &str) -> Account {
    Account::new(id.to_string(), format!("{}@example.com", id), format!("rt-{}", id), format!("at-{}", id))
}

fn pool_of(ids: &[&str]) -> CredentialPool {
    let mut pool = CredentialPool::new();
    for id in ids {
        assert!(pool.add_account(account(id)).is_ok());
    }
    pool
}

#[test]
fn round_robin_with_distinct_sessions_wraps_around() {
    let mut pool = pool_of(&["a", "b", "c"]);
    let none: Vec<String> = Vec::new();
    let mut chosen = Vec::new();
    for k in 0..5 {
        let key = format!("session-{}", k);
        chosen.push(pool.select(Some(key.as_str()), None, &none, 100 + k).unwrap());
    }
    assert_eq!(chosen, vec![0, 1, 2, 0, 1]);
    for k in 0..5 {
        let key = format!("session-{}", k);
        let expected = ["a", "b", "c"][chosen[k] as usize];
        assert_eq!(pool.session_binding(key.as_str()).as_deref(), Some(expected));
    }
    assert_eq!(pool.account(1).last_used, 104);
}

#[test]
fn repeated_selection_keeps_the_session_account() {
    let mut pool = pool_of(&["a", "b", "c"]);
    let none: Vec<String> = Vec::new();
    let first = pool.select(Some("conv"), None, &none, 1).unwrap();
    let _ = pool.select(Some("other-1"), None, &none, 2).unwrap();
    let _ = pool.select(Some("other-2"), None, &none, 3).unwrap();
    for t in 4..8 {
        assert_eq!(pool.select(Some("conv"), None, &none, t).unwrap(), first);
    }
}

#[test]
fn auth_failure_disables_and_excludes_the_account() {
    let mut pool = pool_of(&["a", "b"]);
    let none: Vec<String> = Vec::new();
    let i = pool.select(Some("s1"), None, &none, 1).unwrap();
    let id = pool.account(i).id.clone();
    pool.mark_failed(id.as_str(), FailureKind::AuthTerminal, "invalid_grant".to_string(), 50);
    let a = pool.account(i);
    assert!(a.disabled);
    assert_eq!(a.disabled_reason.as_deref(), Some("invalid_grant"));
    assert_eq!(a.disabled_at, Some(50));
    assert!(pool.session_binding("s1").is_none());
    for k in 0..6 {
        let key = format!("s-{}", k);
        assert_ne!(pool.select(Some(key.as_str()), None, &none, 60).unwrap(), i);
    }
    assert_ne!(pool.select(Some("s1"), None, &none, 61).unwrap(), i);
}

#[test]
fn transient_failure_leaves_the_account_eligible() {
    let mut pool = pool_of(&["a"]);
    let none: Vec<String> = Vec::new();
    pool.mark_failed("a", FailureKind::QuotaTransient, "429".to_string(), 5);
    assert!(!pool.account(0).disabled);
    assert_eq!(pool.select(None, None, &none, 6), Ok(0));
    let skipped = vec!["a".to_string()];
    assert_eq!(pool.select(None, None, &skipped, 7), Err(PoolError::PoolExhausted));
}

#[test]
fn concurrent_switches_one_wins() {
    let mut pool = pool_of(&["a", "b"]);
    assert_eq!(pool.begin_switch(), Ok(()));
    assert_eq!(pool.begin_switch(), Err(PoolError::SwitchConflict));
    pool.finish_switch(Some("b".to_string()));
    assert_eq!(pool.current_account_id().as_deref(), Some("b"));
    assert_eq!(pool.begin_switch(), Ok(()));
    pool.finish_switch(None);
    assert_eq!(pool.current_account_id().as_deref(), Some("b"));
}

#[test]
fn preferred_account_pins_selection() {
    let mut pool = pool_of(&["a", "b", "c"]);
    let none: Vec<String> = Vec::new();
    pool.set_preferred_account(Some("c".to_string()));
    for k in 0..4 {
        let key = format!("k{}", k);
        assert_eq!(pool.select(Some(key.as_str()), None, &none, 1), Ok(2));
    }
    pool.mark_failed("c", FailureKind::AuthTerminal, "revoked".to_string(), 2);
    assert_eq!(pool.select(Some("k9"), None, &none, 3), Ok(0));
    assert_eq!(pool.get_preferred_account().as_deref(), Some("c"));
}

#[test]
fn protected_models_and_proxy_disabled_are_skipped() {
    let mut a = account("a");
    a.protected_models.push("gemini-3-pro".to_string());
    let mut b = account("b");
    b.proxy_disabled = true;
    let mut pool = CredentialPool::new();
    pool.add_account(a).unwrap();
    pool.add_account(b).unwrap();
    pool.add_account(account("c")).unwrap();
    let none: Vec<String> = Vec::new();
    assert_eq!(pool.select(None, Some("gemini-3-pro"), &none, 1), Ok(2));
    assert_eq!(pool.select(None, Some("gemini-2.5-flash"), &none, 1), Ok(0));
}

#[test]
fn empty_pool_is_exhausted_and_duplicates_refused() {
    let mut pool = CredentialPool::new();
    let none: Vec<String> = Vec::new();
    assert_eq!(pool.select(Some("s"), None, &none, 1), Err(PoolError::PoolExhausted));
    pool.add_account(account("a")).unwrap();
    assert_eq!(pool.add_account(account("a")), Err(PoolError::DuplicateAccount));
    assert_eq!(pool.len(), 1);
    assert_eq!(pool.find("a"), Some(0));
    assert_eq!(pool.find("zz"), None);
}

#[test]
fn clearing_sessions_drops_bindings() {
    let mut pool = pool_of(&["a", "b"]);
    let none: Vec<String> = Vec::new();
    pool.select(Some("x"), None, &none, 1).unwrap();
    assert!(pool.session_binding("x").is_some());
    pool.clear_all_sessions();
    assert!(pool.session_binding("x").is_none());
}

#[test]
fn sticky_router_binds_and_clears() {
    let mut r = StickyRouter::new();
    r.bind("s1", "a");
    r.bind("s2", "b");
    r.bind("s3", "a");
    r.bind("s1", "c");
    assert_eq!(r.lookup("s1").as_deref(), Some("c"));
    r.clear_account("a");
    assert!(r.lookup("s3").is_none());
    assert_eq!(r.lookup("s2").as_deref(), Some("b"));
    r.clear("s2");
    assert!(r.lookup("s2").is_none());
    r.clear_all();
    assert!(r.lookup("s1").is_none());
}

#[test]
fn account_response_marks_current() {
    let mut a = account("a");
    a.protected_models.push("m1".to_string());
    let current = Some("a".to_string());
    let r = to_account_response(&a, &current);
    assert!(r.is_current);
    assert_eq!(r.email, "a@example.com");
    assert_eq!(r.protected_models, vec!["m1".to_string()]);
    assert!(r.quota.is_none());
    let r2 = to_account_response(&a, &Some("b".to_string()));
    assert!(!r2.is_current);
    assert!(!to_account_response(&a, &None).is_current);
}
