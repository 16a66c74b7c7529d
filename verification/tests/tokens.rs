use octoweb::tokens::{resolve_scope, TokenTable};

#[test]
fn workspace_token_resolves_to_its_workspace() {
    let mut t = TokenTable::new();
    t.register_workspace("ws1", "tok-a".to_string());
    let s = resolve_scope(&t, Some("tok-a")).unwrap().unwrap();
    assert_eq!(s.workspace_id, "ws1");
    assert_eq!(s.session_id, None);
}

#[test]
fn missing_header_runs_unscoped_and_unknown_token_is_refused() {
    let t = TokenTable::new();
    assert!(resolve_scope(&t, None).unwrap().is_none());
    let err = resolve_scope(&t, Some("nope")).unwrap_err();
    assert!(err.starts_with("Unknown workspace token"));
}

#[test]
fn session_reconnect_replaces_its_token() {
    let mut t = TokenTable::new();
    t.register_session("ws1", 5, "old".to_string());
    t.register_session("ws1", 5, "new".to_string());
    assert!(t.lookup("old").is_none());
    assert_eq!(t.lookup("new").unwrap().session_id, Some(5));
}

#[test]
fn unregistering_drops_tokens() {
    let mut t = TokenTable::new();
    t.register_workspace("ws1", "a".to_string());
    t.register_session("ws1", 1, "b".to_string());
    t.register_session("ws2", 2, "c".to_string());
    t.unregister_session(2);
    assert!(t.lookup("c").is_none());
    assert!(t.lookup("b").is_some());
    t.unregister_workspace("ws1");
    assert!(t.lookup("a").is_none());
    assert!(t.lookup("b").is_none());
}
