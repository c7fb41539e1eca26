use tsv_tennis_backend::token_store::TokenStore;

#[test]
fn issued_token_is_found_and_valid() {
    let mut s = TokenStore::new();
    let t = s.create_reset_token_at("rec1".to_string(), "tok1".to_string(), 1000);
    assert_eq!(t, "tok1");
    let got = s.get_reset_token(&"tok1".to_string()).unwrap();
    assert_eq!(got.user_id, "rec1");
    assert_eq!(got.created_at, 1000);
    assert_eq!(got.expires_at, 1000 + 86400);
    assert!(s.is_token_valid_at(&"tok1".to_string(), 1000 + 86399));
    assert!(!s.is_token_valid_at(&"tok1".to_string(), 1000 + 86400));
    assert!(!s.is_token_valid_at(&"other".to_string(), 1000));
}

#[test]
fn new_token_replaces_the_users_old_one() {
    let mut s = TokenStore::new();
    s.create_reset_token_at("rec1".to_string(), "tok1".to_string(), 1000);
    s.create_reset_token_at("rec2".to_string(), "tok2".to_string(), 1000);
    s.create_reset_token_at("rec1".to_string(), "tok3".to_string(), 2000);
    assert!(s.get_reset_token(&"tok1".to_string()).is_none());
    assert!(s.get_reset_token(&"tok2".to_string()).is_some());
    assert_eq!(s.get_reset_token(&"tok3".to_string()).unwrap().user_id, "rec1");
}

#[test]
fn consumed_token_is_gone() {
    let mut s = TokenStore::new();
    s.create_reset_token_at("rec1".to_string(), "tok1".to_string(), 1000);
    let t = s.consume_reset_token(&"tok1".to_string()).unwrap();
    assert_eq!(t.user_id, "rec1");
    assert!(s.consume_reset_token(&"tok1".to_string()).is_none());
    assert!(s.get_reset_token(&"tok1".to_string()).is_none());
}

#[test]
fn cleanup_drops_expired_tokens() {
    let mut s = TokenStore::new();
    s.create_reset_token_at("rec1".to_string(), "old".to_string(), 0);
    s.create_reset_token_at("rec2".to_string(), "new".to_string(), 50_000);
    s.cleanup_expired_tokens_at(86_400);
    assert!(s.get_reset_token(&"old".to_string()).is_none());
    assert!(s.get_reset_token(&"new".to_string()).is_some());
}

#[test]
fn expiry_stops_at_the_largest_time() {
    let mut s = TokenStore::new();
    s.create_reset_token_at("rec1".to_string(), "t".to_string(), i64::MAX - 10);
    assert_eq!(s.get_reset_token(&"t".to_string()).unwrap().expires_at, i64::MAX);
}

#[test]
fn random_tokens_are_fresh_and_valid_now() {
    let mut s = TokenStore::new();
    let a = s.create_reset_token("rec1".to_string());
    let b = s.create_reset_token("rec2".to_string());
    assert_eq!(a.len(), 36);
    assert_ne!(a, b);
    assert!(s.is_token_valid(&a));
    assert!(s.is_token_valid(&b));
    s.cleanup_expired_tokens();
    assert!(s.get_reset_token(&a).is_some());
}
