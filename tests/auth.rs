use tsv_tennis_backend::auth::{
    accept_subject, auth_claims, bearer_token, is_legacy_subject, is_selection_kind,
    selection_claims, AuthError, SelectionTokenClaims,
};

#[test]
fn bearer_token_is_taken_from_header() {
    assert_eq!(bearer_token("Bearer abc.def.ghi"), Some("abc.def.ghi".to_string()));
    assert_eq!(bearer_token("Bearer "), Some(String::new()));
    assert_eq!(bearer_token("bearer abc"), None);
    assert_eq!(bearer_token("Basic abc"), None);
    assert_eq!(bearer_token(""), None);
}

#[test]
fn numeric_subjects_are_legacy() {
    assert!(is_legacy_subject("0"));
    assert!(is_legacy_subject("123"));
    assert!(is_legacy_subject("+7"));
    assert!(is_legacy_subject("4294967295"));
    assert!(is_legacy_subject("0004294967295"));
    assert!(!is_legacy_subject("4294967296"));
    assert!(!is_legacy_subject("99999999999999999999999"));
    assert!(!is_legacy_subject("rec123"));
    assert!(!is_legacy_subject(""));
    assert!(!is_legacy_subject("+"));
    assert!(!is_legacy_subject("-1"));
}

#[test]
fn record_ids_are_accepted_as_subjects() {
    assert_eq!(accept_subject("recABC123".to_string()), Ok("recABC123".to_string()));
    assert_eq!(accept_subject("42".to_string()), Err(AuthError::Unauthorized));
}

#[test]
fn claims_expire_a_day_after_issue() {
    let c = auth_claims("rec1", 1_700_000_000);
    assert_eq!(c.sub, "rec1");
    assert_eq!(c.iat, 1_700_000_000);
    assert_eq!(c.exp, 1_700_086_400);
}

#[test]
fn selection_claims_last_five_minutes() {
    let c = selection_claims("multi@example.com", 1_700_000_000);
    assert_eq!(c.sub, "multi@example.com");
    assert_eq!(c.exp, 1_700_000_300);
    assert_eq!(c.typ, "selection");
    assert!(is_selection_kind(&c));
    let other = SelectionTokenClaims { sub: "x".to_string(), exp: 1, typ: "access".to_string() };
    assert!(!is_selection_kind(&other));
}
