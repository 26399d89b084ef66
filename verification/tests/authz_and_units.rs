use influxql_rewrite::authz::{extract_token, require_any_permission, Error};
use influxql_rewrite::selectors::{
    extremum_action, first_needs_update, last_needs_update, min_candidate_time, ActionNeeded,
};

#[test]
fn test_extract_token() {
    assert_eq!(None, extract_token(None));
    assert_eq!(None, extract_token(Some("".as_bytes())));
    assert_eq!(None, extract_token(Some("Basic".as_bytes())));
    assert_eq!(None, extract_token(Some("Basic Og==".as_bytes()))); // ":"
    assert_eq!(None, extract_token(Some("Basic dXNlcm5hbWU6".as_bytes()))); // "username:"
    assert_eq!(None, extract_token(Some("Basic Og==".as_bytes()))); // ":"
    assert_eq!(
        Some(b"password".to_vec()),
        extract_token(Some("Basic OnBhc3N3b3Jk".as_bytes()))
    ); // ":password"
    assert_eq!(
        Some(b"password2".to_vec()),
        extract_token(Some("Basic dXNlcm5hbWU6cGFzc3dvcmQy".as_bytes()))
    ); // "username:password2"
    assert_eq!(None, extract_token(Some("Bearer".as_bytes())));
    assert_eq!(None, extract_token(Some("Bearer ".as_bytes())));
    assert_eq!(Some(b"token".to_vec()), extract_token(Some("Bearer token".as_bytes())));
    assert_eq!(None, extract_token(Some("Token".as_bytes())));
    assert_eq!(None, extract_token(Some("Token ".as_bytes())));
    assert_eq!(Some(b"token2".to_vec()), extract_token(Some("Token token2".as_bytes())));
}

#[test]
fn extract_token_refuses_other_schemes() {
    assert_eq!(None, extract_token(Some("Digest abc".as_bytes())));
    assert_eq!(None, extract_token(Some("Basic !!!notbase64".as_bytes())));
}

#[test]
fn authz_error_text() {
    let e = Error::verification("test error".to_string(), "status".to_string());
    assert_eq!(e.text(), "token verification not possible: test error");
    assert_eq!(Error::Forbidden.text(), "forbidden");
    assert_eq!(Error::NoToken.text(), "no token");
}

#[test]
fn require_any_permission_rules() {
    let granted: Result<Vec<u8>, Error> = Ok(vec![1u8]);
    assert!(require_any_permission(granted).is_ok());

    let empty: Result<Vec<u8>, Error> = Ok(vec![]);
    assert!(matches!(require_any_permission(empty), Err(Error::Forbidden)));

    let failed: Result<Vec<u8>, Error> = Err(Error::NoToken);
    assert!(matches!(require_any_permission(failed), Err(Error::NoToken)));
}

#[test]
fn selector_action_needed() {
    assert!(ActionNeeded::UpdateValueAndTime.update_value());
    assert!(ActionNeeded::UpdateValueAndTime.update_time());
    assert!(!ActionNeeded::UpdateTime.update_value());
    assert!(ActionNeeded::UpdateTime.update_time());
    assert!(!ActionNeeded::Nothing.update_value());
    assert!(!ActionNeeded::Nothing.update_time());

    assert_eq!(extremum_action(false, false, false), ActionNeeded::UpdateValueAndTime);
    assert_eq!(extremum_action(true, true, false), ActionNeeded::UpdateValueAndTime);
    assert_eq!(extremum_action(true, false, true), ActionNeeded::UpdateTime);
    assert_eq!(extremum_action(true, false, false), ActionNeeded::Nothing);
}

#[test]
fn selector_time_updates() {
    assert!(first_needs_update(None, Some(100)));
    assert!(first_needs_update(Some(300), Some(200)));
    assert!(!first_needs_update(Some(100), Some(200)));
    assert!(!first_needs_update(Some(100), None));

    assert!(last_needs_update(None, Some(100)));
    assert!(last_needs_update(Some(100), Some(200)));
    assert!(!last_needs_update(Some(300), Some(200)));
    assert!(!last_needs_update(Some(100), None));

    assert_eq!(min_candidate_time(&vec![300, 100, 200], None), Some(100));
    assert_eq!(min_candidate_time(&vec![300, 200], Some(50)), Some(50));
    assert_eq!(min_candidate_time(&vec![], None), None);
}
